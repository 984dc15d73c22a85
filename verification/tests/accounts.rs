use dios3::account::Account;
use dios3::account_repo::{
    account_of, delete_account, fetch_accounts, fetch_accounts_paginated, get_default_account,
    save_account_to_db, AccountRow, AccountStatement,
};
use dios3::session::{init_state, SessionState};

fn row(id: i64, name: &str, is_default: i64) -> AccountRow {
    AccountRow {
        id,
        name: Some(name.to_string()),
        description: Some(format!("about {}", name)),
        access_key: Some(format!("AK{}", id)),
        secret_key: Some(format!("SK{}", id)),
        is_default: Some(is_default),
        default_region: Some("eu-west-1".to_string()),
    }
}

fn account(id: i64, is_default: bool) -> Account {
    Account {
        id,
        name: format!("account {}", id),
        description: "".to_string(),
        access_key: "AK".to_string(),
        secret_key: "SK".to_string(),
        is_default,
        default_region: "eu-west-1".to_string(),
    }
}

#[test]
fn complete_row_becomes_an_account() {
    let account = account_of(&row(3, "prod", 1)).unwrap();
    assert_eq!(account.id, 3);
    assert_eq!(account.name, "prod");
    assert_eq!(account.description, "about prod");
    assert_eq!(account.access_key, "AK3");
    assert_eq!(account.secret_key, "SK3");
    assert!(account.is_default);
    assert_eq!(account.default_region, "eu-west-1");
}

#[test]
fn only_the_mark_one_makes_a_default_account() {
    assert!(!account_of(&row(1, "a", 0)).unwrap().is_default);
    assert!(!account_of(&row(1, "a", 2)).unwrap().is_default);
    assert!(!account_of(&row(1, "a", -1)).unwrap().is_default);
}

#[test]
fn row_with_an_empty_column_is_no_account() {
    let mut incomplete = row(1, "a", 0);
    incomplete.description = None;
    assert!(account_of(&incomplete).is_none());
    let mut incomplete = row(1, "a", 0);
    incomplete.is_default = None;
    assert!(account_of(&incomplete).is_none());
}

#[test]
fn accounts_are_fetched_in_the_order_of_the_rows() {
    let mut broken = row(2, "broken", 0);
    broken.secret_key = None;
    let rows = vec![row(1, "a", 0), broken, row(3, "c", 1)];
    let accounts = fetch_accounts(&rows);
    assert_eq!(accounts.len(), 2);
    assert_eq!(accounts[0].name, "a");
    assert_eq!(accounts[1].name, "c");
}

#[test]
fn accounts_are_fetched_page_by_page() {
    let rows: Vec<AccountRow> = (1..=5).map(|id| row(id, &format!("n{}", id), 0)).collect();
    let (accounts, total) = fetch_accounts_paginated(&rows, Some(1), Some(2));
    assert_eq!(total, 5);
    assert_eq!(accounts.iter().map(|a| a.id).collect::<Vec<i64>>(), vec![3, 4]);
    let (accounts, total) = fetch_accounts_paginated(&rows, Some(2), Some(2));
    assert_eq!(total, 5);
    assert_eq!(accounts.iter().map(|a| a.id).collect::<Vec<i64>>(), vec![5]);
    let (accounts, total) = fetch_accounts_paginated(&rows, Some(3), Some(2));
    assert!(accounts.is_empty());
    assert_eq!(total, 5);
    let (accounts, _) = fetch_accounts_paginated(&rows, None, Some(2));
    assert_eq!(accounts.len(), 5);
    let (accounts, _) = fetch_accounts_paginated(&rows, Some(usize::MAX), Some(2));
    assert!(accounts.is_empty());
}

#[test]
fn page_counts_rows_that_are_passed_over() {
    let mut broken = row(1, "broken", 0);
    broken.name = None;
    let rows = vec![broken, row(2, "b", 0), row(3, "c", 0)];
    let (accounts, total) = fetch_accounts_paginated(&rows, Some(0), Some(2));
    assert_eq!(total, 3);
    assert_eq!(accounts.iter().map(|a| a.id).collect::<Vec<i64>>(), vec![2]);
}

#[test]
fn default_account_is_the_marked_row_with_the_greatest_id() {
    let rows = vec![row(1, "a", 1), row(2, "b", 0), row(3, "c", 1), row(4, "d", 0)];
    assert_eq!(get_default_account(&rows).unwrap().id, 3);
    let rows = vec![row(9, "z", 1), row(2, "b", 1)];
    assert_eq!(get_default_account(&rows).unwrap().id, 9);
}

#[test]
fn default_account_is_missing_without_a_marked_row() {
    assert!(get_default_account(&vec![row(1, "a", 0)]).is_none());
    assert!(get_default_account(&Vec::new()).is_none());
}

#[test]
fn default_account_is_missing_where_its_row_is_incomplete() {
    let mut broken = row(5, "broken", 1);
    broken.default_region = None;
    let rows = vec![row(1, "a", 1), broken];
    assert!(get_default_account(&rows).is_none());
}

#[test]
fn session_selects_the_first_default_account() {
    let mut state = SessionState::new();
    assert!(!state.initialised);
    init_state(&mut state, &vec![account(1, false), account(2, true), account(3, true)]);
    assert!(state.initialised);
    assert_eq!(state.current_account.as_ref().unwrap().id, 2);
}

#[test]
fn session_is_set_up_once() {
    let mut state = SessionState::new();
    init_state(&mut state, &vec![account(1, true)]);
    init_state(&mut state, &vec![account(2, true)]);
    assert_eq!(state.current_account.as_ref().unwrap().id, 1);
}

#[test]
fn session_without_default_account_selects_none() {
    let mut state = SessionState::new();
    init_state(&mut state, &vec![account(1, false)]);
    assert!(state.initialised);
    assert!(state.current_account.is_none());
    init_state(&mut state, &vec![account(2, true)]);
    assert!(state.current_account.is_none());
}

#[test]
fn session_keeps_its_selection_without_default_account() {
    let mut state = SessionState { initialised: false, current_account: Some(account(8, false)) };
    init_state(&mut state, &Vec::new());
    assert_eq!(state.current_account.as_ref().unwrap().id, 8);
}

#[test]
fn account_is_copied_whole() {
    let copy = account(4, true).clone();
    assert_eq!(copy.id, 4);
    assert_eq!(copy.name, "account 4");
    assert!(copy.is_default);
    assert_eq!(copy.default_region, "eu-west-1");
}

#[test]
fn saving_a_default_account_takes_the_mark_off_the_others_first() {
    let statements = save_account_to_db(Some(4), "prod", "main", "AK", "SK", true, "eu-west-1");
    assert_eq!(statements.len(), 2);
    assert!(matches!(statements[0], AccountStatement::ClearDefault));
    match &statements[1] {
        AccountStatement::Update { id, values } => {
            assert_eq!(*id, 4);
            assert_eq!(values.name, "prod");
            assert_eq!(values.description, "main");
            assert_eq!(values.access_key, "AK");
            assert_eq!(values.secret_key, "SK");
            assert_eq!(values.is_default, 1);
            assert_eq!(values.default_region, "eu-west-1");
        }
        _ => panic!("the account has an id"),
    }
}

#[test]
fn saving_a_new_account_adds_a_row() {
    let statements = save_account_to_db(None, "dev", "", "AK", "SK", false, "");
    assert_eq!(statements.len(), 1);
    match &statements[0] {
        AccountStatement::Insert { values } => {
            assert_eq!(values.name, "dev");
            assert_eq!(values.is_default, 0);
            assert_eq!(values.default_region, "");
        }
        _ => panic!("the account has no id"),
    }
}

#[test]
fn deleting_an_account_removes_the_row_with_its_id() {
    assert!(matches!(delete_account(12), AccountStatement::Delete { id: 12 }));
}
