//! The accounts of the store, read from its rows.

use vstd::prelude::*;
use crate::account::{Account, AccountView};
use crate::buckets::page_of;
use crate::text::optional_text;

verus! {

/// A row of the table of accounts as it was read. A column that holds no
/// value, or a value of another type than the account's field, is absent.
#[derive(Debug)]
pub struct AccountRow {
    pub id: i64,
    pub name: Option<String>,
    pub description: Option<String>,
    pub access_key: Option<String>,
    pub secret_key: Option<String>,
    pub is_default: Option<i64>,
    pub default_region: Option<String>,
}

/// What an [`AccountRow`] holds, as plain values.
pub struct AccountRowView {
    pub id: i64,
    pub name: Option<Seq<char>>,
    pub description: Option<Seq<char>>,
    pub access_key: Option<Seq<char>>,
    pub secret_key: Option<Seq<char>>,
    pub is_default: Option<i64>,
    pub default_region: Option<Seq<char>>,
}

impl View for AccountRow {
    type V = AccountRowView;

    open spec fn view(&self) -> AccountRowView {
        AccountRowView {
            id: self.id,
            name: optional_text(self.name),
            description: optional_text(self.description),
            access_key: optional_text(self.access_key),
            secret_key: optional_text(self.secret_key),
            is_default: self.is_default,
            default_region: optional_text(self.default_region),
        }
    }
}

/// The views of a run of rows, in order.
pub open spec fn row_views(rows: Seq<AccountRow>) -> Seq<AccountRowView> {
    Seq::new(rows.len(), |i: int| rows[i]@)
}

/// The views of a run of accounts, in order.
pub open spec fn account_views(accounts: Seq<Account>) -> Seq<AccountView> {
    Seq::new(accounts.len(), |i: int| accounts[i]@)
}

impl AccountRowView {
    /// Whether every column of the row holds a value.
    pub open spec fn complete(self) -> bool {
        &&& self.name is Some
        &&& self.description is Some
        &&& self.access_key is Some
        &&& self.secret_key is Some
        &&& self.is_default is Some
        &&& self.default_region is Some
    }

    /// The account that a complete row holds. It is the default account
    /// where the row's mark is one.
    pub open spec fn account(self) -> AccountView {
        AccountView {
            id: self.id,
            name: self.name->0,
            description: self.description->0,
            access_key: self.access_key->0,
            secret_key: self.secret_key->0,
            is_default: self.is_default->0 == 1,
            default_region: self.default_region->0,
        }
    }

    /// Whether the row is marked as the default account.
    pub open spec fn marked(self) -> bool {
        self.is_default == Some(1i64)
    }
}

/// The accounts of the rows that are complete, in the order of the rows.
pub open spec fn accounts_of(rows: Seq<AccountRowView>) -> Seq<AccountView>
    decreases rows.len(),
{
    if rows.len() == 0 {
        Seq::empty()
    } else if rows.last().complete() {
        accounts_of(rows.drop_last()).push(rows.last().account())
    } else {
        accounts_of(rows.drop_last())
    }
}

/// The row that the store's default account is read from: the marked row with
/// the greatest id, and of two such rows the one that comes first.
pub open spec fn default_row(rows: Seq<AccountRowView>) -> Option<int>
    decreases rows.len(),
{
    if rows.len() == 0 {
        None
    } else {
        let before = default_row(rows.drop_last());
        if rows.last().marked() && (before is None || rows[before->0].id < rows.last().id) {
            Some(rows.len() - 1)
        } else {
            before
        }
    }
}

/// The default row is a marked row, no marked row has a greater id, and no
/// marked row before it has the same id; without a marked row there is none.
pub proof fn lemma_default_row(rows: Seq<AccountRowView>)
    ensures
        match default_row(rows) {
            Some(at) => {
                &&& 0 <= at < rows.len()
                &&& rows[at].marked()
                &&& forall|i: int|
                    0 <= i < rows.len() && (#[trigger] rows[i]).marked() ==> rows[i].id
                        <= rows[at].id
                &&& forall|i: int|
                    0 <= i < at && (#[trigger] rows[i]).marked() ==> rows[i].id < rows[at].id
            },
            None => forall|i: int| 0 <= i < rows.len() ==> !(#[trigger] rows[i]).marked(),
        },
    decreases rows.len(),
{
    if rows.len() > 0 {
        let shorter = rows.drop_last();
        lemma_default_row(shorter);
        assert forall|i: int| 0 <= i < shorter.len() implies shorter[i] == rows[i] by {}
        match default_row(rows) {
            Some(at) => {
                assert forall|i: int| 0 <= i < rows.len() && (#[trigger] rows[i]).marked() implies rows[i].id
                    <= rows[at].id by {
                    if i < shorter.len() {
                        assert(shorter[i].marked());
                    }
                }
                assert forall|i: int| 0 <= i < at && (#[trigger] rows[i]).marked() implies rows[i].id
                    < rows[at].id by {
                    assert(shorter[i].marked());
                }
            },
            None => {
                assert forall|i: int| 0 <= i < rows.len() implies !(#[trigger] rows[i]).marked() by {
                    if i < shorter.len() {
                        assert(!shorter[i].marked());
                    }
                }
            },
        }
    }
}

/// The account of `row`, where the row is complete.
pub fn account_of(row: &AccountRow) -> (account: Option<Account>)
    ensures
        account is Some == row@.complete(),
        account is Some ==> account->0@ == row@.account(),
{
    match (
        &row.name,
        &row.description,
        &row.access_key,
        &row.secret_key,
        &row.is_default,
        &row.default_region,
    ) {
        (
            Some(name),
            Some(description),
            Some(access_key),
            Some(secret_key),
            Some(is_default),
            Some(default_region),
        ) => Some(
            Account {
                id: row.id,
                name: name.clone(),
                description: description.clone(),
                access_key: access_key.clone(),
                secret_key: secret_key.clone(),
                is_default: *is_default == 1,
                default_region: default_region.clone(),
            },
        ),
        _ => None,
    }
}

/// The accounts of the complete rows among `rows[start..end]`, in order.
fn accounts_between(rows: &Vec<AccountRow>, start: usize, end: usize) -> (accounts: Vec<Account>)
    requires
        start <= end <= rows.len(),
    ensures
        account_views(accounts@) == accounts_of(row_views(rows@).subrange(start as int, end as int)),
{
    let mut accounts: Vec<Account> = Vec::new();
    let mut index: usize = start;
    assert(account_views(accounts@) =~= accounts_of(
        row_views(rows@).subrange(start as int, start as int),
    ));
    while index < end
        invariant
            start <= index <= end <= rows.len(),
            account_views(accounts@) == accounts_of(
                row_views(rows@).subrange(start as int, index as int),
            ),
        decreases end - index,
    {
        proof {
            let longer = row_views(rows@).subrange(start as int, index + 1);
            assert(longer.drop_last() =~= row_views(rows@).subrange(start as int, index as int));
            assert(longer.last() == rows@[index as int]@);
        }
        match account_of(&rows[index]) {
            Some(account) => {
                let ghost before = account_views(accounts@);
                accounts.push(account);
                assert(account_views(accounts@) =~= before.push(account@));
            },
            None => {},
        }
        index = index + 1;
    }
    accounts
}

/// All accounts of the store, from its rows in the order of their ids. A row
/// that is not complete is passed over.
pub fn fetch_accounts(rows: &Vec<AccountRow>) -> (accounts: Vec<Account>)
    ensures
        account_views(accounts@) == accounts_of(row_views(rows@)),
{
    let (accounts, _) = fetch_accounts_paginated(rows, None, None);
    accounts
}

/// One page of the accounts of the store, with the number of its rows. The
/// rows are cut into pages; a row that is not complete is passed over, so
/// that a page may hold fewer accounts than its size. A page past the end is
/// empty.
pub fn fetch_accounts_paginated(
    rows: &Vec<AccountRow>,
    page: Option<usize>,
    page_size: Option<usize>,
) -> (fetched: (Vec<Account>, usize))
    ensures
        account_views(fetched.0@) == accounts_of(page_of(row_views(rows@), page, page_size)),
        fetched.1 == rows.len(),
{
    let total = rows.len();
    let (page, page_size) = match (page, page_size) {
        (Some(page), Some(page_size)) => (page, page_size),
        _ => {
            assert(row_views(rows@).subrange(0, total as int) =~= row_views(rows@));
            return (accounts_between(rows, 0, total), total);
        },
    };
    let start = match page.checked_mul(page_size) {
        Some(start) => start,
        None => total,
    };
    if start >= total {
        assert(row_views(rows@).subrange(total as int, total as int) =~= Seq::<
            AccountRowView,
        >::empty());
        return (accounts_between(rows, total, total), total);
    }
    let end = if page_size < total - start {
        start + page_size
    } else {
        total
    };
    (accounts_between(rows, start, end), total)
}

/// The default account of the store: the account of the marked row with the
/// greatest id. There is none where no row is marked, and none where that row
/// is not complete.
pub fn get_default_account(rows: &Vec<AccountRow>) -> (account: Option<Account>)
    ensures
        account is Some == (default_row(row_views(rows@)) is Some && row_views(
            rows@,
        )[default_row(row_views(rows@))->0].complete()),
        account is Some ==> account->0@ == row_views(rows@)[default_row(
            row_views(rows@),
        )->0].account(),
{
    let mut best: Option<usize> = None;
    let mut index: usize = 0;
    assert(row_views(rows@).take(0) =~= Seq::<AccountRowView>::empty());
    while index < rows.len()
        invariant
            index <= rows.len(),
            match best {
                Some(at) => at < index && default_row(row_views(rows@).take(index as int)) == Some(
                    at as int,
                ),
                None => default_row(row_views(rows@).take(index as int)) is None,
            },
        decreases rows.len() - index,
    {
        proof {
            let longer = row_views(rows@).take(index + 1);
            assert(longer.drop_last() =~= row_views(rows@).take(index as int));
            assert(longer.last() == rows@[index as int]@);
            if best is Some {
                assert(longer[best->0 as int] == rows@[best->0 as int]@);
            }
        }
        let marked = match rows[index].is_default {
            Some(mark) => mark == 1,
            None => false,
        };
        if marked {
            let better = match best {
                Some(at) => rows[at].id < rows[index].id,
                None => true,
            };
            if better {
                best = Some(index);
            }
        }
        index = index + 1;
    }
    assert(row_views(rows@).take(index as int) =~= row_views(rows@));
    match best {
        Some(at) => account_of(&rows[at]),
        None => None,
    }
}

/// The columns of an account as they are written into the table. The mark
/// of the default account is one, any other account's is zero.
#[derive(Debug)]
pub struct AccountValues {
    pub name: String,
    pub description: String,
    pub access_key: String,
    pub secret_key: String,
    pub is_default: i64,
    pub default_region: String,
}

/// What an [`AccountValues`] holds, as plain values.
pub struct AccountValuesView {
    pub name: Seq<char>,
    pub description: Seq<char>,
    pub access_key: Seq<char>,
    pub secret_key: Seq<char>,
    pub is_default: i64,
    pub default_region: Seq<char>,
}

impl View for AccountValues {
    type V = AccountValuesView;

    open spec fn view(&self) -> AccountValuesView {
        AccountValuesView {
            name: self.name@,
            description: self.description@,
            access_key: self.access_key@,
            secret_key: self.secret_key@,
            is_default: self.is_default,
            default_region: self.default_region@,
        }
    }
}

/// A change to the table of accounts.
#[derive(Debug)]
pub enum AccountStatement {
    /// Take the mark off every row that is marked as the default account.
    ClearDefault,
    /// Write `values` into the row with the id `id`.
    Update { id: i64, values: AccountValues },
    /// Add a row with `values`.
    Insert { values: AccountValues },
    /// Remove the row with the id `id`.
    Delete { id: i64 },
}

/// What an [`AccountStatement`] holds, as plain values.
pub enum AccountStatementView {
    ClearDefault,
    Update { id: i64, values: AccountValuesView },
    Insert { values: AccountValuesView },
    Delete { id: i64 },
}

impl View for AccountStatement {
    type V = AccountStatementView;

    open spec fn view(&self) -> AccountStatementView {
        match self {
            AccountStatement::ClearDefault => AccountStatementView::ClearDefault,
            AccountStatement::Update { id, values } => AccountStatementView::Update {
                id: *id,
                values: values@,
            },
            AccountStatement::Insert { values } => AccountStatementView::Insert { values: values@ },
            AccountStatement::Delete { id } => AccountStatementView::Delete { id: *id },
        }
    }
}

/// The views of a run of statements, in order.
pub open spec fn statement_views(statements: Seq<AccountStatement>) -> Seq<AccountStatementView> {
    Seq::new(statements.len(), |i: int| statements[i]@)
}

/// The changes that save an account. A default account first takes the mark
/// off all others, so that one account at most is marked. An account with an
/// id is written over its row, one without is added.
pub open spec fn save_plan(account_id: Option<i64>, values: AccountValuesView) -> Seq<
    AccountStatementView,
> {
    let write = match account_id {
        Some(id) => AccountStatementView::Update { id, values },
        None => AccountStatementView::Insert { values },
    };
    if values.is_default == 1 {
        seq![AccountStatementView::ClearDefault, write]
    } else {
        seq![write]
    }
}

/// The changes that save an account, as [`save_plan`] states them.
pub fn save_account_to_db(
    account_id: Option<i64>,
    name: &str,
    description: &str,
    access_key: &str,
    secret_key: &str,
    is_default: bool,
    default_region: &str,
) -> (statements: Vec<AccountStatement>)
    ensures
        statement_views(statements@) == save_plan(
            account_id,
            AccountValuesView {
                name: name@,
                description: description@,
                access_key: access_key@,
                secret_key: secret_key@,
                is_default: if is_default {
                    1i64
                } else {
                    0i64
                },
                default_region: default_region@,
            },
        ),
{
    let values = AccountValues {
        name: name.to_owned(),
        description: description.to_owned(),
        access_key: access_key.to_owned(),
        secret_key: secret_key.to_owned(),
        is_default: if is_default {
            1
        } else {
            0
        },
        default_region: default_region.to_owned(),
    };
    let ghost wanted = save_plan(account_id, values@);
    let mut statements: Vec<AccountStatement> = Vec::new();
    if is_default {
        statements.push(AccountStatement::ClearDefault);
    }
    match account_id {
        Some(id) => statements.push(AccountStatement::Update { id, values }),
        None => statements.push(AccountStatement::Insert { values }),
    }
    assert(statement_views(statements@) =~= wanted);
    statements
}

/// The change that deletes the account with the id `account_id`.
pub fn delete_account(account_id: i64) -> (statement: AccountStatement)
    ensures
        statement@ == (AccountStatementView::Delete { id: account_id }),
{
    AccountStatement::Delete { id: account_id }
}

} // verus!
