use dios3::account::Account;

fn account(secret: &str) -> Account {
    Account {
        id: 1,
        name: "main".to_string(),
        description: "prod".to_string(),
        access_key: "AKIAEXAMPLE".to_string(),
        secret_key: secret.to_string(),
        is_default: true,
        default_region: "eu-west-1".to_string(),
    }
}

#[test]
fn masked_secret_keeps_three_characters_at_each_end() {
    let account = account("abcdefghij");
    assert!(account.secret_key_can_be_masked());
    assert_eq!(account.masked_secret_key(), "abc*****hij");
}

#[test]
fn short_secret_is_shown_whole() {
    let account = account("abcde");
    assert!(account.secret_key_can_be_masked());
    assert_eq!(account.masked_secret_key(), "abcde");
}

#[test]
fn secret_of_six_characters_is_masked() {
    let account = account("abcdef");
    assert_eq!(account.masked_secret_key(), "abc*****def");
}

#[test]
fn secret_cut_inside_a_character_cannot_be_masked() {
    let account = account("ab\u{e9}\u{e9}cd");
    assert!(!account.secret_key_can_be_masked());
}
