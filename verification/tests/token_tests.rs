use server_init::token::{Token, TokenError, TokenStore, MILLIS_PER_HOUR};

fn row(code: &str, expires_at: i64, uses_remaining: u32) -> Token {
    Token { code: code.to_string(), expires_at, uses_remaining }
}

#[test]
fn token_lasts_exactly_its_uses() {
    let mut store = TokenStore::new();
    store.issue("abc123".to_string(), 3, 1_000, 500).unwrap();
    assert_eq!(store.consume_at("abc123", 1_100), Ok(()));
    assert_eq!(store.consume_at("abc123", 1_200), Ok(()));
    assert_eq!(store.consume_at("abc123", 1_499), Ok(()));
    assert_eq!(store.consume_at("abc123", 1_499), Err(TokenError::NotFound));
    assert_eq!(store.len(), 0);
}

#[test]
fn token_with_no_uses_is_never_accepted() {
    let mut store = TokenStore::new();
    store.issue("empty".to_string(), 0, 0, 100).unwrap();
    assert!(!store.validate_at("empty", 1));
    assert_eq!(store.consume_at("empty", 1), Err(TokenError::NotFound));
    assert_eq!(store.len(), 1);
}

#[test]
fn expired_token_is_refused_whatever_its_uses() {
    let mut store = TokenStore::new();
    store.issue("old".to_string(), 1_000_000, 0, 10).unwrap();
    assert!(store.validate_at("old", 9));
    assert!(!store.validate_at("old", 10));
    assert!(!store.validate_at("old", 11));
    assert_eq!(store.consume_at("old", 10), Err(TokenError::NotFound));
    let rows = store.rows();
    assert_eq!(rows.len(), 1);
    assert_eq!(rows[0].uses_remaining, 1_000_000);
}

#[test]
fn single_use_token_is_spent_by_the_first_caller_only() {
    let mut store = TokenStore::new();
    store.issue("once".to_string(), 1, 0, 1_000).unwrap();
    let results: Vec<Result<(), TokenError>> = (0..8).map(|_| store.consume_at("once", 5)).collect();
    assert_eq!(results[0], Ok(()));
    assert!(results[1..].iter().all(|r| *r == Err(TokenError::NotFound)));
}

#[test]
fn validate_does_not_consume() {
    let mut store = TokenStore::new();
    store.issue("v".to_string(), 1, 0, 1_000).unwrap();
    assert!(store.validate_at("v", 1));
    assert!(store.validate_at("v", 1));
    assert_eq!(store.consume_at("v", 1), Ok(()));
    assert!(!store.validate_at("v", 1));
}

#[test]
fn consume_decrements_and_keeps_the_expiry() {
    let mut store = TokenStore::new();
    store.issue("two".to_string(), 2, 100, 50).unwrap();
    store.issue("other".to_string(), 7, 100, 60).unwrap();
    assert_eq!(store.consume_at("two", 120), Ok(()));
    let rows = store.rows();
    assert_eq!(rows.len(), 2);
    let two = rows.iter().find(|r| r.code == "two").unwrap();
    assert_eq!((two.expires_at, two.uses_remaining), (150, 1));
    let other = rows.iter().find(|r| r.code == "other").unwrap();
    assert_eq!((other.expires_at, other.uses_remaining), (160, 7));
}

#[test]
fn duplicate_code_is_refused_and_changes_nothing() {
    let mut store = TokenStore::new();
    store.issue("dup".to_string(), 1, 0, 10).unwrap();
    assert_eq!(store.issue("dup".to_string(), 9, 0, 99), Err(TokenError::Duplicate));
    let rows = store.rows();
    assert_eq!(rows.len(), 1);
    assert_eq!((rows[0].expires_at, rows[0].uses_remaining), (10, 1));
}

#[test]
fn expiry_beyond_the_clock_is_refused() {
    let mut store = TokenStore::new();
    assert_eq!(store.issue("far".to_string(), 1, i64::MAX, 1), Err(TokenError::ExpiryOutOfRange));
    assert_eq!(store.issue("far".to_string(), 1, i64::MIN, -1), Err(TokenError::ExpiryOutOfRange));
    assert_eq!(store.issue("edge".to_string(), 1, i64::MAX - 1, 1), Ok(()));
    assert_eq!(store.len(), 1);
}

#[test]
fn unknown_code_is_not_found() {
    let mut store = TokenStore::new();
    assert!(!store.validate_at("nobody", 0));
    assert_eq!(store.consume_at("nobody", 0), Err(TokenError::NotFound));
}

#[test]
fn revoke_all_empties_the_table() {
    let mut store = TokenStore::new();
    store.issue("a".to_string(), 1, 0, 10).unwrap();
    store.issue("b".to_string(), 1, 0, 10).unwrap();
    store.revoke_all();
    assert_eq!(store.len(), 0);
    assert!(!store.validate_at("a", 1));
}

#[test]
fn generated_token_works_until_spent() {
    let mut store = TokenStore::new();
    let code = store.generate(1, 1).unwrap();
    assert_eq!(code.len(), 24);
    assert!(store.validate(&code));
    assert_eq!(store.consume(&code), Ok(()));
    assert_eq!(store.consume(&code), Err(TokenError::NotFound));
    assert!(!store.validate(&code));
}

#[test]
fn generated_codes_differ() {
    let mut store = TokenStore::new();
    let a = store.generate(1, 1).unwrap();
    let b = store.generate(1, 1).unwrap();
    assert_ne!(a, b);
    assert_eq!(store.len(), 2);
}

#[test]
fn generated_token_expires_after_its_hours() {
    let mut store = TokenStore::new();
    let before = chrono::Utc::now().timestamp_millis();
    let code = store.generate(5, 12).unwrap();
    let after = chrono::Utc::now().timestamp_millis();
    let rows = store.rows();
    assert_eq!(rows[0].code, code);
    assert_eq!(rows[0].uses_remaining, 5);
    assert!(rows[0].expires_at >= before + 12 * MILLIS_PER_HOUR);
    assert!(rows[0].expires_at <= after + 12 * MILLIS_PER_HOUR);
    assert_eq!(MILLIS_PER_HOUR, 3_600_000);
}

#[test]
fn token_generated_without_hours_is_expired_at_once() {
    let mut store = TokenStore::new();
    let code = store.generate(3, 0).unwrap();
    assert!(!store.validate(&code));
    assert_eq!(store.consume(&code), Err(TokenError::NotFound));
}

#[test]
fn restore_reads_rows_and_refuses_doubles() {
    let store = TokenStore::restore(vec![row("a", 10, 1), row("b", 20, 2)]).unwrap();
    assert_eq!(store.len(), 2);
    assert!(store.validate_at("b", 19));
    assert!(!store.validate_at("b", 20));
    let doubled = TokenStore::restore(vec![row("a", 10, 1), row("b", 20, 2), row("a", 30, 3)]);
    assert_eq!(doubled.err(), Some(TokenError::Duplicate));
    assert_eq!(TokenStore::restore(Vec::new()).unwrap().len(), 0);
}

#[test]
fn rows_can_be_restored() {
    let mut store = TokenStore::new();
    store.issue("a".to_string(), 2, 0, 10).unwrap();
    store.issue("b".to_string(), 1, 0, 20).unwrap();
    let mut again = TokenStore::restore(store.rows()).unwrap();
    assert_eq!(again.consume_at("a", 5), Ok(()));
    assert_eq!(again.consume_at("b", 15), Ok(()));
    assert_eq!(again.len(), 1);
    assert!(row("x", 5, 1).is_usable(4));
    assert!(!row("x", 5, 1).is_usable(5));
    assert!(!row("x", 5, 0).is_usable(4));
}
