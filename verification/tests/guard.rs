use spamwatch_api::database::{Antiflood, Database, Token};
use spamwatch_api::errors::UserError;
use spamwatch_api::guards::{Permission, TokenGuard};

fn token(retired: bool) -> Token {
    Token { id: 7, token: "s3cret".to_string(), permission: Permission::User, userid: 42, retired }
}

#[test]
fn empty_secret_is_unauthorized() {
    let db = Database::new();
    assert_eq!(TokenGuard::new(&db, String::new()).err(), Some(UserError::Unauthorized));
    assert_eq!(
        TokenGuard::resolve("", Some(token(false)), Antiflood::default()).err(),
        Some(UserError::Unauthorized)
    );
}

#[test]
fn unknown_secret_is_unauthorized() {
    let mut db = Database::new();
    db.insert_token("known".to_string(), Permission::Root, 1).unwrap();
    assert_eq!(TokenGuard::new(&db, "unknown".to_string()).err(), Some(UserError::Unauthorized));
    assert_eq!(
        TokenGuard::resolve("unknown", None, Antiflood::default()).err(),
        Some(UserError::Unauthorized)
    );
}

#[test]
fn retired_secret_is_unauthorized() {
    let mut db = Database::new();
    let id = db.insert_token("known".to_string(), Permission::Root, 1).unwrap();
    db.revoke_token_by_id(id);
    assert_eq!(TokenGuard::new(&db, "known".to_string()).err(), Some(UserError::Unauthorized));
    assert_eq!(
        TokenGuard::resolve("s3cret", Some(token(true)), Antiflood::default()).err(),
        Some(UserError::Unauthorized)
    );
}

#[test]
fn live_secret_resolves_to_its_token() {
    let mut db = Database::new();
    db.insert_token("first".to_string(), Permission::Root, 1).unwrap();
    let id = db.insert_token("second".to_string(), Permission::User, 42).unwrap();
    db.set_antiflood_banlist_all(id, 1_700_000_300);
    let guard = TokenGuard::new(&db, "second".to_string()).unwrap();
    assert_eq!(
        guard.token,
        Token {
            id: 2,
            token: "second".to_string(),
            permission: Permission::User,
            userid: 42,
            retired: false
        }
    );
    assert_eq!(guard.antiflood, Antiflood { banlist_all: 1_700_000_300 });
}

#[test]
fn resolve_keeps_token_and_state() {
    let state = Antiflood { banlist_all: 99 };
    let guard = TokenGuard::resolve("s3cret", Some(token(false)), state).unwrap();
    assert_eq!(guard.token, token(false));
    assert_eq!(guard.antiflood, state);
}

#[test]
fn resolving_reads_only() {
    let mut db = Database::new();
    db.insert_token("first".to_string(), Permission::User, 1).unwrap();
    let before = db.get_tokens();
    let _ = TokenGuard::new(&db, "first".to_string());
    let _ = TokenGuard::new(&db, "nobody".to_string());
    assert_eq!(db.get_tokens(), before);
    assert_eq!(db.get_antiflood(1), Antiflood::default());
}

#[test]
fn require_forbids_lower_tiers() {
    for (held, needed, granted) in [
        (Permission::User, Permission::User, true),
        (Permission::User, Permission::Admin, false),
        (Permission::User, Permission::Root, false),
        (Permission::Admin, Permission::User, true),
        (Permission::Admin, Permission::Admin, true),
        (Permission::Admin, Permission::Root, false),
        (Permission::Root, Permission::User, true),
        (Permission::Root, Permission::Admin, true),
        (Permission::Root, Permission::Root, true),
    ] {
        let mut held_token = token(false);
        held_token.permission = held;
        let guard = TokenGuard::resolve("s3cret", Some(held_token), Antiflood::default()).unwrap();
        let expected = if granted { Ok(()) } else { Err(UserError::Forbidden) };
        assert_eq!(guard.require(needed), expected);
    }
}
