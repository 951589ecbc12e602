use spamwatch_api::database::{Database, Token, TokenInfo};
use spamwatch_api::errors::UserError;
use spamwatch_api::guards::Permission;
use spamwatch_api::response::{Body, Response};
use spamwatch_api::routes::authorize;
use spamwatch_api::routes::tokens::{
    delete_token, get_token, get_token_by_userid, get_tokens, post_tokens, which_token,
    CreateToken, Wanted,
};
use spamwatch_api::settings::Settings;

fn seeded() -> Database {
    let mut db = Database::new();
    db.insert_token("root-secret".to_string(), Permission::Root, 777000).unwrap();
    db.insert_token("admin-secret".to_string(), Permission::Admin, 10).unwrap();
    db.insert_token("user-secret".to_string(), Permission::User, 42).unwrap();
    db
}

fn status_of(reply: Result<Response, UserError>) -> u16 {
    match reply {
        Ok(response) => response.status,
        Err(e) => e.to_response().status,
    }
}

#[test]
fn test_tokens_no_auth() {
    let db = seeded();
    assert_eq!(status_of(get_tokens(&db, None)), 401);
}

#[test]
fn test_token_no_auth() {
    let db = seeded();
    assert_eq!(status_of(get_token(&db, None, "1")), 401);
}

#[test]
fn authorize_checks_the_tier() {
    let db = seeded();
    assert_eq!(authorize(&db, Some("Bearer user-secret"), Permission::User).unwrap().token.id, 3);
    assert_eq!(
        authorize(&db, Some("Bearer user-secret"), Permission::Admin).err(),
        Some(UserError::Forbidden)
    );
    assert_eq!(
        authorize(&db, Some("Bearer user-secret"), Permission::Root).err(),
        Some(UserError::Forbidden)
    );
    assert_eq!(authorize(&db, Some("Bearer admin-secret"), Permission::Admin).unwrap().token.id, 2);
    assert_eq!(
        authorize(&db, Some("Bearer admin-secret"), Permission::Root).err(),
        Some(UserError::Forbidden)
    );
    assert_eq!(authorize(&db, Some("Bearer root-secret"), Permission::Root).unwrap().token.id, 1);
    assert_eq!(authorize(&db, Some("Bearer root-secret"), Permission::User).unwrap().token.id, 1);
}

#[test]
fn authorize_tells_the_failures_apart() {
    let db = seeded();
    assert_eq!(authorize(&db, None, Permission::User).err(), Some(UserError::Unauthorized));
    assert_eq!(authorize(&db, Some("Bearer"), Permission::User).err(), Some(UserError::BadRequest));
    assert_eq!(
        authorize(&db, Some("Bearer nobody"), Permission::User).err(),
        Some(UserError::Unauthorized)
    );
}

#[test]
fn listing_tokens_needs_root() {
    let db = seeded();
    assert_eq!(get_tokens(&db, Some("Bearer user-secret")), Err(UserError::Forbidden));
    assert_eq!(get_tokens(&db, Some("Bearer admin-secret")), Err(UserError::Forbidden));
    assert_eq!(get_tokens(&db, Some("Bearer nobody")), Err(UserError::Unauthorized));
    assert_eq!(
        get_tokens(&db, Some("Bearer root-secret")),
        Ok(Response {
            status: 200,
            body: Body::Tokens(vec![
                TokenInfo { id: 1, permission: Permission::Root, userid: 777000, retired: false },
                TokenInfo { id: 2, permission: Permission::Admin, userid: 10, retired: false },
                TokenInfo { id: 3, permission: Permission::User, userid: 42, retired: false },
            ])
        })
    );
}

#[test]
fn created_token_is_shown_with_its_secret() {
    let mut db = seeded();
    let settings = Settings::default();
    let data = CreateToken { id: 42, permission: Permission::User };
    let reply = post_tokens(&mut db, Some("Bearer root-secret"), &data, &settings.general).unwrap();
    assert_eq!(reply.status, 201);
    let token = match reply.body {
        Body::Created(token) => token,
        other => panic!("unexpected body {:?}", other),
    };
    assert_eq!(token.id, 4);
    assert_eq!(token.permission, Permission::User);
    assert_eq!(token.userid, 42);
    assert!(!token.retired);
    assert_eq!(token.token.chars().count(), 64);
    assert_eq!(db.get_token_by_id(4), Some(token));
}

#[test]
fn creating_tokens_needs_root() {
    let mut db = seeded();
    let settings = Settings::default();
    let data = CreateToken { id: 42, permission: Permission::Root };
    assert_eq!(
        post_tokens(&mut db, Some("Bearer admin-secret"), &data, &settings.general),
        Err(UserError::Forbidden)
    );
    assert_eq!(
        post_tokens(&mut db, None, &data, &settings.general),
        Err(UserError::Unauthorized)
    );
    assert_eq!(db.get_tokens().len(), 3);
}

#[test]
fn token_size_is_taken_from_the_settings() {
    let mut db = seeded();
    let mut settings = Settings::default();
    settings.general.token_size = 12;
    let data = CreateToken { id: 1, permission: Permission::Admin };
    let reply = post_tokens(&mut db, Some("Bearer root-secret"), &data, &settings.general).unwrap();
    match reply.body {
        Body::Created(token) => assert_eq!(token.token.chars().count(), 12),
        other => panic!("unexpected body {:?}", other),
    }
}

#[test]
fn scenario_created_token_authenticates_as_itself() {
    let mut db = seeded();
    let settings = Settings::default();
    let data = CreateToken { id: 42, permission: Permission::User };
    let reply = post_tokens(&mut db, Some("Bearer root-secret"), &data, &settings.general).unwrap();
    let created = match reply.body {
        Body::Created(token) => token,
        other => panic!("unexpected body {:?}", other),
    };
    let header = format!("Bearer {}", created.token);
    let guard = authorize(&db, Some(&header), Permission::User).unwrap();
    assert_eq!(guard.token, created);
    assert!(!guard.token.retired);
    assert_eq!(
        get_token(&db, Some(&header), "self"),
        Ok(Response {
            status: 200,
            body: Body::Token(TokenInfo {
                id: 4,
                permission: Permission::User,
                userid: 42,
                retired: false
            })
        })
    );
}

#[test]
fn own_token_is_shown_to_every_tier() {
    let db = seeded();
    assert_eq!(
        get_token(&db, Some("Bearer user-secret"), "self"),
        Ok(Response { status: 200, body: Body::Token(db.get_token_by_id(3).unwrap().info()) })
    );
    assert_eq!(
        get_token(&db, Some("Bearer admin-secret"), "self"),
        Ok(Response { status: 200, body: Body::Token(db.get_token_by_id(2).unwrap().info()) })
    );
}

#[test]
fn other_tokens_are_shown_to_root_only() {
    let db = seeded();
    assert_eq!(get_token(&db, Some("Bearer user-secret"), "3"), Err(UserError::Forbidden));
    assert_eq!(get_token(&db, Some("Bearer admin-secret"), "1"), Err(UserError::Forbidden));
    assert_eq!(get_token(&db, Some("Bearer user-secret"), "abc"), Err(UserError::Forbidden));
    assert_eq!(
        get_token(&db, Some("Bearer root-secret"), "3"),
        Ok(Response { status: 200, body: Body::Token(db.get_token_by_id(3).unwrap().info()) })
    );
    assert_eq!(get_token(&db, Some("Bearer root-secret"), "9"), Err(UserError::NotFound));
    assert_eq!(get_token(&db, Some("Bearer root-secret"), "abc"), Err(UserError::BadRequest));
    assert_eq!(get_token(&db, Some("Bearer root-secret"), "Self"), Err(UserError::BadRequest));
    assert_eq!(
        get_token(&db, Some("Bearer root-secret"), "99999999999"),
        Err(UserError::BadRequest)
    );
}

#[test]
fn tokens_of_a_user_are_listed_for_root() {
    let mut db = seeded();
    db.insert_token("second".to_string(), Permission::Admin, 42).unwrap();
    let reply = get_token_by_userid(&db, Some("Bearer root-secret"), "42").unwrap();
    assert_eq!(reply.status, 200);
    assert_eq!(
        reply.body,
        Body::Tokens(vec![
            TokenInfo { id: 3, permission: Permission::User, userid: 42, retired: false },
            TokenInfo { id: 4, permission: Permission::Admin, userid: 42, retired: false },
        ])
    );
    assert_eq!(
        get_token_by_userid(&db, Some("Bearer root-secret"), "5"),
        Ok(Response { status: 200, body: Body::Tokens(vec![]) })
    );
    assert_eq!(
        get_token_by_userid(&db, Some("Bearer root-secret"), "x"),
        Err(UserError::BadRequest)
    );
    assert_eq!(
        get_token_by_userid(&db, Some("Bearer admin-secret"), "42"),
        Err(UserError::Forbidden)
    );
    assert_eq!(
        get_token_by_userid(&db, Some("Bearer admin-secret"), "x"),
        Err(UserError::Forbidden)
    );
}

#[test]
fn revoking_answers_no_content_and_retires() {
    let mut db = seeded();
    assert_eq!(
        delete_token(&mut db, Some("Bearer root-secret"), "3"),
        Ok(Response { status: 204, body: Body::Empty })
    );
    assert_eq!(
        db.get_token_by_id(3),
        Some(Token {
            id: 3,
            token: "user-secret".to_string(),
            permission: Permission::User,
            userid: 42,
            retired: true
        })
    );
}

#[test]
fn revoking_twice_is_answered_alike() {
    let mut db = seeded();
    let first = delete_token(&mut db, Some("Bearer root-secret"), "3");
    let state = db.get_tokens();
    let second = delete_token(&mut db, Some("Bearer root-secret"), "3");
    assert_eq!(first, second);
    assert_eq!(status_of(second), 204);
    assert_eq!(db.get_tokens(), state);
}

#[test]
fn revoking_needs_root_and_a_known_id() {
    let mut db = seeded();
    assert_eq!(delete_token(&mut db, Some("Bearer admin-secret"), "3"), Err(UserError::Forbidden));
    assert_eq!(delete_token(&mut db, Some("Bearer root-secret"), "9"), Err(UserError::NotFound));
    assert_eq!(delete_token(&mut db, Some("Bearer root-secret"), "x"), Err(UserError::BadRequest));
    assert_eq!(delete_token(&mut db, None, "3"), Err(UserError::Unauthorized));
    assert!(db.get_tokens().iter().all(|t| !t.retired));
}

#[test]
fn scenario_revoked_token_is_unauthorized() {
    let mut db = Database::new();
    db.insert_token("root-secret".to_string(), Permission::Root, 777000).unwrap();
    for n in 2..=7 {
        db.insert_token(format!("secret-{}", n), Permission::User, 42).unwrap();
    }
    assert_eq!(status_of(get_token(&db, Some("Bearer secret-7"), "self")), 200);
    assert_eq!(status_of(delete_token(&mut db, Some("Bearer root-secret"), "7")), 204);
    assert_eq!(status_of(get_token(&db, Some("Bearer secret-7"), "self")), 401);
    assert_eq!(
        authorize(&db, Some("Bearer secret-7"), Permission::User).err(),
        Some(UserError::Unauthorized)
    );
    assert_eq!(status_of(get_token(&db, Some("Bearer secret-6"), "self")), 200);
}

#[test]
fn root_that_revokes_itself_is_locked_out() {
    let mut db = seeded();
    assert_eq!(status_of(delete_token(&mut db, Some("Bearer root-secret"), "1")), 204);
    assert_eq!(status_of(delete_token(&mut db, Some("Bearer root-secret"), "1")), 401);
}

#[test]
fn lookups_never_show_a_secret() {
    let db = seeded();
    let root = Some("Bearer root-secret");
    let shown = format!(
        "{:?} {:?} {:?} {:?}",
        get_tokens(&db, root),
        get_token(&db, root, "2"),
        get_token(&db, root, "self"),
        get_token_by_userid(&db, root, "42")
    );
    for secret in ["root-secret", "admin-secret", "user-secret"] {
        assert!(!shown.contains(secret));
    }
}

#[test]
fn retired_tokens_stay_listed() {
    let mut db = seeded();
    delete_token(&mut db, Some("Bearer root-secret"), "2").unwrap();
    assert_eq!(
        get_token(&db, Some("Bearer root-secret"), "2"),
        Ok(Response {
            status: 200,
            body: Body::Token(TokenInfo {
                id: 2,
                permission: Permission::Admin,
                userid: 10,
                retired: true
            })
        })
    );
}

#[test]
fn own_token_is_asked_for_by_the_word_self() {
    let db = seeded();
    let user = authorize(&db, Some("Bearer user-secret"), Permission::User).unwrap();
    let root = authorize(&db, Some("Bearer root-secret"), Permission::User).unwrap();
    assert_eq!(which_token(&user, "self"), Ok(Wanted::Own));
    assert_eq!(which_token(&root, "self"), Ok(Wanted::Own));
    assert_eq!(which_token(&user, "3"), Err(UserError::Forbidden));
    assert_eq!(which_token(&user, "x"), Err(UserError::Forbidden));
    assert_eq!(which_token(&root, "3"), Ok(Wanted::Other(3)));
    assert_eq!(which_token(&root, "-3"), Ok(Wanted::Other(-3)));
    assert_eq!(which_token(&root, "x"), Err(UserError::BadRequest));
    assert_eq!(which_token(&root, "self "), Err(UserError::BadRequest));
    assert_eq!(which_token(&root, ""), Err(UserError::BadRequest));
}
