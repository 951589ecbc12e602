use spamwatch_api::database::{Ban, Database};
use spamwatch_api::errors::UserError;
use spamwatch_api::guards::Permission;
use spamwatch_api::response::{Body, Response};
use spamwatch_api::routes::banlist::{
    delete_ban, get_ban, get_bans, get_bans_id_list, get_bans_id_list_at, post_bans, post_bans_at,
    CreateBan,
};
use spamwatch_api::routes::tokens::{post_tokens, CreateToken};
use spamwatch_api::settings::Settings;
use std::time::{SystemTime, UNIX_EPOCH};

const NOW: i64 = 1_700_000_000;

fn store() -> Database {
    let mut db = Database::new();
    db.insert_token("root-secret".to_string(), Permission::Root, 777000).unwrap();
    db.insert_token("admin-secret".to_string(), Permission::Admin, 10).unwrap();
    db.insert_token("user-secret".to_string(), Permission::User, 42).unwrap();
    db
}

fn entry(id: i64, reason: &str) -> CreateBan {
    CreateBan { id, reason: reason.to_string(), message: None }
}

fn no_content() -> Result<Response, UserError> {
    Ok(Response { status: 204, body: Body::Empty })
}

fn text(body: &str) -> Result<Response, UserError> {
    Ok(Response { status: 200, body: Body::Text(body.to_string()) })
}

fn code(reply: Result<Response, UserError>) -> u16 {
    match reply {
        Ok(response) => response.status,
        Err(e) => e.status_code(),
    }
}

#[test]
fn scenario_upsert_replaces_the_reason() {
    let mut db = store();
    let root = Some("Bearer root-secret");
    assert_eq!(code(post_bans_at(&mut db, root, &vec![entry(1001, "spam")], NOW)), 204);
    match get_ban(&db, root, "1001").unwrap().body {
        Body::Ban(ban) => assert_eq!(ban.reason, "spam"),
        other => panic!("unexpected body {:?}", other),
    }
    assert_eq!(code(post_bans_at(&mut db, root, &vec![entry(1001, "scam")], NOW + 60)), 204);
    assert_eq!(
        get_ban(&db, root, "1001"),
        Ok(Response {
            status: 200,
            body: Body::Ban(Ban {
                id: 1001,
                reason: "scam".to_string(),
                date: NOW + 60,
                admin: 1,
                message: None
            })
        })
    );
    assert_eq!(db.get_total_ban_count(), 1);
    assert_eq!(db.get_banned_ids(), vec![1001]);
}

#[test]
fn scenario_deleting_an_unknown_ban_is_not_found() {
    let mut db = store();
    let reply = delete_ban(&mut db, Some("Bearer root-secret"), "9999");
    assert_eq!(reply, Err(UserError::NotFound));
    assert_eq!(code(reply), 404);
    assert_ne!(code(delete_ban(&mut db, Some("Bearer root-secret"), "9999")), 204);
}

#[test]
fn scenario_bulk_listing_is_throttled() {
    let mut db = store();
    let settings = Settings::default();
    let data = CreateToken { id: 42, permission: Permission::User };
    let secret =
        match post_tokens(&mut db, Some("Bearer root-secret"), &data, &settings.general).unwrap().body {
            Body::Created(token) => token.token,
            other => panic!("unexpected body {:?}", other),
        };
    let header = format!("Bearer {}", secret);
    let auth = Some(header.as_str());
    post_bans_at(&mut db, Some("Bearer root-secret"), &vec![entry(5, "a"), entry(6, "b")], NOW)
        .unwrap();

    assert_eq!(get_bans_id_list_at(&mut db, auth, NOW, 300), text("5\n6"));
    let again = get_bans_id_list_at(&mut db, auth, NOW + 100, 300);
    assert_eq!(again, Err(UserError::TooManyRequests { until: NOW + 300 }));
    assert_eq!(code(again), 429);
    assert_eq!(
        get_bans_id_list_at(&mut db, auth, NOW + 299, 300),
        Err(UserError::TooManyRequests { until: NOW + 300 })
    );
    assert_eq!(get_bans_id_list_at(&mut db, auth, NOW + 301, 300), text("5\n6"));
    assert_eq!(
        get_bans_id_list_at(&mut db, auth, NOW + 302, 300),
        Err(UserError::TooManyRequests { until: NOW + 601 })
    );
}

#[test]
fn bulk_listing_is_not_throttled_for_privileged_tiers() {
    let mut db = store();
    post_bans_at(&mut db, Some("Bearer admin-secret"), &vec![entry(-3, "a")], NOW).unwrap();
    for auth in [Some("Bearer admin-secret"), Some("Bearer root-secret")] {
        assert_eq!(get_bans_id_list_at(&mut db, auth, NOW, 300), text("-3"));
        assert_eq!(get_bans_id_list_at(&mut db, auth, NOW, 300), text("-3"));
    }
    assert_eq!(db.get_antiflood(1).banlist_all, 0);
    assert_eq!(db.get_antiflood(2).banlist_all, 0);
}

#[test]
fn bulk_listing_of_an_empty_list_is_empty_text() {
    let mut db = store();
    assert_eq!(get_bans_id_list_at(&mut db, Some("Bearer user-secret"), NOW, 300), text(""));
}

#[test]
fn bulk_listing_needs_a_token() {
    let mut db = store();
    assert_eq!(get_bans_id_list_at(&mut db, None, NOW, 300), Err(UserError::Unauthorized));
    assert_eq!(
        get_bans_id_list_at(&mut db, Some("Bearer nobody"), NOW, 300),
        Err(UserError::Unauthorized)
    );
    assert_eq!(
        get_bans_id_list_at(&mut db, Some("Bearer"), NOW, 300),
        Err(UserError::BadRequest)
    );
}

#[test]
fn throttling_is_per_token() {
    let mut db = store();
    db.insert_token("other-user".to_string(), Permission::User, 43).unwrap();
    assert_eq!(code(get_bans_id_list_at(&mut db, Some("Bearer user-secret"), NOW, 300)), 200);
    assert_eq!(code(get_bans_id_list_at(&mut db, Some("Bearer other-user"), NOW + 1, 300)), 200);
    assert_eq!(code(get_bans_id_list_at(&mut db, Some("Bearer user-secret"), NOW + 2, 300)), 429);
    assert_eq!(db.get_antiflood(3).banlist_all, NOW + 300);
    assert_eq!(db.get_antiflood(4).banlist_all, NOW + 301);
}

#[test]
fn bulk_listing_by_the_clock_uses_the_configured_window() {
    let mut db = store();
    let mut settings = Settings::default();
    settings.general.antiflood_window = 1000;
    let before = SystemTime::now().duration_since(UNIX_EPOCH).unwrap().as_secs() as i64;
    assert_eq!(code(get_bans_id_list(&mut db, Some("Bearer user-secret"), &settings.general)), 200);
    let after = SystemTime::now().duration_since(UNIX_EPOCH).unwrap().as_secs() as i64;
    let until = db.get_antiflood(3).banlist_all;
    assert!(before + 1000 <= until && until <= after + 1000);
    assert_eq!(
        get_bans_id_list(&mut db, Some("Bearer user-secret"), &settings.general),
        Err(UserError::TooManyRequests { until })
    );
    assert_eq!(code(get_bans_id_list(&mut db, Some("Bearer root-secret"), &settings.general)), 200);
}

#[test]
fn banning_needs_admin() {
    let mut db = store();
    let data = vec![entry(1, "a")];
    assert_eq!(post_bans_at(&mut db, Some("Bearer user-secret"), &data, NOW), Err(UserError::Forbidden));
    assert_eq!(post_bans_at(&mut db, None, &data, NOW), Err(UserError::Unauthorized));
    assert_eq!(db.get_total_ban_count(), 0);
    assert_eq!(post_bans_at(&mut db, Some("Bearer admin-secret"), &data, NOW), no_content());
    assert_eq!(db.get_ban(1).unwrap().admin, 2);
}

#[test]
fn banning_writes_every_entry() {
    let mut db = store();
    let data = vec![
        CreateBan { id: 1, reason: "a".to_string(), message: Some("m".to_string()) },
        entry(2, "b"),
        entry(1, "c"),
    ];
    assert_eq!(post_bans_at(&mut db, Some("Bearer admin-secret"), &data, NOW), no_content());
    assert_eq!(
        db.get_bans(),
        vec![
            Ban { id: 1, reason: "c".to_string(), date: NOW, admin: 2, message: None },
            Ban { id: 2, reason: "b".to_string(), date: NOW, admin: 2, message: None },
        ]
    );
}

#[test]
fn banning_nobody_is_fine() {
    let mut db = store();
    assert_eq!(post_bans_at(&mut db, Some("Bearer admin-secret"), &vec![], NOW), no_content());
    assert_eq!(db.get_total_ban_count(), 0);
}

#[test]
fn entry_without_reason_stops_the_request() {
    let mut db = store();
    let data = vec![entry(1, "a"), entry(2, ""), entry(3, "c")];
    assert_eq!(
        post_bans_at(&mut db, Some("Bearer admin-secret"), &data, NOW),
        Err(UserError::BadRequest)
    );
    assert_eq!(db.get_banned_ids(), vec![1]);
}

#[test]
fn banning_by_the_clock_dates_the_ban_now() {
    let mut db = store();
    let before = SystemTime::now().duration_since(UNIX_EPOCH).unwrap().as_secs() as i64;
    assert_eq!(post_bans(&mut db, Some("Bearer root-secret"), &vec![entry(8, "x")]), no_content());
    let after = SystemTime::now().duration_since(UNIX_EPOCH).unwrap().as_secs() as i64;
    let date = db.get_ban(8).unwrap().date;
    assert!(before <= date && date <= after);
}

#[test]
fn a_ban_is_shown_to_every_tier() {
    let mut db = store();
    post_bans_at(&mut db, Some("Bearer root-secret"), &vec![entry(1001, "spam")], NOW).unwrap();
    for auth in [Some("Bearer user-secret"), Some("Bearer admin-secret"), Some("Bearer root-secret")] {
        assert_eq!(
            get_ban(&db, auth, "1001"),
            Ok(Response { status: 200, body: Body::Ban(db.get_ban(1001).unwrap()) })
        );
    }
    assert_eq!(get_ban(&db, Some("Bearer user-secret"), "1002"), Err(UserError::NotFound));
    assert_eq!(get_ban(&db, Some("Bearer user-secret"), "x"), Err(UserError::BadRequest));
    assert_eq!(get_ban(&db, None, "1001"), Err(UserError::Unauthorized));
    assert_eq!(get_ban(&db, None, "x"), Err(UserError::Unauthorized));
}

#[test]
fn all_bans_are_listed_for_root() {
    let mut db = store();
    post_bans_at(&mut db, Some("Bearer root-secret"), &vec![entry(1, "a"), entry(2, "b")], NOW)
        .unwrap();
    assert_eq!(
        get_bans(&db, Some("Bearer root-secret")),
        Ok(Response { status: 200, body: Body::Bans(db.get_bans()) })
    );
    assert_eq!(get_bans(&db, Some("Bearer admin-secret")), Err(UserError::Forbidden));
    assert_eq!(get_bans(&db, Some("Bearer user-secret")), Err(UserError::Forbidden));
}

#[test]
fn deleting_a_ban_needs_admin() {
    let mut db = store();
    post_bans_at(&mut db, Some("Bearer root-secret"), &vec![entry(1, "a")], NOW).unwrap();
    assert_eq!(delete_ban(&mut db, Some("Bearer user-secret"), "1"), Err(UserError::Forbidden));
    assert_eq!(delete_ban(&mut db, Some("Bearer user-secret"), "x"), Err(UserError::Forbidden));
    assert_eq!(delete_ban(&mut db, Some("Bearer admin-secret"), "x"), Err(UserError::BadRequest));
    assert_eq!(db.get_total_ban_count(), 1);
    assert_eq!(delete_ban(&mut db, Some("Bearer admin-secret"), "1"), no_content());
    assert_eq!(db.get_total_ban_count(), 0);
    assert_eq!(delete_ban(&mut db, Some("Bearer admin-secret"), "1"), Err(UserError::NotFound));
}

#[test]
fn entry_needs_a_reason() {
    assert_eq!(entry(1, "spam").validate(), Ok(()));
    assert_eq!(entry(1, " ").validate(), Ok(()));
    assert_eq!(entry(1, "").validate(), Err(UserError::BadRequest));
}

#[test]
fn bulk_listing_answers_at_every_moment() {
    let mut db = store();
    let user = Some("Bearer user-secret");
    assert_eq!(
        get_bans_id_list_at(&mut db, user, i64::MAX, 300),
        Err(UserError::Internal)
    );
    assert_eq!(db.get_antiflood(3).banlist_all, 0);
    assert_eq!(get_bans_id_list_at(&mut db, user, i64::MAX - 300, 300), text(""));
    assert_eq!(db.get_antiflood(3).banlist_all, i64::MAX);
    assert_eq!(
        get_bans_id_list_at(&mut db, user, i64::MAX - 1, 300),
        Err(UserError::TooManyRequests { until: i64::MAX })
    );
    assert_eq!(get_bans_id_list_at(&mut db, Some("Bearer root-secret"), i64::MAX, 300), text(""));
}
