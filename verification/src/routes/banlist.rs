//! The routes of the ban list.

use vstd::prelude::*;
use crate::database::{text_of, Antiflood, BanView, Database};
use crate::decimal::{decimal_lines, decimal_within, join_ids, parse_user_id};
use crate::errors::UserError;
use crate::guards::{throttle, Permission};
use crate::response::{reply_view, Body, BodyView, Response, ResponseView};
use crate::routes::{authorize, clearance};
use crate::settings::General;
use crate::tables::Tables;
use crate::utils::{auth_token, header_view, unix_time};

verus! {

/// One entry of the request to ban users.
#[derive(Debug, PartialEq, Eq)]
pub struct CreateBan {
    /// The user to ban.
    pub id: i64,
    /// Why; must not be empty.
    pub reason: String,
    pub message: Option<String>,
}

impl CreateBan {
    /// Checks the entry: a ban without a reason is a bad request.
    pub fn validate(&self) -> (checked: Result<(), UserError>)
        ensures
            checked == if self.reason@.len() > 0 {
                Ok::<(), UserError>(())
            } else {
                Err::<(), UserError>(UserError::BadRequest)
            },
    {
        if self.reason.as_str().is_empty() {
            Err(UserError::BadRequest)
        } else {
            Ok(())
        }
    }

    /// The ban that the entry asks for, when `admin` is the id of the token
    /// that asks and `now` the moment of writing.
    pub open spec fn ban(&self, admin: int, now: int) -> BanView {
        BanView {
            id: self.id as int,
            reason: self.reason@,
            date: now,
            admin,
            message: text_of(self.message),
        }
    }
}

/// What writing the bans of a request does, one after the other: it stops at
/// the first that cannot be written, and the bans before that one stay
/// written.
pub open spec fn write_bans(tables: Tables, entries: Seq<CreateBan>, admin: int, now: int) -> (
    Tables,
    Result<(), UserError>,
)
    decreases entries.len(),
{
    if entries.len() == 0 {
        (tables, Ok(()))
    } else {
        match tables.write_ban(entries[0].ban(admin, now)) {
            Ok(next) => write_bans(next, entries.drop_first(), admin, now),
            Err(e) => (tables, Err(e)),
        }
    }
}

/// A request whose entries all have a reason is written whole, as long as
/// the list has room for them: the tables stay well-formed, every user that
/// the request names is banned afterwards, and so is everybody who was
/// banned before.
pub proof fn lemma_write_bans_succeeds(
    tables: Tables,
    entries: Seq<CreateBan>,
    admin: int,
    now: int,
)
    requires
        tables.wf(),
        forall|i: int| 0 <= i < entries.len() ==> (#[trigger] entries[i]).reason@.len() > 0,
        tables.bans.len() + entries.len() <= i64::MAX,
    ensures
        ({
            let (written, outcome) = write_bans(tables, entries, admin, now);
            &&& outcome is Ok
            &&& written.wf()
            &&& written.tokens == tables.tokens
            &&& written.antiflood == tables.antiflood
            &&& written.bans.len() <= tables.bans.len() + entries.len()
            &&& forall|id: int| tables.has_ban(id) ==> written.has_ban(id)
            &&& forall|i: int|
                0 <= i < entries.len() ==> written.has_ban((#[trigger] entries[i]).id as int)
        }),
    decreases entries.len(),
{
    if entries.len() > 0 {
        let ban = entries[0].ban(admin, now);
        let next = tables.upsert_ban(ban);
        tables.lemma_upsert_ban(ban);
        let rest = entries.drop_first();
        lemma_write_bans_succeeds(next, rest, admin, now);
        let (written, _) = write_bans(next, rest, admin, now);
        assert forall|id: int| tables.has_ban(id) implies written.has_ban(id) by {
            if id != ban.id {
                assert(next.ban(id) == tables.ban(id));
            }
            assert(next.ban(id) is Some);
        }
        assert forall|i: int| 0 <= i < entries.len() implies written.has_ban(
            (#[trigger] entries[i]).id as int,
        ) by {
            if i == 0 {
                assert(next.ban(ban.id) is Some);
            } else {
                assert(rest[i - 1] == entries[i]);
            }
        }
    }
}

/// Lists all bans. Needs `Root`.
pub fn get_bans(db: &Database, auth: Option<&str>) -> (reply: Result<Response, UserError>)
    ensures
        reply_view(reply) == match clearance(db@, header_view(auth), Permission::Root) {
            Ok(_) => Ok(ResponseView::ok(BodyView::Bans(db@.bans))),
            Err(e) => Err(e),
        },
{
    let _guard = authorize(db, auth, Permission::Root)?;
    Ok(Response::ok(Body::Bans(db.get_bans())))
}

/// What `post_bans_at` does to the store and what it answers.
pub open spec fn posted_bans(
    tables: Tables,
    header: Option<Seq<char>>,
    entries: Seq<CreateBan>,
    now: int,
) -> (Tables, Result<ResponseView, UserError>) {
    match clearance(tables, header, Permission::Admin) {
        Ok(token) => {
            let (written, outcome) = write_bans(tables, entries, token.id, now);
            match outcome {
                Ok(_) => (written, Ok(ResponseView::no_content())),
                Err(e) => (written, Err(e)),
            }
        },
        Err(e) => (tables, Err(e)),
    }
}

/// A ban that was posted alone is the ban that is shown afterwards: the
/// user is banned once, with the reason, message and date of the request,
/// whether or not the user was banned before.
pub proof fn lemma_posted_ban_is_shown(
    tables: Tables,
    header: Option<Seq<char>>,
    entry: CreateBan,
    now: int,
)
    requires
        tables.wf(),
        posted_bans(tables, header, seq![entry], now).1 is Ok,
    ensures
        ({
            let after = posted_bans(tables, header, seq![entry], now).0;
            &&& after.wf()
            &&& after.ban(entry.id as int) matches Some(ban) && ban.reason == entry.reason@
                && ban.message == text_of(entry.message) && ban.date == now
            &&& after.bans.len() == tables.bans.len() + if tables.has_ban(entry.id as int) {
                0int
            } else {
                1int
            }
        }),
{
    let token = clearance(tables, header, Permission::Admin)->Ok_0;
    let ban = entry.ban(token.id, now);
    assert(seq![entry].drop_first() =~= Seq::<CreateBan>::empty());
    assert(write_bans(tables, seq![entry], token.id, now) == match tables.write_ban(ban) {
        Ok(next) => write_bans(next, Seq::<CreateBan>::empty(), token.id, now),
        Err(e) => (tables, Err::<(), UserError>(e)),
    });
    tables.lemma_upsert_ban(ban);
}

/// Bans the users that the request names, at the moment `now`, in the name
/// of the token that asks. A user who is banned already gets the new reason,
/// date and message. An entry without a reason is a bad request; the
/// entries before it are written all the same. Needs `Admin`.
#[verifier::loop_isolation(false)]
pub fn post_bans_at(db: &mut Database, auth: Option<&str>, data: &Vec<CreateBan>, now: i64) -> (reply:
    Result<Response, UserError>)
    ensures
        final(db)@.wf(),
        (final(db)@, reply_view(reply)) == posted_bans(
            old(db)@,
            header_view(auth),
            data@,
            now as int,
        ),
{
    proof {
        use_type_invariant(&*db);
    }
    let guard = authorize(db, auth, Permission::Admin)?;
    let ghost admin = guard.token.id as int;
    let mut i: usize = 0;
    assert(data@.skip(0) =~= data@);
    while i < data.len()
        invariant
            i <= data.len(),
            db@.wf(),
            write_bans(old(db)@, data@, admin, now as int) == write_bans(
                db@,
                data@.skip(i as int),
                admin,
                now as int,
            ),
        decreases data.len() - i,
    {
        let ban = &data[i];
        assert(data@.skip(i as int)[0] == data@[i as int]);
        assert(data@.skip(i as int).drop_first() =~= data@.skip(i + 1));
        ban.validate()?;
        db.add_ban(ban.id, &ban.reason, guard.token.id, &ban.message, now)?;
        i += 1;
    }
    Ok(Response::no_content())
}

/// Bans the users that the request names, now by the system clock. The
/// outcome is that of `post_bans_at` at some moment.
pub fn post_bans(db: &mut Database, auth: Option<&str>, data: &Vec<CreateBan>) -> (reply: Result<
    Response,
    UserError,
>)
    ensures
        final(db)@.wf(),
        exists|now: i64|
            (final(db)@, reply_view(reply)) == #[trigger] posted_bans(
                old(db)@,
                header_view(auth),
                data@,
                now as int,
            ),
{
    let now = unix_time();
    post_bans_at(db, auth, data, now)
}

/// Shows the ban of one user. Any tier may ask.
pub fn get_ban(db: &Database, auth: Option<&str>, id: &str) -> (reply: Result<
    Response,
    UserError,
>)
    ensures
        reply_view(reply) == match clearance(db@, header_view(auth), Permission::User) {
            Ok(_) => match decimal_within(id@, i64::MIN as int, i64::MAX as int) {
                Some(user_id) => match db@.ban(user_id) {
                    Some(ban) => Ok(ResponseView::ok(BodyView::Ban(ban))),
                    None => Err(UserError::NotFound),
                },
                None => Err(UserError::BadRequest),
            },
            Err(e) => Err(e),
        },
{
    let _guard = authorize(db, auth, Permission::User)?;
    let user_id = parse_user_id(id)?;
    match db.get_ban(user_id) {
        Some(ban) => Ok(Response::ok(Body::Ban(ban))),
        None => Err(UserError::NotFound),
    }
}

/// What `delete_ban` does to the store and what it answers.
pub open spec fn deleted_ban(tables: Tables, header: Option<Seq<char>>, id: Seq<char>) -> (
    Tables,
    Result<ResponseView, UserError>,
) {
    match clearance(tables, header, Permission::Admin) {
        Ok(_) => match decimal_within(id, i64::MIN as int, i64::MAX as int) {
            Some(user_id) => if tables.has_ban(user_id) {
                (tables.delete_ban(user_id), Ok(ResponseView::no_content()))
            } else {
                (tables, Err(UserError::NotFound))
            },
            None => (tables, Err(UserError::BadRequest)),
        },
        Err(e) => (tables, Err(e)),
    }
}

/// Lifts the ban of one user. A user who is not banned is not found, so
/// that the caller can tell the two apart. Needs `Admin`.
pub fn delete_ban(db: &mut Database, auth: Option<&str>, id: &str) -> (reply: Result<
    Response,
    UserError,
>)
    ensures
        final(db)@.wf(),
        (final(db)@, reply_view(reply)) == deleted_ban(old(db)@, header_view(auth), id@),
{
    proof {
        use_type_invariant(&*db);
    }
    let _guard = authorize(db, auth, Permission::Admin)?;
    let user_id = parse_user_id(id)?;
    match db.get_ban(user_id) {
        Some(_) => {
            db.delete_ban(user_id);
            Ok(Response::no_content())
        },
        None => Err(UserError::NotFound),
    }
}

/// What `get_bans_id_list_at` does to the store and what it answers.
pub open spec fn listed_ban_ids(
    tables: Tables,
    header: Option<Seq<char>>,
    now: i64,
    window: u32,
) -> (Tables, Result<ResponseView, UserError>) {
    match clearance(tables, header, Permission::User) {
        Ok(token) => {
            let state = Antiflood { banlist_all: tables.cooldown(token.id) as i64 };
            let (next, _, answer) = throttle(tables, token, state, now, window);
            match answer {
                Ok(_) => (next, Ok(ResponseView::ok(BodyView::Text(decimal_lines(tables.ban_ids()))))),
                Err(e) => (next, Err(e)),
            }
        },
        Err(e) => (tables, Err(e)),
    }
}

/// The bulk listing is throttled from one request to the next: after a
/// token below `Admin` was let through at `first`, its requests before the
/// end of the window are turned away with that end and change nothing, and
/// its first request from then on is let through, which starts the next
/// cooldown.
pub proof fn lemma_listing_is_throttled(
    tables: Tables,
    header: Option<Seq<char>>,
    first: i64,
    again: i64,
    window: u32,
)
    requires
        tables.wf(),
        clearance(tables, header, Permission::User) matches Ok(token)
            && !token.permission.admin_or_above() && tables.cooldown(token.id) <= first,
        first + window <= i64::MAX,
    ensures
        ({
            let token = clearance(tables, header, Permission::User)->Ok_0;
            let (listed, reply) = listed_ban_ids(tables, header, first, window);
            let (relisted, answer) = listed_ban_ids(listed, header, again, window);
            &&& listed.wf()
            &&& reply == Ok::<ResponseView, UserError>(
                ResponseView::ok(BodyView::Text(decimal_lines(tables.ban_ids()))),
            )
            &&& listed.cooldown(token.id) == first + window
            &&& again < first + window ==> {
                &&& answer == Err::<ResponseView, UserError>(
                    UserError::TooManyRequests { until: (first + window) as i64 },
                )
                &&& relisted == listed
            }
            &&& again >= first + window && again + window <= i64::MAX ==> {
                &&& answer == reply
                &&& relisted.cooldown(token.id) == again + window
            }
        }),
{
    let token = clearance(tables, header, Permission::User)->Ok_0;
    let secret = auth_token(header)->Ok_0;
    assert(tables.has_cooldown(token.id) ==> i64::MIN <= tables.cooldown(token.id) <= i64::MAX) by {
        if tables.has_cooldown(token.id) {
            tables.lemma_cooldown_at(tables.cooldown_index(token.id));
        }
    }
    let listed = tables.set_cooldown(token.id, first + window);
    tables.lemma_set_cooldown(token.id, first + window);
    assert(listed.token_by_secret(secret) == tables.token_by_secret(secret));
    if again >= first + window && again + window <= i64::MAX {
        listed.lemma_set_cooldown(token.id, again + window);
    }
}

/// Lists the ids of all banned users, one per line, at the moment `now`.
/// Any tier may ask, but the antiflood limiter has its say: a token below
/// `Admin` that is let through is kept away for the length of the window,
/// and is told so, with the end of its cooldown, if it comes back earlier.
pub fn get_bans_id_list_at(db: &mut Database, auth: Option<&str>, now: i64, window: u32) -> (reply:
    Result<Response, UserError>)
    ensures
        final(db)@.wf(),
        (final(db)@, reply_view(reply)) == listed_ban_ids(
            old(db)@,
            header_view(auth),
            now,
            window,
        ),
{
    proof {
        use_type_invariant(&*db);
    }
    let mut guard = authorize(db, auth, Permission::User)?;
    guard.banlist_all_at(db, now, window)?;
    let ids = db.get_banned_ids();
    Ok(Response::ok(Body::Text(join_ids(&ids))))
}

/// Lists the ids of all banned users, one per line, now by the system
/// clock and with the configured window. The outcome is that of
/// `get_bans_id_list_at` at some moment.
pub fn get_bans_id_list(db: &mut Database, auth: Option<&str>, general: &General) -> (reply: Result<
    Response,
    UserError,
>)
    ensures
        final(db)@.wf(),
        exists|now: i64|
            (final(db)@, reply_view(reply)) == #[trigger] listed_ban_ids(
                old(db)@,
                header_view(auth),
                now,
                general.antiflood_window,
            ),
{
    let now = unix_time();
    get_bans_id_list_at(db, auth, now, general.antiflood_window)
}

} // verus!
