//! The routes of the token table.

use vstd::prelude::*;
use vstd::string::*;
use crate::database::{describe_tokens, is_secret_of, token_infos, Database, TokenView};
use crate::decimal::{decimal_within, parse_token_id, parse_user_id};
use crate::errors::UserError;
use crate::guards::{Permission, TokenGuard};
use crate::response::{reply_view, Body, BodyView, Response, ResponseView};
use crate::routes::{authorize, clearance};
use crate::settings::General;
use crate::tables::Tables;
use crate::utils::{auth_token, header_view};

verus! {

/// The request to create a token.
#[derive(Debug, PartialEq, Eq)]
pub struct CreateToken {
    /// The user the token is to belong to.
    pub id: i64,
    pub permission: Permission,
}

/// Lists all tokens, without their secrets. Needs `Root`.
pub fn get_tokens(db: &Database, auth: Option<&str>) -> (reply: Result<Response, UserError>)
    ensures
        reply_view(reply) == match clearance(db@, header_view(auth), Permission::Root) {
            Ok(_) => Ok(ResponseView::ok(BodyView::Tokens(token_infos(db@.tokens)))),
            Err(e) => Err(e),
        },
{
    let _guard = authorize(db, auth, Permission::Root)?;
    Ok(Response::ok(Body::Tokens(describe_tokens(&db.get_tokens()))))
}

/// Creates a token for the user and with the tier that the request names,
/// with a fresh random secret, and answers with the token, secret included:
/// this is the only time the secret is shown. Needs `Root`.
pub fn post_tokens(db: &mut Database, auth: Option<&str>, data: &CreateToken, general: &General)
    -> (reply: Result<Response, UserError>)
    ensures
        final(db)@.wf(),
        match clearance(old(db)@, header_view(auth), Permission::Root) {
            Ok(_) => match reply {
                Ok(response) => {
                    &&& response.status == 201
                    &&& response.body matches Body::Created(token)
                    &&& is_secret_of(token.token@, general.token_size as nat)
                    &&& token@ == TokenView {
                        id: old(db)@.next_token_id(),
                        token: token.token@,
                        permission: data.permission,
                        userid: data.id as int,
                        retired: false,
                    }
                    &&& old(db)@.create_token(token.token@, data.permission, data.id as int)
                        == Ok::<Tables, UserError>(final(db)@)
                },
                Err(e) => {
                    &&& e == UserError::Internal
                    &&& final(db)@ == old(db)@
                    &&& exists|drawn: Seq<char>|
                        is_secret_of(drawn, general.token_size as nat) && #[trigger] old(
                            db,
                        )@.create_token(drawn, data.permission, data.id as int) is Err
                },
            },
            Err(e) => reply_view(reply) == Err::<ResponseView, UserError>(e) && final(db)@ == old(
                db,
            )@,
        },
{
    proof {
        use_type_invariant(&*db);
    }
    let _guard = authorize(db, auth, Permission::Root)?;
    let secret = db.create_token(&data.permission, data.id, general.token_size)?;
    proof {
        old(db)@.lemma_created_token(secret@, data.permission, data.id as int);
    }
    match db.get_token(secret) {
        Some(token) => Ok(Response::created(Body::Created(token))),
        None => Err(UserError::NotFound),
    }
}

/// Which token a request for one token asks for.
#[derive(Debug, Clone, Copy, PartialEq, Eq, Structural)]
pub enum Wanted {
    /// The token that makes the request.
    Own,
    /// The token with the given id.
    Other(i32),
}

/// Which token a request asks for with the given path segment, and whether
/// a token of the given tier may ask for it: `self` stands for the token
/// itself, which every tier may see; another token is named by its id, and
/// only `Root` may see it.
pub open spec fn wanted(permission: Permission, id: Seq<char>) -> Result<Wanted, UserError> {
    if id == "self"@ {
        Ok(Wanted::Own)
    } else if !permission.root_only() {
        Err(UserError::Forbidden)
    } else {
        match decimal_within(id, i32::MIN as int, i32::MAX as int) {
            Some(token_id) => Ok(Wanted::Other(token_id as i32)),
            None => Err(UserError::BadRequest),
        }
    }
}

/// Reads which token a request for one token asks for, and checks that the
/// guard's token may see it.
pub fn which_token(guard: &TokenGuard, id: &str) -> (asked: Result<Wanted, UserError>)
    ensures
        asked == wanted(guard.token.permission, id@),
{
    if String::from_str(id) == String::from_str("self") {
        return Ok(Wanted::Own);
    }
    guard.require(Permission::Root)?;
    let token_id = parse_token_id(id)?;
    Ok(Wanted::Other(token_id))
}

/// Shows one token, without its secret: the caller's own for the id `self`,
/// which any tier may ask for, and else the token with the given id, which
/// needs `Root`.
pub fn get_token(db: &Database, auth: Option<&str>, id: &str) -> (reply: Result<
    Response,
    UserError,
>)
    ensures
        reply_view(reply) == match clearance(db@, header_view(auth), Permission::User) {
            Ok(own) => match wanted(own.permission, id@) {
                Ok(Wanted::Own) => Ok(ResponseView::ok(BodyView::Token(own.info()))),
                Ok(Wanted::Other(token_id)) => match db@.token_by_id(token_id as int) {
                    Some(token) => Ok(ResponseView::ok(BodyView::Token(token.info()))),
                    None => Err(UserError::NotFound),
                },
                Err(e) => Err(e),
            },
            Err(e) => Err(e),
        },
{
    let guard = authorize(db, auth, Permission::User)?;
    match which_token(&guard, id)? {
        Wanted::Own => Ok(Response::ok(Body::Token(guard.token.info()))),
        Wanted::Other(token_id) => match db.get_token_by_id(token_id) {
            Some(token) => Ok(Response::ok(Body::Token(token.info()))),
            None => Err(UserError::NotFound),
        },
    }
}

/// Lists the tokens of one user, without their secrets. Needs `Root`.
pub fn get_token_by_userid(db: &Database, auth: Option<&str>, uid: &str) -> (reply: Result<
    Response,
    UserError,
>)
    ensures
        reply_view(reply) == match clearance(db@, header_view(auth), Permission::Root) {
            Ok(_) => match decimal_within(uid@, i64::MIN as int, i64::MAX as int) {
                Some(userid) => Ok(
                    ResponseView::ok(BodyView::Tokens(token_infos(db@.tokens_of(userid)))),
                ),
                None => Err(UserError::BadRequest),
            },
            Err(e) => Err(e),
        },
{
    let _guard = authorize(db, auth, Permission::Root)?;
    let userid = parse_user_id(uid)?;
    Ok(Response::ok(Body::Tokens(describe_tokens(&db.get_token_by_userid(userid)))))
}

/// What `delete_token` does to the store and what it answers.
pub open spec fn deleted_token(tables: Tables, header: Option<Seq<char>>, id: Seq<char>) -> (
    Tables,
    Result<ResponseView, UserError>,
) {
    match clearance(tables, header, Permission::Root) {
        Ok(_) => match decimal_within(id, i32::MIN as int, i32::MAX as int) {
            Some(token_id) => if tables.token_by_id(token_id) is Some {
                (tables.revoke_token(token_id), Ok(ResponseView::no_content()))
            } else {
                (tables, Err(UserError::NotFound))
            },
            None => (tables, Err(UserError::BadRequest)),
        },
        Err(e) => (tables, Err(e)),
    }
}

/// Once a token was revoked, a request that presents its secret is
/// unauthorized on every route.
pub proof fn lemma_revoked_token_is_unauthorized(
    tables: Tables,
    header: Option<Seq<char>>,
    id: Seq<char>,
    presented: Option<Seq<char>>,
    needs: Permission,
)
    requires
        tables.wf(),
        deleted_token(tables, header, id).1 is Ok,
        decimal_within(id, i32::MIN as int, i32::MAX as int) matches Some(token_id)
            && tables.token_by_id(token_id) matches Some(revoked) && auth_token(presented) == Ok::<
            Seq<char>,
            UserError,
        >(revoked.token),
    ensures
        clearance(deleted_token(tables, header, id).0, presented, needs) == Err::<
            TokenView,
            UserError,
        >(UserError::Unauthorized),
{
    let token_id = decimal_within(id, i32::MIN as int, i32::MAX as int)->0;
    tables.lemma_revoked_is_dead(token_id);
}

/// Revoking a token twice is answered alike and leaves the tokens as
/// revoking it once does, unless the token that asks revoked itself, which
/// makes its second request unauthorized.
pub proof fn lemma_delete_token_twice(tables: Tables, header: Option<Seq<char>>, id: Seq<char>)
    requires
        tables.wf(),
        deleted_token(tables, header, id).1 is Ok,
    ensures
        ({
            let (once, first) = deleted_token(tables, header, id);
            let (twice, second) = deleted_token(once, header, id);
            let asking = clearance(tables, header, Permission::Root)->Ok_0;
            let token_id = decimal_within(id, i32::MIN as int, i32::MAX as int)->0;
            &&& twice == once
            &&& if asking.id == token_id {
                second == Err::<ResponseView, UserError>(UserError::Unauthorized)
            } else {
                second == first
            }
        }),
{
    let token_id = decimal_within(id, i32::MIN as int, i32::MAX as int)->0;
    let asking = clearance(tables, header, Permission::Root)->Ok_0;
    let secret = auth_token(header)->Ok_0;
    let once = tables.revoke_token(token_id);
    tables.lemma_revoke_token(token_id);
    tables.lemma_revoke_is_idempotent(token_id);
    let i = choose|i: int|
        0 <= i < tables.tokens.len() && (#[trigger] tables.tokens[i]).token == secret;
    tables.lemma_token_at(i);
    assert(once.tokens[i].token == secret);
    once.lemma_token_at(i);
}

/// Revokes the token with the given id: the token is retired, not removed,
/// and revoking it again is answered alike. Needs `Root`.
pub fn delete_token(db: &mut Database, auth: Option<&str>, id: &str) -> (reply: Result<
    Response,
    UserError,
>)
    ensures
        final(db)@.wf(),
        (final(db)@, reply_view(reply)) == deleted_token(old(db)@, header_view(auth), id@),
{
    proof {
        use_type_invariant(&*db);
    }
    let _guard = authorize(db, auth, Permission::Root)?;
    let token_id = parse_token_id(id)?;
    match db.get_token_by_id(token_id) {
        Some(_) => {
            db.revoke_token_by_id(token_id);
            Ok(Response::no_content())
        },
        None => Err(UserError::NotFound),
    }
}

} // verus!
