//! The operations that the service offers, one function per route. Each
//! takes what the transport read out of the request, asks the store, and
//! answers with a response or an error.

use vstd::prelude::*;
use crate::database::{Database, TokenView};
use crate::errors::UserError;
use crate::guards::{Permission, TokenGuard};
use crate::tables::Tables;
use crate::utils::{auth_token, get_auth_token, header_view};

pub mod banlist;
pub mod root;
pub mod tokens;

verus! {

/// The token that a request acts as, if it may use a route that needs the
/// given tier. A request without an `Authorization` header, or whose secret
/// no token holds that is not retired, is unauthorized; a header that cannot
/// be read is a bad request; a token of too low a tier is forbidden.
pub open spec fn clearance(tables: Tables, header: Option<Seq<char>>, needs: Permission) -> Result<
    TokenView,
    UserError,
> {
    match auth_token(header) {
        Err(e) => Err(e),
        Ok(secret) => match tables.live_token(secret) {
            None => Err(UserError::Unauthorized),
            Some(token) => if token.permission.rank() >= needs.rank() {
                Ok(token)
            } else {
                Err(UserError::Forbidden)
            },
        },
    }
}

/// A secret that no token holds, and one whose token is retired, is
/// unauthorized on every route, whatever tier the route needs.
pub proof fn lemma_unknown_or_retired_is_unauthorized(
    tables: Tables,
    header: Option<Seq<char>>,
    needs: Permission,
)
    requires
        auth_token(header) matches Ok(secret) && (tables.token_by_secret(secret) matches Some(
            token,
        ) ==> token.retired),
    ensures
        clearance(tables, header, needs) == Err::<TokenView, UserError>(UserError::Unauthorized),
{
}

/// A request that is cleared for a tier is cleared for every lower tier, as
/// the same token.
pub proof fn lemma_clearance_is_monotone(
    tables: Tables,
    header: Option<Seq<char>>,
    needs: Permission,
    less: Permission,
)
    requires
        less.rank() <= needs.rank(),
        clearance(tables, header, needs) is Ok,
    ensures
        clearance(tables, header, less) == clearance(tables, header, needs),
{
}

/// Resolves the `Authorization` header of a request to a guard and checks
/// the tier that the route needs.
pub fn authorize(db: &Database, header: Option<&str>, needs: Permission) -> (admitted: Result<
    TokenGuard,
    UserError,
>)
    ensures
        match admitted {
            Ok(guard) => {
                &&& clearance(db@, header_view(header), needs) == Ok::<TokenView, UserError>(
                    guard.token@,
                )
                &&& guard.antiflood.banlist_all == db@.cooldown(guard.token@.id)
            },
            Err(e) => clearance(db@, header_view(header), needs) == Err::<TokenView, UserError>(e),
        },
{
    let secret = get_auth_token(header)?;
    let guard = TokenGuard::new(db, secret)?;
    guard.require(needs)?;
    Ok(guard)
}

} // verus!
