//! Permission tiers, the guard that resolves a bearer secret to a token, and
//! the antiflood limiter that throttles the bulk listing of banned ids.

use vstd::prelude::*;
use crate::database::{Antiflood, Database, Token, TokenView};
use crate::errors::UserError;
use crate::tables::Tables;
use crate::utils::unix_time;

verus! {

/// The permission tier of a token. The tiers are ordered: every capability of
/// a lower tier is also a capability of the higher ones.
#[derive(Debug, Clone, Copy, PartialEq, Eq, Structural)]
pub enum Permission {
    /// Can read from the API.
    User,
    /// Can add identifiers to the ban list.
    Admin,
    /// Can create and revoke tokens.
    Root,
}

impl Permission {
    /// The position of the tier in the order `User < Admin < Root`.
    pub open spec fn rank(self) -> nat {
        match self {
            Permission::User => 0,
            Permission::Admin => 1,
            Permission::Root => 2,
        }
    }

    /// Whether the tier is `Admin` or `Root`.
    pub open spec fn admin_or_above(self) -> bool {
        self.rank() >= Permission::Admin.rank()
    }

    /// Whether the tier is `Root`.
    pub open spec fn root_only(self) -> bool {
        self.rank() >= Permission::Root.rank()
    }

    /// Whether the tier is `Admin` or `Root`.
    pub fn is_admin_or_above(&self) -> (granted: bool)
        ensures
            granted == self.admin_or_above(),
            granted == (*self == Permission::Admin || *self == Permission::Root),
    {
        match self {
            Permission::User => false,
            Permission::Admin => true,
            Permission::Root => true,
        }
    }

    /// Whether the tier is `Root`.
    pub fn is_root(&self) -> (granted: bool)
        ensures
            granted == self.root_only(),
            granted == (*self == Permission::Root),
    {
        match self {
            Permission::Root => true,
            _ => false,
        }
    }
}

/// The tiers are nested: what a tier may do, every tier above it may do,
/// and `Root` may do what `Admin` may.
pub proof fn lemma_tiers_are_nested(lower: Permission, higher: Permission)
    requires
        lower.rank() <= higher.rank(),
    ensures
        lower.admin_or_above() ==> higher.admin_or_above(),
        lower.root_only() ==> higher.root_only(),
        higher.root_only() ==> higher.admin_or_above(),
{
}

/// The two predicates tell the three tiers apart: `User` has neither,
/// `Admin` the first only, `Root` both.
pub proof fn lemma_tier_predicates(tier: Permission)
    ensures
        tier == Permission::User ==> !tier.admin_or_above() && !tier.root_only(),
        tier == Permission::Admin ==> tier.admin_or_above() && !tier.root_only(),
        tier == Permission::Root ==> tier.admin_or_above() && tier.root_only(),
{
}

/// What the limiter decided for a call that it lets through.
#[derive(Debug, Clone, Copy, PartialEq, Eq, Structural)]
pub enum Admission {
    /// The tier is exempt from throttling; no cooldown is touched.
    Exempt,
    /// The call is let through and a new cooldown starts, which ends at
    /// `until` and is to be stored.
    Granted { until: i64 },
}

/// What the limiter answers for a tier, the stored end of the cooldown, the
/// present moment and the length of the window. A privileged tier always
/// passes. Another tier is turned away, with the unchanged end of the
/// cooldown, before that end; from then on it passes, which starts a new
/// cooldown of one window. The one exception: where the end of the new
/// cooldown lies beyond the moments that can be told, the answer is an
/// internal error.
pub open spec fn admission(permission: Permission, cooldown_until: i64, now: i64, window: u32)
    -> Result<Admission, UserError> {
    if permission.admin_or_above() {
        Ok(Admission::Exempt)
    } else if now < cooldown_until {
        Err(UserError::TooManyRequests { until: cooldown_until })
    } else if now + window > i64::MAX {
        Err(UserError::Internal)
    } else {
        Ok(Admission::Granted { until: (now + window) as i64 })
    }
}

/// What asking the limiter on behalf of a token does to the store and to the
/// throttling state that the guard of the token holds, and what it answers.
/// A call that the limiter turns away, and one of an exempt tier, leave the
/// store alone. A call that it lets through starts a cooldown only if the
/// store still holds the end that the guard knows; if another guard of the
/// token has moved the end in the meantime, the limiter is asked again with
/// what the store holds now.
pub open spec fn throttle(
    tables: Tables,
    token: TokenView,
    state: Antiflood,
    now: i64,
    window: u32,
) -> (Tables, Antiflood, Result<(), UserError>) {
    match admission(token.permission, state.banlist_all, now, window) {
        Ok(Admission::Exempt) => (tables, state, Ok(())),
        Ok(Admission::Granted { until }) => if tables.cooldown(token.id) == state.banlist_all {
            (tables.set_cooldown(token.id, until as int), Antiflood { banlist_all: until }, Ok(()))
        } else {
            let stored = Antiflood { banlist_all: tables.cooldown(token.id) as i64 };
            match admission(token.permission, stored.banlist_all, now, window) {
                Ok(Admission::Granted { until }) => (
                    tables.set_cooldown(token.id, until as int),
                    Antiflood { banlist_all: until },
                    Ok(()),
                ),
                Ok(Admission::Exempt) => (tables, stored, Ok(())),
                Err(e) => (tables, stored, Err(e)),
            }
        },
        Err(e) => (tables, state, Err(e)),
    }
}

/// The throttling state that follows from the limiter's answer.
pub open spec fn cooldown_after(state: Antiflood, answer: Result<Admission, UserError>)
    -> Antiflood {
    match answer {
        Ok(Admission::Granted { until }) => Antiflood { banlist_all: until },
        _ => state,
    }
}

/// The limiter's rule, at every moment: a privileged tier always passes and
/// its cooldown is not touched; another tier is turned away before the end
/// of its cooldown, which stays as it is, and passes from then on, which
/// moves the end of the cooldown one window past the call.
pub proof fn lemma_antiflood(permission: Permission, state: Antiflood, now: i64, window: u32)
    ensures
        permission.admin_or_above() ==> {
            &&& admission(permission, state.banlist_all, now, window) is Ok
            &&& cooldown_after(state, admission(permission, state.banlist_all, now, window))
                == state
        },
        !permission.admin_or_above() && now < state.banlist_all ==> {
            &&& admission(permission, state.banlist_all, now, window) == Err::<
                Admission,
                UserError,
            >(UserError::TooManyRequests { until: state.banlist_all })
            &&& cooldown_after(state, admission(permission, state.banlist_all, now, window))
                == state
        },
        !permission.admin_or_above() && now >= state.banlist_all && now + window <= i64::MAX ==> {
            &&& admission(permission, state.banlist_all, now, window) is Ok
            &&& cooldown_after(
                state,
                admission(permission, state.banlist_all, now, window),
            ).banlist_all == now + window
        },
{
}

/// A cooldown is fixed when it starts: after a call that was let through at
/// `first`, every call before the end of the window is turned away with the
/// same end, however often it is made and whenever, and the first call at
/// or after the end is let through.
pub proof fn lemma_cooldown_is_not_renewed(
    permission: Permission,
    state: Antiflood,
    first: i64,
    again: i64,
    window: u32,
)
    requires
        !permission.admin_or_above(),
        state.banlist_all <= first,
        first + window <= i64::MAX,
    ensures
        ({
            let started = cooldown_after(
                state,
                admission(permission, state.banlist_all, first, window),
            );
            let answer = admission(permission, started.banlist_all, again, window);
            &&& started.banlist_all == first + window
            &&& again < first + window ==> {
                &&& answer == Err::<Admission, UserError>(
                    UserError::TooManyRequests { until: started.banlist_all },
                )
                &&& cooldown_after(started, answer) == started
            }
            &&& again >= first + window && again + window <= i64::MAX ==> {
                &&& answer is Ok
                &&& cooldown_after(started, answer).banlist_all == again + window
            }
        }),
{
}

/// The limiter's rule as the store sees it, for a guard that knows what the
/// store holds: a privileged tier passes and nothing is written; another
/// tier is turned away before the end of its cooldown, at whatever moment,
/// with that end, and nothing is written; from then on it passes, and the
/// end of its cooldown, and nothing else, moves one window past the call.
pub proof fn lemma_throttle(
    tables: Tables,
    token: TokenView,
    state: Antiflood,
    now: i64,
    window: u32,
)
    requires
        tables.wf(),
        state.banlist_all == tables.cooldown(token.id),
    ensures
        token.permission.admin_or_above() ==> throttle(tables, token, state, now, window) == (
            tables,
            state,
            Ok::<(), UserError>(()),
        ),
        !token.permission.admin_or_above() && now < state.banlist_all ==> throttle(
            tables,
            token,
            state,
            now,
            window,
        ) == (
            tables,
            state,
            Err::<(), UserError>(UserError::TooManyRequests { until: state.banlist_all }),
        ),
        !token.permission.admin_or_above() && now >= state.banlist_all && now + window
            <= i64::MAX ==> {
            let (next, known, answer) = throttle(tables, token, state, now, window);
            &&& answer == Ok::<(), UserError>(())
            &&& known.banlist_all == now + window
            &&& next.wf()
            &&& next.cooldown(token.id) == now + window
            &&& next.tokens == tables.tokens
            &&& next.bans == tables.bans
            &&& forall|other: int| other != token.id ==> next.cooldown(other) == tables.cooldown(other)
        },
{
    if !token.permission.admin_or_above() && now >= state.banlist_all && now + window
        <= i64::MAX {
        tables.lemma_set_cooldown(token.id, now + window);
    }
}

/// Two guards of one token cannot both win: where both were resolved while
/// the cooldown was over and the first is let through at `first`, the second
/// is turned away until the window that started there has ended, although
/// the end of the cooldown that it remembers is long past.
pub proof fn lemma_one_winner(
    tables: Tables,
    token: TokenView,
    state: Antiflood,
    first: i64,
    second: i64,
    window: u32,
)
    requires
        tables.wf(),
        !token.permission.admin_or_above(),
        state.banlist_all == tables.cooldown(token.id),
        state.banlist_all <= first <= second,
        second + window <= i64::MAX,
    ensures
        ({
            let (won, _, answer) = throttle(tables, token, state, first, window);
            let (then, known, again) = throttle(won, token, state, second, window);
            &&& answer == Ok::<(), UserError>(())
            &&& won.cooldown(token.id) == first + window
            &&& second < first + window ==> {
                &&& again == Err::<(), UserError>(
                    UserError::TooManyRequests { until: (first + window) as i64 },
                )
                &&& then == won
                &&& known.banlist_all == first + window
            }
            &&& second >= first + window ==> {
                &&& again == Ok::<(), UserError>(())
                &&& then.cooldown(token.id) == second + window
            }
        }),
{
    let won = tables.set_cooldown(token.id, first + window);
    tables.lemma_set_cooldown(token.id, first + window);
    won.lemma_set_cooldown(token.id, second + window);
}

/// The antiflood limiter: decides whether a token of the given tier may make
/// the throttled call at `now`, and consumes the allowance if it may. A
/// call that is turned away leaves the cooldown as it is, so that polling
/// during the window does not prolong it.
pub fn check_and_consume(permission: Permission, state: &mut Antiflood, now: i64, window: u32)
    -> (answer: Result<Admission, UserError>)
    ensures
        answer == admission(permission, old(state).banlist_all, now, window),
        *final(state) == cooldown_after(*old(state), answer),
{
    if permission.is_admin_or_above() {
        Ok(Admission::Exempt)
    } else if now < state.banlist_all {
        Err(UserError::TooManyRequests { until: state.banlist_all })
    } else if now > i64::MAX - window as i64 {
        Err(UserError::Internal)
    } else {
        let until = now + window as i64;
        state.banlist_all = until;
        Ok(Admission::Granted { until })
    }
}

/// A validated, non-retired token together with its throttling state.
pub struct TokenGuard {
    /// The token that the presented secret resolved to.
    pub token: Token,
    /// The throttling state of the token, as the store had it when the
    /// secret was resolved and as the limiter has changed it since.
    pub antiflood: Antiflood,
}

impl TokenGuard {
    /// Validates what a lookup of the presented secret gave. An empty secret
    /// is turned away without regard to the lookup; so is a secret that no
    /// token holds, and one whose token is retired, which the caller cannot
    /// tell from each other.
    pub fn resolve(token_header: &str, found: Option<Token>, antiflood: Antiflood) -> (resolved:
        Result<TokenGuard, UserError>)
        ensures
            match resolved {
                Ok(guard) => {
                    &&& token_header@.len() > 0
                    &&& found matches Some(token)
                    &&& !token.retired
                    &&& guard.token == token
                    &&& guard.antiflood == antiflood
                },
                Err(e) => {
                    &&& e == UserError::Unauthorized
                    &&& token_header@.len() == 0 || found is None || found->0.retired
                },
            },
    {
        if token_header.is_empty() {
            return Err(UserError::Unauthorized);
        }
        match found {
            Some(token) => {
                if token.retired {
                    Err(UserError::Unauthorized)
                } else {
                    Ok(TokenGuard { token, antiflood })
                }
            },
            None => Err(UserError::Unauthorized),
        }
    }

    /// Resolves a presented secret against the store. Succeeds exactly where
    /// the secret is not empty and a token that is not retired holds it; the
    /// guard then carries that token and its throttling state. Reads only.
    pub fn new(db: &Database, token_header: String) -> (resolved: Result<TokenGuard, UserError>)
        ensures
            match resolved {
                Ok(guard) => {
                    &&& db@.live_token(token_header@) == Some(guard.token@)
                    &&& guard.antiflood.banlist_all == db@.cooldown(guard.token@.id)
                },
                Err(e) => e == UserError::Unauthorized && db@.live_token(token_header@) is None,
            },
    {
        if token_header.as_str().is_empty() {
            return Err(UserError::Unauthorized);
        }
        let found = db.get_token(token_header.clone());
        let antiflood = match &found {
            Some(token) => db.get_antiflood(token.id),
            None => Antiflood::default(),
        };
        TokenGuard::resolve(token_header.as_str(), found, antiflood)
    }

    /// Whether the token's tier is `Admin` or `Root`.
    pub fn admin(&self) -> (granted: bool)
        ensures
            granted == self.token.permission.admin_or_above(),
            granted == (self.token.permission == Permission::Admin || self.token.permission
                == Permission::Root),
    {
        self.token.permission.is_admin_or_above()
    }

    /// Whether the token's tier is `Root`.
    pub fn root(&self) -> (granted: bool)
        ensures
            granted == self.token.permission.root_only(),
            granted == (self.token.permission == Permission::Root),
    {
        self.token.permission.is_root()
    }

    /// Checks the tier that a route needs: a token of a lower tier is
    /// forbidden.
    pub fn require(&self, needs: Permission) -> (granted: Result<(), UserError>)
        ensures
            granted == if self.token.permission.rank() >= needs.rank() {
                Ok::<(), UserError>(())
            } else {
                Err::<(), UserError>(UserError::Forbidden)
            },
    {
        let granted = match needs {
            Permission::User => true,
            Permission::Admin => self.admin(),
            Permission::Root => self.root(),
        };
        if granted {
            Ok(())
        } else {
            Err(UserError::Forbidden)
        }
    }

    /// Asks the limiter whether the token may list all banned ids at `now`,
    /// and consumes the allowance in the guard if it may. The cooldown that
    /// starts with a call that is let through is still to be stored.
    pub fn consume_at(&mut self, now: i64, window: u32) -> (answer: Result<Admission, UserError>)
        ensures
            final(self).token == old(self).token,
            answer == admission(
                old(self).token.permission,
                old(self).antiflood.banlist_all,
                now,
                window,
            ),
            final(self).antiflood == cooldown_after(old(self).antiflood, answer),
    {
        check_and_consume(self.token.permission, &mut self.antiflood, now, window)
    }

    /// Asks the limiter whether the token may list all banned ids at `now`.
    /// Where it may and is not exempt, the new cooldown is stored, in the
    /// guard and in the store, by a write that is guarded by the end that
    /// the guard knows: of two guards of one token that know the same end,
    /// only one starts a cooldown. A guard that loses the write looks at
    /// what the store holds then and asks again, until it is turned away or
    /// its write goes through.
    pub fn banlist_all_at(&mut self, db: &mut Database, now: i64, window: u32) -> (answer: Result<
        (),
        UserError,
    >)
        ensures
            final(self).token == old(self).token,
            final(db)@.wf(),
            (final(db)@, final(self).antiflood, answer) == throttle(
                old(db)@,
                old(self).token@,
                old(self).antiflood,
                now,
                window,
            ),
    {
        proof {
            use_type_invariant(&*db);
        }
        let mut lost = false;
        loop
            invariant
                self.token == old(self).token,
                db@ == old(db)@,
                db@.wf(),
                !lost ==> self.antiflood == old(self).antiflood,
                lost ==> {
                    &&& admission(
                        self.token.permission,
                        old(self).antiflood.banlist_all,
                        now,
                        window,
                    ) matches Ok(Admission::Granted { .. })
                    &&& db@.cooldown(self.token@.id) != old(self).antiflood.banlist_all
                    &&& self.antiflood.banlist_all == db@.cooldown(self.token@.id)
                },
            decreases
                    if lost {
                        0int
                    } else {
                        1int
                    },
        {
            let known = self.antiflood.banlist_all;
            match self.consume_at(now, window) {
                Ok(Admission::Exempt) => {
                    return Ok(());
                },
                Ok(Admission::Granted { until }) => {
                    if db.advance_antiflood_banlist_all(self.token.id, known, until) {
                        return Ok(());
                    }
                    self.antiflood = db.get_antiflood(self.token.id);
                    lost = true;
                },
                Err(e) => {
                    return Err(e);
                },
            }
        }
    }

    /// Asks the limiter whether the token may list all banned ids now, by
    /// the system clock. The outcome is that of `banlist_all_at` at some
    /// moment. An exempt token passes without a look at the clock.
    pub fn banlist_all(&mut self, db: &mut Database, window: u32) -> (answer: Result<(), UserError>)
        ensures
            final(self).token == old(self).token,
            final(db)@.wf(),
            exists|now: i64|
                (final(db)@, final(self).antiflood, answer) == #[trigger] throttle(
                    old(db)@,
                    old(self).token@,
                    old(self).antiflood,
                    now,
                    window,
                ),
    {
        proof {
            use_type_invariant(&*db);
        }
        if self.admin() {
            assert((db@, self.antiflood, Ok::<(), UserError>(())) == throttle(
                db@,
                self.token@,
                self.antiflood,
                0i64,
                window,
            ));
            return Ok(());
        }
        let now = unix_time();
        self.banlist_all_at(db, now, window)
    }
}

} // verus!
