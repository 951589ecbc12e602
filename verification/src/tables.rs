//! The content of the store as mathematical values: three tables, what can
//! be read from them and how the lifecycle operations change them.

use vstd::prelude::*;
use crate::database::{BanView, TokenView};
use crate::errors::UserError;
use crate::guards::Permission;

verus! {

/// One row of the antiflood table.
pub struct CooldownRow {
    /// The id of the token the row belongs to.
    pub token: int,
    /// The end of the token's cooldown.
    pub banlist_all: int,
}

/// The tokens, bans and cooldowns that the store holds.
pub struct Tables {
    /// All tokens ever created, in the order of their ids.
    pub tokens: Seq<TokenView>,
    /// The current bans, in the order in which their ids were first banned.
    pub bans: Seq<BanView>,
    /// The cooldowns that were set, at most one per token.
    pub antiflood: Seq<CooldownRow>,
}

/// What can be done to the tables.
pub enum Operation {
    /// Create a token that holds the given secret.
    CreateToken { secret: Seq<char>, permission: Permission, userid: int },
    /// Retire the token with the given id.
    RevokeToken { id: int },
    /// Write a ban.
    WriteBan { ban: BanView },
    /// Remove the ban of the given user.
    DeleteBan { id: int },
    /// Set the end of the cooldown of the given token.
    SetCooldown { token: int, until: i64 },
    /// Set the end of the cooldown of the given token if it is the expected
    /// one.
    AdvanceCooldown { token: int, expected: i64, until: i64 },
}

/// Token ids count up from 1 and no secret is held by two tokens.
pub open spec fn tokens_wf(tokens: Seq<TokenView>) -> bool {
    &&& tokens.len() <= i32::MAX
    &&& forall|i: int| 0 <= i < tokens.len() ==> (#[trigger] tokens[i]).id == i + 1
    &&& forall|i: int, j: int|
        0 <= i < j < tokens.len() ==> (#[trigger] tokens[i]).token != (#[trigger] tokens[j]).token
}

/// No user is banned twice and no ban is without a reason.
pub open spec fn bans_wf(bans: Seq<BanView>) -> bool {
    &&& bans.len() <= i64::MAX
    &&& forall|i: int, j: int|
        0 <= i < j < bans.len() ==> (#[trigger] bans[i]).id != (#[trigger] bans[j]).id
    &&& forall|i: int| 0 <= i < bans.len() ==> (#[trigger] bans[i]).reason.len() > 0
}

/// No token has two cooldowns, and every cooldown ends at a moment that the
/// store can hold.
pub open spec fn cooldowns_wf(rows: Seq<CooldownRow>) -> bool {
    &&& forall|i: int, j: int|
        0 <= i < j < rows.len() ==> (#[trigger] rows[i]).token != (#[trigger] rows[j]).token
    &&& forall|i: int|
        0 <= i < rows.len() ==> i64::MIN <= (#[trigger] rows[i]).banlist_all <= i64::MAX
}

/// The test that picks the tokens of one owner.
pub open spec fn owned_by(userid: int) -> spec_fn(TokenView) -> bool {
    |t: TokenView| t.userid == userid
}

impl Tables {
    /// The tables of a fresh store.
    pub open spec fn empty() -> Tables {
        Tables { tokens: Seq::empty(), bans: Seq::empty(), antiflood: Seq::empty() }
    }

    /// The invariant of the data model: token ids count up from 1, no secret
    /// is held by two tokens, no user is banned twice, no ban is without a
    /// reason and no token has two cooldowns.
    pub open spec fn wf(self) -> bool {
        &&& tokens_wf(self.tokens)
        &&& bans_wf(self.bans)
        &&& cooldowns_wf(self.antiflood)
    }

    /// The id that the next token gets.
    pub open spec fn next_token_id(self) -> int {
        self.tokens.len() as int + 1
    }

    /// The token with the given id, if there is one.
    pub open spec fn token_by_id(self, id: int) -> Option<TokenView> {
        if 1 <= id <= self.tokens.len() {
            Some(self.tokens[id - 1])
        } else {
            None
        }
    }

    /// Whether some token, retired or not, holds the secret.
    pub open spec fn has_secret(self, secret: Seq<char>) -> bool {
        exists|i: int| 0 <= i < self.tokens.len() && (#[trigger] self.tokens[i]).token == secret
    }

    /// The token that holds the secret, if there is one.
    pub open spec fn token_by_secret(self, secret: Seq<char>) -> Option<TokenView> {
        if self.has_secret(secret) {
            let i = choose|i: int|
                0 <= i < self.tokens.len() && (#[trigger] self.tokens[i]).token == secret;
            Some(self.tokens[i])
        } else {
            None
        }
    }

    /// The token that a presented secret authenticates as: the one that
    /// holds the secret, unless the secret is empty or the token retired.
    pub open spec fn live_token(self, secret: Seq<char>) -> Option<TokenView> {
        match self.token_by_secret(secret) {
            Some(token) if secret.len() > 0 && !token.retired => Some(token),
            _ => None,
        }
    }

    /// The tokens of one owner, in the order of their ids.
    pub open spec fn tokens_of(self, userid: int) -> Seq<TokenView> {
        self.tokens.filter(owned_by(userid))
    }

    /// Whether the user is banned.
    pub open spec fn has_ban(self, id: int) -> bool {
        exists|i: int| 0 <= i < self.bans.len() && (#[trigger] self.bans[i]).id == id
    }

    /// Where the ban of the user stands in the table, if the user is banned.
    pub open spec fn ban_index(self, id: int) -> int {
        choose|i: int| 0 <= i < self.bans.len() && (#[trigger] self.bans[i]).id == id
    }

    /// The ban of the user, if the user is banned.
    pub open spec fn ban(self, id: int) -> Option<BanView> {
        if self.has_ban(id) {
            Some(self.bans[self.ban_index(id)])
        } else {
            None
        }
    }

    /// The banned users, in table order.
    pub open spec fn ban_ids(self) -> Seq<int> {
        self.bans.map_values(|b: BanView| b.id)
    }

    /// Whether a cooldown was ever set for the token.
    pub open spec fn has_cooldown(self, token: int) -> bool {
        exists|i: int|
            0 <= i < self.antiflood.len() && (#[trigger] self.antiflood[i]).token == token
    }

    /// Where the cooldown of the token stands in the table, if one was set.
    pub open spec fn cooldown_index(self, token: int) -> int {
        choose|i: int|
            0 <= i < self.antiflood.len() && (#[trigger] self.antiflood[i]).token == token
    }

    /// The end of the token's cooldown; zero if none was ever set.
    pub open spec fn cooldown(self, token: int) -> int {
        if self.has_cooldown(token) {
            self.antiflood[self.cooldown_index(token)].banlist_all
        } else {
            0
        }
    }

    /// The tables after a token with a fresh id was added.
    pub open spec fn insert_token(self, secret: Seq<char>, permission: Permission, userid: int)
        -> Tables {
        Tables {
            tokens: self.tokens.push(
                TokenView {
                    id: self.next_token_id(),
                    token: secret,
                    permission,
                    userid,
                    retired: false,
                },
            ),
            ..self
        }
    }

    /// What creating a token that holds the given secret gives: the tables
    /// with the token added, or an internal error where a token holds the
    /// secret already, retired or not, or where the ids are used up.
    pub open spec fn create_token(self, secret: Seq<char>, permission: Permission, userid: int)
        -> Result<Tables, UserError> {
        if self.has_secret(secret) || self.tokens.len() >= i32::MAX {
            Err(UserError::Internal)
        } else {
            Ok(self.insert_token(secret, permission, userid))
        }
    }

    /// The tables after the token with the given id was retired. Nothing
    /// changes if there is no such token.
    pub open spec fn revoke_token(self, id: int) -> Tables {
        if 1 <= id <= self.tokens.len() {
            Tables {
                tokens: self.tokens.update(
                    id - 1,
                    TokenView { retired: true, ..self.tokens[id - 1] },
                ),
                ..self
            }
        } else {
            self
        }
    }

    /// The tables after a ban was written. Where the user is banned already,
    /// reason, date and message are replaced and the issuing token stays;
    /// otherwise the ban is added.
    pub open spec fn upsert_ban(self, ban: BanView) -> Tables {
        if self.has_ban(ban.id) {
            let i = self.ban_index(ban.id);
            Tables {
                bans: self.bans.update(
                    i,
                    BanView {
                        reason: ban.reason,
                        date: ban.date,
                        message: ban.message,
                        ..self.bans[i]
                    },
                ),
                ..self
            }
        } else {
            Tables { bans: self.bans.push(ban), ..self }
        }
    }

    /// What writing a ban gives: the tables after `upsert_ban`, a bad
    /// request where the ban has no reason, or an internal error where the
    /// ban is new and the list is full.
    pub open spec fn write_ban(self, ban: BanView) -> Result<Tables, UserError> {
        if ban.reason.len() == 0 {
            Err(UserError::BadRequest)
        } else if !self.has_ban(ban.id) && self.bans.len() >= i64::MAX {
            Err(UserError::Internal)
        } else {
            Ok(self.upsert_ban(ban))
        }
    }

    /// The tables after the ban of the user was removed. Nothing changes if
    /// the user is not banned.
    pub open spec fn delete_ban(self, id: int) -> Tables {
        if self.has_ban(id) {
            Tables { bans: self.bans.remove(self.ban_index(id)), ..self }
        } else {
            self
        }
    }

    /// The tables after the cooldown of the token was set.
    pub open spec fn set_cooldown(self, token: int, until: int) -> Tables {
        let row = CooldownRow { token, banlist_all: until };
        if self.has_cooldown(token) {
            Tables { antiflood: self.antiflood.update(self.cooldown_index(token), row), ..self }
        } else {
            Tables { antiflood: self.antiflood.push(row), ..self }
        }
    }

    /// What a guarded write of the token's cooldown gives: the cooldown is
    /// set, and the answer is `true`, only if the store still holds the end
    /// that the writer expects; otherwise nothing changes.
    pub open spec fn advance_cooldown(self, token: int, expected: int, until: int) -> (
        Tables,
        bool,
    ) {
        if self.cooldown(token) == expected {
            (self.set_cooldown(token, until), true)
        } else {
            (self, false)
        }
    }

    /// The tables after an operation. An operation that is refused changes
    /// nothing.
    pub open spec fn apply(self, operation: Operation) -> Tables {
        match operation {
            Operation::CreateToken { secret, permission, userid } => match self.create_token(
                secret,
                permission,
                userid,
            ) {
                Ok(next) => next,
                Err(_) => self,
            },
            Operation::RevokeToken { id } => self.revoke_token(id),
            Operation::WriteBan { ban } => match self.write_ban(ban) {
                Ok(next) => next,
                Err(_) => self,
            },
            Operation::DeleteBan { id } => self.delete_ban(id),
            Operation::SetCooldown { token, until } => self.set_cooldown(token, until as int),
            Operation::AdvanceCooldown { token, expected, until } => self.advance_cooldown(
                token,
                expected as int,
                until as int,
            ).0,
        }
    }

    /// Whether `later` keeps every token of `self` as it was but for
    /// retirement, which may be set and is never cleared.
    pub open spec fn keeps_tokens(self, later: Tables) -> bool {
        &&& self.tokens.len() <= later.tokens.len()
        &&& forall|i: int|
            0 <= i < self.tokens.len() ==> {
                &&& (#[trigger] later.tokens[i]).id == self.tokens[i].id
                &&& later.tokens[i].token == self.tokens[i].token
                &&& later.tokens[i].permission == self.tokens[i].permission
                &&& later.tokens[i].userid == self.tokens[i].userid
                &&& self.tokens[i].retired ==> later.tokens[i].retired
            }
    }

    /// In well-formed tables a token is found by its secret where it stands.
    pub proof fn lemma_token_at(self, i: int)
        requires
            self.wf(),
            0 <= i < self.tokens.len(),
        ensures
            self.has_secret(self.tokens[i].token),
            self.token_by_secret(self.tokens[i].token) == Some(self.tokens[i]),
            self.token_by_id(i + 1) == Some(self.tokens[i]),
    {
    }

    /// In well-formed tables a ban is found by its id where it stands.
    pub proof fn lemma_ban_at(self, i: int)
        requires
            self.wf(),
            0 <= i < self.bans.len(),
        ensures
            self.has_ban(self.bans[i].id),
            self.ban_index(self.bans[i].id) == i,
            self.ban(self.bans[i].id) == Some(self.bans[i]),
    {
    }

    /// In well-formed tables a cooldown is found by its token where it
    /// stands.
    pub proof fn lemma_cooldown_at(self, i: int)
        requires
            self.wf(),
            0 <= i < self.antiflood.len(),
        ensures
            self.has_cooldown(self.antiflood[i].token),
            self.cooldown_index(self.antiflood[i].token) == i,
            self.cooldown(self.antiflood[i].token) == self.antiflood[i].banlist_all,
    {
    }

    /// Creating a token keeps the tables well-formed. The new token has the
    /// next id, is not retired, and is found by its id and by its secret.
    pub proof fn lemma_created_token(
        self,
        secret: Seq<char>,
        permission: Permission,
        userid: int,
    )
        requires
            self.wf(),
            self.create_token(secret, permission, userid) is Ok,
        ensures
            ({
                let next = self.insert_token(secret, permission, userid);
                let token = TokenView {
                    id: self.next_token_id(),
                    token: secret,
                    permission,
                    userid,
                    retired: false,
                };
                &&& next.wf()
                &&& next.token_by_secret(secret) == Some(token)
                &&& next.token_by_id(self.next_token_id()) == Some(token)
            }),
    {
        let next = self.insert_token(secret, permission, userid);
        assert(next.wf()) by {
            assert forall|i: int, j: int| 0 <= i < j < next.tokens.len() implies (
            #[trigger] next.tokens[i]).token != (#[trigger] next.tokens[j]).token by {
                if j == self.tokens.len() {
                    assert(self.tokens[i].token != secret);
                }
            }
        }
        next.lemma_token_at(self.tokens.len() as int);
    }

    /// Revoking keeps the tables well-formed, retires the token and touches
    /// nothing else.
    pub proof fn lemma_revoke_token(self, id: int)
        requires
            self.wf(),
        ensures
            self.revoke_token(id).wf(),
            self.revoke_token(id).bans == self.bans,
            self.revoke_token(id).antiflood == self.antiflood,
            self.revoke_token(id).tokens.len() == self.tokens.len(),
            self.token_by_id(id) matches Some(token) ==> self.revoke_token(id).token_by_id(id)
                == Some(TokenView { retired: true, ..token }),
            forall|other: int|
                other != id ==> self.revoke_token(id).token_by_id(other) == self.token_by_id(
                    other,
                ),
    {
    }

    /// Revoking a token twice gives what revoking it once gives.
    pub proof fn lemma_revoke_is_idempotent(self, id: int)
        ensures
            self.revoke_token(id).revoke_token(id) == self.revoke_token(id),
    {
        let once = self.revoke_token(id);
        assert(once.revoke_token(id).tokens =~= once.tokens);
    }

    /// After a token was revoked its secret authenticates nobody.
    pub proof fn lemma_revoked_is_dead(self, id: int)
        requires
            self.wf(),
            self.token_by_id(id) is Some,
        ensures
            self.revoke_token(id).live_token(self.token_by_id(id)->0.token) is None,
    {
        let after = self.revoke_token(id);
        self.lemma_revoke_token(id);
        after.lemma_token_at(id - 1);
    }

    /// Writing a ban keeps the tables well-formed. Afterwards the user is
    /// banned, with the reason, date and message that were written; the
    /// issuing token is the one that was written only if the user was not
    /// banned before. No other ban changes, and the list grows by one ban
    /// if the user was not banned before and not at all otherwise.
    pub proof fn lemma_upsert_ban(self, ban: BanView)
        requires
            self.wf(),
            self.write_ban(ban) is Ok,
        ensures
            self.upsert_ban(ban).wf(),
            self.upsert_ban(ban).tokens == self.tokens,
            self.upsert_ban(ban).antiflood == self.antiflood,
            self.upsert_ban(ban).ban(ban.id) == Some(
                BanView {
                    admin: if self.has_ban(ban.id) {
                        self.ban(ban.id)->0.admin
                    } else {
                        ban.admin
                    },
                    ..ban
                },
            ),
            self.upsert_ban(ban).bans.len() == self.bans.len() + if self.has_ban(ban.id) {
                0int
            } else {
                1int
            },
            forall|other: int|
                other != ban.id ==> self.upsert_ban(ban).ban(other) == self.ban(other),
    {
        let next = self.upsert_ban(ban);
        if self.has_ban(ban.id) {
            let i = self.ban_index(ban.id);
            self.lemma_ban_at(i);
            assert(next.wf());
            next.lemma_ban_at(i);
        } else {
            let n = self.bans.len() as int;
            assert(next.wf()) by {
                assert forall|i: int, j: int| 0 <= i < j < next.bans.len() implies (
                #[trigger] next.bans[i]).id != (#[trigger] next.bans[j]).id by {
                    if j == n {
                        assert(self.bans[i].id != ban.id);
                    }
                }
            }
            next.lemma_ban_at(n);
        }
        assert forall|other: int| other != ban.id implies next.ban(other) == self.ban(other) by {
            if self.has_ban(other) {
                let j = self.ban_index(other);
                self.lemma_ban_at(j);
                next.lemma_ban_at(j);
            } else if next.has_ban(other) {
                let j = next.ban_index(other);
                assert(self.bans[j].id == other);
            }
        }
    }

    /// Writing two bans of one user, one after the other, leaves one ban of
    /// that user: the list is as long as after the first, and the ban holds
    /// the reason, date and message of the second.
    pub proof fn lemma_upsert_ban_twice(self, first: BanView, second: BanView)
        requires
            self.wf(),
            first.id == second.id,
            self.write_ban(first) is Ok,
            second.reason.len() > 0,
        ensures
            ({
                let once = self.upsert_ban(first);
                let twice = once.upsert_ban(second);
                &&& once.write_ban(second) == Ok::<Tables, UserError>(twice)
                &&& twice.wf()
                &&& twice.bans.len() == once.bans.len()
                &&& twice.ban(first.id) == Some(
                    BanView { admin: once.ban(first.id)->0.admin, ..second },
                )
                &&& forall|other: int|
                    other != first.id ==> twice.ban(other) == self.ban(other)
            }),
    {
        let once = self.upsert_ban(first);
        self.lemma_upsert_ban(first);
        once.lemma_upsert_ban(second);
    }

    /// Deleting a ban keeps the tables well-formed. Afterwards the user is
    /// not banned, and no other ban has changed.
    pub proof fn lemma_delete_ban(self, id: int)
        requires
            self.wf(),
        ensures
            self.delete_ban(id).wf(),
            self.delete_ban(id).tokens == self.tokens,
            self.delete_ban(id).antiflood == self.antiflood,
            self.delete_ban(id).ban(id) is None,
            !self.has_ban(id) ==> self.delete_ban(id) == self,
            forall|other: int| other != id ==> self.delete_ban(id).ban(other) == self.ban(other),
    {
        let next = self.delete_ban(id);
        if self.has_ban(id) {
            let at = self.ban_index(id);
            self.lemma_ban_at(at);
            assert(next.wf()) by {
                assert forall|i: int, j: int| 0 <= i < j < next.bans.len() implies (
                #[trigger] next.bans[i]).id != (#[trigger] next.bans[j]).id by {
                    let a = if i < at { i } else { i + 1 };
                    let b = if j < at { j } else { j + 1 };
                    assert(next.bans[i] == self.bans[a]);
                    assert(next.bans[j] == self.bans[b]);
                }
                assert forall|i: int| 0 <= i < next.bans.len() implies (
                #[trigger] next.bans[i]).reason.len() > 0 by {
                    let a = if i < at { i } else { i + 1 };
                    assert(next.bans[i] == self.bans[a]);
                }
            }
            assert(!next.has_ban(id)) by {
                if next.has_ban(id) {
                    let i = next.ban_index(id);
                    let a = if i < at { i } else { i + 1 };
                    assert(next.bans[i] == self.bans[a]);
                }
            }
            assert forall|other: int| other != id implies next.ban(other) == self.ban(
                other,
            ) by {
                if self.has_ban(other) {
                    let j = self.ban_index(other);
                    self.lemma_ban_at(j);
                    let k = if j < at { j } else { j - 1 };
                    assert(next.bans[k] == self.bans[j]);
                    next.lemma_ban_at(k);
                } else if next.has_ban(other) {
                    let k = next.ban_index(other);
                    let a = if k < at { k } else { k + 1 };
                    assert(next.bans[k] == self.bans[a]);
                }
            }
        }
    }

    /// Setting a cooldown keeps the tables well-formed. Afterwards the
    /// token has that cooldown, and no other cooldown has changed.
    pub proof fn lemma_set_cooldown(self, token: int, until: int)
        requires
            self.wf(),
            i64::MIN <= until <= i64::MAX,
        ensures
            self.set_cooldown(token, until).wf(),
            self.set_cooldown(token, until).tokens == self.tokens,
            self.set_cooldown(token, until).bans == self.bans,
            self.set_cooldown(token, until).cooldown(token) == until,
            forall|other: int|
                other != token ==> self.set_cooldown(token, until).cooldown(other)
                    == self.cooldown(other),
    {
        let next = self.set_cooldown(token, until);
        let at = if self.has_cooldown(token) {
            self.cooldown_index(token)
        } else {
            self.antiflood.len() as int
        };
        if self.has_cooldown(token) {
            self.lemma_cooldown_at(at);
        }
        assert(next.wf()) by {
            assert forall|i: int, j: int| 0 <= i < j < next.antiflood.len() implies (
            #[trigger] next.antiflood[i]).token != (#[trigger] next.antiflood[j]).token by {
                if !self.has_cooldown(token) {
                    if j == at {
                        assert(self.antiflood[i].token != token);
                    }
                } else {
                    assert(next.antiflood[i].token == self.antiflood[i].token);
                    assert(next.antiflood[j].token == self.antiflood[j].token);
                }
            }
        }
        next.lemma_cooldown_at(at);
        assert forall|other: int| other != token implies next.cooldown(other) == self.cooldown(
            other,
        ) by {
            if self.has_cooldown(other) {
                let j = self.cooldown_index(other);
                self.lemma_cooldown_at(j);
                next.lemma_cooldown_at(j);
            } else if next.has_cooldown(other) {
                let j = next.cooldown_index(other);
                assert(self.antiflood[j].token == other);
            }
        }
    }

    /// Every operation keeps the tables well-formed.
    pub proof fn lemma_apply_keeps_wf(self, operation: Operation)
        requires
            self.wf(),
        ensures
            self.apply(operation).wf(),
    {
        match operation {
            Operation::CreateToken { secret, permission, userid } => {
                if self.create_token(secret, permission, userid) is Ok {
                    self.lemma_created_token(secret, permission, userid);
                }
            },
            Operation::RevokeToken { id } => {
                self.lemma_revoke_token(id);
            },
            Operation::WriteBan { ban } => {
                if self.write_ban(ban) is Ok {
                    self.lemma_upsert_ban(ban);
                }
            },
            Operation::DeleteBan { id } => {
                self.lemma_delete_ban(id);
            },
            Operation::SetCooldown { token, until } => {
                self.lemma_set_cooldown(token, until as int);
            },
            Operation::AdvanceCooldown { token, expected, until } => {
                self.lemma_set_cooldown(token, until as int);
            },
        }
    }

    /// No operation removes a token, changes its id, secret, tier or owner,
    /// or brings a retired token back.
    pub proof fn lemma_apply_keeps_tokens(self, operation: Operation)
        ensures
            self.keeps_tokens(self.apply(operation)),
    {
    }

    /// A secret that is dead stays dead: once the token that holds it is
    /// retired, no operation makes the secret authenticate again.
    pub proof fn lemma_dead_stays_dead(self, operation: Operation, secret: Seq<char>)
        requires
            self.wf(),
            self.token_by_secret(secret) matches Some(token) && token.retired,
        ensures
            self.apply(operation).live_token(secret) is None,
    {
        let next = self.apply(operation);
        self.lemma_apply_keeps_wf(operation);
        self.lemma_apply_keeps_tokens(operation);
        let i = choose|i: int|
            0 <= i < self.tokens.len() && (#[trigger] self.tokens[i]).token == secret;
        self.lemma_token_at(i);
        assert(next.tokens[i].token == secret);
        next.lemma_token_at(i);
    }
}

} // verus!
