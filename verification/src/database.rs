//! The records of the service and the store that keeps them.

use vstd::prelude::*;
use crate::errors::UserError;
use crate::guards::Permission;
use crate::settings::General;
use crate::tables::{owned_by, CooldownRow, Tables};

verus! {

/// An API token: an opaque secret bound to a permission tier and an owner.
#[derive(Debug, PartialEq, Eq)]
pub struct Token {
    /// Assigned by the store, never changed afterwards.
    pub id: i32,
    /// The bearer secret.
    pub token: String,
    pub permission: Permission,
    /// The user the token belongs to.
    pub userid: i64,
    /// Set by revocation, never cleared.
    pub retired: bool,
}

/// What a `Token` holds, as mathematical values.
pub struct TokenView {
    pub id: int,
    pub token: Seq<char>,
    pub permission: Permission,
    pub userid: int,
    pub retired: bool,
}

impl View for Token {
    type V = TokenView;

    open spec fn view(&self) -> TokenView {
        TokenView {
            id: self.id as int,
            token: self.token@,
            permission: self.permission,
            userid: self.userid as int,
            retired: self.retired,
        }
    }
}

impl Clone for Token {
    fn clone(&self) -> (copy: Token)
        ensures
            copy@ == self@,
    {
        Token {
            id: self.id,
            token: self.token.clone(),
            permission: self.permission,
            userid: self.userid,
            retired: self.retired,
        }
    }
}

/// What the service tells of a token once it exists: everything but the
/// secret, which is shown when the token is created and never again.
#[derive(Debug, Clone, Copy, PartialEq, Eq)]
pub struct TokenInfo {
    pub id: i32,
    pub permission: Permission,
    pub userid: i64,
    pub retired: bool,
}

/// What a `TokenInfo` holds, as mathematical values.
pub struct TokenInfoView {
    pub id: int,
    pub permission: Permission,
    pub userid: int,
    pub retired: bool,
}

impl View for TokenInfo {
    type V = TokenInfoView;

    open spec fn view(&self) -> TokenInfoView {
        TokenInfoView {
            id: self.id as int,
            permission: self.permission,
            userid: self.userid as int,
            retired: self.retired,
        }
    }
}

impl TokenView {
    /// The token without its secret.
    pub open spec fn info(self) -> TokenInfoView {
        TokenInfoView {
            id: self.id,
            permission: self.permission,
            userid: self.userid,
            retired: self.retired,
        }
    }
}

/// The tokens without their secrets.
pub open spec fn token_infos(tokens: Seq<TokenView>) -> Seq<TokenInfoView> {
    tokens.map_values(|t: TokenView| t.info())
}

/// The views of a sequence of token descriptions.
pub open spec fn info_views(infos: Seq<TokenInfo>) -> Seq<TokenInfoView> {
    infos.map_values(|t: TokenInfo| t@)
}

impl Token {
    /// The token without its secret.
    pub fn info(&self) -> (info: TokenInfo)
        ensures
            info@ == self@.info(),
    {
        TokenInfo {
            id: self.id,
            permission: self.permission,
            userid: self.userid,
            retired: self.retired,
        }
    }
}

/// The tokens without their secrets, in the same order.
pub fn describe_tokens(tokens: &Vec<Token>) -> (infos: Vec<TokenInfo>)
    ensures
        info_views(infos@) == token_infos(token_views(tokens@)),
{
    let mut infos: Vec<TokenInfo> = Vec::new();
    let mut i: usize = 0;
    while i < tokens.len()
        invariant
            i <= tokens.len(),
            infos@.len() == i,
            forall|k: int| 0 <= k < i ==> (#[trigger] infos@[k])@ == tokens@[k]@.info(),
        decreases tokens.len() - i,
    {
        infos.push(tokens[i].info());
        i += 1;
    }
    assert(info_views(infos@) =~= token_infos(token_views(tokens@)));
    infos
}

/// A ban: a user identifier marked as banned.
#[derive(Debug, PartialEq, Eq)]
pub struct Ban {
    /// The banned user.
    pub id: i64,
    /// Why the user was banned; never empty.
    pub reason: String,
    /// When the ban was last written, in seconds since the Unix epoch.
    pub date: i64,
    /// The id of the token that first issued the ban.
    pub admin: i32,
    pub message: Option<String>,
}

/// What a `Ban` holds, as mathematical values.
pub struct BanView {
    pub id: int,
    pub reason: Seq<char>,
    pub date: int,
    pub admin: int,
    pub message: Option<Seq<char>>,
}

/// The view of an optional text.
pub open spec fn text_of(text: Option<String>) -> Option<Seq<char>> {
    match text {
        Some(t) => Some(t@),
        None => None,
    }
}

impl View for Ban {
    type V = BanView;

    open spec fn view(&self) -> BanView {
        BanView {
            id: self.id as int,
            reason: self.reason@,
            date: self.date as int,
            admin: self.admin as int,
            message: text_of(self.message),
        }
    }
}

/// Copies an optional text.
fn clone_text(text: &Option<String>) -> (copy: Option<String>)
    ensures
        text_of(copy) == text_of(*text),
{
    match text {
        Some(t) => Some(t.clone()),
        None => None,
    }
}

impl Clone for Ban {
    fn clone(&self) -> (copy: Ban)
        ensures
            copy@ == self@,
    {
        Ban {
            id: self.id,
            reason: self.reason.clone(),
            date: self.date,
            admin: self.admin,
            message: clone_text(&self.message),
        }
    }
}

/// The throttling state of one token.
#[derive(Debug, Clone, Copy, PartialEq, Eq, Structural)]
pub struct Antiflood {
    /// The moment before which the bulk listing of banned ids is refused,
    /// in seconds since the Unix epoch. Zero means "never throttled".
    pub banlist_all: i64,
}

impl Default for Antiflood {
    fn default() -> (state: Antiflood)
        ensures
            state.banlist_all == 0,
    {
        Antiflood { banlist_all: 0 }
    }
}

/// Whether the character is one of the 64 symbols that a generated secret is
/// made of: `_`, `~`, the digits and the unaccented letters.
pub open spec fn is_safe_symbol(c: char) -> bool {
    ||| c == '_'
    ||| c == '~'
    ||| '0' <= c <= '9'
    ||| 'a' <= c <= 'z'
    ||| 'A' <= c <= 'Z'
}

/// Whether the text has the given length and is made of safe symbols only.
pub open spec fn is_secret_of(text: Seq<char>, size: nat) -> bool {
    &&& text.len() == size
    &&& forall|i: int| 0 <= i < text.len() ==> is_safe_symbol(#[trigger] text[i])
}

/// `nanoid::generate`: a random identifier from the operating system's
/// random number generator.
///
/// Trusted: whatever is drawn, the identifier has `size` symbols, each from
/// nanoid's URL-safe alphabet. Nothing is claimed of which symbols come out.
/// The call panics where the operating system offers no random numbers.
#[verifier::external_body]
fn generate(size: usize) -> (id: String)
    ensures
        is_secret_of(id@, size as nat),
{
    nanoid::generate(size)
}

/// Draws a fresh random secret of `token_size` symbols.
pub fn new_secret(token_size: u8) -> (secret: String)
    ensures
        is_secret_of(secret@, token_size as nat),
{
    generate(token_size as usize)
}

/// The views of a sequence of tokens.
pub open spec fn token_views(tokens: Seq<Token>) -> Seq<TokenView> {
    tokens.map_values(|t: Token| t@)
}

/// The views of a sequence of bans.
pub open spec fn ban_views(bans: Seq<Ban>) -> Seq<BanView> {
    bans.map_values(|b: Ban| b@)
}

/// The ids as mathematical integers.
pub open spec fn id_values(ids: Seq<i64>) -> Seq<int> {
    ids.map_values(|id: i64| id as int)
}

/// One row of the antiflood table.
struct Cooldown {
    token: i32,
    banlist_all: i64,
}

impl View for Cooldown {
    type V = CooldownRow;

    closed spec fn view(&self) -> CooldownRow {
        CooldownRow { token: self.token as int, banlist_all: self.banlist_all as int }
    }
}

/// The views of a sequence of antiflood rows.
spec fn cooldown_rows(rows: Seq<Cooldown>) -> Seq<CooldownRow> {
    rows.map_values(|c: Cooldown| c@)
}

/// The store of the service: the token table, the ban list and the antiflood
/// table, held in memory. Its content is the `Tables` value that `view`
/// gives, which satisfies `Tables::wf` at all times.
pub struct Database {
    tokens: Vec<Token>,
    bans: Vec<Ban>,
    antiflood: Vec<Cooldown>,
}

impl View for Database {
    type V = Tables;

    closed spec fn view(&self) -> Tables {
        Tables {
            tokens: token_views(self.tokens@),
            bans: ban_views(self.bans@),
            antiflood: cooldown_rows(self.antiflood@),
        }
    }
}

impl Database {
    /// The store's content is well-formed, whatever was done to the store.
    #[verifier::type_invariant]
    pub open spec fn valid(&self) -> bool {
        self@.wf()
    }

    /// A store without tokens, bans or cooldowns.
    pub fn new() -> (db: Database)
        ensures
            db@ == Tables::empty(),
            db@.wf(),
    {
        let db = Database { tokens: Vec::new(), bans: Vec::new(), antiflood: Vec::new() };
        assert(db@.tokens =~= Seq::empty());
        assert(db@.bans =~= Seq::empty());
        assert(db@.antiflood =~= Seq::empty());
        db
    }

    /// Looks a token up by its id.
    pub fn get_token_by_id(&self, token_id: i32) -> (found: Option<Token>)
        ensures
            match found {
                Some(token) => self@.token_by_id(token_id as int) == Some(token@),
                None => self@.token_by_id(token_id as int) is None,
            },
    {
        if 1 <= token_id && token_id as usize <= self.tokens.len() {
            Some(self.tokens[(token_id - 1) as usize].clone())
        } else {
            None
        }
    }

    /// Where the token with the given secret stands in the table.
    fn find_secret(&self, secret: &String) -> (at: Option<usize>)
        ensures
            match at {
                Some(i) => i < self.tokens.len() && self@.tokens[i as int].token == secret@,
                None => !self@.has_secret(secret@),
            },
    {
        let mut i: usize = 0;
        while i < self.tokens.len()
            invariant
                i <= self.tokens.len(),
                forall|k: int| 0 <= k < i ==> (#[trigger] self@.tokens[k]).token != secret@,
            decreases self.tokens.len() - i,
        {
            if self.tokens[i].token == *secret {
                return Some(i);
            }
            i += 1;
        }
        None
    }

    /// Where the ban of the given user stands in the table.
    fn find_ban(&self, user_id: i64) -> (at: Option<usize>)
        ensures
            match at {
                Some(i) => i < self.bans.len() && self@.bans[i as int].id == user_id,
                None => !self@.has_ban(user_id as int),
            },
    {
        let mut i: usize = 0;
        while i < self.bans.len()
            invariant
                i <= self.bans.len(),
                forall|k: int| 0 <= k < i ==> (#[trigger] self@.bans[k]).id != user_id,
            decreases self.bans.len() - i,
        {
            if self.bans[i].id == user_id {
                return Some(i);
            }
            i += 1;
        }
        None
    }

    /// Where the cooldown of the given token stands in the table.
    fn find_cooldown(&self, token_id: i32) -> (at: Option<usize>)
        ensures
            match at {
                Some(i) => i < self.antiflood.len() && self@.antiflood[i as int].token
                    == token_id,
                None => !self@.has_cooldown(token_id as int),
            },
    {
        let mut i: usize = 0;
        while i < self.antiflood.len()
            invariant
                i <= self.antiflood.len(),
                forall|k: int| 0 <= k < i ==> (#[trigger] self@.antiflood[k]).token != token_id,
            decreases self.antiflood.len() - i,
        {
            if self.antiflood[i].token == token_id {
                return Some(i);
            }
            i += 1;
        }
        None
    }

    /// Looks a token up by its secret. This is the authentication path.
    pub fn get_token(&self, token: String) -> (found: Option<Token>)
        ensures
            match found {
                Some(t) => self@.token_by_secret(token@) == Some(t@),
                None => self@.token_by_secret(token@) is None,
            },
    {
        proof {
            use_type_invariant(self);
        }
        match self.find_secret(&token) {
            Some(i) => {
                proof {
                    self@.lemma_token_at(i as int);
                }
                Some(self.tokens[i].clone())
            },
            None => None,
        }
    }

    /// Adds a token that holds the given secret and is not retired, and
    /// returns the id that the store assigned to it. Fails, and changes
    /// nothing, where a token holds the secret already, retired or not, or
    /// where the ids are used up.
    pub fn insert_token(&mut self, secret: String, permission: Permission, userid: i64) -> (created:
        Result<i32, UserError>)
        ensures
            final(self)@.wf(),
            match old(self)@.create_token(secret@, permission, userid as int) {
                Ok(tables) => created == Ok::<i32, UserError>(
                    old(self)@.next_token_id() as i32,
                ) && final(self)@ == tables,
                Err(e) => created == Err::<i32, UserError>(e) && final(self)@ == old(self)@,
            },
    {
        proof {
            use_type_invariant(&*self);
        }
        if self.find_secret(&secret).is_some() {
            return Err(UserError::Internal);
        }
        if self.tokens.len() >= i32::MAX as usize {
            return Err(UserError::Internal);
        }
        let id = (self.tokens.len() + 1) as i32;
        let ghost before = self@;
        let token = Token { id, token: secret, permission, userid, retired: false };
        let mut tokens: Vec<Token> = Vec::new();
        core::mem::swap(&mut tokens, &mut self.tokens);
        tokens.push(token);
        assert(token_views(tokens@) =~= before.tokens.push(token@));
        self.tokens = tokens;
        Ok(id)
    }

    /// Retires the token with the given id. Retiring a token that is retired
    /// already, or an id that no token has, changes nothing.
    pub fn revoke_token_by_id(&mut self, token_id: i32)
        ensures
            final(self)@.wf(),
            final(self)@ == old(self)@.revoke_token(token_id as int),
    {
        proof {
            use_type_invariant(&*self);
        }
        if 1 <= token_id && token_id as usize <= self.tokens.len() {
            let index = (token_id - 1) as usize;
            let ghost before = self@;
            let mut tokens: Vec<Token> = Vec::new();
            core::mem::swap(&mut tokens, &mut self.tokens);
            let mut token = tokens[index].clone();
            token.retired = true;
            tokens.set(index, token);
            assert(token_views(tokens@) =~= before.tokens.update(
                index as int,
                TokenView { retired: true, ..before.tokens[index as int] },
            ));
            self.tokens = tokens;
        }
    }

    /// All tokens, in the order of their ids.
    pub fn get_tokens(&self) -> (all: Vec<Token>)
        ensures
            token_views(all@) == self@.tokens,
    {
        let mut all: Vec<Token> = Vec::new();
        let mut i: usize = 0;
        while i < self.tokens.len()
            invariant
                i <= self.tokens.len(),
                all@.len() == i,
                forall|k: int| 0 <= k < i ==> (#[trigger] all@[k])@ == self@.tokens[k],
            decreases self.tokens.len() - i,
        {
            all.push(self.tokens[i].clone());
            i += 1;
        }
        assert(token_views(all@) =~= self@.tokens);
        all
    }

    /// The tokens of one owner, in the order of their ids.
    pub fn get_token_by_userid(&self, userid: i64) -> (found: Vec<Token>)
        ensures
            token_views(found@) == self@.tokens_of(userid as int),
    {
        let mut found: Vec<Token> = Vec::new();
        let mut i: usize = 0;
        assert(self@.tokens.take(0).filter(owned_by(userid as int)) =~= Seq::empty()) by {
            self@.tokens.take(0).lemma_filter_len(owned_by(userid as int));
        }
        while i < self.tokens.len()
            invariant
                i <= self.tokens.len(),
                token_views(found@) =~= self@.tokens.take(i as int).filter(
                    owned_by(userid as int),
                ),
            decreases self.tokens.len() - i,
        {
            proof {
                self@.tokens.lemma_take_succ_push(i as int);
                self@.tokens.take(i as int).lemma_filter_push(
                    self@.tokens[i as int],
                    owned_by(userid as int),
                );
            }
            if self.tokens[i].userid == userid {
                found.push(self.tokens[i].clone());
            }
            i += 1;
        }
        assert(self@.tokens.take(i as int) =~= self@.tokens);
        found
    }

    /// Creates a token for the given owner with a fresh random secret of
    /// `token_size` symbols, and returns the secret. This is the only time
    /// the secret is handed out. Fails, and changes nothing, where the
    /// secret that was drawn is held by a token already or the ids are used
    /// up.
    pub fn create_token(&mut self, permission: &Permission, userid: i64, token_size: u8) -> (created:
        Result<String, UserError>)
        ensures
            final(self)@.wf(),
            match created {
                Ok(secret) => {
                    &&& is_secret_of(secret@, token_size as nat)
                    &&& old(self)@.create_token(secret@, *permission, userid as int) == Ok::<
                        Tables,
                        UserError,
                    >(final(self)@)
                },
                Err(e) => {
                    &&& e == UserError::Internal
                    &&& final(self)@ == old(self)@
                    &&& exists|drawn: Seq<char>|
                        is_secret_of(drawn, token_size as nat) && #[trigger] old(
                            self,
                        )@.create_token(drawn, *permission, userid as int) is Err
                },
            },
    {
        let secret = new_secret(token_size);
        match self.insert_token(secret.clone(), *permission, userid) {
            Ok(_) => Ok(secret),
            Err(e) => Err(e),
        }
    }

    /// Creates the first token where the store has none with id 1: a `Root`
    /// token that belongs to `masterid`. Its secret is returned, to be shown
    /// once. A store that has a token with id 1 is left as it is.
    pub fn create_genesis_token(&mut self, masterid: i64, token_size: u8) -> (genesis: Result<
        Option<String>,
        UserError,
    >)
        ensures
            final(self)@.wf(),
            old(self)@.token_by_id(1) is Some ==> genesis == Ok::<Option<String>, UserError>(None)
                && final(self)@ == old(self)@,
            old(self)@.token_by_id(1) is None ==> {
                &&& genesis matches Ok(Some(secret))
                &&& is_secret_of(secret@, token_size as nat)
                &&& final(self)@ == old(self)@.insert_token(
                    secret@,
                    Permission::Root,
                    masterid as int,
                )
                &&& final(self)@.token_by_id(1) == Some(
                    TokenView {
                        id: 1,
                        token: secret@,
                        permission: Permission::Root,
                        userid: masterid as int,
                        retired: false,
                    },
                )
            },
    {
        proof {
            use_type_invariant(&*self);
        }
        if !needs_genesis(&self.get_token_by_id(1)) {
            return Ok(None);
        }
        assert(self@.tokens =~= Seq::empty());
        match self.create_token(&Permission::Root, masterid, token_size) {
            Ok(secret) => Ok(Some(secret)),
            Err(e) => Err(e),
        }
    }

    /// All bans, in table order.
    pub fn get_bans(&self) -> (all: Vec<Ban>)
        ensures
            ban_views(all@) == self@.bans,
    {
        let mut all: Vec<Ban> = Vec::new();
        let mut i: usize = 0;
        while i < self.bans.len()
            invariant
                i <= self.bans.len(),
                all@.len() == i,
                forall|k: int| 0 <= k < i ==> (#[trigger] all@[k])@ == self@.bans[k],
            decreases self.bans.len() - i,
        {
            all.push(self.bans[i].clone());
            i += 1;
        }
        assert(ban_views(all@) =~= self@.bans);
        all
    }

    /// The ids of all banned users, in table order.
    pub fn get_banned_ids(&self) -> (ids: Vec<i64>)
        ensures
            id_values(ids@) == self@.ban_ids(),
    {
        let mut ids: Vec<i64> = Vec::new();
        let mut i: usize = 0;
        while i < self.bans.len()
            invariant
                i <= self.bans.len(),
                ids@.len() == i,
                forall|k: int| 0 <= k < i ==> ids@[k] == (#[trigger] self@.bans[k]).id,
            decreases self.bans.len() - i,
        {
            ids.push(self.bans[i].id);
            i += 1;
        }
        assert(id_values(ids@) =~= self@.ban_ids());
        ids
    }

    /// How many users are banned.
    pub fn get_total_ban_count(&self) -> (count: i64)
        ensures
            count == self@.bans.len(),
    {
        proof {
            use_type_invariant(self);
        }
        self.bans.len() as i64
    }

    /// Bans a user, or writes the ban anew where the user is banned already:
    /// then reason, date and message are replaced and the issuing token stays
    /// as it was. A ban without a reason is refused as a bad request, and a
    /// ban list that is full gives an internal error; neither changes
    /// anything.
    pub fn add_ban(
        &mut self,
        user_id: i64,
        reason: &String,
        admin_token: i32,
        message: &Option<String>,
        date: i64,
    ) -> (written: Result<(), UserError>)
        ensures
            final(self)@.wf(),
            match old(self)@.write_ban(
                BanView {
                    id: user_id as int,
                    reason: reason@,
                    date: date as int,
                    admin: admin_token as int,
                    message: text_of(*message),
                },
            ) {
                Ok(tables) => written is Ok && final(self)@ == tables,
                Err(e) => written == Err::<(), UserError>(e) && final(self)@ == old(self)@,
            },
    {
        proof {
            use_type_invariant(&*self);
        }
        if reason.as_str().is_empty() {
            return Err(UserError::BadRequest);
        }
        let ghost before = self@;
        match self.find_ban(user_id) {
            Some(i) => {
                proof {
                    before.lemma_ban_at(i as int);
                }
                let mut bans: Vec<Ban> = Vec::new();
                core::mem::swap(&mut bans, &mut self.bans);
                let ban = Ban {
                    id: user_id,
                    reason: reason.clone(),
                    date,
                    admin: bans[i].admin,
                    message: clone_text(message),
                };
                bans.set(i, ban);
                assert(ban_views(bans@) =~= before.bans.update(
                    i as int,
                    BanView {
                        reason: reason@,
                        date: date as int,
                        message: text_of(*message),
                        ..before.bans[i as int]
                    },
                ));
                self.bans = bans;
                Ok(())
            },
            None => {
                if self.bans.len() as u64 >= i64::MAX as u64 {
                    return Err(UserError::Internal);
                }
                let ban = Ban {
                    id: user_id,
                    reason: reason.clone(),
                    date,
                    admin: admin_token,
                    message: clone_text(message),
                };
                let mut bans: Vec<Ban> = Vec::new();
                core::mem::swap(&mut bans, &mut self.bans);
                bans.push(ban);
                assert(ban_views(bans@) =~= before.bans.push(ban@));
                self.bans = bans;
                Ok(())
            },
        }
    }

    /// Looks the ban of a user up.
    pub fn get_ban(&self, user_id: i64) -> (found: Option<Ban>)
        ensures
            match found {
                Some(ban) => self@.ban(user_id as int) == Some(ban@),
                None => self@.ban(user_id as int) is None,
            },
    {
        proof {
            use_type_invariant(self);
        }
        match self.find_ban(user_id) {
            Some(i) => {
                proof {
                    self@.lemma_ban_at(i as int);
                }
                Some(self.bans[i].clone())
            },
            None => None,
        }
    }

    /// Removes the ban of a user. Nothing changes if the user is not banned.
    pub fn delete_ban(&mut self, user_id: i64)
        ensures
            final(self)@.wf(),
            final(self)@ == old(self)@.delete_ban(user_id as int),
    {
        proof {
            use_type_invariant(&*self);
        }
        let ghost before = self@;
        match self.find_ban(user_id) {
            Some(i) => {
                proof {
                    before.lemma_ban_at(i as int);
                }
                let mut bans: Vec<Ban> = Vec::new();
                core::mem::swap(&mut bans, &mut self.bans);
                let _ = bans.remove(i);
                assert(ban_views(bans@) =~= before.bans.remove(i as int));
                self.bans = bans;
            },
            None => {},
        }
    }

    /// The throttling state of a token: what was last set for it, or the
    /// default where nothing was.
    pub fn get_antiflood(&self, token_id: i32) -> (state: Antiflood)
        ensures
            state.banlist_all == self@.cooldown(token_id as int),
    {
        proof {
            use_type_invariant(self);
        }
        match self.find_cooldown(token_id) {
            Some(i) => {
                proof {
                    self@.lemma_cooldown_at(i as int);
                }
                Antiflood { banlist_all: self.antiflood[i].banlist_all }
            },
            None => Antiflood::default(),
        }
    }

    /// Sets the end of a token's cooldown for the bulk listing of banned ids.
    pub fn set_antiflood_banlist_all(&mut self, token_id: i32, time: i64)
        ensures
            final(self)@.wf(),
            final(self)@ == old(self)@.set_cooldown(token_id as int, time as int),
    {
        proof {
            use_type_invariant(&*self);
        }
        let ghost before = self@;
        let row = Cooldown { token: token_id, banlist_all: time };
        let found = self.find_cooldown(token_id);
        let mut rows: Vec<Cooldown> = Vec::new();
        core::mem::swap(&mut rows, &mut self.antiflood);
        match found {
            Some(i) => {
                proof {
                    before.lemma_cooldown_at(i as int);
                }
                rows.set(i, row);
                assert(cooldown_rows(rows@) =~= before.antiflood.update(i as int, row@));
            },
            None => {
                rows.push(row);
                assert(cooldown_rows(rows@) =~= before.antiflood.push(row@));
            },
        }
        self.antiflood = rows;
    }

    /// Sets the end of a token's cooldown if it still is what the caller
    /// last saw of it, and tells whether it did. This is the write that two
    /// requests of one token cannot both win.
    pub fn advance_antiflood_banlist_all(&mut self, token_id: i32, expected: i64, time: i64) -> (advanced:
        bool)
        ensures
            final(self)@.wf(),
            (final(self)@, advanced) == old(self)@.advance_cooldown(
                token_id as int,
                expected as int,
                time as int,
            ),
    {
        proof {
            use_type_invariant(&*self);
        }
        if self.get_antiflood(token_id).banlist_all == expected {
            self.set_antiflood_banlist_all(token_id, time);
            true
        } else {
            false
        }
    }
}

/// What preparing the store at the start of the service gave.
#[derive(Debug, PartialEq, Eq)]
pub struct Setup {
    /// The exit code that the process is to end with if it is not zero.
    pub exit_code: i32,
    /// The secret of the first token, if it was created just now. It is to
    /// be shown once, for it cannot be had again.
    pub genesis: Option<String>,
}

impl Setup {
    /// The outcome where the store could not be reached: the process is to
    /// end with the exit code 1.
    pub fn without_store() -> (setup: Setup)
        ensures
            setup.exit_code == 1,
            setup.genesis is None,
    {
        Setup { exit_code: 1, genesis: None }
    }

    /// The outcome where the store is ready: the exit code is 0, and the
    /// secret of the first token is handed on if it was created just now.
    pub fn ready(genesis: Option<String>) -> (setup: Setup)
        ensures
            setup.exit_code == 0,
            setup.genesis == genesis,
    {
        Setup { exit_code: 0, genesis }
    }
}

/// Whether the first token is still to be created, given what a lookup of
/// the token with id 1 found: it is, exactly where there is none, retired or
/// not.
pub fn needs_genesis(first: &Option<Token>) -> (needed: bool)
    ensures
        needed == (*first is None),
{
    first.is_none()
}

/// Prepares the store when the service starts. Without a store, which
/// stands for a connection that failed, the exit code is 1. With one, the
/// first token is created if the store has none with id 1, and the exit code
/// is 0.
pub fn setup_database(connection: Option<&mut Database>, general: &General) -> (setup: Result<
    Setup,
    UserError,
>)
    ensures
        match connection {
            None => setup matches Ok(s) && s.exit_code == 1 && s.genesis is None,
            Some(db) => {
                &&& setup matches Ok(s)
                &&& s.exit_code == 0
                &&& if db@.token_by_id(1) is Some {
                    s.genesis is None && final(db)@ == db@
                } else {
                    &&& s.genesis matches Some(secret)
                    &&& is_secret_of(secret@, general.token_size as nat)
                    &&& final(db)@ == db@.insert_token(
                        secret@,
                        Permission::Root,
                        general.masterid as int,
                    )
                }
            },
        },
{
    match connection {
        None => Ok(Setup::without_store()),
        Some(db) => {
            let genesis = db.create_genesis_token(general.masterid, general.token_size)?;
            Ok(Setup::ready(genesis))
        },
    }
}

} // verus!
