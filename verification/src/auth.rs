//! Credential store: password checks against PHC hashes, session tokens with
//! a time to live, and the users file.
//!
//! The users live in a `DashMap`, passwords are checked by `argon2`, tokens
//! come from the operating system's random source and time from a monotonic
//! clock. What this module takes on trust about them is stated on the items
//! of the section "Outside code" below; everything else is proved.

pub mod user;

use crate::auth::user::{parse_record, User, UserView, RECORD_SEPARATOR};
use argon2::password_hash::rand_core::{OsRng, RngCore};
use argon2::{Argon2, PasswordHash, PasswordVerifier};
use dashmap::DashMap;
use std::time::{Duration, Instant};
use vstd::prelude::*;
use vstd::string::*;

verus! {

/// An opaque session token.
pub type SessionToken = [u8; 16];

/// Seconds for which a session token is valid unless configured otherwise.
pub const DEFAULT_SESSION_TTL: u64 = 3600;

/// Why a credential or a users-file record was refused.
#[derive(Clone, Copy, Debug, PartialEq, Eq, Structural)]
pub enum AuthError {
    /// No user of that name is known.
    UnknownUser,
    /// The stored password hash is not a PHC string, or its parallelism
    /// parameter is longer than Argon2 allows.
    MalformedHash,
    /// The password does not match the stored hash.
    BadCredentials,
    /// A users-file line is not of the form `username:phc_hash`.
    MalformedRecord,
    /// The operating system gave no random bytes for a token.
    EntropyUnavailable,
}

/// Authentication state of one client session.
#[derive(Clone, Debug, PartialEq)]
pub enum AuthState {
    Unauthenticated,
    Authenticated(String),
}

/// What a client sends to authenticate.
#[derive(Debug)]
pub enum AuthClientMessage {
    /// Username and password.
    Authentication(String, String),
    /// A token from an earlier authentication.
    SessionToken(SessionToken),
}

/// What the server answers.
pub enum AuthServerMessage {
    /// Client address and netmask, four bytes each in network order, and the
    /// session token.
    Authenticated(Vec<u8>, Vec<u8>, SessionToken),
    /// The session token was accepted.
    Okay,
    /// The credentials or the token were refused, or no address was free.
    Failed,
}

/// Mathematical value of an `AuthServerMessage`.
pub enum ReplyView {
    Authenticated(Seq<u8>, Seq<u8>, Seq<u8>),
    Okay,
    Failed,
}

impl View for AuthServerMessage {
    type V = ReplyView;

    open spec fn view(&self) -> ReplyView {
        match self {
            AuthServerMessage::Authenticated(address, netmask, token) => ReplyView::Authenticated(
                address@,
                netmask@,
                token@,
            ),
            AuthServerMessage::Okay => ReplyView::Okay,
            AuthServerMessage::Failed => ReplyView::Failed,
        }
    }
}

// ---------------------------------------------------------------------------
// Outside code
// ---------------------------------------------------------------------------

/// `dashmap::DashMap`, opaque to the verifier.
#[verifier::external_type_specification]
#[verifier::external_body]
#[verifier::reject_recursive_types(K)]
#[verifier::reject_recursive_types(V)]
#[verifier::reject_recursive_types(S)]
pub struct ExDashMap<K, V, S>(DashMap<K, V, S>);

/// `std::time::Instant`, opaque to the verifier.
#[verifier::external_type_specification]
#[verifier::external_body]
pub struct ExInstant(Instant);

/// The entries of a users map: each key with the value stored under it.
pub uninterp spec fn user_table(users: DashMap<String, User>) -> Map<Seq<char>, UserView>;

/// What `PasswordHash::new` reads from `hash`: nothing if it refuses the
/// string, else the parameters of the PHC string, each a name and a value,
/// in the order in which the string holds them. A name may occur twice.
pub uninterp spec fn phc_parameters(hash: Seq<char>) -> Option<Seq<(Seq<char>, Seq<char>)>>;

/// Whether Argon2, with the parameters and salt that the PHC string `hash`
/// carries, maps `password` to the output that `hash` carries.
pub uninterp spec fn password_matches(password: Seq<char>, hash: Seq<char>) -> bool;

/// The users table without entries.
pub open spec fn no_users() -> Map<Seq<char>, UserView> {
    Map::empty()
}

/// `DashMap::new`: a map without entries.
#[verifier::external_body]
fn users_new() -> (users: DashMap<String, User>)
    ensures
        user_table(users) == no_users(),
{
    DashMap::new()
}

/// `DashMap::insert`: afterwards `key` maps to `user`, whatever it mapped to
/// before, and no other entry has changed.
#[verifier::external_body]
fn users_insert(users: &mut DashMap<String, User>, key: String, user: User)
    ensures
        user_table(*final(users)) == user_table(*old(users)).insert(key@, user@),
{
    users.insert(key, user);
}

/// `DashMap::get`: a copy of the value stored under `name`, if there is one.
/// The copy is made by `User::duplicate`, which is proved to keep the value.
#[verifier::external_body]
fn users_get(users: &DashMap<String, User>, name: &str) -> (found: Option<User>)
    ensures
        match found {
            Some(user) => user_table(*users).contains_key(name@) && user@ == user_table(
                *users,
            )[name@],
            None => !user_table(*users).contains_key(name@),
        },
{
    users.get(name).map(|entry| entry.value().duplicate())
}

/// `DashMap::iter`: every key once, in the order in which the map happens to
/// be walked.
#[verifier::external_body]
fn users_names(users: &DashMap<String, User>) -> (names: Vec<String>)
    ensures
        names.deep_view().no_duplicates(),
        names.deep_view().to_set() == user_table(*users).dom(),
{
    users.iter().map(|entry| entry.key().clone()).collect()
}

/// `PasswordHash::new`: whether `hash` parses as a PHC string, and if so the
/// parameters that the parsed value holds, as its field `params` hands them
/// out one by one.
#[verifier::external_body]
fn phc_parse(hash: &str) -> (parameters: Option<Vec<(String, String)>>)
    ensures
        match parameters {
            Some(list) => phc_parameters(hash@) == Some(list.deep_view()),
            None => phc_parameters(hash@) is None,
        },
{
    match PasswordHash::new(hash) {
        Ok(parsed) => Some(
            parsed.params.iter().map(
                |(name, value)| (name.as_str().to_owned(), value.as_str().to_owned()),
            ).collect(),
        ),
        Err(_) => None,
    }
}

/// `PasswordVerifier::verify_password` of `Argon2::default()`, which holds no
/// secret: whether `password` matches the parsed `hash`. The call computes
/// with the cost parameters that `hash` carries and allocates the memory they
/// ask for. It multiplies the parallelism `p` by eight in 32 bits before it
/// tests its range, which overflows for a `p` of nine digits or more: such a
/// hash is left out here.
#[verifier::external_body]
fn argon2_verify(password: &str, hash: &str) -> (matches: bool)
    requires
        hash_usable(hash@),
    ensures
        matches == password_matches(password@, hash@),
{
    match PasswordHash::new(hash) {
        Ok(parsed) => Argon2::default().verify_password(password.as_bytes(), &parsed).is_ok(),
        Err(_) => false,
    }
}

/// `OsRng::try_fill_bytes`: sixteen bytes from the operating system's random
/// source, or nothing if it fails. Nothing is known of the bytes.
#[verifier::external_body]
fn fresh_token() -> (token: Option<SessionToken>) {
    let mut token: SessionToken = [0u8; 16];
    match OsRng.try_fill_bytes(&mut token) {
        Ok(()) => Some(token),
        Err(_) => None,
    }
}

/// `Instant::now`: the current reading of the monotonic clock.
#[verifier::external_body]
fn clock_start() -> (epoch: Instant) {
    Instant::now()
}

/// `Instant::elapsed`: the time since `epoch` was read. Nothing is known of
/// it.
#[verifier::external_body]
fn clock_elapsed(epoch: &Instant) -> (elapsed: Duration) {
    epoch.elapsed()
}

/// `Duration::as_secs`: the whole seconds of `elapsed`.
#[verifier::external_body]
fn whole_seconds(elapsed: &Duration) -> (seconds: u64) {
    elapsed.as_secs()
}

// ---------------------------------------------------------------------------
// Model
// ---------------------------------------------------------------------------

/// The most characters that the value of the parallelism parameter `p` of a
/// stored hash may have. Argon2 allows a parallelism of up to eight digits.
pub const MAX_PARALLELISM_DIGITS: usize = 8;

/// No parameter named `p` has a value of more than
/// `MAX_PARALLELISM_DIGITS` characters.
pub open spec fn parallelism_fits(parameters: Seq<(Seq<char>, Seq<char>)>) -> bool {
    forall|i: int|
        0 <= i < parameters.len() && (#[trigger] parameters[i]).0 == seq!['p']
            ==> parameters[i].1.len() <= MAX_PARALLELISM_DIGITS
}

/// `hash` can be stored for a user: it is a PHC string whose parallelism
/// fits. Any other stored hash is a malformed one.
pub open spec fn hash_usable(hash: Seq<char>) -> bool {
    match phc_parameters(hash) {
        Some(parameters) => parallelism_fits(parameters),
        None => false,
    }
}

/// What a credential check answers, given what is known of the user: the
/// checks are made in the order of the parameters.
pub open spec fn verdict(known: bool, well_formed: bool, matches: bool) -> Option<AuthError> {
    if !known {
        Some(AuthError::UnknownUser)
    } else if !well_formed {
        Some(AuthError::MalformedHash)
    } else if !matches {
        Some(AuthError::BadCredentials)
    } else {
        None
    }
}

/// Why `password` is refused against a stored hash, if it is; no stored hash
/// means that the user is unknown.
pub open spec fn password_verdict(stored: Option<String>, password: Seq<char>) -> Option<AuthError> {
    match stored {
        None => verdict(false, false, false),
        Some(hash) => verdict(true, hash_usable(hash@), password_matches(password, hash@)),
    }
}

/// How an authentication ends, given the answer of the credential check and
/// the token that was drawn.
pub open spec fn grant_outcome(
    known: bool,
    checked: Result<(), AuthError>,
    token: Option<SessionToken>,
) -> Result<SessionToken, AuthError> {
    match checked {
        Err(refusal) => Err(refusal),
        Ok(()) => match token {
            None => Err(AuthError::EntropyUnavailable),
            Some(granted) => if known {
                Ok(granted)
            } else {
                Err(AuthError::UnknownUser)
            },
        },
    }
}

/// The users that a sequence of users-file lines defines, or the error of the
/// first line that is refused. A later record of a name replaces an earlier
/// one. A record whose hash cannot be stored for a user is refused.
pub open spec fn load_records(lines: Seq<Seq<char>>) -> Result<Map<Seq<char>, UserView>, AuthError>
    decreases lines.len(),
{
    if lines.len() == 0 {
        Ok(Map::empty())
    } else {
        match load_records(lines.drop_last()) {
            Err(e) => Err(e),
            Ok(users) => match parse_record(lines.last()) {
                None => Err(AuthError::MalformedRecord),
                Some(user) => if hash_usable(user.password_hash) {
                    Ok(users.insert(user.username, user))
                } else {
                    Err(AuthError::MalformedHash)
                },
            },
        }
    }
}

/// The users-file line of the entry `name` of `users`, with its line end.
pub open spec fn record_line(users: Map<Seq<char>, UserView>, name: Seq<char>) -> Seq<char> {
    name + seq![RECORD_SEPARATOR] + users[name].password_hash + seq!['\n']
}

/// The users-file lines of the entries `names` of `users`, in that order.
pub open spec fn render(users: Map<Seq<char>, UserView>, names: Seq<Seq<char>>) -> Seq<Seq<char>> {
    Seq::new(names.len(), |i: int| record_line(users, names[i]))
}

/// `lines` holds the record of every entry of `users` once, in some order.
pub open spec fn lists(lines: Seq<Seq<char>>, users: Map<Seq<char>, UserView>) -> bool {
    exists|names: Seq<Seq<char>>|
        names.no_duplicates() && names.to_set() == users.dom() && lines == #[trigger] render(
            users,
            names,
        )
}

/// Once a line is refused, the lines after it do not matter.
pub proof fn lemma_load_stops_at_first_error(lines: Seq<Seq<char>>, upto: int)
    requires
        0 <= upto <= lines.len(),
        load_records(lines.take(upto)) is Err,
    ensures
        load_records(lines) == load_records(lines.take(upto)),
    decreases lines.len() - upto,
{
    if upto < lines.len() {
        assert(lines.take(upto + 1).drop_last() == lines.take(upto));
        lemma_load_stops_at_first_error(lines, upto + 1);
    } else {
        assert(lines.take(upto) == lines);
    }
}

/// Mathematical state of the credential store.
pub struct AuthView {
    pub users: Map<Seq<char>, UserView>,
    pub session_ttl: u64,
}

impl AuthView {
    /// A user of that name exists.
    pub open spec fn knows(self, name: Seq<char>) -> bool {
        self.users.contains_key(name)
    }

    /// Why `password` is refused for `name`, if it is.
    pub open spec fn credential_error(self, name: Seq<char>, password: Seq<char>) -> Option<
        AuthError,
    > {
        verdict(
            self.knows(name),
            hash_usable(self.users[name].password_hash),
            password_matches(password, self.users[name].password_hash),
        )
    }

    /// The user `name` exists and holds `token` in a session live at `now`.
    pub open spec fn session_valid(self, name: Seq<char>, token: Seq<u8>, now: u64) -> bool {
        self.knows(name) && self.users[name].holds(token, now, self.session_ttl)
    }

    /// The store after a session for `token` was opened for `name` at `now`.
    pub open spec fn with_session(self, name: Seq<char>, token: SessionToken, now: u64) -> AuthView {
        AuthView {
            users: self.users.insert(
                name,
                self.users[name].with_session(token, now, self.session_ttl),
            ),
            ..self
        }
    }

    /// The store with every session closed.
    pub open spec fn reset(self) -> AuthView {
        AuthView {
            users: Map::new(
                |name: Seq<char>| self.users.contains_key(name),
                |name: Seq<char>| self.users[name].without_sessions(),
            ),
            ..self
        }
    }
}

/// The credential store of one tunnel.
pub struct Auth {
    users: DashMap<String, User>,
    session_ttl: u64,
    epoch: Instant,
}

impl View for Auth {
    type V = AuthView;

    closed spec fn view(&self) -> AuthView {
        AuthView { users: user_table(self.users), session_ttl: self.session_ttl }
    }
}

/// Turns what is known of a user into the answer of a credential check.
pub fn credential_verdict(known: bool, well_formed: bool, matches: bool) -> (res: Result<
    (),
    AuthError,
>)
    ensures
        match res {
            Ok(()) => verdict(known, well_formed, matches) is None,
            Err(e) => verdict(known, well_formed, matches) == Some(e),
        },
{
    if !known {
        Err(AuthError::UnknownUser)
    } else if !well_formed {
        Err(AuthError::MalformedHash)
    } else if !matches {
        Err(AuthError::BadCredentials)
    } else {
        Ok(())
    }
}

/// Tells whether no parameter named `p` has a value of more than
/// `MAX_PARALLELISM_DIGITS` characters.
pub fn parallelism_in_range(parameters: &Vec<(String, String)>) -> (fits: bool)
    ensures
        fits == parallelism_fits(parameters.deep_view()),
{
    let parallelism = "p".to_owned();
    proof {
        reveal_strlit("p");
    }
    assert(parallelism@ =~= seq!['p']);
    let ghost list = parameters.deep_view();
    let mut i: usize = 0;
    while i < parameters.len()
        invariant
            i <= parameters.len(),
            list == parameters.deep_view(),
            parallelism@ == seq!['p'],
            forall|j: int|
                0 <= j < i && (#[trigger] list[j]).0 == seq!['p'] ==> list[j].1.len()
                    <= MAX_PARALLELISM_DIGITS,
        decreases parameters.len() - i,
    {
        let parameter = &parameters[i];
        assert(list[i as int] == (parameter.0@, parameter.1@));
        if parameter.0 == parallelism && parameter.1.as_str().unicode_len()
            > MAX_PARALLELISM_DIGITS {
            return false;
        }
        i = i + 1;
    }
    true
}

/// Tells whether `hash` can be stored for a user: whether it is a PHC string
/// whose parallelism fits.
pub fn hash_is_usable(hash: &str) -> (usable: bool)
    ensures
        usable == hash_usable(hash@),
{
    match phc_parse(hash) {
        Some(parameters) => parallelism_in_range(&parameters),
        None => false,
    }
}

/// Checks `password` against a stored hash, where `stored` is what
/// `Auth::stored_hash` gave for the user. This is the costly part of a
/// credential check and needs no access to the store.
pub fn check_password(stored: &Option<String>, password: &str) -> (res: Result<(), AuthError>)
    ensures
        match res {
            Ok(()) => password_verdict(*stored, password@) is None,
            Err(e) => password_verdict(*stored, password@) == Some(e),
        },
{
    match stored {
        None => credential_verdict(false, false, false),
        Some(hash) => {
            if hash_is_usable(hash.as_str()) {
                credential_verdict(true, true, argon2_verify(password, hash.as_str()))
            } else {
                credential_verdict(true, false, false)
            }
        },
    }
}

impl Auth {
    /// A store over `users` whose tokens live for `DEFAULT_SESSION_TTL`
    /// seconds.
    pub fn new(users: DashMap<String, User>) -> (auth: Auth)
        ensures
            auth@ == (AuthView { users: user_table(users), session_ttl: DEFAULT_SESSION_TTL }),
    {
        Auth { users, session_ttl: DEFAULT_SESSION_TTL, epoch: clock_start() }
    }

    /// A store over `users` whose tokens live for `session_ttl` seconds.
    pub fn with_session_ttl(users: DashMap<String, User>, session_ttl: u64) -> (auth: Auth)
        ensures
            auth@ == (AuthView { users: user_table(users), session_ttl }),
    {
        Auth { users, session_ttl, epoch: clock_start() }
    }

    /// Seconds for which a token of this store is valid.
    pub fn session_ttl(&self) -> (ttl: u64)
        ensures
            ttl == self@.session_ttl,
    {
        self.session_ttl
    }

    /// Seconds on the store's clock, which starts when the store is built.
    /// This is the time that `authenticate` and `verify_session_token` use.
    pub fn now(&self) -> (seconds: u64) {
        let elapsed = clock_elapsed(&self.epoch);
        whole_seconds(&elapsed)
    }

    /// The password hash stored for `username`, if the user exists.
    pub fn stored_hash(&self, username: &str) -> (stored: Option<String>)
        ensures
            match stored {
                Some(hash) => self@.knows(username@) && hash@ == self@.users[username@].password_hash,
                None => !self@.knows(username@),
            },
    {
        match users_get(&self.users, username) {
            None => None,
            Some(user) => Some(user.password_hash().clone()),
        }
    }

    /// Checks `password` against the hash stored for `username`.
    pub fn check_credentials(&self, username: &str, password: &str) -> (res: Result<(), AuthError>)
        ensures
            match res {
                Ok(()) => self@.credential_error(username@, password@) is None,
                Err(e) => self@.credential_error(username@, password@) == Some(e),
            },
    {
        let stored = self.stored_hash(username);
        check_password(&stored, password)
    }

    /// Opens a session for `token` at `now` for an existing user and drops
    /// the user's expired sessions.
    pub fn open_session(&mut self, username: &str, token: SessionToken, now: u64) -> (res: Result<
        (),
        AuthError,
    >)
        ensures
            match res {
                Ok(()) => old(self)@.knows(username@) && final(self)@ == old(self)@.with_session(
                    username@,
                    token,
                    now,
                ),
                Err(e) => e == AuthError::UnknownUser && !old(self)@.knows(username@) && final(self)@ == old(self)@,
            },
    {
        match users_get(&self.users, username) {
            None => Err(AuthError::UnknownUser),
            Some(user) => {
                let mut user = user;
                user.new_session(token, now, self.session_ttl);
                users_insert(&mut self.users, username.to_owned(), user);
                Ok(())
            },
        }
    }

    /// Draws a token for a new session from the operating system's random
    /// source, if it gives one.
    pub fn fresh_session_token() -> (token: Option<SessionToken>) {
        fresh_token()
    }

    /// Ends an authentication whose credential check gave `checked`: opens a
    /// session for `token` at `now` if the check passed, a token could be
    /// drawn and the user exists.
    pub fn grant(
        &mut self,
        username: &str,
        checked: Result<(), AuthError>,
        token: Option<SessionToken>,
        now: u64,
    ) -> (res: Result<SessionToken, AuthError>)
        ensures
            res == grant_outcome(old(self)@.knows(username@), checked, token),
            match res {
                Ok(granted) => final(self)@ == old(self)@.with_session(username@, granted, now),
                Err(_) => final(self)@ == old(self)@,
            },
    {
        match checked {
            Err(refusal) => Err(refusal),
            Ok(()) => match token {
                None => Err(AuthError::EntropyUnavailable),
                Some(granted) => match self.open_session(username, granted, now) {
                    Ok(()) => Ok(granted),
                    Err(e) => Err(e),
                },
            },
        }
    }

    /// Authenticates `username` with `password` and returns a fresh session
    /// token. The token is random and the session is stamped with the clock's
    /// reading, so the contract speaks of some reading `now`.
    pub fn authenticate(&mut self, username: &str, password: String) -> (res: Result<
        SessionToken,
        AuthError,
    >)
        ensures
            !old(self)@.knows(username@) ==> res == Err::<SessionToken, _>(AuthError::UnknownUser),
            match res {
                Ok(token) => old(self)@.credential_error(username@, password@) is None
                    && exists|now: u64|
                    final(self)@ == #[trigger] old(self)@.with_session(username@, token, now),
                Err(e) => final(self)@ == old(self)@ && match old(self)@.credential_error(
                    username@,
                    password@,
                ) {
                    Some(refusal) => e == refusal,
                    None => e == AuthError::EntropyUnavailable,
                },
            },
    {
        let checked = self.check_credentials(username, password.as_str());
        let token = match checked {
            Ok(()) => fresh_token(),
            Err(_) => None,
        };
        let now = self.now();
        self.grant(username, checked, token, now)
    }

    /// Tells whether `username` holds `session_token` in a session that is
    /// live at `now`. The answer is always `Ok`: for a name that is no user
    /// it is `Ok(false)`.
    pub fn verify_session_token_at(
        &self,
        username: &str,
        session_token: SessionToken,
        now: u64,
    ) -> (res: Result<bool, AuthError>)
        ensures
            res == Ok::<bool, AuthError>(self@.session_valid(username@, session_token@, now)),
    {
        match users_get(&self.users, username) {
            None => Ok(false),
            Some(user) => Ok(user.check_session_validity(&session_token, now, self.session_ttl)),
        }
    }

    /// Closes every session of every user.
    pub fn reset(&mut self)
        ensures
            final(self)@ == old(self)@.reset(),
    {
        let names = users_names(&self.users);
        let ghost before = self@;
        let ghost keys = names.deep_view();
        let mut i: usize = 0;
        while i < names.len()
            invariant
                i <= names.len(),
                keys == names.deep_view(),
                keys.no_duplicates(),
                keys.to_set() == before.users.dom(),
                self@.session_ttl == before.session_ttl,
                self@.users.dom() == before.users.dom(),
                forall|k: Seq<char>| #[trigger]
                    before.users.contains_key(k) ==> self@.users[k] == if keys.take(
                        i as int,
                    ).contains(k) {
                        before.users[k].without_sessions()
                    } else {
                        before.users[k]
                    },
            decreases names.len() - i,
        {
            let name = &names[i];
            assert(keys[i as int] == name@);
            assert(keys.to_set().contains(keys[i as int]));
            let found = users_get(&self.users, name.as_str());
            if let Some(user) = found {
                let mut user = user;
                let ghost previous = self@.users;
                assert(!keys.take(i as int).contains(name@));
                user.reset();
                users_insert(&mut self.users, name.clone(), user);
                assert(self@.users.dom() =~= before.users.dom());
                assert forall|k: Seq<char>| #[trigger]
                    before.users.contains_key(k) implies self@.users[k] == if keys.take(
                    i + 1,
                ).contains(k) {
                    before.users[k].without_sessions()
                } else {
                    before.users[k]
                } by {
                    let done = keys.take(i as int);
                    let next = keys.take(i + 1);
                    assert(next == done.push(name@));
                    if k == name@ {
                        assert(next[i as int] == k);
                    } else if done.contains(k) {
                        let j = choose|j: int| 0 <= j < done.len() && done[j] == k;
                        assert(next[j] == k);
                    } else {
                        assert(self@.users[k] == previous[k]);
                    }
                }
            }
            i = i + 1;
        }
        proof {
            assert(keys.take(i as int) == keys);
            assert forall|k: Seq<char>| #[trigger]
                before.users.contains_key(k) implies self@.users[k]
                == before.users[k].without_sessions() by {
                assert(keys.to_set().contains(k));
            }
            assert(self@.users =~= before.reset().users);
        }
    }

    /// Builds the users map from the lines of a users file, each without its
    /// line end. The first line that is no record, or whose hash is
    /// malformed, fails the load; a later record of a name replaces an
    /// earlier one.
    pub fn load_users_file(lines: Vec<String>) -> (res: Result<DashMap<String, User>, AuthError>)
        ensures
            match res {
                Ok(users) => load_records(lines.deep_view()) == Ok::<_, AuthError>(
                    user_table(users),
                ),
                Err(e) => load_records(lines.deep_view()) == Err::<Map<Seq<char>, UserView>, _>(e),
            },
    {
        let mut users = users_new();
        let ghost text = lines.deep_view();
        let mut i: usize = 0;
        while i < lines.len()
            invariant
                i <= lines.len(),
                text == lines.deep_view(),
                load_records(text.take(i as int)) == Ok::<_, AuthError>(user_table(users)),
            decreases lines.len() - i,
        {
            let line = &lines[i];
            assert(text[i as int] == line@);
            assert(text.take(i + 1).drop_last() == text.take(i as int));
            assert(text.take(i + 1).last() == line@);
            let user = match User::from_line(line.as_str()) {
                Ok(user) => user,
                Err(e) => {
                    proof {
                        lemma_load_stops_at_first_error(text, i + 1);
                    }
                    return Err(e);
                },
            };
            if !hash_is_usable(user.password_hash().as_str()) {
                proof {
                    lemma_load_stops_at_first_error(text, i + 1);
                }
                return Err(AuthError::MalformedHash);
            }
            let name = user.username().clone();
            users_insert(&mut users, name, user);
            i = i + 1;
        }
        assert(text.take(i as int) == text);
        Ok(users)
    }

    /// Renders `users` as the lines of a users file, each `key:phc_hash` with
    /// its line end, in the order in which the map is walked. The map is
    /// taken whole, so nobody else can hold or change an entry meanwhile.
    pub fn save_users_file(users: DashMap<String, User>) -> (lines: Vec<String>)
        ensures
            lists(lines.deep_view(), user_table(users)),
    {
        let names = users_names(&users);
        let ghost keys = names.deep_view();
        let ghost table = user_table(users);
        let mut lines: Vec<String> = Vec::new();
        let mut i: usize = 0;
        while i < names.len()
            invariant
                i <= names.len(),
                keys == names.deep_view(),
                keys.to_set() == table.dom(),
                table == user_table(users),
                lines.deep_view() == render(table, keys.take(i as int)),
            decreases names.len() - i,
        {
            let name = &names[i];
            assert(keys[i as int] == name@);
            assert(keys.to_set().contains(keys[i as int]));
            if let Some(user) = users_get(&users, name.as_str()) {
                let mut line = name.clone();
                line.append(":");
                line.append(user.password_hash().as_str());
                line.append("\n");
                proof {
                    reveal_strlit(":");
                    reveal_strlit("\n");
                    assert(":"@ =~= seq![RECORD_SEPARATOR]);
                    assert("\n"@ =~= seq!['\n']);
                    assert(line@ == record_line(table, name@));
                }
                let ghost rendered = lines.deep_view();
                lines.push(line);
                assert(lines.deep_view() =~= rendered.push(line@));
                assert(keys.take(i + 1) == keys.take(i as int).push(name@));
                assert(lines.deep_view() =~= render(table, keys.take(i + 1)));
            }
            i = i + 1;
        }
        assert(keys.take(i as int) == keys);
        lines
    }

    /// Tells whether `username` holds `session_token` in a session that is
    /// live at the clock's reading, so the contract speaks of some reading
    /// `now`. The answer is always `Ok`: for a name that is no user it is
    /// `Ok(false)`.
    pub fn verify_session_token(&self, username: &str, session_token: SessionToken) -> (res: Result<
        bool,
        AuthError,
    >)
        ensures
            exists|now: u64|
                res == Ok::<bool, AuthError>(
                    #[trigger] self@.session_valid(username@, session_token@, now),
                ),
    {
        let now = self.now();
        self.verify_session_token_at(username, session_token, now)
    }
}

/// Authentication admits only known users: whatever the password, the check
/// of a name that the store does not know answers `UnknownUser`.
pub proof fn lemma_unknown_user_is_refused(auth: AuthView, name: Seq<char>, password: Seq<char>)
    requires
        !auth.knows(name),
    ensures
        auth.credential_error(name, password) == Some(AuthError::UnknownUser),
{
}

/// A session token is valid for the user it was issued to, until its time to
/// live has passed, and the issue does not make it valid for any other user:
/// one for whom it was not valid before is still refused.
pub proof fn lemma_token_is_per_user(
    auth: AuthView,
    user: Seq<char>,
    other: Seq<char>,
    token: SessionToken,
    issued: u64,
    now: u64,
)
    requires
        auth.knows(user),
        other != user,
        now < issued + auth.session_ttl,
        !auth.session_valid(other, token@, now),
    ensures
        auth.with_session(user, token, issued).session_valid(user, token@, now),
        !auth.with_session(user, token, issued).session_valid(other, token@, now),
{
    let after = auth.with_session(user, token, issued);
    let sessions = after.users[user].sessions;
    assert(sessions.last().token@ == token@);
    assert(sessions[sessions.len() - 1].issued_at == issued);
}

/// Reset clears sessions: afterwards no token is valid for any user at any
/// time.
pub proof fn lemma_reset_clears_sessions(auth: AuthView, name: Seq<char>, token: Seq<u8>, now: u64)
    ensures
        !auth.reset().session_valid(name, token, now),
{
}

} // verus!
