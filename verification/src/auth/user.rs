//! One user of the credential store: a name, a PHC password hash and the
//! sessions that were opened for the user.

use crate::auth::{AuthError, SessionToken};
use vstd::prelude::*;
use vstd::std_specs::iter::IteratorSpec;
use vstd::string::*;

verus! {

broadcast use vstd::string::group_string_axioms;

/// The character between the username and the hash in a users-file record.
pub const RECORD_SEPARATOR: char = ':';

/// A session token together with the time, in seconds, at which it was issued.
#[derive(Clone, Copy, Debug)]
pub struct Session {
    pub token: SessionToken,
    pub issued_at: u64,
}

/// A session issued at `issued_at` is live at `now` until `ttl` seconds have
/// passed since it was issued.
pub open spec fn session_live(issued_at: u64, now: u64, ttl: u64) -> bool {
    now < issued_at + ttl
}

/// The sessions of `sessions` that are live at `now`, in their order.
pub open spec fn live_sessions(sessions: Seq<Session>, now: u64, ttl: u64) -> Seq<Session>
    decreases sessions.len(),
{
    if sessions.len() == 0 {
        sessions
    } else if session_live(sessions.last().issued_at, now, ttl) {
        live_sessions(sessions.drop_last(), now, ttl).push(sessions.last())
    } else {
        live_sessions(sessions.drop_last(), now, ttl)
    }
}

/// Mathematical value of a user.
pub struct UserView {
    pub username: Seq<char>,
    pub password_hash: Seq<char>,
    pub sessions: Seq<Session>,
}

impl UserView {
    /// The user holds `token` in a session that is live at `now`.
    pub open spec fn holds(self, token: Seq<u8>, now: u64, ttl: u64) -> bool {
        exists|i: int|
            0 <= i < self.sessions.len() && (#[trigger] self.sessions[i]).token@ == token
                && session_live(self.sessions[i].issued_at, now, ttl)
    }

    /// The user after a session for `token` was opened at `now`: expired
    /// sessions are gone and the new one comes last.
    pub open spec fn with_session(self, token: SessionToken, now: u64, ttl: u64) -> UserView {
        UserView {
            sessions: live_sessions(self.sessions, now, ttl).push(
                Session { token, issued_at: now },
            ),
            ..self
        }
    }

    /// The user with no session.
    pub open spec fn without_sessions(self) -> UserView {
        UserView { sessions: Seq::empty(), ..self }
    }
}

/// Index of the first separator in `line`, or the length of `line` if it has
/// none.
pub open spec fn separator_index(line: Seq<char>) -> int
    decreases line.len(),
{
    if line.len() == 0 {
        0
    } else if line[0] == RECORD_SEPARATOR {
        0
    } else {
        1 + separator_index(line.drop_first())
    }
}

/// The user that a users-file line stands for: the name is what comes before
/// the first separator and must not be empty, the hash is all that follows.
pub open spec fn parse_record(line: Seq<char>) -> Option<UserView> {
    let at = separator_index(line);
    if 0 < at < line.len() {
        Some(
            UserView {
                username: line.subrange(0, at),
                password_hash: line.subrange(at + 1, line.len() as int),
                sessions: Seq::empty(),
            },
        )
    } else {
        None
    }
}

/// `separator_index` finds the first separator and nothing before it is one.
pub proof fn lemma_separator_index(line: Seq<char>)
    ensures
        0 <= separator_index(line) <= line.len(),
        separator_index(line) < line.len() ==> line[separator_index(line)] == RECORD_SEPARATOR,
        forall|i: int| 0 <= i < separator_index(line) ==> line[i] != RECORD_SEPARATOR,
    decreases line.len(),
{
    if line.len() > 0 && line[0] != RECORD_SEPARATOR {
        let rest = line.drop_first();
        lemma_separator_index(rest);
        assert forall|i: int| 0 <= i < separator_index(line) implies line[i]
            != RECORD_SEPARATOR by {
            if i > 0 {
                assert(line[i] == rest[i - 1]);
            }
        }
    }
}

/// An index that holds the first separator is `separator_index`.
pub proof fn lemma_separator_index_is(line: Seq<char>, at: int)
    requires
        0 <= at <= line.len(),
        at < line.len() ==> line[at] == RECORD_SEPARATOR,
        forall|i: int| 0 <= i < at ==> line[i] != RECORD_SEPARATOR,
    ensures
        separator_index(line) == at,
{
    lemma_separator_index(line);
}

/// A record reads back as it was written: a name that is not empty and holds
/// no separator, the separator and a hash parse to that name and that hash.
pub proof fn lemma_record_reads_back(username: Seq<char>, password_hash: Seq<char>)
    requires
        username.len() > 0,
        !username.contains(RECORD_SEPARATOR),
    ensures
        parse_record(username + seq![RECORD_SEPARATOR] + password_hash) == Some(
            UserView { username, password_hash, sessions: Seq::empty() },
        ),
{
    let line = username + seq![RECORD_SEPARATOR] + password_hash;
    let at = username.len() as int;
    assert forall|i: int| 0 <= i < at implies line[i] != RECORD_SEPARATOR by {
        assert(line[i] == username[i]);
        assert(username.contains(username[i]));
    }
    assert(line[at] == RECORD_SEPARATOR);
    lemma_separator_index_is(line, at);
    assert(line.subrange(0, at) =~= username);
    assert(line.subrange(at + 1, line.len() as int) =~= password_hash);
}

/// A user of the credential store.
#[derive(Clone, Debug)]
pub struct User {
    username: String,
    password_hash: String,
    sessions: Vec<Session>,
}

impl View for User {
    type V = UserView;

    closed spec fn view(&self) -> UserView {
        UserView {
            username: self.username@,
            password_hash: self.password_hash@,
            sessions: self.sessions@,
        }
    }
}

/// Tells whether two tokens hold the same bytes.
pub fn same_token(a: &SessionToken, b: &SessionToken) -> (same: bool)
    ensures
        same == (a@ == b@),
{
    let mut i: usize = 0;
    while i < 16
        invariant
            i <= 16,
            forall|j: int| 0 <= j < i ==> a@[j] == b@[j],
        decreases 16 - i,
    {
        if a[i] != b[i] {
            return false;
        }
        i = i + 1;
    }
    assert(a@ =~= b@);
    true
}

/// Tells whether a session issued at `issued_at` is live at `now`.
pub fn is_live(issued_at: u64, now: u64, ttl: u64) -> (live: bool)
    ensures
        live == session_live(issued_at, now, ttl),
{
    now < issued_at || now - issued_at < ttl
}

impl User {
    /// A user with no session.
    pub fn new(username: String, password_hash: String) -> (user: User)
        ensures
            user@ == (UserView {
                username: username@,
                password_hash: password_hash@,
                sessions: Seq::empty(),
            }),
    {
        User { username, password_hash, sessions: Vec::new() }
    }

    /// A copy of the user, sessions included.
    pub fn duplicate(&self) -> (copy: User)
        ensures
            copy@ == self@,
    {
        let mut sessions: Vec<Session> = Vec::new();
        let mut i: usize = 0;
        while i < self.sessions.len()
            invariant
                i <= self.sessions.len(),
                sessions@ == self.sessions@.take(i as int),
            decreases self.sessions.len() - i,
        {
            sessions.push(self.sessions[i]);
            assert(sessions@ =~= self.sessions@.take(i + 1));
            i = i + 1;
        }
        assert(self.sessions@.take(i as int) == self.sessions@);
        User {
            username: self.username.clone(),
            password_hash: self.password_hash.clone(),
            sessions,
        }
    }

    /// The name of the user.
    pub fn username(&self) -> (name: &String)
        ensures
            name@ == self@.username,
    {
        &self.username
    }

    /// The PHC string of the user's password hash.
    pub fn password_hash(&self) -> (hash: &String)
        ensures
            hash@ == self@.password_hash,
    {
        &self.password_hash
    }

    /// Opens a session for `token` at `now` and forgets the sessions that
    /// have expired by then.
    pub fn new_session(&mut self, token: SessionToken, now: u64, ttl: u64)
        ensures
            final(self)@ == old(self)@.with_session(token, now, ttl),
    {
        let mut kept: Vec<Session> = Vec::new();
        let mut i: usize = 0;
        while i < self.sessions.len()
            invariant
                i <= self.sessions.len(),
                self@ == old(self)@,
                kept@ == live_sessions(self.sessions@.take(i as int), now, ttl),
            decreases self.sessions.len() - i,
        {
            let session = self.sessions[i];
            assert(self.sessions@.take(i + 1).drop_last() == self.sessions@.take(i as int));
            if is_live(session.issued_at, now, ttl) {
                kept.push(session);
            }
            i = i + 1;
        }
        assert(self.sessions@.take(i as int) == self.sessions@);
        kept.push(Session { token, issued_at: now });
        self.sessions = kept;
    }

    /// Tells whether the user holds `token` in a session that is live at
    /// `now`.
    pub fn check_session_validity(&self, token: &SessionToken, now: u64, ttl: u64) -> (valid: bool)
        ensures
            valid == self@.holds(token@, now, ttl),
    {
        let mut i: usize = 0;
        while i < self.sessions.len()
            invariant
                i <= self.sessions.len(),
                forall|j: int|
                    0 <= j < i ==> !((#[trigger] self.sessions@[j]).token@ == token@
                        && session_live(self.sessions@[j].issued_at, now, ttl)),
            decreases self.sessions.len() - i,
        {
            let session = &self.sessions[i];
            if same_token(&session.token, token) && is_live(session.issued_at, now, ttl) {
                assert(self@.sessions[i as int].token@ == token@);
                return true;
            }
            i = i + 1;
        }
        false
    }

    /// Closes every session of the user.
    pub fn reset(&mut self)
        ensures
            final(self)@ == old(self)@.without_sessions(),
    {
        self.sessions = Vec::new();
    }

    /// Reads a user from one line of a users file, `username:phc_hash`
    /// without the line end. A line without separator or with an empty name
    /// is refused; whether the hash is a PHC string is not looked at here.
    pub fn from_line(line: &str) -> (res: Result<User, AuthError>)
        ensures
            match res {
                Ok(user) => parse_record(line@) == Some(user@),
                Err(e) => e == AuthError::MalformedRecord && parse_record(line@) is None,
            },
    {
        let len = line.unicode_len();
        let mut chars = line.chars();
        let mut at: usize = 0;
        loop
            invariant_except_break
                at <= len,
                len == line@.len(),
                chars.remaining() == line@.skip(at as int),
                forall|i: int| 0 <= i < at ==> line@[i] != RECORD_SEPARATOR,
            ensures
                at <= len,
                len == line@.len(),
                at < len ==> line@[at as int] == RECORD_SEPARATOR,
                forall|i: int| 0 <= i < at ==> line@[i] != RECORD_SEPARATOR,
            decreases len - at,
        {
            match chars.next() {
                Some(c) => {
                    if c == RECORD_SEPARATOR {
                        break ;
                    }
                    assert(line@.skip(at as int).drop_first() == line@.skip(at + 1));
                    at = at + 1;
                },
                None => {
                    break ;
                },
            }
        }
        proof {
            lemma_separator_index_is(line@, at as int);
        }
        if at == 0 || at >= len {
            return Err(AuthError::MalformedRecord);
        }
        let username = line.substring_char(0, at).to_owned();
        let password_hash = line.substring_char(at + 1, len).to_owned();
        Ok(User::new(username, password_hash))
    }
}

} // verus!
