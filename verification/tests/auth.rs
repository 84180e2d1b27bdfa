use argon2::password_hash::rand_core::OsRng;
use argon2::password_hash::SaltString;
use argon2::{Algorithm, Argon2, Params, PasswordHasher, Version};
use dashmap::DashMap;
use quincy::auth::user::{is_live, same_token, Session, User};
use quincy::auth::{
    check_password, credential_verdict, hash_is_usable, parallelism_in_range, Auth, AuthError,
    DEFAULT_SESSION_TTL, MAX_PARALLELISM_DIGITS,
};

fn quick_hash(password: &str) -> String {
    let params = Params::new(8, 1, 1, None).unwrap();
    let argon = Argon2::new(Algorithm::Argon2id, Version::V0x13, params);
    let salt = SaltString::encode_b64(b"0123456789abcdef").unwrap();
    argon
        .hash_password(password.as_bytes(), &salt)
        .unwrap()
        .to_string()
}

fn store_with(name: &str, password: &str) -> Auth {
    let users: DashMap<String, User> = DashMap::new();
    users.insert(name.to_owned(), User::new(name.to_owned(), quick_hash(password)));
    Auth::new(users)
}

#[test]
fn test_authentication() {
    let users: DashMap<String, User> = DashMap::new();

    let argon = Argon2::default();
    let username = "test".to_owned();
    let password = "password".to_owned();
    let salt = SaltString::generate(&mut OsRng);

    let password_hash = argon.hash_password(password.as_bytes(), &salt).unwrap();

    let test_user = User::new(username.clone(), password_hash.to_string());
    users.insert(username.clone(), test_user);

    let mut auth = Auth::new(users);
    let session_token = auth
        .authenticate(&username, password)
        .expect("Credentials are valid");
    assert!(auth
        .verify_session_token(&username, session_token)
        .expect("User exists"))
}

#[test]
fn unknown_user_is_refused_whatever_the_password() {
    let mut auth = store_with("alice", "hunter2");
    assert_eq!(
        auth.authenticate("bob", "hunter2".to_owned()),
        Err(AuthError::UnknownUser)
    );
    assert_eq!(
        auth.authenticate("", "".to_owned()),
        Err(AuthError::UnknownUser)
    );
    assert_eq!(
        auth.check_credentials("bob", "anything"),
        Err(AuthError::UnknownUser)
    );
}

#[test]
fn wrong_password_is_bad_credentials() {
    let mut auth = store_with("alice", "hunter2");
    assert_eq!(
        auth.authenticate("alice", "wrong".to_owned()),
        Err(AuthError::BadCredentials)
    );
    assert_eq!(auth.check_credentials("alice", "hunter2"), Ok(()));
}

#[test]
fn stored_hash_that_is_no_phc_string_is_malformed() {
    let users: DashMap<String, User> = DashMap::new();
    users.insert(
        "alice".to_owned(),
        User::new("alice".to_owned(), "hunter2".to_owned()),
    );
    let mut auth = Auth::new(users);
    assert_eq!(
        auth.authenticate("alice", "hunter2".to_owned()),
        Err(AuthError::MalformedHash)
    );
}

#[test]
fn verdict_checks_in_order() {
    assert_eq!(
        credential_verdict(false, true, true),
        Err(AuthError::UnknownUser)
    );
    assert_eq!(
        credential_verdict(true, false, true),
        Err(AuthError::MalformedHash)
    );
    assert_eq!(
        credential_verdict(true, true, false),
        Err(AuthError::BadCredentials)
    );
    assert_eq!(credential_verdict(true, true, true), Ok(()));
}

#[test]
fn grant_needs_check_token_and_user() {
    let mut auth = store_with("alice", "hunter2");
    let token = [7u8; 16];
    assert_eq!(
        auth.grant("alice", Err(AuthError::BadCredentials), Some(token), 5),
        Err(AuthError::BadCredentials)
    );
    assert_eq!(
        auth.grant("alice", Ok(()), None, 5),
        Err(AuthError::EntropyUnavailable)
    );
    assert_eq!(
        auth.grant("bob", Ok(()), Some(token), 5),
        Err(AuthError::UnknownUser)
    );
    assert_eq!(auth.verify_session_token_at("alice", token, 5), Ok(false));
    assert_eq!(auth.grant("alice", Ok(()), Some(token), 5), Ok(token));
    assert_eq!(auth.verify_session_token_at("alice", token, 5), Ok(true));
}

#[test]
fn token_is_valid_only_for_its_user() {
    let users: DashMap<String, User> = DashMap::new();
    users.insert("alice".to_owned(), User::new("alice".to_owned(), quick_hash("a")));
    users.insert("bob".to_owned(), User::new("bob".to_owned(), quick_hash("b")));
    let mut auth = Auth::new(users);
    let token = [1u8; 16];
    assert_eq!(auth.open_session("alice", token, 100), Ok(()));
    assert_eq!(auth.verify_session_token_at("alice", token, 100), Ok(true));
    assert_eq!(auth.verify_session_token_at("bob", token, 100), Ok(false));
    // A name that is no user holds no token.
    assert_eq!(auth.verify_session_token_at("carol", token, 100), Ok(false));
    assert_eq!(auth.verify_session_token("carol", token), Ok(false));
    assert_eq!(
        auth.verify_session_token_at("alice", [2u8; 16], 100),
        Ok(false)
    );
}

#[test]
fn token_expires_when_its_time_to_live_has_passed() {
    let users: DashMap<String, User> = DashMap::new();
    users.insert("alice".to_owned(), User::new("alice".to_owned(), quick_hash("a")));
    let mut auth = Auth::with_session_ttl(users, 60);
    assert_eq!(auth.session_ttl(), 60);
    let token = [9u8; 16];
    assert_eq!(auth.open_session("alice", token, 1000), Ok(()));
    assert_eq!(auth.verify_session_token_at("alice", token, 1000), Ok(true));
    assert_eq!(auth.verify_session_token_at("alice", token, 1059), Ok(true));
    assert_eq!(auth.verify_session_token_at("alice", token, 1060), Ok(false));
    assert_eq!(auth.verify_session_token_at("alice", token, 5000), Ok(false));
}

#[test]
fn default_time_to_live_is_one_hour() {
    let auth = store_with("alice", "hunter2");
    assert_eq!(DEFAULT_SESSION_TTL, 3600);
    assert_eq!(auth.session_ttl(), 3600);
}

#[test]
fn opening_a_session_drops_expired_ones() {
    let mut user = User::new("alice".to_owned(), "hash".to_owned());
    user.new_session([1u8; 16], 0, 10);
    user.new_session([2u8; 16], 5, 10);
    assert!(user.check_session_validity(&[1u8; 16], 9, 10));
    user.new_session([3u8; 16], 12, 10);
    // The first session expired at 10 and is gone for good, the second lives to 15.
    assert!(!user.check_session_validity(&[1u8; 16], 0, 10));
    assert!(user.check_session_validity(&[2u8; 16], 12, 10));
    assert!(user.check_session_validity(&[3u8; 16], 12, 10));
    assert!(!user.check_session_validity(&[2u8; 16], 15, 10));
}

#[test]
fn reset_clears_every_session() {
    let users: DashMap<String, User> = DashMap::new();
    users.insert("alice".to_owned(), User::new("alice".to_owned(), quick_hash("a")));
    users.insert("bob".to_owned(), User::new("bob".to_owned(), quick_hash("b")));
    let mut auth = Auth::new(users);
    assert_eq!(auth.open_session("alice", [1u8; 16], 10), Ok(()));
    assert_eq!(auth.open_session("alice", [2u8; 16], 11), Ok(()));
    assert_eq!(auth.open_session("bob", [3u8; 16], 12), Ok(()));
    auth.reset();
    assert_eq!(auth.verify_session_token_at("alice", [1u8; 16], 12), Ok(false));
    assert_eq!(auth.verify_session_token_at("alice", [2u8; 16], 12), Ok(false));
    assert_eq!(auth.verify_session_token_at("bob", [3u8; 16], 12), Ok(false));
    // The users themselves stay.
    assert_eq!(auth.check_credentials("alice", "a"), Ok(()));
    assert_eq!(auth.check_credentials("bob", "b"), Ok(()));
}

#[test]
fn user_reset_and_accessors() {
    let mut user = User::new("alice".to_owned(), "hash".to_owned());
    assert_eq!(user.username(), "alice");
    assert_eq!(user.password_hash(), "hash");
    user.new_session([1u8; 16], 0, 10);
    user.reset();
    assert!(!user.check_session_validity(&[1u8; 16], 0, 10));
}

#[test]
fn session_liveness_and_token_equality() {
    assert!(is_live(10, 10, 1));
    assert!(!is_live(10, 11, 1));
    assert!(!is_live(10, 10, 0));
    assert!(is_live(10, 5, 0));
    assert!(is_live(u64::MAX, u64::MAX, u64::MAX));
    let session = Session {
        token: [4u8; 16],
        issued_at: 3,
    };
    assert!(same_token(&session.token, &[4u8; 16]));
    let mut other = [4u8; 16];
    other[15] = 5;
    assert!(!same_token(&session.token, &other));
}

#[test]
fn record_is_split_at_the_first_separator() {
    let user = User::from_line("alice:$argon2id$v=19$x:y").unwrap();
    assert_eq!(user.username(), "alice");
    assert_eq!(user.password_hash(), "$argon2id$v=19$x:y");
    let user = User::from_line("zoë:häsh").unwrap();
    assert_eq!(user.username(), "zoë");
    assert_eq!(user.password_hash(), "häsh");
}

#[test]
fn lines_that_are_no_record_are_refused() {
    assert_eq!(User::from_line("").err(), Some(AuthError::MalformedRecord));
    assert_eq!(
        User::from_line("alice").err(),
        Some(AuthError::MalformedRecord)
    );
    assert_eq!(
        User::from_line(":hash").err(),
        Some(AuthError::MalformedRecord)
    );
    // An empty hash is a record; the load refuses it as no PHC string.
    let user = User::from_line("alice:").unwrap();
    assert_eq!(user.password_hash(), "");
}

#[test]
fn load_reads_one_user_per_line() {
    let lines = vec![
        format!("alice:{}", quick_hash("hunter2")),
        format!("bob:{}", quick_hash("swordfish")),
    ];
    let users = Auth::load_users_file(lines).unwrap();
    assert_eq!(users.len(), 2);
    let auth = Auth::new(users);
    assert_eq!(auth.check_credentials("alice", "hunter2"), Ok(()));
    assert_eq!(auth.check_credentials("bob", "swordfish"), Ok(()));
    assert_eq!(
        auth.check_credentials("bob", "hunter2"),
        Err(AuthError::BadCredentials)
    );
}

#[test]
fn load_of_nothing_is_an_empty_map() {
    let users = Auth::load_users_file(Vec::new()).unwrap();
    assert!(users.is_empty());
}

#[test]
fn load_lets_the_later_record_of_a_name_win() {
    let lines = vec![
        format!("alice:{}", quick_hash("old")),
        format!("alice:{}", quick_hash("new")),
    ];
    let users = Auth::load_users_file(lines).unwrap();
    assert_eq!(users.len(), 1);
    let auth = Auth::new(users);
    assert_eq!(auth.check_credentials("alice", "new"), Ok(()));
    assert_eq!(
        auth.check_credentials("alice", "old"),
        Err(AuthError::BadCredentials)
    );
}

#[test]
fn load_refuses_blank_lines_and_bad_hashes() {
    let good = format!("alice:{}", quick_hash("hunter2"));
    assert_eq!(
        Auth::load_users_file(vec![good.clone(), String::new()]).err(),
        Some(AuthError::MalformedRecord)
    );
    assert_eq!(
        Auth::load_users_file(vec![good.clone(), "bob:not-a-hash".to_owned()]).err(),
        Some(AuthError::MalformedHash)
    );
    // The first refused line decides.
    assert_eq!(
        Auth::load_users_file(vec!["bob:not-a-hash".to_owned(), String::new()]).err(),
        Some(AuthError::MalformedHash)
    );
    assert_eq!(
        Auth::load_users_file(vec![String::new(), "bob:not-a-hash".to_owned()]).err(),
        Some(AuthError::MalformedRecord)
    );
}

#[test]
fn save_writes_one_line_per_user() {
    let users: DashMap<String, User> = DashMap::new();
    users.insert("alice".to_owned(), User::new("alice".to_owned(), "h1".to_owned()));
    users.insert("bob".to_owned(), User::new("bob".to_owned(), "h2".to_owned()));
    let mut lines = Auth::save_users_file(users);
    lines.sort();
    assert_eq!(lines, vec!["alice:h1\n".to_owned(), "bob:h2\n".to_owned()]);
    assert!(Auth::save_users_file(DashMap::new()).is_empty());
}

#[test]
fn saved_users_load_again() {
    let users: DashMap<String, User> = DashMap::new();
    users.insert(
        "alice".to_owned(),
        User::new("alice".to_owned(), quick_hash("hunter2")),
    );
    let lines: Vec<String> = Auth::save_users_file(users)
        .into_iter()
        .map(|line| line.trim_end_matches('\n').to_owned())
        .collect();
    let auth = Auth::new(Auth::load_users_file(lines).unwrap());
    assert_eq!(auth.check_credentials("alice", "hunter2"), Ok(()));
}

#[test]
fn fresh_tokens_differ() {
    let first = Auth::fresh_session_token().unwrap();
    let second = Auth::fresh_session_token().unwrap();
    assert_ne!(first, second);
}

#[test]
fn unknown_user_holds_no_session() {
    let auth = store_with("alice", "hunter2");
    assert_eq!(auth.verify_session_token_at("bob", [0u8; 16], 0), Ok(false));
    assert_eq!(auth.verify_session_token("", [0u8; 16]), Ok(false));
    let empty = Auth::new(DashMap::new());
    assert_eq!(empty.verify_session_token_at("bob", [1u8; 16], 7), Ok(false));
}

#[test]
fn password_is_checked_against_the_stored_hash() {
    let auth = store_with("alice", "hunter2");
    let stored = auth.stored_hash("alice");
    assert_eq!(stored, Some(quick_hash("hunter2")));
    assert_eq!(auth.stored_hash("bob"), None);
    assert_eq!(check_password(&stored, "hunter2"), Ok(()));
    assert_eq!(
        check_password(&stored, "wrong"),
        Err(AuthError::BadCredentials)
    );
    assert_eq!(
        check_password(&None, "hunter2"),
        Err(AuthError::UnknownUser)
    );
    assert_eq!(
        check_password(&Some("hunter2".to_owned()), "hunter2"),
        Err(AuthError::MalformedHash)
    );
}

fn with_parallelism(parallelism: &str) -> String {
    let hash = quick_hash("hunter2");
    assert!(hash.contains(",p=1$"));
    hash.replace(",p=1$", &format!(",{parallelism}$"))
}

#[test]
fn hash_with_too_long_a_parallelism_is_malformed() {
    // Eight times this parallelism does not fit 32 bits.
    let overflowing = with_parallelism("p=536870912");
    assert!(!hash_is_usable(&overflowing));
    assert_eq!(
        check_password(&Some(overflowing.clone()), "hunter2"),
        Err(AuthError::MalformedHash)
    );
    let largest = with_parallelism("p=4294967295");
    assert_eq!(
        check_password(&Some(largest), "hunter2"),
        Err(AuthError::MalformedHash)
    );
    // A second `p` counts as much as the first.
    let repeated = with_parallelism("p=1,p=999999999");
    assert!(!hash_is_usable(&repeated));
    assert_eq!(
        check_password(&Some(repeated), "hunter2"),
        Err(AuthError::MalformedHash)
    );
    assert_eq!(
        Auth::load_users_file(vec![format!("alice:{overflowing}")]).err(),
        Some(AuthError::MalformedHash)
    );
    let users: DashMap<String, User> = DashMap::new();
    users.insert(
        "alice".to_owned(),
        User::new("alice".to_owned(), overflowing),
    );
    let mut auth = Auth::new(users);
    assert_eq!(
        auth.authenticate("alice", "hunter2".to_owned()),
        Err(AuthError::MalformedHash)
    );
}

#[test]
fn hash_with_eight_digits_of_parallelism_is_checked_by_argon2() {
    // Within the limit the hash is usable; Argon2 then finds the memory too
    // little for that many lanes and the password does not match.
    let wide = with_parallelism("p=99999999");
    assert!(hash_is_usable(&wide));
    assert_eq!(
        check_password(&Some(wide), "hunter2"),
        Err(AuthError::BadCredentials)
    );
    assert!(hash_is_usable(&quick_hash("hunter2")));
    assert!(!hash_is_usable("hunter2"));
    assert!(!hash_is_usable(""));
}

#[test]
fn parallelism_is_bounded_by_the_length_of_its_value() {
    let pair = |name: &str, value: &str| (name.to_owned(), value.to_owned());
    assert_eq!(MAX_PARALLELISM_DIGITS, 8);
    assert!(parallelism_in_range(&Vec::new()));
    assert!(parallelism_in_range(&vec![
        pair("m", "4294967295"),
        pair("t", "4294967295"),
        pair("p", "12345678"),
    ]));
    assert!(!parallelism_in_range(&vec![
        pair("m", "8"),
        pair("p", "123456789"),
    ]));
    assert!(!parallelism_in_range(&vec![
        pair("p", "1"),
        pair("p", "123456789"),
    ]));
    assert!(parallelism_in_range(&vec![pair("pp", "123456789")]));
}

#[test]
fn copy_of_a_user_keeps_name_hash_and_sessions() {
    let mut user = User::new("alice".to_owned(), "hash".to_owned());
    user.new_session([1u8; 16], 0, 10);
    user.new_session([2u8; 16], 1, 10);
    let copy = user.duplicate();
    assert_eq!(copy.username(), "alice");
    assert_eq!(copy.password_hash(), "hash");
    assert!(copy.check_session_validity(&[1u8; 16], 5, 10));
    assert!(copy.check_session_validity(&[2u8; 16], 5, 10));
    assert!(!copy.check_session_validity(&[3u8; 16], 5, 10));
    user.reset();
    assert!(copy.check_session_validity(&[1u8; 16], 5, 10));
}
