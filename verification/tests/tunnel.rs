use argon2::password_hash::SaltString;
use argon2::{Algorithm, Argon2, Params, PasswordHasher, Version};
use quincy::auth::{Auth, AuthClientMessage, AuthError, AuthServerMessage, AuthState};
use quincy::server::address_pool::{ipv4_from_octets, PoolError};
use quincy::server::connection::{ConnectionHandler, ConnectionState};
use quincy::server::tunnel::QuincyTunnel;
use quincy::tun::{Route, TunError};

fn quick_hash(password: &str) -> String {
    let params = Params::new(8, 1, 1, None).unwrap();
    let argon = Argon2::new(Algorithm::Argon2id, Version::V0x13, params);
    let salt = SaltString::encode_b64(b"0123456789abcdef").unwrap();
    argon
        .hash_password(password.as_bytes(), &salt)
        .unwrap()
        .to_string()
}

fn tunnel_with(prefix_len: u8, ttl: u64) -> QuincyTunnel {
    let lines = vec![
        format!("alice:{}", quick_hash("hunter2")),
        format!("bob:{}", quick_hash("swordfish")),
    ];
    let users = Auth::load_users_file(lines).unwrap();
    let auth = Auth::with_session_ttl(users, ttl);
    QuincyTunnel::new(
        "tun0".to_owned(),
        auth,
        ipv4_from_octets(10, 0, 0, 0),
        prefix_len,
        ipv4_from_octets(10, 0, 0, 1),
        1500,
    )
    .ok()
    .unwrap()
}

fn authenticating(id: u64) -> ConnectionHandler {
    let mut handler = ConnectionHandler::new(id);
    assert!(handler.accept_control_stream());
    handler
}

fn password(user: &str, password: &str) -> AuthClientMessage {
    AuthClientMessage::Authentication(user.to_owned(), password.to_owned())
}

fn is_failed(reply: &AuthServerMessage) -> bool {
    matches!(reply, AuthServerMessage::Failed)
}

#[test]
fn happy_path_gives_address_mask_and_token() {
    let mut tunnel = tunnel_with(30, 3600);
    let mut handler = authenticating(1);
    let reply = tunnel.authenticate_connection(&mut handler, password("alice", "hunter2"));
    let token = match reply {
        AuthServerMessage::Authenticated(client_ip, netmask, token) => {
            assert_eq!(client_ip, vec![10, 0, 0, 2]);
            assert_eq!(netmask, vec![255, 255, 255, 252]);
            token
        }
        _ => panic!("not authenticated"),
    };
    assert_eq!(token.len(), 16);
    let addr = ipv4_from_octets(10, 0, 0, 2);
    assert_eq!(tunnel.worker().connection_for(addr), Some(1));
    assert!(tunnel.address_pool().is_leased(addr));
    assert_eq!(handler.state(), ConnectionState::Established);
    assert_eq!(handler.client_ip(), Some(addr));
    assert_eq!(
        handler.auth_state(),
        &AuthState::Authenticated("alice".to_owned())
    );
    assert_eq!(tunnel.auth().verify_session_token("alice", token), Ok(true));
}

#[test]
fn bad_password_fails_and_leaves_the_pool_alone() {
    let mut tunnel = tunnel_with(30, 3600);
    let mut handler = authenticating(1);
    let reply = tunnel.authenticate_connection(&mut handler, password("alice", "wrong"));
    assert!(is_failed(&reply));
    assert_eq!(handler.state(), ConnectionState::Closed);
    assert_eq!(handler.client_ip(), None);
    assert_eq!(handler.auth_state(), &AuthState::Unauthenticated);
    let addr = ipv4_from_octets(10, 0, 0, 2);
    assert!(!tunnel.address_pool().is_leased(addr));
    assert_eq!(tunnel.worker().connection_for(addr), None);
}

#[test]
fn unknown_user_gets_the_same_answer_as_a_bad_password() {
    let mut tunnel = tunnel_with(30, 3600);
    let mut handler = authenticating(1);
    let reply = tunnel.authenticate_connection(&mut handler, password("mallory", "hunter2"));
    assert!(is_failed(&reply));
    assert_eq!(handler.state(), ConnectionState::Closed);
}

#[test]
fn second_client_finds_the_pool_exhausted() {
    let mut tunnel = tunnel_with(30, 3600);
    let mut first = authenticating(1);
    let mut second = authenticating(2);
    let reply = tunnel.authenticate_connection(&mut first, password("alice", "hunter2"));
    assert!(matches!(reply, AuthServerMessage::Authenticated(_, _, _)));
    let reply = tunnel.authenticate_connection(&mut second, password("alice", "hunter2"));
    assert!(is_failed(&reply));
    assert_eq!(second.state(), ConnectionState::Closed);
    assert_eq!(
        tunnel
            .worker()
            .connection_for(ipv4_from_octets(10, 0, 0, 2)),
        Some(1)
    );
}

#[test]
fn token_resumes_the_address_after_a_disconnect() {
    let mut tunnel = tunnel_with(30, 3600);
    let addr = ipv4_from_octets(10, 0, 0, 2);
    let mut first = authenticating(1);
    let token = [5u8; 16];
    let reply = tunnel.enroll(&mut first, "alice".to_owned(), Ok(()), Some(token), 100);
    assert!(matches!(reply, AuthServerMessage::Authenticated(_, _, _)));
    first.loop_terminated();
    assert_eq!(first.state(), ConnectionState::Closing);
    tunnel.close_connection(&mut first);
    assert_eq!(first.state(), ConnectionState::Closed);
    assert!(!tunnel.address_pool().is_leased(addr));
    assert_eq!(tunnel.worker().connection_for(addr), None);

    let mut second = authenticating(2);
    let reply = tunnel.resume(&mut second, token, 200);
    assert!(matches!(reply, AuthServerMessage::Okay));
    assert_eq!(second.state(), ConnectionState::Established);
    assert_eq!(second.client_ip(), Some(addr));
    assert_eq!(
        second.auth_state(),
        &AuthState::Authenticated("alice".to_owned())
    );
    assert!(tunnel.address_pool().is_leased(addr));
    assert_eq!(tunnel.worker().connection_for(addr), Some(2));
}

#[test]
fn token_moves_a_live_route_to_the_new_connection() {
    let mut tunnel = tunnel_with(24, 3600);
    let addr = ipv4_from_octets(10, 0, 0, 2);
    let mut first = authenticating(1);
    let token = [5u8; 16];
    let _ = tunnel.enroll(&mut first, "alice".to_owned(), Ok(()), Some(token), 100);
    let mut second = authenticating(2);
    let reply = tunnel.resume(&mut second, token, 150);
    assert!(matches!(reply, AuthServerMessage::Okay));
    assert_eq!(tunnel.worker().connection_for(addr), Some(2));
    // The close of the old connection must not take the route away.
    first.loop_terminated();
    tunnel.close_connection(&mut first);
    assert_eq!(first.state(), ConnectionState::Closed);
    assert_eq!(tunnel.worker().connection_for(addr), Some(2));
    assert!(tunnel.address_pool().is_leased(addr));
    second.loop_terminated();
    tunnel.close_connection(&mut second);
    assert_eq!(tunnel.worker().connection_for(addr), None);
    assert!(!tunnel.address_pool().is_leased(addr));
}

#[test]
fn token_is_refused_when_unknown_expired_or_reset() {
    let mut tunnel = tunnel_with(24, 60);
    let mut first = authenticating(1);
    let token = [5u8; 16];
    let _ = tunnel.enroll(&mut first, "alice".to_owned(), Ok(()), Some(token), 100);
    tunnel.close_connection(&mut first);

    let mut stranger = authenticating(2);
    assert!(is_failed(&tunnel.resume(&mut stranger, [6u8; 16], 110)));
    assert_eq!(stranger.state(), ConnectionState::Closed);

    let mut late = authenticating(3);
    assert!(is_failed(&tunnel.resume(&mut late, token, 160)));
    assert_eq!(late.state(), ConnectionState::Closed);
    assert!(!tunnel
        .address_pool()
        .is_leased(ipv4_from_octets(10, 0, 0, 2)));

    let mut in_time = authenticating(4);
    assert!(matches!(
        tunnel.resume(&mut in_time, token, 159),
        AuthServerMessage::Okay
    ));
}

#[test]
fn token_is_refused_when_its_address_went_to_someone_else() {
    let mut tunnel = tunnel_with(30, 3600);
    let mut alice = authenticating(1);
    let token = [5u8; 16];
    let _ = tunnel.enroll(&mut alice, "alice".to_owned(), Ok(()), Some(token), 100);
    tunnel.close_connection(&mut alice);
    let mut bob = authenticating(2);
    let reply = tunnel.enroll(&mut bob, "bob".to_owned(), Ok(()), Some([6u8; 16]), 101);
    assert!(matches!(reply, AuthServerMessage::Authenticated(_, _, _)));
    // Bob's lease of the address ended what Alice's token could resume.
    let mut again = authenticating(3);
    let reply = tunnel.resume(&mut again, token, 102);
    assert!(is_failed(&reply));
    assert_eq!(again.state(), ConnectionState::Closed);
    assert_eq!(
        tunnel
            .worker()
            .connection_for(ipv4_from_octets(10, 0, 0, 2)),
        Some(2)
    );
}

#[test]
fn enroll_refuses_without_check_token_or_user() {
    let mut tunnel = tunnel_with(24, 3600);
    let addr = ipv4_from_octets(10, 0, 0, 2);
    let mut handler = authenticating(1);
    let reply = tunnel.enroll(
        &mut handler,
        "alice".to_owned(),
        Err(AuthError::BadCredentials),
        Some([1u8; 16]),
        10,
    );
    assert!(is_failed(&reply));
    assert_eq!(handler.state(), ConnectionState::Closed);

    let mut handler = authenticating(2);
    let reply = tunnel.enroll(&mut handler, "alice".to_owned(), Ok(()), None, 10);
    assert!(is_failed(&reply));
    assert!(!tunnel.address_pool().is_leased(addr));

    let mut handler = authenticating(3);
    let reply = tunnel.enroll(
        &mut handler,
        "mallory".to_owned(),
        Ok(()),
        Some([1u8; 16]),
        10,
    );
    assert!(is_failed(&reply));
    assert!(!tunnel.address_pool().is_leased(addr));
    assert_eq!(tunnel.worker().connection_for(addr), None);
}

#[test]
fn only_an_authenticating_handler_is_heard() {
    let mut tunnel = tunnel_with(24, 3600);
    let mut fresh = ConnectionHandler::new(1);
    let reply = tunnel.authenticate_connection(&mut fresh, password("alice", "hunter2"));
    assert!(is_failed(&reply));
    assert_eq!(fresh.state(), ConnectionState::New);
    assert!(!tunnel
        .address_pool()
        .is_leased(ipv4_from_octets(10, 0, 0, 2)));

    let mut established = authenticating(2);
    let _ = tunnel.authenticate_connection(&mut established, password("alice", "hunter2"));
    assert_eq!(established.state(), ConnectionState::Established);
    let reply = tunnel.authenticate_connection(&mut established, password("bob", "swordfish"));
    assert!(is_failed(&reply));
    assert_eq!(established.state(), ConnectionState::Established);
    assert_eq!(
        established.auth_state(),
        &AuthState::Authenticated("alice".to_owned())
    );
}

#[test]
fn handler_walks_through_its_states() {
    let mut handler = ConnectionHandler::new(9);
    assert_eq!(handler.id(), 9);
    assert_eq!(handler.state(), ConnectionState::New);
    assert!(handler.auth_timed_out().is_none());
    handler.loop_terminated();
    assert_eq!(handler.state(), ConnectionState::New);
    assert!(handler.accept_control_stream());
    assert_eq!(handler.state(), ConnectionState::Authenticating);
    assert!(!handler.accept_control_stream());
    handler.loop_terminated();
    assert_eq!(handler.state(), ConnectionState::Authenticating);
    assert!(matches!(
        handler.auth_timed_out(),
        Some(AuthServerMessage::Failed)
    ));
    assert_eq!(handler.state(), ConnectionState::Closed);
    assert!(handler.auth_timed_out().is_none());
    assert!(!handler.accept_control_stream());
}

#[test]
fn close_before_authentication_touches_nothing() {
    let mut tunnel = tunnel_with(24, 3600);
    let mut other = authenticating(1);
    let _ = tunnel.authenticate_connection(&mut other, password("alice", "hunter2"));
    let mut handler = authenticating(2);
    tunnel.close_connection(&mut handler);
    assert_eq!(handler.state(), ConnectionState::Closed);
    assert_eq!(
        tunnel
            .worker()
            .connection_for(ipv4_from_octets(10, 0, 0, 2)),
        Some(1)
    );
}

#[test]
fn packets_are_routed_to_the_client_that_holds_the_address() {
    let mut tunnel = tunnel_with(24, 3600);
    let mut a = authenticating(11);
    let mut b = authenticating(22);
    let _ = tunnel.authenticate_connection(&mut a, password("alice", "hunter2"));
    let _ = tunnel.authenticate_connection(&mut b, password("bob", "swordfish"));
    assert_eq!(a.client_ip(), Some(ipv4_from_octets(10, 0, 0, 2)));
    assert_eq!(b.client_ip(), Some(ipv4_from_octets(10, 0, 0, 3)));
    let builder = etherparse::PacketBuilder::ipv4([10, 0, 0, 1], [10, 0, 0, 3], 20).udp(1, 2);
    let mut packet = Vec::new();
    builder.write(&mut packet, b"ping").unwrap();
    // One datagram for B and none for A.
    assert_eq!(tunnel.route_packet(&packet), Route::Forward(22));
    let builder = etherparse::PacketBuilder::ipv4([10, 0, 0, 1], [10, 0, 0, 2], 20).udp(1, 2);
    let mut packet = Vec::new();
    builder.write(&mut packet, b"ping").unwrap();
    assert_eq!(tunnel.route_packet(&packet), Route::Forward(11));
}

#[test]
fn tunnel_starts_stops_and_reports_its_health() {
    let mut tunnel = tunnel_with(24, 3600);
    assert_eq!(tunnel.name(), "tun0");
    assert!(!tunnel.is_ok());
    assert_eq!(tunnel.stop(), Err(TunError::NotActive));
    assert_eq!(tunnel.start(), Ok(()));
    assert!(tunnel.is_ok());
    assert_eq!(tunnel.start(), Err(TunError::AlreadyActive));
    tunnel.task_failed();
    assert!(!tunnel.is_ok());

    let mut handler = authenticating(1);
    let token = [5u8; 16];
    let _ = tunnel.enroll(&mut handler, "alice".to_owned(), Ok(()), Some(token), 100);
    let addr = ipv4_from_octets(10, 0, 0, 2);
    assert!(tunnel.address_pool().is_leased(addr));

    assert_eq!(tunnel.stop(), Ok(()));
    assert!(!tunnel.is_ok());
    assert!(!tunnel.address_pool().is_leased(addr));
    assert_eq!(tunnel.worker().connection_for(addr), None);
    // The session outlives the stop.
    assert_eq!(
        tunnel.auth().verify_session_token_at("alice", token, 100),
        Ok(true)
    );
    assert_eq!(tunnel.start(), Ok(()));
    assert!(tunnel.is_ok());
    let mut again = authenticating(2);
    let reply = tunnel.authenticate_connection(&mut again, password("alice", "hunter2"));
    assert!(matches!(reply, AuthServerMessage::Authenticated(_, _, _)));
}

#[test]
fn tunnel_device_settings_come_from_the_pool() {
    let tunnel = tunnel_with(24, 3600);
    let settings = tunnel.tun_settings(1400).unwrap();
    assert_eq!(settings.name, "tun0");
    assert_eq!(settings.address, ipv4_from_octets(10, 0, 0, 1));
    assert_eq!(settings.destination, ipv4_from_octets(10, 0, 0, 1));
    assert_eq!(settings.netmask, ipv4_from_octets(255, 255, 255, 0));
    assert_eq!(settings.mtu, 1400);
    assert_eq!(
        tunnel.tun_settings(u32::MAX).err(),
        Some(TunError::InvalidMtu)
    );
}

#[test]
fn tunnel_over_a_bad_block_is_refused() {
    let auth = Auth::new(Auth::load_users_file(Vec::new()).unwrap());
    let res = QuincyTunnel::new(
        "tun0".to_owned(),
        auth,
        ipv4_from_octets(10, 0, 0, 0),
        40,
        ipv4_from_octets(10, 0, 0, 1),
        1500,
    );
    assert_eq!(res.err(), Some(PoolError::InvalidPrefix));
}

#[test]
fn tunnel_routes_admits_and_counts() {
    let mut tunnel = tunnel_with(24, 3600);
    let mut a = authenticating(11);
    let _ = tunnel.authenticate_connection(&mut a, password("alice", "hunter2"));
    let builder = etherparse::PacketBuilder::ipv4([10, 0, 0, 1], [10, 0, 0, 2], 20).udp(1, 2);
    let mut packet = Vec::new();
    builder.write(&mut packet, b"ping").unwrap();
    assert_eq!(tunnel.route_packet(&packet), Route::Forward(11));
    assert_eq!(
        tunnel.route_packet(&[1, 2, 3]),
        Route::Drop(quincy::tun::DropReason::MalformedPacket)
    );
    assert!(matches!(
        tunnel.admit_datagram(packet.clone(), Some(packet.len())),
        quincy::tun::Admission::Transmit(_)
    ));
    assert!(matches!(
        tunnel.admit_datagram(packet.clone(), Some(packet.len() - 1)),
        quincy::tun::Admission::Drop(quincy::tun::DropReason::OversizePacket)
    ));
    assert_eq!(
        tunnel.after_send(quincy::tun::SendOutcome::ConnectionClosed),
        Ok(())
    );
    let dropped = tunnel.worker().dropped();
    assert_eq!(dropped.malformed, 1);
    assert_eq!(dropped.oversize, 1);
    assert_eq!(dropped.transport_closed, 1);
    assert_eq!(dropped.unknown_destination, 0);
    assert_eq!(quincy::server::connection::DEFAULT_AUTH_TIMEOUT_SECS, 5);
}
