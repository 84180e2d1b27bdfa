//! One tunnel: its credential store, its address pool, the routing table of
//! its TUN worker and the sessions it has handed addresses to.
//!
//! A client is registered in the routing table only after it has
//! authenticated and holds a lease, and it leaves the table when its lease is
//! returned: the table's addresses are at all times exactly the leased ones.

use crate::auth::user::{is_live, same_token, session_live};
use crate::auth::{
    Auth, AuthClientMessage, AuthError, AuthServerMessage, AuthView, ReplyView, SessionToken,
};
use crate::server::address_pool::{ipv4_octets, octets, AddressPool, PoolError, PoolView};
use crate::server::connection::{ConnectionHandler, ConnectionState, HandlerView};
use crate::tun::{
    ip_destination, make_tun, route, Admission, ConnectionId, DropReason, Route, SendOutcome,
    TunError, TunSettings, TunWorker, TunWorkerView,
};
use vstd::prelude::*;

verus! {

/// A session token with the user it was issued to and the address that was
/// leased with it.
pub struct LeaseRecord {
    token: SessionToken,
    username: String,
    address: u32,
    issued_at: u64,
}

/// Mathematical value of a `LeaseRecord`.
pub struct LeaseView {
    pub token: Seq<u8>,
    pub username: Seq<char>,
    pub address: u32,
    pub issued_at: u64,
}

impl View for LeaseRecord {
    type V = LeaseView;

    closed spec fn view(&self) -> LeaseView {
        LeaseView {
            token: self.token@,
            username: self.username@,
            address: self.address,
            issued_at: self.issued_at,
        }
    }
}

/// The records that stay when `taken` is leased at `now`: those whose
/// session is live then and whose address is another one, in their order. A
/// record that names `taken` belongs to a session that gave the address up.
pub open spec fn kept_records(records: Seq<LeaseView>, now: u64, ttl: u64, taken: u32) -> Seq<
    LeaseView,
>
    decreases records.len(),
{
    if records.len() == 0 {
        records
    } else if session_live(records.last().issued_at, now, ttl) && records.last().address
        != taken {
        kept_records(records.drop_last(), now, ttl, taken).push(records.last())
    } else {
        kept_records(records.drop_last(), now, ttl, taken)
    }
}

/// Index of the first record for `token`, or the number of records if there
/// is none.
pub open spec fn record_index(records: Seq<LeaseView>, token: Seq<u8>) -> int
    decreases records.len(),
{
    if records.len() == 0 {
        0
    } else if records[0].token == token {
        0
    } else {
        1 + record_index(records.drop_first(), token)
    }
}

/// `record_index` finds the first record for the token.
pub proof fn lemma_record_index(records: Seq<LeaseView>, token: Seq<u8>, at: int)
    requires
        0 <= at <= records.len(),
        at < records.len() ==> records[at].token == token,
        forall|i: int| 0 <= i < at ==> records[i].token != token,
    ensures
        record_index(records, token) == at,
    decreases records.len(),
{
    if records.len() > 0 && at > 0 {
        let rest = records.drop_first();
        assert forall|i: int| 0 <= i < at - 1 implies rest[i].token != token by {
            assert(rest[i] == records[i + 1]);
        }
        lemma_record_index(rest, token, at - 1);
    }
}

/// Mathematical state of a tunnel.
pub struct TunnelView {
    pub name: Seq<char>,
    pub auth: AuthView,
    pub pool: PoolView,
    pub worker: TunWorkerView,
    pub leases: Seq<LeaseView>,
    pub healthy: bool,
}

impl TunnelView {
    /// The pool is in order and the routing table holds exactly the leased
    /// addresses.
    pub open spec fn wf(self) -> bool {
        &&& self.pool.wf()
        &&& self.worker.connections.dom() == self.pool.leased
    }

    /// An authentication by password succeeds: the handler is
    /// authenticating, the credentials were `accepted`, an address is free, a
    /// token was drawn and the user exists.
    pub open spec fn admits(
        self,
        handler: HandlerView,
        username: Seq<char>,
        accepted: bool,
        token: Option<SessionToken>,
    ) -> bool {
        &&& handler.state == ConnectionState::Authenticating
        &&& accepted
        &&& !self.pool.exhausted()
        &&& token is Some
        &&& self.auth.knows(username)
    }

    /// The tunnel after `username` authenticated on `connection` at `now`
    /// and got `addr` and `token`.
    pub open spec fn admitted(
        self,
        connection: ConnectionId,
        username: Seq<char>,
        token: SessionToken,
        now: u64,
        addr: u32,
    ) -> TunnelView {
        TunnelView {
            auth: self.auth.with_session(username, token, now),
            pool: self.pool.with_lease(addr),
            worker: TunWorkerView {
                connections: self.worker.connections.insert(addr, connection),
                ..self.worker
            },
            leases: kept_records(self.leases, now, self.auth.session_ttl, addr).push(
                LeaseView { token: token@, username, address: addr, issued_at: now },
            ),
            ..self
        }
    }

    /// The user and address that `token` resumes at `now`, if it resumes
    /// any: the first record for the token names them, the token must still
    /// be valid for that user, and the address must either be routed
    /// still or be free to lease again. No record outlives the lease of its
    /// address to another session, so a routed address is the session's own.
    pub open spec fn resumption(self, handler: HandlerView, token: Seq<u8>, now: u64) -> Option<
        (Seq<char>, u32),
    > {
        let at = record_index(self.leases, token);
        if handler.state != ConnectionState::Authenticating || at >= self.leases.len() {
            None
        } else {
            let record = self.leases[at];
            if !self.auth.session_valid(record.username, token, now) {
                None
            } else if self.worker.connections.contains_key(record.address) || self.pool.free(
                record.address,
            ) {
                Some((record.username, record.address))
            } else {
                None
            }
        }
    }

    /// The tunnel after `addr` was leased, if it was not, and routed to
    /// `connection`.
    pub open spec fn bound(self, addr: u32, connection: ConnectionId) -> TunnelView {
        TunnelView {
            pool: self.pool.with_lease(addr),
            worker: TunWorkerView {
                connections: self.worker.connections.insert(addr, connection),
                ..self.worker
            },
            ..self
        }
    }

    /// Packets for the handler's address go to the handler's connection.
    pub open spec fn routes_to(self, handler: HandlerView) -> bool {
        &&& handler.client_ip matches Some(addr)
        &&& self.worker.connections.contains_key(addr)
        &&& self.worker.connections[addr] == handler.id
    }

    /// The tunnel after `addr` left the routing table and went back to the
    /// pool.
    pub open spec fn unbound(self, addr: u32) -> TunnelView {
        TunnelView {
            pool: self.pool.without_lease(addr),
            worker: TunWorkerView {
                connections: self.worker.connections.remove(addr),
                ..self.worker
            },
            ..self
        }
    }

    /// The tunnel after the close of `handler`: its address is given up if
    /// it is still routed to the handler's connection.
    pub open spec fn closed(self, handler: HandlerView) -> TunnelView {
        if self.routes_to(handler) {
            self.unbound(handler.client_ip->0)
        } else {
            self
        }
    }

    /// The tunnel after a stop: no connection, no lease, workers stopped.
    pub open spec fn stopped(self) -> TunnelView {
        TunnelView {
            pool: PoolView { leased: Set::empty(), ..self.pool },
            worker: TunWorkerView { connections: Map::empty(), active: false, ..self.worker },
            ..self
        }
    }
}

/// How an authentication by password relates the tunnel and the handler
/// before it (`pre`, `before`) to those after it (`post`, `after`) and to the
/// reply, where `accepted` says whether the credential check passed.
pub open spec fn admission(
    pre: TunnelView,
    before: HandlerView,
    username: Seq<char>,
    accepted: bool,
    token: Option<SessionToken>,
    now: u64,
    post: TunnelView,
    after: HandlerView,
    reply: ReplyView,
) -> bool {
    if pre.admits(before, username, accepted, token) {
        &&& after.client_ip matches Some(addr)
        &&& pre.pool.lowest_free(addr)
        &&& after == before.established(username, addr)
        &&& post == pre.admitted(before.id, username, token->0, now, addr)
        &&& reply == ReplyView::Authenticated(
            octets(addr),
            octets(pre.pool.mask() as u32),
            token->0@,
        )
    } else {
        &&& after == before.refused()
        &&& post == pre
        &&& reply == ReplyView::Failed
    }
}

/// How an authentication by session token relates the tunnel and the
/// handler before it to those after it and to the reply.
pub open spec fn resumed(
    pre: TunnelView,
    before: HandlerView,
    token: Seq<u8>,
    now: u64,
    post: TunnelView,
    after: HandlerView,
    reply: ReplyView,
) -> bool {
    match pre.resumption(before, token, now) {
        Some((username, addr)) => {
            &&& after == before.established(username, addr)
            &&& post == pre.bound(addr, before.id)
            &&& reply == ReplyView::Okay
        },
        None => {
            &&& after == before.refused()
            &&& post == pre
            &&& reply == ReplyView::Failed
        },
    }
}

/// One tunnel of the server.
pub struct QuincyTunnel {
    name: String,
    auth: Auth,
    pool: AddressPool,
    worker: TunWorker,
    leases: Vec<LeaseRecord>,
    healthy: bool,
}

impl View for QuincyTunnel {
    type V = TunnelView;

    closed spec fn view(&self) -> TunnelView {
        TunnelView {
            name: self.name@,
            auth: self.auth@,
            pool: self.pool@,
            worker: self.worker@,
            leases: self.leases.deep_view(),
            healthy: self.healthy,
        }
    }
}

impl DeepView for LeaseRecord {
    type V = LeaseView;

    open spec fn deep_view(&self) -> LeaseView {
        self@
    }
}

impl QuincyTunnel {
    /// The invariant of the representation; it implies `self@.wf()`.
    pub closed spec fn wf(&self) -> bool {
        self.pool.wf() && self@.wf()
    }

    /// A well-formed tunnel has a well-formed state.
    pub proof fn lemma_wf_view(&self)
        requires
            self.wf(),
        ensures
            self@.wf(),
    {
    }

    /// A stopped tunnel over the block `network/prefix_len` without clients.
    pub fn new(
        name: String,
        auth: Auth,
        network: u32,
        prefix_len: u8,
        gateway: u32,
        buffer_size: usize,
    ) -> (res: Result<QuincyTunnel, PoolError>)
        ensures
            match res {
                Ok(tunnel) => {
                    &&& crate::server::address_pool::config_error(network, prefix_len, gateway)
                        is None
                    &&& tunnel.wf()
                    &&& tunnel@.name == name@
                    &&& tunnel@.auth == auth@
                    &&& tunnel@.pool == (PoolView {
                        network,
                        prefix_len,
                        gateway,
                        leased: Set::empty(),
                    })
                    &&& tunnel@.worker.connections == Map::<u32, ConnectionId>::empty()
                    &&& tunnel@.worker.buffer_size == buffer_size
                    &&& !tunnel@.worker.active
                    &&& tunnel@.leases == Seq::<LeaseView>::empty()
                    &&& tunnel@.healthy
                },
                Err(e) => crate::server::address_pool::config_error(network, prefix_len, gateway)
                    == Some(e),
            },
    {
        let pool = match AddressPool::new(network, prefix_len, gateway) {
            Ok(pool) => pool,
            Err(e) => {
                return Err(e);
            },
        };
        let tunnel = QuincyTunnel {
            name,
            auth,
            pool,
            worker: TunWorker::new(buffer_size),
            leases: Vec::new(),
            healthy: true,
        };
        assert(tunnel@.worker.connections.dom() =~= tunnel@.pool.leased);
        assert(tunnel@.leases =~= Seq::<LeaseView>::empty());
        Ok(tunnel)
    }

    /// The name of the tunnel.
    pub fn name(&self) -> (name: &String)
        ensures
            name@ == self@.name,
    {
        &self.name
    }

    /// The credential store of the tunnel.
    pub fn auth(&self) -> (auth: &Auth)
        ensures
            auth@ == self@.auth,
    {
        &self.auth
    }

    /// The address pool of the tunnel.
    pub fn address_pool(&self) -> (pool: &AddressPool)
        ensures
            pool@ == self@.pool,
            self.wf() ==> pool.wf(),
    {
        &self.pool
    }

    /// The TUN worker of the tunnel.
    pub fn worker(&self) -> (worker: &TunWorker)
        ensures
            worker@ == self@.worker,
    {
        &self.worker
    }

    /// The settings of the tunnel's TUN device: the gateway is both its
    /// address and its destination.
    pub fn tun_settings(&self, mtu: u32) -> (res: Result<TunSettings, TunError>)
        requires
            self.wf(),
        ensures
            match res {
                Ok(settings) => {
                    &&& mtu <= i32::MAX
                    &&& settings.name@ == self@.name
                    &&& !settings.tap
                    &&& !settings.packet_info
                    &&& settings.up
                    &&& settings.mtu == mtu
                    &&& settings.address == self@.pool.gateway
                    &&& settings.destination == self@.pool.gateway
                    &&& settings.netmask == self@.pool.mask()
                },
                Err(e) => e == TunError::InvalidMtu && mtu > i32::MAX,
            },
    {
        let gateway = self.pool.gateway();
        make_tun(self.name.clone(), gateway, self.pool.mask(), gateway, mtu)
    }

    /// Starts the tunnel: its workers run and it counts as in order. An
    /// already running tunnel is left as it is.
    pub fn start(&mut self) -> (res: Result<(), TunError>)
        requires
            old(self).wf(),
        ensures
            final(self).wf(),
            match res {
                Ok(()) => !old(self)@.worker.active && final(self)@ == (TunnelView {
                    worker: TunWorkerView { active: true, ..old(self)@.worker },
                    healthy: true,
                    ..old(self)@
                }),
                Err(e) => e == TunError::AlreadyActive && old(self)@.worker.active && final(self)@
                    == old(self)@,
            },
    {
        match self.worker.start_workers() {
            Ok(()) => {
                self.healthy = true;
                Ok(())
            },
            Err(e) => Err(e),
        }
    }

    /// Stops the tunnel: its workers stop, every connection leaves the
    /// routing table and every address goes back to the pool. Sessions stay
    /// valid until they expire. A tunnel that is not running is left as it
    /// is.
    pub fn stop(&mut self) -> (res: Result<(), TunError>)
        requires
            old(self).wf(),
        ensures
            final(self).wf(),
            match res {
                Ok(()) => old(self)@.worker.active && final(self)@ == old(self)@.stopped(),
                Err(e) => e == TunError::NotActive && !old(self)@.worker.active && final(self)@
                    == old(self)@,
            },
    {
        match self.worker.stop_workers() {
            Ok(()) => {
                self.worker.clear_connections();
                self.pool.release_all();
                assert(self@.worker.connections.dom() =~= self@.pool.leased);
                Ok(())
            },
            Err(e) => Err(e),
        }
    }

    /// Takes note that a task of the tunnel has ended abnormally.
    pub fn task_failed(&mut self)
        requires
            old(self).wf(),
        ensures
            final(self).wf(),
            final(self)@ == (TunnelView { healthy: false, ..old(self)@ }),
    {
        self.healthy = false;
    }

    /// Whether the tunnel is in order: it runs and none of its tasks has
    /// ended abnormally since it was started.
    pub fn is_ok(&self) -> (ok: bool)
        ensures
            ok == (self@.healthy && self@.worker.active),
    {
        self.healthy && self.worker.is_active()
    }

    /// Decides where a packet read from the device goes; see
    /// `TunWorker::process_incoming_data`.
    pub fn route_packet(&mut self, packet: &[u8]) -> (decision: Route)
        requires
            old(self).wf(),
        ensures
            final(self).wf(),
            decision == route(ip_destination(packet@), old(self)@.worker.connections),
            final(self)@ == (TunnelView {
                worker: old(self)@.worker.routed(decision),
                ..old(self)@
            }),
    {
        self.worker.process_incoming_data(packet)
    }

    /// Decides whether a routed packet is sent; see
    /// `TunWorker::admit_datagram`.
    pub fn admit_datagram(&mut self, packet: Vec<u8>, limit: Option<usize>) -> (admission: Admission)
        requires
            old(self).wf(),
        ensures
            final(self).wf(),
            match admission {
                Admission::Transmit(datagram) => {
                    &&& limit matches Some(max)
                    &&& packet@.len() <= max
                    &&& datagram@ == packet@
                    &&& final(self)@ == old(self)@
                },
                Admission::Drop(reason) => {
                    &&& limit matches Some(max)
                    &&& packet@.len() > max
                    &&& reason == DropReason::OversizePacket
                    &&& final(self)@ == (TunnelView {
                        worker: old(self)@.worker.with_drop(reason),
                        ..old(self)@
                    })
                },
                Admission::Fail(e) => {
                    &&& limit is None
                    &&& e == TunError::NoDatagramLimit
                    &&& final(self)@ == old(self)@
                },
            },
    {
        self.worker.admit_datagram(packet, limit)
    }

    /// Takes note of how a send ended; see `TunWorker::after_send`.
    pub fn after_send(&mut self, outcome: SendOutcome) -> (res: Result<(), TunError>)
        requires
            old(self).wf(),
        ensures
            final(self).wf(),
            match outcome {
                SendOutcome::Sent => res is Ok && final(self)@ == old(self)@,
                SendOutcome::ConnectionClosed => res is Ok && final(self)@ == (TunnelView {
                    worker: old(self)@.worker.with_drop(DropReason::TransportClosed),
                    ..old(self)@
                }),
                SendOutcome::Failed => res == Err::<(), _>(TunError::Transport) && final(self)@
                    == old(self)@,
            },
    {
        self.worker.after_send(outcome)
    }

    fn kept_leases(&self, now: u64, taken: u32) -> (kept: Vec<LeaseRecord>)
        ensures
            kept.deep_view() == kept_records(self@.leases, now, self@.auth.session_ttl, taken),
    {
        let ttl = self.auth.session_ttl();
        let ghost all = self.leases.deep_view();
        let mut kept: Vec<LeaseRecord> = Vec::new();
        let mut i: usize = 0;
        while i < self.leases.len()
            invariant
                i <= self.leases.len(),
                all == self.leases.deep_view(),
                ttl == self@.auth.session_ttl,
                kept.deep_view() == kept_records(all.take(i as int), now, ttl, taken),
            decreases self.leases.len() - i,
        {
            let record = &self.leases[i];
            assert(all[i as int] == record@);
            assert(all.take(i + 1).drop_last() == all.take(i as int));
            assert(all.take(i + 1).last() == record@);
            if is_live(record.issued_at, now, ttl) && record.address != taken {
                let ghost before = kept.deep_view();
                let copy = LeaseRecord {
                    token: record.token,
                    username: record.username.clone(),
                    address: record.address,
                    issued_at: record.issued_at,
                };
                assert(copy@ == record@);
                kept.push(copy);
                assert(kept.deep_view() =~= before.push(record@));
            }
            i = i + 1;
        }
        assert(all.take(i as int) == all);
        kept
    }

    fn find_lease(&self, token: &SessionToken) -> (found: Option<usize>)
        ensures
            match found {
                Some(at) => at < self@.leases.len() && at == record_index(self@.leases, token@),
                None => record_index(self@.leases, token@) >= self@.leases.len(),
            },
    {
        let ghost all = self.leases.deep_view();
        let mut i: usize = 0;
        while i < self.leases.len()
            invariant
                i <= self.leases.len(),
                all == self.leases.deep_view(),
                forall|j: int| 0 <= j < i ==> all[j].token != token@,
            decreases self.leases.len() - i,
        {
            let record = &self.leases[i];
            assert(all[i as int] == record@);
            if same_token(&record.token, token) {
                proof {
                    lemma_record_index(all, token@, i as int);
                }
                return Some(i);
            }
            i = i + 1;
        }
        proof {
            lemma_record_index(all, token@, i as int);
        }
        None
    }

    /// Ends an authentication by password whose credential check gave
    /// `checked`, with the token that was drawn and the time `now`. On
    /// success the client gets the lowest free address, a session is opened
    /// and the connection is registered; otherwise nothing changes but the
    /// handler, which closes.
    pub fn enroll(
        &mut self,
        handler: &mut ConnectionHandler,
        username: String,
        checked: Result<(), AuthError>,
        token: Option<SessionToken>,
        now: u64,
    ) -> (reply: AuthServerMessage)
        requires
            old(self).wf(),
        ensures
            final(self).wf(),
            admission(
                old(self)@,
                old(handler)@,
                username@,
                checked is Ok,
                token,
                now,
                final(self)@,
                final(handler)@,
                reply@,
            ),
    {
        if !matches!(handler.state(), ConnectionState::Authenticating) || checked.is_err() {
            handler.refuse();
            return AuthServerMessage::Failed;
        }
        let addr = match self.pool.lease() {
            Ok(addr) => addr,
            Err(_) => {
                handler.refuse();
                return AuthServerMessage::Failed;
            },
        };
        let kept = self.kept_leases(now, addr);
        let granted = match self.auth.grant(username.as_str(), checked, token, now) {
            Ok(granted) => granted,
            Err(_) => {
                self.pool.release(addr);
                proof {
                    self.pool.lemma_wf_view();
                }
                assert(self@.pool.leased =~= old(self)@.pool.leased);
                handler.refuse();
                return AuthServerMessage::Failed;
            },
        };
        self.worker.add_connection(addr, handler.id());
        let ghost pruned = kept.deep_view();
        let mut leases = kept;
        let record = LeaseRecord {
            token: granted,
            username: username.clone(),
            address: addr,
            issued_at: now,
        };
        let ghost added = record@;
        leases.push(record);
        assert(leases.deep_view() =~= pruned.push(added));
        self.leases = leases;
        let (client_ip, mask, _) = self.pool.dhcp_info(addr);
        handler.establish(username, addr);
        proof {
            self.pool.lemma_wf_view();
        }
        assert(self@.worker.connections.dom() =~= self@.pool.leased);
        assert(old(self)@.pool.free(addr));
        AuthServerMessage::Authenticated(ipv4_octets(client_ip), ipv4_octets(mask), granted)
    }

    /// Ends an authentication by session token at the time `now`. A valid
    /// token gets its address back: if the address is still routed, the
    /// route moves to this connection; if it has been released, it is leased
    /// again. Otherwise nothing changes but the handler, which closes.
    pub fn resume(&mut self, handler: &mut ConnectionHandler, token: SessionToken, now: u64) -> (reply:
        AuthServerMessage)
        requires
            old(self).wf(),
        ensures
            final(self).wf(),
            resumed(
                old(self)@,
                old(handler)@,
                token@,
                now,
                final(self)@,
                final(handler)@,
                reply@,
            ),
    {
        if !matches!(handler.state(), ConnectionState::Authenticating) {
            handler.refuse();
            return AuthServerMessage::Failed;
        }
        let at = match self.find_lease(&token) {
            Some(at) => at,
            None => {
                handler.refuse();
                return AuthServerMessage::Failed;
            },
        };
        let record = &self.leases[at];
        assert(self@.leases[at as int] == record@);
        let username = record.username.clone();
        let addr = record.address;
        let valid = match self.auth.verify_session_token_at(username.as_str(), token, now) {
            Ok(valid) => valid,
            Err(_) => false,
        };
        if !valid {
            handler.refuse();
            return AuthServerMessage::Failed;
        }
        if self.worker.connection_for(addr).is_none() {
            if self.pool.lease_address(addr).is_err() {
                handler.refuse();
                return AuthServerMessage::Failed;
            }
        } else {
            assert(self@.pool.leased.contains(addr));
            assert(self@.pool.leased.insert(addr) =~= self@.pool.leased);
        }
        self.worker.add_connection(addr, handler.id());
        handler.establish(username, addr);
        proof {
            self.pool.lemma_wf_view();
        }
        assert(self@.worker.connections.dom() =~= self@.pool.leased);
        AuthServerMessage::Okay
    }

    /// Closes `handler`: if its address is still routed to its connection,
    /// the address leaves the routing table and then goes back to the pool.
    /// The session token stays valid until it expires.
    pub fn close_connection(&mut self, handler: &mut ConnectionHandler)
        requires
            old(self).wf(),
        ensures
            final(self).wf(),
            final(self)@ == old(self)@.closed(old(handler)@),
            final(handler)@ == old(handler)@.moved_to(ConnectionState::Closed),
    {
        if let Some(addr) = handler.client_ip() {
            if let Some(connection) = self.worker.connection_for(addr) {
                if connection == handler.id() {
                    self.worker.remove_connection(addr);
                    self.pool.release(addr);
                    proof {
                        self.pool.lemma_wf_view();
                    }
                    assert(self@.worker.connections.dom() =~= self@.pool.leased);
                }
            }
        }
        handler.close();
    }

    /// Handles the one message with which a client authenticates. The
    /// password check, the token and the time come from outside, so the
    /// contract speaks of some token and some reading `now` of the clock.
    pub fn authenticate_connection(
        &mut self,
        handler: &mut ConnectionHandler,
        message: AuthClientMessage,
    ) -> (reply: AuthServerMessage)
        requires
            old(self).wf(),
        ensures
            final(self).wf(),
            match message {
                AuthClientMessage::Authentication(username, password) => exists|
                    token: Option<SessionToken>,
                    now: u64,
                |
                    #[trigger] admission(
                        old(self)@,
                        old(handler)@,
                        username@,
                        old(self)@.auth.credential_error(username@, password@) is None,
                        token,
                        now,
                        final(self)@,
                        final(handler)@,
                        reply@,
                    ),
                AuthClientMessage::SessionToken(token) => exists|now: u64| #[trigger]
                    resumed(
                        old(self)@,
                        old(handler)@,
                        token@,
                        now,
                        final(self)@,
                        final(handler)@,
                        reply@,
                    ),
            },
    {
        let now = self.auth.now();
        match message {
            AuthClientMessage::Authentication(username, password) => {
                let checked = self.auth.check_credentials(username.as_str(), password.as_str());
                let token = match checked {
                    Ok(()) => Auth::fresh_session_token(),
                    Err(_) => None,
                };
                let ghost name = username@;
                let ghost accepted = old(self)@.auth.credential_error(name, password@) is None;
                assert(accepted == (checked is Ok));
                let reply = self.enroll(handler, username, checked, token, now);
                assert(admission(
                    old(self)@,
                    old(handler)@,
                    name,
                    accepted,
                    token,
                    now,
                    self@,
                    handler@,
                    reply@,
                ));
                reply
            },
            AuthClientMessage::SessionToken(token) => {
                let reply = self.resume(handler, token, now);
                assert(resumed(old(self)@, old(handler)@, token@, now, self@, handler@, reply@));
                reply
            },
        }
    }
}

} // verus!
