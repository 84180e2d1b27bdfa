//! The TUN worker of a tunnel: which connection a packet read from the device
//! goes to, whether it may be sent, and what is written back to the device.
//!
//! The worker owns no device and no socket. The reader task hands it what it
//! read and does what the worker answers; the writer task does the same with
//! what it takes off the write queue.

use etherparse::{IpHeader, PacketHeaders};
use std::collections::HashMap;
use vstd::prelude::*;

verus! {

broadcast use vstd::std_specs::hash::group_hash_axioms;

/// Names a transport connection; the caller keeps the connection itself.
pub type ConnectionId = u64;

/// Where a packet is headed, read from its IP header.
#[derive(Clone, Copy, Debug, PartialEq, Eq, Structural)]
pub enum Destination {
    /// The bytes do not start with IP headers that can be read.
    Malformed,
    /// An IPv4 destination, in host order.
    V4(u32),
    /// An IPv6 destination, in host order.
    V6(u128),
}

/// Why a packet was not forwarded.
#[derive(Clone, Copy, Debug, PartialEq, Eq, Structural)]
pub enum DropReason {
    MalformedPacket,
    UnknownDestination,
    OversizePacket,
    TransportClosed,
}

/// How a worker operation failed.
#[derive(Clone, Copy, Debug, PartialEq, Eq, Structural)]
pub enum TunError {
    /// The reader and writer are already running.
    AlreadyActive,
    /// The reader and writer are not running.
    NotActive,
    /// The peer has not advertised a maximum datagram size.
    NoDatagramLimit,
    /// The transport failed for another reason than a closed connection.
    Transport,
    /// The MTU does not fit the device interface.
    InvalidMtu,
}

/// What the reader does with a packet after the lookup.
#[derive(Clone, Copy, Debug, PartialEq, Eq, Structural)]
pub enum Route {
    Drop(DropReason),
    /// Ask this connection for its maximum datagram size, then call
    /// `admit_datagram`.
    Forward(ConnectionId),
}

/// What the reader does with a packet once the peer's limit is known.
#[derive(Debug)]
pub enum Admission {
    /// Send these bytes as one datagram.
    Transmit(Vec<u8>),
    Drop(DropReason),
    Fail(TunError),
}

/// How sending a datagram ended.
#[derive(Clone, Copy, Debug, PartialEq, Eq, Structural)]
pub enum SendOutcome {
    Sent,
    ConnectionClosed,
    Failed,
}

/// What the writer does next.
#[derive(Debug)]
pub enum WriterAction {
    /// Write these bytes to the device in full.
    Write(Vec<u8>),
    /// Every sender is gone: end the task.
    Finish,
}

/// Mathematical value of a `WriterAction`.
pub enum WriterStep {
    Write(Seq<u8>),
    Finish,
}

impl View for WriterAction {
    type V = WriterStep;

    open spec fn view(&self) -> WriterStep {
        match self {
            WriterAction::Write(bytes) => WriterStep::Write(bytes@),
            WriterAction::Finish => WriterStep::Finish,
        }
    }
}

/// Packets dropped so far, by reason. A counter stays at its maximum once it
/// is reached.
#[derive(Clone, Copy, Debug, PartialEq, Eq, Structural)]
pub struct DropCounters {
    pub malformed: u64,
    pub unknown_destination: u64,
    pub oversize: u64,
    pub transport_closed: u64,
}

/// `n + 1`, or `n` at the maximum.
pub open spec fn bump(n: u64) -> u64 {
    if n < u64::MAX {
        (n + 1) as u64
    } else {
        n
    }
}

impl DropCounters {
    /// The counters after one more drop for `reason`.
    pub open spec fn count(self, reason: DropReason) -> DropCounters {
        match reason {
            DropReason::MalformedPacket => DropCounters { malformed: bump(self.malformed), ..self },
            DropReason::UnknownDestination => DropCounters {
                unknown_destination: bump(self.unknown_destination),
                ..self
            },
            DropReason::OversizePacket => DropCounters { oversize: bump(self.oversize), ..self },
            DropReason::TransportClosed => DropCounters {
                transport_closed: bump(self.transport_closed),
                ..self
            },
        }
    }
}

fn bumped(n: u64) -> (m: u64)
    ensures
        m == bump(n),
{
    if n < u64::MAX {
        n + 1
    } else {
        n
    }
}

// ---------------------------------------------------------------------------
// Outside code
// ---------------------------------------------------------------------------

/// The destination that `etherparse` reads from the headers at the start of
/// `packet`: the address in the IPv4 or IPv6 header, where that header, its
/// extension headers and the transport header that follows can all be read,
/// and `Malformed` otherwise.
pub uninterp spec fn ip_destination(packet: Seq<u8>) -> Destination;

/// `PacketHeaders::from_ip_slice`: the destination address of the IPv4 or
/// IPv6 header that the packet starts with, or `Malformed` where the call
/// fails. The call reads on through the extension headers and the TCP, UDP
/// or ICMP header, so a packet with a sound IP header and a transport header
/// that is cut short is `Malformed` too.
#[verifier::external_body]
fn parse_destination(packet: &[u8]) -> (destination: Destination)
    ensures
        destination == ip_destination(packet@),
{
    match PacketHeaders::from_ip_slice(packet) {
        Ok(headers) => match headers.ip {
            Some(IpHeader::Version4(header, _)) => Destination::V4(
                u32::from_be_bytes(header.destination),
            ),
            Some(IpHeader::Version6(header, _)) => Destination::V6(
                u128::from_be_bytes(header.destination),
            ),
            None => Destination::Malformed,
        },
        Err(_) => Destination::Malformed,
    }
}

// ---------------------------------------------------------------------------
// Model
// ---------------------------------------------------------------------------

/// Where a packet with that destination goes, given the routing table.
pub open spec fn route(destination: Destination, connections: Map<u32, ConnectionId>) -> Route {
    match destination {
        Destination::Malformed => Route::Drop(DropReason::MalformedPacket),
        Destination::V4(addr) => if connections.contains_key(addr) {
            Route::Forward(connections[addr])
        } else {
            Route::Drop(DropReason::UnknownDestination)
        },
        Destination::V6(_) => Route::Drop(DropReason::UnknownDestination),
    }
}

/// What the writer does with what it took off the queue.
pub open spec fn writer_step(next: Option<Seq<u8>>) -> WriterStep {
    match next {
        Some(packet) => WriterStep::Write(packet),
        None => WriterStep::Finish,
    }
}

/// What a writer writes, in order, when it is fed `queue` item by item and
/// stops at the first `Finish`.
pub open spec fn writes(queue: Seq<Option<Seq<u8>>>) -> Seq<Seq<u8>>
    decreases queue.len(),
{
    if queue.len() == 0 {
        Seq::empty()
    } else {
        match writer_step(queue.first()) {
            WriterStep::Finish => Seq::empty(),
            WriterStep::Write(bytes) => seq![bytes] + writes(queue.drop_first()),
        }
    }
}

/// The queue that the writer sees when `packets` are enqueued and every
/// sender is then closed.
pub open spec fn closed_queue(packets: Seq<Seq<u8>>) -> Seq<Option<Seq<u8>>> {
    Seq::new(packets.len(), |i: int| Some(packets[i])).push(None)
}

/// Mathematical state of a worker.
pub struct TunWorkerView {
    pub connections: Map<u32, ConnectionId>,
    pub buffer_size: usize,
    pub active: bool,
    pub dropped: DropCounters,
}

impl TunWorkerView {
    /// The worker after one more drop for `reason`.
    pub open spec fn with_drop(self, reason: DropReason) -> TunWorkerView {
        TunWorkerView { dropped: self.dropped.count(reason), ..self }
    }

    /// The worker after the packet took `route`.
    pub open spec fn routed(self, route: Route) -> TunWorkerView {
        match route {
            Route::Drop(reason) => self.with_drop(reason),
            Route::Forward(_) => self,
        }
    }
}

/// Settings of the TUN device of a tunnel: a layer-3 device without
/// packet-information prefix, brought up at creation.
#[derive(Clone, Debug)]
pub struct TunSettings {
    pub name: String,
    pub tap: bool,
    pub packet_info: bool,
    pub up: bool,
    pub mtu: i32,
    pub address: u32,
    pub destination: u32,
    pub netmask: u32,
}

/// Checks the MTU and collects the settings of a tunnel's TUN device. The
/// caller creates the device from them.
pub fn make_tun(name: String, local_addr: u32, mask: u32, remote_addr: u32, mtu: u32) -> (res:
    Result<TunSettings, TunError>)
    ensures
        match res {
            Ok(settings) => {
                &&& mtu <= i32::MAX
                &&& settings.name@ == name@
                &&& !settings.tap
                &&& !settings.packet_info
                &&& settings.up
                &&& settings.mtu == mtu
                &&& settings.address == local_addr
                &&& settings.destination == remote_addr
                &&& settings.netmask == mask
            },
            Err(e) => e == TunError::InvalidMtu && mtu > i32::MAX,
        },
{
    if mtu > 0x7fff_ffff {
        return Err(TunError::InvalidMtu);
    }
    Ok(
        TunSettings {
            name,
            tap: false,
            packet_info: false,
            up: true,
            mtu: mtu as i32,
            address: local_addr,
            destination: remote_addr,
            netmask: mask,
        },
    )
}

/// Routing table, task state and drop counters of one tunnel's TUN device.
pub struct TunWorker {
    active_connections: HashMap<u32, ConnectionId>,
    buffer_size: usize,
    active: bool,
    dropped: DropCounters,
}

impl View for TunWorker {
    type V = TunWorkerView;

    closed spec fn view(&self) -> TunWorkerView {
        TunWorkerView {
            connections: self.active_connections@,
            buffer_size: self.buffer_size,
            active: self.active,
            dropped: self.dropped,
        }
    }
}

impl TunWorker {
    /// A stopped worker without connections that reads packets of up to
    /// `buffer_size` bytes.
    pub fn new(buffer_size: usize) -> (worker: TunWorker)
        ensures
            worker@ == (TunWorkerView {
                connections: Map::empty(),
                buffer_size,
                active: false,
                dropped: DropCounters {
                    malformed: 0,
                    unknown_destination: 0,
                    oversize: 0,
                    transport_closed: 0,
                },
            }),
    {
        let worker = TunWorker {
            active_connections: HashMap::new(),
            buffer_size,
            active: false,
            dropped: DropCounters {
                malformed: 0,
                unknown_destination: 0,
                oversize: 0,
                transport_closed: 0,
            },
        };
        assert(worker@.connections =~= Map::empty());
        worker
    }

    /// Size of the buffer that the reader reads a packet into.
    pub fn buffer_size(&self) -> (size: usize)
        ensures
            size == self@.buffer_size,
    {
        self.buffer_size
    }

    /// Whether the reader and writer are running.
    pub fn is_active(&self) -> (active: bool)
        ensures
            active == self@.active,
    {
        self.active
    }

    /// Packets dropped so far.
    pub fn dropped(&self) -> (dropped: DropCounters)
        ensures
            dropped == self@.dropped,
    {
        self.dropped
    }

    /// The connection that packets for `remote_addr` go to.
    pub fn connection_for(&self, remote_addr: u32) -> (found: Option<ConnectionId>)
        ensures
            match found {
                Some(connection) => self@.connections.contains_key(remote_addr)
                    && self@.connections[remote_addr] == connection,
                None => !self@.connections.contains_key(remote_addr),
            },
    {
        match self.active_connections.get(&remote_addr) {
            Some(connection) => Some(*connection),
            None => None,
        }
    }

    /// Routes packets for `remote_addr` to `connection` from now on.
    pub fn add_connection(&mut self, remote_addr: u32, connection: ConnectionId)
        ensures
            final(self)@ == (TunWorkerView {
                connections: old(self)@.connections.insert(remote_addr, connection),
                ..old(self)@
            }),
    {
        self.active_connections.insert(remote_addr, connection);
    }

    /// Stops routing packets for `remote_addr` and returns the connection
    /// they went to.
    pub fn remove_connection(&mut self, remote_addr: u32) -> (removed: Option<ConnectionId>)
        ensures
            final(self)@ == (TunWorkerView {
                connections: old(self)@.connections.remove(remote_addr),
                ..old(self)@
            }),
            match removed {
                Some(connection) => old(self)@.connections.contains_key(remote_addr) && old(self)@.connections[remote_addr] == connection,
                None => !old(self)@.connections.contains_key(remote_addr),
            },
    {
        self.active_connections.remove(&remote_addr)
    }

    /// Forgets every connection.
    pub fn clear_connections(&mut self)
        ensures
            final(self)@ == (TunWorkerView { connections: Map::empty(), ..old(self)@ }),
    {
        self.active_connections.clear();
        assert(self@.connections =~= Map::empty());
    }

    /// Marks the reader and writer as running, unless they already are. The
    /// caller spawns the two tasks when this succeeds.
    pub fn start_workers(&mut self) -> (res: Result<(), TunError>)
        ensures
            match res {
                Ok(()) => !old(self)@.active && final(self)@ == (TunWorkerView {
                    active: true,
                    ..old(self)@
                }),
                Err(e) => e == TunError::AlreadyActive && old(self)@.active && final(self)@ == old(self)@,
            },
    {
        if self.active {
            return Err(TunError::AlreadyActive);
        }
        self.active = true;
        Ok(())
    }

    /// Marks the reader and writer as stopped, unless they already are. The
    /// caller cancels the two tasks when this succeeds.
    pub fn stop_workers(&mut self) -> (res: Result<(), TunError>)
        ensures
            match res {
                Ok(()) => old(self)@.active && final(self)@ == (TunWorkerView {
                    active: false,
                    ..old(self)@
                }),
                Err(e) => e == TunError::NotActive && !old(self)@.active && final(self)@ == old(self)@,
            },
    {
        if !self.active {
            return Err(TunError::NotActive);
        }
        self.active = false;
        Ok(())
    }

    fn count_drop(&mut self, reason: DropReason)
        ensures
            final(self)@ == old(self)@.with_drop(reason),
    {
        match reason {
            DropReason::MalformedPacket => {
                self.dropped.malformed = bumped(self.dropped.malformed);
            },
            DropReason::UnknownDestination => {
                self.dropped.unknown_destination = bumped(self.dropped.unknown_destination);
            },
            DropReason::OversizePacket => {
                self.dropped.oversize = bumped(self.dropped.oversize);
            },
            DropReason::TransportClosed => {
                self.dropped.transport_closed = bumped(self.dropped.transport_closed);
            },
        }
    }

    /// Looks a destination up in the routing table and counts the packet if
    /// it is dropped.
    pub fn route_destination(&mut self, destination: Destination) -> (decision: Route)
        ensures
            decision == route(destination, old(self)@.connections),
            final(self)@ == old(self)@.routed(decision),
    {
        let decision = match destination {
            Destination::Malformed => Route::Drop(DropReason::MalformedPacket),
            Destination::V4(addr) => match self.connection_for(addr) {
                Some(connection) => Route::Forward(connection),
                None => Route::Drop(DropReason::UnknownDestination),
            },
            Destination::V6(_) => Route::Drop(DropReason::UnknownDestination),
        };
        if let Route::Drop(reason) = decision {
            self.count_drop(reason);
        }
        decision
    }

    /// Decides where a packet read from the device goes: to the connection
    /// registered for its destination address, or nowhere.
    pub fn process_incoming_data(&mut self, packet: &[u8]) -> (decision: Route)
        ensures
            decision == route(ip_destination(packet@), old(self)@.connections),
            final(self)@ == old(self)@.routed(decision),
    {
        let destination = parse_destination(packet);
        self.route_destination(destination)
    }

    /// Decides whether a routed packet is sent, given the maximum datagram
    /// size that its connection reports. A packet is sent whole or not at
    /// all; without a limit the reader fails.
    pub fn admit_datagram(&mut self, packet: Vec<u8>, limit: Option<usize>) -> (admission: Admission)
        ensures
            match admission {
                Admission::Transmit(datagram) => {
                    &&& limit matches Some(max)
                    &&& packet@.len() <= max
                    &&& datagram@ == packet@
                    &&& final(self)@ == old(self)@
                },
                Admission::Drop(reason) => {
                    &&& limit matches Some(max)
                    &&& packet@.len() > max
                    &&& reason == DropReason::OversizePacket
                    &&& final(self)@ == old(self)@.with_drop(reason)
                },
                Admission::Fail(e) => {
                    &&& limit is None
                    &&& e == TunError::NoDatagramLimit
                    &&& final(self)@ == old(self)@
                },
            },
    {
        match limit {
            None => Admission::Fail(TunError::NoDatagramLimit),
            Some(max) => {
                if packet.len() > max {
                    self.count_drop(DropReason::OversizePacket);
                    Admission::Drop(DropReason::OversizePacket)
                } else {
                    Admission::Transmit(packet)
                }
            },
        }
    }

    /// Takes note of how a send ended: a closed connection costs the packet
    /// and nothing else, any other failure ends the reader.
    pub fn after_send(&mut self, outcome: SendOutcome) -> (res: Result<(), TunError>)
        ensures
            match outcome {
                SendOutcome::Sent => res is Ok && final(self)@ == old(self)@,
                SendOutcome::ConnectionClosed => res is Ok && final(self)@ == old(self)@.with_drop(
                    DropReason::TransportClosed,
                ),
                SendOutcome::Failed => res == Err::<(), _>(TunError::Transport) && final(self)@
                    == old(self)@,
            },
    {
        match outcome {
            SendOutcome::Sent => Ok(()),
            SendOutcome::ConnectionClosed => {
                self.count_drop(DropReason::TransportClosed);
                Ok(())
            },
            SendOutcome::Failed => Err(TunError::Transport),
        }
    }

    /// Decides what the writer does with what it took off the write queue:
    /// a packet is written as it is, the end of the queue ends the task.
    pub fn process_outgoing_data(next: Option<Vec<u8>>) -> (action: WriterAction)
        ensures
            action@ == writer_step(
                match next {
                    Some(packet) => Some(packet@),
                    None => None,
                },
            ),
    {
        match next {
            Some(packet) => WriterAction::Write(packet),
            None => WriterAction::Finish,
        }
    }
}

/// Data-plane preservation: a writer that runs until the queue is closed
/// writes exactly the packets that were enqueued, each once, byte for byte
/// and in the order in which they were enqueued.
pub proof fn lemma_writer_preserves_packets(packets: Seq<Seq<u8>>)
    ensures
        writes(closed_queue(packets)) == packets,
    decreases packets.len(),
{
    let queue = closed_queue(packets);
    if packets.len() == 0 {
        assert(queue.first() == None::<Seq<u8>>);
        assert(writes(queue) =~= packets);
    } else {
        let rest = packets.drop_first();
        assert(queue.first() == Some(packets[0]));
        assert(queue.drop_first() =~= closed_queue(rest));
        lemma_writer_preserves_packets(rest);
        assert(seq![packets[0]] + rest =~= packets);
    }
}

} // verus!
