//! Leasing of IPv4 addresses out of one CIDR block.
//!
//! Addresses are plain `u32` values in host order (`10.0.0.2` is
//! `0x0A00_0002`). The network address, the broadcast address and the gateway
//! are never handed out. `lease` always returns the lowest free address, so a
//! given history of calls has exactly one outcome.

use std::collections::HashSet;
use vstd::multiset::Multiset;
use vstd::prelude::*;

verus! {

broadcast use vstd::std_specs::hash::group_hash_axioms;

/// Why a pool could not be built or an address could not be leased.
#[derive(Clone, Copy, Debug, PartialEq, Eq, Structural)]
pub enum PoolError {
    /// The prefix length is above 32.
    InvalidPrefix,
    /// The network address has bits set below the prefix.
    MisalignedNetwork,
    /// The gateway is not a host address of the block.
    GatewayNotHost,
    /// Every host address is leased.
    PoolExhausted,
    /// The address asked for is reserved, leased or outside the block.
    AddressUnavailable,
}

/// The four bytes of an address, highest first.
pub open spec fn octets(addr: u32) -> Seq<u8> {
    seq![
        (addr / 0x100_0000) as u8,
        (addr / 0x1_0000 % 0x100) as u8,
        (addr / 0x100 % 0x100) as u8,
        (addr % 0x100) as u8,
    ]
}

/// The address `a.b.c.d` as a number.
pub open spec fn dotted(a: u8, b: u8, c: u8, d: u8) -> int {
    a * 0x100_0000 + b * 0x1_0000 + c * 0x100 + d
}

/// The four bytes of an address in network order.
pub fn ipv4_octets(addr: u32) -> (bytes: Vec<u8>)
    ensures
        bytes@ == octets(addr),
{
    let mut bytes: Vec<u8> = Vec::new();
    bytes.push((addr / 0x100_0000) as u8);
    bytes.push((addr / 0x1_0000 % 0x100) as u8);
    bytes.push((addr / 0x100 % 0x100) as u8);
    bytes.push((addr % 0x100) as u8);
    assert(bytes@ =~= octets(addr));
    bytes
}

/// The address `a.b.c.d`.
pub fn ipv4_from_octets(a: u8, b: u8, c: u8, d: u8) -> (addr: u32)
    ensures
        addr == dotted(a, b, c, d),
        octets(addr) == seq![a, b, c, d],
{
    let high: u32 = (a as u32) * 0x100_0000 + (b as u32) * 0x1_0000;
    let addr: u32 = high + (c as u32) * 0x100 + (d as u32);
    assert(addr / 0x100_0000 == a && addr / 0x1_0000 % 0x100 == b && addr / 0x100 % 0x100 == c
        && addr % 0x100 == d) by (bit_vector)
        requires
            addr == (a as u32) * 0x100_0000 + (b as u32) * 0x1_0000 + (c as u32) * 0x100 + (
            d as u32),
    ;
    assert(octets(addr) =~= seq![a, b, c, d]);
    addr
}

/// Number of addresses in a block with the given prefix length.
pub open spec fn block_size(prefix_len: u8) -> int
    decreases 32 - prefix_len,
{
    if prefix_len >= 32 {
        1
    } else {
        2 * block_size((prefix_len + 1) as u8)
    }
}

/// What is wrong with a pool configuration, if anything. The checks are made
/// in the order of the variants.
pub open spec fn config_error(network: u32, prefix_len: u8, gateway: u32) -> Option<PoolError> {
    if prefix_len > 32 {
        Some(PoolError::InvalidPrefix)
    } else if network as int % block_size(prefix_len) != 0 {
        Some(PoolError::MisalignedNetwork)
    } else if !(network < gateway && gateway < network + block_size(prefix_len) - 1) {
        Some(PoolError::GatewayNotHost)
    } else {
        None
    }
}

/// One operation on a pool.
pub enum PoolOp {
    Lease,
    Release(u32),
}

/// Mathematical state of a pool: its block, its gateway and the set of
/// addresses that are currently leased.
pub struct PoolView {
    pub network: u32,
    pub prefix_len: u8,
    pub gateway: u32,
    pub leased: Set<u32>,
}

impl PoolView {
    /// Highest address of the block.
    pub open spec fn broadcast(self) -> int {
        self.network + block_size(self.prefix_len) - 1
    }

    /// Netmask of the block as a number.
    pub open spec fn mask(self) -> int {
        0x1_0000_0000 - block_size(self.prefix_len)
    }

    /// `addr` lies in the block.
    pub open spec fn contains(self, addr: u32) -> bool {
        self.network <= addr && addr <= self.broadcast()
    }

    /// `addr` is one of the three addresses that are never leased.
    pub open spec fn reserved(self, addr: u32) -> bool {
        addr == self.network || addr == self.broadcast() || addr == self.gateway
    }

    /// `addr` may be leased at all.
    pub open spec fn usable(self, addr: u32) -> bool {
        self.contains(addr) && !self.reserved(addr)
    }

    /// `addr` may be leased now.
    pub open spec fn free(self, addr: u32) -> bool {
        self.usable(addr) && !self.leased.contains(addr)
    }

    /// `addr` is the free address that `lease` picks.
    pub open spec fn lowest_free(self, addr: u32) -> bool {
        self.free(addr) && forall|other: u32| self.free(other) ==> addr <= other
    }

    /// No address is free.
    pub open spec fn exhausted(self) -> bool {
        forall|addr: u32| !self.free(addr)
    }

    /// The configuration is valid and only usable addresses are leased.
    pub open spec fn wf(self) -> bool {
        &&& config_error(self.network, self.prefix_len, self.gateway) is None
        &&& forall|addr: u32| self.leased.contains(addr) ==> self.usable(addr)
    }

    /// The pool after `addr` was leased.
    pub open spec fn with_lease(self, addr: u32) -> PoolView {
        PoolView { leased: self.leased.insert(addr), ..self }
    }

    /// The pool after `addr` was released.
    pub open spec fn without_lease(self, addr: u32) -> PoolView {
        PoolView { leased: self.leased.remove(addr), ..self }
    }

    /// The address that the next lease returns, where one is free.
    pub open spec fn next_lease(self) -> u32 {
        choose|addr: u32| self.lowest_free(addr)
    }

    /// The pool after one operation. A lease on an exhausted pool and the
    /// release of an address that is not leased change nothing.
    pub open spec fn after(self, op: PoolOp) -> PoolView {
        match op {
            PoolOp::Lease => if self.exhausted() {
                self
            } else {
                self.with_lease(self.next_lease())
            },
            PoolOp::Release(addr) => self.without_lease(addr),
        }
    }

    /// The pool after a sequence of operations.
    pub open spec fn run(self, ops: Seq<PoolOp>) -> PoolView
        decreases ops.len(),
    {
        if ops.len() == 0 {
            self
        } else {
            self.run(ops.drop_last()).after(ops.last())
        }
    }

    /// The addresses that the leases of `ops` return, each as often as it is
    /// returned.
    pub open spec fn granted(self, ops: Seq<PoolOp>) -> Multiset<u32>
        decreases ops.len(),
    {
        if ops.len() == 0 {
            Multiset::empty()
        } else {
            let before = self.run(ops.drop_last());
            let earlier = self.granted(ops.drop_last());
            match ops.last() {
                PoolOp::Lease => if before.exhausted() {
                    earlier
                } else {
                    earlier.insert(before.next_lease())
                },
                PoolOp::Release(_) => earlier,
            }
        }
    }

    /// The addresses that the releases of `ops` take back, each as often as
    /// it is taken back. A release of an address that is not leased takes
    /// nothing back.
    pub open spec fn returned(self, ops: Seq<PoolOp>) -> Multiset<u32>
        decreases ops.len(),
    {
        if ops.len() == 0 {
            Multiset::empty()
        } else {
            let before = self.run(ops.drop_last());
            let earlier = self.returned(ops.drop_last());
            match ops.last() {
                PoolOp::Lease => earlier,
                PoolOp::Release(addr) => if before.leased.contains(addr) {
                    earlier.insert(addr)
                } else {
                    earlier
                },
            }
        }
    }

    /// 1 if `addr` is leased, 0 if it is not.
    pub open spec fn holds(self, addr: u32) -> int {
        if self.leased.contains(addr) {
            1
        } else {
            0
        }
    }
}

/// Below a free address there is a lowest free address.
proof fn lemma_lowest_free_exists(pool: PoolView, addr: u32)
    requires
        pool.free(addr),
    ensures
        exists|lowest: u32| pool.lowest_free(lowest),
    decreases addr,
{
    if exists|below: u32| below < addr && pool.free(below) {
        let below = choose|below: u32| below < addr && pool.free(below);
        lemma_lowest_free_exists(pool, below);
    } else {
        assert(pool.lowest_free(addr));
    }
}

/// On a pool that is not exhausted, `next_lease` is the lowest free address,
/// and it is the only one.
pub proof fn lemma_next_lease(pool: PoolView)
    requires
        !pool.exhausted(),
    ensures
        pool.lowest_free(pool.next_lease()),
        forall|addr: u32| pool.lowest_free(addr) ==> addr == pool.next_lease(),
{
    let some = choose|addr: u32| pool.free(addr);
    lemma_lowest_free_exists(pool, some);
}

/// An operation keeps the pool well-formed.
pub proof fn lemma_after_wf(pool: PoolView, op: PoolOp)
    requires
        pool.wf(),
    ensures
        pool.after(op).wf(),
{
    if op is Lease && !pool.exhausted() {
        lemma_next_lease(pool);
    }
    let post = pool.after(op);
    assert forall|addr: u32| post.leased.contains(addr) implies post.usable(addr) by {
        if !pool.leased.contains(addr) {
            assert(op is Lease && !pool.exhausted() && addr == pool.next_lease());
            assert(pool.free(addr));
        }
        assert(pool.usable(addr));
    }
}

/// Lease/release round trip: after any sequence of leases and releases the
/// pool is well-formed, so every leased address lies in the block and is
/// neither its network address, nor its broadcast address, nor the gateway;
/// and an address is leased exactly as often as it was leased before, plus
/// the times it was granted, minus the times it was taken back.
pub proof fn lemma_lease_release_round_trip(pool: PoolView, ops: Seq<PoolOp>)
    requires
        pool.wf(),
    ensures
        pool.run(ops).wf(),
        forall|addr: u32| pool.run(ops).leased.contains(addr) ==> pool.usable(addr),
        forall|addr: u32| #[trigger]
            pool.run(ops).holds(addr) == pool.holds(addr) + pool.granted(ops).count(addr)
                - pool.returned(ops).count(addr),
    decreases ops.len(),
{
    if ops.len() > 0 {
        let before = pool.run(ops.drop_last());
        lemma_lease_release_round_trip(pool, ops.drop_last());
        lemma_after_wf(before, ops.last());
        lemma_run_keeps_block(pool, ops);
        if ops.last() is Lease && !before.exhausted() {
            lemma_next_lease(before);
        }
        assert forall|addr: u32| #[trigger]
            pool.run(ops).holds(addr) == pool.holds(addr) + pool.granted(ops).count(addr)
                - pool.returned(ops).count(addr) by {
            assert(before.holds(addr) == pool.holds(addr) + pool.granted(ops.drop_last()).count(
                addr,
            ) - pool.returned(ops.drop_last()).count(addr));
        }
        assert forall|addr: u32| pool.run(ops).leased.contains(addr) implies pool.usable(addr) by {
            assert(pool.run(ops).usable(addr));
        }
    }
}

/// Operations change what is leased and nothing else.
pub proof fn lemma_run_keeps_block(pool: PoolView, ops: Seq<PoolOp>)
    ensures
        pool.run(ops).network == pool.network,
        pool.run(ops).prefix_len == pool.prefix_len,
        pool.run(ops).gateway == pool.gateway,
    decreases ops.len(),
{
    if ops.len() > 0 {
        lemma_run_keeps_block(pool, ops.drop_last());
    }
}

/// An address stays leased as long as it is not released.
pub proof fn lemma_stays_leased(pool: PoolView, ops: Seq<PoolOp>, addr: u32)
    requires
        pool.leased.contains(addr),
        forall|i: int| 0 <= i < ops.len() ==> ops[i] != PoolOp::Release(addr),
    ensures
        pool.run(ops).leased.contains(addr),
    decreases ops.len(),
{
    if ops.len() > 0 {
        let earlier = ops.drop_last();
        assert forall|i: int| 0 <= i < earlier.len() implies earlier[i] != PoolOp::Release(
            addr,
        ) by {
            assert(earlier[i] == ops[i]);
        }
        lemma_stays_leased(pool, earlier, addr);
        assert(ops.last() == ops[ops.len() - 1]);
    }
}

/// Lease uniqueness: where a lease succeeds, and the address it returned is
/// not released by the operations `between`, a later lease that succeeds
/// returns another address.
pub proof fn lemma_leases_are_distinct(pool: PoolView, between: Seq<PoolOp>)
    requires
        !pool.exhausted(),
        forall|i: int|
            0 <= i < between.len() ==> between[i] != PoolOp::Release(pool.next_lease()),
        !pool.after(PoolOp::Lease).run(between).exhausted(),
    ensures
        pool.after(PoolOp::Lease).run(between).next_lease() != pool.next_lease(),
{
    let first = pool.next_lease();
    let later = pool.after(PoolOp::Lease).run(between);
    lemma_stays_leased(pool.after(PoolOp::Lease), between, first);
    lemma_next_lease(later);
}

/// Bounds of `block_size`, and its value where the prefix is out of range.
pub proof fn lemma_block_size_bounds(prefix_len: u8)
    ensures
        1 <= block_size(prefix_len) <= 0x1_0000_0000,
        prefix_len >= 32 ==> block_size(prefix_len) == 1,
{
    lemma_block_size_positive(prefix_len);
    if prefix_len <= 32 {
        lemma_blocks_tile(prefix_len);
        assert(block_size(0) == 0x1_0000_0000) by {
            reveal_with_fuel(block_size, 34);
        }
        let size = block_size(prefix_len);
        let count = block_count(prefix_len);
        assert(size <= count * size) by (nonlinear_arith)
            requires
                count >= 1,
                size >= 1,
        ;
    }
}

proof fn lemma_block_size_positive(prefix_len: u8)
    ensures
        1 <= block_size(prefix_len),
    decreases 32 - prefix_len,
{
    if prefix_len < 32 {
        lemma_block_size_positive((prefix_len + 1) as u8);
    }
}

proof fn lemma_block_size_step(prefix_len: u8)
    requires
        prefix_len < 32,
    ensures
        block_size(prefix_len) == 2 * block_size((prefix_len + 1) as u8),
{
}

/// Number of blocks of one prefix length that make up the address space.
spec fn block_count(prefix_len: u8) -> int
    decreases prefix_len,
{
    if prefix_len == 0 {
        1
    } else {
        2 * block_count((prefix_len - 1) as u8)
    }
}

proof fn lemma_blocks_tile(prefix_len: u8)
    requires
        prefix_len <= 32,
    ensures
        block_count(prefix_len) * block_size(prefix_len) == block_size(0),
        block_count(prefix_len) >= 1,
    decreases prefix_len,
{
    if prefix_len > 0 {
        let above = (prefix_len - 1) as u8;
        lemma_blocks_tile(above);
        lemma_block_size_step(above);
        assert((2 * block_count(above)) * block_size(prefix_len) == block_count(above) * (2
            * block_size(prefix_len))) by (nonlinear_arith);
    }
}

/// An aligned block ends inside the address space.
pub proof fn lemma_aligned_block_fits(network: u32, prefix_len: u8)
    requires
        prefix_len <= 32,
        network as int % block_size(prefix_len) == 0,
    ensures
        network + block_size(prefix_len) <= 0x1_0000_0000,
{
    lemma_blocks_tile(prefix_len);
    lemma_block_size_bounds(prefix_len);
    assert(block_size(0) == 0x1_0000_0000) by {
        reveal_with_fuel(block_size, 34);
    }
    let size = block_size(prefix_len);
    let count = block_count(prefix_len);
    let index = network as int / size;
    assert(network == index * size) by (nonlinear_arith)
        requires
            size > 0,
            network as int % size == 0,
            index == network as int / size,
    ;
    assert(index < count) by (nonlinear_arith)
        requires
            index * size < count * size,
            size > 0,
    ;
    assert((index + 1) * size <= count * size) by (nonlinear_arith)
        requires
            index + 1 <= count,
            size > 0,
    ;
    assert((index + 1) * size == index * size + size) by (nonlinear_arith);
}

/// The IPv4 address pool of one tunnel.
pub struct AddressPool {
    network: u32,
    prefix_len: u8,
    gateway: u32,
    size: u64,
    leased: HashSet<u32>,
    /// No address below this one is free.
    cursor: u64,
}

impl View for AddressPool {
    type V = PoolView;

    closed spec fn view(&self) -> PoolView {
        PoolView {
            network: self.network,
            prefix_len: self.prefix_len,
            gateway: self.gateway,
            leased: self.leased@,
        }
    }
}

impl AddressPool {
    /// The invariant of the representation; it implies `self@.wf()`.
    pub closed spec fn wf(&self) -> bool {
        &&& self@.wf()
        &&& self.size == block_size(self.prefix_len)
        &&& self.network + self.size <= 0x1_0000_0000
        &&& self.network <= self.cursor <= self.network + self.size
        &&& forall|addr: u32| addr < self.cursor ==> !self@.free(addr)
    }

    /// A well-formed pool has a well-formed state.
    pub proof fn lemma_wf_view(&self)
        requires
            self.wf(),
        ensures
            self@.wf(),
    {
    }

    /// Builds the pool of the block `network/prefix_len` with nothing leased.
    pub fn new(network: u32, prefix_len: u8, gateway: u32) -> (res: Result<AddressPool, PoolError>)
        ensures
            match res {
                Ok(pool) => {
                    &&& config_error(network, prefix_len, gateway) is None
                    &&& pool.wf()
                    &&& pool@ == (PoolView { network, prefix_len, gateway, leased: Set::empty() })
                },
                Err(e) => config_error(network, prefix_len, gateway) == Some(e),
            },
    {
        if prefix_len > 32 {
            return Err(PoolError::InvalidPrefix);
        }
        let size = Self::size_of_block(prefix_len);
        proof {
            lemma_block_size_bounds(prefix_len);
        }
        if network as u64 % size != 0 {
            return Err(PoolError::MisalignedNetwork);
        }
        proof {
            lemma_aligned_block_fits(network, prefix_len);
        }
        let broadcast: u64 = network as u64 + size - 1;
        if !(network < gateway && (gateway as u64) < broadcast) {
            return Err(PoolError::GatewayNotHost);
        }
        let pool = AddressPool {
            network,
            prefix_len,
            gateway,
            size,
            leased: HashSet::new(),
            cursor: network as u64,
        };
        assert(pool@.leased =~= Set::empty());
        Ok(pool)
    }

    fn size_of_block(prefix_len: u8) -> (size: u64)
        requires
            prefix_len <= 32,
        ensures
            size == block_size(prefix_len),
    {
        let mut size: u64 = 1;
        let mut len: u8 = 32;
        while len > prefix_len
            invariant
                prefix_len <= len <= 32,
                size == block_size(len),
                size <= 0x1_0000_0000,
            decreases len,
        {
            len = len - 1;
            proof {
                lemma_block_size_step(len);
                lemma_block_size_bounds(len);
            }
            size = size * 2;
        }
        size
    }

    /// The gateway of the tunnel.
    pub fn gateway(&self) -> (addr: u32)
        ensures
            addr == self@.gateway,
    {
        self.gateway
    }

    /// The netmask of the block.
    pub fn mask(&self) -> (mask: u32)
        requires
            self.wf(),
        ensures
            mask == self@.mask(),
    {
        proof {
            lemma_block_size_bounds(self.prefix_len);
        }
        (0x1_0000_0000u64 - self.size) as u32
    }

    /// What a client is told about its lease: its address, the netmask and
    /// the gateway.
    pub fn dhcp_info(&self, client_ip: u32) -> (info: (u32, u32, u32))
        requires
            self.wf(),
        ensures
            info == (client_ip, self@.mask() as u32, self@.gateway),
    {
        (client_ip, self.mask(), self.gateway)
    }

    /// Whether `addr` is leased at the moment.
    pub fn is_leased(&self, addr: u32) -> (leased: bool)
        ensures
            leased == self@.leased.contains(addr),
    {
        self.leased.contains(&addr)
    }

    /// Leases the lowest free address, or reports that none is free.
    pub fn lease(&mut self) -> (res: Result<u32, PoolError>)
        requires
            old(self).wf(),
        ensures
            final(self).wf(),
            final(self)@ == old(self)@.after(PoolOp::Lease),
            match res {
                Ok(addr) => old(self)@.lowest_free(addr) && final(self)@ == old(self)@.with_lease(
                    addr,
                ),
                Err(e) => e == PoolError::PoolExhausted && old(self)@.exhausted() && final(self)@
                    == old(self)@,
            },
    {
        let end: u64 = self.network as u64 + self.size;
        proof {
            lemma_block_size_bounds(self.prefix_len);
        }
        while self.cursor < end
            invariant
                self.wf(),
                self@ == old(self)@,
                end == self.network + self.size,
            decreases end - self.cursor,
        {
            let candidate: u32 = self.cursor as u32;
            let reserved = candidate == self.network || self.cursor == end - 1 || candidate
                == self.gateway;
            if !reserved && !self.leased.contains(&candidate) {
                assert(old(self)@.free(candidate));
                assert forall|other: u32| old(self)@.free(other) implies candidate <= other by {
                    assert(!self@.free(other) || other >= self.cursor);
                }
                self.leased.insert(candidate);
                self.cursor = self.cursor + 1;
                assert(self@.leased =~= old(self)@.leased.insert(candidate));
                assert forall|other: u32| other < self.cursor implies !self@.free(other) by {
                    assert(!old(self)@.free(other) || other == candidate);
                }
                assert forall|other: u32| self@.leased.contains(other) implies self@.usable(
                    other,
                ) by {
                    assert(old(self)@.leased.contains(other) || other == candidate);
                    assert(old(self)@.usable(other));
                }
                proof {
                    lemma_next_lease(old(self)@);
                }
                return Ok(candidate);
            }
            assert(!self@.free(candidate));
            self.cursor = self.cursor + 1;
        }
        assert forall|addr: u32| !self@.free(addr) by {
            assert(addr < self.cursor || !self@.contains(addr));
        }
        Err(PoolError::PoolExhausted)
    }

    /// Leases `addr` itself if it is free.
    pub fn lease_address(&mut self, addr: u32) -> (res: Result<(), PoolError>)
        requires
            old(self).wf(),
        ensures
            final(self).wf(),
            match res {
                Ok(()) => old(self)@.free(addr) && final(self)@ == old(self)@.with_lease(addr),
                Err(e) => e == PoolError::AddressUnavailable && !old(self)@.free(addr) && final(self)@ == old(self)@,
            },
    {
        proof {
            lemma_block_size_bounds(self.prefix_len);
        }
        let last: u64 = self.network as u64 + self.size - 1;
        let inside = self.network < addr && (addr as u64) < last;
        if !inside || addr == self.gateway || self.leased.contains(&addr) {
            return Err(PoolError::AddressUnavailable);
        }
        self.leased.insert(addr);
        assert(self@.leased =~= old(self)@.leased.insert(addr));
        assert forall|other: u32| other < self.cursor implies !self@.free(other) by {
            assert(!old(self)@.free(other));
        }
        assert forall|other: u32| self@.leased.contains(other) implies self@.usable(other) by {
            assert(old(self)@.leased.contains(other) || other == addr);
            assert(old(self)@.usable(other) || other == addr);
        }
        Ok(())
    }

    /// Returns every address to the pool.
    pub fn release_all(&mut self)
        requires
            old(self).wf(),
        ensures
            final(self).wf(),
            final(self)@ == (PoolView { leased: Set::empty(), ..old(self)@ }),
    {
        self.cursor = self.network as u64;
        self.leased.clear();
        assert(self@.leased =~= Set::empty());
    }

    /// Returns `addr` to the pool. The result says whether it was leased; if
    /// it was not, nothing changes.
    pub fn release(&mut self, addr: u32) -> (was_leased: bool)
        requires
            old(self).wf(),
        ensures
            final(self).wf(),
            was_leased == old(self)@.leased.contains(addr),
            final(self)@ == old(self)@.without_lease(addr),
            final(self)@ == old(self)@.after(PoolOp::Release(addr)),
    {
        let was_leased = self.leased.remove(&addr);
        if was_leased && (addr as u64) < self.cursor {
            assert(old(self)@.leased.contains(addr) && old(self)@.usable(addr));
            self.cursor = addr as u64;
        }
        assert(self@.leased =~= old(self)@.leased.remove(addr));
        assert forall|other: u32| other < self.cursor implies !self@.free(other) by {
            assert(!old(self)@.free(other) || other == addr);
        }
        assert forall|other: u32| self@.leased.contains(other) implies self@.usable(other) by {
            assert(old(self)@.leased.contains(other));
            assert(old(self)@.usable(other));
        }
        was_leased
    }
}

} // verus!
