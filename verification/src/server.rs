//! The server supervisor: it starts every tunnel, then checks each of them
//! at a fixed cadence and restarts those that have failed.
//!
//! The supervisor is built from the configurations of the tunnels and
//! refuses the list at the first tunnel that cannot be built from its own.
//! After that it decides and the caller acts: `pending` names the action to
//! carry out, `run` takes how it ended and names the next one. Tunnels are
//! known by their position in the list.

pub mod address_pool;
pub mod connection;
pub mod tunnel;

use crate::server::address_pool::{config_error, AddressPool, PoolError};
use vstd::prelude::*;

verus! {

/// What a tunnel is built from.
#[derive(Clone, Debug)]
pub struct TunnelConfig {
    pub name: String,
    /// Network address of the tunnel's block.
    pub network: u32,
    /// Prefix length of the tunnel's block.
    pub prefix_len: u8,
    /// Address of the server in the tunnel.
    pub gateway: u32,
    /// MTU of the tunnel's device.
    pub mtu: u32,
}

/// Mathematical value of a `TunnelConfig`.
pub struct TunnelConfigView {
    pub name: Seq<char>,
    pub network: u32,
    pub prefix_len: u8,
    pub gateway: u32,
    pub mtu: u32,
}

impl View for TunnelConfig {
    type V = TunnelConfigView;

    open spec fn view(&self) -> TunnelConfigView {
        TunnelConfigView {
            name: self.name@,
            network: self.network,
            prefix_len: self.prefix_len,
            gateway: self.gateway,
            mtu: self.mtu,
        }
    }
}

impl DeepView for TunnelConfig {
    type V = TunnelConfigView;

    open spec fn deep_view(&self) -> TunnelConfigView {
        self@
    }
}

/// Why a tunnel cannot be built from its configuration.
#[derive(Clone, Copy, Debug, PartialEq, Eq, Structural)]
pub enum ConfigFault {
    /// The block or the gateway is refused by the address pool.
    Pool(PoolError),
    /// The MTU does not fit the device interface.
    Mtu,
    /// An earlier tunnel of the list has the same name.
    DuplicateName,
}

/// The first tunnel of the list that cannot be built, and why.
#[derive(Clone, Copy, Debug, PartialEq, Eq, Structural)]
pub struct ConfigError {
    pub tunnel: usize,
    pub fault: ConfigFault,
}

/// What is wrong with a tunnel configuration, if anything: the pool is
/// looked at first, then the MTU.
pub open spec fn config_fault(config: TunnelConfigView) -> Option<ConfigFault> {
    match config_error(config.network, config.prefix_len, config.gateway) {
        Some(e) => Some(ConfigFault::Pool(e)),
        None => if config.mtu > i32::MAX {
            Some(ConfigFault::Mtu)
        } else {
            None
        },
    }
}

/// An earlier tunnel of the list has the name of the tunnel at `at`.
pub open spec fn name_taken(configs: Seq<TunnelConfigView>, at: int) -> bool {
    exists|j: int| 0 <= j < at && (#[trigger] configs[j]).name == configs[at].name
}

/// Why the tunnel at `at` cannot be built as part of the list, if it cannot:
/// its own configuration is looked at first, then its name.
pub open spec fn tunnel_fault(configs: Seq<TunnelConfigView>, at: int) -> Option<ConfigFault> {
    match config_fault(configs[at]) {
        Some(fault) => Some(fault),
        None => if name_taken(configs, at) {
            Some(ConfigFault::DuplicateName)
        } else {
            None
        },
    }
}

/// None of the first `upto` tunnels of the list has a fault.
pub open spec fn faultless(configs: Seq<TunnelConfigView>, upto: int) -> bool {
    forall|i: int| 0 <= i < upto && i < configs.len() ==> tunnel_fault(configs, i) is None
}

/// No two tunnels of the list have the same name.
pub open spec fn names_distinct(configs: Seq<TunnelConfigView>) -> bool {
    forall|i: int, j: int|
        0 <= i < j < configs.len() ==> (#[trigger] configs[i]).name != (#[trigger] configs[j]).name
}

/// A list without fault has no name twice.
pub proof fn lemma_faultless_names_distinct(configs: Seq<TunnelConfigView>)
    requires
        faultless(configs, configs.len() as int),
    ensures
        names_distinct(configs),
{
    assert forall|i: int, j: int| 0 <= i < j < configs.len() implies (#[trigger] configs[i]).name
        != (#[trigger] configs[j]).name by {
        assert(tunnel_fault(configs, j) is None);
        assert(!name_taken(configs, j));
    }
}

impl TunnelConfig {
    /// Tells whether a tunnel can be built from this configuration.
    pub fn check(&self) -> (res: Result<(), ConfigFault>)
        ensures
            match res {
                Ok(()) => config_fault(self@) is None,
                Err(fault) => config_fault(self@) == Some(fault),
            },
    {
        match AddressPool::new(self.network, self.prefix_len, self.gateway) {
            Err(e) => Err(ConfigFault::Pool(e)),
            Ok(_) => {
                if self.mtu > 0x7fff_ffff {
                    Err(ConfigFault::Mtu)
                } else {
                    Ok(())
                }
            },
        }
    }
}

/// Seconds between two rounds of health checks.
pub const POLL_INTERVAL_SECS: u64 = 1;

/// What the caller is asked to do.
#[derive(Clone, Copy, Debug, PartialEq, Eq, Structural)]
pub enum ServerAction {
    /// Start this tunnel and report `Done` or `Failed`.
    Start(usize),
    /// Stop this tunnel and report `Done` or `Failed`.
    Stop(usize),
    /// Ask this tunnel whether it is in order and report `Healthy` or
    /// `Unhealthy`.
    Probe(usize),
    /// Wait for `POLL_INTERVAL_SECS` and report `Done`.
    Sleep,
    /// Give up: this tunnel could not be started when the server came up.
    Abort(usize),
}

/// How the pending action ended.
#[derive(Clone, Copy, Debug, PartialEq, Eq, Structural)]
pub enum Outcome {
    Done,
    Failed,
    Healthy,
    Unhealthy,
}

/// Where the supervisor stands. Each phase waits for the outcome of one
/// action.
#[derive(Clone, Copy, Debug, PartialEq, Eq, Structural)]
pub enum Phase {
    /// Bringing the server up: this tunnel is being started.
    Starting(usize),
    /// In a round of checks: this tunnel is being asked.
    Polling(usize),
    /// This tunnel has failed and is being stopped.
    Stopping(usize),
    /// This tunnel has failed and is being started again.
    Restarting(usize),
    /// Between two rounds.
    Sleeping,
    /// The server did not come up because this tunnel did not start.
    Aborted(usize),
}

/// The action that a phase waits for.
pub open spec fn pending_action(phase: Phase) -> ServerAction {
    match phase {
        Phase::Starting(i) => ServerAction::Start(i),
        Phase::Polling(i) => ServerAction::Probe(i),
        Phase::Stopping(i) => ServerAction::Stop(i),
        Phase::Restarting(i) => ServerAction::Start(i),
        Phase::Sleeping => ServerAction::Sleep,
        Phase::Aborted(i) => ServerAction::Abort(i),
    }
}

/// The phase in which tunnel `next` is checked, or the pause after the round
/// if there is no such tunnel.
pub open spec fn check_from(next: int, tunnels: nat) -> Phase {
    if 0 <= next < tunnels {
        Phase::Polling(next as usize)
    } else {
        Phase::Sleeping
    }
}

/// The phase in which a server with that many tunnels starts.
pub open spec fn first_phase(tunnels: nat) -> Phase {
    if tunnels > 0 {
        Phase::Starting(0)
    } else {
        Phase::Sleeping
    }
}

/// The phase that follows `phase` on `outcome`. An outcome that does not
/// answer the pending action changes nothing.
pub open spec fn next_phase(phase: Phase, outcome: Outcome, tunnels: nat) -> Phase {
    match (phase, outcome) {
        (Phase::Starting(i), Outcome::Done) => if i + 1 < tunnels {
            Phase::Starting((i + 1) as usize)
        } else {
            check_from(0, tunnels)
        },
        (Phase::Starting(i), Outcome::Failed) => Phase::Aborted(i),
        (Phase::Polling(i), Outcome::Healthy) => check_from(i + 1, tunnels),
        (Phase::Polling(i), Outcome::Unhealthy) => Phase::Stopping(i),
        (Phase::Stopping(i), Outcome::Done) => Phase::Restarting(i),
        (Phase::Stopping(i), Outcome::Failed) => Phase::Restarting(i),
        (Phase::Restarting(i), Outcome::Done) => check_from(i + 1, tunnels),
        (Phase::Restarting(i), Outcome::Failed) => check_from(i + 1, tunnels),
        (Phase::Sleeping, Outcome::Done) => check_from(0, tunnels),
        _ => phase,
    }
}

/// The tunnel that a phase is about, if any.
pub open spec fn phase_tunnel(phase: Phase) -> Option<usize> {
    match phase {
        Phase::Starting(i) => Some(i),
        Phase::Polling(i) => Some(i),
        Phase::Stopping(i) => Some(i),
        Phase::Restarting(i) => Some(i),
        Phase::Sleeping => None,
        Phase::Aborted(i) => Some(i),
    }
}

/// Mathematical state of the supervisor.
pub struct ServerView {
    pub tunnels: Seq<TunnelConfigView>,
    pub phase: Phase,
}

impl ServerView {
    /// Every tunnel can be built from its configuration, no two tunnels
    /// have the same name, and the phase names a tunnel of the list, if it
    /// names one.
    pub open spec fn wf(self) -> bool {
        &&& faultless(self.tunnels, self.tunnels.len() as int)
        &&& names_distinct(self.tunnels)
        &&& match phase_tunnel(self.phase) {
            Some(i) => i < self.tunnels.len(),
            None => true,
        }
    }

    /// The supervisor after the pending action ended with `outcome`.
    pub open spec fn step(self, outcome: Outcome) -> ServerView {
        ServerView { phase: next_phase(self.phase, outcome, self.tunnels.len()), ..self }
    }
}

/// A server with a number of tunnels under supervision.
pub struct QuincyServer {
    active_tunnels: Vec<TunnelConfig>,
    phase: Phase,
}

impl View for QuincyServer {
    type V = ServerView;

    closed spec fn view(&self) -> ServerView {
        ServerView { tunnels: self.active_tunnels.deep_view(), phase: self.phase }
    }
}

impl QuincyServer {
    /// A supervisor of the tunnels with these configurations, about to
    /// start the first of them; or the first tunnel of the list that cannot
    /// be built or repeats a name, in which case the server does not come
    /// up.
    pub fn new(tunnels: Vec<TunnelConfig>) -> (res: Result<QuincyServer, ConfigError>)
        ensures
            match res {
                Ok(server) => {
                    &&& server@.tunnels == tunnels.deep_view()
                    &&& server@.phase == first_phase(tunnels.deep_view().len())
                    &&& server@.wf()
                },
                Err(e) => {
                    &&& e.tunnel < tunnels.deep_view().len()
                    &&& tunnel_fault(tunnels.deep_view(), e.tunnel as int) == Some(e.fault)
                    &&& faultless(tunnels.deep_view(), e.tunnel as int)
                },
            },
    {
        let ghost configs = tunnels.deep_view();
        let mut i: usize = 0;
        while i < tunnels.len()
            invariant
                i <= tunnels.len(),
                configs == tunnels.deep_view(),
                faultless(configs, i as int),
            decreases tunnels.len() - i,
        {
            assert(configs[i as int] == tunnels[i as int]@);
            match tunnels[i].check() {
                Ok(()) => {},
                Err(fault) => {
                    return Err(ConfigError { tunnel: i, fault });
                },
            }
            let mut j: usize = 0;
            while j < i
                invariant
                    j <= i < tunnels.len(),
                    configs == tunnels.deep_view(),
                    faultless(configs, i as int),
                    config_fault(configs[i as int]) is None,
                    forall|k: int| 0 <= k < j ==> (#[trigger] configs[k]).name
                        != configs[i as int].name,
                decreases i - j,
            {
                assert(configs[j as int] == tunnels[j as int]@);
                assert(configs[i as int] == tunnels[i as int]@);
                if tunnels[j].name == tunnels[i].name {
                    assert(name_taken(configs, i as int));
                    return Err(ConfigError { tunnel: i, fault: ConfigFault::DuplicateName });
                }
                j = j + 1;
            }
            assert(!name_taken(configs, i as int));
            i = i + 1;
        }
        proof {
            lemma_faultless_names_distinct(configs);
        }
        let phase = if tunnels.len() > 0 {
            Phase::Starting(0)
        } else {
            Phase::Sleeping
        };
        Ok(QuincyServer { active_tunnels: tunnels, phase })
    }

    /// Number of tunnels under supervision.
    pub fn tunnel_count(&self) -> (count: usize)
        ensures
            count == self@.tunnels.len(),
    {
        self.active_tunnels.len()
    }

    /// Configuration of the tunnel at `index`.
    pub fn tunnel_config(&self, index: usize) -> (config: Option<&TunnelConfig>)
        ensures
            match config {
                Some(config) => index < self@.tunnels.len() && config@
                    == self@.tunnels[index as int],
                None => index >= self@.tunnels.len(),
            },
    {
        if index < self.active_tunnels.len() {
            let config = &self.active_tunnels[index];
            assert(self.active_tunnels.deep_view()[index as int] == config@);
            Some(config)
        } else {
            None
        }
    }

    /// Name of the tunnel at `index`.
    pub fn tunnel_name(&self, index: usize) -> (name: Option<&String>)
        ensures
            match name {
                Some(name) => index < self@.tunnels.len() && name@
                    == self@.tunnels[index as int].name,
                None => index >= self@.tunnels.len(),
            },
    {
        match self.tunnel_config(index) {
            Some(config) => Some(&config.name),
            None => None,
        }
    }

    /// Where the supervisor stands.
    pub fn phase(&self) -> (phase: Phase)
        ensures
            phase == self@.phase,
    {
        self.phase
    }

    /// The action that the supervisor waits for.
    pub fn pending(&self) -> (action: ServerAction)
        ensures
            action == pending_action(self@.phase),
    {
        match self.phase {
            Phase::Starting(i) => ServerAction::Start(i),
            Phase::Polling(i) => ServerAction::Probe(i),
            Phase::Stopping(i) => ServerAction::Stop(i),
            Phase::Restarting(i) => ServerAction::Start(i),
            Phase::Sleeping => ServerAction::Sleep,
            Phase::Aborted(i) => ServerAction::Abort(i),
        }
    }

    fn check_next(&self, next: usize) -> (phase: Phase)
        ensures
            phase == check_from(next as int, self@.tunnels.len()),
    {
        if next < self.active_tunnels.len() {
            Phase::Polling(next)
        } else {
            Phase::Sleeping
        }
    }

    /// Takes the outcome of the pending action and names the next action.
    /// While the server comes up a failed start aborts it; later a tunnel
    /// that is not in order is stopped and started again, and a failure to
    /// do so only moves the round on to the next tunnel.
    pub fn run(&mut self, outcome: Outcome) -> (action: ServerAction)
        requires
            old(self)@.wf(),
        ensures
            final(self)@ == old(self)@.step(outcome),
            final(self)@.wf(),
            action == pending_action(final(self)@.phase),
    {
        assert(self@.tunnels.len() == self.active_tunnels.len());
        assert(phase_tunnel(self.phase) matches Some(i) ==> i < self.active_tunnels.len());
        let next = match (self.phase, outcome) {
            (Phase::Starting(i), Outcome::Done) => {
                if i + 1 < self.active_tunnels.len() {
                    Phase::Starting(i + 1)
                } else {
                    self.check_next(0)
                }
            },
            (Phase::Starting(i), Outcome::Failed) => Phase::Aborted(i),
            (Phase::Polling(i), Outcome::Healthy) => self.check_next(i + 1),
            (Phase::Polling(i), Outcome::Unhealthy) => Phase::Stopping(i),
            (Phase::Stopping(i), Outcome::Done) => Phase::Restarting(i),
            (Phase::Stopping(i), Outcome::Failed) => Phase::Restarting(i),
            (Phase::Restarting(i), Outcome::Done) => self.check_next(i + 1),
            (Phase::Restarting(i), Outcome::Failed) => self.check_next(i + 1),
            (Phase::Sleeping, Outcome::Done) => self.check_next(0),
            (phase, _) => phase,
        };
        self.phase = next;
        self.pending()
    }
}

/// Only a failed start while the server comes up aborts it: no outcome leads
/// from a round of checks, a restart or a pause to `Aborted`.
pub proof fn lemma_only_startup_aborts(server: ServerView, outcome: Outcome)
    requires
        server.step(outcome).phase is Aborted,
    ensures
        server.phase is Aborted || (server.phase is Starting && outcome == Outcome::Failed),
{
}

/// A tunnel that is found not in order is stopped and then started again,
/// whether or not the stop succeeds, before the round moves on.
pub proof fn lemma_unhealthy_tunnel_is_restarted(server: ServerView, i: usize, stopped: Outcome)
    requires
        server.phase == Phase::Polling(i),
        stopped == Outcome::Done || stopped == Outcome::Failed,
    ensures
        pending_action(server.step(Outcome::Unhealthy).phase) == ServerAction::Stop(i),
        pending_action(server.step(Outcome::Unhealthy).step(stopped).phase) == ServerAction::Start(
            i,
        ),
{
}

} // verus!
