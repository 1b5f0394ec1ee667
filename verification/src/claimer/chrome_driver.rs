//! Supervision of the single browser-driver process.
//!
//! The supervisor sees to it that a driver process runs and tells on which
//! port it listens. It has the process started on first demand, has it
//! probed on every later demand, and has a fresh one started where the
//! process has exited. At most one process is tracked at any time.
//!
//! The supervisor decides; it does not act. Each call hands it one event and
//! gets back the action to perform: locate the executable, pick a port and
//! spawn, probe the process, terminate it. The caller performs the action
//! and reports the result as the next event.
//!
//! While a spawn or a probe is under way the slot is inside its critical
//! section: a second demand is told to wait, and a shutdown leaves the slot
//! alone.

use crate::text::{decimal, numbered};
use vstd::prelude::*;

verus! {

/// The slot that tracks the driver process.
#[derive(Clone, Copy, Debug, PartialEq, Eq, Structural)]
pub enum DriverState {
    /// No process is tracked.
    Empty,
    /// The first process is being spawned.
    Starting,
    /// A process is tracked; it listens on `port`.
    Running { port: u16 },
    /// The tracked process, which listens on `port`, is being probed.
    Probing { port: u16 },
    /// The tracked process was found to have exited; its successor is being
    /// spawned.
    Restarting,
}

/// What happened, as the caller reports it.
#[derive(Clone, Copy, Debug, PartialEq, Eq, Structural)]
pub enum DriverEvent {
    /// A worker needs a live driver.
    Demand,
    /// The driver executable was found.
    Located,
    /// The driver executable is not installed.
    NotFound,
    /// A driver process was spawned and listens on `port`.
    Spawned { port: u16 },
    /// No unused port could be found for a new process.
    NoFreePort,
    /// The executable could not be started.
    SpawnFailed,
    /// The tracked process is still running.
    Alive,
    /// The tracked process has exited.
    Exited,
    /// The liveness of the tracked process could not be determined.
    ProbeFailed,
    /// The program is about to end.
    Shutdown,
}

/// Why a demand for a live driver cannot be met.
#[derive(Clone, Copy, Debug, PartialEq, Eq, Structural)]
pub enum Fatal {
    DriverNotFound,
    NoFreePort,
    SpawnFailed,
    ProbeFailed,
}

/// What the caller has to do next.
#[derive(Clone, Copy, Debug, PartialEq, Eq, Structural)]
pub enum DriverAction {
    /// Look for the driver executable; report `Located` or `NotFound`.
    Locate,
    /// Pick an unused port and spawn the driver on it; report `Spawned`,
    /// `NoFreePort` or `SpawnFailed`.
    Spawn,
    /// Check without waiting whether the tracked process has exited; report
    /// `Alive`, `Exited` or `ProbeFailed`.
    Probe,
    /// The demand is met: a live driver listens on `port`.
    Ready { port: u16 },
    /// Another demand is being served; wait until it is settled and demand
    /// again.
    Wait,
    /// The demand cannot be met; give up on it.
    Abort { reason: Fatal },
    /// Ask the process that listens on `port` to terminate, and do not mind
    /// whether it does.
    Kill { port: u16 },
    /// Nothing to do: the event changes nothing.
    Ignore,
}

/// The supervisor of the driver process.
#[derive(Clone, Copy, Debug, PartialEq, Eq, Structural)]
pub struct Supervisor {
    /// Whether the driver executable has been located. It is looked for once.
    pub located: bool,
    /// The slot of the process.
    pub slot: DriverState,
}

impl DriverState {
    /// A spawn is under way.
    pub open spec fn spawning(self) -> bool {
        self is Starting || self is Restarting
    }

    /// The slot is inside its critical section: a spawn or a probe is under
    /// way.
    pub open spec fn busy(self) -> bool {
        self.spawning() || self is Probing
    }
}

impl Supervisor {
    /// The supervisor before the first demand.
    pub open spec fn fresh() -> Supervisor {
        Supervisor { located: false, slot: DriverState::Empty }
    }

    /// The answer to a demand for a live driver.
    pub open spec fn on_demand(self) -> (Supervisor, DriverAction) {
        if !self.located {
            (self, DriverAction::Locate)
        } else {
            match self.slot {
                DriverState::Empty => (
                    Supervisor { slot: DriverState::Starting, ..self },
                    DriverAction::Spawn,
                ),
                DriverState::Running { port } => (
                    Supervisor { slot: DriverState::Probing { port }, ..self },
                    DriverAction::Probe,
                ),
                _ => (self, DriverAction::Wait),
            }
        }
    }

    /// The new state of the supervisor and the action it orders, for every
    /// state and every event. An event that does not fit the state changes
    /// nothing and is answered with `Ignore`.
    pub open spec fn react(self, event: DriverEvent) -> (Supervisor, DriverAction) {
        match event {
            DriverEvent::Demand => self.on_demand(),
            DriverEvent::Located => Supervisor { located: true, ..self }.on_demand(),
            DriverEvent::NotFound => if self.located {
                (self, DriverAction::Ignore)
            } else {
                (self, DriverAction::Abort { reason: Fatal::DriverNotFound })
            },
            DriverEvent::Spawned { port } => if self.slot.spawning() {
                (
                    Supervisor { slot: DriverState::Running { port }, ..self },
                    DriverAction::Ready { port },
                )
            } else {
                (self, DriverAction::Ignore)
            },
            DriverEvent::NoFreePort => if self.slot.spawning() {
                (
                    Supervisor { slot: DriverState::Empty, ..self },
                    DriverAction::Abort { reason: Fatal::NoFreePort },
                )
            } else {
                (self, DriverAction::Ignore)
            },
            DriverEvent::SpawnFailed => if self.slot.spawning() {
                (
                    Supervisor { slot: DriverState::Empty, ..self },
                    DriverAction::Abort { reason: Fatal::SpawnFailed },
                )
            } else {
                (self, DriverAction::Ignore)
            },
            DriverEvent::Alive => match self.slot {
                DriverState::Probing { port } => (
                    Supervisor { slot: DriverState::Running { port }, ..self },
                    DriverAction::Ready { port },
                ),
                _ => (self, DriverAction::Ignore),
            },
            DriverEvent::Exited => match self.slot {
                DriverState::Probing { port } => (
                    Supervisor { slot: DriverState::Restarting, ..self },
                    DriverAction::Spawn,
                ),
                _ => (self, DriverAction::Ignore),
            },
            DriverEvent::ProbeFailed => match self.slot {
                DriverState::Probing { port } => (
                    Supervisor { slot: DriverState::Running { port }, ..self },
                    DriverAction::Abort { reason: Fatal::ProbeFailed },
                ),
                _ => (self, DriverAction::Ignore),
            },
            DriverEvent::Shutdown => match self.slot {
                DriverState::Running { port } => (
                    Supervisor { slot: DriverState::Empty, ..self },
                    DriverAction::Kill { port },
                ),
                _ => (self, DriverAction::Ignore),
            },
        }
    }

    /// The supervisor before the first demand: the executable has not been
    /// looked for and no process is tracked.
    pub fn new() -> (supervisor: Supervisor)
        ensures
            supervisor == Supervisor::fresh(),
    {
        Supervisor { located: false, slot: DriverState::Empty }
    }

    /// The port of the tracked process, if one is tracked.
    pub fn port(&self) -> (port: Option<u16>)
        ensures
            match port {
                Some(p) => self.slot == (DriverState::Running { port: p }) || self.slot == (
                DriverState::Probing { port: p }),
                None => !(self.slot is Running || self.slot is Probing),
            },
    {
        match self.slot {
            DriverState::Running { port } => Some(port),
            DriverState::Probing { port } => Some(port),
            _ => None,
        }
    }

    fn demand(&mut self) -> (action: DriverAction)
        ensures
            (*final(self), action) == old(self).on_demand(),
    {
        if !self.located {
            return DriverAction::Locate;
        }
        match self.slot {
            DriverState::Empty => {
                self.slot = DriverState::Starting;
                DriverAction::Spawn
            },
            DriverState::Running { port } => {
                self.slot = DriverState::Probing { port };
                DriverAction::Probe
            },
            _ => DriverAction::Wait,
        }
    }

    fn is_spawning(&self) -> (yes: bool)
        ensures
            yes == self.slot.spawning(),
    {
        match self.slot {
            DriverState::Starting => true,
            DriverState::Restarting => true,
            _ => false,
        }
    }
}

/// Makes sure that a driver process runs, one step at a time.
///
/// A worker that needs the driver hands in `Demand` and then, for as long as
/// the answer is an order, carries the order out and hands in what came of
/// it. The exchange ends with `Ready`, which carries the port of a live
/// driver, or with `Abort`. The supervisor moves to the state, and the
/// answer is the action, that [`Supervisor::react`] gives for the event.
pub fn guard_driver_running(supervisor: &mut Supervisor, event: DriverEvent) -> (action:
    DriverAction)
    ensures
        (*final(supervisor), action) == old(supervisor).react(event),
{
    match event {
        DriverEvent::Demand => supervisor.demand(),
        DriverEvent::Located => {
            supervisor.located = true;
            supervisor.demand()
        },
        DriverEvent::NotFound => {
            if supervisor.located {
                DriverAction::Ignore
            } else {
                DriverAction::Abort { reason: Fatal::DriverNotFound }
            }
        },
        DriverEvent::Spawned { port } => {
            if supervisor.is_spawning() {
                supervisor.slot = DriverState::Running { port };
                DriverAction::Ready { port }
            } else {
                DriverAction::Ignore
            }
        },
        DriverEvent::NoFreePort => {
            if supervisor.is_spawning() {
                supervisor.slot = DriverState::Empty;
                DriverAction::Abort { reason: Fatal::NoFreePort }
            } else {
                DriverAction::Ignore
            }
        },
        DriverEvent::SpawnFailed => {
            if supervisor.is_spawning() {
                supervisor.slot = DriverState::Empty;
                DriverAction::Abort { reason: Fatal::SpawnFailed }
            } else {
                DriverAction::Ignore
            }
        },
        DriverEvent::Alive => {
            match supervisor.slot {
                DriverState::Probing { port } => {
                    supervisor.slot = DriverState::Running { port };
                    DriverAction::Ready { port }
                },
                _ => DriverAction::Ignore,
            }
        },
        DriverEvent::Exited => {
            match supervisor.slot {
                DriverState::Probing { port } => {
                    supervisor.slot = DriverState::Restarting;
                    DriverAction::Spawn
                },
                _ => DriverAction::Ignore,
            }
        },
        DriverEvent::ProbeFailed => {
            match supervisor.slot {
                DriverState::Probing { port } => {
                    supervisor.slot = DriverState::Running { port };
                    DriverAction::Abort { reason: Fatal::ProbeFailed }
                },
                _ => DriverAction::Ignore,
            }
        },
        DriverEvent::Shutdown => {
            match stop_chrome_driver(supervisor) {
                Some(port) => DriverAction::Kill { port },
                None => DriverAction::Ignore,
            }
        },
    }
}

/// Gives up the driver process when the program ends.
///
/// Where a process is tracked, the answer is its port: the caller asks that
/// process to terminate and does not mind the result, and the slot is empty
/// afterwards. Where none is tracked, or the slot is inside its critical
/// section, nothing changes and there is nothing to terminate. The call
/// never waits and never fails.
pub fn stop_chrome_driver(supervisor: &mut Supervisor) -> (port: Option<u16>)
    ensures
        *final(supervisor) == old(supervisor).react(DriverEvent::Shutdown).0,
        match port {
            Some(p) => old(supervisor).slot == (DriverState::Running { port: p })
                && final(supervisor).slot == DriverState::Empty,
            None => !(old(supervisor).slot is Running) && *final(supervisor) == *old(supervisor),
        },
{
    match supervisor.slot {
        DriverState::Running { port } => {
            supervisor.slot = DriverState::Empty;
            Some(port)
        },
        _ => None,
    }
}

/// The command-line argument that makes the driver listen on `port`.
pub fn port_argument(port: u16) -> (argument: String)
    ensures
        argument@ == "--port="@ + decimal(port as nat),
{
    numbered("--port=", port as u64)
}

/// The address at which the driver that listens on `port` is reached.
pub fn driver_endpoint(port: u16) -> (url: String)
    ensures
        url@ == "http://localhost:"@ + decimal(port as nat),
{
    numbered("http://localhost:", port as u64)
}

/// The supervisor after a sequence of events, taken in order.
pub open spec fn after_events(s: Supervisor, events: Seq<DriverEvent>) -> Supervisor
    decreases events.len(),
{
    if events.len() == 0 {
        s
    } else {
        after_events(s, events.drop_last()).react(events.last()).0
    }
}

/// How many times the supervisor orders a spawn in the course of the events.
pub open spec fn spawns_ordered(s: Supervisor, events: Seq<DriverEvent>) -> nat
    decreases events.len(),
{
    if events.len() == 0 {
        0
    } else {
        spawns_ordered(s, events.drop_last()) + if after_events(s, events.drop_last()).react(
            events.last(),
        ).1 is Spawn {
            1nat
        } else {
            0nat
        }
    }
}

/// The event takes a process off the supervisor's hands: the supervisor
/// learns that the tracked process has exited, or that a spawn it ordered has
/// come to nothing, or it gives the tracked process up.
pub open spec fn retires(s: Supervisor, event: DriverEvent) -> bool {
    match event {
        DriverEvent::Exited => s.slot is Probing,
        DriverEvent::NoFreePort => s.slot.spawning(),
        DriverEvent::SpawnFailed => s.slot.spawning(),
        DriverEvent::Shutdown => s.slot is Running,
        _ => false,
    }
}

/// How many times a process is taken off the supervisor's hands in the
/// course of the events.
pub open spec fn retirements(s: Supervisor, events: Seq<DriverEvent>) -> nat
    decreases events.len(),
{
    if events.len() == 0 {
        0
    } else {
        retirements(s, events.drop_last()) + if retires(
            after_events(s, events.drop_last()),
            events.last(),
        ) {
            1nat
        } else {
            0nat
        }
    }
}

/// The event takes no process away and reports no failed spawn.
pub open spec fn keeps_driver(event: DriverEvent) -> bool {
    !(event is Exited || event is NoFreePort || event is SpawnFailed || event is Shutdown)
}

/// A spawn is ordered only where no live process is tracked: the slot is
/// empty, or the probe of its process has just found that the process has
/// exited. The slot is then inside its critical section, in which no second
/// spawn is ordered and no process is given up.
pub proof fn lemma_spawn_only_without_driver(s: Supervisor, event: DriverEvent)
    ensures
        s.react(event).1 is Spawn ==> s.react(event).0.slot.spawning() && (s.slot is Empty || (
        s.slot is Probing && event is Exited)),
        s.slot.busy() && (event is Located || (event is Demand && s.located)) ==> s.react(
            event,
        ) == (Supervisor { located: true, ..s }, DriverAction::Wait),
        s.slot.spawning() ==> !(s.react(event).1 is Spawn),
        s.slot.busy() ==> !(s.react(event).1 is Kill),
{
}

/// At most one driver at any time: in every course of events, however many
/// demands arrive and however their steps interleave, the spawns that the
/// supervisor has ordered are as many as the processes that were taken off
/// its hands, and one more while its slot is not empty.
pub proof fn theorem_at_most_one_driver(s: Supervisor, events: Seq<DriverEvent>)
    requires
        s.slot is Empty,
    ensures
        spawns_ordered(s, events) == retirements(s, events) + if after_events(
            s,
            events,
        ).slot is Empty {
            0nat
        } else {
            1nat
        },
    decreases events.len(),
{
    if events.len() > 0 {
        theorem_at_most_one_driver(s, events.drop_last());
    }
}

/// However many demands arrive and however their steps interleave, a
/// supervisor that starts without a process orders at most one spawn, as
/// long as the process it starts does not exit, no spawn fails and nobody
/// shuts the supervisor down. It has ordered exactly one once its slot is no
/// longer empty.
pub proof fn theorem_single_spawn(s: Supervisor, events: Seq<DriverEvent>)
    requires
        s.slot is Empty,
        forall|i: int| 0 <= i < events.len() ==> keeps_driver(#[trigger] events[i]),
    ensures
        spawns_ordered(s, events) <= 1,
        spawns_ordered(s, events) == 1 <==> !(after_events(s, events).slot is Empty),
{
    theorem_at_most_one_driver(s, events);
    lemma_nothing_retired(s, events);
}

proof fn lemma_nothing_retired(s: Supervisor, events: Seq<DriverEvent>)
    requires
        forall|i: int| 0 <= i < events.len() ==> keeps_driver(#[trigger] events[i]),
    ensures
        retirements(s, events) == 0,
    decreases events.len(),
{
    if events.len() > 0 {
        let front = events.drop_last();
        assert forall|i: int| 0 <= i < front.len() implies keeps_driver(#[trigger] front[i]) by {
            assert(front[i] == events[i]);
        }
        lemma_nothing_retired(s, front);
        assert(keeps_driver(events[events.len() - 1]));
    }
}

/// The first demand on a supervisor that knows the executable starts the
/// driver: it orders a spawn, and the port of the spawned process is the
/// answer.
pub proof fn theorem_first_demand_starts_driver(s: Supervisor, port: u16)
    requires
        s.located,
        s.slot is Empty,
    ensures
        s.react(DriverEvent::Demand) == (
            Supervisor { located: true, slot: DriverState::Starting },
            DriverAction::Spawn,
        ),
        s.react(DriverEvent::Demand).0.react(DriverEvent::Spawned { port }) == (
            Supervisor { located: true, slot: DriverState::Running { port } },
            DriverAction::Ready { port },
        ),
{
}

/// A demand that finds the tracked process alive is answered with its port:
/// nothing is spawned and the supervisor is afterwards as it was before.
pub proof fn theorem_live_driver_is_reused(s: Supervisor, port: u16)
    requires
        s.located,
        s.slot == (DriverState::Running { port }),
    ensures
        s.react(DriverEvent::Demand) == (
            Supervisor { located: true, slot: DriverState::Probing { port } },
            DriverAction::Probe,
        ),
        s.react(DriverEvent::Demand).0.react(DriverEvent::Alive) == (
            s,
            DriverAction::Ready { port },
        ),
{
}

/// A demand that finds the tracked process exited has a fresh process
/// spawned and is answered with the port of that one, which differs from the
/// port of the process that exited where the two were given different ports.
/// Nothing is aborted on the way.
pub proof fn theorem_restart_after_exit(s: Supervisor, port: u16, fresh_port: u16)
    requires
        s.located,
        s.slot == (DriverState::Running { port }),
        fresh_port != port,
    ensures
        ({
            let probing = s.react(DriverEvent::Demand);
            let restarting = probing.0.react(DriverEvent::Exited);
            let running = restarting.0.react(DriverEvent::Spawned { port: fresh_port });
            &&& probing.1 == DriverAction::Probe
            &&& restarting == (
                Supervisor { located: true, slot: DriverState::Restarting },
                DriverAction::Spawn,
            )
            &&& running == (
                Supervisor { located: true, slot: DriverState::Running { port: fresh_port } },
                DriverAction::Ready { port: fresh_port },
            )
            &&& running.1 != (DriverAction::Ready { port })
        }),
{
}

/// A shutdown never interrupts a spawn or a probe: while one is under way it
/// changes nothing and orders nothing. Otherwise it leaves the slot empty,
/// and it orders the process to be terminated exactly where one is tracked.
pub proof fn theorem_shutdown_never_waits(s: Supervisor)
    ensures
        s.slot.busy() ==> s.react(DriverEvent::Shutdown) == (s, DriverAction::Ignore),
        !s.slot.busy() ==> s.react(DriverEvent::Shutdown).0.slot is Empty,
        s.react(DriverEvent::Shutdown).1 is Kill <==> s.slot is Running,
{
}

} // verus!
