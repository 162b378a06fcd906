//! The worker supervision core: the model of one supervised operating-system
//! process, the unit that owns all instances of one named consumer, and the
//! graceful-termination protocol.
//!
//! The surrounding binary owns the real child processes. It reports every
//! observation (a spawn's process identifier, a liveness poll, a completed
//! wait) to the functions here, and performs the actions they decide on.

use vstd::prelude::*;
use vstd::string::*;

use crate::config::DaemonContext;
use crate::config::MagentoConsumerConfig;

verus! {

/// How long a process is given to exit after the graceful-termination
/// signal before it is forcibly killed, in milliseconds.
pub const PROCESS_GRACEFUL_KILL_PERIOD_MS: u64 = 500;

/// How long the terminator sleeps between liveness polls while the grace
/// period runs, in milliseconds.
pub const PROCESS_GRACEFUL_POLL_RESOLUTION_MS: u64 = 20;

/// What a non-blocking liveness poll of a process reported: still alive,
/// exited (with its exit code, or none when a signal ended it), or the poll
/// itself failed. A failed poll is treated as "no longer running", since the
/// process can no longer be tracked.
#[derive(Clone, Copy)]
pub enum ProcessStatus {
    Alive,
    Exited(Option<i32>),
    PollError,
}

impl ProcessStatus {
    /// Only a poll that answered `Alive` counts as alive.
    pub open spec fn spec_is_alive(&self) -> bool {
        self is Alive
    }
}

/// The supervisor's record of one operating-system process: its identifier,
/// the cached outcome of the latest liveness observation, and whether the
/// process-table entry has been released by a blocking wait. A handle must
/// be reaped exactly once before it is discarded, whatever path its
/// termination took.
pub struct ProcessHandle {
    pub pid: u64,
    pub alive: bool,
    pub reaped: bool,
}

/// Every handle's latest observation is "alive".
pub open spec fn all_alive(handles: Seq<ProcessHandle>) -> bool {
    forall|i: int| 0 <= i < handles.len() ==> handles[i].alive
}

/// Every handle has been reaped, and none is still alive.
pub open spec fn all_reaped(handles: Seq<ProcessHandle>) -> bool {
    forall|i: int| 0 <= i < handles.len() ==> handles[i].reaped && !handles[i].alive
}

/// The process identifiers of a handle sequence, in order.
pub open spec fn pids_of(handles: Seq<ProcessHandle>) -> Seq<u64> {
    handles.map_values(|h: ProcessHandle| h.pid)
}

/// The handle sequence that freshly spawned instances with these process
/// identifiers produce: all alive, none reaped.
pub open spec fn spawned_handles(pids: Seq<u64>) -> Seq<ProcessHandle> {
    pids.map_values(|p: u64| (ProcessHandle { pid: p, alive: true, reaped: false }))
}

/// The full running state of one named consumer: its name and one handle
/// per launched instance. The unit is `Stopped` when it owns no handles and
/// `Running` when every handle it owns is alive.
pub struct WorkerProcess {
    pub consumer: String,
    pub processes: Vec<ProcessHandle>,
}

/// Mathematical model of a [`WorkerProcess`].
pub struct UnitModel {
    pub consumer: Seq<char>,
    pub handles: Seq<ProcessHandle>,
}

impl View for WorkerProcess {
    type V = UnitModel;

    open spec fn view(&self) -> UnitModel {
        UnitModel { consumer: self.consumer@, handles: self.processes@ }
    }
}

/// The unit owns no handles; nothing is running on its behalf.
pub open spec fn is_stopped(m: UnitModel) -> bool {
    m.handles.len() == 0
}

/// The unit after a liveness poll of instance `index` came back with
/// `status`: only that handle's cached liveness changes.
pub open spec fn with_poll(m: UnitModel, index: int, status: ProcessStatus) -> UnitModel {
    UnitModel {
        consumer: m.consumer,
        handles: m.handles.update(
            index,
            (ProcessHandle {
                pid: m.handles[index].pid,
                alive: status.spec_is_alive(),
                reaped: m.handles[index].reaped,
            }),
        ),
    }
}

/// The unit after a restart completed: the old instances are fully gone
/// (terminated and reaped), replaced by freshly spawned ones.
pub open spec fn restarted(m: UnitModel, new_pids: Seq<u64>) -> UnitModel {
    UnitModel { consumer: m.consumer, handles: spawned_handles(new_pids) }
}

/// The unit owns exactly `count` handles and all of them are alive.
pub open spec fn is_running_with(m: UnitModel, count: int) -> bool {
    m.handles.len() == count && all_alive(m.handles)
}

impl WorkerProcess {
    /// Adopts the instances a caller has just spawned for this consumer:
    /// one fresh, alive, unreaped handle per process identifier, in order.
    pub fn from_spawned(consumer: String, pids: Vec<u64>) -> (w: WorkerProcess)
        ensures
            w@.consumer == consumer@,
            w@.handles == spawned_handles(pids@),
    {
        let mut processes: Vec<ProcessHandle> = Vec::new();
        let mut i: usize = 0;
        while i < pids.len()
            invariant
                0 <= i <= pids@.len(),
                processes@ == spawned_handles(pids@.take(i as int)),
            decreases pids@.len() - i,
        {
            processes.push(ProcessHandle { pid: pids[i], alive: true, reaped: false });
            proof {
                assert(pids@.take(i + 1).drop_last() =~= pids@.take(i as int));
                assert(spawned_handles(pids@.take(i + 1)) =~= spawned_handles(
                    pids@.take(i as int),
                ).push(ProcessHandle { pid: pids@[i as int], alive: true, reaped: false }));
            }
            i += 1;
        }
        proof {
            assert(pids@.take(pids@.len() as int) =~= pids@);
        }
        WorkerProcess { consumer, processes }
    }

    /// Replaces this stopped unit's (empty) handle sequence with handles for
    /// freshly spawned instances. Termination of the previous instances must
    /// have fully completed first: an old and a new instance of the same
    /// consumer never coexist.
    pub fn adopt_spawned(&mut self, pids: Vec<u64>)
        requires
            is_stopped(old(self)@),
        ensures
            final(self)@ == restarted(old(self)@, pids@),
    {
        let fresh = WorkerProcess::from_spawned(self.consumer.clone(), pids);
        self.processes = fresh.processes;
    }

    /// Records the outcome of a non-blocking liveness poll of instance
    /// `index`, updating that handle's cached liveness and nothing else.
    pub fn record_poll(&mut self, index: usize, status: ProcessStatus)
        requires
            index < old(self)@.handles.len(),
        ensures
            final(self)@ == with_poll(old(self)@, index as int, status),
    {
        let pid = self.processes[index].pid;
        let reaped = self.processes[index].reaped;
        let alive = match status {
            ProcessStatus::Alive => true,
            ProcessStatus::Exited(_) => false,
            ProcessStatus::PollError => false,
        };
        self.processes.set(index, ProcessHandle { pid, alive, reaped });
    }

    /// A unit is healthy exactly when every one of its instances was alive
    /// at its latest poll. A unit that owns no handles is vacuously healthy,
    /// so the poll tick decides restarts with [`WorkerProcess::needs_restart`],
    /// which also catches a unit holding fewer handles than configured.
    pub fn is_healthy(&self) -> (r: bool)
        ensures
            r == all_alive(self@.handles),
    {
        let mut i: usize = 0;
        while i < self.processes.len()
            invariant
                0 <= i <= self@.handles.len(),
                forall|j: int| 0 <= j < i ==> self@.handles[j].alive,
            decreases self@.handles.len() - i,
        {
            if !self.processes[i].alive {
                return false;
            }
            i += 1;
        }
        true
    }

    /// Whether the poll tick must restart this unit: it is not running
    /// with exactly the expected number of instances, every one alive.
    /// A unit left short by a restart whose spawns failed — even one left
    /// with no instances at all — therefore stays due for a restart until
    /// one succeeds.
    pub fn needs_restart(&self, expected_instances: usize) -> (r: bool)
        ensures
            r == !is_running_with(self@, expected_instances as int),
    {
        self.processes.len() != expected_instances || !self.is_healthy()
    }
}

/// Where the graceful-termination protocol stands for the instance it is
/// currently stopping. Each phase waits for the outcome of exactly one
/// action that the driver performs on the outside world.
#[derive(Clone, Copy)]
pub enum TermPhase {
    /// An initial liveness poll of the current instance is outstanding.
    Probe,
    /// Delivery of the graceful-termination signal is outstanding.
    Signal,
    /// A follow-up liveness poll during the grace period is outstanding.
    Recheck,
    /// A short sleep between grace-period polls is outstanding.
    Sleeping,
    /// A forced kill, after the grace period elapsed, is outstanding.
    Killing,
    /// The blocking wait that releases the process-table entry is
    /// outstanding.
    Reaping,
    /// Every instance of the unit has been reaped.
    Finished,
}

/// The state of one run of the graceful-termination protocol over a unit's
/// instances: which instance is being stopped, in which phase, and how much
/// of the grace period has been spent waiting on it.
pub struct Termination {
    pub phase: TermPhase,
    pub index: usize,
    pub waited_ms: u64,
}

/// The outcome of the one outside-world action the machine asked for.
#[derive(Clone, Copy)]
pub enum TermEvent {
    /// A liveness poll finished with this status.
    Polled(ProcessStatus),
    /// The graceful-termination signal was sent, or its delivery failed
    /// because the process is already gone; the two are treated alike.
    SignalSent,
    /// The short inter-poll sleep finished.
    Slept,
    /// The forced kill was delivered; the process no longer runs.
    Killed,
    /// The blocking wait returned; the process-table entry is released.
    Reaped,
}

/// The next outside-world action the driver must perform. Every variant but
/// `Done` names the instance (by position in the unit) it applies to.
#[derive(Clone, Copy)]
pub enum TermAction {
    /// Poll the instance's liveness without blocking.
    Poll(usize),
    /// Send the instance the graceful-termination signal.
    SignalTerm(usize),
    /// Sleep for the given number of milliseconds.
    Sleep(u64),
    /// Kill the instance unconditionally.
    Kill(usize),
    /// Block until the instance's process-table entry is released.
    Reap(usize),
    /// The protocol is complete; no instance is alive and all are reaped.
    Done,
}

/// Which event settles the action outstanding in this phase.
pub open spec fn event_matches(phase: TermPhase, ev: TermEvent) -> bool {
    match phase {
        TermPhase::Probe => ev is Polled,
        TermPhase::Signal => ev is SignalSent,
        TermPhase::Recheck => ev is Polled,
        TermPhase::Sleeping => ev is Slept,
        TermPhase::Killing => ev is Killed,
        TermPhase::Reaping => ev is Reaped,
        TermPhase::Finished => false,
    }
}

/// The action outstanding in the machine's current state.
pub open spec fn pending_action(t: Termination) -> TermAction {
    match t.phase {
        TermPhase::Probe => TermAction::Poll(t.index),
        TermPhase::Signal => TermAction::SignalTerm(t.index),
        TermPhase::Recheck => TermAction::Poll(t.index),
        TermPhase::Sleeping => TermAction::Sleep(PROCESS_GRACEFUL_POLL_RESOLUTION_MS),
        TermPhase::Killing => TermAction::Kill(t.index),
        TermPhase::Reaping => TermAction::Reap(t.index),
        TermPhase::Finished => TermAction::Done,
    }
}

/// What the termination machine maintains between steps, over the unit it
/// is stopping. In particular: every instance before the current one is
/// already reaped and dead, no instance from the current one on has been
/// reaped yet, a kill is only ever outstanding once the full grace period
/// has been waited out, and a reap is only ever outstanding for an instance
/// that is no longer running.
pub open spec fn term_inv(m: UnitModel, t: Termination) -> bool {
    &&& t.waited_ms <= PROCESS_GRACEFUL_KILL_PERIOD_MS + PROCESS_GRACEFUL_POLL_RESOLUTION_MS
    &&& (t.phase is Finished ==> t.index == m.handles.len())
    &&& (!(t.phase is Finished) ==> t.index < m.handles.len())
    &&& (forall|j: int| 0 <= j < t.index ==> m.handles[j].reaped && !m.handles[j].alive)
    &&& (forall|j: int| t.index <= j < m.handles.len() ==> !m.handles[j].reaped)
    &&& (t.phase is Sleeping ==> t.waited_ms < PROCESS_GRACEFUL_KILL_PERIOD_MS)
    &&& (t.phase is Killing ==> t.waited_ms >= PROCESS_GRACEFUL_KILL_PERIOD_MS)
    &&& (t.phase is Reaping ==> !m.handles[t.index as int].alive)
}

/// How much of the grace period is still ahead of the machine.
pub open spec fn grace_remaining(waited_ms: u64) -> int {
    if waited_ms <= PROCESS_GRACEFUL_KILL_PERIOD_MS {
        PROCESS_GRACEFUL_KILL_PERIOD_MS - waited_ms
    } else {
        0
    }
}

/// An upper bound on the steps the machine can still take inside the
/// current instance's protocol.
pub open spec fn phase_measure(t: Termination) -> int {
    match t.phase {
        TermPhase::Probe => 11 * (PROCESS_GRACEFUL_KILL_PERIOD_MS as int) + 50,
        TermPhase::Signal => 11 * (PROCESS_GRACEFUL_KILL_PERIOD_MS as int) + 40,
        TermPhase::Recheck => 11 * grace_remaining(t.waited_ms) + 30,
        TermPhase::Sleeping => 11 * grace_remaining(t.waited_ms) + 20,
        TermPhase::Killing => 10,
        TermPhase::Reaping => 5,
        TermPhase::Finished => 0,
    }
}

/// An upper bound on the steps the whole run can still take. It strictly
/// decreases at every step, so the protocol finishes after a bounded number
/// of actions: termination never takes more than roughly the grace period
/// per instance. The per-instance weight 5560 is
/// `11 * PROCESS_GRACEFUL_KILL_PERIOD_MS + 60`, one more than any
/// single instance's phase measure can reach.
pub open spec fn term_measure(t: Termination, handle_count: int) -> int {
    if t.phase is Finished {
        0
    } else {
        (handle_count - 1 - t.index) * 5560 + phase_measure(t)
    }
}

impl WorkerProcess {
    /// Begins the graceful-termination protocol over this unit's instances
    /// and returns the first action to perform. On a stopped unit (no
    /// handles) the protocol is already complete and the action is `Done`:
    /// terminating an already-stopped unit does nothing and is no error.
    pub fn terminate_begin(&self) -> (r: (Termination, TermAction))
        requires
            forall|j: int| 0 <= j < self@.handles.len() ==> !self@.handles[j].reaped,
        ensures
            term_inv(self@, r.0),
            r.1 == pending_action(r.0),
            r.0.phase is Finished <==> self@.handles.len() == 0,
            r.1 is Done <==> self@.handles.len() == 0,
            self@.handles.len() > 0 ==> r.0 == (Termination {
                phase: TermPhase::Probe,
                index: 0,
                waited_ms: 0,
            }),
            self@.handles.len() == 0 ==> r.0 == (Termination {
                phase: TermPhase::Finished,
                index: 0,
                waited_ms: 0,
            }),
    {
        if self.processes.len() == 0 {
            let t = Termination { phase: TermPhase::Finished, index: 0, waited_ms: 0 };
            (t, TermAction::Done)
        } else {
            let t = Termination { phase: TermPhase::Probe, index: 0, waited_ms: 0 };
            (t, TermAction::Poll(0))
        }
    }

    /// Feeds the machine the outcome of the action it last asked for and
    /// returns the next action. The step updates the current instance's
    /// handle to what was just observed, touches no other handle, and:
    /// a kill is only requested once the grace period has been waited out
    /// in full; `Done` is only returned once every instance has been reaped
    /// and none is alive; and the measure strictly decreases until then, so
    /// a driver that performs each action terminates.
    pub fn terminate_step(&mut self, t: &mut Termination, ev: TermEvent) -> (a: TermAction)
        requires
            term_inv(old(self)@, *old(t)),
            !(old(t).phase is Finished),
            event_matches(old(t).phase, ev),
        ensures
            term_inv(final(self)@, *final(t)),
            a == pending_action(*final(t)),
            final(self)@.consumer == old(self)@.consumer,
            final(self)@.handles.len() == old(self)@.handles.len(),
            pids_of(final(self)@.handles) == pids_of(old(self)@.handles),
            forall|j: int|
                0 <= j < old(self)@.handles.len() && j != old(t).index ==> final(self)@.handles[j]
                    == old(self)@.handles[j],
            a is Done <==> final(t).phase is Finished,
            final(t).phase is Finished ==> all_reaped(final(self)@.handles),
            !(a is Done) ==> term_measure(*final(t), old(self)@.handles.len() as int)
                < term_measure(*old(t), old(self)@.handles.len() as int),
            a is Kill ==> old(t).waited_ms >= PROCESS_GRACEFUL_KILL_PERIOD_MS,
            a is Kill ==> (ev matches TermEvent::Polled(st) && st is Alive),
            a is Sleep ==> old(t).waited_ms < PROCESS_GRACEFUL_KILL_PERIOD_MS,
            (old(t).phase is Recheck && old(t).waited_ms >= PROCESS_GRACEFUL_KILL_PERIOD_MS && (ev
                matches TermEvent::Polled(st) && st is Alive)) ==> a == TermAction::Kill(
                old(t).index,
            ),
            (old(t).phase is Recheck && old(t).waited_ms < PROCESS_GRACEFUL_KILL_PERIOD_MS && (ev
                matches TermEvent::Polled(st) && st is Alive)) ==> a == TermAction::Sleep(
                PROCESS_GRACEFUL_POLL_RESOLUTION_MS,
            ),
            ev matches TermEvent::Polled(st) ==> final(self)@ == with_poll(
                old(self)@,
                old(t).index as int,
                st,
            ) && final(t).index == old(t).index && final(t).waited_ms == old(t).waited_ms,
            (ev matches TermEvent::Polled(st) && !st.spec_is_alive()) ==> a == TermAction::Reap(
                old(t).index,
            ),
            (old(t).phase is Probe && (ev matches TermEvent::Polled(st) && st.spec_is_alive()))
                ==> a == TermAction::SignalTerm(old(t).index),
            ev is SignalSent ==> final(self)@ == old(self)@ && *final(t) == (Termination {
                phase: TermPhase::Recheck,
                index: old(t).index,
                waited_ms: 0,
            }),
            ev is Slept ==> final(self)@ == old(self)@ && *final(t) == (Termination {
                phase: TermPhase::Recheck,
                index: old(t).index,
                waited_ms: (old(t).waited_ms + PROCESS_GRACEFUL_POLL_RESOLUTION_MS) as u64,
            }),
            ev is Killed ==> final(self)@ == with_poll(
                old(self)@,
                old(t).index as int,
                ProcessStatus::Exited(None),
            ) && *final(t) == (Termination {
                phase: TermPhase::Reaping,
                index: old(t).index,
                waited_ms: old(t).waited_ms,
            }),
            ev is Reaped ==> final(self)@.handles == old(self)@.handles.update(
                old(t).index as int,
                (ProcessHandle {
                    pid: old(self)@.handles[old(t).index as int].pid,
                    alive: false,
                    reaped: true,
                }),
            ) && final(t).index == old(t).index + 1 && final(t).waited_ms == 0
                && (final(t).phase is Finished <==> old(t).index + 1 == old(self)@.handles.len())
                && (!(final(t).phase is Finished) ==> final(t).phase is Probe),
            final(self)@.handles[old(t).index as int].reaped <==> ev is Reaped,
    {
        let idx = t.index;
        match ev {
            TermEvent::Polled(st) => {
                self.record_poll(idx, st);
                let alive = match st {
                    ProcessStatus::Alive => true,
                    ProcessStatus::Exited(_) => false,
                    ProcessStatus::PollError => false,
                };
                if !alive {
                    t.phase = TermPhase::Reaping;
                    TermAction::Reap(idx)
                } else {
                    match t.phase {
                        TermPhase::Probe => {
                            t.phase = TermPhase::Signal;
                            TermAction::SignalTerm(idx)
                        },
                        _ => {
                            // The only other phase a poll outcome can arrive
                            // in is the grace-period recheck.
                            if t.waited_ms >= PROCESS_GRACEFUL_KILL_PERIOD_MS {
                                t.phase = TermPhase::Killing;
                                TermAction::Kill(idx)
                            } else {
                                t.phase = TermPhase::Sleeping;
                                TermAction::Sleep(PROCESS_GRACEFUL_POLL_RESOLUTION_MS)
                            }
                        },
                    }
                }
            },
            TermEvent::SignalSent => {
                t.phase = TermPhase::Recheck;
                t.waited_ms = 0;
                TermAction::Poll(idx)
            },
            TermEvent::Slept => {
                t.waited_ms = t.waited_ms + PROCESS_GRACEFUL_POLL_RESOLUTION_MS;
                t.phase = TermPhase::Recheck;
                TermAction::Poll(idx)
            },
            TermEvent::Killed => {
                // An unconditional kill ends the process: record it as no
                // longer alive, ended by a signal.
                self.record_poll(idx, ProcessStatus::Exited(None));
                t.phase = TermPhase::Reaping;
                TermAction::Reap(idx)
            },
            TermEvent::Reaped => {
                let count = self.processes.len();
                let pid = self.processes[idx].pid;
                self.processes.set(idx, ProcessHandle { pid, alive: false, reaped: true });
                proof {
                    assert(pids_of(self@.handles) =~= pids_of(old(self)@.handles));
                }
                t.index = idx + 1;
                t.waited_ms = 0;
                if t.index == count {
                    t.phase = TermPhase::Finished;
                    TermAction::Done
                } else {
                    t.phase = TermPhase::Probe;
                    TermAction::Poll(t.index)
                }
            },
        }
    }

    /// Empties the handle sequence once every instance has been reaped: the
    /// `Running -> Stopped` transition completes, and no handle is ever
    /// discarded before its process was reaped.
    pub fn mark_stopped(&mut self)
        requires
            all_reaped(old(self)@.handles),
        ensures
            final(self)@.consumer == old(self)@.consumer,
            is_stopped(final(self)@),
    {
        self.processes = Vec::new();
    }
}

/// The decimal digit `d` as a character; `d` must be between 0 and 9.
pub open spec fn spec_digit_char(d: int) -> char {
    if d == 0 {
        '0'
    } else if d == 1 {
        '1'
    } else if d == 2 {
        '2'
    } else if d == 3 {
        '3'
    } else if d == 4 {
        '4'
    } else if d == 5 {
        '5'
    } else if d == 6 {
        '6'
    } else if d == 7 {
        '7'
    } else if d == 8 {
        '8'
    } else {
        '9'
    }
}

/// The decimal digits of `n`, most significant first, without sign or
/// padding; the empty sequence on a negative argument.
pub open spec fn spec_decimal(n: int) -> Seq<char>
    decreases n,
{
    if n < 0 {
        Seq::empty()
    } else if n < 10 {
        seq![spec_digit_char(n)]
    } else {
        spec_decimal(n / 10).push(spec_digit_char(n % 10))
    }
}

/// Appends the decimal digits of `n` to `s`.
fn push_decimal(s: &mut String, n: u32)
    ensures
        final(s)@ == old(s)@ + spec_decimal(n as int),
    decreases n,
{
    if n >= 10 {
        push_decimal(s, n / 10);
    }
    let d = n % 10;
    let digit: &str = if d == 0 {
        "0"
    } else if d == 1 {
        "1"
    } else if d == 2 {
        "2"
    } else if d == 3 {
        "3"
    } else if d == 4 {
        "4"
    } else if d == 5 {
        "5"
    } else if d == 6 {
        "6"
    } else if d == 7 {
        "7"
    } else if d == 8 {
        "8"
    } else {
        "9"
    };
    proof {
        reveal_strlit("0");
        reveal_strlit("1");
        reveal_strlit("2");
        reveal_strlit("3");
        reveal_strlit("4");
        reveal_strlit("5");
        reveal_strlit("6");
        reveal_strlit("7");
        reveal_strlit("8");
        reveal_strlit("9");
        assert(digit@ =~= seq![spec_digit_char(d as int)]);
    }
    s.append(digit);
    proof {
        if n < 10 {
            assert(old(s)@ + seq![spec_digit_char(n as int)] =~= old(s)@ + spec_decimal(n as int));
        } else {
            assert((old(s)@ + spec_decimal((n / 10) as int)) + seq![spec_digit_char(d as int)]
                =~= old(s)@ + spec_decimal(n as int));
        }
    }
}

/// `n` printed in decimal, exactly as the standard formatter prints an
/// unsigned integer.
pub fn u32_to_string(n: u32) -> (s: String)
    ensures
        s@ == spec_decimal(n as int),
{
    let mut s = String::new();
    push_decimal(&mut s, n);
    proof {
        assert(Seq::<char>::empty() + spec_decimal(n as int) =~= spec_decimal(n as int));
    }
    s
}

/// The instance count configured for `name`, if any: the value of the
/// first `multiple_processes` entry whose key is `name`.
pub open spec fn spec_lookup_processes(entries: Seq<(String, i32)>, name: Seq<char>) -> Option<
    i32,
>
    decreases entries.len(),
{
    if entries.len() == 0 {
        None
    } else if entries[0].0@ == name {
        Some(entries[0].1)
    } else {
        spec_lookup_processes(entries.drop_first(), name)
    }
}

impl MagentoConsumerConfig {
    /// The configured `multiple_processes` entry for this consumer, if any.
    pub open spec fn spec_processes_for(&self, name: Seq<char>) -> Option<i32> {
        spec_lookup_processes(self.multiple_processes@, name)
    }

    /// How many instances of this consumer are launched: the configured
    /// count when one is present (a negative count launches nothing), and
    /// one instance otherwise.
    pub open spec fn spec_instance_count(&self, name: Seq<char>) -> int {
        match self.spec_processes_for(name) {
            Some(v) => if v >= 0 {
                v as int
            } else {
                0
            },
            None => 1,
        }
    }

    /// Looks this consumer up in `multiple_processes`.
    pub fn processes_for(&self, consumer: &String) -> (r: Option<i32>)
        ensures
            r == self.spec_processes_for(consumer@),
    {
        proof {
            assert(self.multiple_processes@.skip(0) =~= self.multiple_processes@);
        }
        let mut i: usize = 0;
        while i < self.multiple_processes.len()
            invariant
                0 <= i <= self.multiple_processes@.len(),
                spec_lookup_processes(self.multiple_processes@.skip(i as int), consumer@)
                    == spec_lookup_processes(self.multiple_processes@, consumer@),
            decreases self.multiple_processes@.len() - i,
        {
            proof {
                assert(self.multiple_processes@.skip(i as int)[0] == self.multiple_processes@[
                    i as int
                ]);
                assert(self.multiple_processes@.skip(i as int).drop_first()
                    =~= self.multiple_processes@.skip(i + 1));
            }
            let entry = &self.multiple_processes[i];
            if entry.0.eq(consumer) {
                return Some(entry.1);
            }
            i += 1;
        }
        proof {
            assert(self.multiple_processes@.skip(self.multiple_processes@.len() as int)
                =~= Seq::<(String, i32)>::empty());
        }
        None
    }

    /// How many instances of this consumer the supervisor launches:
    /// exactly [`MagentoConsumerConfig::spec_instance_count`].
    pub fn instance_count(&self, consumer: &String) -> (n: usize)
        ensures
            n == self.spec_instance_count(consumer@),
    {
        match self.processes_for(consumer) {
            Some(v) => if v >= 0 {
                v as usize
            } else {
                0
            },
            None => 1,
        }
    }
}

/// At most one `multiple_processes` entry per consumer name — what the
/// configuration map these entries are resolved from guarantees.
pub open spec fn keys_unique(entries: Seq<(String, i32)>) -> bool {
    forall|i: int, j: int|
        0 <= i < j < entries.len() ==> entries[i].0@ != entries[j].0@
}

/// Law: under unique keys, the first-match lookup returns the value of the
/// entry bearing the name, wherever in the list that entry stands.
pub proof fn lemma_lookup_unique_keys(entries: Seq<(String, i32)>, name: Seq<char>, k: int)
    requires
        keys_unique(entries),
        0 <= k < entries.len(),
        entries[k].0@ == name,
    ensures
        spec_lookup_processes(entries, name) == Some(entries[k].1),
    decreases entries.len(),
{
    if k > 0 {
        assert(entries[0].0@ != name);
        assert(entries.drop_first()[k - 1] == entries[k]);
        lemma_lookup_unique_keys(entries.drop_first(), name, k - 1);
    }
}

/// One planned launch: the program, its arguments in order, and the working
/// directory it runs in.
pub struct SpawnCommand {
    pub program: String,
    pub args: Vec<String>,
    pub current_dir: String,
}

/// The character sequences behind a sequence of strings.
pub open spec fn args_view(args: Seq<String>) -> Seq<Seq<char>> {
    args.map_values(|s: String| s@)
}

/// The arguments instance `i` of `count` is launched with: the consumer
/// start command, the consumer's name, its message cap, and either a
/// zero-based partition index (when the consumer fans out over several
/// instances) or the single-instance marker.
pub open spec fn spec_worker_args(
    consumer: Seq<char>,
    max_messages: u32,
    count: int,
    i: int,
) -> Seq<Seq<char>> {
    let base = seq![
        "queue:consumers:start"@,
        consumer,
        "--max-messages"@,
        spec_decimal(max_messages as int),
    ];
    if count > 1 {
        base + seq!["--multi-process"@, spec_decimal(i)]
    } else {
        base.push("--single-thread"@)
    }
}

/// The command that launches instance `i` of `count` for this consumer.
pub open spec fn spec_spawn_command_ok(
    c: SpawnCommand,
    context: DaemonContext,
    consumer: Seq<char>,
    count: int,
    i: int,
) -> bool {
    &&& c.program@ == "bin/magento"@
    &&& c.current_dir@ == context.daemon_config.magento_dir@
    &&& args_view(c.args@) == spec_worker_args(
        consumer,
        context.consumer_config.max_messages,
        count,
        i,
    )
}

/// Plans the launch of every instance of one consumer: one command per
/// configured instance, each carrying the consumer name, the message cap,
/// and its partition index when the consumer runs with several instances.
pub fn run_worker_plan(context: &DaemonContext, consumer: &String) -> (cmds: Vec<SpawnCommand>)
    ensures
        cmds@.len() == context.consumer_config.spec_instance_count(consumer@),
        forall|i: int|
            0 <= i < cmds@.len() ==> spec_spawn_command_ok(
                cmds@[i],
                *context,
                consumer@,
                context.consumer_config.spec_instance_count(consumer@),
                i,
            ),
{
    let configured = context.consumer_config.processes_for(consumer);
    let count: u32 = match configured {
        Some(v) => if v >= 0 {
            v as u32
        } else {
            0
        },
        None => 1,
    };
    let mut cmds: Vec<SpawnCommand> = Vec::new();
    let mut i: u32 = 0;
    while i < count
        invariant
            0 <= i <= count,
            count == context.consumer_config.spec_instance_count(consumer@),
            cmds@.len() == i,
            forall|j: int|
                0 <= j < cmds@.len() ==> spec_spawn_command_ok(
                    cmds@[j],
                    *context,
                    consumer@,
                    count as int,
                    j,
                ),
        decreases count - i,
    {
        let mut args: Vec<String> = Vec::new();
        args.push(String::from_str("queue:consumers:start"));
        args.push(consumer.clone());
        args.push(String::from_str("--max-messages"));
        args.push(u32_to_string(context.consumer_config.max_messages));
        if count > 1 {
            args.push(String::from_str("--multi-process"));
            args.push(u32_to_string(i));
        } else {
            args.push(String::from_str("--single-thread"));
        }
        proof {
            assert(args_view(args@) =~= spec_worker_args(
                consumer@,
                context.consumer_config.max_messages,
                count as int,
                i as int,
            ));
        }
        cmds.push(
            SpawnCommand {
                program: String::from_str("bin/magento"),
                args,
                current_dir: context.daemon_config.magento_dir.clone(),
            },
        );
        i += 1;
    }
    cmds
}

/// The one consumer that exists only when a RabbitMQ broker is configured.
pub open spec fn rabbitmq_consumer_name() -> Seq<char> {
    "async.operations.all"@
}

/// The exact output of the broker-configuration query when a RabbitMQ
/// connection is configured: the bytes of `bool(true)` and a newline.
pub open spec fn rabbitmq_affirmative_bytes() -> Seq<u8> {
    // The byte values of "bool(true)" followed by a line feed.
    seq![98u8, 111u8, 111u8, 108u8, 40u8, 116u8, 114u8, 117u8, 101u8, 41u8, 10u8]
}

/// Decides the broker flag from the broker-configuration query's raw
/// output: configured exactly when the query affirmed it, byte for byte.
pub fn rabbitmq_flag(stdout: &Vec<u8>) -> (r: bool)
    ensures
        r <==> stdout@ == rabbitmq_affirmative_bytes(),
{
    // The byte values of "bool(true)" followed by a line feed.
    let mut expected: Vec<u8> = Vec::new();
    expected.push(98);
    expected.push(111);
    expected.push(111);
    expected.push(108);
    expected.push(40);
    expected.push(116);
    expected.push(114);
    expected.push(117);
    expected.push(101);
    expected.push(41);
    expected.push(10);
    proof {
        assert(expected@ =~= rabbitmq_affirmative_bytes());
    }
    if stdout.len() != expected.len() {
        return false;
    }
    let mut i: usize = 0;
    while i < expected.len()
        invariant
            0 <= i <= expected@.len(),
            stdout@.len() == expected@.len(),
            expected@ == rabbitmq_affirmative_bytes(),
            forall|j: int| 0 <= j < i ==> stdout@[j] == expected@[j],
        decreases expected@.len() - i,
    {
        if stdout[i] != expected[i] {
            return false;
        }
        i += 1;
    }
    proof {
        assert(stdout@ =~= rabbitmq_affirmative_bytes());
    }
    true
}

/// Relies on `String::from_utf8`: it succeeds exactly on valid UTF-8 input,
/// and then returns the string those bytes encode.
#[verifier::external_body]
fn string_from_utf8(bytes: &Vec<u8>) -> (r: Option<String>)
    ensures
        r is Some <==> vstd::utf8::valid_utf8(bytes@),
        (r matches Some(s) ==> s@ == vstd::utf8::decode_utf8(bytes@)),
{
    String::from_utf8(bytes.clone()).ok()
}

/// The index of the last newline byte in `bytes`, or a negative value when
/// there is none.
pub open spec fn spec_find_last_newline(bytes: Seq<u8>) -> int
    decreases bytes.len(),
{
    if bytes.len() == 0 {
        -1
    } else if bytes.last() == 10 {
        bytes.len() - 1
    } else {
        spec_find_last_newline(bytes.drop_last())
    }
}

/// `bytes` split at every newline byte, newlines removed: one chunk more
/// than there are newlines, so a trailing newline yields a final empty
/// chunk, and empty input yields one empty chunk.
pub open spec fn spec_split_lines(bytes: Seq<u8>) -> Seq<Seq<u8>>
    decreases bytes.len(),
{
    let idx = spec_find_last_newline(bytes);
    if idx < 0 || idx >= bytes.len() {
        seq![bytes]
    } else {
        spec_split_lines(bytes.take(idx)) + seq![bytes.skip(idx + 1)]
    }
}

/// The last-newline index always lies below the length.
proof fn lemma_find_last_newline_range(bytes: Seq<u8>)
    ensures
        spec_find_last_newline(bytes) < bytes.len(),
    decreases bytes.len(),
{
    if bytes.len() > 0 && bytes.last() != 10 {
        lemma_find_last_newline_range(bytes.drop_last());
    }
}

/// Appending a non-newline byte extends the final chunk and nothing else.
proof fn lemma_split_lines_push_byte(bytes: Seq<u8>, c: u8)
    requires
        c != 10,
    ensures
        spec_split_lines(bytes.push(c)) == spec_split_lines(bytes).drop_last().push(
            spec_split_lines(bytes).last().push(c),
        ),
{
    assert(bytes.push(c).drop_last() =~= bytes);
    lemma_find_last_newline_range(bytes);
    let idx = spec_find_last_newline(bytes);
    assert(spec_find_last_newline(bytes.push(c)) == idx);
    if idx < 0 || idx >= bytes.len() {
        assert(spec_split_lines(bytes.push(c)) =~= seq![bytes.push(c)]);
        assert(spec_split_lines(bytes).drop_last().push(spec_split_lines(bytes).last().push(c))
            =~= seq![bytes.push(c)]);
    } else {
        assert(bytes.push(c).take(idx) =~= bytes.take(idx));
        assert(bytes.push(c).skip(idx + 1) =~= bytes.skip(idx + 1).push(c));
        assert(spec_split_lines(bytes.push(c)) =~= spec_split_lines(bytes.take(idx)) + seq![
            bytes.skip(idx + 1).push(c),
        ]);
        assert(spec_split_lines(bytes).drop_last() =~= spec_split_lines(bytes.take(idx)));
        assert(spec_split_lines(bytes).last() == bytes.skip(idx + 1));
        assert(spec_split_lines(bytes.take(idx)) + seq![bytes.skip(idx + 1).push(c)]
            =~= spec_split_lines(bytes).drop_last().push(spec_split_lines(bytes).last().push(c)));
    }
}

/// Appending a newline closes the chunks so far and opens an empty one.
proof fn lemma_split_lines_push_newline(bytes: Seq<u8>)
    ensures
        spec_split_lines(bytes.push(10)) == spec_split_lines(bytes).push(Seq::<u8>::empty()),
{
    let ext = bytes.push(10);
    assert(ext.last() == 10);
    assert(spec_find_last_newline(ext) == bytes.len());
    assert(ext.take(bytes.len() as int) =~= bytes);
    assert(ext.skip(bytes.len() as int + 1) =~= Seq::<u8>::empty());
    assert(spec_split_lines(ext) =~= spec_split_lines(bytes).push(Seq::<u8>::empty()));
}

/// The views of a vector of byte lines.
pub open spec fn lines_view(lines: Seq<Vec<u8>>) -> Seq<Seq<u8>> {
    lines.map_values(|l: Vec<u8>| l@)
}

/// Splits raw command output into lines, exactly as
/// [`spec_split_lines`] describes.
fn split_lines(bytes: &Vec<u8>) -> (lines: Vec<Vec<u8>>)
    ensures
        lines_view(lines@) == spec_split_lines(bytes@),
{
    let mut lines: Vec<Vec<u8>> = Vec::new();
    let mut cur: Vec<u8> = Vec::new();
    proof {
        assert(bytes@.take(0) =~= Seq::<u8>::empty());
        assert(spec_split_lines(Seq::<u8>::empty()) =~= seq![Seq::<u8>::empty()]);
        assert(lines_view(lines@).push(cur@) =~= seq![Seq::<u8>::empty()]);
    }
    let mut i: usize = 0;
    while i < bytes.len()
        invariant
            0 <= i <= bytes@.len(),
            lines_view(lines@).push(cur@) == spec_split_lines(bytes@.take(i as int)),
        decreases bytes@.len() - i,
    {
        let c = bytes[i];
        proof {
            assert(bytes@.take(i + 1) =~= bytes@.take(i as int).push(bytes@[i as int]));
        }
        if c == 10 {
            let ghost prev_lines = lines@;
            let ghost prev_cur = cur@;
            lines.push(cur);
            cur = Vec::new();
            proof {
                lemma_split_lines_push_newline(bytes@.take(i as int));
                assert(lines_view(lines@) =~= lines_view(prev_lines).push(prev_cur));
            }
        } else {
            proof {
                lemma_split_lines_push_byte(bytes@.take(i as int), c);
                assert(spec_split_lines(bytes@.take(i as int)).drop_last() =~= lines_view(
                    lines@,
                ));
                assert(spec_split_lines(bytes@.take(i as int)).last() == cur@);
            }
            cur.push(c);
        }
        proof {
            assert(lines_view(lines@).push(cur@) =~= spec_split_lines(bytes@.take(i + 1)));
        }
        i += 1;
    }
    proof {
        assert(bytes@.take(bytes@.len() as int) =~= bytes@);
    }
    lines.push(cur);
    proof {
        assert(lines_view(lines@) =~= spec_split_lines(bytes@));
    }
    lines
}

/// Whether the consumer list keeps this line: it is nonempty, it decodes
/// as UTF-8, and it is not a broker-only consumer name while no RabbitMQ
/// broker is configured.
pub open spec fn spec_keep_line(line: Seq<u8>, rabbitmq_configured: bool) -> bool {
    &&& line.len() > 0
    &&& vstd::utf8::valid_utf8(line)
    &&& (rabbitmq_configured || vstd::utf8::decode_utf8(line) != rabbitmq_consumer_name())
}

/// The consumer names in these output lines, in order: the kept lines,
/// decoded.
pub open spec fn spec_consumer_list(lines: Seq<Seq<u8>>, rabbitmq_configured: bool) -> Seq<
    Seq<char>,
>
    decreases lines.len(),
{
    if lines.len() == 0 {
        Seq::empty()
    } else {
        let rest = spec_consumer_list(lines.drop_last(), rabbitmq_configured);
        if spec_keep_line(lines.last(), rabbitmq_configured) {
            rest.push(vstd::utf8::decode_utf8(lines.last()))
        } else {
            rest
        }
    }
}

/// The character sequences behind a vector of strings.
pub open spec fn names_view(names: Seq<String>) -> Seq<Seq<char>> {
    names.map_values(|s: String| s@)
}

/// Turns the raw output of the consumer-list query into consumer names:
/// one name per nonempty line, skipping, when no RabbitMQ broker is
/// configured, the consumer that requires one.
pub fn parse_consumer_list(output: &Vec<u8>, rabbitmq_configured: bool) -> (r: Vec<String>)
    ensures
        names_view(r@) == spec_consumer_list(spec_split_lines(output@), rabbitmq_configured),
{
    let lines = split_lines(output);
    let rabbit = String::from_str("async.operations.all");
    let mut r: Vec<String> = Vec::new();
    proof {
        assert(lines_view(lines@).take(0) =~= Seq::<Seq<u8>>::empty());
        assert(names_view(r@) =~= spec_consumer_list(lines_view(lines@).take(0),
        rabbitmq_configured));
    }
    let mut i: usize = 0;
    while i < lines.len()
        invariant
            0 <= i <= lines@.len(),
            rabbit@ == rabbitmq_consumer_name(),
            names_view(r@) == spec_consumer_list(
                lines_view(lines@).take(i as int),
                rabbitmq_configured,
            ),
        decreases lines@.len() - i,
    {
        proof {
            assert(lines_view(lines@).take(i + 1).drop_last() =~= lines_view(lines@).take(
                i as int,
            ));
            assert(lines_view(lines@).take(i + 1).last() == lines@[i as int]@);
        }
        let line = &lines[i];
        if line.len() > 0 {
            match string_from_utf8(line) {
                Some(name) => {
                    if rabbitmq_configured || !name.eq(&rabbit) {
                        r.push(name);
                        proof {
                            assert(names_view(r@) =~= names_view(r@.drop_last()).push(
                                r@.last()@,
                            ));
                        }
                    }
                },
                None => {},
            }
        }
        i += 1;
    }
    proof {
        assert(lines_view(lines@).take(lines@.len() as int) =~= lines_view(lines@));
    }
    r
}

/// The consumers the supervisor runs: every discovered consumer when no
/// explicit list is configured, and otherwise only the discovered
/// consumers that the configured list contains.
pub open spec fn spec_applicable(all: Seq<Seq<char>>, allowed: Seq<Seq<char>>) -> Seq<Seq<char>>
    decreases all.len(),
{
    if all.len() == 0 {
        Seq::empty()
    } else {
        let rest = spec_applicable(all.drop_last(), allowed);
        if allowed.len() == 0 || allowed.contains(all.last()) {
            rest.push(all.last())
        } else {
            rest
        }
    }
}

/// Whether some configured name equals `name`.
fn contains_name(list: &Vec<String>, name: &String) -> (r: bool)
    ensures
        r == names_view(list@).contains(name@),
{
    let mut i: usize = 0;
    while i < list.len()
        invariant
            0 <= i <= list@.len(),
            forall|j: int| 0 <= j < i ==> names_view(list@)[j] != name@,
        decreases list@.len() - i,
    {
        if list[i].eq(name) {
            proof {
                assert(names_view(list@)[i as int] == name@);
            }
            return true;
        }
        i += 1;
    }
    proof {
        assert(forall|j: int| 0 <= j < list@.len() ==> names_view(list@)[j] != name@);
    }
    false
}

/// Keeps the discovered consumers the configuration applies to, in
/// discovery order: all of them when `allowed` is empty, and otherwise
/// those that `allowed` names.
pub fn applicable_consumers(all: &Vec<String>, allowed: &Vec<String>) -> (r: Vec<String>)
    ensures
        names_view(r@) == spec_applicable(names_view(all@), names_view(allowed@)),
{
    let mut r: Vec<String> = Vec::new();
    proof {
        assert(names_view(all@).take(0) =~= Seq::<Seq<char>>::empty());
        assert(names_view(r@) =~= spec_applicable(names_view(all@).take(0), names_view(allowed@)));
    }
    let mut i: usize = 0;
    while i < all.len()
        invariant
            0 <= i <= all@.len(),
            names_view(r@) == spec_applicable(names_view(all@).take(i as int), names_view(
                allowed@,
            )),
        decreases all@.len() - i,
    {
        proof {
            assert(names_view(all@).take(i + 1).drop_last() =~= names_view(all@).take(i as int));
            assert(names_view(all@).take(i + 1).last() == all@[i as int]@);
        }
        let keep = if allowed.len() == 0 {
            true
        } else {
            contains_name(allowed, &all[i])
        };
        if keep {
            r.push(all[i].clone());
            proof {
                assert(names_view(r@) =~= names_view(r@.drop_last()).push(r@.last()@));
            }
        }
        i += 1;
    }
    proof {
        assert(names_view(all@).take(all@.len() as int) =~= names_view(all@));
    }
    r
}

/// Law: a unit that adopted one freshly spawned instance per planned
/// launch command runs with exactly its configured instance count, every
/// instance alive.
pub proof fn lemma_initialize_unit_running(
    m: UnitModel,
    pids: Seq<u64>,
    cfg: MagentoConsumerConfig,
    name: Seq<char>,
)
    requires
        m.handles == spawned_handles(pids),
        pids.len() == cfg.spec_instance_count(name),
    ensures
        is_running_with(m, cfg.spec_instance_count(name)),
{
}

/// Law: when the only instance of a single-instance unit exits — with any
/// status, including a normal self-exit — the unit fails its next health
/// check, and after the restart that this triggers the unit again runs
/// exactly one instance, alive, and under a different process identifier.
pub proof fn lemma_single_instance_recycled(
    m0: UnitModel,
    status: ProcessStatus,
    new_pids: Seq<u64>,
)
    requires
        m0.handles.len() == 1,
        all_alive(m0.handles),
        !(status is Alive),
        new_pids.len() == 1,
        !pids_of(m0.handles).contains(new_pids[0]),
    ensures
        !all_alive(with_poll(m0, 0, status).handles),
        is_running_with(restarted(m0, new_pids), 1),
        restarted(m0, new_pids).handles[0].pid != m0.handles[0].pid,
        restarted(m0, new_pids).consumer == m0.consumer,
{
    assert(!with_poll(m0, 0, status).handles[0].alive);
    assert(pids_of(m0.handles)[0] == m0.handles[0].pid);
}

/// Law: in a unit of three instances, a single instance exiting marks the
/// whole unit unhealthy, and the restart that follows replaces all three
/// instances with freshly spawned ones — there is no partial recycle.
pub proof fn lemma_partial_failure_recycles_whole_unit(
    m0: UnitModel,
    k: int,
    status: ProcessStatus,
    new_pids: Seq<u64>,
)
    requires
        m0.handles.len() == 3,
        all_alive(m0.handles),
        0 <= k < 3,
        !(status is Alive),
        new_pids.len() == 3,
    ensures
        !all_alive(with_poll(m0, k, status).handles),
        is_running_with(restarted(m0, new_pids), 3),
        forall|i: int|
            0 <= i < 3 ==> restarted(m0, new_pids).handles[i] == (ProcessHandle {
                pid: new_pids[i],
                alive: true,
                reaped: false,
            }),
{
    assert(!with_poll(m0, k, status).handles[k].alive);
}

/// Law: the graceful-termination protocol only completes once every handle
/// the unit owns has been reaped and none of them is still alive.
pub proof fn lemma_terminate_done_none_alive(m: UnitModel, t: Termination)
    requires
        term_inv(m, t),
        t.phase is Finished,
    ensures
        all_reaped(m.handles),
        forall|i: int| 0 <= i < m.handles.len() ==> !m.handles[i].alive,
{
}

/// Law: a forced kill is only ever pending once the full grace period has
/// been waited out on the instance.
pub proof fn lemma_kill_only_after_grace(m: UnitModel, t: Termination)
    requires
        term_inv(m, t),
        pending_action(t) is Kill,
    ensures
        t.waited_ms >= PROCESS_GRACEFUL_KILL_PERIOD_MS,
{
}

/// Law: while the protocol runs, its measure stays between zero and a
/// bound proportional to the number of instances. Together with the strict
/// decrease that every [`WorkerProcess::terminate_step`] guarantees, the
/// protocol finishes after a bounded number of actions, so terminating a
/// unit takes bounded wall-clock time: at most the grace period, plus one
/// poll interval, of sleeping per instance, and every other action is
/// non-blocking or bounded.
pub proof fn lemma_term_measure_bounds(m: UnitModel, t: Termination)
    requires
        term_inv(m, t),
    ensures
        0 <= term_measure(t, m.handles.len() as int),
        term_measure(t, m.handles.len() as int) <= m.handles.len() * 5560,
{
}

} // verus!
