//! The reactor's decision core.
//!
//! One dedicated thread owns a `ReactorState` and drives it in a loop: drain
//! every pending command, block on the readiness multiplexer no longer than
//! the nearest timer deadline allows, dispatch ready descriptors, then fire
//! expired timers. Caller threads never touch this state; they enqueue
//! immutable `Command` values and the loop applies them here. Each transition
//! returns an `Action` or `SettleAction` telling the surrounding loop what
//! outside work to perform (register interest with the multiplexer, run a
//! callback, deregister and close a descriptor, resolve a completion cell),
//! so every decision the loop takes is made — and specified — in this module.
//!
//! Callbacks and completion cells live on the driving side and are named here
//! by integer identifiers; descriptors are their numeric values. A write
//! registration needs no caller-side callback: its dispatch logic is the
//! verified write-progress bookkeeping in `record_write_progress`.

use vstd::prelude::*;
use crate::EventControl;
use crate::registry::{RegModel, Registration, Registry};
use crate::timer::{TimerEntry, TimerSet, deadline_sorted, due_count};

verus! {

/// A command enqueued by a caller thread, consumed exactly once by the
/// reactor loop when it drains its queue.
pub enum Command {
    /// Stop the reactor after the current drain completes.
    Shutdown,
    /// Run `callback` inline during the drain phase.
    Execute { callback: u64 },
    /// Fire `callback` once, no earlier than `delay` ticks from now, then
    /// resolve the completion cell named `completion` so the scheduling
    /// caller is notified.
    Schedule { callback: u64, delay: u64, completion: u64 },
    /// Watch `fd` for incoming connections and dispatch to `callback`.
    AddAccept { fd: u64, callback: u64 },
    /// Watch `fd` for readable data and dispatch to `callback`.
    AddRead { fd: u64, callback: u64 },
    /// Watch `fd` for writability, send `payload`, and resolve the completion
    /// cell named `completion` when the write registration is torn down.
    AddWrite { fd: u64, payload: Vec<u8>, completion: u64 },
}

/// What the loop must do right after a command is applied.
#[derive(Clone, Copy, Debug, PartialEq, Eq)]
pub enum Action {
    /// Nothing: the command only changed reactor state.
    Idle,
    /// Register read interest for `fd` with the multiplexer.
    RegisterRead { fd: u64 },
    /// Register write interest for `fd` with the multiplexer.
    RegisterWrite { fd: u64 },
    /// Run the named callback now, inline, before draining further.
    RunCallback { callback: u64 },
}

/// What the loop must do after a dispatched callback has decided.
#[derive(Clone, Copy, Debug, PartialEq, Eq)]
pub enum SettleAction {
    /// The descriptor was no longer registered: a stale event, ignore it.
    Ignore,
    /// The registration stays: re-arm interest if the facility needs it.
    Rearm { fd: u64, write_interest: bool },
    /// The registration is gone: deregister `fd` from the multiplexer, close
    /// it, and — if it was a write — resolve the named completion cell.
    Remove { fd: u64, completion: Option<u64> },
}

/// Mathematical image of the whole reactor state.
pub struct ReactorModel {
    /// Descriptor to pending operation; its domain is exactly the set of
    /// descriptors whose interest is registered with the multiplexer.
    pub registry: Map<u64, RegModel>,
    /// Pending timers, sorted by deadline ascending.
    pub timers: Seq<TimerEntry>,
    /// Whether a shutdown command has been drained.
    pub shutdown: bool,
}

impl ReactorModel {
    /// A coherent model: timers sorted, every registration coherent.
    pub open spec fn wf(self) -> bool {
        &&& deadline_sorted(self.timers)
        &&& forall|fd: u64| self.registry.contains_key(fd) ==> (#[trigger] self.registry[fd]).wf()
    }
}

/// The state after draining one command at time `now`.
pub open spec fn spec_apply(m: ReactorModel, cmd: Command, now: u64) -> ReactorModel {
    match cmd {
        Command::Shutdown => ReactorModel { registry: m.registry, timers: m.timers, shutdown: true },
        Command::Execute { .. } => m,
        Command::Schedule { callback, delay, completion } => ReactorModel {
            registry: m.registry,
            timers: m.timers.insert(
                due_count(m.timers, (now + delay) as u64),
                (TimerEntry { deadline: (now + delay) as u64, callback, completion }),
            ),
            shutdown: m.shutdown,
        },
        Command::AddAccept { fd, callback } => ReactorModel {
            registry: m.registry.insert(fd, RegModel::Accept { callback }),
            timers: m.timers,
            shutdown: m.shutdown,
        },
        Command::AddRead { fd, callback } => ReactorModel {
            registry: m.registry.insert(fd, RegModel::Read { callback }),
            timers: m.timers,
            shutdown: m.shutdown,
        },
        Command::AddWrite { fd, payload, completion } => ReactorModel {
            registry: m.registry.insert(
                fd,
                RegModel::Write { payload: payload@, written: 0, completion },
            ),
            timers: m.timers,
            shutdown: m.shutdown,
        },
    }
}

/// The outside work one drained command demands.
pub open spec fn spec_command_action(cmd: Command) -> Action {
    match cmd {
        Command::Shutdown => Action::Idle,
        Command::Execute { callback } => Action::RunCallback { callback },
        Command::Schedule { .. } => Action::Idle,
        Command::AddAccept { fd, .. } => Action::RegisterRead { fd },
        Command::AddRead { fd, .. } => Action::RegisterRead { fd },
        Command::AddWrite { fd, .. } => Action::RegisterWrite { fd },
    }
}

/// What a readiness report for `fd` dispatches: the registration in force,
/// or nothing when `fd` is not registered (a stale or spurious event).
pub open spec fn spec_dispatch(m: ReactorModel, fd: u64) -> Option<RegModel> {
    if m.registry.contains_key(fd) {
        Some(m.registry[fd])
    } else {
        None
    }
}

/// The state after a dispatched callback for `fd` returned `control`: `KEEP`
/// leaves the registration in force, `DELETE` tears it down.
pub open spec fn spec_settle(m: ReactorModel, fd: u64, control: EventControl) -> ReactorModel {
    if !m.registry.contains_key(fd) || control is KEEP {
        m
    } else {
        ReactorModel { registry: m.registry.remove(fd), timers: m.timers, shutdown: m.shutdown }
    }
}

/// The outside work a settled dispatch demands.
pub open spec fn spec_settle_action(m: ReactorModel, fd: u64, control: EventControl) -> SettleAction {
    if !m.registry.contains_key(fd) {
        SettleAction::Ignore
    } else if control is KEEP {
        SettleAction::Rearm { fd, write_interest: m.registry[fd].is_write_interest() }
    } else {
        SettleAction::Remove { fd, completion: m.registry[fd].write_completion() }
    }
}

/// The state after recording that `n` more bytes of `fd`'s pending write went
/// out.
pub open spec fn spec_record_write(m: ReactorModel, fd: u64, n: int) -> ReactorModel
    recommends
        m.registry.contains_key(fd),
        m.registry[fd] is Write,
{
    match m.registry[fd] {
        RegModel::Write { payload, written, completion } => ReactorModel {
            registry: m.registry.insert(
                fd,
                RegModel::Write { payload, written: written + n, completion },
            ),
            timers: m.timers,
            shutdown: m.shutdown,
        },
        _ => m,
    }
}

/// The control decision after `n` more bytes went out: tear the registration
/// down exactly when the whole payload has been sent.
pub open spec fn spec_write_control(m: ReactorModel, fd: u64, n: int) -> EventControl
    recommends
        m.registry.contains_key(fd),
        m.registry[fd] is Write,
{
    match m.registry[fd] {
        RegModel::Write { payload, written, .. } => if written + n == payload.len() {
            EventControl::DELETE
        } else {
            EventControl::KEEP
        },
        _ => EventControl::KEEP,
    }
}

/// All reactor-owned state: the callback registry, the timer set, and the
/// shutdown latch. Exactly one thread owns a value of this type.
pub struct ReactorState {
    registry: Registry,
    timers: TimerSet,
    shutdown: bool,
}

impl View for ReactorState {
    type V = ReactorModel;

    closed spec fn view(&self) -> ReactorModel {
        ReactorModel {
            registry: self.registry@,
            timers: self.timers@,
            shutdown: self.shutdown,
        }
    }
}

impl ReactorState {
    /// Internal invariants of the components.
    pub closed spec fn wf(self) -> bool {
        &&& self.registry.wf()
        &&& self.timers.wf()
    }

    /// A well-formed state has a coherent model.
    pub proof fn lemma_wf_model(&self)
        requires
            self.wf(),
        ensures
            self@.wf(),
    {
        self.registry.lemma_values_wf();
    }

    /// A fresh reactor: nothing registered, no timers, not shut down.
    pub fn new() -> (r: Self)
        ensures
            r.wf(),
            r@ == (ReactorModel {
                registry: Map::<u64, RegModel>::empty(),
                timers: Seq::<TimerEntry>::empty(),
                shutdown: false,
            }),
    {
        ReactorState { registry: Registry::new(), timers: TimerSet::new(), shutdown: false }
    }

    /// Drain one command at time `now`, returning the outside work it
    /// demands. `Execute` callbacks run inline on the reactor thread — the
    /// returned action tells the loop to do so before draining further.
    pub fn apply_command(&mut self, cmd: Command, now: u64) -> (a: Action)
        requires
            old(self).wf(),
            (cmd matches Command::Schedule { delay, .. } ==> now + delay <= u64::MAX),
        ensures
            final(self).wf(),
            final(self)@ == spec_apply(old(self)@, cmd, now),
            a == spec_command_action(cmd),
    {
        match cmd {
            Command::Shutdown => {
                self.shutdown = true;
                Action::Idle
            },
            Command::Execute { callback } => Action::RunCallback { callback },
            Command::Schedule { callback, delay, completion } => {
                let deadline = now + delay;
                self.timers.insert(deadline, callback, completion);
                Action::Idle
            },
            Command::AddAccept { fd, callback } => {
                self.registry.insert(fd, Registration::Accept { callback });
                Action::RegisterRead { fd }
            },
            Command::AddRead { fd, callback } => {
                self.registry.insert(fd, Registration::Read { callback });
                Action::RegisterRead { fd }
            },
            Command::AddWrite { fd, payload, completion } => {
                self.registry.insert(
                    fd,
                    Registration::Write { payload, written: 0, completion },
                );
                Action::RegisterWrite { fd }
            },
        }
    }

    /// Look up what a readiness report for `fd` dispatches. `None` means the
    /// descriptor has no registration — readiness reported after a `DELETE`
    /// or for an unknown descriptor dispatches nothing.
    pub fn on_ready(&self, fd: u64) -> (r: Option<&Registration>)
        ensures
            match r {
                Some(reg) => spec_dispatch(self@, fd) == Some(reg@),
                None => spec_dispatch(self@, fd) is None,
            },
    {
        self.registry.get(fd)
    }

    /// Apply a dispatched callback's decision for `fd`: keep the registration
    /// in force, or tear it down. Tearing down a write registration also
    /// names the completion cell to resolve.
    pub fn settle(&mut self, fd: u64, control: EventControl) -> (a: SettleAction)
        requires
            old(self).wf(),
        ensures
            final(self).wf(),
            final(self)@ == spec_settle(old(self)@, fd, control),
            a == spec_settle_action(old(self)@, fd, control),
    {
        if !self.registry.contains(fd) {
            return SettleAction::Ignore;
        }
        match control {
            EventControl::KEEP => {
                let write_interest = match self.registry.get(fd) {
                    Some(Registration::Write { .. }) => true,
                    _ => false,
                };
                SettleAction::Rearm { fd, write_interest }
            },
            EventControl::DELETE => {
                let removed = self.registry.remove(fd);
                let completion = match removed {
                    Some(Registration::Write { completion, .. }) => Some(completion),
                    _ => None,
                };
                SettleAction::Remove { fd, completion }
            },
        }
    }

    /// The bytes of `fd`'s pending write still to be sent, if `fd` holds a
    /// write registration.
    pub fn pending_write(&self, fd: u64) -> (r: Option<Vec<u8>>)
        requires
            self.wf(),
        ensures
            match r {
                Some(tail) => {
                    &&& self@.registry.contains_key(fd)
                    &&& self@.registry[fd] is Write
                    &&& tail@ == self@.registry[fd].write_payload().skip(
                        self@.registry[fd].write_written(),
                    )
                },
                None => !(self@.registry.contains_key(fd) && self@.registry[fd] is Write),
            },
    {
        proof {
            self.lemma_wf_model();
        }
        match self.registry.get(fd) {
            Some(reg) => match reg {
                Registration::Write { payload, written, .. } => {
                    let mut tail: Vec<u8> = Vec::new();
                    let mut i: usize = *written;
                    while i < payload.len()
                        invariant
                            *written <= i <= payload@.len(),
                            tail@ == payload@.subrange(*written as int, i as int),
                        decreases payload@.len() - i,
                    {
                        tail.push(payload[i]);
                        i = i + 1;
                        proof {
                            assert(tail@ =~= payload@.subrange(*written as int, i as int));
                        }
                    }
                    proof {
                        assert(tail@ =~= self@.registry[fd].write_payload().skip(
                            self@.registry[fd].write_written(),
                        ));
                    }
                    Some(tail)
                },
                _ => None,
            },
            None => None,
        }
    }

    /// Record that `n` more bytes of `fd`'s pending write went out; the
    /// returned control tears the registration down exactly when the whole
    /// payload has been sent.
    pub fn record_write_progress(&mut self, fd: u64, n: usize) -> (c: EventControl)
        requires
            old(self).wf(),
            old(self)@.registry.contains_key(fd),
            old(self)@.registry[fd] is Write,
            n <= old(self)@.registry[fd].write_payload().len()
                - old(self)@.registry[fd].write_written(),
        ensures
            final(self).wf(),
            final(self)@ == spec_record_write(old(self)@, fd, n as int),
            c == spec_write_control(old(self)@, fd, n as int),
    {
        proof {
            old(self).lemma_wf_model();
        }
        match self.registry.remove(fd) {
            Some(Registration::Write { payload, written, completion }) => {
                let cap = payload.len();
                proof {
                    assert(written as int == old(self)@.registry[fd].write_written());
                    assert(payload@.len() == old(self)@.registry[fd].write_payload().len());
                    assert(written + n <= cap);
                }
                let new_written = written + n;
                let done = new_written == cap;
                self.registry.insert(
                    fd,
                    Registration::Write { payload, written: new_written, completion },
                );
                proof {
                    assert(final(self)@.registry =~= spec_record_write(
                        old(self)@,
                        fd,
                        n as int,
                    ).registry);
                }
                if done {
                    EventControl::DELETE
                } else {
                    EventControl::KEEP
                }
            },
            _ => unreached(),
        }
    }

    /// How long the loop may block at time `now` without missing a timer:
    /// `None` when no timer is pending (block indefinitely until a wake),
    /// otherwise the time remaining until the nearest deadline.
    pub fn wait_timeout(&self, now: u64) -> (r: Option<u64>)
        requires
            self.wf(),
        ensures
            match r {
                Some(t) => self@.timers.len() > 0 && t == if self@.timers[0].deadline > now {
                    self@.timers[0].deadline - now
                } else {
                    0
                },
                None => self@.timers.len() == 0,
            },
    {
        self.timers.wait_timeout(now)
    }

    /// Remove and return every timer due at time `now`, in ascending deadline
    /// order; fired timers are one-shot and never re-armed.
    pub fn pop_expired(&mut self, now: u64) -> (fired: Vec<TimerEntry>)
        requires
            old(self).wf(),
        ensures
            final(self).wf(),
            fired@ == old(self)@.timers.take(due_count(old(self)@.timers, now)),
            final(self)@.timers == old(self)@.timers.skip(due_count(old(self)@.timers, now)),
            old(self)@.timers == fired@ + final(self)@.timers,
            final(self)@.registry == old(self)@.registry,
            final(self)@.shutdown == old(self)@.shutdown,
            forall|i: int| 0 <= i < fired@.len() ==> fired@[i].deadline <= now,
            forall|i: int| 0 <= i < final(self)@.timers.len() ==> final(self)@.timers[i].deadline
                > now,
    {
        self.timers.pop_expired(now)
    }

    /// Whether a drained shutdown command has told the loop to stop.
    pub fn should_exit(&self) -> (r: bool)
        ensures
            r == self@.shutdown,
    {
        self.shutdown
    }

    /// Tear every registration down for shutdown, handing back the registered
    /// descriptors (each once) so the loop can deregister and close them.
    pub fn drain_registrations(&mut self) -> (fds: Vec<u64>)
        requires
            old(self).wf(),
        ensures
            final(self).wf(),
            final(self)@.registry == Map::<u64, RegModel>::empty(),
            final(self)@.timers == old(self)@.timers,
            final(self)@.shutdown == old(self)@.shutdown,
            fds@.no_duplicates(),
            fds@.to_set() == old(self)@.registry.dom(),
    {
        self.registry.drain()
    }
}

/// The decision for a write attempt that failed before any byte went out: a
/// would-block report means the descriptor was not actually writable yet, so
/// the registration stays and waits for the next readiness; any other failure
/// tears the registration down, which closes the descriptor and resolves its
/// completion cell.
pub fn write_failure_control(would_block: bool) -> (c: EventControl)
    ensures
        c == (if would_block {
            EventControl::KEEP
        } else {
            EventControl::DELETE
        }),
{
    if would_block {
        EventControl::KEEP
    } else {
        EventControl::DELETE
    }
}

/// The descriptor a watch command (accept, read or write) registers, if any.
pub open spec fn spec_watch_fd(cmd: Command) -> Option<u64> {
    match cmd {
        Command::AddAccept { fd, .. } => Some(fd),
        Command::AddRead { fd, .. } => Some(fd),
        Command::AddWrite { fd, .. } => Some(fd),
        _ => None,
    }
}

/// Law: a drained watch command installs a registration for its descriptor;
/// every readiness report for that descriptor then dispatches exactly that
/// registration — a `KEEP` decision changes nothing, so the callback keeps
/// firing once per readiness occurrence — until a dispatch returns `DELETE`,
/// after which nothing dispatches.
pub proof fn lemma_dispatch_until_delete(m: ReactorModel, cmd: Command, now: u64, fd: u64)
    requires
        spec_watch_fd(cmd) == Some(fd),
    ensures
        ({
            let m1 = spec_apply(m, cmd, now);
            &&& spec_dispatch(m1, fd) is Some
            &&& spec_settle(m1, fd, EventControl::KEEP) == m1
            &&& spec_dispatch(spec_settle(m1, fd, EventControl::KEEP), fd) == spec_dispatch(m1, fd)
            &&& spec_dispatch(spec_settle(m1, fd, EventControl::DELETE), fd) is None
        }),
{
}

/// The state after a run of dispatch settlements for `fd`, one per readiness
/// occurrence, with the callback decisions `cs` in order.
pub open spec fn spec_settle_run(m: ReactorModel, fd: u64, cs: Seq<EventControl>) -> ReactorModel
    decreases cs.len(),
{
    if cs.len() == 0 {
        m
    } else {
        spec_settle_run(spec_settle(m, fd, cs[0]), fd, cs.drop_first())
    }
}

/// Settling a descriptor that has no registration never changes anything,
/// however long the run: stale readiness reports are inert.
pub proof fn lemma_settle_run_unregistered(m: ReactorModel, fd: u64, cs: Seq<EventControl>)
    requires
        !m.registry.contains_key(fd),
    ensures
        spec_settle_run(m, fd, cs) == m,
    decreases cs.len(),
{
    if cs.len() > 0 {
        assert(spec_settle(m, fd, cs[0]) == m);
        lemma_settle_run_unregistered(m, fd, cs.drop_first());
    }
}

/// Law: a registered callback fires exactly once per readiness occurrence
/// until it returns `DELETE`. Over any run of readiness occurrences whose
/// decisions are `cs`, the next occurrence dispatches — and dispatches the
/// original registration, unchanged — exactly as long as every decision so
/// far was `KEEP`; from the first `DELETE` on, nothing dispatches.
pub proof fn lemma_settle_run_dispatch(m: ReactorModel, fd: u64, cs: Seq<EventControl>)
    requires
        m.registry.contains_key(fd),
    ensures
        ({
            let m1 = spec_settle_run(m, fd, cs);
            &&& (forall|j: int| 0 <= j < cs.len() ==> cs[j] is KEEP) ==> spec_dispatch(m1, fd)
                == Some(m.registry[fd])
            &&& (exists|j: int| 0 <= j < cs.len() && cs[j] is DELETE) ==> spec_dispatch(
                m1,
                fd,
            ) is None
        }),
    decreases cs.len(),
{
    if cs.len() > 0 {
        let m2 = spec_settle(m, fd, cs[0]);
        if cs[0] is KEEP {
            assert(m2 == m);
            lemma_settle_run_dispatch(m, fd, cs.drop_first());
            if exists|j: int| 0 <= j < cs.len() && cs[j] is DELETE {
                let j = choose|j: int| 0 <= j < cs.len() && cs[j] is DELETE;
                assert(cs.drop_first()[j - 1] is DELETE);
            }
        } else {
            assert(!m2.registry.contains_key(fd));
            lemma_settle_run_unregistered(m2, fd, cs.drop_first());
        }
    }
}

/// The state after one full drain of the command queue at time `now`,
/// applying `cmds` in the order a FIFO queue hands them out.
pub open spec fn spec_drain(m: ReactorModel, cmds: Seq<Command>, now: u64) -> ReactorModel
    decreases cmds.len(),
{
    if cmds.len() == 0 {
        m
    } else {
        spec_drain(spec_apply(m, cmds[0], now), cmds.drop_first(), now)
    }
}

/// Law: the loop exits at most one full drain-and-dispatch cycle after a
/// shutdown command is enqueued. A full drain raises the exit latch exactly
/// when the drained commands contain `Shutdown` (or the latch was already
/// raised) — and the loop, which tests the latch right after every drain,
/// then stops.
pub proof fn lemma_drain_observes_shutdown(m: ReactorModel, cmds: Seq<Command>, now: u64)
    ensures
        spec_drain(m, cmds, now).shutdown <==> (m.shutdown || exists|j: int|
            0 <= j < cmds.len() && cmds[j] is Shutdown),
    decreases cmds.len(),
{
    if cmds.len() > 0 {
        let m2 = spec_apply(m, cmds[0], now);
        lemma_drain_observes_shutdown(m2, cmds.drop_first(), now);
        assert(m2.shutdown <==> (m.shutdown || cmds[0] is Shutdown));
        if exists|j: int| 0 <= j < cmds.drop_first().len() && cmds.drop_first()[j] is Shutdown {
            let j = choose|j: int|
                0 <= j < cmds.drop_first().len() && cmds.drop_first()[j] is Shutdown;
            assert(cmds[j + 1] is Shutdown);
        }
        if exists|j: int| 0 <= j < cmds.len() && cmds[j] is Shutdown {
            let j = choose|j: int| 0 <= j < cmds.len() && cmds[j] is Shutdown;
            if j > 0 {
                assert(cmds.drop_first()[j - 1] is Shutdown);
            }
        }
    }
}

/// Law: once a dispatch for a descriptor has settled with `DELETE`, that
/// descriptor has no registration, so no further dispatch occurs for it even
/// if the multiplexer still reports it ready; and settling never registers
/// anything that was not registered before.
pub proof fn lemma_delete_stops_dispatch(m: ReactorModel, fd: u64)
    ensures
        ({
            let m1 = spec_settle(m, fd, EventControl::DELETE);
            &&& !m1.registry.contains_key(fd)
            &&& spec_dispatch(m1, fd) is None
            &&& spec_settle_action(m1, fd, EventControl::KEEP) == SettleAction::Ignore
            &&& spec_settle_action(m1, fd, EventControl::DELETE) == SettleAction::Ignore
            &&& forall|other: u64| #![auto]
                m1.registry.contains_key(other) ==> m.registry.contains_key(other)
        }),
{
}

/// Law: shutdown latches. Draining a `Shutdown` command raises the exit flag,
/// and no later command, dispatch settlement, write progress or timer firing
/// lowers it — so the loop, which tests the flag after every full drain,
/// terminates at most one drain-and-dispatch cycle after the shutdown command
/// was enqueued.
pub proof fn lemma_shutdown_latches(m: ReactorModel, cmd: Command, now: u64)
    ensures
        spec_apply(m, Command::Shutdown, now).shutdown,
        m.shutdown ==> spec_apply(m, cmd, now).shutdown,
        forall|fd: u64, ctl: EventControl|
            (#[trigger] spec_settle(m, fd, ctl)).shutdown == m.shutdown,
        forall|fd: u64, n: int| (#[trigger] spec_record_write(m, fd, n)).shutdown == m.shutdown,
{
}

/// Law: timers never fire early. Scheduling a callback with delay `delay` at
/// time `t0` installs a timer with deadline `t0 + delay`; at any instant
/// `now`, only timers whose deadline has passed are fired, so for any
/// `now < t0 + delay` the fired batch cannot contain the new timer — it fires
/// no earlier than `delay` after its enqueue.
pub proof fn lemma_schedule_fires_no_earlier(
    m: ReactorModel,
    callback: u64,
    delay: u64,
    completion: u64,
    t0: u64,
    now: u64,
)
    requires
        deadline_sorted(m.timers),
        t0 + delay <= u64::MAX,
    ensures
        ({
            let m1 = spec_apply(m, Command::Schedule { callback, delay, completion }, t0);
            let fired = m1.timers.take(due_count(m1.timers, now));
            &&& m1.timers.contains(
                TimerEntry { deadline: (t0 + delay) as u64, callback, completion },
            )
            &&& forall|i: int| 0 <= i < fired.len() ==> (#[trigger] fired[i]).deadline <= now
            &&& now < t0 + delay ==> forall|i: int|
                0 <= i < fired.len() ==> (#[trigger] fired[i]).deadline != t0 + delay
        }),
{
    let dl = (t0 + delay) as u64;
    let e = TimerEntry { deadline: dl, callback, completion };
    let k = due_count(m.timers, dl);
    crate::timer::lemma_due_count_bounds(m.timers, dl);
    let m1 = spec_apply(m, Command::Schedule { callback, delay, completion }, t0);
    assert(m1.timers == m.timers.insert(k, e));
    assert(m1.timers[k] == e);
    assert(m1.timers.contains(e));
    crate::timer::lemma_due_count_bounds(m1.timers, now);
    let fired = m1.timers.take(due_count(m1.timers, now));
    assert forall|i: int| 0 <= i < fired.len() implies (#[trigger] fired[i]).deadline <= now by {
        assert(fired[i] == m1.timers[i]);
    }
}

/// Law: a scheduled operation notifies its caller through its own completion
/// cell. The timer a `Schedule` command installs carries the command's
/// completion identifier, and once its deadline has passed the fired batch
/// contains that very entry — so the cell the loop resolves after running the
/// callback is exactly the one the scheduling caller holds.
pub proof fn lemma_schedule_completion_on_fire(
    m: ReactorModel,
    callback: u64,
    delay: u64,
    completion: u64,
    t0: u64,
    now: u64,
)
    requires
        deadline_sorted(m.timers),
        t0 + delay <= u64::MAX,
        now >= t0 + delay,
    ensures
        ({
            let m1 = spec_apply(m, Command::Schedule { callback, delay, completion }, t0);
            let fired = m1.timers.take(due_count(m1.timers, now));
            exists|i: int|
                0 <= i < fired.len() && fired[i] == (TimerEntry {
                    deadline: (t0 + delay) as u64,
                    callback,
                    completion,
                })
        }),
{
    let dl = (t0 + delay) as u64;
    let e = TimerEntry { deadline: dl, callback, completion };
    let k = due_count(m.timers, dl);
    crate::timer::lemma_due_count_bounds(m.timers, dl);
    crate::timer::lemma_insert_at_due_count_sorted(m.timers, e);
    let m1 = spec_apply(m, Command::Schedule { callback, delay, completion }, t0);
    assert(m1.timers == m.timers.insert(k, e));
    assert(m1.timers[k] == e);
    crate::timer::lemma_due_count_bounds(m1.timers, now);
    let c = due_count(m1.timers, now);
    assert(k < c) by {
        if c <= k {
            assert(m1.timers[k].deadline > now);
        }
    }
    let fired = m1.timers.take(c);
    assert(fired[k] == e);
}

/// Law: the multiplexer's interest set tracks the registry's domain. A
/// drained command asks the loop to register interest exactly for the
/// descriptor it registers (and a command that registers nothing leaves the
/// registry alone); a settlement asks for deregistration exactly when it
/// removes a registration, and otherwise changes nothing. So a registration
/// exists if and only if its descriptor's interest is registered with the
/// multiplexer.
pub proof fn lemma_interest_matches_registry(
    m: ReactorModel,
    cmd: Command,
    now: u64,
    fd: u64,
    ctl: EventControl,
)
    ensures
        (spec_command_action(cmd) matches Action::RegisterRead { fd: f } ==> spec_apply(
            m,
            cmd,
            now,
        ).registry.contains_key(f)),
        (spec_command_action(cmd) matches Action::RegisterWrite { fd: f } ==> spec_apply(
            m,
            cmd,
            now,
        ).registry.contains_key(f)),
        (spec_command_action(cmd) is Idle || spec_command_action(cmd) is RunCallback)
            ==> spec_apply(m, cmd, now).registry == m.registry,
        (spec_settle_action(m, fd, ctl) matches SettleAction::Remove { fd: f, .. } ==> f == fd
            && m.registry.contains_key(fd) && !spec_settle(m, fd, ctl).registry.contains_key(fd)),
        (spec_settle_action(m, fd, ctl) is Ignore || spec_settle_action(m, fd, ctl) is Rearm)
            ==> spec_settle(m, fd, ctl).registry == m.registry,
{
}

/// Law: the completion cell named when a write registration is torn down is
/// exactly the one its `AddWrite` command carried; a `KEEP` settlement names
/// none; and write progress asks for teardown precisely when the whole
/// payload has been sent.
pub proof fn lemma_write_completion_on_teardown(
    m: ReactorModel,
    fd: u64,
    payload: Vec<u8>,
    completion: u64,
    now: u64,
)
    ensures
        ({
            let m1 = spec_apply(m, Command::AddWrite { fd, payload, completion }, now);
            &&& spec_settle_action(m1, fd, EventControl::DELETE) == (SettleAction::Remove {
                fd,
                completion: Some(completion),
            })
            &&& spec_settle_action(m1, fd, EventControl::KEEP) == (SettleAction::Rearm {
                fd,
                write_interest: true,
            })
            &&& forall|n: int|
                spec_write_control(m1, fd, n) == (if n == payload@.len() {
                    EventControl::DELETE
                } else {
                    EventControl::KEEP
                })
        }),
{
}

} // verus!
