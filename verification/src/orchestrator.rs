//! The course of one backup run.
//!
//! A run is a state machine.  The caller performs what the machine asks for
//! (estimate the volumes, probe a destination, spawn a transfer, wait on the
//! result channel, kill a transfer) and reports back what happened; the
//! machine decides what comes next and keeps the report.  [`RunModel`] is the
//! machine as mathematics, [`Orchestrator`] the value that a program drives.

use crate::backup_result::{
    clone_outcome, outcome_view, report_view, BackupError, BackupErrorView, ErrorKind, Outcome,
    OutcomeView,
};
use crate::orchestrator_laws::{lemma_init_wf, lemma_step_wf};
use crate::destination::{check_space, space_check};
use crate::text::texts;
use vstd::prelude::*;
use vstd::string::*;

verus! {

/// Where a run stands.
#[derive(Clone, Copy, Debug, PartialEq, Eq, Structural)]
pub enum Phase {
    /// Nothing has been asked of the caller yet.
    Idle,
    /// The volumes are measured and the destinations are checked, prepared
    /// and given their transfer, one after the other.
    Preparing,
    /// Transfers run; the orchestrator waits on the result channel.
    Running,
    /// The user cancelled: transfers that still run are killed.
    Draining,
    /// Every destination has its outcome.
    Completed,
}

/// What the caller has to do next.
#[derive(Clone, Copy, Debug, PartialEq, Eq, Structural)]
pub enum Action {
    /// Report `Event::Started`.
    Start,
    /// Measure the volumes and report `Event::SizeEstimated`.
    EstimateSize,
    /// Probe the free space of a destination and report `Event::SpaceProbed`.
    CheckSpace { destination: usize },
    /// Prepare a destination and report `Event::Prepared`.
    Prepare { destination: usize },
    /// Start the transfer to a destination and report `Event::Spawned`.
    Spawn { destination: usize },
    /// Start one monitor for each transfer and report `Event::MonitorsStarted`.
    StartMonitors,
    /// Take the next message from the result channel and report it.
    Receive,
    /// Kill a transfer and report `Event::Killed`.
    Kill { transfer: usize },
    /// Wait for every monitor to end and report `Event::Joined`.
    Join,
    /// The report is final: hand it out.
    Return,
}

/// What arrives on the result channel.
#[derive(Debug)]
pub enum ChannelMessage {
    /// The monitor of a transfer saw it end.
    Outcome { transfer: usize, outcome: Outcome },
    /// The user asked to cancel the run.
    CancelRequested,
}

/// What the caller reports back.
#[derive(Debug)]
pub enum Event {
    Started,
    SizeEstimated(Result<u64, BackupError>),
    SpaceProbed(Result<u64, BackupError>),
    Prepared(Result<(), BackupError>),
    Spawned(Result<(), BackupError>),
    MonitorsStarted,
    Message(ChannelMessage),
    Killed(Result<(), BackupError>),
    Joined,
}

/// Mathematical content of an [`Event`].
pub enum EventView {
    Started,
    SizeEstimated(Result<u64, BackupErrorView>),
    SpaceProbed(Result<u64, BackupErrorView>),
    Prepared(Result<(), BackupErrorView>),
    Spawned(Result<(), BackupErrorView>),
    MonitorsStarted,
    Outcome { transfer: usize, outcome: OutcomeView },
    CancelRequested,
    Killed(Result<(), BackupErrorView>),
    Joined,
}

/// The content of a result whose error is a [`BackupError`].
pub open spec fn result_view<T>(r: Result<T, BackupError>) -> Result<T, BackupErrorView> {
    match r {
        Ok(v) => Ok(v),
        Err(e) => Err(e@),
    }
}

impl View for Event {
    type V = EventView;

    open spec fn view(&self) -> EventView {
        match *self {
            Event::Started => EventView::Started,
            Event::SizeEstimated(r) => EventView::SizeEstimated(result_view(r)),
            Event::SpaceProbed(r) => EventView::SpaceProbed(result_view(r)),
            Event::Prepared(r) => EventView::Prepared(result_view(r)),
            Event::Spawned(r) => EventView::Spawned(result_view(r)),
            Event::MonitorsStarted => EventView::MonitorsStarted,
            Event::Message(ChannelMessage::Outcome { transfer, outcome }) => EventView::Outcome {
                transfer,
                outcome: outcome_view(outcome),
            },
            Event::Message(ChannelMessage::CancelRequested) => EventView::CancelRequested,
            Event::Killed(r) => EventView::Killed(result_view(r)),
            Event::Joined => EventView::Joined,
        }
    }
}

/// The outcome that reports an error.
pub open spec fn error_outcome(err: BackupErrorView) -> OutcomeView {
    OutcomeView::Error { kind: err.kind, message: err.message }
}

/// The outcome that ends a cancelled run.
pub open spec fn interrupted() -> OutcomeView {
    OutcomeView::Error { kind: ErrorKind::Interrupted, message: "Backup interrupted"@ }
}

/// How many entries of `s` are `None`.
pub open spec fn count_none(s: Seq<Option<usize>>) -> nat
    decreases s.len(),
{
    if s.len() == 0 {
        0
    } else {
        count_none(s.drop_last()) + if s.last() is None {
            1nat
        } else {
            0nat
        }
    }
}

/// Whether the report of `entries` outcomes and the destinations point at
/// each other: a destination with an outcome names the entry that holds it,
/// and an entry for a destination is the one that the destination names.
pub open spec fn indexed(
    n: nat,
    outcome_index: Seq<Option<usize>>,
    entries: nat,
    sources: Seq<Option<usize>>,
) -> bool {
    &&& outcome_index.len() == n
    &&& sources.len() == entries
    &&& forall|i: int|
        0 <= i < n ==> (#[trigger] outcome_index[i] matches Some(j) ==> j < entries
            && sources[j as int] == Some(i as usize))
    &&& forall|j: int|
        0 <= j < entries ==> (#[trigger] sources[j] matches Some(i) ==> i < n
            && outcome_index[i as int] == Some(j as usize))
}

/// Whether every transfer belongs to a destination before `cursor`.
pub open spec fn spawned_before(transfers: Seq<usize>, cursor: int) -> bool {
    forall|t: int| 0 <= t < transfers.len() ==> #[trigger] transfers[t] < cursor
}

/// Whether no destination at or after `cursor` has an outcome.
pub open spec fn untouched_from(outcome_index: Seq<Option<usize>>, cursor: int) -> bool {
    forall|i: int| cursor <= i < outcome_index.len() ==> #[trigger] outcome_index[i] is None
}

/// Whether `destination` has a transfer.
pub open spec fn has_transfer(transfers: Seq<usize>, destination: int) -> bool {
    exists|t: int| 0 <= t < transfers.len() && #[trigger] transfers[t] == destination
}

/// Whether every destination before `cursor` that has no outcome has a
/// transfer.
pub open spec fn waiting_are_transfers(
    outcome_index: Seq<Option<usize>>,
    transfers: Seq<usize>,
    cursor: int,
) -> bool {
    forall|i: int|
        0 <= i < cursor && i < outcome_index.len() && outcome_index[i] is None
            ==> #[trigger] has_transfer(transfers, i)
}

/// A run as mathematics.
pub struct RunModel {
    /// Display name of each destination, in input order.
    pub names: Seq<Seq<char>>,
    pub phase: Phase,
    pub pending: Action,
    /// Bytes that every destination must offer.
    pub required: u64,
    /// The destination of each transfer that was spawned, in spawn order.
    pub transfers: Seq<usize>,
    /// For each destination, where in the report its outcome stands.
    pub outcome_index: Seq<Option<usize>>,
    /// For each transfer, whether its kill was asked for.
    pub kill_requested: Seq<bool>,
    /// The outcomes so far, in order of arrival.
    pub report: Seq<OutcomeView>,
    /// For each entry of the report, the destination it accounts for; `None`
    /// for an entry about the run as a whole.
    pub sources: Seq<Option<usize>>,
}

impl RunModel {
    /// A run over the given destinations that has not started.
    pub open spec fn init(names: Seq<Seq<char>>) -> RunModel {
        RunModel {
            names,
            phase: Phase::Idle,
            pending: Action::Start,
            required: 0,
            transfers: Seq::empty(),
            outcome_index: Seq::new(names.len(), |i: int| None::<usize>),
            kill_requested: Seq::empty(),
            report: Seq::empty(),
            sources: Seq::empty(),
        }
    }

    /// The first destination that has not been through its checks.
    pub open spec fn cursor(self) -> int {
        match self.pending {
            Action::Start | Action::EstimateSize => 0,
            Action::CheckSpace { destination } => destination as int,
            Action::Prepare { destination } => destination as int,
            Action::Spawn { destination } => destination as int,
            _ => self.names.len() as int,
        }
    }

    /// Whether transfer `t` was spawned and has no outcome yet.
    pub open spec fn unfinished(self, t: int) -> bool {
        0 <= t < self.transfers.len() && self.outcome_index[self.transfers[t] as int] is None
    }

    /// Whether every outcome in the report belongs to a destination.
    pub open spec fn all_per_destination(self) -> bool {
        count_none(self.sources) == 0
    }

    /// Whether every destination has exactly its outcome in the report.
    pub open spec fn complete(self) -> bool {
        self.report.len() == self.names.len() && self.all_per_destination()
    }

    /// Whether the kill of every unfinished transfer before `bound` was asked for.
    pub open spec fn kills_requested_before(self, bound: int) -> bool {
        forall|t: int| 0 <= t < bound && self.unfinished(t) ==> #[trigger] self.kill_requested[t]
    }

    /// Whether the run gave up because the volumes could not be measured.
    pub open spec fn estimate_failed(self) -> bool {
        self.phase == Phase::Preparing && self.pending == Action::Return
    }

    /// What holds of every run that a program can reach.
    pub open spec fn wf(self) -> bool {
        let n = self.names.len();
        &&& n <= usize::MAX
        &&& self.kill_requested.len() == self.transfers.len()
        &&& 0 <= self.cursor() <= n
        &&& self.transfers.len() <= self.cursor()
        &&& indexed(n, self.outcome_index, self.report.len(), self.sources)
        &&& self.report.len() + count_none(self.outcome_index) == n + count_none(self.sources)
        &&& spawned_before(self.transfers, self.cursor())
        &&& untouched_from(self.outcome_index, self.cursor())
        &&& !self.estimate_failed() ==> waiting_are_transfers(
            self.outcome_index,
            self.transfers,
            self.cursor(),
        )
        &&& self.pending_fits()
    }

    /// Whether phase, pending action and report fit together.
    pub open spec fn pending_fits(self) -> bool {
        let n = self.names.len();
        match self.pending {
            Action::Start => self.phase == Phase::Idle && self.report.len() == 0
                && self.transfers.len() == 0,
            Action::EstimateSize => self.phase == Phase::Preparing && self.report.len() == 0
                && self.transfers.len() == 0,
            Action::CheckSpace { destination } => self.phase == Phase::Preparing && destination < n
                && self.all_per_destination(),
            Action::Prepare { destination } => self.phase == Phase::Preparing && destination < n
                && self.all_per_destination(),
            Action::Spawn { destination } => self.phase == Phase::Preparing && destination < n
                && self.all_per_destination(),
            Action::StartMonitors => self.phase == Phase::Running && self.all_per_destination()
                && self.report.len() < n,
            Action::Receive => self.phase == Phase::Running && self.all_per_destination()
                && self.report.len() < n,
            Action::Kill { transfer } => self.phase == Phase::Draining && self.unfinished(
                transfer as int,
            ) && self.kills_requested_before(transfer + 1),
            Action::Join => (self.phase == Phase::Completed && self.complete()) || (self.phase
                == Phase::Draining && self.kills_requested_before(self.transfers.len() as int)),
            Action::Return => (self.phase == Phase::Completed && self.complete()) || (self.phase
                == Phase::Draining && self.kills_requested_before(self.transfers.len() as int)
                && self.report.len() > 0 && self.report.last() == interrupted()
                && self.sources.last() is None) || (self.phase == Phase::Preparing
                && self.report.len() == 1 && self.sources[0] is None && self.transfers.len() == 0),
        }
    }

    /// The run with `outcome` entered for `destination`.
    pub open spec fn record(self, destination: usize, outcome: OutcomeView) -> RunModel {
        RunModel {
            report: self.report.push(outcome),
            sources: self.sources.push(Some(destination)),
            outcome_index: self.outcome_index.update(
                destination as int,
                Some(self.report.len() as usize),
            ),
            ..self
        }
    }

    /// The run with `outcome` entered for the run as a whole.
    pub open spec fn record_general(self, outcome: OutcomeView) -> RunModel {
        RunModel {
            report: self.report.push(outcome),
            sources: self.sources.push(None),
            ..self
        }
    }

    /// The run once every destination before `cursor` has been through its
    /// checks: the next destination is checked; when none is left, the run
    /// ends if no transfer was spawned and waits for the transfers otherwise.
    pub open spec fn advance(self, cursor: int) -> RunModel {
        if cursor < self.names.len() {
            RunModel { pending: Action::CheckSpace { destination: cursor as usize }, ..self }
        } else if self.report.len() == self.names.len() {
            RunModel { phase: Phase::Completed, pending: Action::Return, ..self }
        } else {
            RunModel { phase: Phase::Running, pending: Action::StartMonitors, ..self }
        }
    }

    /// The run after `destination` failed one of its checks with `err`.
    pub open spec fn fail(self, destination: usize, err: BackupErrorView) -> RunModel {
        self.record(destination, error_outcome(err)).advance(destination + 1)
    }

    /// The first unfinished transfer at or after `from`, or the number of
    /// transfers if there is none.
    pub open spec fn next_unfinished(self, from: int) -> int
        decreases self.transfers.len() - from,
    {
        if from < 0 || from >= self.transfers.len() {
            self.transfers.len() as int
        } else if self.unfinished(from) {
            from
        } else {
            self.next_unfinished(from + 1)
        }
    }

    /// The draining run that turns to the transfers at or after `from`: the
    /// first unfinished one is to be killed; when none is left, the monitors
    /// are joined.
    pub open spec fn next_kill(self, from: int) -> RunModel {
        let t = self.next_unfinished(from);
        if t < self.transfers.len() {
            RunModel {
                phase: Phase::Draining,
                pending: Action::Kill { transfer: t as usize },
                kill_requested: self.kill_requested.update(t, true),
                ..self
            }
        } else {
            RunModel { phase: Phase::Draining, pending: Action::Join, ..self }
        }
    }

    /// The run after the caller reported `event`.  An event that does not
    /// answer the pending action changes nothing.
    pub open spec fn step(self, event: EventView) -> RunModel {
        match (self.pending, event) {
            (Action::Start, EventView::Started) => RunModel {
                phase: Phase::Preparing,
                pending: Action::EstimateSize,
                ..self
            },
            (Action::EstimateSize, EventView::SizeEstimated(Ok(total))) => RunModel {
                required: total,
                ..self
            }.advance(0),
            (Action::EstimateSize, EventView::SizeEstimated(Err(err))) => RunModel {
                pending: Action::Return,
                ..self.record_general(error_outcome(err))
            },
            (Action::CheckSpace { destination }, EventView::SpaceProbed(Ok(available))) => {
                match space_check(self.names[destination as int], self.required, available) {
                    Ok(_) => RunModel { pending: Action::Prepare { destination }, ..self },
                    Err(err) => self.fail(destination, err),
                }
            },
            (Action::CheckSpace { destination }, EventView::SpaceProbed(Err(err))) => self.fail(
                destination,
                err,
            ),
            (Action::Prepare { destination }, EventView::Prepared(Ok(_))) => RunModel {
                pending: Action::Spawn { destination },
                ..self
            },
            (Action::Prepare { destination }, EventView::Prepared(Err(err))) => self.fail(
                destination,
                err,
            ),
            (Action::Spawn { destination }, EventView::Spawned(Ok(_))) => RunModel {
                transfers: self.transfers.push(destination),
                kill_requested: self.kill_requested.push(false),
                ..self
            }.advance(destination + 1),
            (Action::Spawn { destination }, EventView::Spawned(Err(err))) => self.fail(
                destination,
                err,
            ),
            (Action::StartMonitors, EventView::MonitorsStarted) => RunModel {
                pending: Action::Receive,
                ..self
            },
            (Action::Receive, EventView::Outcome { transfer, outcome }) => {
                if self.unfinished(transfer as int) {
                    let next = self.record(self.transfers[transfer as int], outcome);
                    if next.report.len() == next.names.len() {
                        RunModel { phase: Phase::Completed, pending: Action::Join, ..next }
                    } else {
                        next
                    }
                } else {
                    self
                }
            },
            (Action::Receive, EventView::CancelRequested) => self.next_kill(0),
            (Action::Kill { transfer }, EventView::Killed(Ok(_))) => self.next_kill(transfer + 1),
            (Action::Kill { transfer }, EventView::Killed(Err(err))) => self.record_general(
                error_outcome(err),
            ).next_kill(transfer + 1),
            (Action::Join, EventView::Joined) => {
                if self.phase == Phase::Draining {
                    RunModel { pending: Action::Return, ..self.record_general(interrupted()) }
                } else {
                    RunModel { pending: Action::Return, ..self }
                }
            },
            _ => self,
        }
    }

    /// The run after the caller reported `events`, one after the other.
    pub open spec fn run(self, events: Seq<EventView>) -> RunModel
        decreases events.len(),
    {
        if events.len() == 0 {
            self
        } else {
            self.run(events.drop_last()).step(events.last())
        }
    }
}

/// A backup run that a program drives: it performs the pending action,
/// reports what happened with [`Orchestrator::step`] and goes on until the
/// pending action is [`Action::Return`].
pub struct Orchestrator {
    names: Vec<String>,
    phase: Phase,
    pending: Action,
    required: u64,
    transfers: Vec<usize>,
    outcome_index: Vec<Option<usize>>,
    kill_requested: Vec<bool>,
    report: Vec<Outcome>,
    sources: Vec<Option<usize>>,
}

impl View for Orchestrator {
    type V = RunModel;

    closed spec fn view(&self) -> RunModel {
        RunModel {
            names: texts(self.names@),
            phase: self.phase,
            pending: self.pending,
            required: self.required,
            transfers: self.transfers@,
            outcome_index: self.outcome_index@,
            kill_requested: self.kill_requested@,
            report: report_view(self.report@),
            sources: self.sources@,
        }
    }
}

impl Orchestrator {
    /// Whether the run is one that `new` and `step` can produce.
    pub open spec fn wf(&self) -> bool {
        self@.wf()
    }

    /// A run over the destinations with the given display names, in input
    /// order.  Nothing has been asked of the caller yet.
    pub fn new(names: Vec<String>) -> (run: Orchestrator)
        ensures
            run.wf(),
            run@ == RunModel::init(texts(names@)),
    {
        let n = names.len();
        let mut outcome_index: Vec<Option<usize>> = Vec::new();
        let mut i: usize = 0;
        while i < n
            invariant
                i <= n,
                outcome_index.len() == i,
                forall|k: int| 0 <= k < i ==> outcome_index[k] is None,
            decreases n - i,
        {
            outcome_index.push(None);
            i += 1;
        }
        let run = Orchestrator {
            names,
            phase: Phase::Idle,
            pending: Action::Start,
            required: 0,
            transfers: Vec::new(),
            outcome_index,
            kill_requested: Vec::new(),
            report: Vec::new(),
            sources: Vec::new(),
        };
        proof {
            let model = RunModel::init(texts(names@));
            assert(run@.outcome_index =~= model.outcome_index);
            assert(run@.report =~= model.report);
            assert(run@.transfers =~= model.transfers);
            assert(run@.kill_requested =~= model.kill_requested);
            assert(run@.sources =~= model.sources);
            lemma_init_wf(texts(names@));
        }
        run
    }

    fn record(&mut self, destination: usize, outcome: Outcome)
        requires
            destination < old(self).outcome_index.len(),
        ensures
            final(self)@ == old(self)@.record(destination, outcome_view(outcome)),
    {
        let entry = self.report.len();
        self.outcome_index.set(destination, Some(entry));
        self.report.push(outcome);
        self.sources.push(Some(destination));
        proof {
            let model = old(self)@.record(destination, outcome_view(outcome));
            assert(self@.report =~= model.report);
            assert(self@.outcome_index =~= model.outcome_index);
        }
    }

    fn record_general(&mut self, outcome: Outcome)
        ensures
            final(self)@ == old(self)@.record_general(outcome_view(outcome)),
    {
        self.report.push(outcome);
        self.sources.push(None);
        proof {
            let model = old(self)@.record_general(outcome_view(outcome));
            assert(self@.report =~= model.report);
        }
    }

    fn advance(&mut self, cursor: usize)
        ensures
            final(self)@ == old(self)@.advance(cursor as int),
    {
        if cursor < self.names.len() {
            self.pending = Action::CheckSpace { destination: cursor };
        } else if self.report.len() == self.names.len() {
            self.phase = Phase::Completed;
            self.pending = Action::Return;
        } else {
            self.phase = Phase::Running;
            self.pending = Action::StartMonitors;
        }
    }

    fn fail(&mut self, destination: usize, err: BackupError)
        requires
            destination < old(self).outcome_index.len(),
        ensures
            final(self)@ == old(self)@.fail(destination, err@),
    {
        self.record(destination, Err(err));
        self.advance(destination + 1);
    }

    fn next_kill(&mut self, from: usize)
        requires
            from <= old(self).transfers.len(),
            old(self).kill_requested.len() == old(self).transfers.len(),
            forall|t: int|
                0 <= t < old(self).transfers.len() ==> #[trigger] old(self).transfers[t] < old(
                    self,
                ).outcome_index.len(),
        ensures
            final(self)@ == old(self)@.next_kill(from as int),
    {
        let count = self.transfers.len();
        let mut t = from;
        while t < count && self.outcome_index[self.transfers[t]].is_some()
            invariant
                from <= t <= count,
                count == self.transfers.len(),
                *self == *old(self),
                forall|k: int|
                    0 <= k < self.transfers.len() ==> #[trigger] self.transfers[k]
                        < self.outcome_index.len(),
                self@.next_unfinished(t as int) == self@.next_unfinished(from as int),
            decreases count - t,
        {
            t += 1;
        }
        self.phase = Phase::Draining;
        if t < count {
            self.kill_requested.set(t, true);
            self.pending = Action::Kill { transfer: t };
        } else {
            self.pending = Action::Join;
        }
    }

    /// Takes in what the caller reports and says what to do next.  An event
    /// that does not answer the pending action changes nothing.
    pub fn step(&mut self, event: Event) -> (action: Action)
        requires
            old(self).wf(),
        ensures
            final(self).wf(),
            final(self)@ == old(self)@.step(event@),
            action == final(self)@.pending,
    {
        proof {
            lemma_step_wf(self@, event@);
        }
        match (self.pending, event) {
            (Action::Start, Event::Started) => {
                self.phase = Phase::Preparing;
                self.pending = Action::EstimateSize;
            },
            (Action::EstimateSize, Event::SizeEstimated(Ok(total))) => {
                self.required = total;
                self.advance(0);
            },
            (Action::EstimateSize, Event::SizeEstimated(Err(err))) => {
                self.record_general(Err(err));
                self.pending = Action::Return;
            },
            (Action::CheckSpace { destination }, Event::SpaceProbed(Ok(available))) => {
                match check_space(self.names[destination].as_str(), self.required, available) {
                    Ok(_) => {
                        self.pending = Action::Prepare { destination };
                    },
                    Err(err) => {
                        self.fail(destination, err);
                    },
                }
            },
            (Action::CheckSpace { destination }, Event::SpaceProbed(Err(err))) => {
                self.fail(destination, err);
            },
            (Action::Prepare { destination }, Event::Prepared(Ok(_))) => {
                self.pending = Action::Spawn { destination };
            },
            (Action::Prepare { destination }, Event::Prepared(Err(err))) => {
                self.fail(destination, err);
            },
            (Action::Spawn { destination }, Event::Spawned(Ok(_))) => {
                self.transfers.push(destination);
                self.kill_requested.push(false);
                self.advance(destination + 1);
            },
            (Action::Spawn { destination }, Event::Spawned(Err(err))) => {
                self.fail(destination, err);
            },
            (Action::StartMonitors, Event::MonitorsStarted) => {
                self.pending = Action::Receive;
            },
            (Action::Receive, Event::Message(ChannelMessage::Outcome { transfer, outcome })) => {
                if transfer < self.transfers.len()
                    && self.outcome_index[self.transfers[transfer]].is_none() {
                    let destination = self.transfers[transfer];
                    self.record(destination, outcome);
                    if self.report.len() == self.names.len() {
                        self.phase = Phase::Completed;
                        self.pending = Action::Join;
                    }
                }
            },
            (Action::Receive, Event::Message(ChannelMessage::CancelRequested)) => {
                self.next_kill(0);
            },
            (Action::Kill { transfer }, Event::Killed(Ok(_))) => {
                self.next_kill(transfer + 1);
            },
            (Action::Kill { transfer }, Event::Killed(Err(err))) => {
                self.record_general(Err(err));
                self.next_kill(transfer + 1);
            },
            (Action::Join, Event::Joined) => {
                if self.phase == Phase::Draining {
                    self.record_general(
                        Err(BackupError::with_kind(ErrorKind::Interrupted, "Backup interrupted")),
                    );
                }
                self.pending = Action::Return;
            },
            _ => {},
        }
        self.pending
    }

    /// Where the run stands.
    pub fn phase(&self) -> (phase: Phase)
        ensures
            phase == self@.phase,
    {
        self.phase
    }

    /// What the caller has to do next.
    pub fn pending(&self) -> (action: Action)
        ensures
            action == self@.pending,
    {
        self.pending
    }

    /// How many destinations the run has.
    pub fn destinations(&self) -> (count: usize)
        ensures
            count == self@.names.len(),
    {
        self.names.len()
    }

    /// How many transfers were spawned.
    pub fn transfers(&self) -> (count: usize)
        ensures
            count == self@.transfers.len(),
    {
        self.transfers.len()
    }

    /// The destination that transfer `transfer` copies to.
    pub fn transfer_destination(&self, transfer: usize) -> (destination: Option<usize>)
        ensures
            destination == if transfer < self@.transfers.len() {
                Some(self@.transfers[transfer as int])
            } else {
                None
            },
    {
        if transfer < self.transfers.len() {
            Some(self.transfers[transfer])
        } else {
            None
        }
    }

    /// Whether the kill of transfer `transfer` was asked for.
    pub fn kill_requested(&self, transfer: usize) -> (asked: bool)
        ensures
            asked == (transfer < self@.kill_requested.len()
                && self@.kill_requested[transfer as int]),
    {
        transfer < self.kill_requested.len() && self.kill_requested[transfer]
    }

    /// The outcomes so far, in order of arrival.
    pub fn report(&self) -> (report: Vec<Outcome>)
        ensures
            report_view(report@) == self@.report,
    {
        let mut report: Vec<Outcome> = Vec::new();
        let mut i: usize = 0;
        while i < self.report.len()
            invariant
                i <= self.report.len(),
                report.len() == i,
                forall|k: int|
                    0 <= k < i ==> outcome_view(report[k]) == outcome_view(self.report[k]),
            decreases self.report.len() - i,
        {
            report.push(clone_outcome(&self.report[i]));
            i += 1;
        }
        assert(report_view(report@) =~= report_view(self.report@));
        report
    }

    /// For each entry of the report, the destination that it accounts for.
    pub fn sources(&self) -> (sources: Vec<Option<usize>>)
        ensures
            sources@ == self@.sources,
    {
        self.sources.clone()
    }
}

} // verus!
