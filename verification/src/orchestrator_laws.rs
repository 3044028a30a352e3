//! What holds of every backup run: the invariant of the state machine and
//! the properties of whole runs that follow from it.

use crate::backup_result::{BackupErrorView, ErrorKind, OutcomeView};
use crate::destination::{insufficient_space_text, space_check};
use crate::orchestrator::{
    count_none, error_outcome, has_transfer, indexed, interrupted, spawned_before, untouched_from,
    waiting_are_transfers, Action, EventView, Phase, RunModel,
};
use vstd::prelude::*;

verus! {

/// One more entry adds one to the count if it is `None`, and nothing otherwise.
pub proof fn lemma_count_none_push(s: Seq<Option<usize>>, x: Option<usize>)
    ensures
        count_none(s.push(x)) == count_none(s) + if x is None {
            1nat
        } else {
            0nat
        },
{
    assert(s.push(x).drop_last() =~= s);
}

/// No more entries are `None` than there are entries.
pub proof fn lemma_count_none_bound(s: Seq<Option<usize>>)
    ensures
        count_none(s) <= s.len(),
    decreases s.len(),
{
    if s.len() > 0 {
        lemma_count_none_bound(s.drop_last());
    }
}

/// Filling an entry that was `None` takes one off the count.
pub proof fn lemma_count_none_update(s: Seq<Option<usize>>, i: int, x: usize)
    requires
        0 <= i < s.len(),
        s[i] is None,
    ensures
        count_none(s.update(i, Some(x))) + 1 == count_none(s),
    decreases s.len(),
{
    let u = s.update(i, Some(x));
    if i == s.len() - 1 {
        assert(u.drop_last() =~= s.drop_last());
    } else {
        lemma_count_none_update(s.drop_last(), i, x);
        assert(u.drop_last() =~= s.drop_last().update(i, Some(x)));
    }
}

/// With a count of zero every entry is filled.
pub proof fn lemma_count_none_zero(s: Seq<Option<usize>>)
    requires
        count_none(s) == 0,
    ensures
        forall|j: int| 0 <= j < s.len() ==> #[trigger] s[j] is Some,
    decreases s.len(),
{
    if s.len() > 0 {
        lemma_count_none_zero(s.drop_last());
        assert forall|j: int| 0 <= j < s.len() implies #[trigger] s[j] is Some by {
            if j < s.len() - 1 {
                assert(s.drop_last()[j] == s[j]);
            }
        }
    }
}

/// If no entry is filled, the count is the number of entries.
pub proof fn lemma_count_none_all(s: Seq<Option<usize>>)
    requires
        forall|j: int| 0 <= j < s.len() ==> #[trigger] s[j] is None,
    ensures
        count_none(s) == s.len(),
    decreases s.len(),
{
    if s.len() > 0 {
        assert forall|j: int| 0 <= j < s.drop_last().len() implies #[trigger] s.drop_last()[j] is None by {
            assert(s.drop_last()[j] == s[j]);
        }
        lemma_count_none_all(s.drop_last());
    }
}

/// Where `next_unfinished` lands: on the first unfinished transfer at or
/// after `from`, or past the last transfer.
pub proof fn lemma_next_unfinished(s: RunModel, from: int)
    requires
        0 <= from <= s.transfers.len(),
    ensures
        from <= s.next_unfinished(from) <= s.transfers.len(),
        s.next_unfinished(from) < s.transfers.len() ==> s.unfinished(s.next_unfinished(from)),
        forall|t: int| from <= t < s.next_unfinished(from) ==> !s.unfinished(t),
    decreases s.transfers.len() - from,
{
    if from < s.transfers.len() && !s.unfinished(from) {
        lemma_next_unfinished(s, from + 1);
    }
}

/// A new run is well formed.
pub proof fn lemma_init_wf(names: Seq<Seq<char>>)
    requires
        names.len() <= usize::MAX,
    ensures
        RunModel::init(names).wf(),
{
    let s = RunModel::init(names);
    lemma_count_none_all(s.outcome_index);
    assert(count_none(s.sources) == 0);
}

/// The report and the destinations still point at each other once an outcome
/// is entered for a destination that had none.
proof fn lemma_indexed_record(
    n: nat,
    outcome_index: Seq<Option<usize>>,
    entries: nat,
    sources: Seq<Option<usize>>,
    destination: usize,
)
    requires
        indexed(n, outcome_index, entries, sources),
        destination < n,
        outcome_index[destination as int] is None,
        entries <= usize::MAX,
    ensures
        indexed(
            n,
            outcome_index.update(destination as int, Some(entries as usize)),
            entries + 1,
            sources.push(Some(destination)),
        ),
{
    let oi = outcome_index.update(destination as int, Some(entries as usize));
    let src = sources.push(Some(destination));
    assert forall|i: int| 0 <= i < n implies (#[trigger] oi[i] matches Some(j) ==> j < entries + 1
        && src[j as int] == Some(i as usize)) by {
        if i != destination {
            assert(oi[i] == outcome_index[i]);
        }
    }
    assert forall|j: int| 0 <= j < entries + 1 implies (#[trigger] src[j] matches Some(i) ==> i < n
        && oi[i as int] == Some(j as usize)) by {
        if j < entries {
            assert(src[j] == sources[j]);
            if let Some(i) = sources[j] {
                assert(outcome_index[i as int] == Some(j as usize));
                assert(i != destination);
            }
        }
    }
}

/// The report and the destinations still point at each other once an outcome
/// is entered that belongs to no destination.
proof fn lemma_indexed_general(
    n: nat,
    outcome_index: Seq<Option<usize>>,
    entries: nat,
    sources: Seq<Option<usize>>,
)
    requires
        indexed(n, outcome_index, entries, sources),
    ensures
        indexed(n, outcome_index, entries + 1, sources.push(None)),
{
    let src = sources.push(None);
    assert forall|j: int| 0 <= j < entries + 1 implies (#[trigger] src[j] matches Some(i) ==> i < n
        && outcome_index[i as int] == Some(j as usize)) by {
        if j < entries {
            assert(src[j] == sources[j]);
        }
    }
    assert forall|i: int| 0 <= i < n implies (#[trigger] outcome_index[i] matches Some(j) ==> j
        < entries + 1 && src[j as int] == Some(i as usize)) by {
        if let Some(j) = outcome_index[i] {
            assert(src[j as int] == sources[j as int]);
        }
    }
}

/// A destination that has a transfer keeps it when one more transfer is
/// spawned, and the destination of the new transfer has one.
proof fn lemma_has_transfer_push(transfers: Seq<usize>, added: usize, destination: int)
    requires
        has_transfer(transfers, destination) || destination == added,
    ensures
        has_transfer(transfers.push(added), destination),
{
    let pushed = transfers.push(added);
    if has_transfer(transfers, destination) {
        let t = choose|t: int| 0 <= t < transfers.len() && #[trigger] transfers[t] == destination;
        assert(pushed[t] == destination);
    } else {
        assert(pushed[transfers.len() as int] == destination);
    }
}

/// What the entry of an outcome for `destination` keeps.
proof fn lemma_record(s: RunModel, destination: usize, outcome: OutcomeView, cursor: int)
    requires
        s.wf(),
        s.all_per_destination(),
        !s.estimate_failed(),
        destination < s.names.len(),
        s.outcome_index[destination as int] is None,
        s.cursor() <= cursor <= s.names.len(),
        destination < cursor,
        destination >= s.cursor() ==> destination == s.cursor() && cursor == destination + 1,
        destination < s.cursor() ==> cursor == s.cursor(),
    ensures
        ({
            let r = s.record(destination, outcome);
            &&& indexed(s.names.len(), r.outcome_index, r.report.len(), r.sources)
            &&& r.all_per_destination()
            &&& r.report.len() == s.report.len() + 1
            &&& r.report.len() + count_none(r.outcome_index) == s.names.len()
            &&& untouched_from(r.outcome_index, cursor)
            &&& waiting_are_transfers(r.outcome_index, r.transfers, cursor)
            &&& spawned_before(r.transfers, cursor)
        }),
{
    let r = s.record(destination, outcome);
    lemma_count_none_push(s.sources, Some(destination));
    lemma_count_none_update(s.outcome_index, destination as int, s.report.len() as usize);
    lemma_count_none_bound(s.outcome_index);
    lemma_indexed_record(s.names.len(), s.outcome_index, s.report.len(), s.sources, destination);
    assert forall|i: int|
        0 <= i < cursor && i < r.outcome_index.len() && r.outcome_index[i] is None implies #[trigger] has_transfer(
        r.transfers,
        i,
    ) by {
        assert(i != destination);
        assert(s.outcome_index[i] is None);
        if i >= s.cursor() {
            assert(false);
        }
    }
    assert forall|t: int| 0 <= t < r.transfers.len() implies #[trigger] r.transfers[t] < cursor by {
        assert(s.transfers[t] < s.cursor());
    }
}

/// A failed check keeps the run well formed.
proof fn lemma_fail_wf(s: RunModel, destination: usize, err: BackupErrorView)
    requires
        s.wf(),
        s.phase == Phase::Preparing,
        s.cursor() == destination,
        destination < s.names.len(),
        s.all_per_destination(),
        s.pending != Action::Return,
    ensures
        s.fail(destination, err).wf(),
{
    let n = s.names.len();
    lemma_record(s, destination, error_outcome(err), destination + 1);
    let r = s.record(destination, error_outcome(err));
    let next = s.fail(destination, err);
    assert(next.cursor() == destination + 1);
    if destination + 1 == n {
        lemma_count_none_bound(r.outcome_index);
    }
    assert(next.pending_fits());
}

/// A spawned transfer keeps the run well formed.
proof fn lemma_spawned_wf(s: RunModel, destination: usize)
    requires
        s.wf(),
        s.pending == (Action::Spawn { destination }),
    ensures
        s.step(EventView::Spawned(Ok(()))).wf(),
{
    let n = s.names.len();
    let mid = RunModel {
        transfers: s.transfers.push(destination),
        kill_requested: s.kill_requested.push(false),
        ..s
    };
    let next = mid.advance(destination + 1);
    assert(s.step(EventView::Spawned(Ok(()))) == next);
    assert(next.cursor() == destination + 1);
    assert(s.outcome_index[destination as int] is None);
    assert forall|i: int|
        0 <= i < destination + 1 && i < next.outcome_index.len()
            && next.outcome_index[i] is None implies #[trigger] has_transfer(next.transfers, i) by {
        if i < destination {
            assert(has_transfer(s.transfers, i));
        }
        lemma_has_transfer_push(s.transfers, destination, i);
    }
    assert forall|t: int| 0 <= t < next.transfers.len() implies #[trigger] next.transfers[t]
        < destination + 1 by {
        if t < s.transfers.len() {
            assert(next.transfers[t] == s.transfers[t]);
        }
    }
    lemma_count_none_update(s.outcome_index, destination as int, 0);
    assert(s.report.len() < n);
    assert(next.pending_fits());
}

/// The outcome of a transfer keeps the run well formed.
proof fn lemma_outcome_wf(s: RunModel, transfer: usize, outcome: OutcomeView)
    requires
        s.wf(),
        s.pending == Action::Receive,
        s.unfinished(transfer as int),
    ensures
        s.step(EventView::Outcome { transfer, outcome }).wf(),
{
    let n = s.names.len();
    let destination = s.transfers[transfer as int];
    let r = s.record(destination, outcome);
    let next = s.step(EventView::Outcome { transfer, outcome });
    lemma_record(s, destination, outcome, n as int);
    assert(next.cursor() == n);
    assert(next.pending_fits());
}

/// Turning to the next transfer to kill keeps the run well formed.
proof fn lemma_next_kill_wf(s: RunModel, from: int)
    requires
        s.wf(),
        0 <= from <= s.transfers.len(),
        s.phase == Phase::Running || s.phase == Phase::Draining,
        s.pending == Action::Receive || s.pending is Kill,
        s.pending == Action::Receive ==> from == 0,
        s.pending is Kill ==> s.kills_requested_before(from),
    ensures
        s.next_kill(from).wf(),
{
    let next = s.next_kill(from);
    let t = s.next_unfinished(from);
    lemma_next_unfinished(s, from);
    assert(next.cursor() == s.cursor());
    if t < s.transfers.len() {
        assert forall|k: int| 0 <= k < t + 1 && next.unfinished(k) implies #[trigger] next.kill_requested[k] by {
            assert(s.unfinished(k));
            if k < from {
                assert(s.kill_requested[k]);
            }
        }
        assert(next.unfinished(t));
        assert(next.pending_fits());
    } else {
        assert forall|k: int|
            0 <= k < next.transfers.len() && next.unfinished(k) implies #[trigger] next.kill_requested[k] by {
            assert(s.unfinished(k));
            if k < from {
                assert(s.kill_requested[k]);
            }
        }
        assert(next.pending_fits());
    }
}

/// What an outcome for the run as a whole keeps.
proof fn lemma_general_entry_wf(s: RunModel, outcome: OutcomeView)
    requires
        s.wf(),
    ensures
        ({
            let r = s.record_general(outcome);
            &&& indexed(r.names.len(), r.outcome_index, r.report.len(), r.sources)
            &&& r.report.len() + count_none(r.outcome_index) == r.names.len() + count_none(
                r.sources,
            )
            &&& r.report.last() == outcome
            &&& r.sources.last() is None
        }),
{
    lemma_count_none_push(s.sources, None);
    lemma_indexed_general(s.names.len(), s.outcome_index, s.report.len(), s.sources);
}

/// Every step keeps a run well formed.
pub proof fn lemma_step_wf(s: RunModel, event: EventView)
    requires
        s.wf(),
    ensures
        s.step(event).wf(),
{
    let n = s.names.len();
    let next = s.step(event);
    match (s.pending, event) {
        (Action::Start, EventView::Started) => {
            assert(next.cursor() == s.cursor());
            assert(next.pending_fits());
        },
        (Action::EstimateSize, EventView::SizeEstimated(Ok(total))) => {
            assert(count_none(s.sources) == 0);
            assert(untouched_from(s.outcome_index, 0));
            lemma_count_none_bound(s.outcome_index);
            assert(next.pending_fits());
            assert(next.cursor() == 0 || next.cursor() == n);
            if n == 0 {
                assert(next.cursor() == 0);
            }
        },
        (Action::EstimateSize, EventView::SizeEstimated(Err(err))) => {
            lemma_general_entry_wf(s, error_outcome(err));
            assert(next.estimate_failed());
            assert(next.cursor() == n);
            assert(next.pending_fits());
        },
        (Action::CheckSpace { destination }, EventView::SpaceProbed(Ok(available))) => {
            match space_check(s.names[destination as int], s.required, available) {
                Ok(_) => {
                    assert(next.cursor() == s.cursor());
                    assert(next.pending_fits());
                },
                Err(err) => {
                    lemma_fail_wf(s, destination, err);
                },
            }
        },
        (Action::CheckSpace { destination }, EventView::SpaceProbed(Err(err))) => {
            lemma_fail_wf(s, destination, err);
        },
        (Action::Prepare { destination }, EventView::Prepared(Ok(_))) => {
            assert(next.cursor() == s.cursor());
            assert(next.pending_fits());
        },
        (Action::Prepare { destination }, EventView::Prepared(Err(err))) => {
            lemma_fail_wf(s, destination, err);
        },
        (Action::Spawn { destination }, EventView::Spawned(Ok(_))) => {
            lemma_spawned_wf(s, destination);
        },
        (Action::Spawn { destination }, EventView::Spawned(Err(err))) => {
            lemma_fail_wf(s, destination, err);
        },
        (Action::StartMonitors, EventView::MonitorsStarted) => {
            assert(next.cursor() == s.cursor());
            assert(next.pending_fits());
        },
        (Action::Receive, EventView::Outcome { transfer, outcome }) => {
            if s.unfinished(transfer as int) {
                lemma_outcome_wf(s, transfer, outcome);
            }
        },
        (Action::Receive, EventView::CancelRequested) => {
            lemma_next_kill_wf(s, 0);
        },
        (Action::Kill { transfer }, EventView::Killed(Ok(_))) => {
            lemma_next_kill_wf(s, transfer + 1);
        },
        (Action::Kill { transfer }, EventView::Killed(Err(err))) => {
            let mid = s.record_general(error_outcome(err));
            lemma_general_entry_wf(s, error_outcome(err));
            assert(mid.cursor() == s.cursor());
            assert(mid.kills_requested_before(transfer + 1));
            assert(mid.unfinished(transfer as int));
            assert(mid.pending_fits());
            assert(mid.wf());
            lemma_next_kill_wf(mid, transfer + 1);
        },
        (Action::Join, EventView::Joined) => {
            assert(next.cursor() == s.cursor());
            if s.phase == Phase::Draining {
                lemma_general_entry_wf(s, interrupted());
                let r = s.record_general(interrupted());
                assert(r.kills_requested_before(r.transfers.len() as int));
                assert(next.pending_fits());
            } else {
                assert(next.pending_fits());
            }
        },
        _ => {},
    }
}

/// Every run that a program can reach is well formed.
pub proof fn lemma_run_wf(s: RunModel, events: Seq<EventView>)
    requires
        s.wf(),
    ensures
        s.run(events).wf(),
    decreases events.len(),
{
    if events.len() > 0 {
        lemma_run_wf(s, events.drop_last());
        lemma_step_wf(s.run(events.drop_last()), events.last());
    }
}

/// Whether `later` only adds to what `earlier` holds: the destinations are
/// the same, no destination goes back to its checks, every outcome stays
/// where it is, every transfer stays a transfer, and a kill that was asked
/// for stays asked for.
pub open spec fn extends(earlier: RunModel, later: RunModel) -> bool {
    &&& later.names == earlier.names
    &&& later.cursor() >= earlier.cursor()
    &&& later.report.len() >= earlier.report.len()
    &&& forall|j: int|
        0 <= j < earlier.report.len() ==> #[trigger] later.report[j] == earlier.report[j]
            && later.sources[j] == earlier.sources[j]
    &&& forall|i: int|
        0 <= i < earlier.outcome_index.len() && earlier.outcome_index[i] is Some
            ==> #[trigger] later.outcome_index[i] == earlier.outcome_index[i]
    &&& later.transfers.len() >= earlier.transfers.len()
    &&& forall|t: int|
        0 <= t < earlier.transfers.len() ==> #[trigger] later.transfers[t] == earlier.transfers[t]
    &&& forall|t: int|
        earlier.transfers.len() <= t < later.transfers.len() ==> #[trigger] later.transfers[t]
            >= earlier.cursor()
    &&& forall|t: int|
        0 <= t < earlier.kill_requested.len() && earlier.kill_requested[t]
            ==> #[trigger] later.kill_requested[t]
}

/// A step never discards an outcome, a transfer or a kill request.
pub proof fn lemma_step_extends(s: RunModel, event: EventView)
    requires
        s.wf(),
    ensures
        extends(s, s.step(event)),
{
    let next = s.step(event);
    lemma_step_wf(s, event);
    match (s.pending, event) {
        (Action::Receive, EventView::CancelRequested) => {
            lemma_next_unfinished(s, 0);
        },
        (Action::Kill { transfer }, EventView::Killed(Ok(_))) => {
            lemma_next_unfinished(s, transfer + 1);
        },
        (Action::Kill { transfer }, EventView::Killed(Err(err))) => {
            lemma_next_unfinished(s.record_general(error_outcome(err)), transfer + 1);
        },
        _ => {},
    }
}

/// A run never discards an outcome, a transfer or a kill request.
pub proof fn lemma_run_extends(s: RunModel, events: Seq<EventView>)
    requires
        s.wf(),
    ensures
        extends(s, s.run(events)),
    decreases events.len(),
{
    if events.len() > 0 {
        let mid = s.run(events.drop_last());
        lemma_run_extends(s, events.drop_last());
        lemma_run_wf(s, events.drop_last());
        lemma_step_extends(mid, events.last());
        lemma_step_wf(mid, events.last());
    }
}

/// Whether each destination has exactly one entry in a report of as many
/// entries as there are destinations.
pub open spec fn one_outcome_each(s: RunModel) -> bool {
    &&& s.report.len() == s.names.len()
    &&& s.sources.len() == s.names.len()
    &&& s.outcome_index.len() == s.names.len()
    &&& forall|i: int|
        0 <= i < s.names.len() ==> (#[trigger] s.outcome_index[i] matches Some(j) && j
            < s.names.len() && s.sources[j as int] == Some(i as usize))
    &&& forall|j: int|
        0 <= j < s.names.len() ==> (#[trigger] s.sources[j] matches Some(i) && i < s.names.len()
            && s.outcome_index[i as int] == Some(j as usize))
}

/// A completed run holds exactly one outcome for each destination.
pub proof fn lemma_completed_accounts_for_all(s: RunModel)
    requires
        s.wf(),
        s.phase == Phase::Completed,
    ensures
        one_outcome_each(s),
{
    lemma_count_none_zero(s.sources);
    lemma_count_none_zero(s.outcome_index);
}

/// Unless the run was cancelled or the volumes could not be measured, the
/// report never holds more outcomes than there are destinations.
pub proof fn lemma_report_within_destinations(s: RunModel)
    requires
        s.wf(),
        s.phase != Phase::Draining,
        !s.estimate_failed(),
    ensures
        s.report.len() <= s.names.len(),
        s.all_per_destination(),
{
    if s.report.len() == 0 {
        assert(s.sources =~= Seq::<Option<usize>>::empty());
    }
}

/// Whether `event` reports no failure and no cancellation in a run whose
/// volumes take `total` bytes.
pub open spec fn is_smooth(event: EventView, total: u64) -> bool {
    match event {
        EventView::Started => true,
        EventView::SizeEstimated(r) => r == Ok::<u64, BackupErrorView>(total),
        EventView::SpaceProbed(r) => r matches Ok(available) && available >= total,
        EventView::Prepared(r) => r is Ok,
        EventView::Spawned(r) => r is Ok,
        EventView::MonitorsStarted => true,
        EventView::Outcome { transfer, outcome } => outcome is Success,
        EventView::CancelRequested => false,
        EventView::Killed(r) => r is Ok,
        EventView::Joined => true,
    }
}

/// What holds of a run in which nothing has failed so far.
spec fn smooth_so_far(s: RunModel, total: u64) -> bool {
    &&& s.wf()
    &&& s.phase != Phase::Draining
    &&& !s.estimate_failed()
    &&& s.pending != Action::Start && s.pending != Action::EstimateSize ==> s.required == total
    &&& forall|j: int| 0 <= j < s.report.len() ==> #[trigger] s.report[j] is Success
}

/// A step that reports no failure keeps the run free of failures.
proof fn lemma_smooth_step(s: RunModel, event: EventView, total: u64)
    requires
        smooth_so_far(s, total),
        is_smooth(event, total),
    ensures
        smooth_so_far(s.step(event), total),
{
    lemma_step_wf(s, event);
    lemma_step_extends(s, event);
    let next = s.step(event);
    assert forall|j: int| 0 <= j < next.report.len() implies #[trigger] next.report[j] is Success by {
        if j < s.report.len() {
            assert(next.report[j] == s.report[j]);
        }
    }
}

/// A run in which no event reports a failure is free of failures.
proof fn lemma_smooth_run(names: Seq<Seq<char>>, events: Seq<EventView>, total: u64)
    requires
        names.len() <= usize::MAX,
        forall|k: int| 0 <= k < events.len() ==> is_smooth(#[trigger] events[k], total),
    ensures
        smooth_so_far(RunModel::init(names).run(events), total),
    decreases events.len(),
{
    if events.len() == 0 {
        lemma_init_wf(names);
    } else {
        let earlier = events.drop_last();
        assert forall|k: int| 0 <= k < earlier.len() implies is_smooth(
            #[trigger] earlier[k],
            total,
        ) by {
            assert(earlier[k] == events[k]);
        }
        lemma_smooth_run(names, earlier, total);
        lemma_smooth_step(RunModel::init(names).run(earlier), events.last(), total);
    }
}

/// A run in which nothing fails and nobody cancels returns exactly one
/// outcome for each destination, each a success, in whatever order the
/// transfers end.
pub proof fn lemma_smooth_run_reports_every_destination(
    names: Seq<Seq<char>>,
    events: Seq<EventView>,
    total: u64,
)
    requires
        names.len() <= usize::MAX,
        forall|k: int| 0 <= k < events.len() ==> is_smooth(#[trigger] events[k], total),
        RunModel::init(names).run(events).pending == Action::Return,
    ensures
        ({
            let end = RunModel::init(names).run(events);
            &&& end.phase == Phase::Completed
            &&& end.names == names
            &&& one_outcome_each(end)
            &&& forall|j: int| 0 <= j < names.len() ==> #[trigger] end.report[j] is Success
        }),
{
    let start = RunModel::init(names);
    let end = start.run(events);
    lemma_smooth_run(names, events, total);
    lemma_init_wf(names);
    lemma_run_extends(start, events);
    lemma_completed_accounts_for_all(end);
}

/// The outcome of a destination called `name` that offers `available` bytes
/// where `required` are needed.
pub open spec fn insufficient_space(name: Seq<char>, required: u64, available: u64) -> OutcomeView {
    OutcomeView::Error {
        kind: ErrorKind::InsufficientSpace { required, available },
        message: insufficient_space_text(name, required, available),
    }
}

/// A destination that offers less space than the volumes need gets its
/// outcome at once: it says how much was required and how much was there.
/// Whatever happens afterwards, the outcome stays, the destination is never
/// prepared and no transfer is ever spawned for it.
pub proof fn lemma_insufficient_space_is_final(
    s: RunModel,
    destination: usize,
    available: u64,
    events: Seq<EventView>,
)
    requires
        s.wf(),
        s.pending == (Action::CheckSpace { destination }),
        available < s.required,
    ensures
        ({
            let failed = s.step(EventView::SpaceProbed(Ok(available)));
            let end = failed.run(events);
            let entry = s.report.len() as int;
            &&& failed.report == s.report.push(
                insufficient_space(s.names[destination as int], s.required, available),
            )
            &&& failed.transfers == s.transfers
            &&& end.report.len() > entry
            &&& end.report[entry] == insufficient_space(
                s.names[destination as int],
                s.required,
                available,
            )
            &&& end.sources[entry] == Some(destination)
            &&& end.pending != (Action::Prepare { destination })
            &&& end.pending != (Action::Spawn { destination })
            &&& forall|t: int| 0 <= t < end.transfers.len() ==> #[trigger] end.transfers[t] != destination
        }),
{
    let event = EventView::SpaceProbed(Ok(available));
    let failed = s.step(event);
    let end = failed.run(events);
    lemma_step_wf(s, event);
    lemma_run_wf(failed, events);
    lemma_run_extends(failed, events);
    assert(failed.cursor() == destination + 1);
    assert forall|t: int| 0 <= t < end.transfers.len() implies #[trigger] end.transfers[t]
        != destination by {
        if t < failed.transfers.len() {
            assert(end.transfers[t] == failed.transfers[t]);
            assert(s.transfers[t] < s.cursor());
        }
    }
    assert(end.report[s.report.len() as int] == failed.report[s.report.len() as int]);
}

/// Whether no kill failed among `events`.
pub open spec fn kills_succeed(events: Seq<EventView>) -> bool {
    forall|k: int| 0 <= k < events.len() ==> (#[trigger] events[k] matches EventView::Killed(r) ==> r is Ok)
}

/// Whether `g` is a draining run that began when `s` was cancelled.
spec fn draining_from(s: RunModel, g: RunModel) -> bool {
    &&& g.wf()
    &&& g.phase == Phase::Draining
    &&& g.names == s.names
    &&& g.outcome_index == s.outcome_index
    &&& g.transfers == s.transfers
    &&& g.report.len() >= s.report.len()
    &&& forall|j: int| 0 <= j < s.report.len() ==> #[trigger] g.report[j] == s.report[j]
}

/// Whether the drain has added nothing to the report but, at its end, the
/// outcome that says the run was interrupted.
spec fn drained_cleanly(s: RunModel, g: RunModel) -> bool {
    if g.pending == Action::Return {
        g.report.len() == s.report.len() + 1
    } else {
        g.report.len() == s.report.len()
    }
}

/// A step of a draining run keeps what was collected before.
proof fn lemma_draining_step(s: RunModel, g: RunModel, event: EventView)
    requires
        draining_from(s, g),
    ensures
        draining_from(s, g.step(event)),
        drained_cleanly(s, g) && !(event matches EventView::Killed(r) && r is Err)
            ==> drained_cleanly(s, g.step(event)),
{
    lemma_step_wf(g, event);
    lemma_step_extends(g, event);
    let next = g.step(event);
    assert forall|j: int| 0 <= j < s.report.len() implies #[trigger] next.report[j] == s.report[j] by {
        assert(next.report[j] == g.report[j]);
    }
}

/// A draining run keeps what was collected before.
proof fn lemma_draining_run(s: RunModel, first: RunModel, events: Seq<EventView>)
    requires
        draining_from(s, first),
    ensures
        draining_from(s, first.run(events)),
        drained_cleanly(s, first) && kills_succeed(events) ==> drained_cleanly(
            s,
            first.run(events),
        ),
    decreases events.len(),
{
    if events.len() > 0 {
        let earlier = events.drop_last();
        lemma_draining_run(s, first, earlier);
        lemma_draining_step(s, first.run(earlier), events.last());
        if kills_succeed(events) {
            assert forall|k: int| 0 <= k < earlier.len() implies (#[trigger] earlier[k] matches EventView::Killed(
                r,
            ) ==> r is Ok) by {
                assert(earlier[k] == events[k]);
            }
            assert(kills_succeed(earlier));
            assert(events[events.len() - 1] == events.last());
        }
    }
}

/// Cancellation in the middle of a run.  When the cancel request is taken
/// from the channel, the outcomes collected so far stay in the report, in
/// their order.  Every destination that has no outcome yet has a transfer,
/// and by the time the run returns the kill of each such transfer was asked
/// for.  The report then ends with the outcome that says the run was
/// interrupted; if no kill failed, it holds nothing else beyond the outcomes
/// that were there before.
pub proof fn lemma_cancellation_truncates(s: RunModel, events: Seq<EventView>)
    requires
        s.wf(),
        s.pending == Action::Receive,
    ensures
        ({
            let end = s.step(EventView::CancelRequested).run(events);
            let collected = s.report.len();
            &&& end.phase == Phase::Draining
            &&& collected + count_none(s.outcome_index) == s.names.len()
            &&& forall|j: int| 0 <= j < collected ==> #[trigger] end.report[j] == s.report[j]
            &&& forall|i: int|
                0 <= i < s.names.len() && s.outcome_index[i] is None ==> #[trigger] has_transfer(
                    s.transfers,
                    i,
                )
            &&& end.pending == Action::Return ==> {
                &&& end.report.len() >= collected + 1
                &&& end.report.last() == interrupted()
                &&& forall|t: int|
                    0 <= t < s.transfers.len() && s.unfinished(t) ==> #[trigger] end.kill_requested[t]
                &&& kills_succeed(events) ==> end.report.len() == collected + 1
            }
        }),
{
    let first = s.step(EventView::CancelRequested);
    let end = first.run(events);
    lemma_step_wf(s, EventView::CancelRequested);
    lemma_step_extends(s, EventView::CancelRequested);
    lemma_next_unfinished(s, 0);
    assert(draining_from(s, first));
    assert(drained_cleanly(s, first));
    lemma_draining_run(s, first, events);
    if end.pending == Action::Return {
        assert forall|t: int| 0 <= t < s.transfers.len() && s.unfinished(t) implies #[trigger] end.kill_requested[t] by {
            assert(end.unfinished(t));
        }
    }
}

} // verus!
