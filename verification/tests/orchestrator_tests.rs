use dockerbackup::backup_result::{BackupError, BackupSuccess, ErrorKind, Outcome};
use dockerbackup::destination::{parse_destination_path, TransferPlan};
use dockerbackup::monitor::{monitor_poll, transfer_label, MonitorStep, Poll};
use dockerbackup::orchestrator::{Action, ChannelMessage, Event, Orchestrator, Phase};
use dockerbackup::utils::{get_volumes_size, FsNode, VolumeEntry};

fn names(list: &[&str]) -> Vec<String> {
    list.iter().map(|s| s.to_string()).collect()
}

fn success(transfer: usize, text: &str) -> Event {
    Event::Message(ChannelMessage::Outcome { transfer, outcome: Ok(BackupSuccess::new(text)) })
}

fn failure(transfer: usize, text: &str) -> Event {
    Event::Message(ChannelMessage::Outcome { transfer, outcome: Err(BackupError::new(text)) })
}

fn cancel() -> Event {
    Event::Message(ChannelMessage::CancelRequested)
}

fn texts(report: &[Outcome]) -> Vec<String> {
    report
        .iter()
        .map(|o| match o {
            Ok(done) => format!("ok:{}", done.message()),
            Err(err) => format!("err:{}", err.message),
        })
        .collect()
}

/// Drives a run through its checks so that every destination gets a transfer.
fn spawn_all(run: &mut Orchestrator, total: u64) {
    assert_eq!(run.step(Event::Started), Action::EstimateSize);
    let mut action = run.step(Event::SizeEstimated(Ok(total)));
    for i in 0..run.destinations() {
        assert_eq!(action, Action::CheckSpace { destination: i });
        assert_eq!(run.step(Event::SpaceProbed(Ok(total))), Action::Prepare { destination: i });
        assert_eq!(run.step(Event::Prepared(Ok(()))), Action::Spawn { destination: i });
        action = run.step(Event::Spawned(Ok(())));
    }
    assert_eq!(action, Action::StartMonitors);
    assert_eq!(run.step(Event::MonitorsStarted), Action::Receive);
}

#[test]
fn new_run_is_idle() {
    let run = Orchestrator::new(names(&["/backup", "user@h:/b"]));
    assert_eq!(run.phase(), Phase::Idle);
    assert_eq!(run.pending(), Action::Start);
    assert_eq!(run.destinations(), 2);
    assert_eq!(run.transfers(), 0);
    assert!(run.report().is_empty());
    assert!(run.sources().is_empty());
}

#[test]
fn run_without_failures_returns_one_outcome_for_each_destination() {
    for order in [[0usize, 1, 2], [2, 1, 0], [1, 2, 0], [1, 0, 2]] {
        let mut run = Orchestrator::new(names(&["/a", "/b", "u@h:/c"]));
        spawn_all(&mut run, 1000);
        assert_eq!(run.phase(), Phase::Running);
        assert_eq!(run.transfers(), 3);
        assert_eq!(run.step(success(order[0], "first")), Action::Receive);
        assert_eq!(run.step(success(order[1], "second")), Action::Receive);
        assert_eq!(run.step(success(order[2], "third")), Action::Join);
        assert_eq!(run.phase(), Phase::Completed);
        assert_eq!(run.step(Event::Joined), Action::Return);
        assert_eq!(run.phase(), Phase::Completed);
        assert_eq!(texts(&run.report()), vec!["ok:first", "ok:second", "ok:third"]);
        assert_eq!(run.sources(), vec![Some(order[0]), Some(order[1]), Some(order[2])]);
    }
}

#[test]
fn concrete_scenario_with_a_local_and_a_remote_destination() {
    let destinations = vec![
        parse_destination_path("/backup", true).unwrap(),
        parse_destination_path("user@h:/b,unix", false).unwrap(),
    ];
    let config = dockerbackup::backup::DockerBackup::build(
        destinations,
        "/var/lib/docker/volumes".to_string(),
        Vec::new(),
        Vec::new(),
        None,
        None,
        2024,
        1,
        5,
    );
    assert_eq!(config.excluded_volumes(), &vec!["backingFsBlockDev".to_string()]);
    let listing = vec![
        Ok(VolumeEntry { name: "a".to_string(), tree: FsNode::Dir { entries: vec![FsNode::File { size: 300 }] } }),
        Ok(VolumeEntry { name: "b".to_string(), tree: FsNode::File { size: 45 } }),
        Ok(VolumeEntry { name: "backingFsBlockDev".to_string(), tree: FsNode::File { size: 1 << 40 } }),
    ];
    let volumes: Vec<String> = vec!["a".to_string(), "b".to_string(), "backingFsBlockDev".to_string()];
    let total = get_volumes_size(&listing, config.excluded_volumes()).unwrap();
    assert_eq!(total, 345);

    let mut run = config.run();
    assert_eq!(run.step(Event::Started), Action::EstimateSize);
    let mut action = run.step(Event::SizeEstimated(Ok(total)));
    let mut plans = Vec::new();
    for i in 0..config.destination_count() {
        assert_eq!(action, Action::CheckSpace { destination: i });
        assert_eq!(run.step(Event::SpaceProbed(Ok(1000))), Action::Prepare { destination: i });
        let asked = config.destination(i).prepare(config.new_dir(), false);
        assert_eq!(
            asked.unwrap(),
            if i == 0 { Some("/backup/2024-1-5".to_string()) } else { None }
        );
        assert_eq!(run.step(Event::Prepared(Ok(()))), Action::Spawn { destination: i });
        let plan = config
            .destination(i)
            .spawn_backup(config.volume_path(), config.excluded_volumes(), config.new_dir(), &volumes)
            .unwrap();
        plans.push(plan);
        action = run.step(Event::Spawned(Ok(())));
    }
    assert!(matches!(plans[0], TransferPlan::Copy { .. }));
    assert!(matches!(plans[1], TransferPlan::Pipe { .. }));
    assert_eq!(action, Action::StartMonitors);
    assert_eq!(run.step(Event::MonitorsStarted), Action::Receive);

    let mut action = Action::Receive;
    for (transfer, seconds) in [(1usize, 7u64), (0, 3725)] {
        let destination = run.transfer_destination(transfer).unwrap();
        let label = transfer_label(&config.destination(destination).get_display_name());
        match monitor_poll(&label, transfer, seconds, Poll::Exited { success: true }) {
            MonitorStep::Publish { transfer, outcome } => {
                action = run.step(Event::Message(ChannelMessage::Outcome { transfer, outcome }));
            }
            other => panic!("{:?}", other),
        }
    }
    assert_eq!(action, Action::Join);
    assert_eq!(run.step(Event::Joined), Action::Return);
    assert_eq!(
        texts(&run.report()),
        vec![
            "ok:Backup to destination user@h:/b completed successfully in 00:00:07",
            "ok:Backup to destination /backup completed successfully in 01:02:05",
        ]
    );
    assert_eq!(run.sources(), vec![Some(1), Some(0)]);
}

#[test]
fn estimator_failure_returns_a_single_error() {
    let mut run = Orchestrator::new(names(&["/a", "/b"]));
    run.step(Event::Started);
    let err = BackupError::with_kind(ErrorKind::Io, "Failed to read volume directory: denied");
    assert_eq!(run.step(Event::SizeEstimated(Err(err))), Action::Return);
    assert_eq!(run.phase(), Phase::Preparing);
    assert_eq!(texts(&run.report()), vec!["err:Failed to read volume directory: denied"]);
    assert_eq!(run.sources(), vec![None]);
    assert_eq!(run.transfers(), 0);
    assert_eq!(run.step(Event::SpaceProbed(Ok(5))), Action::Return);
    assert_eq!(run.report().len(), 1);
}

#[test]
fn insufficient_space_prevents_the_transfer() {
    let mut run = Orchestrator::new(names(&["/small", "/large"]));
    run.step(Event::Started);
    assert_eq!(run.step(Event::SizeEstimated(Ok(1000))), Action::CheckSpace { destination: 0 });
    assert_eq!(run.step(Event::SpaceProbed(Ok(999))), Action::CheckSpace { destination: 1 });
    let report = run.report();
    assert_eq!(report.len(), 1);
    let err = report[0].as_ref().unwrap_err();
    assert_eq!(err.kind, ErrorKind::InsufficientSpace { required: 1000, available: 999 });
    assert_eq!(
        err.message,
        "Not enough space on destination /small. Required: 1000 bytes, Available: 999 bytes"
    );
    assert_eq!(run.step(Event::SpaceProbed(Ok(1000))), Action::Prepare { destination: 1 });
    assert_eq!(run.step(Event::Prepared(Ok(()))), Action::Spawn { destination: 1 });
    assert_eq!(run.step(Event::Spawned(Ok(()))), Action::StartMonitors);
    assert_eq!(run.transfers(), 1);
    assert_eq!(run.transfer_destination(0), Some(1));
    assert_eq!(run.transfer_destination(1), None);
    assert_eq!(run.step(Event::MonitorsStarted), Action::Receive);
    assert_eq!(run.step(success(0, "done")), Action::Join);
    assert_eq!(run.step(Event::Joined), Action::Return);
    assert_eq!(run.sources(), vec![Some(0), Some(1)]);
    assert_eq!(run.report().len(), 2);
}

#[test]
fn failures_before_the_transfer_do_not_touch_the_other_destinations() {
    let mut run = Orchestrator::new(names(&["/a", "/b", "/c", "/d"]));
    run.step(Event::Started);
    run.step(Event::SizeEstimated(Ok(10)));
    let probe = BackupError::with_kind(ErrorKind::Probe, "Invalid df output");
    assert_eq!(run.step(Event::SpaceProbed(Err(probe))), Action::CheckSpace { destination: 1 });
    assert_eq!(run.step(Event::SpaceProbed(Ok(10))), Action::Prepare { destination: 1 });
    let exists = BackupError::with_kind(ErrorKind::AlreadyExists, "Directory already exists");
    assert_eq!(run.step(Event::Prepared(Err(exists))), Action::CheckSpace { destination: 2 });
    run.step(Event::SpaceProbed(Ok(11)));
    run.step(Event::Prepared(Ok(())));
    let unknown = BackupError::with_kind(ErrorKind::UnknownExclusion, "Excluded volume 'x' does not exist");
    assert_eq!(run.step(Event::Spawned(Err(unknown))), Action::CheckSpace { destination: 3 });
    run.step(Event::SpaceProbed(Ok(12)));
    run.step(Event::Prepared(Ok(())));
    assert_eq!(run.step(Event::Spawned(Ok(()))), Action::StartMonitors);
    assert_eq!(run.phase(), Phase::Running);
    assert_eq!(
        texts(&run.report()),
        vec![
            "err:Invalid df output",
            "err:Directory already exists",
            "err:Excluded volume 'x' does not exist"
        ]
    );
    assert_eq!(run.sources(), vec![Some(0), Some(1), Some(2)]);
    assert_eq!(run.transfer_destination(0), Some(3));
    run.step(Event::MonitorsStarted);
    assert_eq!(run.step(failure(0, "rsync failed")), Action::Join);
    assert_eq!(run.step(Event::Joined), Action::Return);
    assert_eq!(run.report().len(), 4);
    assert_eq!(run.sources()[3], Some(3));
}

#[test]
fn run_ends_without_waiting_when_every_destination_fails_its_checks() {
    let mut run = Orchestrator::new(names(&["/a", "/b"]));
    run.step(Event::Started);
    run.step(Event::SizeEstimated(Ok(10)));
    assert_eq!(run.step(Event::SpaceProbed(Ok(1))), Action::CheckSpace { destination: 1 });
    assert_eq!(run.step(Event::SpaceProbed(Ok(2))), Action::Return);
    assert_eq!(run.phase(), Phase::Completed);
    assert_eq!(run.report().len(), 2);
    assert_eq!(run.transfers(), 0);
}

#[test]
fn run_without_destinations_ends_at_once() {
    let mut run = Orchestrator::new(Vec::new());
    assert_eq!(run.step(Event::Started), Action::EstimateSize);
    assert_eq!(run.step(Event::SizeEstimated(Ok(10))), Action::Return);
    assert_eq!(run.phase(), Phase::Completed);
    assert!(run.report().is_empty());
}

#[test]
fn cancellation_keeps_collected_outcomes_and_kills_the_rest() {
    let mut run = Orchestrator::new(names(&["/a", "/b", "/c", "/d"]));
    spawn_all(&mut run, 10);
    assert_eq!(run.step(success(2, "c done")), Action::Receive);
    assert_eq!(run.step(failure(0, "a broke")), Action::Receive);
    assert_eq!(run.step(cancel()), Action::Kill { transfer: 1 });
    assert_eq!(run.phase(), Phase::Draining);
    assert_eq!(run.step(Event::Killed(Ok(()))), Action::Kill { transfer: 3 });
    assert_eq!(run.step(Event::Killed(Ok(()))), Action::Join);
    assert_eq!(run.step(Event::Joined), Action::Return);
    assert_eq!(run.phase(), Phase::Draining);
    assert_eq!(texts(&run.report()), vec!["ok:c done", "err:a broke", "err:Backup interrupted"]);
    assert_eq!(run.sources(), vec![Some(2), Some(0), None]);
    assert_eq!(run.report()[2].as_ref().unwrap_err().kind, ErrorKind::Interrupted);
    assert!(!run.kill_requested(0));
    assert!(run.kill_requested(1));
    assert!(!run.kill_requested(2));
    assert!(run.kill_requested(3));
    assert!(!run.kill_requested(4));
}

#[test]
fn cancellation_before_any_outcome_kills_every_transfer() {
    let mut run = Orchestrator::new(names(&["/a", "/b"]));
    spawn_all(&mut run, 10);
    assert_eq!(run.step(cancel()), Action::Kill { transfer: 0 });
    assert_eq!(run.step(Event::Killed(Ok(()))), Action::Kill { transfer: 1 });
    assert_eq!(run.step(Event::Killed(Ok(()))), Action::Join);
    assert_eq!(run.step(Event::Joined), Action::Return);
    assert_eq!(texts(&run.report()), vec!["err:Backup interrupted"]);
}

#[test]
fn cancellation_counts_destinations_that_failed_their_checks() {
    let mut run = Orchestrator::new(names(&["/a", "/b", "/c"]));
    run.step(Event::Started);
    run.step(Event::SizeEstimated(Ok(10)));
    run.step(Event::SpaceProbed(Ok(1)));
    for _ in 0..2 {
        run.step(Event::SpaceProbed(Ok(10)));
        run.step(Event::Prepared(Ok(())));
        run.step(Event::Spawned(Ok(())));
    }
    assert_eq!(run.step(Event::MonitorsStarted), Action::Receive);
    assert_eq!(run.step(success(1, "c done")), Action::Receive);
    assert_eq!(run.report().len(), 2);
    assert_eq!(run.step(cancel()), Action::Kill { transfer: 0 });
    assert_eq!(run.step(Event::Killed(Ok(()))), Action::Join);
    assert_eq!(run.step(Event::Joined), Action::Return);
    assert_eq!(run.report().len(), 3);
    assert!(run.kill_requested(0));
    assert!(!run.kill_requested(1));
}

#[test]
fn failed_kill_is_recorded_and_does_not_stop_the_drain() {
    let mut run = Orchestrator::new(names(&["/a", "/b"]));
    spawn_all(&mut run, 10);
    assert_eq!(run.step(cancel()), Action::Kill { transfer: 0 });
    let err = BackupError::with_kind(ErrorKind::Io, "No such process");
    assert_eq!(run.step(Event::Killed(Err(err))), Action::Kill { transfer: 1 });
    assert_eq!(run.step(Event::Killed(Ok(()))), Action::Join);
    assert_eq!(run.step(Event::Joined), Action::Return);
    assert_eq!(texts(&run.report()), vec!["err:No such process", "err:Backup interrupted"]);
    assert_eq!(run.sources(), vec![None, None]);
}

#[test]
fn outcomes_that_arrive_during_the_drain_are_not_taken() {
    let mut run = Orchestrator::new(names(&["/a", "/b"]));
    spawn_all(&mut run, 10);
    assert_eq!(run.step(cancel()), Action::Kill { transfer: 0 });
    assert_eq!(run.step(success(1, "late")), Action::Kill { transfer: 0 });
    assert_eq!(run.step(cancel()), Action::Kill { transfer: 0 });
    assert!(run.report().is_empty());
}

#[test]
fn events_that_do_not_answer_the_pending_action_change_nothing() {
    let mut run = Orchestrator::new(names(&["/a"]));
    assert_eq!(run.step(Event::Joined), Action::Start);
    assert_eq!(run.step(Event::SizeEstimated(Ok(5))), Action::Start);
    assert_eq!(run.step(Event::Started), Action::EstimateSize);
    assert_eq!(run.step(Event::Started), Action::EstimateSize);
    assert_eq!(run.step(cancel()), Action::EstimateSize);
    assert_eq!(run.step(Event::SizeEstimated(Ok(5))), Action::CheckSpace { destination: 0 });
    assert_eq!(run.step(Event::Prepared(Ok(()))), Action::CheckSpace { destination: 0 });
    assert_eq!(run.step(Event::Spawned(Ok(()))), Action::CheckSpace { destination: 0 });
    assert_eq!(run.phase(), Phase::Preparing);
    assert!(run.report().is_empty());
}

#[test]
fn a_transfer_reports_only_once() {
    let mut run = Orchestrator::new(names(&["/a", "/b"]));
    spawn_all(&mut run, 10);
    assert_eq!(run.step(success(0, "first")), Action::Receive);
    assert_eq!(run.step(success(0, "again")), Action::Receive);
    assert_eq!(run.step(success(7, "nobody")), Action::Receive);
    assert_eq!(texts(&run.report()), vec!["ok:first"]);
    assert_eq!(run.step(failure(1, "second")), Action::Join);
    assert_eq!(run.step(success(1, "late")), Action::Join);
    assert_eq!(run.step(Event::Joined), Action::Return);
    assert_eq!(run.step(Event::Joined), Action::Return);
    assert_eq!(texts(&run.report()), vec!["ok:first", "err:second"]);
}
