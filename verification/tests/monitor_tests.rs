use dockerbackup::backup_result::ErrorKind;
use dockerbackup::monitor::{monitor_failure, monitor_poll, transfer_label, MonitorStep, Poll};
use dockerbackup::orchestrator::ChannelMessage;

#[test]
fn transfer_label_names_the_destination() {
    assert_eq!(transfer_label("/backup"), "Backup to destination /backup");
    assert_eq!(transfer_label("user@h:/b"), "Backup to destination user@h:/b");
}

#[test]
fn monitor_publishes_success_with_the_elapsed_time() {
    let label = transfer_label("/backup");
    match monitor_poll(&label, 3, 3723, Poll::Exited { success: true }) {
        MonitorStep::Publish { transfer, outcome } => {
            assert_eq!(transfer, 3);
            assert_eq!(
                outcome.unwrap().message(),
                "Backup to destination /backup completed successfully in 01:02:03"
            );
        }
        other => panic!("{:?}", other),
    }
}

#[test]
fn monitor_shows_progress_while_the_transfer_runs() {
    match monitor_poll("Backup to destination /backup", 0, 65, Poll::Running) {
        MonitorStep::Wait { progress, pause_seconds } => {
            assert_eq!(progress, "\rBackup to destination /backup running time: 00:01:05");
            assert_eq!(pause_seconds, 1);
        }
        other => panic!("{:?}", other),
    }
}

#[test]
fn monitor_polls_again_when_the_state_is_unknown() {
    assert!(matches!(monitor_poll("x", 0, 1, Poll::Unknown), MonitorStep::Retry));
}

#[test]
fn monitor_reads_diagnostics_after_a_failure() {
    assert!(matches!(
        monitor_poll("x", 0, 1, Poll::Exited { success: false }),
        MonitorStep::ReadDiagnostics
    ));
    match monitor_failure("Backup to destination /backup", 2, Some("rsync: broken pipe\n".to_string())) {
        ChannelMessage::Outcome { transfer, outcome } => {
            assert_eq!(transfer, 2);
            let err = outcome.unwrap_err();
            assert_eq!(err.kind, ErrorKind::Runtime);
            assert_eq!(err.message, "rsync: broken pipe\n");
        }
        other => panic!("{:?}", other),
    }
    match monitor_failure("Backup to destination /backup", 1, None) {
        ChannelMessage::Outcome { transfer, outcome } => {
            assert_eq!(transfer, 1);
            let err = outcome.unwrap_err();
            assert_eq!(err.kind, ErrorKind::Runtime);
            assert_eq!(err.message, "Backup to destination /backup backup error");
        }
        other => panic!("{:?}", other),
    }
}

#[test]
fn monitor_keeps_empty_diagnostics() {
    match monitor_failure("x", 0, Some(String::new())) {
        ChannelMessage::Outcome { outcome, .. } => assert_eq!(outcome.unwrap_err().message, ""),
        other => panic!("{:?}", other),
    }
}
