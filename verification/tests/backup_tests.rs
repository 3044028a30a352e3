use dockerbackup::backup::{
    new_dir_name, DockerBackup, InterruptAction, Interrupts, Notice, Session, SessionAction,
    SessionEvent,
};
use dockerbackup::backup_result::{BackupError, BackupSuccess, ErrorKind, Outcome};
use dockerbackup::destination::{Destination, LocalDestination};
use dockerbackup::orchestrator::{Action, Phase};

fn strings(list: &[&str]) -> Vec<String> {
    list.iter().map(|s| s.to_string()).collect()
}

fn config(excluded_containers: &[&str], gotify: Option<&str>, discord: Option<&str>) -> DockerBackup {
    DockerBackup::build(
        vec![Destination::Local(LocalDestination { path: "/backup".to_string() })],
        "/var/lib/docker/volumes".to_string(),
        strings(excluded_containers),
        strings(&["cache"]),
        gotify.map(|s| s.to_string()),
        discord.map(|s| s.to_string()),
        2024,
        12,
        31,
    )
}

fn describe(notices: &[Notice]) -> Vec<String> {
    notices
        .iter()
        .map(|n| match n {
            Notice::Gotify(g) => format!("gotify {} {:?} {}", g.url, g.message, g.success),
            Notice::Discord(d) => format!("discord {} {:?} {}", d.url, d.message, d.success),
        })
        .collect()
}

#[test]
fn new_dir_name_is_made_of_year_month_and_day() {
    assert_eq!(new_dir_name(2024, 1, 5), "2024-1-5");
    assert_eq!(new_dir_name(2024, 12, 31), "2024-12-31");
    assert_eq!(new_dir_name(-44, 3, 15), "-44-3-15");
    assert_eq!(new_dir_name(i32::MIN, u32::MAX, 0), format!("{}-{}-{}", i32::MIN, u32::MAX, 0));
}

#[test]
fn build_adds_the_volume_that_is_never_backed_up() {
    let c = config(&[], None, None);
    assert_eq!(c.new_dir(), "2024-12-31");
    assert_eq!(c.volume_path(), "/var/lib/docker/volumes");
    assert_eq!(c.excluded_volumes(), &strings(&["cache", "backingFsBlockDev"]));
    assert_eq!(c.destination_count(), 1);
    assert_eq!(c.destination(0).get_display_name(), "/backup");
}

#[test]
fn run_starts_idle_over_the_destinations() {
    let c = config(&[], None, None);
    let run = c.run();
    assert_eq!(run.phase(), Phase::Idle);
    assert_eq!(run.pending(), Action::Start);
    assert_eq!(run.destinations(), 1);
}

#[test]
fn running_containers_are_listed_once_without_the_excluded() {
    let c = config(&["proxy"], None, None);
    assert_eq!(c.running_containers("web\ndb\nproxy\n"), strings(&["web", "db"]));
    assert_eq!(c.running_containers("\n web\n\ndb\nweb\n\n"), strings(&["web", "db"]));
    assert_eq!(c.running_containers(""), Vec::<String>::new());
    assert_eq!(c.running_containers("  \n "), Vec::<String>::new());
    assert_eq!(c.running_containers("proxy"), Vec::<String>::new());
    assert_eq!(c.running_containers("a \nb"), strings(&["a ", "b"]));
}

#[test]
fn running_containers_agree_with_the_set_of_the_standard_library() {
    let c = config(&["x", "z"], None, None);
    for listing in ["", "a\nb\na\nx\n", "\n\nz", "x\nx", "q \n q\nq"] {
        let mut expected: std::collections::HashSet<&str> = listing.trim().split('\n').collect();
        expected.retain(|x| !x.is_empty());
        expected.remove("x");
        expected.remove("z");
        let got = c.running_containers(listing);
        let as_set: std::collections::HashSet<&str> = got.iter().map(|s| s.as_str()).collect();
        assert_eq!(as_set, expected, "{:?}", listing);
        assert_eq!(as_set.len(), got.len(), "{:?}", listing);
    }
}

#[test]
fn session_stops_and_starts_the_running_containers() {
    let c = config(&[], Some("g"), None);
    let (session, action) = c.backup(Session::Listing, SessionEvent::Listed(Ok("web\ndb\n".to_string())));
    match action {
        SessionAction::Stop { containers } => assert_eq!(containers, strings(&["web", "db"])),
        other => panic!("{:?}", other),
    }
    let (session, action) = c.backup(session, SessionEvent::Stopped(Ok(())));
    assert!(matches!(action, SessionAction::Run));
    let report: Vec<Outcome> = vec![Ok(BackupSuccess::new("fine"))];
    let (session, action) = c.backup(session, SessionEvent::Finished(report));
    match action {
        SessionAction::Start { containers } => assert_eq!(containers, strings(&["web", "db"])),
        other => panic!("{:?}", other),
    }
    let (session, action) = c.backup(session, SessionEvent::Started(Ok(())));
    match action {
        SessionAction::Exit { notices, result } => {
            assert!(result.is_ok());
            assert_eq!(describe(&notices), vec!["gotify g Some(\"fine\") true"]);
        }
        other => panic!("{:?}", other),
    }
    assert!(matches!(session, Session::Done));
}

#[test]
fn session_without_containers_only_runs() {
    let c = config(&["web"], None, Some("d"));
    let (session, action) = c.backup(Session::Listing, SessionEvent::Listed(Ok("web\n".to_string())));
    assert!(matches!(action, SessionAction::Run));
    let report: Vec<Outcome> = vec![Err(BackupError::new("broke")), Ok(BackupSuccess::new("fine"))];
    let (session, action) = c.backup(session, SessionEvent::Finished(report));
    match action {
        SessionAction::Exit { notices, result } => {
            assert!(result.is_ok());
            assert_eq!(
                describe(&notices),
                vec!["discord d Some(\"broke\") false", "discord d Some(\"fine\") true"]
            );
        }
        other => panic!("{:?}", other),
    }
    assert!(matches!(session, Session::Done));
}

#[test]
fn session_ends_before_the_run_when_containers_cannot_be_stopped() {
    let c = config(&[], Some("g"), Some("d"));
    let (session, _) = c.backup(Session::Listing, SessionEvent::Listed(Ok("web".to_string())));
    let err = BackupError::new("Error handling containers");
    let (session, action) = c.backup(session, SessionEvent::Stopped(Err(err)));
    match action {
        SessionAction::Exit { notices, result } => {
            assert_eq!(result.unwrap_err().message, "Error handling containers");
            assert!(notices.is_empty());
        }
        other => panic!("{:?}", other),
    }
    assert!(matches!(session, Session::Done));
}

#[test]
fn session_ends_when_containers_cannot_be_listed() {
    let c = config(&[], Some("g"), None);
    let err = BackupError::with_kind(ErrorKind::Io, "docker: not found");
    let (session, action) = c.backup(Session::Listing, SessionEvent::Listed(Err(err)));
    match action {
        SessionAction::Exit { notices, result } => {
            assert_eq!(result.unwrap_err().message, "docker: not found");
            assert!(notices.is_empty());
        }
        other => panic!("{:?}", other),
    }
    assert!(matches!(session, Session::Done));
}

#[test]
fn session_still_tells_about_outcomes_when_containers_cannot_be_started() {
    let c = config(&[], Some("g"), Some("d"));
    let (session, _) = c.backup(Session::Listing, SessionEvent::Listed(Ok("web".to_string())));
    let (session, _) = c.backup(session, SessionEvent::Stopped(Ok(())));
    let report: Vec<Outcome> = vec![Err(BackupError::new("broke"))];
    let (session, _) = c.backup(session, SessionEvent::Finished(report));
    let err = BackupError::new("Error handling containers");
    let (_, action) = c.backup(session, SessionEvent::Started(Err(err)));
    match action {
        SessionAction::Exit { notices, result } => {
            assert_eq!(result.unwrap_err().message, "Error handling containers");
            assert_eq!(
                describe(&notices),
                vec![
                    "gotify g Some(\"Backup failed with error: broke\") false",
                    "discord d Some(\"broke\") false"
                ]
            );
        }
        other => panic!("{:?}", other),
    }
}

#[test]
fn session_ignores_events_out_of_turn() {
    let c = config(&[], None, None);
    let (session, action) = c.backup(Session::Listing, SessionEvent::Stopped(Ok(())));
    assert!(matches!(action, SessionAction::Nothing));
    assert!(matches!(session, Session::Listing));
    let (session, action) = c.backup(Session::Done, SessionEvent::Listed(Ok("web".to_string())));
    assert!(matches!(action, SessionAction::Nothing));
    assert!(matches!(session, Session::Done));
}

#[test]
fn notify_addresses_the_configured_services() {
    let err = BackupError::new("rsync failed");
    let done = BackupSuccess::new("fine");
    assert!(err.notify(&config(&[], None, None)).is_empty());
    assert!(done.notify(&config(&[], None, None)).is_empty());
    assert_eq!(
        describe(&err.notify(&config(&[], Some("g"), Some("d")))),
        vec![
            "gotify g Some(\"Backup failed with error: rsync failed\") false",
            "discord d Some(\"rsync failed\") false"
        ]
    );
    assert_eq!(
        describe(&done.notify(&config(&[], Some("g"), Some("d")))),
        vec!["gotify g Some(\"fine\") true", "discord d Some(\"fine\") true"]
    );
    assert_eq!(describe(&done.notify(&config(&[], None, Some("d")))), vec!["discord d Some(\"fine\") true"]);
}

#[test]
fn report_notices_follow_the_order_of_the_report() {
    let c = config(&[], Some("g"), None);
    let report: Vec<Outcome> = vec![Ok(BackupSuccess::new("one")), Err(BackupError::new("two"))];
    assert_eq!(
        describe(&c.report_notices(&report)),
        vec!["gotify g Some(\"one\") true", "gotify g Some(\"Backup failed with error: two\") false"]
    );
    assert!(c.report_notices(&Vec::new()).is_empty());
}

#[test]
fn first_interrupt_cancels_and_later_ones_force_the_exit() {
    let mut interrupts = Interrupts::new();
    assert_eq!(interrupts.signal(), InterruptAction::RequestCancel);
    assert_eq!(interrupts.signal(), InterruptAction::ForceExit);
    assert_eq!(interrupts.signal(), InterruptAction::ForceExit);
}

#[test]
fn errors_clone_and_default() {
    let err = BackupError::with_kind(ErrorKind::Spawn, "x");
    let copy = err.clone();
    assert_eq!(copy.kind, ErrorKind::Spawn);
    assert_eq!(copy.message, "x");
    assert_eq!(copy.to_string(), "x");
    let def = BackupError::default();
    assert_eq!(def.message, "An error occurred while parsing the HTTP request");
    assert_eq!(BackupError::new("y").kind, ErrorKind::Runtime);
    assert_eq!(BackupSuccess::new("z").clone().message(), "z");
}
