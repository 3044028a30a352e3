use dockerbackup::backup_result::ErrorKind;
use dockerbackup::destination::{
    append_to_path, check_space, exclude_volumes, join_path, parse_destination_path,
    parse_probe_output, spawn_failed, volume_listing_failed, Destination, LocalDestination,
    ProbeFormat, ProbeOutput, ProbeStep, SshDestination, TargetOs, TransferPlan,
};

fn local(path: &str) -> Destination {
    Destination::Local(LocalDestination { path: path.to_string() })
}

fn remote(host: &str, path: &str, target_os: TargetOs) -> Destination {
    Destination::Ssh(SshDestination { host: host.to_string(), path: path.to_string(), target_os })
}

fn strings(list: &[&str]) -> Vec<String> {
    list.iter().map(|s| s.to_string()).collect()
}

fn output(success: bool, stdout: &str, stderr: &str) -> Result<ProbeOutput, String> {
    Ok(ProbeOutput { success, stdout: stdout.to_string(), stderr: stderr.to_string() })
}

fn done(step: ProbeStep) -> Result<u64, (ErrorKind, String)> {
    match step {
        ProbeStep::Done(Ok(n)) => Ok(n),
        ProbeStep::Done(Err(e)) => Err((e.kind, e.message)),
        ProbeStep::Retry { attempt } => panic!("retry {}", attempt),
    }
}

#[test]
fn target_os_reads_names_in_any_case() {
    assert_eq!(TargetOs::from_str("windows").unwrap(), TargetOs::Windows);
    assert_eq!(TargetOs::from_str("Windows").unwrap(), TargetOs::Windows);
    assert_eq!(TargetOs::from_str("WINDOWS").unwrap(), TargetOs::Windows);
    assert_eq!(TargetOs::from_str("unix").unwrap(), TargetOs::Unix);
    assert_eq!(TargetOs::from_str("UniX").unwrap(), TargetOs::Unix);
}

#[test]
fn target_os_rejects_other_names() {
    for name in ["", "linux", " unix", "unix ", "win", "windowss", "un\u{130}x"] {
        let err = TargetOs::from_str(name).unwrap_err();
        assert_eq!(err.kind, ErrorKind::Config);
        assert_eq!(err.message, "Unsupported os");
        assert!(name.to_lowercase() != "windows" && name.to_lowercase() != "unix");
    }
}

#[test]
fn parse_destination_reads_remote_specifications() {
    match parse_destination_path("user@h:/b,unix", false).unwrap() {
        Destination::Ssh(d) => {
            assert_eq!(d.host, "user@h");
            assert_eq!(d.path, "/b");
            assert_eq!(d.target_os, TargetOs::Unix);
        }
        other => panic!("{:?}", other),
    }
    match parse_destination_path("admin@nas:C:\\backup,Windows", true).unwrap() {
        Destination::Ssh(d) => {
            assert_eq!(d.host, "admin@nas");
            assert_eq!(d.path, "C:\\backup");
            assert_eq!(d.target_os, TargetOs::Windows);
        }
        other => panic!("{:?}", other),
    }
}

#[test]
fn parse_destination_reads_local_paths() {
    match parse_destination_path("/backup", true).unwrap() {
        Destination::Local(d) => assert_eq!(d.path, "/backup"),
        other => panic!("{:?}", other),
    }
    match parse_destination_path("relative/dir,with:signs", true).unwrap() {
        Destination::Local(d) => assert_eq!(d.path, "relative/dir,with:signs"),
        other => panic!("{:?}", other),
    }
}

#[test]
fn parse_destination_rejects_malformed_specifications() {
    let cases = [
        ("/missing", false, "Local path does not exist"),
        ("", false, "Local path does not exist"),
        ("user@host:/b", true, "Destination path and target os must be provided"),
        ("user@host,unix", true, "SSH path must be in the format user@host:path"),
        ("host:/b@x,unix", true, "SSH path must be in the format user@host:path"),
        ("user@host:/b,", true, "Unsupported os"),
        ("user@host:/b, unix", true, "Unsupported os"),
        ("user@host:/b,unix,windows", true, "Unsupported os"),
        ("user@host:/b,solaris", true, "Unsupported os"),
        ("@,", true, "SSH path must be in the format user@host:path"),
    ];
    for (spec, exists, text) in cases {
        let err = parse_destination_path(spec, exists).unwrap_err();
        assert_eq!(err.kind, ErrorKind::Config, "{}", spec);
        assert_eq!(err.message, text, "{}", spec);
    }
}

#[test]
fn parse_destination_splits_at_the_first_comma_and_colon() {
    match parse_destination_path("u@h:/a:b,unix", false).unwrap() {
        Destination::Ssh(d) => {
            assert_eq!(d.host, "u@h");
            assert_eq!(d.path, "/a:b");
        }
        other => panic!("{:?}", other),
    }
    match parse_destination_path("u@h:,unix", false).unwrap() {
        Destination::Ssh(d) => {
            assert_eq!(d.host, "u@h");
            assert_eq!(d.path, "");
        }
        other => panic!("{:?}", other),
    }
}

#[test]
fn display_names_are_path_and_host_with_path() {
    assert_eq!(local("/backup").get_display_name(), "/backup");
    assert_eq!(remote("user@h", "/b", TargetOs::Unix).get_display_name(), "user@h:/b");
    assert_eq!(remote("user@h", "D:\\b", TargetOs::Windows).get_display_name(), "user@h:D:\\b");
}

#[test]
fn append_to_path_uses_the_separator_of_the_target() {
    assert_eq!(append_to_path("/b", "2024-1-5", &TargetOs::Unix), "/b/2024-1-5");
    assert_eq!(append_to_path("D:\\b", "2024-1-5", &TargetOs::Windows), "D:\\b\\2024-1-5");
    assert_eq!(append_to_path("/b/", "x", &TargetOs::Unix), "/b//x");
    assert_eq!(append_to_path("", "", &TargetOs::Windows), "\\");
}

#[test]
fn join_path_agrees_with_the_standard_library() {
    let bases = ["/backup", "/backup/", "", "rel", "rel/", "/", "a//"];
    let children = ["2024-1-5", "", "/abs", "x/y", "./z"];
    for base in bases {
        for child in children {
            let expected = std::path::Path::new(base).join(child);
            assert_eq!(join_path(base, child), expected.to_str().unwrap(), "{:?} {:?}", base, child);
        }
    }
}

#[test]
fn join_path_puts_one_slash_between() {
    assert_eq!(join_path("/backup", "2024-1-5"), "/backup/2024-1-5");
    assert_eq!(join_path("/backup/", "2024-1-5"), "/backup/2024-1-5");
    assert_eq!(join_path("/backup", "/other"), "/other");
}

#[test]
fn check_space_compares_with_what_is_needed() {
    assert!(check_space("/backup", 100, 100).is_ok());
    assert!(check_space("/backup", 0, 0).is_ok());
    assert!(check_space("/backup", 100, u64::MAX).is_ok());
    let err = check_space("/backup", 100, 99).unwrap_err();
    assert_eq!(err.kind, ErrorKind::InsufficientSpace { required: 100, available: 99 });
    assert_eq!(
        err.message,
        "Not enough space on destination /backup. Required: 100 bytes, Available: 99 bytes"
    );
}

#[test]
fn check_available_space_hands_probe_errors_on() {
    let d = remote("user@h", "/b", TargetOs::Unix);
    assert!(d.check_available_space(5, Ok(5)).is_ok());
    let err = d.check_available_space(u64::MAX, Ok(0)).unwrap_err();
    assert_eq!(err.kind, ErrorKind::InsufficientSpace { required: u64::MAX, available: 0 });
    assert_eq!(
        err.message,
        "Not enough space on destination user@h:/b. Required: 18446744073709551615 bytes, Available: 0 bytes"
    );
    let probe = dockerbackup::backup_result::BackupError::with_kind(ErrorKind::Probe, "Invalid df output");
    let err = d.check_available_space(5, Err(probe)).unwrap_err();
    assert_eq!(err.kind, ErrorKind::Probe);
    assert_eq!(err.message, "Invalid df output");
}

#[test]
fn exclude_volumes_makes_one_argument_for_each() {
    let volumes = strings(&["web_data", "db", "backingFsBlockDev"]);
    let args = exclude_volumes(&strings(&["db", "backingFsBlockDev"]), &volumes).unwrap();
    assert_eq!(args, vec!["--exclude=db", "--exclude=backingFsBlockDev"]);
    assert_eq!(exclude_volumes(&Vec::new(), &volumes).unwrap(), Vec::<String>::new());
    assert_eq!(exclude_volumes(&Vec::new(), &Vec::new()).unwrap(), Vec::<String>::new());
}

#[test]
fn exclude_volumes_matches_by_suffix() {
    let volumes = strings(&["project_web_data", "db"]);
    let args = exclude_volumes(&strings(&["web_data", "data", ""]), &volumes).unwrap();
    assert_eq!(args, vec!["--exclude=web_data", "--exclude=data", "--exclude="]);
    let err = exclude_volumes(&strings(&["project"]), &volumes).unwrap_err();
    assert_eq!(err.message, "Excluded volume 'project' does not exist");
}

#[test]
fn exclude_volumes_names_the_first_unknown_volume() {
    let volumes = strings(&["a", "b"]);
    let err = exclude_volumes(&strings(&["a", "nope", "b", "neither"]), &volumes).unwrap_err();
    assert_eq!(err.kind, ErrorKind::UnknownExclusion);
    assert_eq!(err.message, "Excluded volume 'nope' does not exist");
    let err = exclude_volumes(&strings(&["x"]), &Vec::new()).unwrap_err();
    assert_eq!(err.message, "Excluded volume 'x' does not exist");
}

#[test]
fn local_transfer_is_one_recursive_copy() {
    let volumes = strings(&["a", "b", "backingFsBlockDev"]);
    let excluded = strings(&["backingFsBlockDev"]);
    let plan = local("/backup").spawn_backup("/var/lib/docker/volumes", &excluded, "2024-1-5", &volumes).unwrap();
    match plan {
        TransferPlan::Copy { command } => {
            assert_eq!(command.program, "rsync");
            assert_eq!(
                command.args,
                vec!["--exclude=backingFsBlockDev", "-aW", "/var/lib/docker/volumes", "/backup/2024-1-5"]
            );
        }
        other => panic!("{:?}", other),
    }
}

#[test]
fn remote_transfer_pipes_an_archive_into_the_host() {
    let volumes = strings(&["a", "b", "backingFsBlockDev"]);
    let excluded = strings(&["b", "backingFsBlockDev"]);
    let plan = remote("user@h", "/b", TargetOs::Unix)
        .spawn_backup("/volumes", &excluded, "2024-1-5", &volumes)
        .unwrap();
    match plan {
        TransferPlan::Pipe { archive, unpack } => {
            assert_eq!(archive.program, "tar");
            assert_eq!(
                archive.args,
                vec!["-cf-", "-C", "/volumes", "--exclude=b", "--exclude=backingFsBlockDev", "."]
            );
            assert_eq!(unpack.program, "ssh");
            assert_eq!(
                unpack.args,
                vec!["user@h", "mkdir", "/b/2024-1-5", "&&", "tar", "-C", "/b/2024-1-5", "-xf-"]
            );
        }
        other => panic!("{:?}", other),
    }
    let plan = remote("user@h", "D:\\b", TargetOs::Windows)
        .spawn_backup("/volumes", &Vec::new(), "2024-1-5", &volumes)
        .unwrap();
    match plan {
        TransferPlan::Pipe { archive, unpack } => {
            assert_eq!(archive.args, vec!["-cf-", "-C", "/volumes", "."]);
            assert_eq!(unpack.args[2], "D:\\b\\2024-1-5");
            assert_eq!(unpack.args[6], "D:\\b\\2024-1-5");
        }
        other => panic!("{:?}", other),
    }
}

#[test]
fn unknown_exclusion_stops_both_kinds_of_transfer() {
    let volumes = strings(&["a", "b", "backingFsBlockDev"]);
    let excluded = strings(&["ghost", "backingFsBlockDev"]);
    for d in [local("/backup"), remote("user@h", "/b", TargetOs::Unix), remote("u@w", "C:\\b", TargetOs::Windows)] {
        let err = d.spawn_backup("/volumes", &excluded, "2024-1-5", &volumes).unwrap_err();
        assert_eq!(err.kind, ErrorKind::UnknownExclusion);
        assert_eq!(err.message, "Excluded volume 'ghost' does not exist");
    }
}

#[test]
fn spawn_and_listing_errors_carry_the_reason() {
    let err = spawn_failed("rsync", "No such file or directory (os error 2)");
    assert_eq!(err.kind, ErrorKind::Spawn);
    assert_eq!(err.message, "Failed to spawn rsync: No such file or directory (os error 2)");
    let err = volume_listing_failed("Permission denied");
    assert_eq!(err.kind, ErrorKind::Io);
    assert_eq!(err.message, "Failed to read volume directory: Permission denied");
}

#[test]
fn probe_formats_depend_on_the_destination() {
    assert_eq!(local("/b").probe_formats(), vec![ProbeFormat::AvailableBytes]);
    assert_eq!(
        remote("u@h", "/b", TargetOs::Unix).probe_formats(),
        vec![ProbeFormat::AvailableBytes, ProbeFormat::PosixKilobytes]
    );
    assert_eq!(remote("u@h", "/b", TargetOs::Windows).probe_formats(), vec![ProbeFormat::PowershellBytes]);
}

#[test]
fn probe_commands_are_as_documented() {
    let c = local("/backup").probe_command(0).unwrap();
    assert_eq!(c.program, "df");
    assert_eq!(c.args, vec!["-B1", "--output=avail", "/backup"]);
    assert!(local("/backup").probe_command(1).is_none());

    let d = remote("user@h", "/b", TargetOs::Unix);
    let c = d.probe_command(0).unwrap();
    assert_eq!(c.program, "ssh");
    assert_eq!(c.args, vec!["user@h", "df", "-B1", "--output=avail", "/b"]);
    let c = d.probe_command(1).unwrap();
    assert_eq!(c.program, "ssh");
    assert_eq!(c.args, vec!["user@h", "df", "-Pk", "/b"]);
    assert!(d.probe_command(2).is_none());

    let d = remote("user@w", "D:\\b", TargetOs::Windows);
    let c = d.probe_command(0).unwrap();
    assert_eq!(c.program, "ssh");
    assert_eq!(
        c.args,
        vec![
            "user@w".to_string(),
            format!(
                "powershell -Command \"Get-Volume -FilePath '{}' | Select-Object -ExpandProperty SizeRemaining\"",
                "D:\\b"
            )
        ]
    );
    assert!(d.probe_command(1).is_none());
}

#[test]
fn parse_probe_output_reads_the_second_line() {
    let f = ProbeFormat::AvailableBytes;
    assert_eq!(parse_probe_output(f, "Avail\n12345\n").unwrap(), 12345);
    assert_eq!(parse_probe_output(f, "     Avail\n 1048576").unwrap(), 1048576);
    assert_eq!(parse_probe_output(f, "Avail\r\n77\r\n").unwrap(), 77);
    assert_eq!(parse_probe_output(f, "\n5\n6\n").unwrap(), 5);
    assert_eq!(parse_probe_output(f, "Avail\n18446744073709551615\n").unwrap(), u64::MAX);
}

#[test]
fn parse_probe_output_rejects_short_or_odd_output() {
    let f = ProbeFormat::AvailableBytes;
    for text in ["", "Avail", "Avail\n", "12345\n"] {
        let err = parse_probe_output(f, text).unwrap_err();
        assert_eq!(err.kind, ErrorKind::Probe);
        assert_eq!(err.message, "Invalid df output", "{:?}", text);
    }
    for text in ["Avail\n\n", "Avail\n12k\n", "Avail\n-5\n", "Avail\n1 2\n", "Avail\n18446744073709551616\n", "Avail\n \n5"] {
        let err = parse_probe_output(f, text).unwrap_err();
        assert_eq!(err.kind, ErrorKind::Probe);
        assert_eq!(err.message, "Failed to parse available space", "{:?}", text);
    }
}

#[test]
fn parse_probe_output_agrees_with_line_splitting_of_std() {
    let samples = ["", "a", "a\n", "a\nb", "a\n12\n", "a\r\n12\r\n", "\n\n", "a\n 7 \nb", "a\n7\r", "x\n+9\n"];
    for s in samples {
        let lines: Vec<&str> = s.lines().collect();
        let expected: Result<u64, &str> = if lines.len() < 2 {
            Err("Invalid df output")
        } else {
            lines[1].trim().parse::<u64>().map_err(|_| "Failed to parse available space")
        };
        let got = parse_probe_output(ProbeFormat::AvailableBytes, s);
        match (got, expected) {
            (Ok(a), Ok(b)) => assert_eq!(a, b, "{:?}", s),
            (Err(e), Err(text)) => assert_eq!(e.message, text, "{:?}", s),
            (got, expected) => panic!("{:?}: {:?} {:?}", s, got, expected),
        }
    }
}

#[test]
fn parse_probe_output_reads_the_portable_table() {
    let f = ProbeFormat::PosixKilobytes;
    let text = "Filesystem 1024-blocks Used Available Capacity Mounted on\n/dev/sda1 1000 400 600 40% /\n";
    assert_eq!(parse_probe_output(f, text).unwrap(), 600 * 1024);
    let text = "Filesystem 1024-blocks Used Available Capacity Mounted on\n/dev/sda1 1000 400\n";
    assert_eq!(parse_probe_output(f, text).unwrap_err().message, "Failed to parse available space");
    let text = "h\nfs 1 2 18014398509481984 x\n";
    assert_eq!(parse_probe_output(f, text).unwrap_err().message, "Failed to parse available space");
    let text = "h\nfs 1 2 18014398509481983 x\n";
    assert_eq!(parse_probe_output(f, text).unwrap(), 18014398509481983 * 1024);
    assert_eq!(parse_probe_output(f, "only one line").unwrap_err().message, "Invalid df output");
}

#[test]
fn parse_probe_output_reads_what_powershell_prints() {
    let f = ProbeFormat::PowershellBytes;
    assert_eq!(parse_probe_output(f, "123456789\r\n").unwrap(), 123456789);
    assert_eq!(parse_probe_output(f, "5").unwrap(), 5);
    assert_eq!(parse_probe_output(f, "").unwrap_err().message, "Failed to parse available space");
    assert_eq!(parse_probe_output(f, "1\n2").unwrap_err().message, "Failed to parse available space");
}

#[test]
fn available_space_reads_a_successful_probe() {
    assert_eq!(done(local("/b").available_space(0, output(true, "Avail\n500\n", ""))), Ok(500));
    let d = remote("u@h", "/b", TargetOs::Unix);
    assert_eq!(done(d.available_space(0, output(true, "Avail\n500\n", ""))), Ok(500));
    assert_eq!(done(d.available_space(1, output(true, "h\nfs 9 4 5 44% /\n", ""))), Ok(5120));
    let w = remote("u@w", "C:\\", TargetOs::Windows);
    assert_eq!(done(w.available_space(0, output(true, "4096\r\n", ""))), Ok(4096));
}

#[test]
fn available_space_falls_back_to_the_portable_table_on_remote_unix() {
    let d = remote("u@h", "/b", TargetOs::Unix);
    match d.available_space(0, output(false, "", "df: unrecognized option '--output=avail'")) {
        ProbeStep::Retry { attempt } => assert_eq!(attempt, 1),
        other => panic!("{:?}", other),
    }
    assert_eq!(
        done(d.available_space(1, output(false, "", "df: /b: No such file or directory\n"))),
        Err((ErrorKind::Probe, "ssh df command failed: df: /b: No such file or directory\n".to_string()))
    );
}

#[test]
fn available_space_reports_failed_probes() {
    assert_eq!(
        done(local("/b").available_space(0, output(false, "ignored", "df: /b: No such file"))),
        Err((ErrorKind::Probe, "df command failed: df: /b: No such file".to_string()))
    );
    let w = remote("u@w", "C:\\", TargetOs::Windows);
    assert_eq!(
        done(w.available_space(0, output(false, "", "denied"))),
        Err((ErrorKind::Probe, "ssh powershell command failed: denied".to_string()))
    );
    assert_eq!(
        done(local("/b").available_space(0, Err("No such file or directory (os error 2)".to_string()))),
        Err((ErrorKind::Probe, "Failed to execute df: No such file or directory (os error 2)".to_string()))
    );
    let d = remote("u@h", "/b", TargetOs::Unix);
    assert_eq!(
        done(d.available_space(0, Err("not found".to_string()))),
        Err((ErrorKind::Probe, "Failed to execute ssh: not found".to_string()))
    );
    assert_eq!(
        done(d.available_space(0, output(true, "Avail\n", ""))),
        Err((ErrorKind::Probe, "Invalid df output".to_string()))
    );
    assert_eq!(
        done(d.available_space(2, output(true, "Avail\n5\n", ""))),
        Err((ErrorKind::Probe, "No such probe".to_string()))
    );
}

#[test]
fn prepare_asks_for_the_directory_of_the_run() {
    let d = local("/backup");
    assert_eq!(d.prepare("2024-1-5", false).unwrap(), Some("/backup/2024-1-5".to_string()));
    let err = d.prepare("2024-1-5", true).unwrap_err();
    assert_eq!(err.kind, ErrorKind::AlreadyExists);
    assert_eq!(err.message, "Directory already exists");
}

#[test]
fn prepare_twice_fails_the_second_time() {
    let d = local("/backup");
    let mut directories: Vec<String> = Vec::new();
    let first = d.prepare("2024-1-5", directories.contains(&"/backup/2024-1-5".to_string()));
    match first {
        Ok(Some(dir)) => directories.push(dir),
        other => panic!("{:?}", other),
    }
    let second = d.prepare("2024-1-5", directories.contains(&"/backup/2024-1-5".to_string()));
    assert_eq!(second.unwrap_err().kind, ErrorKind::AlreadyExists);
    assert_eq!(directories, vec!["/backup/2024-1-5"]);
}

#[test]
fn prepare_is_nothing_for_remote_destinations() {
    let d = remote("u@h", "/b", TargetOs::Unix);
    assert_eq!(d.prepare("2024-1-5", false).unwrap(), None);
    assert_eq!(d.prepare("2024-1-5", true).unwrap(), None);
}
