use marv::process::{
    is_process_running, kill_command, kill_process, launch_command, open_browser, probe_command,
    spawned_pid, termination_in_doubt, CommandLine, CommandOutcome, Platform, TerminationError,
    LAUNCH_LINE, SERVER_FLAG,
};

fn command(program: &str, args: &[&str]) -> Option<CommandLine> {
    Some(CommandLine { program: program.to_string(), args: args.iter().map(|a| a.to_string()).collect() })
}

fn ran(success: bool, output: &str) -> CommandOutcome {
    CommandOutcome::Ran { success, output: output.to_string() }
}

const UNIXES: [Platform; 3] = [Platform::Linux, Platform::MacOs, Platform::OtherUnix];

#[test]
fn probe_commands() {
    for platform in UNIXES {
        assert_eq!(probe_command(platform, 1234), command("ps", &["-p", "1234"]));
    }
    assert_eq!(probe_command(Platform::Windows, 1234), command("tasklist", &["/FI", "PID eq 1234", "/NH"]));
    assert_eq!(probe_command(Platform::Unsupported, 1234), None);
    assert_eq!(probe_command(Platform::Linux, 0), command("ps", &["-p", "0"]));
    assert_eq!(probe_command(Platform::Linux, u32::MAX), command("ps", &["-p", "4294967295"]));
}

#[test]
fn unix_probe_goes_by_exit_status() {
    for platform in UNIXES {
        assert!(is_process_running(platform, 7, &ran(true, "")));
        assert!(!is_process_running(platform, 7, &ran(false, "  PID TTY\n    7 ?")));
        assert!(!is_process_running(platform, 7, &CommandOutcome::NotRun));
    }
}

#[test]
fn windows_probe_goes_by_output() {
    let listing = "marv.exe                      1234 Console                    1     10,000 K";
    assert!(is_process_running(Platform::Windows, 1234, &ran(true, listing)));
    assert!(is_process_running(Platform::Windows, 1234, &ran(false, listing)));
    assert!(!is_process_running(Platform::Windows, 4321, &ran(true, listing)));
    assert!(!is_process_running(Platform::Windows, 1234, &ran(true, "INFO: No tasks are running")));
    assert!(!is_process_running(Platform::Windows, 1234, &CommandOutcome::NotRun));
    assert!(is_process_running(Platform::Windows, 23, &ran(true, listing)));
}

#[test]
fn unsupported_platform_has_no_live_process() {
    assert!(!is_process_running(Platform::Unsupported, 1, &ran(true, "1")));
    assert!(!is_process_running(Platform::Unsupported, 1, &CommandOutcome::NotRun));
}

#[test]
fn kill_commands() {
    for platform in UNIXES {
        assert_eq!(kill_command(platform, 1234), command("kill", &["1234"]));
    }
    assert_eq!(kill_command(Platform::Windows, 1234), command("taskkill", &["/F", "/PID", "1234"]));
    assert_eq!(kill_command(Platform::Unsupported, 1234), None);
}

const SUPPORTED: [Platform; 4] =
    [Platform::Linux, Platform::MacOs, Platform::OtherUnix, Platform::Windows];

#[test]
fn successful_termination_is_done() {
    for platform in SUPPORTED {
        assert_eq!(kill_process(platform, &ran(true, ""), false), Ok(()));
        assert_eq!(kill_process(platform, &ran(true, ""), true), Ok(()));
    }
}

#[test]
fn process_that_was_already_gone_counts_as_terminated() {
    for platform in SUPPORTED {
        assert_eq!(kill_process(platform, &ran(false, "No such process"), false), Ok(()));
    }
}

#[test]
fn refused_termination_is_a_failure() {
    for platform in SUPPORTED {
        assert_eq!(
            kill_process(platform, &ran(false, "Operation not permitted"), true),
            Err(TerminationError::Refused)
        );
    }
}

#[test]
fn termination_that_did_not_run_is_a_failure() {
    for platform in SUPPORTED {
        for still_alive in [false, true] {
            assert_eq!(
                kill_process(platform, &CommandOutcome::NotRun, still_alive),
                Err(TerminationError::NotRun)
            );
        }
    }
}

#[test]
fn termination_is_unsupported_without_a_command() {
    for outcome in [ran(true, ""), ran(false, ""), CommandOutcome::NotRun] {
        for still_alive in [false, true] {
            assert_eq!(
                kill_process(Platform::Unsupported, &outcome, still_alive),
                Err(TerminationError::Unsupported)
            );
        }
    }
}

#[test]
fn only_an_unsuccessful_run_is_in_doubt() {
    assert!(termination_in_doubt(&ran(false, "")));
    assert!(!termination_in_doubt(&ran(true, "")));
    assert!(!termination_in_doubt(&CommandOutcome::NotRun));
}

#[test]
fn browser_commands() {
    let url = "http://localhost:4000";
    assert_eq!(open_browser(Platform::Linux, url), command("xdg-open", &[url]));
    assert_eq!(open_browser(Platform::MacOs, url), command("open", &[url]));
    assert_eq!(open_browser(Platform::Windows, url), command("cmd", &["/C", "start", url]));
    assert_eq!(open_browser(Platform::OtherUnix, url), None);
    assert_eq!(open_browser(Platform::Unsupported, url), None);
}

#[test]
fn launch_commands() {
    assert_eq!(SERVER_FLAG, "--bg-server");
    assert_eq!(LAUNCH_LINE, "nohup \"$0\" --bg-server \"$1\" > /dev/null 2>&1 & echo $!");
    assert!(LAUNCH_LINE.contains(&format!(" {} ", SERVER_FLAG)));
    for platform in UNIXES {
        assert_eq!(
            launch_command(platform, "/usr/bin/marv", "/tmp/my doc.md"),
            command("bash", &["-c", LAUNCH_LINE, "/usr/bin/marv", "/tmp/my doc.md"])
        );
    }
    assert_eq!(
        launch_command(Platform::Windows, "C:\\marv.exe", "C:\\doc.md"),
        command("cmd", &["/C", "start", "/B", "C:\\marv.exe", "--bg-server", "C:\\doc.md"])
    );
    assert_eq!(launch_command(Platform::Unsupported, "marv", "doc.md"), None);
}

#[test]
fn path_is_an_argument_of_its_own() {
    let paths = ["a.md", "", "/x/ü.md", "/tmp/a\"b.md", "/tmp/$HOME.md", "/tmp/`id`.md", "/tmp/a\\b.md", "$(rm -rf x)"];
    for (exe, path) in paths.iter().map(|p| ("/opt/m v/marv", *p)) {
        for platform in UNIXES {
            let launch = launch_command(platform, exe, path).unwrap();
            assert_eq!(launch.program, "bash");
            assert_eq!(launch.args, vec!["-c", LAUNCH_LINE, exe, path]);
        }
        let launch = launch_command(Platform::Windows, exe, path).unwrap();
        assert_eq!(launch.args.last().map(|s| s.as_str()), Some(path));
    }
}

#[test]
fn spawned_pid_is_read_from_output() {
    assert_eq!(spawned_pid("12345\n"), Some(12345));
    assert_eq!(spawned_pid("  7  "), Some(7));
    assert_eq!(spawned_pid("4294967295"), Some(u32::MAX));
    assert_eq!(spawned_pid("4294967296"), None);
    assert_eq!(spawned_pid(""), None);
    assert_eq!(spawned_pid("\n"), None);
    assert_eq!(spawned_pid("12 34"), None);
    assert_eq!(spawned_pid("pid 12"), None);
    assert_eq!(spawned_pid("-1"), None);
    assert_eq!(spawned_pid("+15"), Some(15));
}

#[test]
fn spawned_pid_reads_as_the_standard_library() {
    for output in ["1", " 1\n", "01", "+1", "1.0", "1e3", "", "  ", "４２", "99999999999", "\u{2003}8\u{2003}"] {
        assert_eq!(spawned_pid(output), output.trim().parse::<u32>().ok(), "output {:?}", output);
    }
}
