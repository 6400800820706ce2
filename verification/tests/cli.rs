use marv::cli::{check_extension, select_command, Command, Switches, UsageError};

const NONE: Switches = Switches { start: false, stop: false, kill_all: false, bg_server: false };

#[test]
fn kill_all_needs_no_input() {
    let switches = Switches { kill_all: true, ..NONE };
    assert_eq!(select_command(switches, false), Ok(Command::KillAll));
    assert_eq!(select_command(switches, true), Ok(Command::KillAll));
}

#[test]
fn other_jobs_need_an_input() {
    assert_eq!(select_command(NONE, false), Err(UsageError::MissingInput));
    assert_eq!(select_command(Switches { stop: true, ..NONE }, false), Err(UsageError::MissingInput));
    assert_eq!(select_command(Switches { start: true, ..NONE }, false), Err(UsageError::MissingInput));
    assert_eq!(select_command(Switches { bg_server: true, ..NONE }, false), Err(UsageError::MissingInput));
}

#[test]
fn job_is_picked_by_switch() {
    assert_eq!(select_command(Switches { bg_server: true, ..NONE }, true), Ok(Command::Serve));
    assert_eq!(select_command(Switches { stop: true, ..NONE }, true), Ok(Command::Stop));
    assert_eq!(select_command(Switches { start: true, ..NONE }, true), Ok(Command::Start));
    assert_eq!(select_command(NONE, true), Ok(Command::Start));
}

#[test]
fn markdown_extensions_are_accepted() {
    for extension in ["md", "markdown", "mmd"] {
        assert_eq!(check_extension(extension), Ok(()));
    }
}

#[test]
fn other_extensions_are_refused() {
    for extension in ["", "txt", "MD", "md ", "mdx", "m", "markdow", "html"] {
        assert_eq!(check_extension(extension), Err(UsageError::UnsupportedExtension));
    }
}
