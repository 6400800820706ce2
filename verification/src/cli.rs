//! What the command line asks for: which of the four jobs is to be done,
//! and which files may be previewed.

use vstd::prelude::*;
use crate::text::{chars_of, same_chars};

verus! {

/// The switches of the command line.
#[derive(Clone, Copy, PartialEq, Eq, Debug, Structural)]
pub struct Switches {
    /// Start a preview server (also the default).
    pub start: bool,
    /// Stop the preview server of a file.
    pub stop: bool,
    /// Terminate every recorded server.
    pub kill_all: bool,
    /// Run as the detached server itself.
    pub bg_server: bool,
}

/// The job to do.
#[derive(Clone, Copy, PartialEq, Eq, Debug, Structural)]
pub enum Command {
    /// Terminate every recorded server and clear the registry.
    KillAll,
    /// Run server mode for the input file.
    Serve,
    /// Stop the server of the input file.
    Stop,
    /// Start a server for the input file.
    Start,
}

/// Why the command line cannot be followed.
#[derive(Clone, Copy, PartialEq, Eq, Debug, Structural)]
pub enum UsageError {
    /// The job needs an input file and none was named.
    MissingInput,
    /// The input file is none that can be previewed.
    UnsupportedExtension,
}

/// The job that the switches ask for. `kill_all` needs no input file and
/// goes before everything else; the other jobs need one. Of these, server
/// mode goes first, then stopping; starting is what is left.
pub open spec fn command_of(switches: Switches, has_input: bool) -> Result<Command, UsageError> {
    if switches.kill_all {
        Ok(Command::KillAll)
    } else if !has_input {
        Err(UsageError::MissingInput)
    } else if switches.bg_server {
        Ok(Command::Serve)
    } else if switches.stop {
        Ok(Command::Stop)
    } else {
        Ok(Command::Start)
    }
}

/// Whether a file with the extension `extension` can be previewed: the
/// extensions are `md`, `markdown` and `mmd`.
pub open spec fn previewable(extension: Seq<char>) -> bool {
    extension == "md"@ || extension == "markdown"@ || extension == "mmd"@
}

/// Picks the job that the command line asks for.
pub fn select_command(switches: Switches, has_input: bool) -> (command: Result<Command, UsageError>)
    ensures
        command == command_of(switches, has_input),
{
    if switches.kill_all {
        Ok(Command::KillAll)
    } else if !has_input {
        Err(UsageError::MissingInput)
    } else if switches.bg_server {
        Ok(Command::Serve)
    } else if switches.stop {
        Ok(Command::Stop)
    } else {
        Ok(Command::Start)
    }
}

/// Checks the extension of the file that a server is to be started for.
pub fn check_extension(extension: &str) -> (checked: Result<(), UsageError>)
    ensures
        checked == (if previewable(extension@) {
            Ok::<(), UsageError>(())
        } else {
            Err::<(), UsageError>(UsageError::UnsupportedExtension)
        }),
{
    let given = chars_of(extension);
    let md = chars_of("md");
    let markdown = chars_of("markdown");
    let mmd = chars_of("mmd");
    if same_chars(given.as_slice(), md.as_slice()) || same_chars(
        given.as_slice(),
        markdown.as_slice(),
    ) || same_chars(given.as_slice(), mmd.as_slice()) {
        Ok(())
    } else {
        Err(UsageError::UnsupportedExtension)
    }
}

} // verus!
