//! The file watcher: which filesystem notices make the server read the
//! watched file again, and what becomes of what was read.
//!
//! The watcher subscribes to the directory that holds the watched file, not
//! to the file, so that an editor that saves by renaming is noticed too.
//! Subscribing, receiving notices and reading the file is the caller's
//! work.

use vstd::prelude::*;
use vstd::string::StringExecFns;
use crate::channel::{published, ContentChannel};

verus! {

/// The directory to watch when the watched path has no parent.
pub const CURRENT_DIR: &'static str = ".";

/// The kind of a filesystem event.
#[derive(Clone, Copy, PartialEq, Eq, Debug, Structural)]
pub enum ChangeKind {
    /// Something happened; the system does not say what.
    Any,
    /// A file was opened, read or closed.
    Access,
    /// A file or directory was created.
    Create,
    /// A file or directory was written, renamed, or had its metadata
    /// changed.
    Modify,
    /// A file or directory was removed.
    Remove,
    /// An event of no other kind.
    Other,
}

/// What the subscription delivers.
#[derive(Clone, Copy, PartialEq, Eq, Debug, Structural)]
pub enum Notice {
    /// An event in the watched directory.
    Event(ChangeKind),
    /// The subscription reported an error.
    Failure,
}

/// What the watcher does about a notice.
#[derive(Clone, Copy, PartialEq, Eq, Debug, Structural)]
pub enum WatchAction {
    /// Read the watched file again and publish it.
    Reload,
    /// Nothing.
    Ignore,
    /// Log the error and go on watching.
    Warn,
}

/// The watcher's answer to `notice`: a modification in the directory makes
/// it read the file again, an error is logged, everything else is passed
/// over.
pub open spec fn reaction(notice: Notice) -> WatchAction {
    match notice {
        Notice::Event(ChangeKind::Modify) => WatchAction::Reload,
        Notice::Event(_) => WatchAction::Ignore,
        Notice::Failure => WatchAction::Warn,
    }
}

/// The directory to subscribe to for a watched path whose parent is
/// `parent`.
pub open spec fn directory_for(parent: Option<Seq<char>>) -> Seq<char> {
    match parent {
        Some(dir) => dir,
        None => CURRENT_DIR@,
    }
}

/// Decides what to do about one notice from the subscription.
pub fn watch_file(notice: Notice) -> (action: WatchAction)
    ensures
        action == reaction(notice),
{
    match notice {
        Notice::Event(ChangeKind::Modify) => WatchAction::Reload,
        Notice::Event(_) => WatchAction::Ignore,
        Notice::Failure => WatchAction::Warn,
    }
}

/// The directory to subscribe to: the parent of the watched path, or the
/// current directory if it has none.
pub fn watch_directory(parent: Option<&str>) -> (dir: String)
    ensures
        dir@ == directory_for(
            match parent {
                Some(p) => Some(p@),
                None => None,
            },
        ),
{
    match parent {
        Some(p) => String::from_str(p),
        None => String::from_str(CURRENT_DIR),
    }
}

/// Passes on what a reload has read: a content is published, a failed read
/// (`None`) is skipped and leaves the channel as it is. Tells whether
/// something was published.
pub fn republish(channel: &mut ContentChannel, read: Option<String>) -> (done: bool)
    ensures
        match read {
            Some(content) => done && final(channel)@ == published(old(channel)@, content@),
            None => !done && final(channel)@ == old(channel)@,
        },
{
    match read {
        Some(content) => {
            channel.publish(content);
            true
        },
        None => false,
    }
}

} // verus!
