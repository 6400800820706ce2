//! What the outside world reports back to the launcher.
//!
//! Starting, stopping and sweeping servers alternate between decisions and
//! work that only the caller can do: reading the registry, probing a
//! process, binding a port, spawning the server. Each of the three is
//! written as a state machine. Its state names the work that is due; the
//! caller does that work and hands the outcome back as an [`Event`].

use vstd::prelude::*;
use crate::registry::Lookup;

verus! {

/// The outcome of one piece of work done for the launcher.
#[derive(Clone, Copy, PartialEq, Eq, Debug, Structural)]
pub enum Event {
    /// The registry was read: for a start or a stop the record of the
    /// watched file, for a sweep the next record file of the directory.
    Looked(Lookup),
    /// The process of the record at hand was probed: `true` when it exists.
    Alive(bool),
    /// The process of the record at hand was told to terminate: `true`
    /// when the request went through.
    Terminated(bool),
    /// The registry step that was due was carried out: `true` when it
    /// succeeded.
    Stored(bool),
    /// An exclusive bind was tried on the port that was due: `true` when
    /// the port was free.
    Bound(bool),
    /// The detached server process was launched: its process id, or `None`
    /// when the launch failed.
    Spawned(Option<u32>),
    /// The registry holds no further entry.
    End,
}

} // verus!
