//! Stopping the preview server of one watched file.

use vstd::prelude::*;
use crate::launcher::Event;
use crate::registry::{Lookup, ServerRecord};

verus! {

/// Why a stop failed.
#[derive(Clone, Copy, PartialEq, Eq, Debug, Structural)]
pub enum StopError {
    /// No record is stored for the watched file.
    NotFound,
    /// What is stored for the watched file is no record.
    Corrupt,
    /// The server's process is alive and could not be told to terminate.
    TerminationFailed,
    /// The record could not be deleted.
    RecordNotRemoved,
}

/// Where a stop stands. All but the last two name the work that the caller
/// is to do next.
#[derive(Clone, Copy, PartialEq, Eq, Debug, Structural)]
pub enum StopPhase {
    /// Read the record of the watched file; answer with `Looked`.
    Lookup,
    /// Probe the process of this record; answer with `Alive`.
    CheckAlive(ServerRecord),
    /// Tell the process of this record to terminate; answer with
    /// `Terminated`.
    Terminate(ServerRecord),
    /// Delete this record and its path reference; answer with `Stored`.
    /// `terminated` tells whether the process had to be terminated first.
    Remove { record: ServerRecord, terminated: bool },
    /// Done: the record is gone. `terminated` tells whether the process
    /// was alive and has been terminated.
    Stopped { record: ServerRecord, terminated: bool },
    /// Done: the stop failed.
    Failed(StopError),
}

impl StopPhase {
    /// The phase that follows `self` on `event`. An event that does not
    /// answer the work that was due leaves the phase as it is.
    pub open spec fn after(self, event: Event) -> StopPhase {
        match self {
            StopPhase::Lookup => match event {
                Event::Looked(Lookup::Found(record)) => StopPhase::CheckAlive(record),
                Event::Looked(Lookup::NotFound) => StopPhase::Failed(StopError::NotFound),
                Event::Looked(Lookup::Corrupt) => StopPhase::Failed(StopError::Corrupt),
                _ => self,
            },
            StopPhase::CheckAlive(record) => match event {
                Event::Alive(true) => StopPhase::Terminate(record),
                Event::Alive(false) => StopPhase::Remove { record, terminated: false },
                _ => self,
            },
            StopPhase::Terminate(record) => match event {
                Event::Terminated(true) => StopPhase::Remove { record, terminated: true },
                Event::Terminated(false) => StopPhase::Failed(StopError::TerminationFailed),
                _ => self,
            },
            StopPhase::Remove { record, terminated } => match event {
                Event::Stored(true) => StopPhase::Stopped { record, terminated },
                Event::Stored(false) => StopPhase::Failed(StopError::RecordNotRemoved),
                _ => self,
            },
            StopPhase::Stopped { .. } => self,
            StopPhase::Failed(_) => self,
        }
    }

    /// The phase reached from `self` by a run of events, oldest first.
    pub open spec fn after_all(self, events: Seq<Event>) -> StopPhase
        decreases events.len(),
    {
        if events.len() == 0 {
            self
        } else {
            self.after_all(events.drop_last()).after(events.last())
        }
    }

    /// The stop is over.
    pub open spec fn finished(self) -> bool {
        self is Stopped || self is Failed
    }

    /// The work due in this phase changes something: a process or the
    /// registry.
    pub open spec fn mutates(self) -> bool {
        self is Terminate || self is Remove
    }

    /// Tells whether the stop is over.
    pub fn is_finished(&self) -> (r: bool)
        ensures
            r == self.finished(),
    {
        match self {
            StopPhase::Stopped { .. } => true,
            StopPhase::Failed(_) => true,
            _ => false,
        }
    }
}

/// Begins a stop: the first thing due is the lookup of the record.
pub fn begin_stop() -> (phase: StopPhase)
    ensures
        phase == StopPhase::Lookup,
{
    StopPhase::Lookup
}

/// Moves a stop on by one event: `event` is the outcome of the work that
/// `phase` asked for.
pub fn stop_preview_server(phase: StopPhase, event: Event) -> (next: StopPhase)
    ensures
        next == phase.after(event),
{
    match phase {
        StopPhase::Lookup => match event {
            Event::Looked(Lookup::Found(record)) => StopPhase::CheckAlive(record),
            Event::Looked(Lookup::NotFound) => StopPhase::Failed(StopError::NotFound),
            Event::Looked(Lookup::Corrupt) => StopPhase::Failed(StopError::Corrupt),
            _ => phase,
        },
        StopPhase::CheckAlive(record) => match event {
            Event::Alive(true) => StopPhase::Terminate(record),
            Event::Alive(false) => StopPhase::Remove { record, terminated: false },
            _ => phase,
        },
        StopPhase::Terminate(record) => match event {
            Event::Terminated(true) => StopPhase::Remove { record, terminated: true },
            Event::Terminated(false) => StopPhase::Failed(StopError::TerminationFailed),
            _ => phase,
        },
        StopPhase::Remove { record, terminated } => match event {
            Event::Stored(true) => StopPhase::Stopped { record, terminated },
            Event::Stored(false) => StopPhase::Failed(StopError::RecordNotRemoved),
            _ => phase,
        },
        StopPhase::Stopped { .. } => phase,
        StopPhase::Failed(_) => phase,
    }
}

/// One more event is one more step.
pub proof fn lemma_after_all_step(from: StopPhase, events: Seq<Event>, i: int)
    requires
        0 <= i < events.len(),
    ensures
        from.after_all(events.take(i + 1)) == from.after_all(events.take(i)).after(events[i]),
{
    assert(events.take(i + 1).drop_last() == events.take(i));
    assert(events.take(i + 1).last() == events[i]);
}

/// A stop on a path without a record fails with `NotFound` and changes
/// nothing: it never asks for a termination or a removal, whatever else is
/// reported to it.
pub proof fn law_stop_without_record(events: Seq<Event>, i: int)
    requires
        events.len() >= 1,
        events[0] == Event::Looked(Lookup::NotFound),
        0 <= i <= events.len(),
    ensures
        !StopPhase::Lookup.after_all(events.take(i)).mutates(),
        i >= 1 ==> StopPhase::Lookup.after_all(events.take(i)) == StopPhase::Failed(
            StopError::NotFound,
        ),
    decreases i,
{
    if i > 0 {
        law_stop_without_record(events, i - 1);
        lemma_after_all_step(StopPhase::Lookup, events, i - 1);
    }
}

/// A stop on a path whose record cannot be read fails with `Corrupt` and
/// changes nothing.
pub proof fn law_stop_on_corrupt_record(events: Seq<Event>, i: int)
    requires
        events.len() >= 1,
        events[0] == Event::Looked(Lookup::Corrupt),
        0 <= i <= events.len(),
    ensures
        !StopPhase::Lookup.after_all(events.take(i)).mutates(),
        i >= 1 ==> StopPhase::Lookup.after_all(events.take(i)) == StopPhase::Failed(
            StopError::Corrupt,
        ),
    decreases i,
{
    if i > 0 {
        law_stop_on_corrupt_record(events, i - 1);
        lemma_after_all_step(StopPhase::Lookup, events, i - 1);
    }
}

/// A stop on a live server terminates the process, then deletes the
/// record: the third thing it asks for is the termination, and it asks for
/// the removal only later, after the termination has gone through. With
/// every step succeeding it ends in `Stopped`.
pub proof fn law_stop_live_server(record: ServerRecord, events: Seq<Event>, i: int)
    requires
        events.len() >= 2,
        events[0] == Event::Looked(Lookup::Found(record)),
        events[1] == Event::Alive(true),
        0 <= i <= events.len(),
    ensures
        i == 2 ==> StopPhase::Lookup.after_all(events.take(i)) == StopPhase::Terminate(record),
        StopPhase::Lookup.after_all(events.take(i)) is Remove ==> i > 2 && exists|k: int|
            2 <= k < i && events[k] == Event::Terminated(true) && StopPhase::Lookup.after_all(
                events.take(k),
            ) == StopPhase::Terminate(record),
        i >= 4 && events[2] == Event::Terminated(true) && events[3] == Event::Stored(true)
            ==> StopPhase::Lookup.after_all(events.take(i)) == (StopPhase::Stopped {
            record,
            terminated: true,
        }),
{
    lemma_live_server_trace(record, events, i);
    if i >= 4 && events[2] == Event::Terminated(true) && events[3] == Event::Stored(true) {
        lemma_live_server_stopped(record, events, i);
    }
}

/// Induction behind `law_stop_live_server`: what the phase can be after
/// the first `i` events.
proof fn lemma_live_server_trace(record: ServerRecord, events: Seq<Event>, i: int)
    requires
        events.len() >= 2,
        events[0] == Event::Looked(Lookup::Found(record)),
        events[1] == Event::Alive(true),
        0 <= i <= events.len(),
    ensures
        i == 0 ==> StopPhase::Lookup.after_all(events.take(i)) == StopPhase::Lookup,
        i == 1 ==> StopPhase::Lookup.after_all(events.take(i)) == StopPhase::CheckAlive(record),
        i == 2 ==> StopPhase::Lookup.after_all(events.take(i)) == StopPhase::Terminate(record),
        i >= 2 ==> {
            let now = StopPhase::Lookup.after_all(events.take(i));
            ||| now == StopPhase::Terminate(record)
            ||| now == StopPhase::Failed(StopError::TerminationFailed)
            ||| {
                &&& now == (StopPhase::Remove { record, terminated: true }) || now == (
                StopPhase::Stopped { record, terminated: true }) || now == StopPhase::Failed(
                    StopError::RecordNotRemoved,
                )
                &&& exists|k: int|
                    2 <= k < i && events[k] == Event::Terminated(true)
                        && StopPhase::Lookup.after_all(events.take(k)) == StopPhase::Terminate(
                        record,
                    )
            }
        },
    decreases i,
{
    if i > 0 {
        lemma_live_server_trace(record, events, i - 1);
        lemma_after_all_step(StopPhase::Lookup, events, i - 1);
        let before = StopPhase::Lookup.after_all(events.take(i - 1));
        let now = StopPhase::Lookup.after_all(events.take(i));
        if i >= 3 && now != StopPhase::Terminate(record) && now != StopPhase::Failed(
            StopError::TerminationFailed,
        ) {
            if before == StopPhase::Terminate(record) {
                assert(events[i - 1] == Event::Terminated(true));
                assert(2 <= i - 1 < i && events[i - 1] == Event::Terminated(true)
                    && StopPhase::Lookup.after_all(events.take(i - 1)) == StopPhase::Terminate(
                    record,
                ));
            } else {
                let k = choose|k: int|
                    2 <= k < i - 1 && events[k] == Event::Terminated(true)
                        && StopPhase::Lookup.after_all(events.take(k)) == StopPhase::Terminate(
                        record,
                    );
                assert(2 <= k < i);
            }
        }
    }
}

/// Induction behind `law_stop_live_server`: the run in which every step
/// succeeds.
proof fn lemma_live_server_stopped(record: ServerRecord, events: Seq<Event>, i: int)
    requires
        events.len() >= 4,
        events[0] == Event::Looked(Lookup::Found(record)),
        events[1] == Event::Alive(true),
        events[2] == Event::Terminated(true),
        events[3] == Event::Stored(true),
        2 <= i <= events.len(),
    ensures
        i == 2 ==> StopPhase::Lookup.after_all(events.take(i)) == StopPhase::Terminate(record),
        i == 3 ==> StopPhase::Lookup.after_all(events.take(i)) == (StopPhase::Remove {
            record,
            terminated: true,
        }),
        i >= 4 ==> StopPhase::Lookup.after_all(events.take(i)) == (StopPhase::Stopped {
            record,
            terminated: true,
        }),
    decreases i,
{
    if i == 2 {
        lemma_live_server_trace(record, events, 2);
    } else {
        lemma_live_server_stopped(record, events, i - 1);
        lemma_after_all_step(StopPhase::Lookup, events, i - 1);
    }
}

/// A stop on a record whose process is gone deletes the record without
/// terminating anything.
pub proof fn law_stop_dead_server(record: ServerRecord, events: Seq<Event>, i: int)
    requires
        events.len() >= 2,
        events[0] == Event::Looked(Lookup::Found(record)),
        events[1] == Event::Alive(false),
        0 <= i <= events.len(),
    ensures
        !(StopPhase::Lookup.after_all(events.take(i)) is Terminate),
        i == 2 ==> StopPhase::Lookup.after_all(events.take(i)) == (StopPhase::Remove {
            record,
            terminated: false,
        }),
        i >= 3 && events[2] == Event::Stored(true) ==> StopPhase::Lookup.after_all(events.take(i))
            == (StopPhase::Stopped { record, terminated: false }),
{
    lemma_dead_server_trace(record, events, i);
}

/// Induction behind `law_stop_dead_server`.
proof fn lemma_dead_server_trace(record: ServerRecord, events: Seq<Event>, i: int)
    requires
        events.len() >= 2,
        events[0] == Event::Looked(Lookup::Found(record)),
        events[1] == Event::Alive(false),
        0 <= i <= events.len(),
    ensures
        i == 0 ==> StopPhase::Lookup.after_all(events.take(i)) == StopPhase::Lookup,
        i == 1 ==> StopPhase::Lookup.after_all(events.take(i)) == StopPhase::CheckAlive(record),
        i == 2 ==> StopPhase::Lookup.after_all(events.take(i)) == (StopPhase::Remove {
            record,
            terminated: false,
        }),
        i >= 2 ==> !(StopPhase::Lookup.after_all(events.take(i)) is Terminate) && !(
        StopPhase::Lookup.after_all(events.take(i)) is CheckAlive) && !(StopPhase::Lookup.after_all(
            events.take(i),
        ) is Lookup),
        i >= 3 && events[2] == Event::Stored(true) ==> StopPhase::Lookup.after_all(events.take(i))
            == (StopPhase::Stopped { record, terminated: false }),
    decreases i,
{
    if i > 0 {
        lemma_dead_server_trace(record, events, i - 1);
        lemma_after_all_step(StopPhase::Lookup, events, i - 1);
    }
}

} // verus!
