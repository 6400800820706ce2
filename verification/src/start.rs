//! Starting the preview server of one watched file.

use vstd::prelude::*;
use crate::launcher::Event;
use crate::ports::{find_available_port, in_port_range, PortScan, PORT_MIN};
use crate::registry::{Lookup, ServerRecord};

verus! {

/// Why a start failed.
#[derive(Clone, Copy, PartialEq, Eq, Debug, Structural)]
pub enum StartError {
    /// The record of a dead server could not be removed.
    StaleRecordNotRemoved,
    /// No port of the range could be bound.
    ExhaustedRange,
    /// The registry directory could not be created.
    RegistryUnavailable,
    /// The server process could not be launched, or did not report its id.
    LaunchFailed,
    /// The new record could not be written.
    RecordNotWritten,
    /// The reference to the watched path could not be written.
    PathNotWritten,
}

/// Where a start stands. All but the last three name the work that the
/// caller is to do next.
#[derive(Clone, Copy, PartialEq, Eq, Debug, Structural)]
pub enum StartPhase {
    /// Read the record of the watched file; answer with `Looked`.
    Lookup,
    /// Probe the process of this record; answer with `Alive`.
    CheckAlive(ServerRecord),
    /// The process of this record is gone: delete the record and its path
    /// reference; answer with `Stored`.
    RemoveStale(ServerRecord),
    /// Try an exclusive bind on this port; answer with `Bound`.
    FindPort(u16),
    /// Make sure the registry directory exists; answer with `Stored`.
    PrepareRegistry(u16),
    /// Launch the detached server process for this port; answer with
    /// `Spawned`.
    Spawn(u16),
    /// Write this record; answer with `Stored`.
    WriteRecord(ServerRecord),
    /// Write the path reference that goes with this record; answer with
    /// `Stored`.
    WritePath(ServerRecord),
    /// Done: a new server was launched and recorded. The browser is to be
    /// opened on its port after a delay.
    Launched(ServerRecord),
    /// Done: a live server was already recorded. Nothing was changed.
    AlreadyRunning(ServerRecord),
    /// Done: the start failed.
    Failed(StartError),
}

impl StartPhase {
    /// The phase that follows `self` on `event`. An event that does not
    /// answer the work that was due leaves the phase as it is.
    pub open spec fn after(self, event: Event) -> StartPhase {
        match self {
            StartPhase::Lookup => match event {
                Event::Looked(Lookup::Found(record)) => StartPhase::CheckAlive(record),
                Event::Looked(_) => StartPhase::FindPort(PORT_MIN),
                _ => self,
            },
            StartPhase::CheckAlive(record) => match event {
                Event::Alive(true) => StartPhase::AlreadyRunning(record),
                Event::Alive(false) => StartPhase::RemoveStale(record),
                _ => self,
            },
            StartPhase::RemoveStale(_) => match event {
                Event::Stored(true) => StartPhase::FindPort(PORT_MIN),
                Event::Stored(false) => StartPhase::Failed(StartError::StaleRecordNotRemoved),
                _ => self,
            },
            StartPhase::FindPort(port) => match event {
                Event::Bound(bound) => match PortScan::Probe(port).after(bound) {
                    PortScan::Probe(next) => StartPhase::FindPort(next),
                    PortScan::Found(free) => StartPhase::PrepareRegistry(free),
                    PortScan::Exhausted => StartPhase::Failed(StartError::ExhaustedRange),
                },
                _ => self,
            },
            StartPhase::PrepareRegistry(port) => match event {
                Event::Stored(true) => StartPhase::Spawn(port),
                Event::Stored(false) => StartPhase::Failed(StartError::RegistryUnavailable),
                _ => self,
            },
            StartPhase::Spawn(port) => match event {
                Event::Spawned(Some(pid)) => StartPhase::WriteRecord(ServerRecord { port, pid }),
                Event::Spawned(None) => StartPhase::Failed(StartError::LaunchFailed),
                _ => self,
            },
            StartPhase::WriteRecord(record) => match event {
                Event::Stored(true) => StartPhase::WritePath(record),
                Event::Stored(false) => StartPhase::Failed(StartError::RecordNotWritten),
                _ => self,
            },
            StartPhase::WritePath(record) => match event {
                Event::Stored(true) => StartPhase::Launched(record),
                Event::Stored(false) => StartPhase::Failed(StartError::PathNotWritten),
                _ => self,
            },
            StartPhase::Launched(_) => self,
            StartPhase::AlreadyRunning(_) => self,
            StartPhase::Failed(_) => self,
        }
    }

    /// The phase reached from `self` by a run of events, oldest first.
    pub open spec fn after_all(self, events: Seq<Event>) -> StartPhase
        decreases events.len(),
    {
        if events.len() == 0 {
            self
        } else {
            self.after_all(events.drop_last()).after(events.last())
        }
    }

    /// The start is over.
    pub open spec fn finished(self) -> bool {
        self is Launched || self is AlreadyRunning || self is Failed
    }

    /// The work due in this phase writes to the registry.
    pub open spec fn writes(self) -> bool {
        self is PrepareRegistry || self is WriteRecord || self is WritePath
    }

    /// The work due in this phase deletes from the registry.
    pub open spec fn deletes(self) -> bool {
        self is RemoveStale
    }

    /// Every port that the phase names was taken from the scanned range.
    pub open spec fn fresh_port_in_range(self) -> bool {
        match self {
            StartPhase::FindPort(port) => in_port_range(port as int),
            StartPhase::PrepareRegistry(port) => in_port_range(port as int),
            StartPhase::Spawn(port) => in_port_range(port as int),
            StartPhase::WriteRecord(record) => in_port_range(record.port as int),
            StartPhase::WritePath(record) => in_port_range(record.port as int),
            StartPhase::Launched(record) => in_port_range(record.port as int),
            _ => true,
        }
    }

    /// How far the start has come; no event takes a start back.
    pub open spec fn rank(self) -> nat {
        match self {
            StartPhase::Lookup => 0,
            StartPhase::CheckAlive(_) => 1,
            StartPhase::RemoveStale(_) => 2,
            StartPhase::FindPort(_) => 3,
            StartPhase::PrepareRegistry(_) => 4,
            StartPhase::Spawn(_) => 5,
            StartPhase::WriteRecord(_) => 6,
            StartPhase::WritePath(_) => 7,
            StartPhase::Launched(_) => 8,
            StartPhase::AlreadyRunning(_) => 8,
            StartPhase::Failed(_) => 8,
        }
    }

    /// Tells whether the start is over.
    pub fn is_finished(&self) -> (r: bool)
        ensures
            r == self.finished(),
    {
        match self {
            StartPhase::Launched(_) => true,
            StartPhase::AlreadyRunning(_) => true,
            StartPhase::Failed(_) => true,
            _ => false,
        }
    }
}

/// How often a run of events, fed to a start that stands at `from`, makes
/// the start ask for a record to be written.
pub open spec fn record_writes(from: StartPhase, events: Seq<Event>) -> nat
    decreases events.len(),
{
    if events.len() == 0 {
        0
    } else {
        let before = from.after_all(events.drop_last());
        let entered: nat = if !(before is WriteRecord) && before.after(events.last()) is WriteRecord {
            1
        } else {
            0
        };
        record_writes(from, events.drop_last()) + entered
    }
}

/// Begins a start: the first thing due is the lookup of the record.
pub fn begin_start() -> (phase: StartPhase)
    ensures
        phase == StartPhase::Lookup,
        phase.fresh_port_in_range(),
{
    StartPhase::Lookup
}

/// Moves a start on by one event: `event` is the outcome of the work that
/// `phase` asked for.
pub fn start_preview_server(phase: StartPhase, event: Event) -> (next: StartPhase)
    ensures
        next == phase.after(event),
        phase.fresh_port_in_range() ==> next.fresh_port_in_range(),
{
    match phase {
        StartPhase::Lookup => match event {
            Event::Looked(Lookup::Found(record)) => StartPhase::CheckAlive(record),
            Event::Looked(_) => StartPhase::FindPort(PORT_MIN),
            _ => phase,
        },
        StartPhase::CheckAlive(record) => match event {
            Event::Alive(true) => StartPhase::AlreadyRunning(record),
            Event::Alive(false) => StartPhase::RemoveStale(record),
            _ => phase,
        },
        StartPhase::RemoveStale(_) => match event {
            Event::Stored(true) => StartPhase::FindPort(PORT_MIN),
            Event::Stored(false) => StartPhase::Failed(StartError::StaleRecordNotRemoved),
            _ => phase,
        },
        StartPhase::FindPort(port) => match event {
            Event::Bound(bound) => match find_available_port(PortScan::Probe(port), bound) {
                PortScan::Probe(next) => StartPhase::FindPort(next),
                PortScan::Found(free) => StartPhase::PrepareRegistry(free),
                PortScan::Exhausted => StartPhase::Failed(StartError::ExhaustedRange),
            },
            _ => phase,
        },
        StartPhase::PrepareRegistry(port) => match event {
            Event::Stored(true) => StartPhase::Spawn(port),
            Event::Stored(false) => StartPhase::Failed(StartError::RegistryUnavailable),
            _ => phase,
        },
        StartPhase::Spawn(port) => match event {
            Event::Spawned(Some(pid)) => StartPhase::WriteRecord(ServerRecord { port, pid }),
            Event::Spawned(None) => StartPhase::Failed(StartError::LaunchFailed),
            _ => phase,
        },
        StartPhase::WriteRecord(record) => match event {
            Event::Stored(true) => StartPhase::WritePath(record),
            Event::Stored(false) => StartPhase::Failed(StartError::RecordNotWritten),
            _ => phase,
        },
        StartPhase::WritePath(record) => match event {
            Event::Stored(true) => StartPhase::Launched(record),
            Event::Stored(false) => StartPhase::Failed(StartError::PathNotWritten),
            _ => phase,
        },
        StartPhase::Launched(_) => phase,
        StartPhase::AlreadyRunning(_) => phase,
        StartPhase::Failed(_) => phase,
    }
}

/// One more event is one more step.
pub proof fn lemma_after_all_step(from: StartPhase, events: Seq<Event>, i: int)
    requires
        0 <= i < events.len(),
    ensures
        from.after_all(events.take(i + 1)) == from.after_all(events.take(i)).after(events[i]),
{
    assert(events.take(i + 1).drop_last() == events.take(i));
    assert(events.take(i + 1).last() == events[i]);
}

/// A start never goes back, and every port it picks is one of the range.
pub proof fn lemma_start_progress(from: StartPhase, events: Seq<Event>)
    requires
        from.fresh_port_in_range(),
    ensures
        from.rank() <= from.after_all(events).rank(),
        from.after_all(events).fresh_port_in_range(),
    decreases events.len(),
{
    if events.len() > 0 {
        lemma_start_progress(from, events.drop_last());
    }
}

/// Whatever a start binds, spawns, writes or reports as launched is on a
/// port of the scanned range.
pub proof fn law_start_port_in_range(events: Seq<Event>, i: int)
    requires
        0 <= i <= events.len(),
    ensures
        StartPhase::Lookup.after_all(events.take(i)).fresh_port_in_range(),
{
    lemma_start_progress(StartPhase::Lookup, events.take(i));
}

/// A start on a path without a record probes no process and deletes
/// nothing. When it ends with a launched server, it has asked for exactly
/// one record to be written, and the port of that record is one of the
/// scanned range.
pub proof fn law_start_without_record(events: Seq<Event>, i: int)
    requires
        events.len() >= 1,
        events[0] == Event::Looked(Lookup::NotFound),
        0 <= i <= events.len(),
    ensures
        !(StartPhase::Lookup.after_all(events.take(i)) is CheckAlive),
        !StartPhase::Lookup.after_all(events.take(i)).deletes(),
        StartPhase::Lookup.after_all(events.take(i)) matches StartPhase::Launched(record)
            ==> in_port_range(record.port as int) && record_writes(
            StartPhase::Lookup,
            events.take(i),
        ) == 1,
{
    lemma_fresh_start_trace(events, i);
    law_start_port_in_range(events, i);
    law_start_writes_one_record(events.take(i));
}

/// Induction behind `law_start_without_record`: once the lookup has found
/// nothing, the start is past probing and removing.
proof fn lemma_fresh_start_trace(events: Seq<Event>, i: int)
    requires
        events.len() >= 1,
        events[0] == Event::Looked(Lookup::NotFound),
        0 <= i <= events.len(),
    ensures
        i == 0 ==> StartPhase::Lookup.after_all(events.take(i)) == StartPhase::Lookup,
        i >= 1 ==> StartPhase::Lookup.after_all(events.take(i)).rank() >= 3,
    decreases i,
{
    if i > 0 {
        lemma_fresh_start_trace(events, i - 1);
        lemma_after_all_step(StartPhase::Lookup, events, i - 1);
    }
}

/// A start asks at most once for a record to be written, and exactly once
/// when it ends with a launched server.
pub proof fn law_start_writes_one_record(events: Seq<Event>)
    ensures
        record_writes(StartPhase::Lookup, events) <= 1,
        StartPhase::Lookup.after_all(events) is Launched ==> record_writes(
            StartPhase::Lookup,
            events,
        ) == 1,
        StartPhase::Lookup.after_all(events) is AlreadyRunning ==> record_writes(
            StartPhase::Lookup,
            events,
        ) == 0,
{
    lemma_record_writes_by_rank(events);
}

/// Induction behind `law_start_writes_one_record`: the one write is asked
/// for when the start passes from spawning to recording.
proof fn lemma_record_writes_by_rank(events: Seq<Event>)
    ensures
        record_writes(StartPhase::Lookup, events) <= 1,
        StartPhase::Lookup.after_all(events).rank() < 6 ==> record_writes(
            StartPhase::Lookup,
            events,
        ) == 0,
        StartPhase::Lookup.after_all(events) is AlreadyRunning ==> record_writes(
            StartPhase::Lookup,
            events,
        ) == 0,
        StartPhase::Lookup.after_all(events) is WriteRecord || StartPhase::Lookup.after_all(
            events,
        ) is WritePath || StartPhase::Lookup.after_all(events) is Launched ==> record_writes(
            StartPhase::Lookup,
            events,
        ) == 1,
    decreases events.len(),
{
    if events.len() > 0 {
        lemma_record_writes_by_rank(events.drop_last());
    }
}

/// A start on a path whose record names a live process changes nothing: it
/// never asks for a write or a delete, and it ends by reporting the
/// recorded server, whatever else is reported to it.
pub proof fn law_start_on_live_record(record: ServerRecord, events: Seq<Event>, i: int)
    requires
        events.len() >= 2,
        events[0] == Event::Looked(Lookup::Found(record)),
        events[1] == Event::Alive(true),
        0 <= i <= events.len(),
    ensures
        !StartPhase::Lookup.after_all(events.take(i)).writes(),
        !StartPhase::Lookup.after_all(events.take(i)).deletes(),
        i >= 2 ==> StartPhase::Lookup.after_all(events.take(i)) == StartPhase::AlreadyRunning(
            record,
        ),
{
    lemma_live_record_trace(record, events, i);
}

/// Induction behind `law_start_on_live_record`: the phases are the lookup,
/// the probe, and from then on the report.
proof fn lemma_live_record_trace(record: ServerRecord, events: Seq<Event>, i: int)
    requires
        events.len() >= 2,
        events[0] == Event::Looked(Lookup::Found(record)),
        events[1] == Event::Alive(true),
        0 <= i <= events.len(),
    ensures
        StartPhase::Lookup.after_all(events.take(i)) == (if i == 0 {
            StartPhase::Lookup
        } else if i == 1 {
            StartPhase::CheckAlive(record)
        } else {
            StartPhase::AlreadyRunning(record)
        }),
    decreases i,
{
    if i > 0 {
        lemma_live_record_trace(record, events, i - 1);
        lemma_after_all_step(StartPhase::Lookup, events, i - 1);
    }
}

/// A start on a path whose record names a dead process deletes that record
/// before it writes anything: the third thing it asks for is the removal,
/// and it asks for a write only later, after the removal has succeeded.
pub proof fn law_start_on_stale_record(record: ServerRecord, events: Seq<Event>, i: int)
    requires
        events.len() >= 2,
        events[0] == Event::Looked(Lookup::Found(record)),
        events[1] == Event::Alive(false),
        0 <= i <= events.len(),
    ensures
        i == 2 ==> StartPhase::Lookup.after_all(events.take(i)) == StartPhase::RemoveStale(record),
        StartPhase::Lookup.after_all(events.take(i)).writes() ==> i > 2 && exists|k: int|
            2 <= k < i && events[k] == Event::Stored(true) && StartPhase::Lookup.after_all(
                events.take(k),
            ) == StartPhase::RemoveStale(record),
{
    lemma_stale_record_removed_first(record, events, i);
}

/// Induction behind `law_start_on_stale_record`.
proof fn lemma_stale_record_removed_first(record: ServerRecord, events: Seq<Event>, i: int)
    requires
        events.len() >= 2,
        events[0] == Event::Looked(Lookup::Found(record)),
        events[1] == Event::Alive(false),
        0 <= i <= events.len(),
    ensures
        i == 0 ==> StartPhase::Lookup.after_all(events.take(i)) == StartPhase::Lookup,
        i == 1 ==> StartPhase::Lookup.after_all(events.take(i)) == StartPhase::CheckAlive(record),
        i == 2 ==> StartPhase::Lookup.after_all(events.take(i)) == StartPhase::RemoveStale(record),
        i >= 2 ==> StartPhase::Lookup.after_all(events.take(i)).rank() >= 2,
        i >= 2 && StartPhase::Lookup.after_all(events.take(i)).rank() == 2
            ==> StartPhase::Lookup.after_all(events.take(i)) == StartPhase::RemoveStale(record),
        i >= 2 && StartPhase::Lookup.after_all(events.take(i)).rank() > 2 ==> (exists|k: int|
            2 <= k < i && events[k] == Event::Stored(true) && StartPhase::Lookup.after_all(
                events.take(k),
            ) == StartPhase::RemoveStale(record)) || StartPhase::Lookup.after_all(events.take(i))
            == StartPhase::Failed(StartError::StaleRecordNotRemoved),
    decreases i,
{
    if i > 0 {
        lemma_stale_record_removed_first(record, events, i - 1);
        lemma_after_all_step(StartPhase::Lookup, events, i - 1);
        let before = StartPhase::Lookup.after_all(events.take(i - 1));
        let now = StartPhase::Lookup.after_all(events.take(i));
        if i >= 3 && now.rank() > 2 && now != StartPhase::Failed(StartError::StaleRecordNotRemoved) {
            if before.rank() == 2 {
                assert(events[i - 1] == Event::Stored(true));
                assert(2 <= i - 1 < i && events[i - 1] == Event::Stored(true)
                    && StartPhase::Lookup.after_all(events.take(i - 1)) == StartPhase::RemoveStale(
                    record,
                ));
            } else {
                let k = choose|k: int|
                    2 <= k < i - 1 && events[k] == Event::Stored(true)
                        && StartPhase::Lookup.after_all(events.take(k)) == StartPhase::RemoveStale(
                        record,
                    );
                assert(2 <= k < i);
            }
        }
    }
}

} // verus!
