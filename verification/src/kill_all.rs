//! Sweeping the registry: terminating every recorded server that is still
//! alive and deleting every record.

use vstd::prelude::*;
use crate::launcher::Event;
use crate::registry::{Lookup, ServerRecord};

verus! {

/// The work that a sweep asks for next.
#[derive(Clone, Copy, PartialEq, Eq, Debug, Structural)]
pub enum SweepPhase {
    /// Read the next record of the registry directory; answer with
    /// `Looked`, or with `End` when none is left.
    NextEntry,
    /// Probe the process of this record; answer with `Alive`.
    CheckAlive(ServerRecord),
    /// Tell the process of this record to terminate; answer with
    /// `Terminated`.
    Terminate(ServerRecord),
    /// Delete this record and its path reference; answer with `Stored`.
    Remove(ServerRecord),
    /// The record file at hand cannot be read, or holds no record: delete
    /// it and its path reference; answer with `Stored`.
    RemoveCorrupt,
    /// Done: every entry has been dealt with.
    Finished,
}

/// A sweep under way: the work that is due, and how many processes have
/// been terminated so far.
#[derive(Clone, Copy, PartialEq, Eq, Debug, Structural)]
pub struct KillAll {
    pub phase: SweepPhase,
    pub terminated: u64,
}

/// One more, as far as the counter reaches.
pub open spec fn counted_up(count: u64) -> u64 {
    if count < u64::MAX {
        (count + 1) as u64
    } else {
        count
    }
}

impl KillAll {
    /// The sweep that follows `self` on `event`.
    ///
    /// A record file that cannot be read is deleted like every other, with
    /// no probe and no termination. An entry that is gone by the time it is
    /// read is passed over. A termination that fails is not counted, and
    /// the record is deleted all the same. A removal that fails does not
    /// stop the sweep. An event that does not answer the work that was due
    /// leaves the sweep as it is.
    pub open spec fn after(self, event: Event) -> KillAll {
        match self.phase {
            SweepPhase::NextEntry => match event {
                Event::Looked(Lookup::Found(record)) => KillAll {
                    phase: SweepPhase::CheckAlive(record),
                    ..self
                },
                Event::Looked(Lookup::Corrupt) => KillAll {
                    phase: SweepPhase::RemoveCorrupt,
                    ..self
                },
                Event::End => KillAll { phase: SweepPhase::Finished, ..self },
                _ => self,
            },
            SweepPhase::CheckAlive(record) => match event {
                Event::Alive(true) => KillAll { phase: SweepPhase::Terminate(record), ..self },
                Event::Alive(false) => KillAll { phase: SweepPhase::Remove(record), ..self },
                _ => self,
            },
            SweepPhase::Terminate(record) => match event {
                Event::Terminated(true) => KillAll {
                    phase: SweepPhase::Remove(record),
                    terminated: counted_up(self.terminated),
                },
                Event::Terminated(false) => KillAll { phase: SweepPhase::Remove(record), ..self },
                _ => self,
            },
            SweepPhase::Remove(_) => match event {
                Event::Stored(_) => KillAll { phase: SweepPhase::NextEntry, ..self },
                _ => self,
            },
            SweepPhase::RemoveCorrupt => match event {
                Event::Stored(_) => KillAll { phase: SweepPhase::NextEntry, ..self },
                _ => self,
            },
            SweepPhase::Finished => self,
        }
    }

    /// The sweep reached from `self` by a run of events, oldest first.
    pub open spec fn after_all(self, events: Seq<Event>) -> KillAll
        decreases events.len(),
    {
        if events.len() == 0 {
            self
        } else {
            self.after_all(events.drop_last()).after(events.last())
        }
    }

    /// The sweep is over.
    pub open spec fn finished(self) -> bool {
        self.phase is Finished
    }

    /// The work due is the removal of a record file.
    pub open spec fn removes(self) -> bool {
        self.phase is Remove || self.phase is RemoveCorrupt
    }

    /// A fresh sweep: nothing terminated, the first entry due.
    pub open spec fn fresh() -> KillAll {
        KillAll { phase: SweepPhase::NextEntry, terminated: 0 }
    }

    /// Tells whether the sweep is over.
    pub fn is_finished(&self) -> (r: bool)
        ensures
            r == self.finished(),
    {
        match self.phase {
            SweepPhase::Finished => true,
            _ => false,
        }
    }
}

/// How often a run of events, fed to the sweep `from`, makes it ask for a
/// termination.
pub open spec fn terminations_asked(from: KillAll, events: Seq<Event>) -> nat
    decreases events.len(),
{
    if events.len() == 0 {
        0
    } else {
        let before = from.after_all(events.drop_last());
        let entered: nat = if !(before.phase is Terminate) && before.after(
            events.last(),
        ).phase is Terminate {
            1
        } else {
            0
        };
        terminations_asked(from, events.drop_last()) + entered
    }
}

/// How often a run of events, fed to the sweep `from`, makes it ask for the
/// removal of a record.
pub open spec fn removals_asked(from: KillAll, events: Seq<Event>) -> nat
    decreases events.len(),
{
    if events.len() == 0 {
        0
    } else {
        let before = from.after_all(events.drop_last());
        let entered: nat = if !before.removes() && before.after(events.last()).removes() {
            1
        } else {
            0
        };
        removals_asked(from, events.drop_last()) + entered
    }
}

/// Begins a sweep.
pub fn begin_kill_all() -> (sweep: KillAll)
    ensures
        sweep == KillAll::fresh(),
{
    KillAll { phase: SweepPhase::NextEntry, terminated: 0 }
}

/// Moves a sweep on by one event: `event` is the outcome of the work that
/// `sweep.phase` asked for.
pub fn kill_all_servers(sweep: KillAll, event: Event) -> (next: KillAll)
    ensures
        next == sweep.after(event),
{
    let terminated = sweep.terminated;
    match sweep.phase {
        SweepPhase::NextEntry => match event {
            Event::Looked(Lookup::Found(record)) => KillAll {
                phase: SweepPhase::CheckAlive(record),
                terminated,
            },
            Event::Looked(Lookup::Corrupt) => KillAll { phase: SweepPhase::RemoveCorrupt, terminated },
            Event::End => KillAll { phase: SweepPhase::Finished, terminated },
            _ => sweep,
        },
        SweepPhase::CheckAlive(record) => match event {
            Event::Alive(true) => KillAll { phase: SweepPhase::Terminate(record), terminated },
            Event::Alive(false) => KillAll { phase: SweepPhase::Remove(record), terminated },
            _ => sweep,
        },
        SweepPhase::Terminate(record) => match event {
            Event::Terminated(true) => {
                let counted: u64 = if terminated < u64::MAX {
                    terminated + 1
                } else {
                    terminated
                };
                KillAll { phase: SweepPhase::Remove(record), terminated: counted }
            },
            Event::Terminated(false) => KillAll { phase: SweepPhase::Remove(record), terminated },
            _ => sweep,
        },
        SweepPhase::Remove(_) => match event {
            Event::Stored(_) => KillAll { phase: SweepPhase::NextEntry, terminated },
            _ => sweep,
        },
        SweepPhase::RemoveCorrupt => match event {
            Event::Stored(_) => KillAll { phase: SweepPhase::NextEntry, terminated },
            _ => sweep,
        },
        SweepPhase::Finished => sweep,
    }
}

/// What a sweep meets at one record file: the record it holds, if it can
/// be read; whether the process of that record is alive; whether a
/// termination goes through; whether the removal succeeds.
#[derive(Clone, Copy, PartialEq, Eq, Debug, Structural)]
pub struct Fate {
    /// The record in the file; `None` for a file that cannot be read or
    /// holds no record.
    pub record: Option<ServerRecord>,
    pub alive: bool,
    pub killed: bool,
    pub removed: bool,
}

impl Fate {
    /// The file holds a record whose process is alive.
    pub open spec fn live(self) -> bool {
        self.record is Some && self.alive
    }
}

/// The events that a caller reports while the sweep deals with the record
/// files `fates`, one after the other: for a file that holds a record the
/// record, the probe, the termination where the process was alive, and the
/// removal; for a file that holds none the failed lookup and the removal.
pub open spec fn sweep_events(fates: Seq<Fate>) -> Seq<Event>
    decreases fates.len(),
{
    if fates.len() == 0 {
        Seq::empty()
    } else {
        let fate = fates.last();
        let before = sweep_events(fates.drop_last());
        match fate.record {
            None => before.push(Event::Looked(Lookup::Corrupt)).push(Event::Stored(fate.removed)),
            Some(record) => {
                let probed = before.push(Event::Looked(Lookup::Found(record))).push(
                    Event::Alive(fate.alive),
                );
                let dealt = if fate.alive {
                    probed.push(Event::Terminated(fate.killed))
                } else {
                    probed
                };
                dealt.push(Event::Stored(fate.removed))
            },
        }
    }
}

/// How many of `fates` hold a record with a live process.
pub open spec fn live_count(fates: Seq<Fate>) -> nat
    decreases fates.len(),
{
    if fates.len() == 0 {
        0
    } else {
        live_count(fates.drop_last()) + if fates.last().live() {
            1nat
        } else {
            0nat
        }
    }
}

/// How many of `fates` hold a record with a live process whose termination
/// goes through.
pub open spec fn killed_count(fates: Seq<Fate>) -> nat
    decreases fates.len(),
{
    if fates.len() == 0 {
        0
    } else {
        killed_count(fates.drop_last()) + if fates.last().live() && fates.last().killed {
            1nat
        } else {
            0nat
        }
    }
}

/// One more event is one more step, and is counted if it makes the sweep
/// ask for a termination or a removal.
pub proof fn lemma_sweep_push(from: KillAll, events: Seq<Event>, event: Event)
    ensures
        from.after_all(events.push(event)) == from.after_all(events).after(event),
        terminations_asked(from, events.push(event)) == terminations_asked(from, events) + (if !(
        from.after_all(events).phase is Terminate) && from.after_all(events).after(
            event,
        ).phase is Terminate {
            1nat
        } else {
            0nat
        }),
        removals_asked(from, events.push(event)) == removals_asked(from, events) + (if !from.after_all(
            events,
        ).removes() && from.after_all(events).after(event).removes() {
            1nat
        } else {
            0nat
        }),
{
    assert(events.push(event).drop_last() == events);
    assert(events.push(event).last() == event);
}

/// No more processes are terminated than there are live ones.
pub proof fn lemma_killed_at_most_live(fates: Seq<Fate>)
    ensures
        killed_count(fates) <= live_count(fates) <= fates.len(),
    decreases fates.len(),
{
    if fates.len() > 0 {
        lemma_killed_at_most_live(fates.drop_last());
    }
}

/// A sweep over N record files, of which M hold no live process, asks for
/// exactly N − M terminations and for N removals, whether or not the files
/// can be read and whether or not the terminations and removals go
/// through. It ends, once the registry reports no further entry, with the
/// count of the terminations that went through.
pub proof fn law_kill_all_counts(fates: Seq<Fate>)
    requires
        fates.len() <= u64::MAX,
    ensures
        terminations_asked(KillAll::fresh(), sweep_events(fates)) == live_count(fates),
        removals_asked(KillAll::fresh(), sweep_events(fates)) == fates.len(),
        KillAll::fresh().after_all(sweep_events(fates)) == (KillAll {
            phase: SweepPhase::NextEntry,
            terminated: killed_count(fates) as u64,
        }),
        KillAll::fresh().after_all(sweep_events(fates).push(Event::End)) == (KillAll {
            phase: SweepPhase::Finished,
            terminated: killed_count(fates) as u64,
        }),
    decreases fates.len(),
{
    let from = KillAll::fresh();
    lemma_killed_at_most_live(fates);
    if fates.len() > 0 {
        let fate = fates.last();
        let before = sweep_events(fates.drop_last());
        law_kill_all_counts(fates.drop_last());
        lemma_killed_at_most_live(fates.drop_last());
        match fate.record {
            None => {
                let looked = before.push(Event::Looked(Lookup::Corrupt));
                lemma_sweep_push(from, before, Event::Looked(Lookup::Corrupt));
                lemma_sweep_push(from, looked, Event::Stored(fate.removed));
            },
            Some(record) => {
                let looked = before.push(Event::Looked(Lookup::Found(record)));
                let probed = looked.push(Event::Alive(fate.alive));
                lemma_sweep_push(from, before, Event::Looked(Lookup::Found(record)));
                lemma_sweep_push(from, looked, Event::Alive(fate.alive));
                if fate.alive {
                    let dealt = probed.push(Event::Terminated(fate.killed));
                    lemma_sweep_push(from, probed, Event::Terminated(fate.killed));
                    lemma_sweep_push(from, dealt, Event::Stored(fate.removed));
                } else {
                    lemma_sweep_push(from, probed, Event::Stored(fate.removed));
                }
            },
        }
    }
    lemma_sweep_push(from, sweep_events(fates), Event::End);
}

/// A record file that cannot be read is deleted with no probe and no
/// termination, and the count stays as it is: the sweep asks for the
/// removal at once, and goes on to the next entry when the removal is
/// reported, whether it succeeded or not.
pub proof fn law_kill_all_removes_corrupt(sweep: KillAll, removed: bool)
    requires
        sweep.phase is NextEntry,
    ensures
        sweep.after(Event::Looked(Lookup::Corrupt)) == (KillAll {
            phase: SweepPhase::RemoveCorrupt,
            terminated: sweep.terminated,
        }),
        sweep.after(Event::Looked(Lookup::Corrupt)).after(Event::Stored(removed)) == sweep,
{
}

/// An entry that is gone by the time it is read is passed over: there is
/// nothing to probe, terminate or remove.
pub proof fn law_kill_all_passes_over_missing(sweep: KillAll)
    requires
        sweep.phase is NextEntry,
    ensures
        sweep.after(Event::Looked(Lookup::NotFound)) == sweep,
{
}

} // verus!
