//! Port allocation: an ascending scan of a fixed range of local TCP ports.
//!
//! Binding a socket is the caller's work. The scan itself is a small state
//! machine: its state names the port to try next, and each bind outcome moves
//! it on. The first port that binds wins.

use vstd::prelude::*;

verus! {

/// Lowest port that is tried.
pub const PORT_MIN: u16 = 4000;

/// Highest port that is tried.
pub const PORT_MAX: u16 = 4999;

/// Whether `port` lies in the scanned range.
pub open spec fn in_port_range(port: int) -> bool {
    PORT_MIN <= port <= PORT_MAX
}

/// Tells whether `port` lies in the scanned range.
pub fn is_in_port_range(port: u16) -> (r: bool)
    ensures
        r == in_port_range(port as int),
{
    PORT_MIN <= port && port <= PORT_MAX
}

/// Where a scan stands.
#[derive(Clone, Copy, PartialEq, Eq, Debug, Structural)]
pub enum PortScan {
    /// The caller is to try an exclusive bind on this port and report the
    /// outcome.
    Probe(u16),
    /// This port bound; the scan is over.
    Found(u16),
    /// No port of the range bound; the scan is over.
    Exhausted,
}

impl PortScan {
    /// A scan names only ports of the range.
    pub open spec fn wf(self) -> bool {
        match self {
            PortScan::Probe(port) => in_port_range(port as int),
            PortScan::Found(port) => in_port_range(port as int),
            PortScan::Exhausted => true,
        }
    }

    /// The state that follows `self` once the bind it asked for has come
    /// back with `bound`. A finished scan stays as it is.
    pub open spec fn after(self, bound: bool) -> PortScan {
        match self {
            PortScan::Probe(port) => if bound {
                PortScan::Found(port)
            } else if port < PORT_MAX {
                PortScan::Probe((port + 1) as u16)
            } else {
                PortScan::Exhausted
            },
            PortScan::Found(port) => PortScan::Found(port),
            PortScan::Exhausted => PortScan::Exhausted,
        }
    }

    /// The state after a whole run of bind outcomes, oldest first.
    pub open spec fn after_all(self, outcomes: Seq<bool>) -> PortScan
        decreases outcomes.len(),
    {
        if outcomes.len() == 0 {
            self
        } else {
            self.after(outcomes[0]).after_all(outcomes.drop_first())
        }
    }

    /// A fresh scan: it asks for the lowest port.
    pub fn begin() -> (scan: PortScan)
        ensures
            scan == PortScan::Probe(PORT_MIN),
            scan.wf(),
    {
        PortScan::Probe(PORT_MIN)
    }
}

/// Moves a scan on by one bind outcome: `bound` tells whether the port that
/// `scan` asked for could be bound.
pub fn find_available_port(scan: PortScan, bound: bool) -> (next: PortScan)
    ensures
        next == scan.after(bound),
        scan.wf() ==> next.wf(),
{
    match scan {
        PortScan::Probe(port) => {
            if bound {
                PortScan::Found(port)
            } else if port < PORT_MAX {
                PortScan::Probe(port + 1)
            } else {
                PortScan::Exhausted
            }
        },
        PortScan::Found(port) => PortScan::Found(port),
        PortScan::Exhausted => PortScan::Exhausted,
    }
}

/// A scan that is fed `k` failed binds from the start asks for port
/// `PORT_MIN + k`, as long as that port is in the range.
pub proof fn lemma_failed_prefix(outcomes: Seq<bool>, start: u16)
    requires
        in_port_range(start as int),
        start + outcomes.len() <= PORT_MAX,
        forall|j: int| 0 <= j < outcomes.len() ==> !outcomes[j],
    ensures
        PortScan::Probe(start).after_all(outcomes) == PortScan::Probe(
            (start + outcomes.len()) as u16,
        ),
    decreases outcomes.len(),
{
    if outcomes.len() > 0 {
        let rest = outcomes.drop_first();
        assert(!outcomes[0]);
        assert forall|j: int| 0 <= j < rest.len() implies !rest[j] by {
            assert(rest[j] == outcomes[j + 1]);
        }
        lemma_failed_prefix(rest, (start + 1) as u16);
    }
}

/// A finished scan ignores further outcomes.
pub proof fn lemma_finished_stays(scan: PortScan, outcomes: Seq<bool>)
    requires
        !(scan is Probe),
    ensures
        scan.after_all(outcomes) == scan,
    decreases outcomes.len(),
{
    if outcomes.len() > 0 {
        lemma_finished_stays(scan, outcomes.drop_first());
    }
}

/// The scan is ascending and the first success wins: if the bind on port
/// `PORT_MIN + i` is the first to succeed, the scan ends on that port,
/// whatever is reported afterwards.
pub proof fn law_first_success_wins(outcomes: Seq<bool>, i: int)
    requires
        0 <= i < outcomes.len(),
        i <= PORT_MAX - PORT_MIN,
        outcomes[i],
        forall|j: int| 0 <= j < i ==> !outcomes[j],
    ensures
        PortScan::Probe(PORT_MIN).after_all(outcomes) == PortScan::Found((PORT_MIN + i) as u16),
{
    let failed = outcomes.take(i);
    let rest = outcomes.skip(i);
    lemma_failed_prefix(failed, PORT_MIN);
    lemma_after_all_concat(PortScan::Probe(PORT_MIN), failed, rest);
    assert(failed + rest == outcomes);
    let at = PortScan::Probe((PORT_MIN + i) as u16);
    assert(rest[0] == outcomes[i]);
    assert(at.after(rest[0]) == PortScan::Found((PORT_MIN + i) as u16));
    lemma_finished_stays(PortScan::Found((PORT_MIN + i) as u16), rest.drop_first());
}

/// The scan fails only when every port of the range failed to bind: after
/// one failed bind for each port, it is exhausted, and stays so.
pub proof fn law_exhausted_when_none_binds(outcomes: Seq<bool>)
    requires
        outcomes.len() > PORT_MAX - PORT_MIN,
        forall|j: int| 0 <= j <= PORT_MAX - PORT_MIN ==> !outcomes[j],
    ensures
        PortScan::Probe(PORT_MIN).after_all(outcomes) == PortScan::Exhausted,
{
    let n = PORT_MAX - PORT_MIN;
    let failed = outcomes.take(n);
    let rest = outcomes.skip(n);
    lemma_failed_prefix(failed, PORT_MIN);
    lemma_after_all_concat(PortScan::Probe(PORT_MIN), failed, rest);
    assert(failed + rest == outcomes);
    assert(rest[0] == outcomes[n]);
    assert(PortScan::Probe(PORT_MAX).after(rest[0]) == PortScan::Exhausted);
    lemma_finished_stays(PortScan::Exhausted, rest.drop_first());
}

/// Feeding two runs of outcomes one after the other is feeding their
/// concatenation.
pub proof fn lemma_after_all_concat(scan: PortScan, first: Seq<bool>, second: Seq<bool>)
    ensures
        scan.after_all(first + second) == scan.after_all(first).after_all(second),
    decreases first.len(),
{
    if first.len() == 0 {
        assert(first + second == second);
    } else {
        assert((first + second).drop_first() == first.drop_first() + second);
        assert((first + second)[0] == first[0]);
        lemma_after_all_concat(scan.after(first[0]), first.drop_first(), second);
    }
}

/// Every scan that starts well-formed stays well-formed.
pub proof fn law_scan_stays_in_range(scan: PortScan, outcomes: Seq<bool>)
    requires
        scan.wf(),
    ensures
        scan.after_all(outcomes).wf(),
    decreases outcomes.len(),
{
    if outcomes.len() > 0 {
        law_scan_stays_in_range(scan.after(outcomes[0]), outcomes.drop_first());
    }
}

} // verus!
