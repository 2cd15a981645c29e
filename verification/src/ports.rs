//! The port allocator.
//!
//! The allocator owns a cursor over the loopback port range
//! `[PORT_BASE, PORT_CEILING]`.  It is consulted, not authoritative:
//! whether a candidate port is actually free is decided by attempting
//! to bind a listener to it, which is operating-system work the shell
//! performs.  The shell reports each probe's outcome back through
//! [`PortAllocator::record_probe`]; the allocator advances the cursor
//! past every tested port, wrapping to the base once the cursor would
//! pass the ceiling, and hands out the first candidate whose probe
//! succeeded.
//!
//! [`scan_spec`] is the mathematical model of one whole allocation: a
//! scan over a sequence of probe outcomes.  The lemmas at the bottom
//! state the allocator's laws: an allocated port was verified bindable
//! at allocation time, a scan never returns a port whose probes were
//! answered "occupied", and two successive allocations cannot collide
//! while the first port stays bound.

use vstd::prelude::*;

verus! {

/// First port the cursor is seeded with.
pub const PORT_BASE: u16 = 9000;

/// Last port the cursor may reach before wrapping back to the base.
pub const PORT_CEILING: u16 = 19000;

/// Where the cursor stands after the port `p` has been tested:
/// one past `p`, wrapped to the base once it would pass the ceiling.
pub open spec fn wrap_next(p: u16) -> u16 {
    if p + 1 > PORT_CEILING {
        PORT_BASE
    } else {
        (p + 1) as u16
    }
}

/// The candidate tested by the `k`-th probe of a scan that starts at
/// `cursor`: the cursor advanced `k` times.
pub open spec fn candidate_at(cursor: u16, k: nat) -> u16
    decreases k,
{
    if k == 0 {
        cursor
    } else {
        candidate_at(wrap_next(cursor), (k - 1) as nat)
    }
}

/// One whole allocation, as a function of the cursor and the probe
/// outcomes, in scan order: the pair of the allocated port (the first
/// candidate probed available, if any probe succeeded) and the cursor
/// left behind.
pub open spec fn scan_spec(cursor: u16, probes: Seq<bool>) -> (Option<u16>, u16)
    decreases probes.len(),
{
    if probes.len() == 0 {
        (None, cursor)
    } else if probes[0] {
        (Some(cursor), wrap_next(cursor))
    } else {
        scan_spec(wrap_next(cursor), probes.skip(1))
    }
}

/// Hands out loopback ports for freshly spawned workers.
pub struct PortAllocator {
    next_port: u16,
}

impl PortAllocator {
    /// The current cursor: the next candidate a scan will test.
    pub closed spec fn cursor(self) -> u16 {
        self.next_port
    }

    /// The cursor never leaves the allocator's port range.
    pub open spec fn inv(self) -> bool {
        PORT_BASE <= self.cursor() <= PORT_CEILING
    }

    /// A fresh allocator, seeded at the base of the range.
    pub fn new() -> (r: PortAllocator)
        ensures
            r.inv(),
            r.cursor() == PORT_BASE,
    {
        PortAllocator { next_port: PORT_BASE }
    }

    /// The candidate port the next probe should test.
    pub fn candidate(&self) -> (p: u16)
        ensures
            p == self.cursor(),
    {
        self.next_port
    }

    /// Record the outcome of binding a listener to the current
    /// candidate.  The cursor advances past the tested port whether or
    /// not it was chosen; the tested port is returned exactly when the
    /// probe found it available.
    pub fn record_probe(&mut self, available: bool) -> (r: Option<u16>)
        requires
            old(self).inv(),
        ensures
            final(self).inv(),
            final(self).cursor() == wrap_next(old(self).cursor()),
            r == (if available {
                Some(old(self).cursor())
            } else {
                None::<u16>
            }),
            r matches Some(p) ==> PORT_BASE <= p <= PORT_CEILING,
    {
        let tested = self.next_port;
        if self.next_port >= PORT_CEILING {
            self.next_port = PORT_BASE;
        } else {
            self.next_port = tested + 1;
        }
        if available {
            Some(tested)
        } else {
            None
        }
    }

    /// One whole allocation against a recorded sequence of probe
    /// outcomes: scan candidates in cursor order and return the first
    /// one probed available, or `None` when every probe failed.
    pub fn allocate_with(&mut self, probes: &Vec<bool>) -> (r: Option<u16>)
        requires
            old(self).inv(),
        ensures
            final(self).inv(),
            r == scan_spec(old(self).cursor(), probes@).0,
            final(self).cursor() == scan_spec(old(self).cursor(), probes@).1,
            r matches Some(p) ==> PORT_BASE <= p <= PORT_CEILING,
    {
        let n = probes.len();
        let mut i: usize = 0;
        proof {
            assert(probes@.skip(0) =~= probes@);
        }
        while i < n
            invariant
                self.inv(),
                i <= n,
                n == probes@.len(),
                scan_spec(old(self).cursor(), probes@) == scan_spec(
                    self.cursor(),
                    probes@.skip(i as int),
                ),
            decreases n - i,
        {
            let available = probes[i];
            let got = self.record_probe(available);
            if let Some(p) = got {
                return Some(p);
            }
            proof {
                assert(probes@.skip(i as int).skip(1) =~= probes@.skip(i as int + 1));
            }
            i += 1;
        }
        proof {
            assert(probes@.skip(n as int) =~= Seq::<bool>::empty());
        }
        None
    }
}

/// An allocated port was verified bindable at allocation time: a scan
/// that returns a port returned the first candidate whose probe
/// succeeded, and every earlier probe failed.
pub proof fn lemma_scan_probed(cursor: u16, probes: Seq<bool>)
    ensures
        scan_spec(cursor, probes).0 matches Some(p) ==> exists|k: int|
            0 <= k < probes.len() && p == candidate_at(cursor, k as nat) && #[trigger] probes[k]
                && (forall|j: int| 0 <= j < k ==> !probes[j]),
    decreases probes.len(),
{
    if probes.len() == 0 {
    } else if probes[0] {
        assert(candidate_at(cursor, 0) == cursor);
    } else {
        lemma_scan_probed(wrap_next(cursor), probes.skip(1));
        if scan_spec(cursor, probes).0 is Some {
            let p = scan_spec(cursor, probes).0->Some_0;
            let k1 = choose|k: int|
                0 <= k < probes.skip(1).len() && p == candidate_at(wrap_next(cursor), k as nat)
                    && #[trigger] probes.skip(1)[k] && (forall|j: int|
                    0 <= j < k ==> !probes.skip(1)[j]);
            assert(candidate_at(cursor, (k1 + 1) as nat) == candidate_at(
                wrap_next(cursor),
                k1 as nat,
            ));
            assert(probes[k1 + 1] == probes.skip(1)[k1]);
            assert forall|j: int| 0 <= j < k1 + 1 implies !probes[j] by {
                if j > 0 {
                    assert(!probes.skip(1)[j - 1]);
                }
            }
            assert(0 <= k1 + 1 < probes.len() && p == candidate_at(cursor, (k1 + 1) as nat)
                && probes[k1 + 1] && (forall|j: int| 0 <= j < k1 + 1 ==> !probes[j]));
        }
    }
}

/// A scan never hands out a port that is already owned by a live
/// session: as long as the probes answer "occupied" for every
/// candidate that collides with an occupied port — which binding does,
/// since the live worker holds that port — the allocated port lies
/// outside the occupied set.  Applied once per allocation, with every
/// previously allocated port in `occupied`, this makes any number of
/// serialized allocations pairwise distinct.
pub proof fn lemma_scan_avoids_occupied(cursor: u16, probes: Seq<bool>, occupied: Set<u16>)
    requires
        forall|k: int|
            0 <= k < probes.len() && occupied.contains(candidate_at(cursor, k as nat))
                ==> !#[trigger] probes[k],
    ensures
        scan_spec(cursor, probes).0 matches Some(p) ==> !occupied.contains(p),
{
    lemma_scan_probed(cursor, probes);
    if scan_spec(cursor, probes).0 is Some {
        let p = scan_spec(cursor, probes).0->Some_0;
        let k = choose|k: int|
            0 <= k < probes.len() && p == candidate_at(cursor, k as nat) && #[trigger] probes[k]
                && (forall|j: int| 0 <= j < k ==> !probes[j]);
        assert(!occupied.contains(candidate_at(cursor, k as nat)) || !probes[k]);
    }
}

/// Two serialized allocations yield different ports: while the first
/// port stays bound by its worker, every probe of it during the second
/// scan fails, so the second scan cannot return it.
pub proof fn lemma_spawn_isolation(c0: u16, probes1: Seq<bool>, probes2: Seq<bool>, p1: u16)
    requires
        scan_spec(c0, probes1).0 == Some(p1),
        forall|k: int|
            0 <= k < probes2.len() && candidate_at(scan_spec(c0, probes1).1, k as nat) == p1
                ==> !#[trigger] probes2[k],
    ensures
        scan_spec(scan_spec(c0, probes1).1, probes2).0 matches Some(p2) ==> p2 != p1,
{
    let occupied = set![p1];
    assert(forall|q: u16| occupied.contains(q) <==> q == p1);
    lemma_scan_avoids_occupied(scan_spec(c0, probes1).1, probes2, occupied);
}

/// Cursor wraparound: once the cursor has passed the ceiling's port,
/// the next candidate scanned is the base, never an out-of-range port.
pub proof fn lemma_cursor_wraps(p: u16)
    requires
        p >= PORT_CEILING,
    ensures
        wrap_next(p) == PORT_BASE,
{
}

} // verus!
