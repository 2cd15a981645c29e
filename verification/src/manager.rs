//! The process supervisor.
//!
//! [`SidecarManager`] owns the two pieces of shared state the
//! supervisor needs: the table of live session records, keyed by
//! window label, and the port allocator's cursor.  The table is a
//! vector of entries with pairwise-distinct labels; its mathematical
//! model is the map from label to session record given by [`map_of`].
//!
//! The operating-system half of each operation — binding a probe
//! listener, launching the worker, signalling and waiting on it — is
//! performed by the unverified shell, which drives the verified
//! bookkeeping here: it probes the candidates the allocator names,
//! launches the worker with the argument list [`sidecar_args`]
//! builds, and kills the processes whose records the table hands back.

use vstd::prelude::*;
use vstd::string::*;

use crate::errors::SidecarError;
use crate::ports::PortAllocator;
use crate::ports::scan_spec;
use crate::ports::wrap_next;
use crate::ports::PORT_BASE;
use crate::ports::PORT_CEILING;
use crate::wire::decimal_of;
use crate::wire::u16_to_string;

verus! {

/// What one session record says, at the specification level.
pub struct SessionInfo {
    /// The filesystem scope the worker was told to operate on.
    pub vault_path: Seq<char>,
    /// The port the worker's transport listens on.
    pub ws_port: u16,
}

/// One live worker: the vault it was launched for and the port it
/// owns.  The operating-system process handle itself is held by the
/// unverified shell, keyed by the same window label.
#[derive(Debug)]
pub struct SidecarProcess {
    /// The filesystem scope the worker was told to operate on;
    /// immutable after spawn.
    pub vault_path: String,
    /// The port the worker's transport listens on; immutable after
    /// spawn, chosen before the process exists.
    pub ws_port: u16,
}

impl View for SidecarProcess {
    type V = SessionInfo;

    open spec fn view(&self) -> SessionInfo {
        SessionInfo { vault_path: self.vault_path@, ws_port: self.ws_port }
    }
}

/// One row of the session table.
#[derive(Debug)]
pub struct SessionEntry {
    /// The caller-chosen session identifier.
    pub window_label: String,
    /// The record the label is bound to.
    pub process: SidecarProcess,
}

/// The map a sequence of table rows stands for; later rows win, so an
/// insert that reuses a label replaces the older binding.
pub open spec fn map_of(entries: Seq<SessionEntry>) -> Map<Seq<char>, SessionInfo>
    decreases entries.len(),
{
    if entries.len() == 0 {
        Map::empty()
    } else {
        map_of(entries.drop_last()).insert(
            entries.last().window_label@,
            entries.last().process@,
        )
    }
}

/// No two rows carry the same label.
pub open spec fn entries_unique(entries: Seq<SessionEntry>) -> bool {
    forall|i: int, j: int|
        0 <= i < j < entries.len() ==> entries[i].window_label@ != entries[j].window_label@
}

/// No two rows own the same port: a port belongs to its session
/// record for the record's whole lifetime.
pub open spec fn entries_ports_unique(entries: Seq<SessionEntry>) -> bool {
    forall|i: int, j: int|
        0 <= i < j < entries.len() ==> entries[i].process.ws_port != entries[j].process.ws_port
}

/// A row's label and record are bound in the table's map.
proof fn lemma_map_of_index(entries: Seq<SessionEntry>, i: int)
    requires
        entries_unique(entries),
        0 <= i < entries.len(),
    ensures
        map_of(entries).contains_key(entries[i].window_label@),
        map_of(entries)[entries[i].window_label@] == entries[i].process@,
    decreases entries.len(),
{
    if i < entries.len() - 1 {
        assert(entries.drop_last()[i] == entries[i]);
        lemma_map_of_index(entries.drop_last(), i);
    }
}

/// A label no row carries is absent from the table's map.
proof fn lemma_map_of_absent(entries: Seq<SessionEntry>, k: Seq<char>)
    requires
        forall|i: int| 0 <= i < entries.len() ==> entries[i].window_label@ != k,
    ensures
        !map_of(entries).contains_key(k),
    decreases entries.len(),
{
    if entries.len() > 0 {
        lemma_map_of_absent(entries.drop_last(), k);
    }
}

/// The table's map holds exactly the labels its rows carry.
proof fn lemma_map_of_contains(entries: Seq<SessionEntry>, k: Seq<char>)
    ensures
        map_of(entries).contains_key(k) <==> exists|i: int|
            0 <= i < entries.len() && entries[i].window_label@ == k,
    decreases entries.len(),
{
    if entries.len() > 0 {
        lemma_map_of_contains(entries.drop_last(), k);
        if entries.last().window_label@ == k {
            assert(entries[entries.len() - 1].window_label@ == k);
        } else if map_of(entries).contains_key(k) {
            let i = choose|i: int| 0 <= i < entries.drop_last().len() && entries.drop_last()[
                i
            ].window_label@ == k;
            assert(entries[i].window_label@ == k);
        } else {
            assert(forall|i: int|
                0 <= i < entries.len() - 1 ==> entries.drop_last()[i] == entries[i]);
        }
    }
}

/// Removing a row removes exactly its label's binding from the map.
proof fn lemma_map_of_remove(entries: Seq<SessionEntry>, i: int)
    requires
        entries_unique(entries),
        0 <= i < entries.len(),
    ensures
        map_of(entries.remove(i)) == map_of(entries).remove(entries[i].window_label@),
    decreases entries.len(),
{
    let k = entries[i].window_label@;
    if i == entries.len() - 1 {
        assert(entries.remove(i) =~= entries.drop_last());
        assert(forall|j: int| 0 <= j < entries.len() - 1 ==> entries[j].window_label@ != k);
        assert(forall|j: int|
            0 <= j < entries.drop_last().len() ==> entries.drop_last()[j] == entries[j]);
        lemma_map_of_absent(entries.drop_last(), k);
        assert(map_of(entries.drop_last()).insert(k, entries[i].process@).remove(k) =~= map_of(
            entries.drop_last(),
        ));
        assert(map_of(entries.remove(i)) =~= map_of(entries).remove(k));
    } else {
        assert(entries.remove(i).last() == entries.last());
        assert(entries.remove(i).drop_last() =~= entries.drop_last().remove(i));
        assert(forall|j: int|
            0 <= j < entries.drop_last().len() ==> entries.drop_last()[j] == entries[j]);
        lemma_map_of_remove(entries.drop_last(), i);
        assert(entries.drop_last()[i] == entries[i]);
        assert(entries.last().window_label@ != k);
        assert(map_of(entries.drop_last()).remove(k).insert(
            entries.last().window_label@,
            entries.last().process@,
        ) =~= map_of(entries.drop_last()).insert(
            entries.last().window_label@,
            entries.last().process@,
        ).remove(k));
        assert(map_of(entries.remove(i)) =~= map_of(entries).remove(k));
    }
}

/// The supervisor: the session table and the port allocator, guarded
/// by the shell with one lock each so that allocation for a new spawn
/// never waits on lookup traffic.
pub struct SidecarManager {
    entries: Vec<SessionEntry>,
    ports: PortAllocator,
}

impl SidecarManager {
    /// The map from window label to live session record.
    pub closed spec fn sessions(self) -> Map<Seq<char>, SessionInfo> {
        map_of(self.entries@)
    }

    /// The port allocator's cursor.
    pub closed spec fn port_cursor(self) -> u16 {
        self.ports.cursor()
    }

    /// Labels are pairwise distinct, so are the records' ports, and
    /// the cursor is in range.
    pub closed spec fn inv(self) -> bool {
        entries_unique(self.entries@) && entries_ports_unique(self.entries@) && self.ports.inv()
    }

    /// A fresh supervisor: no sessions, cursor at the base port.
    pub fn new() -> (r: SidecarManager)
        ensures
            r.inv(),
            r.sessions() == Map::<Seq<char>, SessionInfo>::empty(),
            r.port_cursor() == PORT_BASE,
    {
        let r = SidecarManager { entries: Vec::new(), ports: PortAllocator::new() };
        proof {
            assert(r.sessions() =~= Map::<Seq<char>, SessionInfo>::empty());
        }
        r
    }

    /// The candidate port the next availability probe should test.
    pub fn port_candidate(&self) -> (p: u16)
        ensures
            p == self.port_cursor(),
    {
        self.ports.candidate()
    }

    /// Record the outcome of probing the current candidate port: the
    /// cursor advances past the tested port, wrapping at the ceiling,
    /// and the port comes back exactly when the probe found it free.
    pub fn note_port_probe(&mut self, available: bool) -> (r: Option<u16>)
        requires
            old(self).inv(),
        ensures
            final(self).inv(),
            final(self).sessions() == old(self).sessions(),
            final(self).port_cursor() == wrap_next(old(self).port_cursor()),
            r == (if available {
                Some(old(self).port_cursor())
            } else {
                None::<u16>
            }),
    {
        self.ports.record_probe(available)
    }

    /// One whole port allocation against a recorded sequence of probe
    /// outcomes; see [`scan_spec`] for the model.
    pub fn allocate_port(&mut self, probes: &Vec<bool>) -> (r: Option<u16>)
        requires
            old(self).inv(),
        ensures
            final(self).inv(),
            final(self).sessions() == old(self).sessions(),
            r == scan_spec(old(self).port_cursor(), probes@).0,
            final(self).port_cursor() == scan_spec(old(self).port_cursor(), probes@).1,
            r matches Some(p) ==> PORT_BASE <= p <= PORT_CEILING,
    {
        self.ports.allocate_with(probes)
    }

    /// Pure lookup of a session's port, with no side effect.
    pub fn get_ws_port(&self, window_label: &str) -> (r: Option<u16>)
        requires
            self.inv(),
        ensures
            r == (if self.sessions().contains_key(window_label@) {
                Some(self.sessions()[window_label@].ws_port)
            } else {
                None::<u16>
            }),
    {
        let key: String = window_label.to_owned();
        let n = self.entries.len();
        let mut i: usize = 0;
        while i < n
            invariant
                i <= n,
                n == self.entries@.len(),
                key@ == window_label@,
                self.inv(),
                forall|j: int| 0 <= j < i ==> self.entries@[j].window_label@ != window_label@,
            decreases n - i,
        {
            let entry = &self.entries[i];
            if entry.window_label == key {
                proof {
                    lemma_map_of_index(self.entries@, i as int);
                }
                return Some(entry.process.ws_port);
            }
            i += 1;
        }
        proof {
            lemma_map_of_absent(self.entries@, window_label@);
        }
        None
    }

    /// Whether some live session record owns the port.  The
    /// allocator must never hand out a port belonging to a live
    /// record; a caller can consult this before recording a freshly
    /// spawned worker.  Pure lookup, no side effects.
    pub fn port_in_use(&self, ws_port: u16) -> (r: bool)
        requires
            self.inv(),
        ensures
            r == exists|k: Seq<char>|
                #[trigger] self.sessions().contains_key(k) && self.sessions()[k].ws_port
                    == ws_port,
    {
        let n = self.entries.len();
        let mut i: usize = 0;
        while i < n
            invariant
                i <= n,
                n == self.entries@.len(),
                self.inv(),
                forall|j: int| 0 <= j < i ==> self.entries@[j].process.ws_port != ws_port,
            decreases n - i,
        {
            if self.entries[i].process.ws_port == ws_port {
                proof {
                    lemma_map_of_index(self.entries@, i as int);
                    assert(self.sessions().contains_key(self.entries@[i as int].window_label@)
                        && self.sessions()[self.entries@[i as int].window_label@].ws_port
                        == ws_port);
                }
                return true;
            }
            i += 1;
        }
        proof {
            assert forall|k: Seq<char>| #[trigger] self.sessions().contains_key(k) implies self.sessions()[
                k
            ].ws_port != ws_port by {
                lemma_map_of_contains(self.entries@, k);
                let j = choose|j: int|
                    0 <= j < self.entries@.len() && self.entries@[j].window_label@ == k;
                lemma_map_of_index(self.entries@, j);
            }
        }
        false
    }

    /// Stop tracking a session.  The record, if one existed, is
    /// removed from the table and handed back so the shell can signal
    /// and wait on the worker; both of those are best-effort, so this
    /// operation has no error case.  When the label is unknown it is
    /// a no-op, not an error.
    pub fn terminate_sidecar(&mut self, window_label: &str) -> (r: Option<SidecarProcess>)
        requires
            old(self).inv(),
        ensures
            final(self).inv(),
            final(self).sessions() == old(self).sessions().remove(window_label@),
            final(self).port_cursor() == old(self).port_cursor(),
            match r {
                Some(p) => old(self).sessions().contains_key(window_label@) && p@ == old(
                    self,
                ).sessions()[window_label@],
                None => !old(self).sessions().contains_key(window_label@),
            },
    {
        let key: String = window_label.to_owned();
        let n = self.entries.len();
        let mut i: usize = 0;
        while i < n
            invariant
                i <= n,
                n == self.entries@.len(),
                key@ == window_label@,
                self == old(self),
                old(self).inv(),
                forall|j: int| 0 <= j < i ==> self.entries@[j].window_label@ != window_label@,
            decreases n - i,
        {
            let hit = {
                let entry = &self.entries[i];
                entry.window_label == key
            };
            if hit {
                proof {
                    lemma_map_of_index(self.entries@, i as int);
                    lemma_map_of_remove(self.entries@, i as int);
                    assert(forall|a: int, b: int|
                        0 <= a < b < self.entries@.remove(i as int).len()
                            ==> self.entries@.remove(i as int)[a].window_label@ != self.entries@.remove(
                            i as int,
                        )[b].window_label@);
                    assert(forall|a: int, b: int|
                        0 <= a < b < self.entries@.remove(i as int).len()
                            ==> self.entries@.remove(i as int)[a].process.ws_port
                            != self.entries@.remove(i as int)[b].process.ws_port);
                }
                let entry = self.entries.remove(i);
                return Some(entry.process);
            }
            i += 1;
        }
        proof {
            lemma_map_of_absent(self.entries@, window_label@);
            assert(old(self).sessions().remove(window_label@) =~= old(self).sessions());
        }
        None
    }

    /// Record a freshly spawned worker under its window label.  If a
    /// record already existed for the label it is replaced, and the
    /// old record is handed back so the shell can terminate the
    /// worker it stands for rather than leak it.  The port must not
    /// belong to any other live record — a port is owned by one
    /// session at a time; [`SidecarManager::port_in_use`] lets a
    /// caller check.
    pub fn register_sidecar(&mut self, window_label: &str, vault_path: String, ws_port: u16) -> (r:
        Option<SidecarProcess>)
        requires
            old(self).inv(),
            forall|k: Seq<char>|
                #[trigger] old(self).sessions().contains_key(k) && k != window_label@ ==> old(
                    self,
                ).sessions()[k].ws_port != ws_port,
        ensures
            final(self).inv(),
            final(self).sessions() == old(self).sessions().insert(
                window_label@,
                SessionInfo { vault_path: vault_path@, ws_port },
            ),
            final(self).port_cursor() == old(self).port_cursor(),
            match r {
                Some(p) => old(self).sessions().contains_key(window_label@) && p@ == old(
                    self,
                ).sessions()[window_label@],
                None => !old(self).sessions().contains_key(window_label@),
            },
    {
        let displaced = self.terminate_sidecar(window_label);
        let ghost mid = *self;
        let entry = SessionEntry {
            window_label: window_label.to_owned(),
            process: SidecarProcess { vault_path, ws_port },
        };
        self.entries.push(entry);
        proof {
            lemma_map_of_contains(mid.entries@, window_label@);
            assert(forall|i: int|
                0 <= i < mid.entries@.len() ==> mid.entries@[i].window_label@ != window_label@);
            assert forall|i: int| 0 <= i < mid.entries@.len() implies mid.entries@[i].process.ws_port
                != ws_port by {
                lemma_map_of_index(mid.entries@, i);
            }
            assert(self.entries@.drop_last() =~= mid.entries@);
            assert(self.sessions() =~= mid.sessions().insert(
                window_label@,
                SessionInfo { vault_path: vault_path@, ws_port },
            ));
            assert(old(self).sessions().remove(window_label@).insert(
                window_label@,
                SessionInfo { vault_path: vault_path@, ws_port },
            ) =~= old(self).sessions().insert(
                window_label@,
                SessionInfo { vault_path: vault_path@, ws_port },
            ));
        }
        displaced
    }

    /// Empty the whole table for host shutdown.  Every previously
    /// tracked record is handed back, so the shell can kill and wait
    /// on each worker; afterwards no session is tracked at all.
    pub fn shutdown_all(&mut self) -> (r: Vec<SessionEntry>)
        requires
            old(self).inv(),
        ensures
            final(self).inv(),
            final(self).sessions() == Map::<Seq<char>, SessionInfo>::empty(),
            final(self).port_cursor() == old(self).port_cursor(),
            forall|k: Seq<char>|
                old(self).sessions().contains_key(k) <==> exists|i: int|
                    0 <= i < r@.len() && r@[i].window_label@ == k,
            forall|i: int|
                0 <= i < r@.len() ==> old(self).sessions().contains_key(
                    #[trigger] r@[i].window_label@,
                ) && r@[i].process@ == old(self).sessions()[r@[i].window_label@],
    {
        let mut drained: Vec<SessionEntry> = Vec::new();
        core::mem::swap(&mut self.entries, &mut drained);
        proof {
            assert(self.sessions() =~= Map::<Seq<char>, SessionInfo>::empty());
            assert forall|k: Seq<char>|
                old(self).sessions().contains_key(k) <==> exists|i: int|
                    0 <= i < drained@.len() && drained@[i].window_label@ == k by {
                lemma_map_of_contains(drained@, k);
            }
            assert forall|i: int| 0 <= i < drained@.len() implies old(self).sessions().contains_key(
                #[trigger] drained@[i].window_label@,
            ) && drained@[i].process@ == old(self).sessions()[drained@[i].window_label@] by {
                lemma_map_of_index(drained@, i);
            }
        }
        drained
    }
}

impl Default for SidecarManager {
    /// Same as [`SidecarManager::new`].
    fn default() -> (r: SidecarManager)
        ensures
            r.inv(),
            r.sessions() == Map::<Seq<char>, SessionInfo>::empty(),
            r.port_cursor() == PORT_BASE,
    {
        SidecarManager::new()
    }
}

/// Terminating the same session twice in a row is a no-op the second
/// time: after the first call has removed the label's record, the
/// second call finds nothing under the label (so it reports `None`)
/// and leaves the table exactly as it was.  Neither call can fail.
/// The two `requires` are the `ensures` of two back-to-back
/// [`SidecarManager::terminate_sidecar`] calls on the same label.
pub proof fn lemma_terminate_idempotent(
    pre: SidecarManager,
    mid: SidecarManager,
    fin: SidecarManager,
    label: Seq<char>,
)
    requires
        mid.sessions() == pre.sessions().remove(label),
        fin.sessions() == mid.sessions().remove(label),
    ensures
        fin.sessions() == mid.sessions(),
        !mid.sessions().contains_key(label),
{
    assert(fin.sessions() =~= mid.sessions());
}

/// Shutdown completeness: once [`SidecarManager::shutdown_all`] has
/// emptied the table, no label is tracked any more, so a port lookup
/// for any previously tracked session reports the session as absent.
pub proof fn lemma_shutdown_complete(fin: SidecarManager, label: Seq<char>)
    requires
        fin.sessions() == Map::<Seq<char>, SessionInfo>::empty(),
    ensures
        !fin.sessions().contains_key(label),
{
}

/// Supervisor isolation at the table level: two live sessions under
/// different labels always hold different ports — a port belongs to
/// exactly one session record at a time.
pub proof fn lemma_ports_distinct(m: SidecarManager, k1: Seq<char>, k2: Seq<char>)
    requires
        m.inv(),
        m.sessions().contains_key(k1),
        m.sessions().contains_key(k2),
        k1 != k2,
    ensures
        m.sessions()[k1].ws_port != m.sessions()[k2].ws_port,
{
    lemma_map_of_contains(m.entries@, k1);
    lemma_map_of_contains(m.entries@, k2);
    let i1 = choose|i: int| 0 <= i < m.entries@.len() && m.entries@[i].window_label@ == k1;
    let i2 = choose|i: int| 0 <= i < m.entries@.len() && m.entries@[i].window_label@ == k2;
    lemma_map_of_index(m.entries@, i1);
    lemma_map_of_index(m.entries@, i2);
    assert(i1 != i2);
}

/// The first candidate whose probe succeeded, if any probe did.
pub open spec fn first_true(probes: Seq<bool>) -> Option<int>
    decreases probes.len(),
{
    if probes.len() == 0 {
        None
    } else if probes[0] {
        Some(0)
    } else {
        match first_true(probes.skip(1)) {
            None => None,
            Some(j) => Some(j + 1),
        }
    }
}

proof fn lemma_first_true_at(probes: Seq<bool>, i: int)
    requires
        0 <= i < probes.len(),
        probes[i],
        forall|j: int| 0 <= j < i ==> !probes[j],
    ensures
        first_true(probes) == Some(i),
    decreases i,
{
    if i > 0 {
        assert(forall|j: int| 0 <= j < i - 1 ==> !probes.skip(1)[j]);
        assert(probes.skip(1)[i - 1]);
        lemma_first_true_at(probes.skip(1), i - 1);
    }
}

proof fn lemma_first_true_none(probes: Seq<bool>)
    requires
        forall|j: int| 0 <= j < probes.len() ==> !probes[j],
    ensures
        first_true(probes) == None::<int>,
    decreases probes.len(),
{
    if probes.len() > 0 {
        assert(forall|j: int| 0 <= j < probes.skip(1).len() ==> !probes.skip(1)[j]);
        lemma_first_true_none(probes.skip(1));
    }
}

/// Pick the worker interpreter: the first candidate name whose
/// version probe succeeded.  The shell runs each candidate with a
/// version flag and reports, per candidate, whether it responded; no
/// responding candidate means `ExecutableNotFound`.
pub fn resolve_executable(candidates: &Vec<String>, probe_ok: &Vec<bool>) -> (r: Result<
    String,
    SidecarError,
>)
    requires
        candidates@.len() == probe_ok@.len(),
    ensures
        match first_true(probe_ok@) {
            Some(i) => r matches Ok(name) && name@ == candidates@[i]@,
            None => r matches Err(e) && e == SidecarError::ExecutableNotFound,
        },
{
    let n = candidates.len();
    let mut i: usize = 0;
    while i < n
        invariant
            i <= n,
            n == candidates@.len(),
            n == probe_ok@.len(),
            forall|j: int| 0 <= j < i ==> !probe_ok@[j],
        decreases n - i,
    {
        if probe_ok[i] {
            proof {
                lemma_first_true_at(probe_ok@, i as int);
            }
            return Ok(candidates[i].clone());
        }
        i += 1;
    }
    proof {
        lemma_first_true_none(probe_ok@);
    }
    Err(SidecarError::ExecutableNotFound)
}

/// The ordered interpreter names a spawn tries on the PATH.
pub fn python_candidates() -> (r: Vec<String>)
    ensures
        r@.len() == 2,
        r@[0]@ == "python3"@,
        r@[1]@ == "python"@,
{
    let mut v: Vec<String> = Vec::new();
    v.push("python3".to_owned());
    v.push("python".to_owned());
    v
}

/// The argument list the worker is launched with: unbuffered output,
/// the sidecar module invocation, then the vault path and the port
/// the worker must listen on.
pub fn sidecar_args(vault_path: &str, ws_port: u16) -> (r: Vec<String>)
    ensures
        r@.len() == 7,
        r@[0]@ == "-u"@,
        r@[1]@ == "-m"@,
        r@[2]@ == "sidecar"@,
        r@[3]@ == "--vault"@,
        r@[4]@ == vault_path@,
        r@[5]@ == "--ws-port"@,
        r@[6]@ == decimal_of(ws_port as nat),
{
    let mut v: Vec<String> = Vec::new();
    v.push("-u".to_owned());
    v.push("-m".to_owned());
    v.push("sidecar".to_owned());
    v.push("--vault".to_owned());
    v.push(vault_path.to_owned());
    v.push("--ws-port".to_owned());
    v.push(u16_to_string(ws_port));
    v
}

} // verus!
