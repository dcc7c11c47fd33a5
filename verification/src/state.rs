//! The lifecycle manager: the canonical in-memory registry of declared VMs,
//! kept consistent with the persistent catalog. Every state-changing
//! operation persists before it acknowledges, except `stop`, which survives
//! a persistence failure and trusts the next initialization to reconcile.
//!
//! The hypervisor process itself cannot be owned here; the caller drives it
//! and reports back. `plan_start`/`plan_pause` decide what outside work is
//! due, and `start_vm`/`pause_vm` commit its outcome.
use crate::firecracker::FirecrackerError;
use crate::models::{Vm, VmConfig, VmState, VmView};
use crate::persistence::{PersistenceError, VmStore};
use crate::record::{encode_vm_spec, lemma_parse_encode_vm, parse_vm_spec};
use crate::text::str_eq;
use vstd::prelude::*;
use vstd::string::StringExecFns;

verus! {

/// Why a lifecycle operation failed.
#[derive(Debug)]
pub enum VmManagerError {
    VmNotFound(String),
    VmAlreadyExists(String),
    InvalidState { current: VmState, operation: String },
    FirecrackerError(FirecrackerError),
    PersistenceError(PersistenceError),
}

impl VmManagerError {
    pub open spec fn spec_message(self) -> Seq<char> {
        match self {
            VmManagerError::VmNotFound(id) => "VM not found: "@ + id@,
            VmManagerError::VmAlreadyExists(name) => "VM already exists: "@ + name@,
            VmManagerError::InvalidState { current, operation } => "Invalid state "@
                + current.spec_display() + " for operation: "@ + operation@,
            VmManagerError::FirecrackerError(e) => "Firecracker error: "@ + e.spec_message(),
            VmManagerError::PersistenceError(e) => "Persistence error: "@ + e.spec_message(),
        }
    }

    pub fn message(&self) -> (r: String)
        ensures
            r@ == self.spec_message(),
    {
        match self {
            VmManagerError::VmNotFound(id) => {
                let mut s = String::from_str("VM not found: ");
                s.append(id.as_str());
                s
            },
            VmManagerError::VmAlreadyExists(name) => {
                let mut s = String::from_str("VM already exists: ");
                s.append(name.as_str());
                s
            },
            VmManagerError::InvalidState { current, operation } => {
                let mut s = String::from_str("Invalid state ");
                s.append(current.display());
                s.append(" for operation: ");
                s.append(operation.as_str());
                s
            },
            VmManagerError::FirecrackerError(e) => {
                let mut s = String::from_str("Firecracker error: ");
                let m = e.message();
                s.append(m.as_str());
                s
            },
            VmManagerError::PersistenceError(e) => {
                let mut s = String::from_str("Persistence error: ");
                let m = e.message();
                s.append(m.as_str());
                s
            },
        }
    }
}

/// What a `start` must do, decided from the current state.
#[derive(Clone, Copy, Debug, PartialEq, Eq, Structural)]
pub enum StartAction {
    /// Spawn the hypervisor and configure the guest (state Created/Stopped).
    Boot,
    /// Resume a paused guest (state Paused).
    Resume,
}

struct VmEntry {
    vm: Vm,
    has_process: bool,
}

/// Mathematical image of a runtime entry: the record plus whether a live
/// process handle is attached.
pub ghost struct EntryView {
    pub vm: VmView,
    pub has_process: bool,
}

pub open spec fn has_id(s: Seq<EntryView>, id: Seq<char>) -> bool {
    exists|i: int| 0 <= i < s.len() && (#[trigger] s[i]).vm.id == id
}

pub open spec fn has_name(s: Seq<EntryView>, name: Seq<char>) -> bool {
    exists|i: int| 0 <= i < s.len() && (#[trigger] s[i]).vm.name == name
}

pub open spec fn idx_of(s: Seq<EntryView>, id: Seq<char>) -> int {
    choose|i: int| 0 <= i < s.len() && (#[trigger] s[i]).vm.id == id
}

pub open spec fn vm_at(s: Seq<EntryView>, id: Seq<char>) -> VmView {
    s[idx_of(s, id)].vm
}

pub open spec fn ids_unique(s: Seq<EntryView>) -> bool {
    forall|i: int, j: int|
        0 <= i < j < s.len() ==> (#[trigger] s[i]).vm.id != (#[trigger] s[j]).vm.id
}

pub open spec fn names_unique(s: Seq<EntryView>) -> bool {
    forall|i: int, j: int|
        0 <= i < j < s.len() ==> (#[trigger] s[i]).vm.name != (#[trigger] s[j]).vm.name
}

/// A process handle is attached only while the VM is Running or Paused.
pub open spec fn handles_live(s: Seq<EntryView>) -> bool {
    forall|i: int|
        0 <= i < s.len() ==> ((#[trigger] s[i]).has_process ==> s[i].vm.state == VmState::Running
            || s[i].vm.state == VmState::Paused)
}

/// The catalog has a row for the entry that differs from it at most in the
/// state field. (`stop` may leave the persisted state behind.)
pub open spec fn entry_synced(e: EntryView, cat: Map<Seq<char>, Seq<char>>) -> bool {
    &&& cat.contains_key(e.vm.id)
    &&& exists|st: VmState| parse_vm_spec(cat[e.vm.id]) == Some(e.vm.with_state(st))
}

pub open spec fn synced(s: Seq<EntryView>, cat: Map<Seq<char>, Seq<char>>) -> bool {
    forall|i: int| 0 <= i < s.len() ==> entry_synced(#[trigger] s[i], cat)
}

/// The catalog row reads back as exactly this entry's record.
pub open spec fn entry_persisted(e: EntryView, cat: Map<Seq<char>, Seq<char>>) -> bool {
    cat.contains_key(e.vm.id) && parse_vm_spec(cat[e.vm.id]) == Some(e.vm)
}

/// What initialization forces a persisted state to.
pub open spec fn reconciled(st: VmState) -> VmState {
    if st == VmState::Running || st == VmState::Paused {
        VmState::Stopped
    } else {
        st
    }
}

/// Every entry is a replayed record of `cat0`: no process handle, and the
/// decoded row with Running/Paused forced down to Stopped.
pub open spec fn replayed(s1: Seq<EntryView>, cat0: Map<Seq<char>, Seq<char>>) -> bool {
    forall|i: int|
        0 <= i < s1.len() ==> {
            let e = #[trigger] s1[i];
            &&& !e.has_process
            &&& cat0.contains_key(e.vm.id)
            &&& parse_vm_spec(cat0[e.vm.id]) matches Some(v) && e.vm == v.with_state(
                reconciled(v.state),
            )
        }
}

/// Canonical in-memory registry of VMs plus the persistent catalog.
pub struct VmManager {
    entries: Vec<VmEntry>,
    store: VmStore,
}

// ------------------------------------------------------------------
// registry lemmas
// ------------------------------------------------------------------

proof fn lemma_found_idx(s: Seq<EntryView>, id: Seq<char>, i: int)
    requires
        ids_unique(s),
        0 <= i < s.len(),
        s[i].vm.id == id,
    ensures
        has_id(s, id),
        idx_of(s, id) == i,
        vm_at(s, id) == s[i].vm,
{
    assert(has_id(s, id));
    let j = idx_of(s, id);
    assert(0 <= j < s.len() && s[j].vm.id == id);
    if i < j {
        assert(s[i].vm.id != s[j].vm.id);
    } else if j < i {
        assert(s[j].vm.id != s[i].vm.id);
    }
}

proof fn lemma_inv_push(
    s: Seq<EntryView>,
    cat: Map<Seq<char>, Seq<char>>,
    e: EntryView,
    cat2: Map<Seq<char>, Seq<char>>,
)
    requires
        ids_unique(s),
        names_unique(s),
        handles_live(s),
        synced(s, cat),
        !has_id(s, e.vm.id),
        !has_name(s, e.vm.name),
        e.has_process ==> e.vm.state == VmState::Running || e.vm.state == VmState::Paused,
        cat2 == cat.insert(e.vm.id, encode_vm_spec(e.vm)) || (cat2 == cat && entry_synced(
            e,
            cat,
        )),
    ensures
        ids_unique(s.push(e)),
        names_unique(s.push(e)),
        handles_live(s.push(e)),
        synced(s.push(e), cat2),
        entry_synced(e, cat2),
{
    let s1 = s.push(e);
    assert(s1[s.len() as int] == e);
    assert forall|i: int, j: int| 0 <= i < j < s1.len() implies (#[trigger] s1[i]).vm.id != (
    #[trigger] s1[j]).vm.id by {
        if j < s.len() {
            assert(s1[i] == s[i] && s1[j] == s[j]);
        } else {
            assert(s1[j] == e);
            assert(s1[i] == s[i]);
        }
    }
    assert forall|i: int, j: int| 0 <= i < j < s1.len() implies (#[trigger] s1[i]).vm.name != (
    #[trigger] s1[j]).vm.name by {
        if j < s.len() {
            assert(s1[i] == s[i] && s1[j] == s[j]);
        } else {
            assert(s1[j] == e);
            assert(s1[i] == s[i]);
        }
    }
    if cat2 == cat.insert(e.vm.id, encode_vm_spec(e.vm)) {
        lemma_parse_encode_vm(e.vm);
        assert(e.vm.with_state(e.vm.state) == e.vm);
        assert(entry_synced(e, cat2));
    }
    assert forall|i: int| 0 <= i < s1.len() implies entry_synced(#[trigger] s1[i], cat2) by {
        if i < s.len() {
            assert(s1[i] == s[i]);
            assert(entry_synced(s[i], cat));
            assert(s[i].vm.id != e.vm.id);
            assert(cat2[s[i].vm.id] == cat[s[i].vm.id]);
        } else {
            assert(s1[i] == e);
        }
    }
    assert forall|i: int| 0 <= i < s1.len() implies ((#[trigger] s1[i]).has_process ==> s1[i].vm.state
        == VmState::Running || s1[i].vm.state == VmState::Paused) by {
        if i < s.len() {
            assert(s1[i] == s[i]);
        } else {
            assert(s1[i] == e);
        }
    }
}

proof fn lemma_inv_update(
    s: Seq<EntryView>,
    cat: Map<Seq<char>, Seq<char>>,
    i: int,
    e: EntryView,
    cat2: Map<Seq<char>, Seq<char>>,
)
    requires
        ids_unique(s),
        names_unique(s),
        handles_live(s),
        synced(s, cat),
        0 <= i < s.len(),
        e.vm.id == s[i].vm.id,
        e.vm.name == s[i].vm.name,
        e.has_process ==> e.vm.state == VmState::Running || e.vm.state == VmState::Paused,
        cat2 == cat.insert(e.vm.id, encode_vm_spec(e.vm)) || cat2 == cat,
        exists|ns: VmState| e.vm == s[i].vm.with_state(ns),
    ensures
        ids_unique(s.update(i, e)),
        names_unique(s.update(i, e)),
        handles_live(s.update(i, e)),
        synced(s.update(i, e), cat2),
{
    let s1 = s.update(i, e);
    assert(s1[i] == e);
    assert forall|a: int, b: int| 0 <= a < b < s1.len() implies (#[trigger] s1[a]).vm.id != (
    #[trigger] s1[b]).vm.id by {
        assert(s1[a] == if a == i {
            e
        } else {
            s[a]
        });
        assert(s1[b] == if b == i {
            e
        } else {
            s[b]
        });
    }
    assert forall|a: int, b: int| 0 <= a < b < s1.len() implies (#[trigger] s1[a]).vm.name != (
    #[trigger] s1[b]).vm.name by {
        assert(s1[a] == if a == i {
            e
        } else {
            s[a]
        });
        assert(s1[b] == if b == i {
            e
        } else {
            s[b]
        });
    }
    if cat2 == cat.insert(e.vm.id, encode_vm_spec(e.vm)) {
        lemma_parse_encode_vm(e.vm);
        assert(e.vm.with_state(e.vm.state) == e.vm);
        assert(entry_synced(e, cat2));
    } else {
        // the catalog row still differs from the new record only in state
        assert(entry_synced(s[i], cat));
        let st = choose|st: VmState|
            parse_vm_spec(cat[s[i].vm.id]) == Some(s[i].vm.with_state(st));
        let ns = choose|ns: VmState| e.vm == s[i].vm.with_state(ns);
        assert(s[i].vm.with_state(st) == e.vm.with_state(st));
        assert(entry_synced(e, cat2));
    }
    assert forall|a: int| 0 <= a < s1.len() implies entry_synced(#[trigger] s1[a], cat2) by {
        if a == i {
        } else {
            assert(s1[a] == s[a]);
            assert(entry_synced(s[a], cat));
            assert(s[a].vm.id != e.vm.id) by {
                if a < i {
                    assert(s[a].vm.id != s[i].vm.id);
                } else {
                    assert(s[i].vm.id != s[a].vm.id);
                }
            }
            if cat2 == cat.insert(e.vm.id, encode_vm_spec(e.vm)) {
                assert(cat2[s[a].vm.id] == cat[s[a].vm.id]);
            }
        }
    }
    assert forall|a: int| 0 <= a < s1.len() implies ((#[trigger] s1[a]).has_process ==> s1[a].vm.state
        == VmState::Running || s1[a].vm.state == VmState::Paused) by {
        if a != i {
            assert(s1[a] == s[a]);
        }
    }
}

/// A catalog write under a key no registry entry uses leaves every entry
/// synced.
proof fn lemma_sync_foreign_write(
    s: Seq<EntryView>,
    cat: Map<Seq<char>, Seq<char>>,
    k: Seq<char>,
    v: Seq<char>,
    cat2: Map<Seq<char>, Seq<char>>,
)
    requires
        synced(s, cat),
        !has_id(s, k),
        cat2 == cat.insert(k, v) || cat2 == cat,
    ensures
        synced(s, cat2),
{
    assert forall|a: int| 0 <= a < s.len() implies entry_synced(#[trigger] s[a], cat2) by {
        assert(entry_synced(s[a], cat));
        assert(s[a].vm.id != k);
        if cat2 == cat.insert(k, v) {
            assert(cat2.contains_key(s[a].vm.id));
            assert(cat2[s[a].vm.id] == cat[s[a].vm.id]);
        }
    }
}

/// A catalog write that re-encodes entry `i`'s record with some state, or
/// no write at all, leaves every entry synced.
proof fn lemma_sync_state_write(
    s: Seq<EntryView>,
    cat: Map<Seq<char>, Seq<char>>,
    i: int,
    ns: VmState,
    cat2: Map<Seq<char>, Seq<char>>,
)
    requires
        ids_unique(s),
        synced(s, cat),
        0 <= i < s.len(),
        cat2 == cat.insert(s[i].vm.id, encode_vm_spec(s[i].vm.with_state(ns))) || cat2 == cat,
    ensures
        synced(s, cat2),
{
    assert forall|a: int| 0 <= a < s.len() implies entry_synced(#[trigger] s[a], cat2) by {
        assert(entry_synced(s[a], cat));
        if cat2 == cat.insert(s[i].vm.id, encode_vm_spec(s[i].vm.with_state(ns))) {
            if a == i {
                lemma_parse_encode_vm(s[i].vm.with_state(ns));
                assert(cat2[s[a].vm.id] == encode_vm_spec(s[i].vm.with_state(ns)));
                assert(parse_vm_spec(cat2[s[a].vm.id]) == Some(s[a].vm.with_state(ns)));
            } else {
                assert(s[a].vm.id != s[i].vm.id) by {
                    if a < i {
                        assert(s[a].vm.id != s[i].vm.id);
                    } else {
                        assert(s[i].vm.id != s[a].vm.id);
                    }
                }
                assert(cat2[s[a].vm.id] == cat[s[a].vm.id]);
            }
        }
    }
}

proof fn lemma_inv_remove(s: Seq<EntryView>, cat: Map<Seq<char>, Seq<char>>, i: int, cat2: Map<
    Seq<char>,
    Seq<char>,
>)
    requires
        ids_unique(s),
        names_unique(s),
        handles_live(s),
        synced(s, cat),
        0 <= i < s.len(),
        cat2 == cat.remove(s[i].vm.id) || cat2 == cat,
    ensures
        ids_unique(s.remove(i)),
        names_unique(s.remove(i)),
        handles_live(s.remove(i)),
        synced(s.remove(i), cat2),
{
    let s1 = s.remove(i);
    assert forall|a: int| 0 <= a < s1.len() implies entry_synced(#[trigger] s1[a], cat2) by {
        let orig: int = if a < i {
            a
        } else {
            a + 1
        };
        assert(s1[a] == s[orig]);
        assert(entry_synced(s[orig], cat));
        assert(s[orig].vm.id != s[i].vm.id) by {
            if orig < i {
                assert(s[orig].vm.id != s[i].vm.id);
            } else {
                assert(s[i].vm.id != s[orig].vm.id);
            }
        }
        if cat2 == cat.remove(s[i].vm.id) {
            assert(cat2.contains_key(s[orig].vm.id));
            assert(cat2[s[orig].vm.id] == cat[s[orig].vm.id]);
        }
    }
    assert forall|a: int, b: int| 0 <= a < b < s1.len() implies (#[trigger] s1[a]).vm.id != (
    #[trigger] s1[b]).vm.id by {
        let oa: int = if a < i {
            a
        } else {
            a + 1
        };
        let ob: int = if b < i {
            b
        } else {
            b + 1
        };
        assert(s1[a] == s[oa] && s1[b] == s[ob]);
    }
    assert forall|a: int, b: int| 0 <= a < b < s1.len() implies (#[trigger] s1[a]).vm.name != (
    #[trigger] s1[b]).vm.name by {
        let oa: int = if a < i {
            a
        } else {
            a + 1
        };
        let ob: int = if b < i {
            b
        } else {
            b + 1
        };
        assert(s1[a] == s[oa] && s1[b] == s[ob]);
    }
    assert forall|a: int| 0 <= a < s1.len() implies ((#[trigger] s1[a]).has_process ==> s1[a].vm.state
        == VmState::Running || s1[a].vm.state == VmState::Paused) by {
        let oa: int = if a < i {
            a
        } else {
            a + 1
        };
        assert(s1[a] == s[oa]);
    }
}

/// A registry in exact agreement with the catalog is in particular synced.
proof fn lemma_synced_from_persisted(s: Seq<EntryView>, cat: Map<Seq<char>, Seq<char>>)
    requires
        forall|j: int| 0 <= j < s.len() ==> entry_persisted(#[trigger] s[j], cat),
    ensures
        synced(s, cat),
{
    assert forall|j: int| 0 <= j < s.len() implies entry_synced(#[trigger] s[j], cat) by {
        let e = s[j];
        assert(e.vm.with_state(e.vm.state) == e.vm);
        assert(parse_vm_spec(cat[e.vm.id]) == Some(e.vm.with_state(e.vm.state)));
    }
}

/// A registry built by replaying pairwise-distinct records has unique ids
/// and no process handles.
proof fn lemma_init_inv(s: Seq<EntryView>, vms: Seq<Vm>, idx: int)
    requires
        0 <= idx <= vms.len(),
        s.len() == idx,
        forall|j: int|
            #![auto]
            0 <= j < idx ==> s[j] == (EntryView {
                vm: vms[j]@.with_state(reconciled(vms[j]@.state)),
                has_process: false,
            }),
        forall|i: int, j: int| #![auto] 0 <= i < j < vms.len() ==> vms[i]@.id != vms[j]@.id,
    ensures
        ids_unique(s),
        handles_live(s),
{
    assert forall|i: int, j: int| 0 <= i < j < s.len() implies (#[trigger] s[i]).vm.id != (
    #[trigger] s[j]).vm.id by {
        assert(s[i].vm.id == vms[i]@.id);
        assert(s[j].vm.id == vms[j]@.id);
    }
    assert forall|i: int| 0 <= i < s.len() implies ((#[trigger] s[i]).has_process ==> s[i].vm.state
        == VmState::Running || s[i].vm.state == VmState::Paused) by {
        assert(!s[i].has_process);
    }
}

/// A registry built by replaying `vms`, each record pinned to a row of
/// `cat0`, satisfies `replayed`.
proof fn lemma_replayed_from_shape(
    s: Seq<EntryView>,
    vms: Seq<Vm>,
    cat0: Map<Seq<char>, Seq<char>>,
    idx: int,
)
    requires
        0 <= idx <= vms.len(),
        s.len() == idx,
        forall|j: int|
            #![auto]
            0 <= j < idx ==> s[j] == (EntryView {
                vm: vms[j]@.with_state(reconciled(vms[j]@.state)),
                has_process: false,
            }),
        forall|i: int|
            #![auto]
            0 <= i < vms.len() ==> cat0.contains_key(vms[i]@.id) && parse_vm_spec(
                cat0[vms[i]@.id],
            ) == Some(vms[i]@),
    ensures
        replayed(s, cat0),
{
    assert forall|i: int|
        0 <= i < s.len() implies ({
        let e = #[trigger] s[i];
        &&& !e.has_process
        &&& cat0.contains_key(e.vm.id)
        &&& parse_vm_spec(cat0[e.vm.id]) matches Some(v) && e.vm == v.with_state(
            reconciled(v.state),
        )
    }) by {
        assert(s[i].vm.id == vms[i]@.id);
        assert(parse_vm_spec(cat0[vms[i]@.id]) == Some(vms[i]@));
    }
}

// ------------------------------------------------------------------
// the manager
// ------------------------------------------------------------------

impl VmManager {
    /// The registry as a sequence of entry views, in insertion order.
    pub closed spec fn registry(self) -> Seq<EntryView> {
        Seq::new(
            self.entries@.len(),
            |i: int|
                EntryView {
                    vm: self.entries@[i].vm@,
                    has_process: self.entries@[i].has_process,
                },
        )
    }

    /// The persistent catalog: record text keyed by id.
    pub closed spec fn catalog(self) -> Map<Seq<char>, Seq<char>> {
        self.store.contents()
    }

    /// The manager's invariant: unique ids and names, process handles only
    /// on live states, and a catalog row per entry that differs from the
    /// record at most in the state field.
    pub open spec fn inv(self) -> bool {
        &&& ids_unique(self.registry())
        &&& names_unique(self.registry())
        &&& handles_live(self.registry())
        &&& synced(self.registry(), self.catalog())
    }

    /// A manager over an already-open catalog store; the registry starts
    /// empty until `initialize` replays the catalog.
    pub fn new(store: VmStore) -> (r: VmManager)
        ensures
            r.inv(),
            r.registry().len() == 0,
            r.catalog() == store.contents(),
    {
        VmManager { entries: Vec::new(), store }
    }

    /// Opens (or creates) the catalog at `path` and wraps it in a manager.
    pub fn with_db_path(path: &str) -> (r: Result<VmManager, VmManagerError>)
        ensures
            r matches Ok(m) ==> m.inv() && m.registry().len() == 0,
            r is Err ==> r->Err_0 is PersistenceError,
    {
        match VmStore::open(path) {
            Ok(store) => Ok(VmManager::new(store)),
            Err(e) => Err(VmManagerError::PersistenceError(e)),
        }
    }

    fn find_index(&self, id: &str) -> (r: Option<usize>)
        ensures
            match r {
                Some(i) => i < self.registry().len() && self.registry()[i as int].vm.id == id@,
                None => !has_id(self.registry(), id@),
            },
    {
        let n = self.entries.len();
        let mut i: usize = 0;
        while i < n
            invariant
                i <= n,
                n == self.entries@.len(),
                forall|j: int| 0 <= j < i ==> (#[trigger] self.registry()[j]).vm.id != id@,
            decreases n - i,
        {
            if str_eq(self.entries[i].vm.id.as_str(), id) {
                assert(self.registry()[i as int].vm.id == id@);
                return Some(i);
            }
            assert(self.registry()[i as int].vm.id != id@);
            i = i + 1;
        }
        assert(!has_id(self.registry(), id@));
        None
    }

    fn name_taken(&self, name: &str) -> (r: bool)
        ensures
            r == has_name(self.registry(), name@),
    {
        let n = self.entries.len();
        let mut i: usize = 0;
        while i < n
            invariant
                i <= n,
                n == self.entries@.len(),
                forall|j: int| 0 <= j < i ==> (#[trigger] self.registry()[j]).vm.name != name@,
            decreases n - i,
        {
            if str_eq(self.entries[i].vm.name.as_str(), name) {
                assert(self.registry()[i as int].vm.name == name@);
                return true;
            }
            assert(self.registry()[i as int].vm.name != name@);
            i = i + 1;
        }
        assert(!has_name(self.registry(), name@));
        false
    }

    /// Declares a VM: persists the fresh record first, then registers it.
    /// Fails `VmAlreadyExists` exactly when the name is taken. The
    /// configuration must lie within the declared bounds; the HTTP layer
    /// rejects a request outside them before calling here.
    pub fn create_vm(&mut self, name: String, config: VmConfig) -> (r: Result<Vm, VmManagerError>)
        requires
            old(self).inv(),
            config@.wf(),
        ensures
            final (self).inv(),
            r matches Ok(vm) ==> {
                &&& !has_name(old(self).registry(), name@)
                &&& !has_id(old(self).registry(), vm@.id)
                &&& vm@.name == name@
                &&& vm@.id.len() == 36
                &&& vm@.state == VmState::Created
                &&& vm@.config == config@
                &&& vm@.paths_derived()
                &&& final (self).registry() == old(self).registry().push(
                    EntryView { vm: vm@, has_process: false },
                )
                &&& final (self).catalog() == old(self).catalog().insert(
                    vm@.id,
                    encode_vm_spec(vm@),
                )
                &&& entry_persisted(EntryView { vm: vm@, has_process: false }, final (self).catalog())
            },
            (r is Err && r->Err_0 is VmAlreadyExists) <==> has_name(old(self).registry(), name@),
            r is Err && r->Err_0 is VmAlreadyExists ==> r->Err_0->VmAlreadyExists_0@ == name@,
            r is Err ==> final (self).registry() == old(self).registry() && (
            r->Err_0 is VmAlreadyExists || r->Err_0 is PersistenceError),
            r is Err && r->Err_0 is VmAlreadyExists ==> final (self).catalog() == old(
                self,
            ).catalog(),
    {
        if self.name_taken(name.as_str()) {
            return Err(VmManagerError::VmAlreadyExists(name));
        }
        let id = fresh_vm_id();
        if self.find_index(id.as_str()).is_some() {
            return Err(
                VmManagerError::PersistenceError(
                    PersistenceError::Storage(String::from_str("fresh id already in use")),
                ),
            );
        }
        let vm = Vm::new(id, name, config);
        match self.store.save(&vm) {
            Ok(_) => {},
            Err(e) => {
                proof {
                    assert(self.registry() =~= old(self).registry());
                    lemma_sync_foreign_write(
                        self.registry(),
                        old(self).catalog(),
                        vm@.id,
                        encode_vm_spec(vm@),
                        self.catalog(),
                    );
                }
                return Err(VmManagerError::PersistenceError(e));
            },
        }
        let ghost s0 = old(self).registry();
        let ghost ev = EntryView { vm: vm@, has_process: false };
        self.entries.push(VmEntry { vm: vm.clone(), has_process: false });
        proof {
            assert(self.registry() =~= s0.push(ev));
            lemma_inv_push(s0, old(self).catalog(), ev, self.catalog());
            lemma_parse_encode_vm(vm@);
            assert(self.catalog().contains_key(vm@.id));
            assert(self.catalog()[vm@.id] == encode_vm_spec(vm@));
        }
        Ok(vm)
    }

    /// A pure read: the record under `id`, or `VmNotFound`.
    pub fn get_vm(&self, id: &str) -> (r: Result<Vm, VmManagerError>)
        requires
            self.inv(),
        ensures
            match r {
                Ok(vm) => has_id(self.registry(), id@) && vm@ == vm_at(self.registry(), id@),
                Err(e) => !has_id(self.registry(), id@) && (e matches VmManagerError::VmNotFound(
                    n,
                ) && n@ == id@),
            },
    {
        match self.find_index(id) {
            Some(i) => {
                let vm = self.entries[i].vm.clone();
                proof {
                    lemma_found_idx(self.registry(), id@, i as int);
                }
                Ok(vm)
            },
            None => Err(VmManagerError::VmNotFound(String::from_str(id))),
        }
    }

    /// A pure read: every record, in registry order.
    pub fn list_vms(&self) -> (r: Vec<Vm>)
        ensures
            r@.len() == self.registry().len(),
            forall|i: int| 0 <= i < r@.len() ==> (#[trigger] r@[i])@ == self.registry()[i].vm,
    {
        let n = self.entries.len();
        let mut out: Vec<Vm> = Vec::new();
        let mut i: usize = 0;
        while i < n
            invariant
                i <= n,
                n == self.entries@.len(),
                out@.len() == i,
                forall|j: int| 0 <= j < i ==> (#[trigger] out@[j])@ == self.registry()[j].vm,
            decreases n - i,
        {
            let vm = self.entries[i].vm.clone();
            out.push(vm);
            i = i + 1;
        }
        out
    }

    /// Decides what a `start` must do: boot from Created/Stopped, resume
    /// from Paused; `start` on Running is invalid.
    pub fn plan_start(&self, id: &str) -> (r: Result<StartAction, VmManagerError>)
        requires
            self.inv(),
        ensures
            match r {
                Ok(a) => {
                    &&& has_id(self.registry(), id@)
                    &&& (a == StartAction::Boot <==> (vm_at(self.registry(), id@).state
                        == VmState::Created || vm_at(self.registry(), id@).state
                        == VmState::Stopped))
                    &&& (a == StartAction::Resume <==> vm_at(self.registry(), id@).state
                        == VmState::Paused)
                },
                Err(e) => match e {
                    VmManagerError::VmNotFound(n) => !has_id(self.registry(), id@) && n@ == id@,
                    VmManagerError::InvalidState { current, operation } => has_id(
                        self.registry(),
                        id@,
                    ) && current == vm_at(self.registry(), id@).state && current
                        == VmState::Running && operation@ == "start"@,
                    _ => false,
                },
            },
    {
        let i = match self.find_index(id) {
            Some(i) => i,
            None => {
                return Err(VmManagerError::VmNotFound(String::from_str(id)));
            },
        };
        proof {
            lemma_found_idx(self.registry(), id@, i as int);
        }
        match self.entries[i].vm.state {
            VmState::Created | VmState::Stopped => Ok(StartAction::Boot),
            VmState::Paused => Ok(StartAction::Resume),
            VmState::Running => Err(
                VmManagerError::InvalidState {
                    current: VmState::Running,
                    operation: String::from_str("start"),
                },
            ),
        }
    }

    /// Commits a successful start: persists Running first, then flips the
    /// record and attaches the process handle. The caller has already
    /// performed the outside work that `action` names; on a persistence
    /// error nothing changes here and the caller rolls that work back.
    pub fn start_vm(&mut self, id: &str, action: StartAction) -> (r: Result<Vm, VmManagerError>)
        requires
            old(self).inv(),
        ensures
            final (self).inv(),
            r matches Ok(vm) ==> {
                let s0 = old(self).registry();
                &&& has_id(s0, id@)
                &&& (action == StartAction::Boot ==> (vm_at(s0, id@).state == VmState::Created
                    || vm_at(s0, id@).state == VmState::Stopped))
                &&& (action == StartAction::Resume ==> vm_at(s0, id@).state == VmState::Paused)
                &&& vm@ == vm_at(s0, id@).with_state(VmState::Running)
                &&& final (self).registry() == s0.update(
                    idx_of(s0, id@),
                    EntryView { vm: vm@, has_process: true },
                )
                &&& final (self).catalog() == old(self).catalog().insert(
                    id@,
                    encode_vm_spec(vm@),
                )
                &&& entry_persisted(EntryView { vm: vm@, has_process: true }, final (self).catalog())
            },
            r is Err ==> final (self).registry() == old(self).registry(),
            r is Err && (r->Err_0 is VmNotFound || r->Err_0 is InvalidState) ==> final (self).catalog() == old(self).catalog(),
            r is Err && r->Err_0 is PersistenceError ==> final (self).catalog() == old(
                self,
            ).catalog() || final (self).catalog() == old(self).catalog().insert(
                id@,
                encode_vm_spec(vm_at(old(self).registry(), id@).with_state(VmState::Running)),
            ),
            (r is Err && r->Err_0 is VmNotFound) <==> !has_id(old(self).registry(), id@),
            r is Err && r->Err_0 is VmNotFound ==> r->Err_0->VmNotFound_0@ == id@,
            r matches Err(VmManagerError::InvalidState { current, operation }) ==> {
                &&& has_id(old(self).registry(), id@)
                &&& current == vm_at(old(self).registry(), id@).state
                &&& operation@ == "start"@
                &&& !(action == StartAction::Boot && (current == VmState::Created || current
                    == VmState::Stopped))
                &&& !(action == StartAction::Resume && current == VmState::Paused)
            },
            (r is Err && r->Err_0 is InvalidState) <==> (has_id(old(self).registry(), id@) && !(
            action == StartAction::Boot && (vm_at(old(self).registry(), id@).state
                == VmState::Created || vm_at(old(self).registry(), id@).state == VmState::Stopped))
                && !(action == StartAction::Resume && vm_at(old(self).registry(), id@).state
                == VmState::Paused)),
            r is Err ==> (r->Err_0 is VmNotFound || r->Err_0 is InvalidState
                || r->Err_0 is PersistenceError),
    {
        let i = match self.find_index(id) {
            Some(i) => i,
            None => {
                return Err(VmManagerError::VmNotFound(String::from_str(id)));
            },
        };
        proof {
            lemma_found_idx(self.registry(), id@, i as int);
        }
        let cur = self.entries[i].vm.state;
        let valid = match action {
            StartAction::Boot => matches!(cur, VmState::Created | VmState::Stopped),
            StartAction::Resume => matches!(cur, VmState::Paused),
        };
        if !valid {
            return Err(
                VmManagerError::InvalidState { current: cur, operation: String::from_str("start") },
            );
        }
        let ghost s0 = old(self).registry();
        match self.store.update_state(id, VmState::Running) {
            Ok(_) => {},
            Err(e) => {
                proof {
                    assert(self.registry() =~= s0);
                    let st0 = choose|st: VmState|
                        parse_vm_spec(old(self).catalog()[s0[i as int].vm.id]) == Some(
                            s0[i as int].vm.with_state(st),
                        );
                    assert(s0[i as int].vm.with_state(st0).with_state(VmState::Running) == s0[
                        i as int
                    ].vm.with_state(VmState::Running));
                    assert(self.catalog() == old(self).catalog().insert(
                        s0[i as int].vm.id,
                        encode_vm_spec(s0[i as int].vm.with_state(VmState::Running)),
                    ) || self.catalog() == old(self).catalog());
                    lemma_sync_state_write(
                        s0,
                        old(self).catalog(),
                        i as int,
                        VmState::Running,
                        self.catalog(),
                    );
                }
                return Err(VmManagerError::PersistenceError(e));
            },
        }
        let mut vm = self.entries[i].vm.clone();
        vm.state = VmState::Running;
        let ghost ev = EntryView { vm: vm@, has_process: true };
        self.entries[i] = VmEntry { vm: vm.clone(), has_process: true };
        proof {
            assert(self.registry() =~= s0.update(i as int, ev));
            let st0 = choose|st: VmState|
                parse_vm_spec(old(self).catalog()[s0[i as int].vm.id]) == Some(
                    s0[i as int].vm.with_state(st),
                );
            assert(s0[i as int].vm.with_state(st0).with_state(VmState::Running) == vm@);
            assert(self.catalog() == old(self).catalog().insert(id@, encode_vm_spec(vm@)));
            lemma_inv_update(s0, old(self).catalog(), i as int, ev, self.catalog());
            lemma_parse_encode_vm(vm@);
        }
        Ok(vm)
    }

    /// Stops a Running or Paused VM: the record flips to Stopped and the
    /// process handle is detached; the caller kills the actual process.
    /// A persistence failure here is not surfaced (the kill cannot be
    /// undone); the catalog is then reconciled on the next initialization.
    pub fn stop_vm(&mut self, id: &str) -> (r: Result<Vm, VmManagerError>)
        requires
            old(self).inv(),
        ensures
            final (self).inv(),
            r matches Ok(vm) ==> {
                let s0 = old(self).registry();
                &&& has_id(s0, id@)
                &&& (vm_at(s0, id@).state == VmState::Running || vm_at(s0, id@).state
                    == VmState::Paused)
                &&& vm@ == vm_at(s0, id@).with_state(VmState::Stopped)
                &&& final (self).registry() == s0.update(
                    idx_of(s0, id@),
                    EntryView { vm: vm@, has_process: false },
                )
                &&& (final (self).catalog() == old(self).catalog().insert(
                    id@,
                    encode_vm_spec(vm@),
                ) || final (self).catalog() == old(self).catalog())
            },
            r is Err ==> final (self).registry() == old(self).registry() && final (self).catalog()
                == old(self).catalog(),
            (r is Err && r->Err_0 is VmNotFound) <==> !has_id(old(self).registry(), id@),
            r is Err && r->Err_0 is VmNotFound ==> r->Err_0->VmNotFound_0@ == id@,
            r matches Err(VmManagerError::InvalidState { current, operation }) ==> {
                &&& has_id(old(self).registry(), id@)
                &&& current == vm_at(old(self).registry(), id@).state
                &&& (current == VmState::Created || current == VmState::Stopped)
                &&& operation@ == "stop"@
            },
            r is Err ==> (r->Err_0 is VmNotFound || r->Err_0 is InvalidState),
    {
        let i = match self.find_index(id) {
            Some(i) => i,
            None => {
                return Err(VmManagerError::VmNotFound(String::from_str(id)));
            },
        };
        proof {
            lemma_found_idx(self.registry(), id@, i as int);
        }
        let cur = self.entries[i].vm.state;
        if !matches!(cur, VmState::Running | VmState::Paused) {
            return Err(
                VmManagerError::InvalidState { current: cur, operation: String::from_str("stop") },
            );
        }
        let mut vm = self.entries[i].vm.clone();
        vm.state = VmState::Stopped;
        let ghost s0 = old(self).registry();
        let ghost ev = EntryView { vm: vm@, has_process: false };
        self.entries[i] = VmEntry { vm: vm.clone(), has_process: false };
        // persist after the in-memory flip; a failure is tolerated
        let _ = self.store.update_state(id, VmState::Stopped);
        proof {
            assert(self.registry() =~= s0.update(i as int, ev));
            let st0 = choose|st: VmState|
                parse_vm_spec(old(self).catalog()[s0[i as int].vm.id]) == Some(
                    s0[i as int].vm.with_state(st),
                );
            assert(s0[i as int].vm.with_state(st0).with_state(VmState::Stopped) == vm@);
            assert(self.catalog() == old(self).catalog().insert(id@, encode_vm_spec(vm@))
                || self.catalog() == old(self).catalog());
            lemma_inv_update(s0, old(self).catalog(), i as int, ev, self.catalog());
        }
        Ok(vm)
    }

    /// Decides whether a `pause` may proceed: only a Running VM pauses.
    pub fn plan_pause(&self, id: &str) -> (r: Result<(), VmManagerError>)
        requires
            self.inv(),
        ensures
            match r {
                Ok(_) => has_id(self.registry(), id@) && vm_at(self.registry(), id@).state
                    == VmState::Running,
                Err(e) => match e {
                    VmManagerError::VmNotFound(n) => !has_id(self.registry(), id@) && n@ == id@,
                    VmManagerError::InvalidState { current, operation } => has_id(
                        self.registry(),
                        id@,
                    ) && current == vm_at(self.registry(), id@).state && current
                        != VmState::Running && operation@ == "pause"@,
                    _ => false,
                },
            },
    {
        let i = match self.find_index(id) {
            Some(i) => i,
            None => {
                return Err(VmManagerError::VmNotFound(String::from_str(id)));
            },
        };
        proof {
            lemma_found_idx(self.registry(), id@, i as int);
        }
        let cur = self.entries[i].vm.state;
        if matches!(cur, VmState::Running) {
            Ok(())
        } else {
            Err(VmManagerError::InvalidState { current: cur, operation: String::from_str("pause") })
        }
    }

    /// Commits a successful pause: persists Paused first, then flips the
    /// record; the process handle stays attached. On a persistence error
    /// nothing changes here and the caller resumes the guest best-effort.
    pub fn pause_vm(&mut self, id: &str) -> (r: Result<Vm, VmManagerError>)
        requires
            old(self).inv(),
        ensures
            final (self).inv(),
            r matches Ok(vm) ==> {
                let s0 = old(self).registry();
                &&& has_id(s0, id@)
                &&& vm_at(s0, id@).state == VmState::Running
                &&& vm@ == vm_at(s0, id@).with_state(VmState::Paused)
                &&& final (self).registry() == s0.update(
                    idx_of(s0, id@),
                    EntryView { vm: vm@, has_process: s0[idx_of(s0, id@)].has_process },
                )
                &&& final (self).catalog() == old(self).catalog().insert(
                    id@,
                    encode_vm_spec(vm@),
                )
                &&& entry_persisted(
                    EntryView { vm: vm@, has_process: s0[idx_of(s0, id@)].has_process },
                    final (self).catalog(),
                )
            },
            r is Err ==> final (self).registry() == old(self).registry(),
            r is Err && (r->Err_0 is VmNotFound || r->Err_0 is InvalidState) ==> final (self).catalog() == old(self).catalog(),
            r is Err && r->Err_0 is PersistenceError ==> final (self).catalog() == old(
                self,
            ).catalog() || final (self).catalog() == old(self).catalog().insert(
                id@,
                encode_vm_spec(vm_at(old(self).registry(), id@).with_state(VmState::Paused)),
            ),
            (r is Err && r->Err_0 is VmNotFound) <==> !has_id(old(self).registry(), id@),
            r is Err && r->Err_0 is VmNotFound ==> r->Err_0->VmNotFound_0@ == id@,
            r matches Err(VmManagerError::InvalidState { current, operation }) ==> {
                &&& has_id(old(self).registry(), id@)
                &&& current == vm_at(old(self).registry(), id@).state
                &&& current != VmState::Running
                &&& operation@ == "pause"@
            },
            (r is Err && r->Err_0 is InvalidState) <==> (has_id(old(self).registry(), id@)
                && vm_at(old(self).registry(), id@).state != VmState::Running),
            r is Err ==> (r->Err_0 is VmNotFound || r->Err_0 is InvalidState
                || r->Err_0 is PersistenceError),
    {
        let i = match self.find_index(id) {
            Some(i) => i,
            None => {
                return Err(VmManagerError::VmNotFound(String::from_str(id)));
            },
        };
        proof {
            lemma_found_idx(self.registry(), id@, i as int);
        }
        let cur = self.entries[i].vm.state;
        if !matches!(cur, VmState::Running) {
            return Err(
                VmManagerError::InvalidState { current: cur, operation: String::from_str("pause") },
            );
        }
        let ghost s0 = old(self).registry();
        match self.store.update_state(id, VmState::Paused) {
            Ok(_) => {},
            Err(e) => {
                proof {
                    assert(self.registry() =~= s0);
                    let st0 = choose|st: VmState|
                        parse_vm_spec(old(self).catalog()[s0[i as int].vm.id]) == Some(
                            s0[i as int].vm.with_state(st),
                        );
                    assert(s0[i as int].vm.with_state(st0).with_state(VmState::Paused) == s0[
                        i as int
                    ].vm.with_state(VmState::Paused));
                    assert(self.catalog() == old(self).catalog().insert(
                        s0[i as int].vm.id,
                        encode_vm_spec(s0[i as int].vm.with_state(VmState::Paused)),
                    ) || self.catalog() == old(self).catalog());
                    lemma_sync_state_write(
                        s0,
                        old(self).catalog(),
                        i as int,
                        VmState::Paused,
                        self.catalog(),
                    );
                }
                return Err(VmManagerError::PersistenceError(e));
            },
        }
        let mut vm = self.entries[i].vm.clone();
        vm.state = VmState::Paused;
        let hp = self.entries[i].has_process;
        let ghost ev = EntryView { vm: vm@, has_process: hp };
        self.entries[i] = VmEntry { vm: vm.clone(), has_process: hp };
        proof {
            assert(self.registry() =~= s0.update(i as int, ev));
            let st0 = choose|st: VmState|
                parse_vm_spec(old(self).catalog()[s0[i as int].vm.id]) == Some(
                    s0[i as int].vm.with_state(st),
                );
            assert(s0[i as int].vm.with_state(st0).with_state(VmState::Paused) == vm@);
            assert(self.catalog() == old(self).catalog().insert(id@, encode_vm_spec(vm@)));
            lemma_inv_update(s0, old(self).catalog(), i as int, ev, self.catalog());
            lemma_parse_encode_vm(vm@);
        }
        Ok(vm)
    }

    /// Removes a VM: the catalog row first, then the registry entry. The
    /// caller kills any process it still holds for this id. `delete` of an
    /// absent id is `VmNotFound`, never silent success. If the catalog
    /// refuses the removal, the row may or may not be gone; the registry
    /// entry is dropped either way and the error surfaces, so a surviving
    /// row reappears at the next initialization.
    pub fn delete_vm(&mut self, id: &str) -> (r: Result<(), VmManagerError>)
        requires
            old(self).inv(),
        ensures
            final (self).inv(),
            r is Ok ==> has_id(old(self).registry(), id@) && final (self).registry() == old(
                self,
            ).registry().remove(idx_of(old(self).registry(), id@)) && final (self).catalog() == old(
                self,
            ).catalog().remove(id@),
            (r is Err && r->Err_0 is VmNotFound) <==> !has_id(old(self).registry(), id@),
            r is Err && r->Err_0 is VmNotFound ==> r->Err_0->VmNotFound_0@ == id@ && final (self).registry() == old(self).registry() && final (self).catalog() == old(self).catalog(),
            r is Err && r->Err_0 is PersistenceError ==> has_id(old(self).registry(), id@)
                && final (self).registry() == old(self).registry().remove(
                idx_of(old(self).registry(), id@),
            ) && (final (self).catalog() == old(self).catalog().remove(id@) || final (self).catalog() == old(self).catalog()),
            r is Err ==> (r->Err_0 is VmNotFound || r->Err_0 is PersistenceError),
    {
        let i = match self.find_index(id) {
            Some(i) => i,
            None => {
                return Err(VmManagerError::VmNotFound(String::from_str(id)));
            },
        };
        proof {
            lemma_found_idx(self.registry(), id@, i as int);
        }
        let ghost s0 = old(self).registry();
        let outcome = self.store.delete(id);
        self.entries.remove(i);
        proof {
            assert(self.registry() =~= s0.remove(i as int));
            lemma_inv_remove(s0, old(self).catalog(), i as int, self.catalog());
        }
        match outcome {
            Ok(_) => Ok(()),
            Err(e) => Err(VmManagerError::PersistenceError(e)),
        }
    }

    /// Replays the catalog into an empty registry, reconciling records that
    /// were persisted as Running or Paused down to Stopped (their processes
    /// did not survive the restart) and persisting that correction before
    /// any request is served. Returns the socket paths of reconciled VMs so
    /// the caller can unlink stale files.
    #[verifier::rlimit(100)]
    pub fn initialize(&mut self) -> (r: Result<Vec<String>, VmManagerError>)
        requires
            old(self).inv(),
            old(self).registry().len() == 0,
        ensures
            final (self).inv(),
            replayed(final (self).registry(), old(self).catalog()),
            forall|k: Seq<char>|
                #[trigger] final (self).catalog().contains_key(k) <==> old(
                    self,
                ).catalog().contains_key(k),
            r is Ok ==> {
                let s1 = final (self).registry();
                &&& (forall|k: Seq<char>|
                    #[trigger] old(self).catalog().contains_key(k) ==> has_id(s1, k))
                &&& (forall|i: int|
                    0 <= i < s1.len() ==> entry_persisted(#[trigger] s1[i], final (self).catalog()))
            },
            r is Err ==> r->Err_0 is PersistenceError,
    {
        let vms = match self.store.load_all() {
            Ok(v) => v,
            Err(e) => {
                return Err(VmManagerError::PersistenceError(e));
            },
        };
        let ghost cat0 = old(self).catalog();
        let mut stale: Vec<String> = Vec::new();
        let n = vms.len();
        let mut idx: usize = 0;
        while idx < n
            invariant
                idx <= n,
                n == vms@.len(),
                cat0 == old(self).catalog(),
                // what load_all gave us, pinned to the catalog as it was at entry
                forall|i: int|
                    #![auto]
                    0 <= i < n ==> cat0.contains_key(vms@[i]@.id) && parse_vm_spec(
                        cat0[vms@[i]@.id],
                    ) == Some(vms@[i]@),
                forall|k: Seq<char>|
                    #![auto]
                    cat0.contains_key(k) ==> exists|i: int| 0 <= i < n && vms@[i]@.id == k,
                forall|i: int, j: int| #![auto] 0 <= i < j < n ==> vms@[i]@.id != vms@[j]@.id,
                // the registry so far: one reconciled entry per processed record
                self.registry().len() == idx,
                forall|j: int|
                    #![auto]
                    0 <= j < idx ==> self.registry()[j] == (EntryView {
                        vm: vms@[j]@.with_state(reconciled(vms@[j]@.state)),
                        has_process: false,
                    }),
                names_unique(self.registry()),
                // catalog evolution: domain kept; processed rows re-encoded,
                // untouched rows unchanged
                forall|k: Seq<char>|
                    #[trigger] self.catalog().contains_key(k) <==> cat0.contains_key(k),
                forall|j: int|
                    #![auto]
                    0 <= j < idx ==> entry_persisted(self.registry()[j], self.catalog()),
                forall|j: int|
                    #![auto]
                    idx <= j < n ==> self.catalog()[vms@[j]@.id] == cat0[vms@[j]@.id],
            decreases n - idx,
        {
            let ghost reg_t = self.registry();
            let ghost cat_t = self.catalog();
            let src = &vms[idx];
            if self.name_taken(src.name.as_str()) {
                proof {
                    lemma_init_inv(self.registry(), vms@, idx as int);
                    lemma_synced_from_persisted(self.registry(), self.catalog());
                    lemma_replayed_from_shape(self.registry(), vms@, cat0, idx as int);
                }
                return Err(
                    VmManagerError::PersistenceError(
                        PersistenceError::Serialization(
                            String::from_str("two catalog records share a name"),
                        ),
                    ),
                );
            }
            let mut vm = src.clone();
            let ghost target = vms@[idx as int]@.with_state(reconciled(vms@[idx as int]@.state));
            let needs_reconcile = matches!(vm.state, VmState::Running | VmState::Paused);
            if needs_reconcile {
                vm.state = VmState::Stopped;
            }
            proof {
                assert(vms@[idx as int]@.with_state(vms@[idx as int]@.state) == vms@[idx as int]@);
                assert(vm@ == target);
            }
            if needs_reconcile {
                match self.store.save(&vm) {
                    Ok(_) => {
                        proof {
                            assert(self.registry() =~= reg_t);
                        }
                    },
                    Err(e) => {
                        proof {
                            assert(self.registry() =~= reg_t);
                            assert(vm@.id == vms@[idx as int]@.id);
                            assert forall|j: int|
                                0 <= j < self.registry().len() implies entry_persisted(
                                #[trigger] self.registry()[j],
                                self.catalog(),
                            ) by {
                                assert(self.registry()[j] == reg_t[j]);
                                assert(entry_persisted(reg_t[j], cat_t));
                                assert(reg_t[j].vm.id == vms@[j]@.id);
                                assert(vms@[j]@.id != vms@[idx as int]@.id);
                                if self.catalog() == cat_t.insert(vm@.id, encode_vm_spec(vm@)) {
                                    assert(self.catalog()[reg_t[j].vm.id] == cat_t[reg_t[j].vm.id]);
                                }
                            }
                            lemma_init_inv(self.registry(), vms@, idx as int);
                            lemma_synced_from_persisted(self.registry(), self.catalog());
                            lemma_replayed_from_shape(self.registry(), vms@, cat0, idx as int);
                            assert forall|k: Seq<char>|
                                #[trigger] self.catalog().contains_key(k)
                                    <==> cat0.contains_key(k) by {
                                assert(cat_t.contains_key(vm@.id));
                            }
                        }
                        return Err(VmManagerError::PersistenceError(e));
                    },
                }
                stale.push(vm.socket_path.clone());
                stale.push(vm.console_socket_path.clone());
            }
            let ghost cat_b = self.catalog();
            let ghost ev = EntryView { vm: vm@, has_process: false };
            self.entries.push(VmEntry { vm, has_process: false });
            idx = idx + 1;
            proof {
                let i0 = idx - 1;
                assert(self.registry() =~= reg_t.push(ev));
                assert(ev.vm.id == vms@[i0]@.id);
                if needs_reconcile {
                    assert(cat_b == cat_t.insert(ev.vm.id, encode_vm_spec(ev.vm)));
                } else {
                    assert(cat_b == cat_t);
                }
                // registry shape
                assert forall|j: int|
                    0 <= j < idx implies #[trigger] self.registry()[j] == (EntryView {
                        vm: vms@[j]@.with_state(reconciled(vms@[j]@.state)),
                        has_process: false,
                    }) by {
                    if j < i0 {
                        assert(self.registry()[j] == reg_t[j]);
                    } else {
                        assert(self.registry()[j] == ev);
                    }
                }
                // names stay unique: the new name was not taken
                assert forall|a: int, b: int|
                    0 <= a < b < self.registry().len() implies (
                    #[trigger] self.registry()[a]).vm.name != (
                    #[trigger] self.registry()[b]).vm.name by {
                    if b < i0 {
                        assert(self.registry()[a] == reg_t[a]);
                        assert(self.registry()[b] == reg_t[b]);
                    } else {
                        assert(self.registry()[b] == ev);
                        assert(self.registry()[a] == reg_t[a]);
                        assert(!has_name(reg_t, ev.vm.name));
                    }
                }
                // catalog domain kept
                assert forall|k: Seq<char>|
                    #[trigger] self.catalog().contains_key(k) <==> cat0.contains_key(k) by {
                    assert(cat_t.contains_key(ev.vm.id));
                }
                // processed rows read back as their entries
                assert forall|j: int|
                    0 <= j < idx implies entry_persisted(
                    #[trigger] self.registry()[j],
                    self.catalog(),
                ) by {
                    if j < i0 {
                        assert(self.registry()[j] == reg_t[j]);
                        assert(entry_persisted(reg_t[j], cat_t));
                        assert(reg_t[j].vm.id == vms@[j]@.id);
                        if needs_reconcile {
                            assert(vms@[j]@.id != vms@[i0]@.id);
                            assert(cat_b[reg_t[j].vm.id] == cat_t[reg_t[j].vm.id]);
                        }
                    } else {
                        assert(self.registry()[j] == ev);
                        if needs_reconcile {
                            assert(cat_b[ev.vm.id] == encode_vm_spec(ev.vm));
                            lemma_parse_encode_vm(ev.vm);
                        } else {
                            assert(cat_b[ev.vm.id] == cat0[vms@[i0]@.id]);
                            assert(parse_vm_spec(cat0[vms@[i0]@.id]) == Some(vms@[i0]@));
                            assert(ev.vm == vms@[i0]@);
                        }
                    }
                }
                // untouched rows unchanged
                assert forall|j: int|
                    idx <= j < n implies #[trigger] self.catalog()[vms@[j]@.id] == cat0[vms@[j]@.id] by {
                    assert(vms@[j]@.id != vms@[i0]@.id);
                    if needs_reconcile {
                        assert(cat_b[vms@[j]@.id] == cat_t[vms@[j]@.id]);
                    }
                }
            }
        }
        proof {
            lemma_init_inv(self.registry(), vms@, idx as int);
            lemma_synced_from_persisted(self.registry(), self.catalog());
            lemma_replayed_from_shape(self.registry(), vms@, cat0, idx as int);
            // every key of the replayed catalog reappears as a registry id
            assert forall|k: Seq<char>| #[trigger] cat0.contains_key(k) implies has_id(
                self.registry(),
                k,
            ) by {
                let i = choose|i: int| 0 <= i < n && vms@[i]@.id == k;
                assert(self.registry()[i].vm.id == vms@[i]@.id);
            }
        }
        Ok(stale)
    }
}

// ------------------------------------------------------------------
// laws
// ------------------------------------------------------------------

/// A process handle is only ever attached while the VM is Running or
/// Paused; every operation of the manager preserves this.
pub proof fn lemma_handle_implies_live(m: VmManager, i: int)
    requires
        m.inv(),
        0 <= i < m.registry().len(),
        m.registry()[i].has_process,
    ensures
        m.registry()[i].vm.state == VmState::Running || m.registry()[i].vm.state
            == VmState::Paused,
{
}

/// Once a create has succeeded for `name` (its entry was pushed), the name
/// is taken, and `create_vm` fails with `VmAlreadyExists` exactly when the
/// name is taken: two creates of one name cannot both succeed.
pub proof fn lemma_second_create_conflicts(s0: Seq<EntryView>, e: EntryView, name: Seq<char>)
    requires
        e.vm.name == name,
    ensures
        has_name(s0.push(e), name),
{
    assert(s0.push(e)[s0.len() as int] == e);
}

/// After a create, `get` of the fresh id returns exactly the created
/// record: `create_vm` pushes the entry, and `get_vm` returns `vm_at`.
pub proof fn lemma_create_then_get(s0: Seq<EntryView>, e: EntryView)
    requires
        ids_unique(s0),
        !has_id(s0, e.vm.id),
    ensures
        has_id(s0.push(e), e.vm.id),
        vm_at(s0.push(e), e.vm.id) == e.vm,
{
    let s1 = s0.push(e);
    assert(s1[s0.len() as int] == e);
    assert forall|i: int, j: int| 0 <= i < j < s1.len() implies (#[trigger] s1[i]).vm.id != (
    #[trigger] s1[j]).vm.id by {
        if j < s0.len() {
            assert(s1[i] == s0[i] && s1[j] == s0[j]);
        } else {
            assert(s1[j] == e);
            assert(s1[i] == s0[i]);
        }
    }
    lemma_found_idx(s1, e.vm.id, s0.len() as int);
}

/// After a create, the set of registered ids grows by exactly the fresh
/// id; together with `list_vms`, the listing holds exactly the records
/// created and not deleted.
pub proof fn lemma_create_adds_exactly(s0: Seq<EntryView>, e: EntryView)
    ensures
        forall|k: Seq<char>| #[trigger] has_id(s0.push(e), k) <==> (has_id(s0, k) || k == e.vm.id),
{
    let s1 = s0.push(e);
    assert(s1[s0.len() as int] == e);
    assert forall|k: Seq<char>| #[trigger] has_id(s1, k) <==> (has_id(s0, k) || k == e.vm.id) by {
        if has_id(s1, k) {
            let a = choose|a: int| 0 <= a < s1.len() && (#[trigger] s1[a]).vm.id == k;
            if a < s0.len() {
                assert(s1[a] == s0[a]);
                assert(has_id(s0, k));
            } else {
                assert(s1[a] == e);
            }
        }
        if has_id(s0, k) {
            let j = choose|j: int| 0 <= j < s0.len() && (#[trigger] s0[j]).vm.id == k;
            assert(s1[j] == s0[j]);
            assert(has_id(s1, k));
        }
        if k == e.vm.id {
            assert(has_id(s1, k));
        }
    }
}

/// After a delete, the deleted id is gone and every other id survives.
pub proof fn lemma_delete_removes_exactly(s0: Seq<EntryView>, i: int)
    requires
        ids_unique(s0),
        0 <= i < s0.len(),
    ensures
        !has_id(s0.remove(i), s0[i].vm.id),
        forall|k: Seq<char>|
            #[trigger] has_id(s0.remove(i), k) <==> (has_id(s0, k) && k != s0[i].vm.id),
{
    let s1 = s0.remove(i);
    assert forall|a: int| 0 <= a < s1.len() implies (#[trigger] s1[a]).vm.id != s0[i].vm.id by {
        let oa: int = if a < i {
            a
        } else {
            a + 1
        };
        assert(s1[a] == s0[oa]);
        if oa < i {
            assert(s0[oa].vm.id != s0[i].vm.id);
        } else {
            assert(s0[i].vm.id != s0[oa].vm.id);
        }
    }
    assert forall|k: Seq<char>|
        #[trigger] has_id(s1, k) <==> (has_id(s0, k) && k != s0[i].vm.id) by {
        if has_id(s1, k) {
            let a = choose|a: int| 0 <= a < s1.len() && (#[trigger] s1[a]).vm.id == k;
            let oa: int = if a < i {
                a
            } else {
                a + 1
            };
            assert(s1[a] == s0[oa]);
            assert(s0[oa].vm.id == k);
            assert(has_id(s0, k));
        }
        if has_id(s0, k) && k != s0[i].vm.id {
            let j = choose|j: int| 0 <= j < s0.len() && (#[trigger] s0[j]).vm.id == k;
            assert(j != i);
            let a: int = if j < i {
                j
            } else {
                j - 1
            };
            assert(s1[a] == s0[j]);
            assert(has_id(s1, k));
        }
    }
}

/// What a successful operation persists for a record is read back as that
/// record: the catalog row written under `v.id` decodes to `v`.
pub proof fn lemma_persisted_row_reads_back(cat: Map<Seq<char>, Seq<char>>, v: VmView)
    ensures
        parse_vm_spec(cat.insert(v.id, encode_vm_spec(v))[v.id]) == Some(v),
{
    lemma_parse_encode_vm(v);
}

/// Relies on `uuid::Uuid::new_v4` and its `Display` form: a fresh random
/// v4 UUID rendered as the 36-character hyphenated string.
#[verifier::external_body]
fn fresh_vm_id() -> (r: String)
    ensures
        r@.len() == 36,
{
    uuid::Uuid::new_v4().to_string()
}

} // verus!
