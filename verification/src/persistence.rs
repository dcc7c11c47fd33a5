//! The catalog store: one redb database with a single `vms` table, keyed by
//! VM id, holding the record text of `crate::record`. The table's contents
//! are modelled by the uninterpreted map `db_view`; every access goes
//! through a trusted wrapper whose contract is stated over that map.
use crate::models::{Vm, VmState};
use crate::record::{encode_vm_spec, encode_vm_string, parse_vm_spec, parse_vm_string};
use redb::{ReadableDatabase, ReadableTable};
use vstd::prelude::*;
use vstd::string::StringExecFns;

verus! {

/// Why a catalog operation failed.
#[derive(Debug)]
pub enum PersistenceError {
    /// The database itself refused: open, transaction, table or commit.
    Storage(String),
    /// A stored record could not be decoded, or did not match its key.
    Serialization(String),
    /// `update_state` found no record under the id.
    VmNotFound(String),
}

impl PersistenceError {
    pub open spec fn spec_message(self) -> Seq<char> {
        match self {
            PersistenceError::Storage(d) => "Storage error: "@ + d@,
            PersistenceError::Serialization(d) => "Serialization error: "@ + d@,
            PersistenceError::VmNotFound(id) => "VM not found: "@ + id@,
        }
    }

    pub fn message(&self) -> (r: String)
        ensures
            r@ == self.spec_message(),
    {
        match self {
            PersistenceError::Storage(d) => {
                let mut s = String::from_str("Storage error: ");
                s.append(d.as_str());
                s
            },
            PersistenceError::Serialization(d) => {
                let mut s = String::from_str("Serialization error: ");
                s.append(d.as_str());
                s
            },
            PersistenceError::VmNotFound(id) => {
                let mut s = String::from_str("VM not found: ");
                s.append(id.as_str());
                s
            },
        }
    }
}

#[verifier::external_type_specification]
#[verifier::external_body]
pub struct ExDatabase(redb::Database);

/// What the `vms` table of the database holds: record text keyed by id.
pub uninterp spec fn db_view(db: redb::Database) -> Map<Seq<char>, Seq<char>>;

/// The list `v` holds exactly the pairs of `m`, each key once.
pub open spec fn kv_exact(v: Seq<(String, String)>, m: Map<Seq<char>, Seq<char>>) -> bool {
    &&& forall|i: int|
        #![auto]
        0 <= i < v.len() ==> m.contains_key(v[i].0@) && m[v[i].0@] == v[i].1@
    &&& forall|k: Seq<char>|
        #![auto]
        m.contains_key(k) ==> exists|i: int| 0 <= i < v.len() && v[i].0@ == k
    &&& forall|i: int, j: int| #![auto] 0 <= i < j < v.len() ==> v[i].0@ != v[j].0@
}

/// Durable mapping from VM id to serialized record.
pub struct VmStore {
    db: redb::Database,
}

impl VmStore {
    pub closed spec fn contents(self) -> Map<Seq<char>, Seq<char>> {
        db_view(self.db)
    }

    /// Relies on `nix::unistd::mkdir` (creates the immediate parent
    /// directory if it is missing; an existing one is a tolerated error),
    /// `redb::Database::create` (opens or creates the file),
    /// `WriteTransaction::open_table` (creates the `vms` table if absent)
    /// and `WriteTransaction::commit`. Ancestors deeper than one level are
    /// the caller's to create.
    #[verifier::external_body]
    fn raw_open(path: &str) -> (r: Result<VmStore, String>) {
        let t: redb::TableDefinition<&str, &str> = redb::TableDefinition::new("vms");
        if let Some(parent) = std::path::Path::new(path).parent() {
            if !parent.as_os_str().is_empty() {
                let _ = nix::unistd::mkdir(parent, nix::sys::stat::Mode::from_bits_truncate(0o755));
            }
        }
        let db = redb::Database::create(path).map_err(|e| e.to_string())?;
        let tx = db.begin_write().map_err(|e| e.to_string())?;
        tx.open_table(t).map_err(|e| e.to_string())?;
        tx.commit().map_err(|e| e.to_string())?;
        Ok(VmStore { db })
    }

    /// Relies on `Database::begin_read`, `ReadTransaction::open_table` and
    /// `ReadableTable::iter`: a read transaction snapshots the committed
    /// table, and the iterator yields each stored pair exactly once.
    #[verifier::external_body]
    fn raw_get_all(&self) -> (r: Result<Vec<(String, String)>, String>)
        ensures
            match r {
                Ok(v) => kv_exact(v@, db_view(self.db)),
                Err(_) => true,
            },
    {
        let t: redb::TableDefinition<&str, &str> = redb::TableDefinition::new("vms");
        let tx = self.db.begin_read().map_err(|e| e.to_string())?;
        let table = tx.open_table(t).map_err(|e| e.to_string())?;
        let mut out: Vec<(String, String)> = Vec::new();
        for row in table.iter().map_err(|e| e.to_string())? {
            let (k, v) = row.map_err(|e| e.to_string())?;
            out.push((k.value().to_string(), v.value().to_string()));
        }
        Ok(out)
    }

    /// Relies on `Database::begin_write`, `Table::insert` (replaces any
    /// value under the key) and `WriteTransaction::commit`. The commit is
    /// atomic — fully applied or not at all — but a failed commit may
    /// nevertheless have become durable, so a failure promises only one of
    /// the two states.
    #[verifier::external_body]
    fn raw_put(&mut self, key: &str, val: &str) -> (r: Result<(), String>)
        ensures
            match r {
                Ok(_) => db_view(final (self).db) == db_view(old(self).db).insert(key@, val@),
                Err(_) => db_view(final (self).db) == db_view(old(self).db).insert(key@, val@)
                    || db_view(final (self).db) == db_view(old(self).db),
            },
    {
        let t: redb::TableDefinition<&str, &str> = redb::TableDefinition::new("vms");
        let tx = self.db.begin_write().map_err(|e| e.to_string())?;
        {
            let mut table = tx.open_table(t).map_err(|e| e.to_string())?;
            table.insert(key, val).map_err(|e| e.to_string())?;
        }
        tx.commit().map_err(|e| e.to_string())
    }

    /// Relies on `Database::begin_write`, `Table::remove` (removing an
    /// absent key is a no-op) and `WriteTransaction::commit`, atomic as for
    /// `raw_put`: a failure leaves either state.
    #[verifier::external_body]
    fn raw_remove(&mut self, key: &str) -> (r: Result<(), String>)
        ensures
            match r {
                Ok(_) => db_view(final (self).db) == db_view(old(self).db).remove(key@),
                Err(_) => db_view(final (self).db) == db_view(old(self).db).remove(key@)
                    || db_view(final (self).db) == db_view(old(self).db),
            },
    {
        let t: redb::TableDefinition<&str, &str> = redb::TableDefinition::new("vms");
        let tx = self.db.begin_write().map_err(|e| e.to_string())?;
        {
            let mut table = tx.open_table(t).map_err(|e| e.to_string())?;
            table.remove(key).map_err(|e| e.to_string())?;
        }
        tx.commit().map_err(|e| e.to_string())
    }

    /// Relies on `Database::begin_read`, `ReadTransaction::open_table` and
    /// `Table::get`: returns the stored value under the key, if any.
    #[verifier::external_body]
    fn raw_get(&self, key: &str) -> (r: Result<Option<String>, String>)
        ensures
            match r {
                Ok(Some(v)) => db_view(self.db).contains_key(key@) && db_view(self.db)[key@]
                    == v@,
                Ok(None) => !db_view(self.db).contains_key(key@),
                Err(_) => true,
            },
    {
        let t: redb::TableDefinition<&str, &str> = redb::TableDefinition::new("vms");
        let tx = self.db.begin_read().map_err(|e| e.to_string())?;
        let table = tx.open_table(t).map_err(|e| e.to_string())?;
        match table.get(key).map_err(|e| e.to_string())? {
            Some(g) => Ok(Some(g.value().to_string())),
            None => Ok(None),
        }
    }

    /// Opens or creates the database at `path`, creating the parent
    /// directory if it is absent, and makes sure the table exists.
    pub fn open(path: &str) -> (r: Result<VmStore, PersistenceError>)
        ensures
            r is Err ==> r->Err_0 is Storage,
    {
        match Self::raw_open(path) {
            Ok(s) => Ok(s),
            Err(e) => Err(PersistenceError::Storage(e)),
        }
    }

    /// Every stored record, decoded. Each record must decode and must be
    /// stored under its own id; ids come out pairwise distinct.
    pub fn load_all(&self) -> (r: Result<Vec<Vm>, PersistenceError>)
        ensures
            match r {
                Ok(vms) => {
                    &&& forall|i: int|
                        #![auto]
                        0 <= i < vms@.len() ==> self.contents().contains_key(vms@[i]@.id)
                            && parse_vm_spec(self.contents()[vms@[i]@.id]) == Some(vms@[i]@)
                    &&& forall|k: Seq<char>|
                        #![auto]
                        self.contents().contains_key(k) ==> exists|i: int|
                            0 <= i < vms@.len() && vms@[i]@.id == k
                    &&& forall|i: int, j: int|
                        #![auto]
                        0 <= i < j < vms@.len() ==> vms@[i]@.id != vms@[j]@.id
                },
                Err(e) => e is Storage || e is Serialization,
            },
    {
        let pairs = match self.raw_get_all() {
            Ok(p) => p,
            Err(e) => {
                return Err(PersistenceError::Storage(e));
            },
        };
        let mut out: Vec<Vm> = Vec::new();
        let mut idx: usize = 0;
        while idx < pairs.len()
            invariant
                idx <= pairs@.len(),
                kv_exact(pairs@, self.contents()),
                out@.len() == idx,
                forall|i: int|
                    #![auto]
                    0 <= i < idx ==> out@[i]@.id == pairs@[i].0@ && parse_vm_spec(pairs@[i].1@)
                        == Some(out@[i]@),
            decreases pairs@.len() - idx,
        {
            let (k, v) = &pairs[idx];
            let vm = match parse_vm_string(v.as_str()) {
                Some(vm) => vm,
                None => {
                    return Err(
                        PersistenceError::Serialization(String::from_str("unreadable record")),
                    );
                },
            };
            if !crate::text::str_eq(k.as_str(), vm.id.as_str()) {
                return Err(
                    PersistenceError::Serialization(
                        String::from_str("record stored under a foreign id"),
                    ),
                );
            }
            let ghost prev = out@;
            out.push(vm);
            idx = idx + 1;
            proof {
                assert forall|i: int|
                    0 <= i < idx implies #[trigger] out@[i]@.id == pairs@[i].0@ && parse_vm_spec(
                    pairs@[i].1@,
                ) == Some(out@[i]@) by {
                    if i < idx - 1 {
                        assert(out@[i] == prev[i]);
                    } else {
                        assert(out@[i] == vm);
                    }
                }
            }
        }
        Ok(out)
    }

    /// Writes the record under its id, replacing what was there. On an
    /// error the row is either untouched or already fully written; nothing
    /// in between.
    pub fn save(&mut self, vm: &Vm) -> (r: Result<(), PersistenceError>)
        ensures
            r is Ok ==> final (self).contents() == old(self).contents().insert(
                vm@.id,
                encode_vm_spec(vm@),
            ),
            r is Err ==> (final (self).contents() == old(self).contents().insert(
                vm@.id,
                encode_vm_spec(vm@),
            ) || final (self).contents() == old(self).contents()) && r->Err_0 is Storage,
    {
        let text = encode_vm_string(vm);
        match self.raw_put(vm.id.as_str(), text.as_str()) {
            Ok(_) => Ok(()),
            Err(e) => Err(PersistenceError::Storage(e)),
        }
    }

    /// Removes the record under `id`; removing an absent id succeeds. On an
    /// error the row is either still there or already gone.
    pub fn delete(&mut self, id: &str) -> (r: Result<(), PersistenceError>)
        ensures
            r is Ok ==> final (self).contents() == old(self).contents().remove(id@),
            r is Err ==> (final (self).contents() == old(self).contents().remove(id@) || final (
            self).contents() == old(self).contents()) && r->Err_0 is Storage,
    {
        match self.raw_remove(id) {
            Ok(_) => Ok(()),
            Err(e) => Err(PersistenceError::Storage(e)),
        }
    }

    /// Reads the record under `id`, rewrites it with the new state, and
    /// stores it back. Fails with `VmNotFound` exactly when the id is
    /// absent at the read. The read and the write are separate
    /// transactions, each atomic on its own: the rewrite between them is
    /// verified library code, which a trusted transaction body could not
    /// hold. Writers are serialized by the manager's exclusive lock, so no
    /// other write can slip between the two.
    pub fn update_state(&mut self, id: &str, new_state: VmState) -> (r: Result<
        (),
        PersistenceError,
    >)
        ensures
            r is Ok ==> old(self).contents().contains_key(id@) && parse_vm_spec(
                old(self).contents()[id@],
            ) is Some && final (self).contents() == old(self).contents().insert(
                id@,
                encode_vm_spec(parse_vm_spec(old(self).contents()[id@])->Some_0.with_state(new_state)),
            ),
            r is Err ==> final (self).contents() == old(self).contents() || (old(
                self,
            ).contents().contains_key(id@) && parse_vm_spec(old(self).contents()[id@]) is Some
                && final (self).contents() == old(self).contents().insert(
                id@,
                encode_vm_spec(
                    parse_vm_spec(old(self).contents()[id@])->Some_0.with_state(new_state),
                ),
            )),
            r matches Err(e) && e is VmNotFound ==> !old(self).contents().contains_key(id@)
                && final (self).contents() == old(self).contents(),
            old(self).contents().contains_key(id@) ==> !(r matches Err(e) && e is VmNotFound),
    {
        let stored = match self.raw_get(id) {
            Ok(Some(v)) => v,
            Ok(None) => {
                return Err(PersistenceError::VmNotFound(String::from_str(id)));
            },
            Err(e) => {
                return Err(PersistenceError::Storage(e));
            },
        };
        let mut vm = match parse_vm_string(stored.as_str()) {
            Some(vm) => vm,
            None => {
                return Err(
                    PersistenceError::Serialization(String::from_str("unreadable record")),
                );
            },
        };
        vm.state = new_state;
        assert(vm@ == parse_vm_spec(old(self).contents()[id@])->Some_0.with_state(new_state));
        let text = encode_vm_string(&vm);
        match self.raw_put(id, text.as_str()) {
            Ok(_) => Ok(()),
            Err(e) => Err(PersistenceError::Storage(e)),
        }
    }
}

} // verus!
