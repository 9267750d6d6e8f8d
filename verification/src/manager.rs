//! Multi-database management: the registry of knowledge-base databases, which
//! of them is active, and which have been opened.
use vstd::prelude::*;
use crate::error::AtomicCoreError;
use crate::reports::{contains_id, id_listed, opt_view};
use crate::clock::{new_uuid, now_rfc3339};
use crate::error::ErrorKind;
use crate::text::{append_str, ascii_lower_chars, ascii_lower_seq, chars_eq, chars_of, string_from_chars};

verus! {

/// One registered database.
#[derive(Debug)]
pub struct DatabaseInfo {
    pub id: String,
    pub name: String,
    pub is_default: bool,
    pub created_at: String,
    pub last_opened_at: Option<String>,
}

impl Clone for DatabaseInfo {
    fn clone(&self) -> (r: Self)
        ensures
            r == *self,
    {
        DatabaseInfo {
            id: self.id.clone(),
            name: self.name.clone(),
            is_default: self.is_default,
            created_at: self.created_at.clone(),
            last_opened_at: match &self.last_opened_at {
                Some(t) => Some(t.clone()),
                None => None,
            },
        }
    }
}

/// Copies a list of database infos.
pub fn clone_infos(v: &Vec<DatabaseInfo>) -> (r: Vec<DatabaseInfo>)
    ensures
        r@ == v@,
{
    let mut r: Vec<DatabaseInfo> = Vec::new();
    let mut i: usize = 0;
    while i < v.len()
        invariant
            i <= v.len(),
            r@ == v@.take(i as int),
        decreases v.len() - i,
    {
        r.push(v[i].clone());
        i = i + 1;
    }
    assert(v@.take(v.len() as int) == v@);
    r
}

/// Abstract view of a registered database: (id, name, is default).
pub type DbView = (Seq<char>, Seq<char>, bool);

/// The abstract registry content of stored infos.
pub open spec fn db_views(v: Seq<DatabaseInfo>) -> Seq<DbView> {
    v.map_values(|d: DatabaseInfo| (d.id@, d.name@, d.is_default))
}

/// Registry well-formedness: ids are unique and exactly one database is the
/// default.
pub open spec fn registry_wf(dbs: Seq<DbView>) -> bool {
    &&& forall|a: int, b: int|
        0 <= a < dbs.len() && 0 <= b < dbs.len() && #[trigger] dbs[a].0 == #[trigger] dbs[b].0 ==> a == b
    &&& exists|d: int| 0 <= d < dbs.len() && dbs[d].2
    &&& forall|a: int, b: int| 0 <= a < dbs.len() && 0 <= b < dbs.len() && dbs[a].2 && dbs[b].2 ==> a == b
}

/// The position of the database with id `id`.
pub open spec fn db_index(dbs: Seq<DbView>, id: Seq<char>) -> Option<int> {
    if exists|k: int| 0 <= k < dbs.len() && dbs[k].0 == id {
        Some(choose|k: int| 0 <= k < dbs.len() && dbs[k].0 == id)
    } else {
        None
    }
}

/// The id of the default database.
pub open spec fn default_id(dbs: Seq<DbView>) -> Seq<char> {
    dbs[choose|d: int| 0 <= d < dbs.len() && dbs[d].2].0
}

/// The first database whose name equals `name` ignoring ASCII case.
pub open spec fn first_named(dbs: Seq<DbView>, name: Seq<char>, k: int) -> bool {
    0 <= k < dbs.len() && ascii_lower_seq(dbs[k].1) == ascii_lower_seq(name) && forall|j: int|
        0 <= j < k ==> ascii_lower_seq(#[trigger] dbs[j].1) != ascii_lower_seq(name)
}

/// The databases of the registry opened from `stored` rows (a fresh registry
/// holding only the default database when nothing is stored); none when the
/// stored rows are not a well-formed registry.
pub open spec fn opened_registry(stored: Option<Vec<DatabaseInfo>>) -> Option<Seq<DbView>> {
    match stored {
        Some(rows) => if registry_wf(db_views(rows@)) {
            Some(db_views(rows@))
        } else {
            None
        },
        None => Some(seq![("default"@, "Default"@, true)]),
    }
}

/// The registry of databases.
#[derive(Debug)]
pub struct Registry {
    databases: Vec<DatabaseInfo>,
}

impl Registry {
    #[verifier::type_invariant]
    closed spec fn inv(self) -> bool {
        registry_wf(db_views(self.databases@))
    }

    /// The registered databases, in registration order.
    pub closed spec fn dbs(self) -> Seq<DbView> {
        db_views(self.databases@)
    }

    /// The stored rows of the registered databases, in registration order.
    pub closed spec fn infos(self) -> Seq<DatabaseInfo> {
        self.databases@
    }

    /// When each registered database was last opened, in registration order.
    pub closed spec fn opened(self) -> Seq<Option<Seq<char>>> {
        self.databases@.map_values(|d: DatabaseInfo| opt_view(d.last_opened_at))
    }

    /// When each registered database was created, in registration order.
    pub closed spec fn created(self) -> Seq<Seq<char>> {
        self.databases@.map_values(|d: DatabaseInfo| d.created_at@)
    }

    /// A new registry holding only the default database (`default`, named
    /// `Default`), created at `now`.
    pub fn fresh(now: String) -> (r: Registry)
        ensures
            r.dbs() == seq![("default"@, "Default"@, true)],
    {
        let mut v: Vec<DatabaseInfo> = Vec::new();
        v.push(
            DatabaseInfo {
                id: String::from_str("default"),
                name: String::from_str("Default"),
                is_default: true,
                created_at: now,
                last_opened_at: None,
            },
        );
        proof {
            assert(db_views(v@) =~= seq![("default"@, "Default"@, true)]);
            assert(db_views(v@)[0].2);
        }
        Registry { databases: v }
    }

    /// A registry restored from stored rows; refused (`Validation`) unless
    /// the ids are unique and exactly one row is the default.
    pub fn from_databases(rows: Vec<DatabaseInfo>) -> (r: Result<Registry, AtomicCoreError>)
        ensures
            r matches Ok(reg) ==> reg.dbs() == db_views(rows@) && reg.infos() == rows@,
            r is Ok <==> registry_wf(db_views(rows@)),
            r matches Err(e) ==> e.kind_of() == crate::error::ErrorKind::Validation,
    {
        let n = rows.len();
        let mut defaults: usize = 0;
        let mut first_default: usize = 0;
        let mut i: usize = 0;
        while i < n
            invariant
                i <= n,
                n == rows@.len(),
                db_views(rows@).len() == n,
                defaults <= i,
                defaults == 0 ==> forall|j: int| 0 <= j < i ==> !db_views(rows@)[j].2,
                defaults >= 1 ==> first_default < i && db_views(rows@)[first_default as int].2,
                defaults == 1 ==> forall|j: int| 0 <= j < i && db_views(rows@)[j].2 ==> j == first_default,
                defaults >= 2 ==> exists|a: int, b: int|
                    0 <= a < b < i && db_views(rows@)[a].2 && db_views(rows@)[b].2,
                forall|a: int, b: int|
                    0 <= a < i && 0 <= b < i && #[trigger] db_views(rows@)[a].0 == #[trigger] db_views(rows@)[b].0 ==> a == b,
            decreases n - i,
        {
            let idc = chars_of(rows[i].id.as_str());
            let mut j: usize = 0;
            while j < i
                invariant
                    j <= i < n,
                    n == rows@.len(),
                    db_views(rows@).len() == n,
                    idc@ == rows@[i as int].id@,
                    forall|k: int| 0 <= k < j ==> db_views(rows@)[k].0 != db_views(rows@)[i as int].0,
                decreases i - j,
            {
                let other = chars_of(rows[j].id.as_str());
                if chars_eq(&other, &idc) {
                    assert(db_views(rows@)[j as int].0 == db_views(rows@)[i as int].0);
                    return Err(AtomicCoreError::Validation(String::from_str("duplicate database id")));
                }
                j = j + 1;
            }
            if rows[i].is_default {
                if defaults == 0 {
                    first_default = i;
                }
                if defaults < 2 {
                    defaults = defaults + 1;
                }
            }
            i = i + 1;
        }
        if defaults != 1 {
            return Err(AtomicCoreError::Validation(String::from_str("registry needs exactly one default database")));
        }
        Ok(Registry { databases: rows })
    }

    /// Opens the registry from the rows stored in the data directory, or
    /// creates a fresh one (only the default database, created at `now`) when
    /// none is stored; stored rows are refused (`Validation`) unless the ids
    /// are unique and exactly one row is the default.
    pub fn open_or_create(stored: Option<Vec<DatabaseInfo>>, now: String) -> (r: Result<Registry, AtomicCoreError>)
        ensures
            match opened_registry(stored) {
                Some(d) => r matches Ok(reg) && reg.dbs() == d,
                None => r matches Err(e) && e.kind_of() == crate::error::ErrorKind::Validation,
            },
            stored matches Some(rows) ==> (r matches Ok(reg) ==> reg.infos() == rows@),
    {
        match stored {
            Some(rows) => Self::from_databases(rows),
            None => Ok(Self::fresh(now)),
        }
    }

    /// The position of the database with id `id`.
    pub fn index_of(&self, id: &str) -> (r: Option<usize>)
        ensures
            r matches Some(k) ==> db_index(self.dbs(), id@) == Some(k as int),
            r is None ==> db_index(self.dbs(), id@) is None,
    {
        proof {
            use_type_invariant(self);
        }
        let target = chars_of(id);
        let mut k: usize = 0;
        while k < self.databases.len()
            invariant
                k <= self.databases.len(),
                target@ == id@,
                self.dbs().len() == self.databases@.len(),
                registry_wf(self.dbs()),
                forall|j: int| 0 <= j < k ==> self.dbs()[j].0 != id@,
            decreases self.databases.len() - k,
        {
            let c = chars_of(self.databases[k].id.as_str());
            if chars_eq(&c, &target) {
                proof {
                    let w = choose|j: int| 0 <= j < self.dbs().len() && self.dbs()[j].0 == id@;
                    assert(self.dbs()[w].0 == self.dbs()[k as int].0);
                }
                return Some(k);
            }
            k = k + 1;
        }
        None
    }

    /// The first database whose name matches `name` ignoring ASCII case.
    pub fn find_database_by_name(&self, name: &str) -> (r: Option<DatabaseInfo>)
        ensures
            r matches Some(d) ==> exists|k: int| first_named(self.dbs(), name@, k) && self.dbs()[k] == (d.id@, d.name@, d.is_default),
            r is None ==> forall|k: int| 0 <= k < self.dbs().len() ==> ascii_lower_seq(#[trigger] self.dbs()[k].1) != ascii_lower_seq(name@),
    {
        let nc = chars_of(name);
        let target = ascii_lower_chars(&nc);
        let mut k: usize = 0;
        while k < self.databases.len()
            invariant
                k <= self.databases.len(),
                target@ == ascii_lower_seq(name@),
                self.dbs().len() == self.databases@.len(),
                forall|j: int| 0 <= j < k ==> ascii_lower_seq(#[trigger] self.dbs()[j].1) != ascii_lower_seq(name@),
            decreases self.databases.len() - k,
        {
            let c = chars_of(self.databases[k].name.as_str());
            let lc = ascii_lower_chars(&c);
            if chars_eq(&lc, &target) {
                let d = self.databases[k].clone();
                assert(first_named(self.dbs(), name@, k as int));
                return Some(d);
            }
            k = k + 1;
        }
        None
    }

    /// The id of the default database.
    pub fn get_default_database_id(&self) -> (r: String)
        ensures
            r@ == default_id(self.dbs()),
    {
        proof {
            use_type_invariant(self);
        }
        let ghost d = choose|d: int| 0 <= d < self.dbs().len() && self.dbs()[d].2;
        let mut k: usize = 0;
        while k < self.databases.len()
            invariant
                k <= self.databases.len(),
                self.dbs().len() == self.databases@.len(),
                0 <= d < self.dbs().len() && self.dbs()[d].2,
                registry_wf(self.dbs()),
                forall|j: int| 0 <= j < k ==> !self.dbs()[j].2,
            decreases self.databases.len() - k,
        {
            if self.databases[k].is_default {
                assert(self.dbs()[k as int].2);
                assert(k as int == d);
                return self.databases[k].id.clone();
            }
            k = k + 1;
        }
        assert(!self.dbs()[d].2);
        String::new()
    }

    /// Registers a new, non-default database `name` under `id`; refused when
    /// the id is taken.
    pub fn create_database(&mut self, id: String, name: &str, now: String) -> (r: Result<DatabaseInfo, AtomicCoreError>)
        ensures
            db_index(old(self).dbs(), id@) is Some ==> (r matches Err(e) && e.kind_of() == crate::error::ErrorKind::DatabaseOperation
                && final(self).dbs() == old(self).dbs()),
            db_index(old(self).dbs(), id@) is None ==> (r matches Ok(info) && info.id@ == id@ && info.name@ == name@
                && !info.is_default && final(self).dbs() == old(self).dbs().push((id@, name@, false))),
    {
        proof {
            use_type_invariant(&*self);
        }
        if self.index_of(id.as_str()).is_some() {
            return Err(AtomicCoreError::DatabaseOperation(String::from_str("database id already exists")));
        }
        let info = DatabaseInfo {
            id,
            name: String::from_str(name),
            is_default: false,
            created_at: now,
            last_opened_at: None,
        };
        let ghost before = self.dbs();
        let mut v = clone_infos(&self.databases);
        assert(db_views(v@) == before);
        v.push(info.clone());
        proof {
            let after = db_views(v@);
            assert(after =~= before.push((info.id@, info.name@, false)));
            let d = choose|d: int| 0 <= d < before.len() && before[d].2;
            assert(after[d].2);
            assert forall|a: int, b: int|
                0 <= a < after.len() && 0 <= b < after.len() && #[trigger] after[a].0 == #[trigger] after[b].0 implies a == b by {
                if a < before.len() && b < before.len() {
                    assert(after[a] == before[a] && after[b] == before[b]);
                } else if a < before.len() {
                    assert(before[a].0 == info.id@);
                } else if b < before.len() {
                    assert(before[b].0 == info.id@);
                }
            }
            assert forall|a: int, b: int| 0 <= a < after.len() && 0 <= b < after.len() && after[a].2 && after[b].2 implies a == b by {
                if a < before.len() && b < before.len() {
                    assert(after[a] == before[a] && after[b] == before[b]);
                }
            }
        }
        self.databases = v;
        Ok(info)
    }

    /// Removes a database; the default one cannot be removed (`Validation`),
    /// an unknown id is `NotFound`.
    pub fn delete_database(&mut self, id: &str) -> (r: Result<(), AtomicCoreError>)
        ensures
            db_index(old(self).dbs(), id@) is None ==> (r matches Err(e) && e.kind_of() == crate::error::ErrorKind::NotFound
                && final(self).dbs() == old(self).dbs()),
            db_index(old(self).dbs(), id@) matches Some(k) ==> if old(self).dbs()[k].2 {
                r matches Err(e) && e.kind_of() == crate::error::ErrorKind::Validation && final(self).dbs() == old(self).dbs()
            } else {
                r is Ok && final(self).dbs() == old(self).dbs().remove(k)
            },
    {
        proof {
            use_type_invariant(&*self);
        }
        let k = match self.index_of(id) {
            Some(k) => k,
            None => {
                return Err(AtomicCoreError::NotFound(String::from_str("database not found")));
            },
        };
        if self.databases[k].is_default {
            return Err(AtomicCoreError::Validation(String::from_str("Cannot delete the default database")));
        }
        let ghost before = self.dbs();
        let mut v = clone_infos(&self.databases);
        assert(db_views(v@) == before);
        let ghost vold = v@;
        v.remove(k);
        proof {
            let after = db_views(v@);
            assert(v@ == vold.remove(k as int));
            assert(after =~= before.remove(k as int));
            let d = choose|d: int| 0 <= d < before.len() && before[d].2;
            assert(d != k);
            if d < k {
                assert(after[d] == before[d]);
            } else {
                assert(after[d - 1] == before[d]);
            }
            assert forall|a: int, b: int|
                0 <= a < after.len() && 0 <= b < after.len() && #[trigger] after[a].0 == #[trigger] after[b].0 implies a == b by {
                let a2 = if a < k { a } else { a + 1 };
                let b2 = if b < k { b } else { b + 1 };
                assert(after[a] == before[a2] && after[b] == before[b2]);
            }
            assert forall|a: int, b: int| 0 <= a < after.len() && 0 <= b < after.len() && after[a].2 && after[b].2 implies a == b by {
                let a2 = if a < k { a } else { a + 1 };
                let b2 = if b < k { b } else { b + 1 };
                assert(after[a] == before[a2] && after[b] == before[b2]);
            }
        }
        self.databases = v;
        Ok(())
    }

    /// Renames a database; an unknown id is `NotFound`.
    pub fn rename_database(&mut self, id: &str, name: &str) -> (r: Result<(), AtomicCoreError>)
        ensures
            db_index(old(self).dbs(), id@) is None ==> (r matches Err(e) && e.kind_of() == crate::error::ErrorKind::NotFound
                && final(self).dbs() == old(self).dbs()),
            db_index(old(self).dbs(), id@) matches Some(k) ==> r is Ok && final(self).dbs() == old(self).dbs().update(
                k,
                (old(self).dbs()[k].0, name@, old(self).dbs()[k].2),
            ),
    {
        proof {
            use_type_invariant(&*self);
        }
        let k = match self.index_of(id) {
            Some(k) => k,
            None => {
                return Err(AtomicCoreError::NotFound(String::from_str("database not found")));
            },
        };
        let ghost before = self.dbs();
        let mut v = clone_infos(&self.databases);
        let old_info = v[k].clone();
        let updated = DatabaseInfo {
            id: old_info.id,
            name: String::from_str(name),
            is_default: old_info.is_default,
            created_at: old_info.created_at,
            last_opened_at: old_info.last_opened_at,
        };
        v.set(k, updated);
        proof {
            let after = db_views(v@);
            assert(after =~= before.update(k as int, (before[k as int].0, name@, before[k as int].2)));
            let d = choose|d: int| 0 <= d < before.len() && before[d].2;
            assert(after[d].2);
            assert forall|a: int, b: int|
                0 <= a < after.len() && 0 <= b < after.len() && #[trigger] after[a].0 == #[trigger] after[b].0 implies a == b by {
                assert(after[a].0 == before[a].0 && after[b].0 == before[b].0);
            }
            assert forall|a: int, b: int| 0 <= a < after.len() && 0 <= b < after.len() && after[a].2 && after[b].2 implies a == b by {
                assert(after[a].2 == before[a].2 && after[b].2 == before[b].2);
            }
        }
        self.databases = v;
        Ok(())
    }

    /// Makes a database the default (and no other); an unknown id is
    /// `NotFound`.
    pub fn set_default_database(&mut self, id: &str) -> (r: Result<(), AtomicCoreError>)
        ensures
            db_index(old(self).dbs(), id@) is None ==> (r matches Err(e) && e.kind_of() == crate::error::ErrorKind::NotFound
                && final(self).dbs() == old(self).dbs()),
            db_index(old(self).dbs(), id@) matches Some(k) ==> r is Ok && final(self).dbs().len() == old(self).dbs().len()
                && forall|j: int| 0 <= j < old(self).dbs().len() ==> #[trigger] final(self).dbs()[j] == (
                    old(self).dbs()[j].0,
                    old(self).dbs()[j].1,
                    j == k,
                ),
    {
        proof {
            use_type_invariant(&*self);
        }
        let k = match self.index_of(id) {
            Some(k) => k,
            None => {
                return Err(AtomicCoreError::NotFound(String::from_str("database not found")));
            },
        };
        let ghost before = self.dbs();
        let mut v: Vec<DatabaseInfo> = Vec::new();
        let mut i: usize = 0;
        while i < self.databases.len()
            invariant
                i <= self.databases.len(),
                before == self.dbs(),
                before.len() == self.databases@.len(),
                v@.len() == i,
                k < self.databases.len(),
                forall|j: int| 0 <= j < i ==> #[trigger] db_views(v@)[j] == (before[j].0, before[j].1, j == k),
            decreases self.databases.len() - i,
        {
            let d = self.databases[i].clone();
            let nd = DatabaseInfo {
                id: d.id,
                name: d.name,
                is_default: i == k,
                created_at: d.created_at,
                last_opened_at: d.last_opened_at,
            };
            let ghost vb = v@;
            v.push(nd);
            proof {
                assert(db_views(v@)[i as int] == (before[i as int].0, before[i as int].1, i == k));
                assert forall|j: int| 0 <= j < i + 1 implies #[trigger] db_views(v@)[j] == (before[j].0, before[j].1, j == k) by {
                    if j < i {
                        assert(v@[j] == vb[j]);
                        assert(db_views(vb)[j] == (before[j].0, before[j].1, j == k));
                    }
                }
            }
            i = i + 1;
        }
        proof {
            let after = db_views(v@);
            assert(after[k as int].2);
            assert forall|a: int, b: int|
                0 <= a < after.len() && 0 <= b < after.len() && #[trigger] after[a].0 == #[trigger] after[b].0 implies a == b by {
                assert(after[a].0 == before[a].0 && after[b].0 == before[b].0);
            }
        }
        self.databases = v;
        Ok(())
    }

    /// Records that a database was opened at `now` (unknown ids are left
    /// alone); the registered (id, name, default) triples do not change.
    pub fn touch_database(&mut self, id: &str, now: String)
        ensures
            final(self).dbs() == old(self).dbs(),
            final(self).created() == old(self).created(),
            match db_index(old(self).dbs(), id@) {
                Some(k) => final(self).opened() == old(self).opened().update(k, Some(now@)),
                None => final(self).opened() == old(self).opened(),
            },
    {
        proof {
            use_type_invariant(&*self);
        }
        if let Some(k) = self.index_of(id) {
            let ghost before = self.dbs();
            let mut v = clone_infos(&self.databases);
            let old_info = v[k].clone();
            let updated = DatabaseInfo {
                id: old_info.id,
                name: old_info.name,
                is_default: old_info.is_default,
                created_at: old_info.created_at,
                last_opened_at: Some(now),
            };
            let ghost opened_before = self.opened();
            let ghost created_before = self.created();
            v.set(k, updated);
            assert(db_views(v@) =~= before);
            self.databases = v;
            assert(self.opened() =~= opened_before.update(k as int, Some(now@)));
            assert(self.created() =~= created_before);
        }
    }

    /// The registered databases.
    pub fn list_databases(&self) -> (r: Vec<DatabaseInfo>)
        ensures
            r@ == self.infos(),
            db_views(r@) == self.dbs(),
            registry_wf(self.dbs()),
    {
        proof {
            use_type_invariant(self);
        }
        clone_infos(&self.databases)
    }
}


/// Deleting a database right after creating it restores the registry: the new
/// database sits at the end, is not the default, and removing it gives back
/// the databases as they were.
pub proof fn law_create_then_delete_restores(dbs: Seq<DbView>, id: Seq<char>, name: Seq<char>)
    requires
        registry_wf(dbs),
        db_index(dbs, id) is None,
    ensures
        db_index(dbs.push((id, name, false)), id) == Some(dbs.len() as int),
        !dbs.push((id, name, false))[dbs.len() as int].2,
        dbs.push((id, name, false)).remove(dbs.len() as int) == dbs,
{
    let after = dbs.push((id, name, false));
    assert(after[dbs.len() as int].0 == id);
    let k = choose|k: int| 0 <= k < after.len() && after[k].0 == id;
    if k < dbs.len() {
        assert(dbs[k] == after[k]);
    }
    assert(after.remove(dbs.len() as int) =~= dbs);
}

/// The default database of a fresh registry is `default`.
proof fn lemma_fresh_default_id()
    ensures
        default_id(seq![("default"@, "Default"@, true)]) == "default"@,
{
    let d: Seq<DbView> = seq![("default"@, "Default"@, true)];
    assert(d[0].2);
    let k = choose|k: int| 0 <= k < d.len() && d[k].2;
    assert(k == 0);
}

/// A handle on an opened database.
#[derive(Debug, Clone)]
pub struct CoreHandle {
    pub database_id: String,
}

/// What `id_or_name` designates: itself when it is a registered id, else the
/// id of the first database whose name matches it ignoring ASCII case, else
/// itself.
pub open spec fn resolve_spec(dbs: Seq<DbView>, id_or_name: Seq<char>) -> Seq<char> {
    if db_index(dbs, id_or_name) is Some {
        id_or_name
    } else if exists|k: int| first_named(dbs, id_or_name, k) {
        dbs[choose|k: int| first_named(dbs, id_or_name, k)].0
    } else {
        id_or_name
    }
}

/// Whether `id` is among the opened databases.
pub open spec fn is_loaded(loaded: Seq<Seq<char>>, id: Seq<char>) -> bool {
    loaded.contains(id)
}

/// `loaded` with `id` added unless already present.
pub open spec fn with_loaded(loaded: Seq<Seq<char>>, id: Seq<char>) -> Seq<Seq<char>> {
    if loaded.contains(id) {
        loaded
    } else {
        loaded.push(id)
    }
}

/// The message of a missing-database error.
pub open spec fn missing_db_message(id: Seq<char>) -> Seq<char> {
    "Database '"@ + id + "'"@
}

/// The message of a repeated setup.
pub open spec fn already_initialized_message() -> Seq<char> {
    "Manager already initialized"@
}

/// The message of a request made before setup.
pub open spec fn not_initialized_message() -> Seq<char> {
    "Server not initialized — complete setup first"@
}

/// Manages the knowledge-base databases: the registry (absent until setup in
/// deferred mode), the active database, and which databases are opened.
#[derive(Debug)]
pub struct DatabaseManager {
    registry: Option<Registry>,
    loaded: Vec<String>,
    active_id: String,
    passphrase: Option<String>,
    data_dir: String,
}

impl DatabaseManager {
    /// Whether the registry exists.
    pub closed spec fn initialized(self) -> bool {
        self.registry is Some
    }

    /// The registered databases (empty before setup).
    pub closed spec fn dbs(self) -> Seq<DbView> {
        match self.registry {
            Some(r) => r.dbs(),
            None => Seq::empty(),
        }
    }

    /// The stored rows of the registered databases (empty before setup).
    pub closed spec fn infos(self) -> Seq<DatabaseInfo> {
        match self.registry {
            Some(r) => r.infos(),
            None => Seq::empty(),
        }
    }

    /// The active database id.
    pub closed spec fn active(self) -> Seq<char> {
        self.active_id@
    }

    /// The ids of the opened databases.
    pub closed spec fn loaded(self) -> Seq<Seq<char>> {
        self.loaded@.map_values(|s: String| s@)
    }

    /// The encryption passphrase.
    pub closed spec fn passphrase(self) -> Option<Seq<char>> {
        match self.passphrase {
            Some(p) => Some(p@),
            None => None,
        }
    }

    /// The data directory.
    pub closed spec fn dir(self) -> Seq<char> {
        self.data_dir@
    }

    /// A manager over the registry of `data_dir` (unencrypted), opened from
    /// the rows stored there (`stored`, as read by the caller) or created
    /// fresh when none are stored; the registry's default database is active.
    /// `Validation` error when the stored rows are not a well-formed registry.
    pub fn new(data_dir: &str, stored: Option<Vec<DatabaseInfo>>) -> (r: Result<DatabaseManager, AtomicCoreError>)
        ensures
            match opened_registry(stored) {
                Some(d) => r matches Ok(m) && m.initialized() && m.dbs() == d && m.active() == default_id(d)
                    && m.loaded().len() == 0 && m.passphrase() is None && m.dir() == data_dir@,
                None => r matches Err(e) && e.kind_of() == ErrorKind::Validation,
            },
            stored is None ==> (r matches Ok(m) && m.active() == "default"@),
            stored matches Some(rows) ==> (r matches Ok(m) ==> m.infos() == rows@),
    {
        Self::new_encrypted(data_dir, None, stored)
    }

    /// A manager over the registry of `data_dir`, opened from the rows stored
    /// there or created fresh when none are stored, with an optional
    /// encryption passphrase; the registry's default database is active.
    /// `Validation` error when the stored rows are not a well-formed registry.
    pub fn new_encrypted(data_dir: &str, passphrase: Option<String>, stored: Option<Vec<DatabaseInfo>>) -> (r: Result<
        DatabaseManager,
        AtomicCoreError,
    >)
        ensures
            match opened_registry(stored) {
                Some(d) => r matches Ok(m) && m.initialized() && m.dbs() == d && m.active() == default_id(d)
                    && m.loaded().len() == 0 && m.passphrase() == crate::reports::opt_view(passphrase)
                    && m.dir() == data_dir@,
                None => r matches Err(e) && e.kind_of() == ErrorKind::Validation,
            },
            stored is None ==> (r matches Ok(m) && m.active() == "default"@),
            stored matches Some(rows) ==> (r matches Ok(m) ==> m.infos() == rows@),
    {
        let registry = match Registry::open_or_create(stored, now_rfc3339()) {
            Ok(reg) => reg,
            Err(e) => {
                return Err(e);
            },
        };
        proof {
            lemma_fresh_default_id();
        }
        Ok(Self::with_registry(data_dir, passphrase, registry))
    }

    /// A manager over an existing registry; the registry's default database
    /// is active.
    pub fn with_registry(data_dir: &str, passphrase: Option<String>, registry: Registry) -> (m: DatabaseManager)
        ensures
            m.initialized(),
            m.dbs() == registry.dbs(),
            m.infos() == registry.infos(),
            m.active() == default_id(registry.dbs()),
            m.loaded().len() == 0,
            m.passphrase() == crate::reports::opt_view(passphrase),
            m.dir() == data_dir@,
    {
        let default_id = registry.get_default_database_id();
        let m = DatabaseManager {
            registry: Some(registry),
            loaded: Vec::new(),
            active_id: default_id,
            passphrase,
            data_dir: String::from_str(data_dir),
        };
        assert(m.loaded() =~= Seq::<Seq<char>>::empty());
        m
    }

    /// A manager in deferred mode: no registry until `initialize`.
    pub fn new_deferred(data_dir: &str) -> (m: DatabaseManager)
        ensures
            !m.initialized(),
            m.dbs().len() == 0,
            m.active() == "default"@,
            m.loaded().len() == 0,
            m.passphrase() is None,
            m.dir() == data_dir@,
    {
        let m = DatabaseManager {
            registry: None,
            loaded: Vec::new(),
            active_id: String::from_str("default"),
            passphrase: None,
            data_dir: String::from_str(data_dir),
        };
        assert(m.loaded() =~= Seq::<Seq<char>>::empty());
        m
    }

    /// Whether the registry exists.
    pub fn is_initialized(&self) -> (b: bool)
        ensures
            b == self.initialized(),
    {
        self.registry.is_some()
    }

    /// The data directory.
    pub fn data_dir(&self) -> (d: &str)
        ensures
            d@ == self.dir(),
    {
        self.data_dir.as_str()
    }

    /// Sets the manager up in deferred mode: opens the registry of the data
    /// directory from the rows stored there (`stored`, as read by the caller)
    /// or creates a fresh one, stores the passphrase and activates the
    /// registry's default database. Refused (`Configuration`) when already
    /// initialized; `Validation` error, leaving the manager uninitialized,
    /// when the stored rows are not a well-formed registry.
    pub fn initialize(&mut self, passphrase: Option<String>, stored: Option<Vec<DatabaseInfo>>) -> (r: Result<
        (),
        AtomicCoreError,
    >)
        ensures
            final(self).dir() == old(self).dir(),
            final(self).loaded() == old(self).loaded(),
            old(self).initialized() ==> (r matches Err(e) && e.kind_of() == ErrorKind::Configuration
                && e.message() == already_initialized_message() && final(self).initialized()
                && final(self).dbs() == old(self).dbs() && final(self).infos() == old(self).infos()
                && final(self).active() == old(self).active() && final(self).passphrase() == old(self).passphrase()),
            !old(self).initialized() ==> match opened_registry(stored) {
                Some(d) => r is Ok && final(self).initialized() && final(self).dbs() == d
                    && final(self).active() == default_id(d)
                    && final(self).passphrase() == crate::reports::opt_view(passphrase),
                None => r matches Err(e) && e.kind_of() == ErrorKind::Validation && !final(self).initialized()
                    && final(self).active() == old(self).active() && final(self).passphrase() == old(self).passphrase(),
            },
            !old(self).initialized() && stored is None ==> final(self).active() == "default"@,
            !old(self).initialized() ==> (stored matches Some(rows) ==> (r is Ok ==> final(self).infos() == rows@)),
    {
        if self.registry.is_some() {
            return Err(Self::already_initialized());
        }
        let registry = match Registry::open_or_create(stored, now_rfc3339()) {
            Ok(reg) => reg,
            Err(e) => {
                return Err(e);
            },
        };
        proof {
            lemma_fresh_default_id();
        }
        let default_id = registry.get_default_database_id();
        self.passphrase = passphrase;
        self.registry = Some(registry);
        self.active_id = default_id;
        Ok(())
    }

    fn already_initialized() -> (e: AtomicCoreError)
        ensures
            e.kind_of() == ErrorKind::Configuration,
            e.message() == already_initialized_message(),
    {
        AtomicCoreError::Configuration(String::from_str("Manager already initialized"))
    }

    fn not_initialized() -> (e: AtomicCoreError)
        ensures
            e.kind_of() == ErrorKind::Configuration,
            e.message() == not_initialized_message(),
    {
        AtomicCoreError::Configuration(String::from_str("Server not initialized — complete setup first"))
    }

    fn missing_database(id: &str) -> (e: AtomicCoreError)
        ensures
            e.kind_of() == ErrorKind::NotFound,
            e.message() == missing_db_message(id@),
    {
        let mut m = chars_of("Database '");
        append_str(&mut m, id);
        append_str(&mut m, "'");
        AtomicCoreError::NotFound(string_from_chars(&m))
    }

    /// The registry; `Configuration` error before setup.
    pub fn registry(&self) -> (r: Result<&Registry, AtomicCoreError>)
        ensures
            self.initialized() ==> (r matches Ok(reg) && reg.dbs() == self.dbs() && reg.infos() == self.infos()
                && registry_wf(reg.dbs())),
            !self.initialized() ==> (r matches Err(e) && e.kind_of() == ErrorKind::Configuration),
    {
        match &self.registry {
            Some(r) => {
                proof {
                    use_type_invariant(r);
                }
                Ok(r)
            },
            None => Err(Self::not_initialized()),
        }
    }

    /// Resolves a database id or name to its id.
    fn resolve_database_id(&self, id_or_name: &str) -> (r: String)
        requires
            self.initialized(),
        ensures
            r@ == resolve_spec(self.dbs(), id_or_name@),
    {
        let reg = match &self.registry {
            Some(r) => r,
            None => {
                return String::new();
            },
        };
        if reg.index_of(id_or_name).is_some() {
            return String::from_str(id_or_name);
        }
        match reg.find_database_by_name(id_or_name) {
            Some(d) => {
                proof {
                    let k = choose|k: int| first_named(self.dbs(), id_or_name@, k) && self.dbs()[k] == (d.id@, d.name@, d.is_default);
                    let c = choose|k: int| first_named(self.dbs(), id_or_name@, k);
                    assert(c == k) by {
                        if c < k {
                            assert(ascii_lower_seq(self.dbs()[c].1) != ascii_lower_seq(id_or_name@));
                        } else if k < c {
                            assert(ascii_lower_seq(self.dbs()[k].1) != ascii_lower_seq(id_or_name@));
                        }
                    }
                }
                d.id
            },
            None => {
                proof {
                    assert forall|k: int| !first_named(self.dbs(), id_or_name@, k) by {
                        if 0 <= k < self.dbs().len() {
                            assert(ascii_lower_seq(self.dbs()[k].1) != ascii_lower_seq(id_or_name@));
                        }
                    }
                }
                String::from_str(id_or_name)
            },
        }
    }

    /// Opens a database by id or name (an id that is already open is used as
    /// is; otherwise the name is resolved first) and records it as opened.
    /// `Configuration` error before setup.
    pub fn get_core(&mut self, id: &str) -> (r: Result<CoreHandle, AtomicCoreError>)
        ensures
            final(self).dbs() == old(self).dbs(),
            final(self).active() == old(self).active(),
            final(self).initialized() == old(self).initialized(),
            final(self).passphrase() == old(self).passphrase(),
            final(self).dir() == old(self).dir(),
            !old(self).initialized() ==> (r matches Err(e) && e.kind_of() == ErrorKind::Configuration
                && final(self).loaded() == old(self).loaded()),
            old(self).initialized() ==> ({
                let target = if is_loaded(old(self).loaded(), id@) {
                    id@
                } else {
                    resolve_spec(old(self).dbs(), id@)
                };
                r matches Ok(h) && h.database_id@ == target && final(self).loaded() == with_loaded(
                    old(self).loaded(),
                    target,
                )
            }),
    {
        if self.registry.is_none() {
            return Err(Self::not_initialized());
        }
        let ghost lv = self.loaded();
        assert(self.loaded@.len() == lv.len());
        let target = if contains_id(&self.loaded, id) {
            proof {
                let k = choose|k: int| 0 <= k < self.loaded@.len() && #[trigger] self.loaded@[k]@ == id@;
                assert(lv[k] == id@);
            }
            String::from_str(id)
        } else {
            proof {
                assert forall|k: int| 0 <= k < lv.len() implies lv[k] != id@ by {
                    assert(lv[k] == self.loaded@[k]@);
                }
            }
            self.resolve_database_id(id)
        };
        if !contains_id(&self.loaded, target.as_str()) {
            proof {
                assert forall|k: int| 0 <= k < lv.len() implies lv[k] != target@ by {
                    assert(lv[k] == self.loaded@[k]@);
                }
            }
            if let Some(reg) = &mut self.registry {
                reg.touch_database(target.as_str(), now_rfc3339());
            }
            self.loaded.push(target.clone());
            assert(self.loaded() =~= lv.push(target@));
        } else {
            proof {
                let k = choose|k: int| 0 <= k < self.loaded@.len() && #[trigger] self.loaded@[k]@ == target@;
                assert(lv[k] == target@);
            }
        }
        Ok(CoreHandle { database_id: target })
    }

    /// Opens the active database.
    pub fn active_core(&mut self) -> (r: Result<CoreHandle, AtomicCoreError>)
        ensures
            final(self).dbs() == old(self).dbs(),
            final(self).active() == old(self).active(),
            final(self).initialized() == old(self).initialized(),
            final(self).passphrase() == old(self).passphrase(),
            final(self).dir() == old(self).dir(),
            !old(self).initialized() ==> (r matches Err(e) && e.kind_of() == ErrorKind::Configuration),
            old(self).initialized() ==> ({
                let target = if is_loaded(old(self).loaded(), old(self).active()) {
                    old(self).active()
                } else {
                    resolve_spec(old(self).dbs(), old(self).active())
                };
                r matches Ok(h) && h.database_id@ == target && final(self).loaded() == with_loaded(
                    old(self).loaded(),
                    target,
                )
            }),
    {
        let id = self.active_id.clone();
        self.get_core(id.as_str())
    }

    /// The active database id.
    pub fn active_id(&self) -> (r: Result<String, AtomicCoreError>)
        ensures
            r matches Ok(id) && id@ == self.active(),
    {
        Ok(self.active_id.clone())
    }

    /// Switches the active database; `NotFound` unless `id` is a registered
    /// id, `Configuration` before setup.
    pub fn set_active(&mut self, id: &str) -> (r: Result<(), AtomicCoreError>)
        ensures
            final(self).dbs() == old(self).dbs(),
            final(self).initialized() == old(self).initialized(),
            final(self).passphrase() == old(self).passphrase(),
            final(self).dir() == old(self).dir(),
            !old(self).initialized() ==> (r matches Err(e) && e.kind_of() == ErrorKind::Configuration
                && final(self).active() == old(self).active()),
            old(self).initialized() && db_index(old(self).dbs(), id@) is None ==> (r matches Err(e)
                && e.kind_of() == ErrorKind::NotFound && e.message() == missing_db_message(id@)
                && final(self).active() == old(self).active() && final(self).loaded() == old(self).loaded()),
            old(self).initialized() && db_index(old(self).dbs(), id@) is Some ==> (r is Ok && final(self).active()
                == id@ && final(self).loaded() == with_loaded(old(self).loaded(), id@)),
    {
        let known = match &self.registry {
            Some(reg) => reg.index_of(id).is_some(),
            None => {
                return Err(Self::not_initialized());
            },
        };
        if !known {
            return Err(Self::missing_database(id));
        }
        let ghost lv = self.loaded();
        let h = self.get_core(id);
        proof {
            if !is_loaded(lv, id@) {
                assert(resolve_spec(self.dbs(), id@) == id@);
            }
        }
        match h {
            Ok(_) => {},
            Err(e) => {
                return Err(e);
            },
        }
        self.active_id = String::from_str(id);
        Ok(())
    }

    /// Registers and opens a new database named `name` under a fresh random
    /// id of 36 characters. `Configuration` before setup; a
    /// `DatabaseOperation` error if the fresh id is already registered, which
    /// cannot happen while no registered id has 36 characters.
    pub fn create_database(&mut self, name: &str) -> (r: Result<DatabaseInfo, AtomicCoreError>)
        ensures
            final(self).active() == old(self).active(),
            final(self).initialized() == old(self).initialized(),
            final(self).passphrase() == old(self).passphrase(),
            final(self).dir() == old(self).dir(),
            (r matches Err(e) && e.kind_of() == ErrorKind::Configuration) <==> !old(self).initialized(),
            !old(self).initialized() ==> (r matches Err(e) && e.message() == not_initialized_message()),
            old(self).initialized() && (forall|k: int|
                0 <= k < old(self).dbs().len() ==> (#[trigger] old(self).dbs()[k]).0.len() != 36) ==> r is Ok,
            old(self).initialized() ==> (r matches Err(e) ==> e.kind_of() == ErrorKind::DatabaseOperation
                && exists|id: Seq<char>| id.len() == 36 && #[trigger] db_index(old(self).dbs(), id) is Some),
            r matches Ok(info) ==> info.id@.len() == 36 && info.name@ == name@ && !info.is_default
                && db_index(old(self).dbs(), info.id@) is None
                && final(self).dbs() == old(self).dbs().push((info.id@, name@, false))
                && db_index(final(self).dbs(), info.id@) == Some(old(self).dbs().len() as int)
                && final(self).loaded() == with_loaded(old(self).loaded(), info.id@),
            r is Err ==> final(self).dbs() == old(self).dbs() && final(self).loaded() == old(self).loaded(),
    {
        let id = new_uuid();
        let now = now_rfc3339();
        let ghost lv = self.loaded();
        let ghost fresh = id@;
        if let Some(reg) = &self.registry {
            proof {
                use_type_invariant(reg);
            }
        }
        let info = match &mut self.registry {
            Some(reg) => match reg.create_database(id, name, now) {
                Ok(info) => {
                    proof {
                        law_create_then_delete_restores(old(self).dbs(), info.id@, info.name@);
                    }
                    info
                },
                Err(e) => {
                    proof {
                        let k = choose|k: int| 0 <= k < old(self).dbs().len() && old(self).dbs()[k].0 == fresh;
                        assert(old(self).dbs()[k].0.len() == 36);
                    }
                    return Err(e);
                },
            },
            None => {
                return Err(Self::not_initialized());
            },
        };
        if !contains_id(&self.loaded, info.id.as_str()) {
            proof {
                assert forall|k: int| 0 <= k < lv.len() implies lv[k] != info.id@ by {
                    assert(lv[k] == self.loaded@[k]@);
                }
            }
            self.loaded.push(info.id.clone());
            assert(self.loaded() =~= lv.push(info.id@));
        } else {
            proof {
                let k = choose|k: int| 0 <= k < self.loaded@.len() && #[trigger] self.loaded@[k]@ == info.id@;
                assert(lv[k] == info.id@);
            }
        }
        Ok(info)
    }

    /// Unregisters a database (never the default one), forgets it as opened,
    /// and makes the default database active if it was the active one.
    /// Removing its files is left to the caller.
    pub fn delete_database(&mut self, id: &str) -> (r: Result<(), AtomicCoreError>)
        ensures
            final(self).initialized() == old(self).initialized(),
            final(self).passphrase() == old(self).passphrase(),
            final(self).dir() == old(self).dir(),
            !old(self).initialized() ==> (r matches Err(e) && e.kind_of() == ErrorKind::Configuration),
            r is Err ==> final(self).dbs() == old(self).dbs() && final(self).active() == old(self).active()
                && final(self).loaded() == old(self).loaded(),
            old(self).initialized() && db_index(old(self).dbs(), id@) is None ==> (r matches Err(e)
                && e.kind_of() == ErrorKind::NotFound),
            old(self).initialized() ==> (db_index(old(self).dbs(), id@) matches Some(k) ==> if old(self).dbs()[k].2 {
                r matches Err(e) && e.kind_of() == ErrorKind::Validation
            } else {
                r is Ok && final(self).dbs() == old(self).dbs().remove(k) && !final(self).loaded().contains(id@)
                    && (forall|x: Seq<char>| x != id@ ==> (final(self).loaded().contains(x) <==> old(self).loaded().contains(x)))
                    && final(self).active() == (if old(self).active() == id@ {
                        default_id(final(self).dbs())
                    } else {
                        old(self).active()
                    })
            }),
    {
        let ghost lv = self.loaded();
        let default_id = match &mut self.registry {
            Some(reg) => {
                match reg.delete_database(id) {
                    Ok(()) => {},
                    Err(e) => {
                        return Err(e);
                    },
                }
                reg.get_default_database_id()
            },
            None => {
                return Err(Self::not_initialized());
            },
        };
        let mut kept: Vec<String> = Vec::new();
        let target = chars_of(id);
        let mut i: usize = 0;
        while i < self.loaded.len()
            invariant
                i <= self.loaded.len(),
                target@ == id@,
                lv == self.loaded(),
                lv.len() == self.loaded@.len(),
                forall|k: int| 0 <= k < kept@.len() ==> #[trigger] kept@[k]@ != id@,
                forall|x: Seq<char>| x != id@ ==> ((exists|k: int| 0 <= k < kept@.len() && #[trigger] kept@[k]@ == x)
                    <==> lv.take(i as int).contains(x)),
            decreases self.loaded.len() - i,
        {
            let c = chars_of(self.loaded[i].as_str());
            let ghost kb = kept@;
            let ghost next = lv.take(i + 1);
            let ghost prev = lv.take(i as int);
            assert(next == prev.push(lv[i as int]));
            assert(lv[i as int] == self.loaded@[i as int]@);
            if !chars_eq(&c, &target) {
                kept.push(self.loaded[i].clone());
                proof {
                    assert forall|x: Seq<char>| x != id@ implies ((exists|k: int| 0 <= k < kept@.len() && #[trigger] kept@[k]@ == x)
                        <==> next.contains(x)) by {
                        if next.contains(x) {
                            if x == lv[i as int] {
                                assert(kept@[kb.len() as int]@ == x);
                            } else {
                                let j = choose|j: int| 0 <= j < next.len() && #[trigger] next[j] == x;
                                assert(prev[j] == x);
                                assert(prev.contains(x));
                                let k = choose|k: int| 0 <= k < kb.len() && #[trigger] kb[k]@ == x;
                                assert(kept@[k] == kb[k]);
                            }
                        }
                        if exists|k: int| 0 <= k < kept@.len() && #[trigger] kept@[k]@ == x {
                            let k = choose|k: int| 0 <= k < kept@.len() && #[trigger] kept@[k]@ == x;
                            if k < kb.len() {
                                assert(kept@[k] == kb[k]);
                                assert(kb[k]@ == x);
                                assert(prev.contains(x));
                                let j = choose|j: int| 0 <= j < prev.len() && #[trigger] prev[j] == x;
                                assert(next[j] == x);
                            } else {
                                assert(next[i as int] == x);
                            }
                        }
                    }
                }
            } else {
                proof {
                    assert forall|x: Seq<char>| x != id@ implies ((exists|k: int| 0 <= k < kept@.len() && #[trigger] kept@[k]@ == x)
                        <==> next.contains(x)) by {
                        if next.contains(x) {
                            let j = choose|j: int| 0 <= j < next.len() && #[trigger] next[j] == x;
                            assert(prev[j] == x);
                        }
                        if prev.contains(x) {
                            let j = choose|j: int| 0 <= j < prev.len() && #[trigger] prev[j] == x;
                            assert(next[j] == x);
                        }
                    }
                }
            }
            i = i + 1;
        }
        assert(lv.take(lv.len() as int) == lv);
        self.loaded = kept;
        proof {
            assert forall|x: Seq<char>| x != id@ implies (self.loaded().contains(x) <==> lv.contains(x)) by {
                if self.loaded().contains(x) {
                    let k = choose|k: int| 0 <= k < self.loaded().len() && #[trigger] self.loaded()[k] == x;
                    assert(self.loaded@[k]@ == x);
                }
                if exists|k: int| 0 <= k < self.loaded@.len() && #[trigger] self.loaded@[k]@ == x {
                    let k = choose|k: int| 0 <= k < self.loaded@.len() && #[trigger] self.loaded@[k]@ == x;
                    assert(self.loaded()[k] == x);
                }
            }
            if self.loaded().contains(id@) {
                let k = choose|k: int| 0 <= k < self.loaded().len() && #[trigger] self.loaded()[k] == id@;
                assert(self.loaded@[k]@ == id@);
            }
        }
        let active = chars_of(self.active_id.as_str());
        if chars_eq(&active, &target) {
            self.active_id = default_id;
        }
        Ok(())
    }

    /// The registered databases and the active id; `Configuration` before
    /// setup.
    pub fn list_databases(&self) -> (r: Result<(Vec<DatabaseInfo>, String), AtomicCoreError>)
        ensures
            !self.initialized() ==> (r matches Err(e) && e.kind_of() == ErrorKind::Configuration),
            self.initialized() ==> (r matches Ok(p) && p.0@ == self.infos() && db_views(p.0@) == self.dbs()
                && registry_wf(self.dbs()) && p.1@ == self.active()),
    {
        match &self.registry {
            Some(reg) => Ok((reg.list_databases(), self.active_id.clone())),
            None => Err(Self::not_initialized()),
        }
    }

    /// Renames a database; `NotFound` for an unknown id, `Configuration`
    /// before setup.
    pub fn rename_database(&mut self, id: &str, name: &str) -> (r: Result<(), AtomicCoreError>)
        ensures
            final(self).initialized() == old(self).initialized(),
            final(self).passphrase() == old(self).passphrase(),
            final(self).dir() == old(self).dir(),
            final(self).active() == old(self).active(),
            final(self).loaded() == old(self).loaded(),
            !old(self).initialized() ==> (r matches Err(e) && e.kind_of() == ErrorKind::Configuration),
            old(self).initialized() && db_index(old(self).dbs(), id@) is None ==> (r matches Err(e)
                && e.kind_of() == ErrorKind::NotFound && final(self).dbs() == old(self).dbs()),
            old(self).initialized() ==> (db_index(old(self).dbs(), id@) matches Some(k) ==> r is Ok
                && final(self).dbs() == old(self).dbs().update(k, (old(self).dbs()[k].0, name@, old(self).dbs()[k].2))),
    {
        match &mut self.registry {
            Some(reg) => reg.rename_database(id, name),
            None => Err(Self::not_initialized()),
        }
    }

    /// Makes a database the default; `NotFound` for an unknown id,
    /// `Configuration` before setup.
    pub fn set_default_database(&mut self, id: &str) -> (r: Result<(), AtomicCoreError>)
        ensures
            final(self).initialized() == old(self).initialized(),
            final(self).passphrase() == old(self).passphrase(),
            final(self).dir() == old(self).dir(),
            final(self).active() == old(self).active(),
            final(self).loaded() == old(self).loaded(),
            !old(self).initialized() ==> (r matches Err(e) && e.kind_of() == ErrorKind::Configuration),
            old(self).initialized() && db_index(old(self).dbs(), id@) is None ==> (r matches Err(e)
                && e.kind_of() == ErrorKind::NotFound && final(self).dbs() == old(self).dbs()),
            old(self).initialized() ==> (db_index(old(self).dbs(), id@) matches Some(k) ==> r is Ok
                && final(self).dbs().len() == old(self).dbs().len() && forall|j: int|
                0 <= j < old(self).dbs().len() ==> #[trigger] final(self).dbs()[j] == (
                    old(self).dbs()[j].0,
                    old(self).dbs()[j].1,
                    j == k,
                )),
    {
        match &mut self.registry {
            Some(reg) => reg.set_default_database(id),
            None => Err(Self::not_initialized()),
        }
    }

    /// The ids of the opened databases, to optimize on shutdown.
    pub fn optimize_all(&self) -> (r: Vec<String>)
        ensures
            r@.map_values(|s: String| s@) == self.loaded(),
    {
        let mut r: Vec<String> = Vec::new();
        let mut i: usize = 0;
        while i < self.loaded.len()
            invariant
                i <= self.loaded.len(),
                r@ == self.loaded@.take(i as int),
            decreases self.loaded.len() - i,
        {
            r.push(self.loaded[i].clone());
            i = i + 1;
        }
        assert(self.loaded@.take(self.loaded@.len() as int) =~= self.loaded@);
        r
    }
}

} // verus!
