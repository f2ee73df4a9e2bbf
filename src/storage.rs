//! The persisted instance records: one map from id to record, kept in memory
//! and rewritten as a whole to its file by the caller.

use vstd::prelude::*;

use crate::config::Config;
use crate::instance::StoredInstance;

verus! {

/// Why reading or writing the store failed.
#[derive(Debug)]
pub enum Error {
    /// An I/O failure, with its message.
    Io(String),
    /// The path names a directory.
    FoundDirectory(String),
    JsonDecode(String),
    JsonEncode(String),
    /// The configuration names no path for the store.
    NoStoragePath,
}

impl Clone for Error {
    fn clone(&self) -> (r: Self)
        ensures
            r == *self,
    {
        match self {
            Error::Io(s) => Error::Io(s.clone()),
            Error::FoundDirectory(s) => Error::FoundDirectory(s.clone()),
            Error::JsonDecode(s) => Error::JsonDecode(s.clone()),
            Error::JsonEncode(s) => Error::JsonEncode(s.clone()),
            Error::NoStoragePath => Error::NoStoragePath,
        }
    }
}

/// Ids are unique in `ids`.
pub open spec fn unique(ids: Seq<Seq<char>>) -> bool {
    forall|i: int, j: int| 0 <= i < ids.len() && 0 <= j < ids.len() && ids[i] == ids[j] ==> i == j
}

/// The position of `id` in `ids`, or -1 where it is absent.
pub open spec fn find_index(ids: Seq<Seq<char>>, id: Seq<char>) -> int {
    if ids.contains(id) {
        choose|i: int| 0 <= i < ids.len() && ids[i] == id
    } else {
        -1
    }
}

/// With unique ids, the position of an id is where it stands.
pub proof fn lemma_find_index(ids: Seq<Seq<char>>, i: int)
    requires
        unique(ids),
        0 <= i < ids.len(),
    ensures
        find_index(ids, ids[i]) == i,
{
    assert(ids.contains(ids[i]));
}

/// Where `id` is absent, its position is -1; where present, it stands there.
pub proof fn lemma_find_index_range(ids: Seq<Seq<char>>, id: Seq<char>)
    ensures
        -1 <= find_index(ids, id) < ids.len(),
        find_index(ids, id) >= 0 ==> ids[find_index(ids, id)] == id,
        find_index(ids, id) == -1 <==> !ids.contains(id),
{
}

/// Ids stay unique when one more that is absent joins them.
pub proof fn lemma_unique_push(ids: Seq<Seq<char>>, id: Seq<char>)
    requires
        unique(ids),
        !ids.contains(id),
    ensures
        unique(ids.push(id)),
{
    let n = ids.push(id);
    assert forall|a: int, b: int| 0 <= a < n.len() && 0 <= b < n.len() && n[a] == n[b] implies a == b by {
        if a < ids.len() && b == ids.len() {
            assert(ids[a] == id);
        }
        if b < ids.len() && a == ids.len() {
            assert(ids[b] == id);
        }
    }
}

/// Ids stay unique when one of them leaves.
pub proof fn lemma_unique_remove(ids: Seq<Seq<char>>, i: int)
    requires
        unique(ids),
        0 <= i < ids.len(),
    ensures
        unique(ids.remove(i)),
{
    let n = ids.remove(i);
    assert forall|a: int, b: int| 0 <= a < n.len() && 0 <= b < n.len() && n[a] == n[b] implies a == b by {
        let oa = if a < i { a } else { a + 1 };
        let ob = if b < i { b } else { b + 1 };
        assert(ids[oa] == n[a]);
        assert(ids[ob] == n[b]);
    }
}

/// The ids of a list of records.
pub open spec fn record_ids(recs: Seq<(String, StoredInstance)>) -> Seq<Seq<char>> {
    recs.map_values(|r: (String, StoredInstance)| r.0@)
}

/// The position of the first record with id `id`, by a scan.
pub fn find_record(recs: &Vec<(String, StoredInstance)>, id: &String) -> (r: Option<usize>)
    requires
        unique(record_ids(recs@)),
    ensures
        match r {
            Some(i) => i < recs@.len() && find_index(record_ids(recs@), id@) == i,
            None => find_index(record_ids(recs@), id@) == -1,
        },
{
    let mut i: usize = 0;
    while i < recs.len()
        invariant
            0 <= i <= recs@.len(),
            unique(record_ids(recs@)),
            forall|j: int| 0 <= j < i ==> recs@[j].0@ != id@,
        decreases recs.len() - i,
    {
        if recs[i].0.eq(id) {
            proof {
                lemma_find_index(record_ids(recs@), i as int);
                assert(record_ids(recs@)[i as int] == id@);
            }
            return Some(i);
        }
        i += 1;
    }
    proof {
        lemma_find_index_range(record_ids(recs@), id@);
        if record_ids(recs@).contains(id@) {
            let k = choose|k: int| 0 <= k < record_ids(recs@).len() && record_ids(recs@)[k] == id@;
            assert(recs@[k].0@ == id@);
        }
    }
    None
}

/// A copy of a list of records, equal to it.
pub fn clone_records(recs: &Vec<(String, StoredInstance)>) -> (r: Vec<(String, StoredInstance)>)
    ensures
        r@ == recs@,
{
    let mut out: Vec<(String, StoredInstance)> = Vec::new();
    let mut i: usize = 0;
    while i < recs.len()
        invariant
            0 <= i <= recs@.len(),
            out@ == recs@.subrange(0, i as int),
        decreases recs.len() - i,
    {
        out.push((recs[i].0.clone(), recs[i].1.clone()));
        i += 1;
        proof {
            assert(out@ =~= recs@.subrange(0, i as int));
        }
    }
    assert(out@ =~= recs@);
    out
}

/// The store of instance records, as one map from id to record that the
/// caller rewrites to `path` as a whole.
pub struct JsonStorageProvider {
    path: String,
    instances: Vec<(String, StoredInstance)>,
}

impl JsonStorageProvider {
    /// The records, in the order in which their ids were first stored.
    pub closed spec fn records(&self) -> Seq<(String, StoredInstance)> {
        self.instances@
    }

    /// The file that holds the records.
    pub closed spec fn file_path(&self) -> Seq<char> {
        self.path@
    }

    /// Each id stands in one record at most.
    pub open spec fn wf(&self) -> bool {
        unique(record_ids(self.records()))
    }

    /// The record stored under `id`, if any.
    pub open spec fn lookup(&self, id: Seq<char>) -> Option<StoredInstance> {
        let i = find_index(record_ids(self.records()), id);
        if i >= 0 {
            Some(self.records()[i].1)
        } else {
            None
        }
    }

    /// An empty store at the configured path; `NoStoragePath` where the
    /// configuration names none.
    pub fn new(config: Config) -> (r: Result<Self, Error>)
        ensures
            match r {
                Ok(s) => config.storage.path is Some && s.wf() && s.records().len() == 0
                    && s.file_path() == config.storage.path->Some_0@,
                Err(e) => config.storage.path is None && e == Error::NoStoragePath,
            },
    {
        match config.storage.path {
            Some(path) => Ok(JsonStorageProvider { path, instances: Vec::new() }),
            None => Err(Error::NoStoragePath),
        }
    }

    /// The file that holds the records.
    pub fn path(&self) -> (r: &String)
        ensures
            r@ == self.file_path(),
    {
        &self.path
    }

    /// All records, in store order.
    pub fn list_instances(&self) -> (r: Vec<(String, StoredInstance)>)
        ensures
            r@ == self.records(),
    {
        clone_records(&self.instances)
    }

    /// Stores `inst` under `id`, replacing the record there is.
    pub fn new_instance(&mut self, id: String, inst: StoredInstance)
        requires
            old(self).wf(),
        ensures
            final(self).wf(),
            final(self).file_path() == old(self).file_path(),
            ({
                let i = find_index(record_ids(old(self).records()), id@);
                if i >= 0 {
                    final(self).records() == old(self).records().update(
                        i,
                        (old(self).records()[i].0, inst),
                    )
                } else {
                    final(self).records() == old(self).records().push((id, inst))
                }
            }),
    {
        match find_record(&self.instances, &id) {
            Some(i) => {
                let key = self.instances[i].0.clone();
                self.instances.set(i, (key, inst));
                proof {
                    assert(record_ids(self.instances@) =~= record_ids(old(self).instances@));
                }
            },
            None => {
                proof {
                    lemma_find_index_range(record_ids(self.instances@), id@);
                }
                self.instances.push((id, inst));
                proof {
                    assert(record_ids(self.instances@) =~= record_ids(old(self).instances@).push(id@));
                    lemma_unique_push(record_ids(old(self).instances@), id@);
                }
            },
        }
    }

    /// A copy of the record stored under `id`.
    pub fn get_instance(&self, id: &String) -> (r: Option<StoredInstance>)
        requires
            self.wf(),
        ensures
            r == self.lookup(id@),
    {
        match find_record(&self.instances, id) {
            Some(i) => Some(self.instances[i].1.clone()),
            None => None,
        }
    }

    /// Removes the record stored under `id`; whether there was one.
    pub fn del_instance(&mut self, id: &String) -> (r: bool)
        requires
            old(self).wf(),
        ensures
            final(self).wf(),
            final(self).file_path() == old(self).file_path(),
            r == (find_index(record_ids(old(self).records()), id@) >= 0),
            r ==> final(self).records() == old(self).records().remove(
                find_index(record_ids(old(self).records()), id@),
            ),
            !r ==> final(self).records() == old(self).records(),
    {
        match find_record(&self.instances, id) {
            Some(i) => {
                self.instances.remove(i);
                proof {
                    assert(record_ids(self.instances@) =~= record_ids(old(self).instances@).remove(i as int));
                    lemma_unique_remove(record_ids(old(self).instances@), i as int);
                }
                true
            },
            None => false,
        }
    }

    /// Replaces every record with those read from the file, a later record
    /// of an id replacing an earlier one.
    pub fn load(&mut self, recs: Vec<(String, StoredInstance)>)
        ensures
            final(self).wf(),
            final(self).file_path() == old(self).file_path(),
            forall|k: int| 0 <= k < recs@.len() ==> record_ids(final(self).records()).contains(
                #[trigger] recs@[k].0@,
            ),
            forall|k: int| 0 <= k < final(self).records().len() ==> record_ids(recs@).contains(
                #[trigger] final(self).records()[k].0@,
            ),
            unique(record_ids(recs@)) ==> final(self).records() == recs@,
    {
        self.instances = Vec::new();
        let mut k: usize = 0;
        while k < recs.len()
            invariant
                0 <= k <= recs@.len(),
                self.wf(),
                self.file_path() == old(self).file_path(),
                forall|m: int| 0 <= m < k ==> record_ids(self.records()).contains(
                    #[trigger] recs@[m].0@,
                ),
                forall|m: int| 0 <= m < self.records().len() ==> record_ids(recs@).contains(
                    #[trigger] self.records()[m].0@,
                ),
                unique(record_ids(recs@)) ==> self.records() == recs@.subrange(0, k as int),
            decreases recs.len() - k,
        {
            let (id, rec) = (recs[k].0.clone(), recs[k].1.clone());
            let ghost before = self.records();
            proof {
                if unique(record_ids(recs@)) {
                    let key = recs@[k as int].0@;
                    if record_ids(before).contains(key) {
                        let w = choose|w: int| 0 <= w < record_ids(before).len() && record_ids(before)[w] == key;
                        assert(record_ids(recs@)[w] == record_ids(recs@)[k as int]);
                    }
                    lemma_find_index_range(record_ids(before), key);
                }
            }
            self.new_instance(id, rec);
            proof {
                if unique(record_ids(recs@)) {
                    assert(self.records() =~= recs@.subrange(0, k + 1));
                }
                let i = find_index(record_ids(before), recs@[k as int].0@);
                lemma_find_index_range(record_ids(before), recs@[k as int].0@);
                assert(record_ids(recs@)[k as int] == recs@[k as int].0@);
                assert forall|m: int| 0 <= m <= k implies record_ids(self.records()).contains(
                    #[trigger] recs@[m].0@,
                ) by {
                    if m < k {
                        let w = choose|w: int| 0 <= w < record_ids(before).len() && record_ids(before)[w] == recs@[m].0@;
                        assert(record_ids(self.records())[w] == recs@[m].0@);
                    } else if i >= 0 {
                        assert(record_ids(self.records())[i] == recs@[m].0@);
                    } else {
                        assert(record_ids(self.records())[before.len() as int] == recs@[m].0@);
                    }
                }
                assert forall|m: int| 0 <= m < self.records().len() implies record_ids(recs@).contains(
                    #[trigger] self.records()[m].0@,
                ) by {
                    if m < before.len() {
                        assert(self.records()[m].0 == before[m].0);
                        assert(record_ids(recs@).contains(before[m].0@));
                    }
                }
            }
            k += 1;
        }
        proof {
            assert(recs@.subrange(0, recs@.len() as int) =~= recs@);
        }
    }
}

} // verus!
