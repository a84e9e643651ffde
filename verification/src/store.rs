//! The cache store: one table of per-identity cache entries and one
//! table of deduplicated, content-addressed resource records, with the
//! operations the resolver and the synchronization engine need.

use vstd::prelude::*;
use crate::strutil::opt_str_view;
use crate::strutil::str_eq;

verus! {

/// One cache row: the artifact recorded for an (identity, tier) pair.
pub struct CacheEntry {
    /// 32-character lowercase hexadecimal identity fingerprint.
    pub eid: String,
    /// Rating tier, 0 (most restrictive) to 3.
    pub rating: i8,
    /// Digest of the recorded content, if any was ever found.
    pub sha1: Option<String>,
    /// Explicit storage path override; when absent the path derives
    /// from the digest.
    pub resource: Option<String>,
    /// Pixel dimension recorded at encode time.
    pub size: Option<i32>,
    /// Epoch timestamp of the last synchronization attempt.
    pub last_update: i64,
}

/// Mathematical model of a cache row.
pub struct EntryModel {
    pub eid: Seq<char>,
    pub rating: int,
    pub sha1: Option<Seq<char>>,
    pub resource: Option<Seq<char>>,
    pub size: Option<int>,
    pub last_update: int,
}

impl View for CacheEntry {
    type V = EntryModel;

    open spec fn view(&self) -> EntryModel {
        EntryModel {
            eid: self.eid@,
            rating: self.rating as int,
            sha1: opt_str_view(self.sha1),
            resource: opt_str_view(self.resource),
            size: match self.size {
                Some(n) => Some(n as int),
                None => None,
            },
            last_update: self.last_update as int,
        }
    }
}

/// One deduplicated, content-addressed artifact.
pub struct ResourceRecord {
    /// Digest of the encoded bytes; the primary key.
    pub sha1: String,
    /// Storage-relative path to the bytes.
    pub resource: Option<String>,
    /// Pixel dimension used at encode time.
    pub size: i32,
    /// The remote URL the bytes were fetched from.
    pub origin: String,
}

/// Mathematical model of a resource record.
pub struct RecordModel {
    pub sha1: Seq<char>,
    pub resource: Option<Seq<char>>,
    pub size: int,
    pub origin: Seq<char>,
}

impl View for ResourceRecord {
    type V = RecordModel;

    open spec fn view(&self) -> RecordModel {
        RecordModel {
            sha1: self.sha1@,
            resource: opt_str_view(self.resource),
            size: self.size as int,
            origin: self.origin@,
        }
    }
}

/// The two tables.
pub struct Store {
    pub entries: Vec<CacheEntry>,
    pub resources: Vec<ResourceRecord>,
}

/// Mathematical model of the two tables.
pub struct StoreModel {
    pub entries: Seq<EntryModel>,
    pub resources: Seq<RecordModel>,
}

impl View for Store {
    type V = StoreModel;

    open spec fn view(&self) -> StoreModel {
        StoreModel {
            entries: self.entries@.map_values(|e: CacheEntry| e@),
            resources: self.resources@.map_values(|r: ResourceRecord| r@),
        }
    }
}

/// A row has the given lookup key.
pub open spec fn key_is(e: EntryModel, eid: Seq<char>, rating: int) -> bool {
    e.eid == eid && e.rating == rating
}

/// Some row has the given lookup key.
pub open spec fn has_key(es: Seq<EntryModel>, eid: Seq<char>, rating: int) -> bool {
    exists|i: int| 0 <= i < es.len() && key_is(#[trigger] es[i], eid, rating)
}

/// `(identity, ratingTier)` is the lookup key: no two rows share it,
/// and no two resource records share a digest.
pub open spec fn store_wf(m: StoreModel) -> bool {
    &&& forall|i: int, j: int|
        #![trigger m.entries[i], m.entries[j]]
        0 <= i < j < m.entries.len() ==> !(m.entries[i].eid == m.entries[j].eid
            && m.entries[i].rating == m.entries[j].rating)
    &&& forall|i: int, j: int|
        #![trigger m.resources[i], m.resources[j]]
        0 <= i < j < m.resources.len() ==> m.resources[i].sha1 != m.resources[j].sha1
}

/// Timestamp update, applied to every row with the key.
pub open spec fn touch_all(es: Seq<EntryModel>, eid: Seq<char>, rating: int, now: int) -> Seq<
    EntryModel,
> {
    es.map_values(
        |e: EntryModel|
            if key_is(e, eid, rating) {
                EntryModel { last_update: now, ..e }
            } else {
                e
            },
    )
}

/// Content update, applied to every row with the key: the digest is
/// recorded and the explicit path replaced.
pub open spec fn set_content_all(
    es: Seq<EntryModel>,
    eid: Seq<char>,
    rating: int,
    sha1: Seq<char>,
    resource: Option<Seq<char>>,
) -> Seq<EntryModel> {
    es.map_values(
        |e: EntryModel|
            if key_is(e, eid, rating) {
                EntryModel { sha1: Some(sha1), resource: resource, ..e }
            } else {
                e
            },
    )
}

/// A fresh row for a first-seen key; duplicates are dropped, so a lost
/// insert race is benign.
pub open spec fn insert_entry_model(es: Seq<EntryModel>, eid: Seq<char>, rating: int) -> Seq<
    EntryModel,
> {
    if has_key(es, eid, rating) {
        es
    } else {
        es.push(
            EntryModel {
                eid: eid,
                rating: rating,
                sha1: None,
                resource: None,
                size: None,
                last_update: 0,
            },
        )
    }
}

/// The first record with the given digest, if any.
pub open spec fn find_resource_model(rs: Seq<RecordModel>, sha1: Seq<char>) -> Option<int>
    decreases rs.len(),
{
    if rs.len() == 0 {
        None
    } else if rs[0].sha1 == sha1 {
        Some(0)
    } else {
        match find_resource_model(rs.drop_first(), sha1) {
            Some(i) => Some(i + 1),
            None => None,
        }
    }
}

/// A fresh record for a first-seen digest; duplicates are dropped, so
/// two concurrent synchronizations producing one digest are benign.
pub open spec fn insert_resource_model(rs: Seq<RecordModel>, rec: RecordModel) -> Seq<RecordModel> {
    if find_resource_model(rs, rec.sha1) is Some {
        rs
    } else {
        rs.push(rec)
    }
}

/// The row served for an identity under a rating ceiling: among rows
/// for the identity with tier at or below the ceiling, the one with the
/// highest tier.
pub open spec fn best_match(es: Seq<EntryModel>, eid: Seq<char>, ceiling: int) -> Option<int>
    decreases es.len(),
{
    if es.len() == 0 {
        None
    } else {
        let last = es.len() - 1;
        let fits = es[last].eid == eid && es[last].rating <= ceiling;
        match best_match(es.drop_last(), eid, ceiling) {
            None => if fits {
                Some(last)
            } else {
                None
            },
            Some(i) => if fits && es[last].rating > es[i].rating {
                Some(last)
            } else {
                Some(i)
            },
        }
    }
}

/// What `best_match` promises of its result.
pub proof fn lemma_best_match(es: Seq<EntryModel>, eid: Seq<char>, ceiling: int)
    ensures
        match best_match(es, eid, ceiling) {
            Some(i) => 0 <= i < es.len() && es[i].eid == eid && es[i].rating <= ceiling
                && forall|j: int|
                0 <= j < es.len() && #[trigger] es[j].eid == eid && es[j].rating <= ceiling
                    ==> es[j].rating <= es[i].rating,
            None => forall|j: int|
                0 <= j < es.len() ==> !(#[trigger] es[j].eid == eid && es[j].rating <= ceiling),
        },
    decreases es.len(),
{
    if es.len() > 0 {
        lemma_best_match(es.drop_last(), eid, ceiling);
        assert forall|j: int| 0 <= j < es.len() - 1 implies es.drop_last()[j] == es[j] by {}
    }
}

impl Store {
    /// An empty store: no entries, no records.
    pub fn new() -> (r: Store)
        ensures
            r@.entries == Seq::<EntryModel>::empty(),
            r@.resources == Seq::<RecordModel>::empty(),
    {
        let r = Store { entries: Vec::new(), resources: Vec::new() };
        proof {
            assert(r@.entries =~= Seq::<EntryModel>::empty());
            assert(r@.resources =~= Seq::<RecordModel>::empty());
        }
        r
    }

    /// Point lookup: the entry for this identity with the highest tier
    /// not exceeding the ceiling, if any.
    pub fn lookup(&self, eid: &str, ceiling: i8) -> (r: Option<usize>)
        ensures
            match r {
                Some(i) => i < self.entries.len() && best_match(self@.entries, eid@, ceiling as int)
                    == Some(i as int),
                None => best_match(self@.entries, eid@, ceiling as int) is None,
            },
    {
        let mut best: Option<usize> = None;
        let mut i: usize = 0;
        while i < self.entries.len()
            invariant
                0 <= i <= self.entries.len(),
                self@.entries.len() == self.entries.len(),
                match best {
                    Some(b) => b < i && best_match(
                        self@.entries.subrange(0, i as int),
                        eid@,
                        ceiling as int,
                    ) == Some(b as int),
                    None => best_match(self@.entries.subrange(0, i as int), eid@, ceiling as int)
                        is None,
                },
            decreases self.entries.len() - i,
        {
            proof {
                assert(self@.entries.subrange(0, i + 1 as int).drop_last() =~= self@.entries.subrange(
                    0,
                    i as int,
                ));
                assert(self@.entries[i as int] == self.entries[i as int]@);
            }
            let fits = str_eq(self.entries[i].eid.as_str(), eid) && self.entries[i].rating
                <= ceiling;
            match best {
                None => {
                    if fits {
                        best = Some(i);
                    }
                },
                Some(b) => {
                    if fits && self.entries[i].rating > self.entries[b].rating {
                        best = Some(i);
                    }
                },
            }
            i = i + 1;
        }
        proof {
            assert(self@.entries.subrange(0, self@.entries.len() as int) =~= self@.entries);
        }
        best
    }

    /// Creates the row for a first-seen key, with no content and a
    /// timestamp of zero; a duplicate insert is dropped, so a lost
    /// insert race is benign.
    pub fn insert_entry(&mut self, eid: String, rating: i8)
        ensures
            final(self)@.entries == insert_entry_model(old(self)@.entries, eid@, rating as int),
            final(self)@.resources == old(self)@.resources,
    {
        let mut i: usize = 0;
        while i < self.entries.len()
            invariant
                0 <= i <= self.entries.len(),
                self@.entries.len() == self.entries.len(),
                forall|j: int|
                    0 <= j < i ==> !key_is(#[trigger] self@.entries[j], eid@, rating as int),
            decreases self.entries.len() - i,
        {
            proof {
                assert(self@.entries[i as int] == self.entries[i as int]@);
            }
            if str_eq(self.entries[i].eid.as_str(), eid.as_str()) && self.entries[i].rating
                == rating {
                proof {
                    assert(key_is(self@.entries[i as int], eid@, rating as int));
                    assert(has_key(self@.entries, eid@, rating as int));
                }
                return ;
            }
            i = i + 1;
        }
        proof {
            assert(!has_key(self@.entries, eid@, rating as int));
        }
        let e = CacheEntry {
            eid: eid,
            rating: rating,
            sha1: None,
            resource: None,
            size: None,
            last_update: 0,
        };
        let ghost old_entries = self@.entries;
        let ghost em = e@;
        self.entries.push(e);
        proof {
            assert(self@.entries =~= old_entries.push(em));
            assert(self@.resources =~= old(self)@.resources);
        }
    }

    /// Sets the synchronization timestamp on every row with the key.
    pub fn touch(&mut self, eid: &str, rating: i8, now: i64)
        ensures
            final(self)@.entries == touch_all(old(self)@.entries, eid@, rating as int, now as int),
            final(self)@.resources == old(self)@.resources,
    {
        let ghost orig = self@.entries;
        let mut i: usize = 0;
        while i < self.entries.len()
            invariant
                0 <= i <= self.entries.len(),
                self.entries.len() == orig.len(),
                self@.entries.len() == orig.len(),
                forall|j: int|
                    i <= j < orig.len() ==> #[trigger] self@.entries[j] == orig[j],
                forall|j: int|
                    0 <= j < i ==> #[trigger] self@.entries[j] == (if key_is(
                        orig[j],
                        eid@,
                        rating as int,
                    ) {
                        EntryModel { last_update: now as int, ..orig[j] }
                    } else {
                        orig[j]
                    }),
                self.resources@ == old(self).resources@,
            decreases self.entries.len() - i,
        {
            proof {
                assert(self@.entries[i as int] == self.entries[i as int]@);
            }
            if str_eq(self.entries[i].eid.as_str(), eid) && self.entries[i].rating == rating {
                let e = CacheEntry {
                    eid: self.entries[i].eid.clone(),
                    rating: self.entries[i].rating,
                    sha1: clone_opt_string(&self.entries[i].sha1),
                    resource: clone_opt_string(&self.entries[i].resource),
                    size: self.entries[i].size,
                    last_update: now,
                };
                proof {
                    assert(e@ == EntryModel { last_update: now as int, ..orig[i as int] });
                }
                let ghost prev = self@.entries;
                let ghost em = e@;
                self.entries[i] = e;
                proof {
                    assert forall|j: int| 0 <= j < prev.len() implies self@.entries[j] == (if j
                        == i as int {
                        em
                    } else {
                        prev[j]
                    }) by {
                        assert(self@.entries[j] == self.entries@[j]@);
                    }
                }
            }
            i = i + 1;
        }
        proof {
            assert(self@.entries =~= touch_all(orig, eid@, rating as int, now as int));
        }
    }

    /// Records the digest (and the explicit path, when the record gives
    /// one) on every row with the key.
    pub fn set_content(&mut self, eid: &str, rating: i8, sha1: &String, resource: &Option<String>)
        ensures
            final(self)@.entries == set_content_all(
                old(self)@.entries,
                eid@,
                rating as int,
                sha1@,
                opt_str_view(*resource),
            ),
            final(self)@.resources == old(self)@.resources,
    {
        let ghost orig = self@.entries;
        let mut i: usize = 0;
        while i < self.entries.len()
            invariant
                0 <= i <= self.entries.len(),
                self.entries.len() == orig.len(),
                self@.entries.len() == orig.len(),
                forall|j: int|
                    i <= j < orig.len() ==> #[trigger] self@.entries[j] == orig[j],
                forall|j: int|
                    0 <= j < i ==> #[trigger] self@.entries[j] == (if key_is(
                        orig[j],
                        eid@,
                        rating as int,
                    ) {
                        EntryModel {
                            sha1: Some(sha1@),
                            resource: opt_str_view(*resource),
                            ..orig[j]
                        }
                    } else {
                        orig[j]
                    }),
                self.resources@ == old(self).resources@,
            decreases self.entries.len() - i,
        {
            proof {
                assert(self@.entries[i as int] == self.entries[i as int]@);
            }
            if str_eq(self.entries[i].eid.as_str(), eid) && self.entries[i].rating == rating {
                let e = CacheEntry {
                    eid: self.entries[i].eid.clone(),
                    rating: self.entries[i].rating,
                    sha1: Some(sha1.clone()),
                    resource: clone_opt_string(resource),
                    size: self.entries[i].size,
                    last_update: self.entries[i].last_update,
                };
                proof {
                    assert(e@ == EntryModel {
                        sha1: Some(sha1@),
                        resource: opt_str_view(*resource),
                        ..orig[i as int]
                    });
                }
                let ghost prev = self@.entries;
                let ghost em = e@;
                self.entries[i] = e;
                proof {
                    assert forall|j: int| 0 <= j < prev.len() implies self@.entries[j] == (if j
                        == i as int {
                        em
                    } else {
                        prev[j]
                    }) by {
                        assert(self@.entries[j] == self.entries@[j]@);
                    }
                }
            }
            i = i + 1;
        }
        proof {
            assert(self@.entries =~= set_content_all(
                orig,
                eid@,
                rating as int,
                sha1@,
                opt_str_view(*resource),
            ));
        }
    }

    /// Point lookup on the resource table by digest.
    pub fn find_resource(&self, sha1: &str) -> (r: Option<usize>)
        ensures
            match r {
                Some(i) => i < self.resources.len() && find_resource_model(self@.resources, sha1@)
                    == Some(i as int),
                None => find_resource_model(self@.resources, sha1@) is None,
            },
    {
        let mut i: usize = 0;
        while i < self.resources.len()
            invariant
                0 <= i <= self.resources.len(),
                self@.resources.len() == self.resources.len(),
                forall|j: int| 0 <= j < i ==> #[trigger] self@.resources[j].sha1 != sha1@,
                find_first_from(self@.resources, sha1@, i as int),
            decreases self.resources.len() - i,
        {
            proof {
                assert(self@.resources[i as int] == self.resources[i as int]@);
            }
            if str_eq(self.resources[i].sha1.as_str(), sha1) {
                proof {
                    lemma_find_first_from(self@.resources, sha1@, i as int);
                }
                return Some(i);
            }
            i = i + 1;
        }
        proof {
            lemma_find_none(self@.resources, sha1@);
        }
        None
    }

    /// Inserts a record for a first-seen digest; a duplicate insert is
    /// dropped, so a lost race with a concurrent synchronization
    /// producing the same digest is benign.
    pub fn insert_resource(&mut self, rec: ResourceRecord)
        ensures
            final(self)@.resources == insert_resource_model(old(self)@.resources, rec@),
            final(self)@.entries == old(self)@.entries,
    {
        let existing = self.find_resource(rec.sha1.as_str());
        match existing {
            Some(_) => {},
            None => {
                let ghost old_resources = self@.resources;
                let ghost rm = rec@;
                self.resources.push(rec);
                proof {
                    assert(self@.resources =~= old_resources.push(rm));
                    assert(self@.entries =~= old(self)@.entries);
                }
            },
        }
    }
}

/// A content-equal copy of an optional string.
pub fn clone_opt_string(v: &Option<String>) -> (r: Option<String>)
    ensures
        opt_str_view(r) == opt_str_view(*v),
{
    match v {
        Some(s) => Some(s.clone()),
        None => None,
    }
}

/// No record below `from` holds the digest, so a find that starts at
/// zero agrees with one that starts at `from`.
pub open spec fn find_first_from(rs: Seq<RecordModel>, sha1: Seq<char>, from: int) -> bool {
    forall|j: int| 0 <= j < from ==> #[trigger] rs[j].sha1 != sha1
}

/// When nothing before `at` matches and `at` does, the model find
/// returns `at`.
proof fn lemma_find_first_from(rs: Seq<RecordModel>, sha1: Seq<char>, at: int)
    requires
        0 <= at < rs.len(),
        rs[at].sha1 == sha1,
        forall|j: int| 0 <= j < at ==> #[trigger] rs[j].sha1 != sha1,
    ensures
        find_resource_model(rs, sha1) == Some(at),
    decreases rs.len(),
{
    if at == 0 {
    } else {
        assert(rs.drop_first()[at - 1] == rs[at]);
        assert forall|j: int| 0 <= j < at - 1 implies #[trigger] rs.drop_first()[j].sha1 != sha1 by {
            assert(rs.drop_first()[j] == rs[j + 1]);
        }
        lemma_find_first_from(rs.drop_first(), sha1, at - 1);
    }
}

/// When no record matches, the model find returns nothing.
proof fn lemma_find_none(rs: Seq<RecordModel>, sha1: Seq<char>)
    requires
        forall|j: int| 0 <= j < rs.len() ==> #[trigger] rs[j].sha1 != sha1,
    ensures
        find_resource_model(rs, sha1) is None,
    decreases rs.len(),
{
    if rs.len() > 0 {
        assert forall|j: int| 0 <= j < rs.drop_first().len() implies #[trigger] rs.drop_first()[j].sha1
            != sha1 by {
            assert(rs.drop_first()[j] == rs[j + 1]);
        }
        lemma_find_none(rs.drop_first(), sha1);
    }
}

} // verus!
