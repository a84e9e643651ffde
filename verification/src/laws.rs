//! What always holds of the engine: rejection without effect,
//! case-insensitive resolution, idempotent synchronization,
//! content deduplication, and preservation of the store's keys.

use vstd::prelude::*;
use crate::digest::spec_digest;
use crate::identity::is_hex_id;
use crate::identity::lower_hex;
use crate::resolver::spec_resolve;
use crate::resolver::ResponseModel;
use crate::storage::FileModel;
use crate::store::find_resource_model;
use crate::store::has_key;
use crate::store::key_is;
use crate::store::store_wf;
use crate::store::touch_all;
use crate::store::RecordModel;
use crate::store::StoreModel;
use crate::sync::spec_sync;

verus! {

/// A find that returns an index has found the digest there; one that
/// returns nothing has no record with the digest anywhere.
pub proof fn lemma_find_resource_complete(rs: Seq<RecordModel>, sha1: Seq<char>)
    ensures
        match find_resource_model(rs, sha1) {
            Some(i) => 0 <= i < rs.len() && rs[i].sha1 == sha1,
            None => forall|j: int| 0 <= j < rs.len() ==> #[trigger] rs[j].sha1 != sha1,
        },
    decreases rs.len(),
{
    if rs.len() > 0 && rs[0].sha1 != sha1 {
        lemma_find_resource_complete(rs.drop_first(), sha1);
        match find_resource_model(rs.drop_first(), sha1) {
            Some(i) => {
                assert(rs.drop_first()[i] == rs[i + 1]);
            },
            None => {
                assert forall|j: int| 0 <= j < rs.len() implies #[trigger] rs[j].sha1 != sha1 by {
                    if j > 0 {
                        assert(rs.drop_first()[j - 1] == rs[j]);
                        assert(rs.drop_first()[j - 1].sha1 != sha1);
                    }
                }
            },
        }
    }
}

/// Appending a record with a fresh digest makes it findable.
pub proof fn lemma_find_resource_push(rs: Seq<RecordModel>, rec: RecordModel)
    requires
        find_resource_model(rs, rec.sha1) is None,
    ensures
        find_resource_model(rs.push(rec), rec.sha1) == Some(rs.len() as int),
    decreases rs.len(),
{
    if rs.len() == 0 {
        assert(rs.push(rec)[0] == rec);
    } else {
        assert(rs.push(rec)[0] == rs[0]);
        assert(rs.push(rec).drop_first() =~= rs.drop_first().push(rec));
        lemma_find_resource_push(rs.drop_first(), rec);
    }
}

/// A malformed identifier is rejected with a diagnostic before any
/// lookup: the store and the files are untouched.
pub proof fn lemma_reject_without_effect(
    m: StoreModel,
    fs: Seq<FileModel>,
    id: Seq<char>,
    selector: Option<Seq<char>>,
    now: int,
    encoded: Option<Seq<u8>>,
)
    requires
        !is_hex_id(id),
    ensures
        ({
            let o = spec_resolve(m, fs, id, selector, now, encoded);
            o.store == m && o.files == fs && o.response == ResponseModel::Diagnostic(
                "What!\n"@ + id,
            )
        }),
{
}

/// Resolution is case-insensitive: two well-formed identifiers with the
/// same lowercase form resolve identically, against any store, clock
/// and remote content.
pub proof fn lemma_resolve_case_insensitive(
    m: StoreModel,
    fs: Seq<FileModel>,
    a: Seq<char>,
    b: Seq<char>,
    selector: Option<Seq<char>>,
    now: int,
    encoded: Option<Seq<u8>>,
)
    requires
        is_hex_id(a),
        is_hex_id(b),
        lower_hex(a) == lower_hex(b),
    ensures
        spec_resolve(m, fs, a, selector, now, encoded) == spec_resolve(
            m,
            fs,
            b,
            selector,
            now,
            encoded,
        ),
{
}

/// A fresh hit makes no remote call: when the served entry is not
/// stale, resolution does not depend on what the remote would return.
pub proof fn lemma_fresh_hit_ignores_remote(
    m: StoreModel,
    fs: Seq<FileModel>,
    id: Seq<char>,
    selector: Option<Seq<char>>,
    now: int,
    e1: Option<Seq<u8>>,
    e2: Option<Seq<u8>>,
)
    requires
        is_hex_id(id),
        ({
            let found = crate::store::best_match(
                m.entries,
                lower_hex(id),
                crate::rating::spec_rating_of(selector),
            );
            found matches Some(i) && !crate::sync::spec_is_stale(m.entries[i].last_update, now)
        }),
    ensures
        spec_resolve(m, fs, id, selector, now, e1) == spec_resolve(m, fs, id, selector, now, e2),
{
}

/// Synchronizing when the recorded digest already equals the content's
/// digest alters nothing but the staleness clock: no content hash, no
/// path, no record, no file, and no path is returned.
pub proof fn lemma_sync_unchanged_content(
    m: StoreModel,
    fs: Seq<FileModel>,
    eid: Seq<char>,
    rating: int,
    now: int,
    avif: Seq<u8>,
)
    ensures
        ({
            let o = spec_sync(m, fs, eid, rating, Some(spec_digest(avif)), now, Some(avif));
            o.store.entries == touch_all(m.entries, eid, rating, now) && o.store.resources
                == m.resources && o.files == fs && o.path is None
        }),
{
}

/// A synchronization that runs to completion records the content's
/// digest on every row with the key, and leaves a record with that
/// digest findable.
pub proof fn lemma_sync_records_digest(
    m: StoreModel,
    fs: Seq<FileModel>,
    eid: Seq<char>,
    rating: int,
    origin_hash: Option<Seq<char>>,
    now: int,
    avif: Seq<u8>,
)
    requires
        origin_hash != Some(spec_digest(avif)),
    ensures
        ({
            let o = spec_sync(m, fs, eid, rating, origin_hash, now, Some(avif));
            &&& forall|i: int|
                0 <= i < o.store.entries.len() && key_is(
                    #[trigger] o.store.entries[i],
                    eid,
                    rating,
                ) ==> o.store.entries[i].sha1 == Some(spec_digest(avif))
            &&& find_resource_model(o.store.resources, spec_digest(avif)) is Some
        }),
{
    let digest = spec_digest(avif);
    let m1 = StoreModel { entries: touch_all(m.entries, eid, rating, now), ..m };
    match find_resource_model(m1.resources, digest) {
        Some(i) => {},
        None => {
            let path = digest + ".avif"@;
            let rec = RecordModel {
                sha1: digest,
                resource: Some(path),
                size: 512,
                origin: crate::sync::provider_url(eid, rating),
            };
            lemma_find_resource_push(m1.resources, rec);
        },
    }
}

/// Synchronizing twice with unchanged remote content: the second run
/// alters neither content hash nor path of any row, duplicates no
/// record and rewrites no file; only the staleness clock advances.
pub proof fn lemma_sync_idempotent(
    m: StoreModel,
    fs: Seq<FileModel>,
    eid: Seq<char>,
    rating: int,
    origin_hash: Option<Seq<char>>,
    now1: int,
    now2: int,
    avif: Seq<u8>,
)
    requires
        origin_hash != Some(spec_digest(avif)),
    ensures
        ({
            let o1 = spec_sync(m, fs, eid, rating, origin_hash, now1, Some(avif));
            let o2 = spec_sync(
                o1.store,
                o1.files,
                eid,
                rating,
                Some(spec_digest(avif)),
                now2,
                Some(avif),
            );
            o2.store.entries == touch_all(o1.store.entries, eid, rating, now2)
                && o2.store.resources == o1.store.resources && o2.files == o1.files
                && o2.path is None
        }),
{
}

/// Deduplication: when a second identity synchronizes content with the
/// same digest, no new record and no new file appear; both identities'
/// rows reference the one digest.
pub proof fn lemma_sync_dedup(
    m: StoreModel,
    fs: Seq<FileModel>,
    eid1: Seq<char>,
    rating1: int,
    eid2: Seq<char>,
    rating2: int,
    now1: int,
    now2: int,
    avif: Seq<u8>,
)
    requires
        eid1 != eid2,
    ensures
        ({
            let o1 = spec_sync(m, fs, eid1, rating1, None, now1, Some(avif));
            let o2 = spec_sync(o1.store, o1.files, eid2, rating2, None, now2, Some(avif));
            &&& o2.store.resources == o1.store.resources
            &&& o2.files == o1.files
            &&& forall|i: int|
                0 <= i < o2.store.entries.len() && (key_is(#[trigger] o2.store.entries[i], eid1, rating1)
                    || key_is(o2.store.entries[i], eid2, rating2)) ==> o2.store.entries[i].sha1
                    == Some(spec_digest(avif))
        }),
{
    let digest = spec_digest(avif);
    let o1 = spec_sync(m, fs, eid1, rating1, None, now1, Some(avif));
    lemma_sync_records_digest(m, fs, eid1, rating1, None, now1, avif);
    let o2 = spec_sync(o1.store, o1.files, eid2, rating2, None, now2, Some(avif));
    lemma_sync_records_digest(o1.store, o1.files, eid2, rating2, None, now2, avif);
    lemma_find_resource_complete(o1.store.resources, digest);
}

/// Uniqueness of keys and digests survives synchronization.
pub proof fn lemma_sync_preserves_wf(
    m: StoreModel,
    fs: Seq<FileModel>,
    eid: Seq<char>,
    rating: int,
    origin_hash: Option<Seq<char>>,
    now: int,
    encoded: Option<Seq<u8>>,
)
    requires
        store_wf(m),
    ensures
        store_wf(spec_sync(m, fs, eid, rating, origin_hash, now, encoded).store),
{
    let o = spec_sync(m, fs, eid, rating, origin_hash, now, encoded);
    match encoded {
        None => {},
        Some(avif) => {
            let digest = spec_digest(avif);
            let m1 = StoreModel { entries: touch_all(m.entries, eid, rating, now), ..m };
            if origin_hash != Some(digest) && find_resource_model(m1.resources, digest) is None {
                lemma_find_resource_complete(m1.resources, digest);
            }
        },
    }
}

/// Uniqueness of keys and digests survives resolution.
pub proof fn lemma_resolve_preserves_wf(
    m: StoreModel,
    fs: Seq<FileModel>,
    id: Seq<char>,
    selector: Option<Seq<char>>,
    now: int,
    encoded: Option<Seq<u8>>,
)
    requires
        store_wf(m),
    ensures
        store_wf(spec_resolve(m, fs, id, selector, now, encoded).store),
{
    if is_hex_id(id) {
        let eid = lower_hex(id);
        let ceiling = crate::rating::spec_rating_of(selector);
        match crate::store::best_match(m.entries, eid, ceiling) {
            Some(i) => {
                let e = m.entries[i];
                if crate::sync::spec_is_stale(e.last_update, now) {
                    lemma_sync_preserves_wf(m, fs, eid, e.rating, e.sha1, now, encoded);
                }
            },
            None => {
                let m1 = StoreModel {
                    entries: crate::store::insert_entry_model(m.entries, eid, 3),
                    ..m
                };
                assert(store_wf(m1)) by {
                    if !has_key(m.entries, eid, 3) {
                        assert forall|i: int, j: int|
                            0 <= i < j < m1.entries.len() implies !(m1.entries[i].eid
                            == m1.entries[j].eid && m1.entries[i].rating
                            == m1.entries[j].rating) by {
                            if j < m.entries.len() {
                            } else {
                                assert(m1.entries[j] == m1.entries.last());
                                if m1.entries[i].eid == eid && m1.entries[i].rating == 3 {
                                    assert(key_is(m.entries[i], eid, 3));
                                    assert(has_key(m.entries, eid, 3));
                                }
                            }
                        }
                    }
                }
                lemma_sync_preserves_wf(m1, fs, eid, ceiling, None, now, encoded);
            },
        }
    }
}

} // verus!
