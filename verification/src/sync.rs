//! The synchronization engine: advance the entry's staleness clock,
//! transcode the freshly fetched content, digest it, deduplicate it
//! against the resource table, and persist new content.

use vstd::prelude::*;
use crate::digest::digest_hex;
use crate::digest::spec_digest;
use crate::rating::get_rating;
use crate::rating::spec_rating_code;
use crate::storage::write_file_model;
use crate::storage::FileModel;
use crate::storage::Storage;
use crate::store::clone_opt_string;
use crate::store::find_resource_model;
use crate::store::insert_resource_model;
use crate::store::set_content_all;
use crate::store::touch_all;
use crate::store::RecordModel;
use crate::store::ResourceRecord;
use crate::store::Store;
use crate::store::StoreModel;
use crate::strutil::opt_str_view;
use crate::strutil::str_eq;
use crate::transcode::avif_transcode;
use crate::transcode::opt_bytes_view;
use crate::transcode::transcode_to_avif;

verus! {

/// The freshness window, in seconds.
pub open spec fn staleness_window() -> int {
    86400
}

/// An entry is stale when its last synchronization attempt lies more
/// than the freshness window in the past.
pub open spec fn spec_is_stale(last_update: int, now: int) -> bool {
    now - last_update > staleness_window()
}

/// The staleness decision, over the raw timestamps.
pub fn is_stale(last_update: i64, now: i64) -> (r: bool)
    ensures
        r == spec_is_stale(last_update as int, now as int),
{
    let diff: i128 = (now as i128) - (last_update as i128);
    diff > 86400
}

/// The remote provider URL for an identity and tier, retained on the
/// resource record for provenance.
pub open spec fn provider_url(eid: Seq<char>, rating: int) -> Seq<char> {
    "https://gravatar.com/avatar/"@ + eid + "?r="@ + spec_rating_code(rating) + "&s=512&d=404"@
}

/// Builds the remote provider URL for an identity and tier.
pub fn make_provider_url(eid: &str, rating: i8) -> (r: String)
    ensures
        r@ == provider_url(eid@, rating as int),
{
    let mut s = String::from_str("https://gravatar.com/avatar/");
    s.append(eid);
    s.append("?r=");
    s.append(get_rating(rating));
    s.append("&s=512&d=404");
    proof {
        assert(s@ =~= provider_url(eid@, rating as int));
    }
    s
}

/// Everything one synchronization run leaves behind: the store, the
/// artifact files, and the path it yielded (absent when nothing new
/// was recorded).
pub struct SyncOutcome {
    pub store: StoreModel,
    pub files: Seq<FileModel>,
    pub path: Option<Seq<char>>,
}

/// The synchronization transition, over already-transcoded content.
///
/// The staleness clock always advances, success or failure; absent or
/// untranscodable content changes nothing else; unchanged content is
/// not rewritten; a known digest links the entry to the existing record
/// without touching the files; a new digest is persisted once, under a
/// path derived from itself.
pub open spec fn spec_sync(
    m: StoreModel,
    fs: Seq<FileModel>,
    eid: Seq<char>,
    rating: int,
    origin_hash: Option<Seq<char>>,
    now: int,
    encoded: Option<Seq<u8>>,
) -> SyncOutcome {
    let m1 = StoreModel { entries: touch_all(m.entries, eid, rating, now), ..m };
    match encoded {
        None => SyncOutcome { store: m1, files: fs, path: None },
        Some(avif) => {
            let digest = spec_digest(avif);
            if origin_hash == Some(digest) {
                SyncOutcome { store: m1, files: fs, path: None }
            } else {
                match find_resource_model(m1.resources, digest) {
                    Some(i) => {
                        let rec = m1.resources[i];
                        let m2 = StoreModel {
                            entries: set_content_all(m1.entries, eid, rating, digest, rec.resource),
                            ..m1
                        };
                        let path = match rec.resource {
                            Some(p) => p,
                            None => digest + ".avif"@,
                        };
                        SyncOutcome { store: m2, files: fs, path: Some(path) }
                    },
                    None => {
                        let path = digest + ".avif"@;
                        let fs2 = write_file_model(fs, path, avif);
                        let rec = RecordModel {
                            sha1: digest,
                            resource: Some(path),
                            size: 512,
                            origin: provider_url(eid, rating),
                        };
                        let m2 = StoreModel {
                            resources: insert_resource_model(m1.resources, rec),
                            ..m1
                        };
                        let m3 = StoreModel {
                            entries: set_content_all(m2.entries, eid, rating, digest, None),
                            ..m2
                        };
                        SyncOutcome { store: m3, files: fs2, path: Some(path) }
                    },
                }
            }
        },
    }
}

/// The synchronization transition, over freshly fetched bytes: what
/// the transcoder makes of them feeds `spec_sync`.
pub open spec fn spec_sync_fetched(
    m: StoreModel,
    fs: Seq<FileModel>,
    eid: Seq<char>,
    rating: int,
    origin_hash: Option<Seq<char>>,
    now: int,
    fetched: Option<Seq<u8>>,
) -> SyncOutcome {
    spec_sync(
        m,
        fs,
        eid,
        rating,
        origin_hash,
        now,
        match fetched {
            None => None,
            Some(b) => avif_transcode(b),
        },
    )
}

/// One synchronization run over already-transcoded content: advances
/// the staleness clock, digests the content, deduplicates it against
/// the resource table, persists new content, and links the entry to the
/// record. Returns the path that now holds the content, or nothing when
/// no update was recorded.
pub fn sync_encoded(
    store: &mut Store,
    files: &mut Storage,
    eid: &str,
    rating: i8,
    origin_hash: &Option<String>,
    now: i64,
    encoded: Option<Vec<u8>>,
) -> (r: Option<String>)
    ensures
        ({
            let o = spec_sync(
                old(store)@,
                old(files)@,
                eid@,
                rating as int,
                opt_str_view(*origin_hash),
                now as int,
                opt_bytes_view(encoded),
            );
            final(store)@ == o.store && final(files)@ == o.files && opt_str_view(r) == o.path
        }),
{
    store.touch(eid, rating, now);
    let avif = match encoded {
        Some(b) => b,
        None => {
            return None;
        },
    };
    let digest = digest_hex(&avif);
    let unchanged = match origin_hash {
        Some(h) => str_eq(h.as_str(), digest.as_str()),
        None => false,
    };
    if unchanged {
        return None;
    }
    match store.find_resource(digest.as_str()) {
        Some(i) => {
            let rec_resource = clone_opt_string(&store.resources[i].resource);
            proof {
                assert(store@.resources[i as int] == store.resources[i as int]@);
            }
            store.set_content(eid, rating, &digest, &rec_resource);
            match rec_resource {
                Some(p) => Some(p),
                None => Some(digest.concat(".avif")),
            }
        },
        None => {
            let path = digest.clone().concat(".avif");
            files.write(&path, &avif);
            let url = make_provider_url(eid, rating);
            let rec = ResourceRecord {
                sha1: digest.clone(),
                resource: Some(path.clone()),
                size: 512,
                origin: url,
            };
            store.insert_resource(rec);
            store.set_content(eid, rating, &digest, &None);
            Some(path)
        },
    }
}

/// One synchronization run over freshly fetched bytes (absent when the
/// remote fetch failed): transcodes them and proceeds as
/// `sync_encoded`. Every failure degrades to "no update".
pub fn sync_avatar(
    store: &mut Store,
    files: &mut Storage,
    eid: &str,
    rating: i8,
    origin_hash: &Option<String>,
    now: i64,
    fetched: Option<Vec<u8>>,
) -> (r: Option<String>)
    ensures
        ({
            let o = spec_sync_fetched(
                old(store)@,
                old(files)@,
                eid@,
                rating as int,
                opt_str_view(*origin_hash),
                now as int,
                opt_bytes_view(fetched),
            );
            final(store)@ == o.store && final(files)@ == o.files && opt_str_view(r) == o.path
        }),
{
    let encoded = match fetched {
        Some(b) => transcode_to_avif(&b),
        None => None,
    };
    sync_encoded(store, files, eid, rating, origin_hash, now, encoded)
}

} // verus!
