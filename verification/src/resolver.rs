//! The request resolver: validates the raw identifier, maps the rating
//! selector to a ceiling, looks the entry up, triggers synchronization
//! when needed, and selects the artifact to serve.

use vstd::prelude::*;
use crate::clock::now_timestamp;
use crate::identity::is_hex_id;
use crate::identity::lower_hex;
use crate::identity::normalize_identity;
use crate::rating::get_rating_from_value;
use crate::rating::spec_rating_of;
use crate::storage::find_file_model;
use crate::storage::FileModel;
use crate::storage::Storage;
use crate::store::best_match;
use crate::store::clone_opt_string;
use crate::store::insert_entry_model;
use crate::store::lemma_best_match;
use crate::store::EntryModel;
use crate::store::Store;
use crate::store::StoreModel;
use crate::strutil::opt_str_view;
use crate::sync::spec_sync;
use crate::sync::sync_encoded;
use crate::sync::SyncOutcome;
use crate::sync::is_stale;
use crate::sync::spec_is_stale;
use crate::transcode::avif_transcode;
use crate::transcode::opt_bytes_view;
use crate::transcode::transcode_to_avif;

verus! {

/// The caller-visible result of one request.
pub enum AvatarResponse {
    /// The identifier failed format validation; carries the diagnostic
    /// text instead of image bytes.
    Diagnostic(String),
    /// The resolved artifact bytes.
    Artifact(Vec<u8>),
    /// Nothing could be resolved: the caller serves the embedded
    /// default artifact.
    DefaultArtifact,
}

/// Mathematical model of a response.
pub enum ResponseModel {
    Diagnostic(Seq<char>),
    Artifact(Seq<u8>),
    DefaultArtifact,
}

impl View for AvatarResponse {
    type V = ResponseModel;

    open spec fn view(&self) -> ResponseModel {
        match self {
            AvatarResponse::Diagnostic(s) => ResponseModel::Diagnostic(s@),
            AvatarResponse::Artifact(b) => ResponseModel::Artifact(b@),
            AvatarResponse::DefaultArtifact => ResponseModel::DefaultArtifact,
        }
    }
}

/// Everything one request leaves behind: the store, the artifact
/// files, and the response.
pub struct ResolveOutcome {
    pub store: StoreModel,
    pub files: Seq<FileModel>,
    pub response: ResponseModel,
}

/// The path recorded by an entry: the explicit override, else derived
/// from the digest, else nothing.
pub open spec fn entry_path(e: EntryModel) -> Option<Seq<char>> {
    match e.resource {
        Some(p) => Some(p),
        None => match e.sha1 {
            Some(h) => Some(h + ".avif"@),
            None => None,
        },
    }
}

/// The bytes served for a path: the stored artifact, else the default.
pub open spec fn serve(fs: Seq<FileModel>, path: Option<Seq<char>>) -> ResponseModel {
    match path {
        None => ResponseModel::DefaultArtifact,
        Some(p) => match find_file_model(fs, p) {
            Some(i) => ResponseModel::Artifact(fs[i].bytes),
            None => ResponseModel::DefaultArtifact,
        },
    }
}

/// The resolution transition, over already-transcoded content.
///
/// A malformed identifier is rejected before any lookup, with a
/// diagnostic and no other change. A hit serves the artifact the entry
/// recorded before any refresh; a stale hit synchronizes first, at the
/// entry's own tier, and ignores the result for this response. A miss
/// creates the entry at the least restrictive tier, synchronizes at the
/// requested ceiling, and serves what synchronization yielded. Whatever
/// fails along the way, the default artifact answers.
pub open spec fn spec_resolve(
    m: StoreModel,
    fs: Seq<FileModel>,
    id: Seq<char>,
    selector: Option<Seq<char>>,
    now: int,
    encoded: Option<Seq<u8>>,
) -> ResolveOutcome {
    if !is_hex_id(id) {
        ResolveOutcome {
            store: m,
            files: fs,
            response: ResponseModel::Diagnostic("What!\n"@ + id),
        }
    } else {
        let eid = lower_hex(id);
        let ceiling = spec_rating_of(selector);
        match best_match(m.entries, eid, ceiling) {
            Some(i) => {
                let e = m.entries[i];
                let after = if spec_is_stale(e.last_update, now) {
                    spec_sync(m, fs, eid, e.rating, e.sha1, now, encoded)
                } else {
                    SyncOutcome { store: m, files: fs, path: None }
                };
                ResolveOutcome {
                    store: after.store,
                    files: after.files,
                    response: serve(after.files, entry_path(e)),
                }
            },
            None => {
                let m1 = StoreModel { entries: insert_entry_model(m.entries, eid, 3), ..m };
                let after = spec_sync(m1, fs, eid, ceiling, None, now, encoded);
                ResolveOutcome {
                    store: after.store,
                    files: after.files,
                    response: serve(after.files, after.path),
                }
            },
        }
    }
}

/// The resolution transition, over freshly fetched bytes: what the
/// transcoder makes of them feeds `spec_resolve`.
pub open spec fn spec_resolve_fetched(
    m: StoreModel,
    fs: Seq<FileModel>,
    id: Seq<char>,
    selector: Option<Seq<char>>,
    now: int,
    fetched: Option<Seq<u8>>,
) -> ResolveOutcome {
    spec_resolve(
        m,
        fs,
        id,
        selector,
        now,
        match fetched {
            None => None,
            Some(b) => avif_transcode(b),
        },
    )
}

/// Resolves one request over already-transcoded content (absent when
/// the remote fetch or the transcode failed, or when no fetch was
/// attempted; a fresh hit never consults it).
pub fn resolve_encoded(
    store: &mut Store,
    files: &mut Storage,
    id: &str,
    selector: Option<String>,
    now: i64,
    encoded: Option<Vec<u8>>,
) -> (r: AvatarResponse)
    ensures
        ({
            let o = spec_resolve(
                old(store)@,
                old(files)@,
                id@,
                opt_str_view(selector),
                now as int,
                opt_bytes_view(encoded),
            );
            final(store)@ == o.store && final(files)@ == o.files && r@ == o.response
        }),
{
    let eid = match normalize_identity(id) {
        Some(e) => e,
        None => {
            let mut msg = String::from_str("What!\n");
            msg.append(id);
            return AvatarResponse::Diagnostic(msg);
        },
    };
    let ceiling = get_rating_from_value(selector);
    proof {
        lemma_best_match(store@.entries, eid@, ceiling as int);
    }
    match store.lookup(eid.as_str(), ceiling) {
        Some(i) => {
            let e_rating = store.entries[i].rating;
            let e_sha1 = clone_opt_string(&store.entries[i].sha1);
            let e_resource = clone_opt_string(&store.entries[i].resource);
            let e_last = store.entries[i].last_update;
            proof {
                assert(store@.entries[i as int] == store.entries[i as int]@);
            }
            if is_stale(e_last, now) {
                let _ = sync_encoded(store, files, eid.as_str(), e_rating, &e_sha1, now, encoded);
            }
            let path: Option<String> = match e_resource {
                Some(p) => Some(p),
                None => match e_sha1 {
                    Some(h) => Some(h.concat(".avif")),
                    None => None,
                },
            };
            match path {
                Some(p) => match files.read(p.as_str()) {
                    Some(b) => AvatarResponse::Artifact(b),
                    None => AvatarResponse::DefaultArtifact,
                },
                None => AvatarResponse::DefaultArtifact,
            }
        },
        None => {
            store.insert_entry(eid.clone(), 3);
            let path = sync_encoded(store, files, eid.as_str(), ceiling, &None, now, encoded);
            match path {
                Some(p) => match files.read(p.as_str()) {
                    Some(b) => AvatarResponse::Artifact(b),
                    None => AvatarResponse::DefaultArtifact,
                },
                None => AvatarResponse::DefaultArtifact,
            }
        },
    }
}

/// Resolves one request, given the clock reading and what the remote
/// fetch returned (absent on network failure, or when it was never
/// attempted; a fresh hit never consults it).
pub fn get_avatar(
    store: &mut Store,
    files: &mut Storage,
    id: &str,
    selector: Option<String>,
    now: i64,
    fetched: Option<Vec<u8>>,
) -> (r: AvatarResponse)
    ensures
        ({
            let o = spec_resolve_fetched(
                old(store)@,
                old(files)@,
                id@,
                opt_str_view(selector),
                now as int,
                opt_bytes_view(fetched),
            );
            final(store)@ == o.store && final(files)@ == o.files && r@ == o.response
        }),
{
    let encoded = match fetched {
        Some(b) => transcode_to_avif(&b),
        None => None,
    };
    resolve_encoded(store, files, id, selector, now, encoded)
}

/// Resolves one request against the wall clock. The clock is read once;
/// every reading yields the resolution for that reading.
pub fn get_avatar_now(
    store: &mut Store,
    files: &mut Storage,
    id: &str,
    selector: Option<String>,
    fetched: Option<Vec<u8>>,
) -> (r: AvatarResponse)
    ensures
        exists|now: int|
            {
                let o = #[trigger] spec_resolve_fetched(
                    old(store)@,
                    old(files)@,
                    id@,
                    opt_str_view(selector),
                    now,
                    opt_bytes_view(fetched),
                );
                final(store)@ == o.store && final(files)@ == o.files && r@ == o.response
            },
{
    let now = now_timestamp();
    let r = get_avatar(store, files, id, selector, now, fetched);
    proof {
        let o = spec_resolve_fetched(
            old(store)@,
            old(files)@,
            id@,
            opt_str_view(selector),
            now as int,
            opt_bytes_view(fetched),
        );
        assert(final(store)@ == o.store && final(files)@ == o.files && r@ == o.response);
    }
    r
}

} // verus!
