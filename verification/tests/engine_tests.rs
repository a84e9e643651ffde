use grsync::digest::digest_hex;
use grsync::resolver::resolve_encoded;
use grsync::resolver::AvatarResponse;
use grsync::storage::Storage;
use grsync::storage::StoredFile;
use grsync::store::CacheEntry;
use grsync::store::Store;
use grsync::sync::sync_encoded;

const ID: &str = "00000000000000000000000000000000";
const NOW: i64 = 1_700_000_000;

fn entry(eid: &str, rating: i8, sha1: Option<&str>, last_update: i64) -> CacheEntry {
    CacheEntry {
        eid: String::from(eid),
        rating,
        sha1: sha1.map(String::from),
        resource: None,
        size: None,
        last_update,
    }
}

fn artifact_of(r: AvatarResponse) -> Vec<u8> {
    match r {
        AvatarResponse::Artifact(b) => b,
        AvatarResponse::Diagnostic(_) => panic!("expected artifact, got diagnostic"),
        AvatarResponse::DefaultArtifact => panic!("expected artifact, got default"),
    }
}

/// Scenario: no entry, content arrives, no prior record with its
/// digest. The response serves the new bytes; a record and an entry at
/// the least restrictive tier now exist.
#[test]
fn miss_with_content_creates_entry_and_record() {
    let mut store = Store::new();
    let mut files = Storage::new();
    let content: Vec<u8> = b"encoded avatar content".to_vec();
    let digest = digest_hex(&content);

    let r = resolve_encoded(
        &mut store,
        &mut files,
        ID,
        Some(String::from("x")),
        NOW,
        Some(content.clone()),
    );
    assert_eq!(artifact_of(r), content);

    assert_eq!(store.entries.len(), 1);
    let e = &store.entries[0];
    assert_eq!(e.eid, ID);
    assert_eq!(e.rating, 3);
    assert_eq!(e.sha1, Some(digest.clone()));
    assert_eq!(e.last_update, NOW);

    assert_eq!(store.resources.len(), 1);
    let rec = &store.resources[0];
    assert_eq!(rec.sha1, digest);
    assert_eq!(rec.resource, Some(format!("{}.avif", digest)));
    assert_eq!(rec.size, 512);
    assert_eq!(
        rec.origin,
        format!("https://gravatar.com/avatar/{}?r=x&s=512&d=404", ID)
    );

    assert_eq!(files.files.len(), 1);
    assert_eq!(files.files[0].path, format!("{}.avif", digest));
    assert_eq!(files.files[0].bytes, content);
}

/// Scenario: a fresh entry pointing at a stored file. The response
/// serves exactly those bytes, and the remote content is never
/// consulted.
#[test]
fn fresh_hit_serves_cached_bytes() {
    let cached: Vec<u8> = b"cached bytes".to_vec();
    let digest = digest_hex(&cached);
    let path = format!("{}.avif", digest);

    let build = || {
        let mut store = Store::new();
        store
            .entries
            .push(entry(ID, 0, Some(digest.as_str()), NOW - 3_600));
        let mut files = Storage::new();
        files.files.push(StoredFile {
            path: path.clone(),
            bytes: cached.clone(),
        });
        (store, files)
    };

    let (mut store, mut files) = build();
    let r = resolve_encoded(&mut store, &mut files, ID, None, NOW, None);
    assert_eq!(artifact_of(r), cached);
    assert_eq!(store.entries[0].last_update, NOW - 3_600);

    // The same request with remote content available behaves
    // identically: a fresh hit makes no remote call.
    let (mut store2, mut files2) = build();
    let r2 = resolve_encoded(
        &mut store2,
        &mut files2,
        ID,
        None,
        NOW,
        Some(b"completely different content".to_vec()),
    );
    assert_eq!(artifact_of(r2), cached);
    assert_eq!(store2.entries[0].last_update, NOW - 3_600);
    assert_eq!(store2.entries[0].sha1, Some(digest.clone()));
    assert_eq!(store2.resources.len(), 0);
    assert_eq!(files2.files.len(), 1);
}

/// Scenario: a stale entry, and the remote fetch fails. The response
/// serves the previously cached bytes; only the staleness clock moves.
#[test]
fn stale_hit_with_failed_fetch_serves_old_bytes() {
    let cached: Vec<u8> = b"old cached bytes".to_vec();
    let digest = digest_hex(&cached);
    let path = format!("{}.avif", digest);

    let mut store = Store::new();
    store
        .entries
        .push(entry(ID, 0, Some(digest.as_str()), NOW - 90_000));
    let mut files = Storage::new();
    files.files.push(StoredFile {
        path,
        bytes: cached.clone(),
    });

    let r = resolve_encoded(&mut store, &mut files, ID, None, NOW, None);
    assert_eq!(artifact_of(r), cached);

    let e = &store.entries[0];
    assert_eq!(e.last_update, NOW);
    assert_eq!(e.sha1, Some(digest));
    assert_eq!(e.resource, None);
    assert_eq!(store.resources.len(), 0);
    assert_eq!(files.files.len(), 1);
}

/// Scenario: no entry and the remote fetch fails. The default artifact
/// answers; an entry at the least restrictive tier exists, without
/// content.
#[test]
fn miss_with_failed_fetch_serves_default() {
    let mut store = Store::new();
    let mut files = Storage::new();

    let r = resolve_encoded(&mut store, &mut files, ID, None, NOW, None);
    assert!(matches!(r, AvatarResponse::DefaultArtifact));

    assert_eq!(store.entries.len(), 1);
    let e = &store.entries[0];
    assert_eq!(e.eid, ID);
    assert_eq!(e.rating, 3);
    assert_eq!(e.sha1, None);
    assert_eq!(e.resource, None);
    assert_eq!(store.resources.len(), 0);
    assert_eq!(files.files.len(), 0);
}

/// A malformed identifier draws a diagnostic, not image bytes, and
/// nothing is written.
#[test]
fn malformed_identifier_is_rejected_without_writes() {
    let mut store = Store::new();
    let mut files = Storage::new();

    let r = resolve_encoded(
        &mut store,
        &mut files,
        "not-a-valid-id",
        None,
        NOW,
        Some(b"anything".to_vec()),
    );
    match r {
        AvatarResponse::Diagnostic(msg) => assert_eq!(msg, "What!\nnot-a-valid-id"),
        _ => panic!("expected a diagnostic"),
    }
    assert_eq!(store.entries.len(), 0);
    assert_eq!(store.resources.len(), 0);
    assert_eq!(files.files.len(), 0);
}

/// Uppercase and lowercase forms of one identity resolve to the same
/// cache entry.
#[test]
fn case_variants_resolve_to_same_entry() {
    let upper = "0123456789ABCDEF0123456789ABCDEF";
    let lower = "0123456789abcdef0123456789abcdef";
    let cached: Vec<u8> = b"case test bytes".to_vec();
    let digest = digest_hex(&cached);
    let path = format!("{}.avif", digest);

    let mut store = Store::new();
    store
        .entries
        .push(entry(lower, 0, Some(digest.as_str()), NOW - 60));
    let mut files = Storage::new();
    files.files.push(StoredFile {
        path,
        bytes: cached.clone(),
    });

    let r_upper = resolve_encoded(&mut store, &mut files, upper, None, NOW, None);
    assert_eq!(artifact_of(r_upper), cached.clone());
    let r_lower = resolve_encoded(&mut store, &mut files, lower, None, NOW, None);
    assert_eq!(artifact_of(r_lower), cached);
    assert_eq!(store.entries.len(), 1);
}

/// A first request under an uppercase identifier creates the entry
/// under the lowercased identity.
#[test]
fn miss_stores_lowercased_identity() {
    let mut store = Store::new();
    let mut files = Storage::new();
    let r = resolve_encoded(
        &mut store,
        &mut files,
        "0123456789ABCDEF0123456789ABCDEF",
        None,
        NOW,
        None,
    );
    assert!(matches!(r, AvatarResponse::DefaultArtifact));
    assert_eq!(store.entries.len(), 1);
    assert_eq!(store.entries[0].eid, "0123456789abcdef0123456789abcdef");
}

/// Synchronizing twice with unchanged content alters nothing but the
/// staleness clock, and duplicates no record and no file.
#[test]
fn second_sync_with_unchanged_content_is_noop() {
    let mut store = Store::new();
    store.entries.push(entry(ID, 0, None, 0));
    let mut files = Storage::new();
    let content: Vec<u8> = b"stable avatar".to_vec();
    let digest = digest_hex(&content);

    let first = sync_encoded(&mut store, &mut files, ID, 0, &None, NOW, Some(content.clone()));
    assert_eq!(first, Some(format!("{}.avif", digest)));
    assert_eq!(store.entries[0].sha1, Some(digest.clone()));
    assert_eq!(store.resources.len(), 1);
    assert_eq!(files.files.len(), 1);

    let recorded = store.entries[0].sha1.clone();
    let second = sync_encoded(
        &mut store,
        &mut files,
        ID,
        0,
        &recorded,
        NOW + 10,
        Some(content.clone()),
    );
    assert_eq!(second, None);
    assert_eq!(store.entries[0].sha1, Some(digest.clone()));
    assert_eq!(store.entries[0].resource, None);
    assert_eq!(store.entries[0].last_update, NOW + 10);
    assert_eq!(store.resources.len(), 1);
    assert_eq!(files.files.len(), 1);
}

/// Two identities whose content digests agree end up referencing one
/// record and one stored file.
#[test]
fn shared_content_is_stored_once() {
    let other = "ffffffffffffffffffffffffffffffff";
    let mut store = Store::new();
    store.entries.push(entry(ID, 0, None, 0));
    store.entries.push(entry(other, 0, None, 0));
    let mut files = Storage::new();
    let content: Vec<u8> = b"shared avatar".to_vec();
    let digest = digest_hex(&content);

    let p1 = sync_encoded(&mut store, &mut files, ID, 0, &None, NOW, Some(content.clone()));
    let p2 = sync_encoded(
        &mut store,
        &mut files,
        other,
        0,
        &None,
        NOW,
        Some(content.clone()),
    );
    assert_eq!(p1, Some(format!("{}.avif", digest)));
    assert_eq!(p2, Some(format!("{}.avif", digest)));

    assert_eq!(store.resources.len(), 1);
    assert_eq!(files.files.len(), 1);
    assert_eq!(store.entries[0].sha1, Some(digest.clone()));
    assert_eq!(store.entries[1].sha1, Some(digest));
}

/// A failed fetch still advances the staleness clock: the debounce.
#[test]
fn failed_sync_still_touches_entry() {
    let mut store = Store::new();
    store.entries.push(entry(ID, 2, None, 0));
    let mut files = Storage::new();

    let r = sync_encoded(&mut store, &mut files, ID, 2, &None, NOW, None);
    assert_eq!(r, None);
    assert_eq!(store.entries[0].last_update, NOW);
    assert_eq!(store.entries[0].sha1, None);
    assert_eq!(store.resources.len(), 0);
}

/// Lookup prefers the highest tier not exceeding the requested
/// ceiling.
#[test]
fn lookup_prefers_highest_tier_under_ceiling() {
    let a: Vec<u8> = b"tier zero bytes".to_vec();
    let b: Vec<u8> = b"tier two bytes".to_vec();
    let da = digest_hex(&a);
    let db = digest_hex(&b);

    let mut store = Store::new();
    store.entries.push(entry(ID, 0, Some(da.as_str()), NOW));
    store.entries.push(entry(ID, 2, Some(db.as_str()), NOW));
    let mut files = Storage::new();
    files.files.push(StoredFile {
        path: format!("{}.avif", da),
        bytes: a.clone(),
    });
    files.files.push(StoredFile {
        path: format!("{}.avif", db),
        bytes: b.clone(),
    });

    let r_low = resolve_encoded(&mut store, &mut files, ID, None, NOW, None);
    assert_eq!(artifact_of(r_low), a);
    let r_mid = resolve_encoded(&mut store, &mut files, ID, Some(String::from("r")), NOW, None);
    assert_eq!(artifact_of(r_mid), b.clone());
    let r_high = resolve_encoded(&mut store, &mut files, ID, Some(String::from("x")), NOW, None);
    assert_eq!(artifact_of(r_high), b);
}
