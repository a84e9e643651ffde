use grsync::resolver::get_avatar;
use grsync::resolver::get_avatar_now;
use grsync::resolver::AvatarResponse;
use grsync::storage::Storage;
use grsync::store::Store;
use grsync::sync::sync_avatar;

const ID: &str = "00000000000000000000000000000000";
const NOW: i64 = 1_700_000_000;

/// Bytes that are no image at all never make it through the transcoder:
/// the miss degrades to the default artifact and records no content.
#[test]
fn undecodable_fetch_degrades_to_default() {
    let mut store = Store::new();
    let mut files = Storage::new();

    let r = get_avatar(
        &mut store,
        &mut files,
        ID,
        Some(String::from("x")),
        NOW,
        Some(b"this is not an image".to_vec()),
    );
    assert!(matches!(r, AvatarResponse::DefaultArtifact));
    assert_eq!(store.entries.len(), 1);
    assert_eq!(store.entries[0].sha1, None);
    assert_eq!(store.resources.len(), 0);
    assert_eq!(files.files.len(), 0);
}

/// Synchronizing over an undecodable fetch yields no path and touches
/// only the clock.
#[test]
fn sync_avatar_with_undecodable_fetch_yields_no_path() {
    let mut store = Store::new();
    store.entries.push(grsync::store::CacheEntry {
        eid: String::from(ID),
        rating: 0,
        sha1: None,
        resource: None,
        size: None,
        last_update: 0,
    });
    let mut files = Storage::new();

    let r = sync_avatar(
        &mut store,
        &mut files,
        ID,
        0,
        &None,
        NOW,
        Some(b"garbage".to_vec()),
    );
    assert_eq!(r, None);
    assert_eq!(store.entries[0].last_update, NOW);
    assert_eq!(store.resources.len(), 0);
}

/// Resolution against the wall clock rejects a malformed identifier the
/// same way, whatever the clock reads.
#[test]
fn wall_clock_resolution_rejects_malformed_identifier() {
    let mut store = Store::new();
    let mut files = Storage::new();
    let r = get_avatar_now(&mut store, &mut files, "not-a-valid-id", None, None);
    match r {
        AvatarResponse::Diagnostic(msg) => assert_eq!(msg, "What!\nnot-a-valid-id"),
        _ => panic!("expected a diagnostic"),
    }
    assert_eq!(store.entries.len(), 0);
}
