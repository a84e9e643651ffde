//! Transcoding: decode a fetched image and re-encode it into the
//! canonical output format.

use vstd::prelude::*;

verus! {

/// What the image pipeline yields for fetched bytes: the canonical
/// re-encoding, or nothing when decoding or encoding fails. The result
/// depends on the bytes alone; it is named here, not restated.
pub uninterp spec fn avif_transcode(bytes: Seq<u8>) -> Option<Seq<u8>>;

/// The view of optional bytes, as an optional byte sequence.
pub open spec fn opt_bytes_view(v: Option<Vec<u8>>) -> Option<Seq<u8>> {
    match v {
        Some(b) => Some(b@),
        None => None,
    }
}

/// Relies on image::load_from_memory and image::DynamicImage::write_to
/// with AVIF output: decodes the fetched bytes and re-encodes them;
/// both steps depend on the bytes alone.
#[verifier::external_body]
pub(crate) fn transcode_to_avif(bytes: &Vec<u8>) -> (r: Option<Vec<u8>>)
    ensures
        opt_bytes_view(r) == avif_transcode(bytes@),
{
    let img = match image::load_from_memory(bytes.as_slice()) {
        Ok(i) => i,
        Err(_) => return None,
    };
    let mut out: Vec<u8> = Vec::new();
    let mut cursor = std::io::Cursor::new(&mut out);
    match img.write_to(&mut cursor, image::ImageFormat::Avif) {
        Ok(()) => Some(out),
        Err(_) => None,
    }
}

} // verus!
