//! zlib and gzip streams, through `flate2`.

use vstd::prelude::*;

verus! {

/// Result of inflating a zlib stream with `flate2::read::ZlibDecoder`
/// (`None` when reading fails).
pub uninterp spec fn zlib_decoded(data: Seq<u8>) -> Option<Seq<u8>>;

/// Result of inflating a gzip stream with `flate2::read::GzDecoder`
/// (`None` when reading fails).
pub uninterp spec fn gzip_decoded(data: Seq<u8>) -> Option<Seq<u8>>;

/// Result of `flate2::write::GzEncoder` at the default level over `data`
/// (`None` when finishing the stream fails).
pub uninterp spec fn gzip_encoded(data: Seq<u8>) -> Option<Seq<u8>>;

/// Reads `flate2::read::ZlibDecoder` over `data` to the end.
#[verifier::external_body]
pub(crate) fn zlib_decode(data: &[u8]) -> (r: Option<Vec<u8>>)
    ensures
        r matches Some(v) ==> zlib_decoded(data@) == Some(v@),
        r is None ==> zlib_decoded(data@) is None,
{
    let mut dec = flate2::read::ZlibDecoder::new(data);
    let mut out = Vec::new();
    std::io::Read::read_to_end(&mut dec, &mut out).ok().map(|_| out)
}

/// Reads `flate2::read::GzDecoder` over `data` to the end.
#[verifier::external_body]
pub(crate) fn gzip_decode(data: &[u8]) -> (r: Option<Vec<u8>>)
    ensures
        r matches Some(v) ==> gzip_decoded(data@) == Some(v@),
        r is None ==> gzip_decoded(data@) is None,
{
    let mut dec = flate2::read::GzDecoder::new(data);
    let mut out = Vec::new();
    std::io::Read::read_to_end(&mut dec, &mut out).ok().map(|_| out)
}

/// Writes `data` through `flate2::write::GzEncoder` (default level) into a
/// vector. The stream starts with the gzip magic bytes `1f 8b`, which
/// `GzBuilder::into_header` writes, and inflates back to `data`.
#[verifier::external_body]
pub(crate) fn gzip_encode(data: &[u8]) -> (r: Option<Vec<u8>>)
    ensures
        r matches Some(v) ==> gzip_encoded(data@) == Some(v@),
        r is None ==> gzip_encoded(data@) is None,
        r matches Some(v) ==> v@.len() >= 2 && v@[0] == 0x1f && v@[1] == 0x8b,
        r matches Some(v) ==> gzip_decoded(v@) == Some(data@),
{
    let mut enc = flate2::write::GzEncoder::new(Vec::with_capacity(data.len()), flate2::Compression::default());
    let _ = std::io::Write::write_all(&mut enc, data);
    enc.finish().ok()
}

} // verus!
