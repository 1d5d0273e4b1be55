//! Object-file compression: zlib streams around the framed object bytes.

use std::io::Read;
use std::io::Write;

use vstd::prelude::*;

verus! {

/// The zlib stream that compressing `data` at the highest level produces: a
/// fixed function of the input bytes alone, left unspecified here.
pub uninterp spec fn deflate_of(data: Seq<u8>) -> Seq<u8>;

/// What decompressing the byte buffer `data` yields: `Some` of the
/// decompressed bytes for a valid stream, `None` where inflation fails.
pub uninterp spec fn inflate_of(data: Seq<u8>) -> Option<Seq<u8>>;

/// Relies on `flate2::write::ZlibEncoder` at `Compression::best()`: the
/// compressed stream depends on the input bytes alone, and decompressing it
/// yields those bytes again.
#[verifier::external_body]
pub(crate) fn zlib_compress(data: &[u8]) -> (r: Vec<u8>)
    ensures
        r@ == deflate_of(data@),
        inflate_of(r@) == Some(data@),
{
    let mut enc = flate2::write::ZlibEncoder::new(Vec::new(), flate2::Compression::best());
    enc.write_all(data).expect("writing to a byte buffer cannot fail");
    enc.finish().expect("writing to a byte buffer cannot fail")
}

/// Relies on `flate2::read::ZlibDecoder`: what a byte buffer decompresses to
/// depends on those bytes alone, and reading it to the end fails exactly on
/// an invalid stream.
#[verifier::external_body]
pub(crate) fn zlib_decompress(data: &[u8]) -> (r: Option<Vec<u8>>)
    ensures
        r matches Some(d) ==> inflate_of(data@) == Some(d@),
        r is None ==> inflate_of(data@) is None,
{
    let mut dec = flate2::read::ZlibDecoder::new(data);
    let mut out: Vec<u8> = Vec::new();
    match dec.read_to_end(&mut out) {
        Ok(_) => Some(out),
        Err(_) => None,
    }
}

} // verus!
