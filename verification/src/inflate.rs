//! Inflation of the compressed block that holds the header.

use flate2::bufread::ZlibDecoder;
use flate2::Decompress;
use std::io::Read;
use vstd::prelude::*;

verus! {

/// What raw inflation makes of `compressed`: the inflated bytes, or `None`
/// where the bytes are no complete deflate stream. The stream carries no
/// zlib or gzip envelope, and its window is 32 KiB. Bytes behind the end of
/// the stream are not looked at.
pub uninterp spec fn raw_inflate(compressed: Seq<u8>) -> Option<Seq<u8>>;

/// Inflates a raw deflate stream in one piece.
///
/// This runs flate2's `ZlibDecoder` over `compressed`, set up by
/// `Decompress::new_with_window_bits(false, 15)` to expect no header and a
/// window of two to the 15th bytes, and reads it to its end. The decoder
/// reads nothing but `compressed`, so what comes out depends on these bytes
/// alone; the contract gives that outcome the name `raw_inflate` and claims
/// nothing else of it. Any error of the decoder, a corrupt stream as well as
/// one that ends too early, comes back as `None`.
#[verifier::external_body]
pub(crate) fn mgz_decompress_header(compressed: &[u8]) -> (inflated: Option<Vec<u8>>)
    ensures
        raw_inflate(compressed@) == match inflated {
            Some(bytes) => Some(bytes@),
            None => None,
        },
{
    let mut decoder = ZlibDecoder::new_with_decompress(
        compressed,
        Decompress::new_with_window_bits(false, 15),
    );
    let mut bytes = Vec::new();
    match decoder.read_to_end(&mut bytes) {
        Ok(_) => Some(bytes),
        Err(_) => None,
    }
}

} // verus!
