//! Gzip compression of response bodies, done by `flate2`.

use std::io::Write;
use vstd::prelude::*;

verus! {

/// The error type of `std::io`. Nothing is known of a value of it.
#[verifier::external_type_specification]
#[verifier::external_body]
pub struct ExIoError(std::io::Error);

/// What `flate2` makes of `data` when it encodes into memory: the gzip
/// stream, or nothing where the encoder fails. The stream is the header that
/// `GzEncoder::new` writes, which holds no name, no time and no operating
/// system, then `data` deflated at the default compression level, then check
/// sum and length. Nothing but `data` goes into it.
pub uninterp spec fn gzip_result(data: Seq<u8>) -> Option<Seq<u8>>;

/// Runs `flate2::write::GzEncoder` with `Compression::default()` over
/// `data`: `new` on an empty `Vec`, `write_all`, `finish`. The contract
/// claims that what comes of it, the stream that `finish` hands back or the
/// failure of either call, is `gzip_result(data)`. It does not claim that
/// the encoder succeeds.
#[verifier::external_body]
fn gz_encode(data: &[u8]) -> (res: Result<Vec<u8>, std::io::Error>)
    ensures
        match res {
            Ok(out) => gzip_result(data@) == Some(out@),
            Err(_) => gzip_result(data@) is None,
        },
{
    let mut encoder = flate2::write::GzEncoder::new(Vec::new(), flate2::Compression::default());
    encoder.write_all(data)?;
    encoder.finish()
}

/// Compresses `data`: the gzip stream that the encoder makes of it, and
/// `None` where the encoder fails.
pub fn compress(data: &[u8]) -> (res: Option<Vec<u8>>)
    ensures
        match res {
            Some(out) => gzip_result(data@) == Some(out@),
            None => gzip_result(data@) is None,
        },
{
    match gz_encode(data) {
        Ok(out) => Some(out),
        Err(_) => None,
    }
}

} // verus!
