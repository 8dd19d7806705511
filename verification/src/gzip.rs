//! Copies of a log file's bytes, plain or gzip-framed.
use vstd::prelude::*;
use vstd::slice::slice_to_vec;
use flate2::write::GzEncoder;
use flate2::Compression;
use std::io::Write;
use crate::error::Error;

verus! {

#[verifier::external_type_specification]
#[verifier::external_body]
pub struct ExIoError(std::io::Error);

/// The gzip stream that holds `data`, compressed at the default level,
/// or nothing where the encoder fails on `data`.
pub uninterp spec fn gzip_stream(data: Seq<u8>) -> Option<Seq<u8>>;

/// Runs `data` through a `flate2::write::GzEncoder` at
/// `Compression::default()` that writes into a vector: `GzEncoder::new`,
/// `write_all`, then `finish`, which adds the footer.
///
/// The encoder writes a header without a name or a time of its own and
/// into memory, so what it returns depends on `data` alone: whether it
/// fails, and the stream if it does not. Both are named, not described.
#[verifier::external_body]
fn gzip(data: &[u8]) -> (outcome: Result<Vec<u8>, std::io::Error>)
    ensures
        outcome is Err <==> gzip_stream(data@) is None,
        outcome matches Ok(stream) ==> gzip_stream(data@) == Some(stream@),
{
    let mut encoder = GzEncoder::new(Vec::new(), Compression::default());
    encoder.write_all(data)?;
    encoder.finish()
}

/// What a copy turns out to be, given how the encoder fared: its stream,
/// or the compression error in place of the encoder's own.
pub fn framed(outcome: Result<Vec<u8>, std::io::Error>) -> (copy: Result<Vec<u8>, Error>)
    ensures
        match outcome {
            Ok(stream) => copy == Ok::<Vec<u8>, Error>(stream),
            Err(_) => copy == Err::<Vec<u8>, Error>(Error::Compression),
        },
{
    match outcome {
        Ok(stream) => Ok(stream),
        Err(_) => Err(Error::Compression),
    }
}

/// What the copy of `src` holds: `src` itself, or its gzip stream, or
/// nothing where the encoder fails.
pub open spec fn spec_copy(src: Seq<u8>, compress: bool) -> Option<Seq<u8>> {
    if compress {
        gzip_stream(src)
    } else {
        Some(src)
    }
}

/// Copies the bytes `src`, gzip-framed if `compress` is set and verbatim
/// if not. A verbatim copy never fails; a framed one fails with
/// `Error::Compression`, and only where the encoder does.
pub fn copy_file(src: &[u8], compress: bool) -> (copy: Result<Vec<u8>, Error>)
    ensures
        match copy {
            Ok(bytes) => spec_copy(src@, compress) == Some(bytes@),
            Err(e) => e == Error::Compression && spec_copy(src@, compress) is None,
        },
{
    if compress {
        framed(gzip(src))
    } else {
        Ok(slice_to_vec(src))
    }
}

} // verus!
