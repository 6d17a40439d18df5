//! Streaming compression of the combined artifact. The codec itself is an
//! outside crate's work, taken on trust behind two wrappers; the contract
//! that matters — decompressing the compressed artifact yields exactly the
//! bytes that were compressed — is stated over a name for what the decoder
//! returns, and carried by every verified caller.

use vstd::prelude::*;

use crate::errors::ExportError;

verus! {

/// What gzip decoding returns for a given byte stream: the decoded bytes,
/// or nothing where the stream is not a well-formed gzip stream. Decoding
/// is a function of the bytes alone.
pub uninterp spec fn gunzip_of(z: Seq<u8>) -> Option<Seq<u8>>;

/// Relies on flate2's bufread::GzEncoder at the highest compression level:
/// the encoder streams its input into a gzip stream that flate2's decoder
/// decodes back to exactly that input. Reading from an encoder over an
/// in-memory slice cannot fail, so a stream always comes back.
#[verifier::external_body]
fn gzip_bytes(data: &Vec<u8>) -> (r: Option<Vec<u8>>)
    ensures
        r is Some,
        r matches Some(z) ==> gunzip_of(z@) == Some(data@),
{
    let mut out: Vec<u8> = Vec::new();
    let mut enc = flate2::bufread::GzEncoder::new(&data[..], flate2::Compression::best());
    match std::io::Read::read_to_end(&mut enc, &mut out) {
        Ok(_) => Some(out),
        Err(_) => None,
    }
}

/// Relies on flate2's bufread::GzDecoder: decodes a gzip stream, or reports
/// a malformed one. `gunzip_of` names its result.
#[verifier::external_body]
fn gunzip_bytes(z: &Vec<u8>) -> (r: Option<Vec<u8>>)
    ensures
        r matches Some(d) ==> gunzip_of(z@) == Some(d@),
        r is None ==> gunzip_of(z@) is None,
{
    let mut out: Vec<u8> = Vec::new();
    let mut dec = flate2::bufread::GzDecoder::new(&z[..]);
    match std::io::Read::read_to_end(&mut dec, &mut out) {
        Ok(_) => Some(out),
        Err(_) => None,
    }
}

/// Compresses the combined artifact's bytes. The compressed stream decodes
/// back to exactly the input: the compression round-trip holds of every
/// compressed artifact this function produces. Compressing bytes already in
/// memory cannot fail.
pub fn compress(data: &Vec<u8>) -> (z: Vec<u8>)
    ensures
        gunzip_of(z@) == Some(data@),
{
    match gzip_bytes(data) {
        Some(z) => z,
        None => {
            proof {
                assert(false);
            }
            Vec::new()
        },
    }
}

/// Decompresses a compressed artifact; the error says the stream was not a
/// well-formed gzip stream.
pub fn decompress(z: &Vec<u8>) -> (r: Result<Vec<u8>, ExportError>)
    ensures
        r matches Ok(d) ==> gunzip_of(z@) == Some(d@),
        r matches Err(e) ==> e is LocalStorage && gunzip_of(z@) is None,
{
    match gunzip_bytes(z) {
        Some(d) => Ok(d),
        None => Err(ExportError::LocalStorage),
    }
}

} // verus!
