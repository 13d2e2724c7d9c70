use vstd::prelude::*;

verus! {

/// What the LZMA decoder yields for a given input stream: the decompressed
/// bytes, or nothing when the stream is not valid LZMA data.
pub uninterp spec fn lzma_of(input: Seq<u8>) -> Option<Seq<u8>>;

/// Relies on `lzma_rs::lzma_decompress`: reading from an in-memory slice,
/// the decoded output — or the decision that the stream is invalid — is a
/// function of the input bytes alone. On failure the decoder error's debug
/// text is handed back as the message.
#[verifier::external_body]
pub(crate) fn lzma_decompress_bytes(input: &Vec<u8>) -> (r: Result<Vec<u8>, String>)
    ensures
        match r {
            Ok(buf) => lzma_of(input@) == Some(buf@),
            Err(_) => lzma_of(input@) is None,
        },
{
    let mut out = Vec::new();
    match lzma_rs::lzma_decompress(&mut input.as_slice(), &mut out) {
        Ok(()) => Ok(out),
        Err(e) => Err(format!("{:?}", e)),
    }
}

} // verus!
