use vstd::prelude::*;
use vstd::string::StringExecFns;
use vstd::string::StringSliceAdditionalSpecFns;
use vstd::utf8::encode_utf8;
use std::io::Write;
use base64::Engine;

verus! {

/// The zlib stream that flate2's encoder produces for the given input
/// bytes at the default compression level: a pure function of the input.
pub uninterp spec fn zlib_of(bytes: Seq<u8>) -> Seq<u8>;

/// The text that the standard, padded base64 alphabet encodes the given
/// bytes to: a pure function of the input.
pub uninterp spec fn base64_of(bytes: Seq<u8>) -> Seq<char>;

/// The export string of a JSON text: the single version digit `0`, then
/// the base64 of the zlib stream of the text's UTF-8 bytes.
pub open spec fn export_of(json: Seq<char>) -> Seq<char> {
    seq!['0'] + base64_of(zlib_of(encode_utf8(json)))
}

/// Why an export failed.
#[derive(Clone, Copy, PartialEq, Eq, Structural, Debug)]
pub enum CodecError {
    /// The compressed stream is too long to base64-encode.
    TooLarge,
}

/// Relies on flate2's `ZlibEncoder` over a byte sink at the default
/// compression level: the encoder is deterministic, so the stream it
/// produces is a function of the input bytes alone, named `zlib_of`
/// here. Over a `Vec` sink neither step can fail: the sink's writes
/// always succeed, and the compressor reports errors only on stream
/// states that compressing valid input never reaches.
#[verifier::external_body]
fn zlib_compress(bytes: &[u8]) -> (r: Vec<u8>)
    ensures
        r@ == zlib_of(bytes@),
{
    let mut encoder = flate2::write::ZlibEncoder::new(Vec::new(), flate2::Compression::default());
    encoder.write_all(bytes).expect("writing to a byte sink cannot fail");
    encoder.finish().expect("writing to a byte sink cannot fail")
}

/// Relies on base64's `STANDARD` engine, which pads: the encoding is a
/// function of the input bytes alone, named `base64_of` here. The engine
/// first computes the padded output length, four thirds of the input
/// length, and panics if that overflows, so the input must be short
/// enough.
#[verifier::external_body]
fn base64_encode(bytes: &[u8]) -> (r: String)
    requires
        bytes@.len() <= usize::MAX / 4,
    ensures
        r@ == base64_of(bytes@),
{
    base64::engine::general_purpose::STANDARD.encode(bytes)
}

/// The export string of one JSON text. Fails exactly when the
/// compressed stream is too long to base64-encode.
pub fn export_json(json: &str) -> (r: Result<String, CodecError>)
    ensures
        match r {
            Ok(s) => s@ == export_of(json@) && zlib_of(json.spec_bytes()).len() <= usize::MAX
                / 4,
            Err(CodecError::TooLarge) => zlib_of(json.spec_bytes()).len() > usize::MAX / 4,
        },
{
    let bytes: &[u8] = json.as_bytes();
    let compressed = zlib_compress(bytes);
    if compressed.len() > usize::MAX / 4 {
        return Err(CodecError::TooLarge);
    }
    let b64 = base64_encode(compressed.as_slice());
    let mut out: String = "0".to_owned();
    out.append(b64.as_str());
    proof {
        reveal_strlit("0");
        assert(out@ =~= export_of(json@));
    }
    Ok(out)
}

} // verus!
