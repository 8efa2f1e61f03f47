//! Base64 (standard alphabet, padded) through the `base64` crate.
use vstd::prelude::*;
use base64::Engine;
use crate::contracts::errors::{detailed_error, AppErrorCode, AppErrorDto};

verus! {

/// `base64::DecodeError`, the error of a failed decoding; opaque to proofs.
#[verifier::external_type_specification]
#[verifier::external_body]
pub struct ExDecodeError(base64::DecodeError);

/// The character of a 6-bit value in the standard Base64 alphabet
/// (RFC 4648, table 1).
pub open spec fn base64_digit(v: int) -> char {
    if v < 26 {
        ('A' as int + v) as char
    } else if v < 52 {
        ('a' as int + (v - 26)) as char
    } else if v < 62 {
        ('0' as int + (v - 52)) as char
    } else if v == 62 {
        '+'
    } else {
        '/'
    }
}

/// Standard Base64 with padding (RFC 4648, section 4): every group of
/// three bytes becomes four characters, a last group of one or two bytes
/// is completed with `=`.
pub open spec fn base64_encode_spec(b: Seq<u8>) -> Seq<char>
    decreases b.len(),
{
    if b.len() == 0 {
        Seq::empty()
    } else if b.len() == 1 {
        let x = b[0] as int;
        seq![base64_digit(x / 4), base64_digit((x % 4) * 16), '=', '=']
    } else if b.len() == 2 {
        let x = b[0] as int;
        let y = b[1] as int;
        seq![base64_digit(x / 4), base64_digit((x % 4) * 16 + y / 16), base64_digit((y % 16) * 4), '=']
    } else {
        let x = b[0] as int;
        let y = b[1] as int;
        let z = b[2] as int;
        seq![
            base64_digit(x / 4),
            base64_digit((x % 4) * 16 + y / 16),
            base64_digit((y % 16) * 4 + z / 64),
            base64_digit(z % 64),
        ] + base64_encode_spec(b.subrange(3, b.len() as int))
    }
}

/// Four characters for every started group of three bytes.
pub proof fn lemma_base64_length(b: Seq<u8>)
    ensures
        base64_encode_spec(b).len() == 4 * ((b.len() + 2) / 3),
    decreases b.len(),
{
    if b.len() >= 3 {
        lemma_base64_length(b.subrange(3, b.len() as int));
    }
}

/// What `base64::engine::general_purpose::STANDARD.decode` returns for a
/// text: the bytes, or `None` where it reports a `DecodeError`.
pub uninterp spec fn base64_standard_decoding(text: Seq<char>) -> Option<Seq<u8>>;

/// Wraps `Engine::encode` of the standard engine.  Claims: the text is the
/// padded standard encoding of the bytes, and the standard engine decodes
/// it back to the same bytes.
/// The `requires` excludes lengths whose output size overflows `usize`, on
/// which the crate panics.
#[verifier::external_body]
fn standard_encode(input: &[u8]) -> (r: String)
    requires
        input@.len() / 3 * 4 + 4 <= usize::MAX,
    ensures
        r@ == base64_encode_spec(input@),
        base64_standard_decoding(r@) == Some(input@),
{
    base64::engine::general_purpose::STANDARD.encode(input)
}

/// Wraps `Engine::decode` of the standard engine over the UTF-8 bytes of the
/// text.  Claims: success exactly where the named decoding is defined, with
/// those bytes.
#[verifier::external_body]
fn standard_decode(input: &str) -> (r: Result<Vec<u8>, base64::DecodeError>)
    ensures
        match base64_standard_decoding(input@) {
            Some(bytes) => r matches Ok(v) && v@ == bytes,
            None => r is Err,
        },
{
    base64::engine::general_purpose::STANDARD.decode(input)
}

/// Wraps `DecodeError`'s `to_string`; nothing is claimed of the text.
#[verifier::external_body]
fn decode_error_text(error: &base64::DecodeError) -> String {
    error.to_string()
}

/// Base64 text of some bytes; decoding it gives the bytes back.
pub fn encode_base64(input: &[u8]) -> (r: String)
    requires
        input@.len() / 3 * 4 + 4 <= usize::MAX,
    ensures
        r@ == base64_encode_spec(input@),
        r@.len() == 4 * ((input@.len() + 2) / 3),
        base64_standard_decoding(r@) == Some(input@),
{
    proof {
        lemma_base64_length(input@);
    }
    standard_encode(input)
}

/// Bytes of a Base64 text; an invalid text is an `IoError` that is not
/// retryable.
pub fn decode_base64(input: &str) -> (r: Result<Vec<u8>, AppErrorDto>)
    ensures
        match base64_standard_decoding(input@) {
            Some(bytes) => r matches Ok(v) && v@ == bytes,
            None => r matches Err(e) && e.code == AppErrorCode::IoError
                && e.message@ == "Invalid base64 input"@ && e.details is Some && !e.retryable,
        },
{
    match standard_decode(input) {
        Ok(bytes) => Ok(bytes),
        Err(error) => {
            let details = decode_error_text(&error);
            let e = AppErrorDto::with_details(
                AppErrorCode::IoError,
                "Invalid base64 input",
                details.as_str(),
                false,
            );
            Err(e)
        },
    }
}

} // verus!
