//! Base64 encoding of file contents for the GUI.
use vstd::prelude::*;
use vstd::string::*;
use crate::api::{FileID, LoadedImage};

verus! {

/// The character of the standard base64 alphabet for a six-bit value.
pub open spec fn b64_digit(v: int) -> char {
    if v < 26 {
        (65 + v) as char
    } else if v < 52 {
        (97 + (v - 26)) as char
    } else if v < 62 {
        (48 + (v - 52)) as char
    } else if v == 62 {
        '+'
    } else {
        '/'
    }
}

/// Standard base64 (RFC 4648 alphabet, `=` padding) of `bytes`: every three bytes become
/// four characters, and a last group of one or two bytes is padded to four.
pub open spec fn base64_standard(bytes: Seq<u8>) -> Seq<char>
    decreases bytes.len(),
{
    if bytes.len() == 0 {
        Seq::empty()
    } else if bytes.len() == 1 {
        let b0 = bytes[0] as int;
        seq![b64_digit(b0 / 4), b64_digit((b0 % 4) * 16), '=', '=']
    } else if bytes.len() == 2 {
        let b0 = bytes[0] as int;
        let b1 = bytes[1] as int;
        seq![b64_digit(b0 / 4), b64_digit((b0 % 4) * 16 + b1 / 16), b64_digit((b1 % 16) * 4), '=']
    } else {
        let b0 = bytes[0] as int;
        let b1 = bytes[1] as int;
        let b2 = bytes[2] as int;
        seq![
            b64_digit(b0 / 4),
            b64_digit((b0 % 4) * 16 + b1 / 16),
            b64_digit((b1 % 16) * 4 + b2 / 64),
            b64_digit(b2 % 64),
        ] + base64_standard(bytes.subrange(3, bytes.len() as int))
    }
}

/// The length of the padded encoding of `n` bytes fits in a `usize`.
pub open spec fn encodable_len(n: nat) -> bool {
    4 * ((n + 2) / 3) <= usize::MAX
}

/// `base64::encode` from the base64 crate, which encodes with the standard alphabet and
/// `=` padding; it panics only when the encoded length overflows `usize`.
#[verifier::external_body]
fn base64_encode(input: &Vec<u8>) -> (r: String)
    requires
        encodable_len(input@.len()),
    ensures
        r@ == base64_standard(input@),
{
    base64::encode(input)
}

/// The image `file` whose contents are `bytes`, encoded for the GUI as a JPEG.
pub fn encode_image(file: FileID, bytes: Vec<u8>) -> (r: LoadedImage)
    requires
        encodable_len(bytes@.len()),
    ensures
        r.id == file,
        r.b64_data@ == base64_standard(bytes@),
        r.format@ == "jpg"@,
{
    let b64_string = base64_encode(&bytes);
    LoadedImage::new(file, b64_string, String::from_str("jpg"))
}

} // verus!
