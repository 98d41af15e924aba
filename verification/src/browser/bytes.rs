//! Bytes as text: in base64, and as far as they are UTF-8.
use vstd::prelude::*;
use vstd::string::*;
use vstd::utf8::*;

verus! {

/// The character that stands for six bits.
pub open spec fn base64_digit(n: int) -> char {
    if n < 26 {
        (('A' as int) + n) as char
    } else if n < 52 {
        (('a' as int) + n - 26) as char
    } else if n < 62 {
        (('0' as int) + n - 52) as char
    } else if n == 62 {
        '+'
    } else {
        '/'
    }
}

/// Three bytes as four characters.
pub open spec fn base64_group(a: u8, b: u8, c: u8) -> Seq<char> {
    let n = a * 65536 + b * 256 + c;
    seq![
        base64_digit(n / 262144),
        base64_digit(n / 4096 % 64),
        base64_digit(n / 64 % 64),
        base64_digit(n % 64),
    ]
}

/// Bytes in base64, in the usual alphabet and with padding.
pub open spec fn base64_text(bytes: Seq<u8>) -> Seq<char>
    decreases bytes.len(),
{
    if bytes.len() == 0 {
        Seq::empty()
    } else if bytes.len() == 1 {
        base64_group(bytes[0], 0, 0).take(2) + seq!['=', '=']
    } else if bytes.len() == 2 {
        base64_group(bytes[0], bytes[1], 0).take(3) + seq!['=']
    } else {
        base64_group(bytes[0], bytes[1], bytes[2]) + base64_text(bytes.skip(3))
    }
}

/// `base64::engine::general_purpose::STANDARD.encode`: bytes in base64, in the usual alphabet and
/// with padding. It panics where the length of the text does not fit, so that is left out.
#[verifier::external_body]
pub(crate) fn encode_base64(bytes: &Vec<u8>) -> (text: String)
    requires
        bytes@.len() <= usize::MAX / 2,
    ensures
        text@ == base64_text(bytes@),
{
    base64::Engine::encode(&base64::engine::general_purpose::STANDARD, bytes)
}

/// `std::str::from_utf8`: whether bytes are UTF-8.
#[verifier::external_body]
pub(crate) fn is_utf8(bytes: &Vec<u8>) -> (yes: bool)
    ensures
        yes == valid_utf8(bytes@),
{
    std::str::from_utf8(bytes).is_ok()
}

/// Bytes as text, as `String::from_utf8_lossy` reads them.
pub uninterp spec fn lossy_text(bytes: Seq<u8>) -> Seq<char>;

/// `String::from_utf8_lossy`: bytes as text. Bytes that are UTF-8 are read as such; what becomes of
/// others depends on the bytes alone.
#[verifier::external_body]
pub(crate) fn read_lossy(bytes: &Vec<u8>) -> (text: String)
    ensures
        text@ == lossy_text(bytes@),
        valid_utf8(bytes@) ==> text@ == decode_utf8(bytes@),
{
    String::from_utf8_lossy(bytes).into_owned()
}

/// Whether a text can be cut after some bytes: none of its characters stands across the cut.
pub open spec fn can_cut(text: Seq<char>, limit: usize) -> bool {
    encode_utf8(text).len() > limit ==> is_char_boundary(encode_utf8(text), limit as int)
}

/// Whether a text has more than some bytes.
pub open spec fn is_longer(text: Seq<char>, limit: usize) -> bool {
    encode_utf8(text).len() > limit
}

/// The part of a text within some bytes.
pub open spec fn cut(text: Seq<char>, limit: usize) -> Seq<char> {
    if is_longer(text, limit) {
        decode_utf8(encode_utf8(text).subrange(0, limit as int))
    } else {
        text
    }
}

/// Whether a text can be cut after some bytes.
pub fn fits_the_cut(text: &str, limit: usize) -> (yes: bool)
    ensures
        yes == can_cut(text@, limit),
{
    text.as_bytes().len() <= limit || text.is_char_boundary(limit)
}

/// The part of a text within some bytes, and whether there is more.
pub fn cut_text(text: &str, limit: usize) -> (part: (String, bool))
    requires
        can_cut(text@, limit),
    ensures
        part.0@ == cut(text@, limit),
        part.1 == is_longer(text@, limit),
{
    if text.as_bytes().len() > limit {
        let (head, _tail) = text.split_at(limit);
        proof {
            encode_utf8_decode_utf8(head@);
        }
        (head.to_owned(), true)
    } else {
        (text.to_owned(), false)
    }
}

/// What is cut off is only what is too long, and what is left is the beginning of the text.
pub proof fn cut_keeps_the_beginning(text: Seq<char>, limit: usize)
    requires
        can_cut(text, limit),
    ensures
        encode_utf8(cut(text, limit)).len() <= limit,
        cut(text, limit).is_prefix_of(text),
{
    let bytes = encode_utf8(text);
    encode_utf8_valid_utf8(text);
    encode_utf8_decode_utf8(text);
    if is_longer(text, limit) {
        let head = bytes.subrange(0, limit as int);
        valid_utf8_split(bytes, limit as int);
        decode_utf8_split(bytes, limit as int);
        decode_utf8_encode_utf8(head);
        let tail = decode_utf8(bytes.subrange(limit as int, bytes.len() as int));
        assert(text =~= decode_utf8(head) + tail);
    }
}

} // verus!
