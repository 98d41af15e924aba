//! What holds of bytes that are written as text.
use vstd::prelude::*;

use crate::browser::bytes;

verus! {

/// The number that a letter of the alphabet of sixty-four stands for.
pub open spec fn digit_value(c: char) -> int {
    if 'A' <= c <= 'Z' {
        c as int - 'A' as int
    } else if 'a' <= c <= 'z' {
        c as int - 'a' as int + 26
    } else if '0' <= c <= '9' {
        c as int - '0' as int + 52
    } else if c == '+' {
        62
    } else {
        63
    }
}

proof fn lemma_digit(n: int)
    requires
        0 <= n < 64,
    ensures
        digit_value(bytes::base64_digit(n)) == n,
        bytes::base64_digit(n) != '=',
{
}

/// The number that four letters stand for.
pub open spec fn group_value(letters: Seq<char>) -> int {
    digit_value(letters[0]) * 262144 + digit_value(letters[1]) * 4096 + digit_value(letters[2]) * 64
        + digit_value(letters[3])
}

/// Three bytes are four letters, which stand for the same number.
pub proof fn three_bytes_are_four_letters(a: u8, b: u8, c: u8)
    ensures
        ({
            let letters = bytes::base64_text(seq![a, b, c]);
            &&& letters.len() == 4
            &&& group_value(letters) == a * 65536 + b * 256 + c
            &&& forall|i: int| 0 <= i < 4 ==> #[trigger] letters[i] != '='
        }),
{
    let bytes = seq![a, b, c];
    assert(bytes.skip(3) =~= Seq::<u8>::empty());
    assert(bytes::base64_text(bytes.skip(3)) =~= Seq::<char>::empty());
    let n: int = a * 65536 + b * 256 + c;
    lemma_digit(n / 262144);
    lemma_digit(n / 4096 % 64);
    lemma_digit(n / 64 % 64);
    lemma_digit(n % 64);
    assert(n == n / 262144 * 262144 + n / 4096 % 64 * 4096 + n / 64 % 64 * 64 + n % 64);
    let letters = bytes::base64_text(bytes);
    assert(letters =~= bytes::base64_group(a, b, c));
}

/// A last byte is two letters and two marks, and two last bytes are three letters and one mark.
pub proof fn last_bytes_are_filled_up(a: u8, b: u8)
    ensures
        ({
            let one = bytes::base64_text(seq![a]);
            let two = bytes::base64_text(seq![a, b]);
            &&& one.len() == 4
            &&& digit_value(one[0]) * 64 + digit_value(one[1]) == a * 16
            &&& one[2] == '=' && one[3] == '='
            &&& two.len() == 4
            &&& digit_value(two[0]) * 4096 + digit_value(two[1]) * 64 + digit_value(two[2]) == (a * 256
                + b) * 4
            &&& two[2] != '=' && two[3] == '='
        }),
{
    let n: int = a * 65536;
    let m: int = a * 65536 + b * 256;
    lemma_last_bytes(a, b);
    lemma_digit(n / 262144);
    lemma_digit(n / 4096 % 64);
    lemma_digit(m / 262144);
    lemma_digit(m / 4096 % 64);
    lemma_digit(m / 64 % 64);
    let one = bytes::base64_text(seq![a]);
    let two = bytes::base64_text(seq![a, b]);
    assert(one =~= bytes::base64_group(a, 0, 0).take(2) + seq!['=', '=']);
    assert(two =~= bytes::base64_group(a, b, 0).take(3) + seq!['=']);
}

proof fn lemma_last_bytes(a: u8, b: u8)
    ensures
        ({
            let n: int = a * 65536;
            let m: int = a * 65536 + b * 256;
            &&& 0 <= n / 262144 < 64
            &&& 0 <= m / 262144 < 64
            &&& n / 262144 * 64 + n / 4096 % 64 == a * 16
            &&& m / 262144 * 4096 + m / 4096 % 64 * 64 + m / 64 % 64 == (a * 256 + b) * 4
        }),
{
    let k: int = a * 256 + b;
    assert(a * 65536 / 4096 == a * 16);
    assert(a * 65536 / 262144 == a * 16 / 64);
    assert((a * 65536 + b * 256) / 64 == k * 4);
    assert((a * 65536 + b * 256) / 4096 == k * 4 / 64);
    assert((a * 65536 + b * 256) / 262144 == k * 4 / 64 / 64);
}

/// The letters of bytes in threes are followed by those of the bytes behind them.
pub proof fn letters_follow_the_bytes(a: Seq<u8>, b: Seq<u8>)
    requires
        a.len() % 3 == 0,
    ensures
        bytes::base64_text(a + b) == bytes::base64_text(a) + bytes::base64_text(b),
        bytes::base64_text(Seq::empty()) == Seq::<char>::empty(),
    decreases a.len(),
{
    if a.len() == 0 {
        assert(a + b =~= b);
        assert(bytes::base64_text(a) =~= Seq::<char>::empty());
        assert(bytes::base64_text(a + b) =~= bytes::base64_text(a) + bytes::base64_text(b));
    } else {
        assert((a + b).skip(3) =~= a.skip(3) + b);
        letters_follow_the_bytes(a.skip(3), b);
        assert(bytes::base64_text(a + b) =~= bytes::base64_text(a) + bytes::base64_text(b));
    }
}

} // verus!
