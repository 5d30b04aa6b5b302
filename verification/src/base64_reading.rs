//! How base64 text is read back into the bytes that it was written from.

use crate::attachment_data::{base64_char, base64_text};
use vstd::prelude::*;

verus! {

/// The six-bit number that a character of the standard alphabet stands for; 64 for any other.
pub open spec fn base64_value(c: char) -> int {
    if 'A' <= c <= 'Z' {
        c as int - 65
    } else if 'a' <= c <= 'z' {
        c as int - 97 + 26
    } else if '0' <= c <= '9' {
        c as int - 48 + 52
    } else if c == '+' {
        62
    } else if c == '/' {
        63
    } else {
        64
    }
}

/// The 24-bit number that four six-bit numbers make up.
pub open spec fn group_bits(p: int, q: int, r: int, s: int) -> int {
    p * 262144 + q * 4096 + r * 64 + s
}

/// The value of a character, where padding counts as zero.
pub open spec fn padded_value(c: char) -> int {
    if c == '=' {
        0
    } else {
        base64_value(c)
    }
}

/// The bytes that a base64 text in groups of four characters stands for. A padding character cuts
/// the last group short.
pub open spec fn read_base64(text: Seq<char>) -> Seq<u8>
    decreases text.len(),
{
    if text.len() < 4 {
        Seq::empty()
    } else {
        let bits = group_bits(
            base64_value(text[0]),
            base64_value(text[1]),
            padded_value(text[2]),
            padded_value(text[3]),
        );
        let first = (bits / 65536) as u8;
        let second = (bits / 256 % 256) as u8;
        let third = (bits % 256) as u8;
        if text[2] == '=' {
            seq![first]
        } else if text[3] == '=' {
            seq![first, second]
        } else {
            seq![first, second, third] + read_base64(text.skip(4))
        }
    }
}

/// Three bytes, cut into four six-bit numbers, are put together again.
proof fn lemma_group_bits(a: int, b: int, c: int)
    requires
        0 <= a < 256,
        0 <= b < 256,
        0 <= c < 256,
    ensures
        ({
            let bits = group_bits(a / 4, a % 4 * 16 + b / 16, b % 16 * 4 + c / 64, c % 64);
            &&& bits / 65536 == a
            &&& bits / 256 % 256 == b
            &&& bits % 256 == c
        }),
{
    let bits = group_bits(a / 4, a % 4 * 16 + b / 16, b % 16 * 4 + c / 64, c % 64);
    assert(bits == a * 65536 + b * 256 + c);
}

proof fn lemma_base64_char_read(value: int)
    requires
        0 <= value < 64,
    ensures
        base64_value(base64_char(value)) == value,
        base64_char(value) != '=',
{
}

/// The base64 text of a file is read back as the bytes of the file.
pub proof fn law_base64_reads_back(data: Seq<u8>)
    ensures
        read_base64(base64_text(data)) == data,
    decreases data.len(),
{
    let text = base64_text(data);
    if data.len() == 0 {
        assert(data =~= Seq::empty());
    } else {
        let a = data[0] as int;
        let b = if data.len() > 1 {
            data[1] as int
        } else {
            0
        };
        let c = if data.len() > 2 {
            data[2] as int
        } else {
            0
        };
        lemma_group_bits(a, b, c);
        lemma_base64_char_read(a / 4);
        lemma_base64_char_read(a % 4 * 16 + b / 16);
        lemma_base64_char_read(b % 16 * 4 + c / 64);
        lemma_base64_char_read(c % 64);
        if data.len() >= 3 {
            assert(text.skip(4) =~= base64_text(data.skip(3)));
            law_base64_reads_back(data.skip(3));
        }
        assert(read_base64(text) =~= data);
    }
}

} // verus!
