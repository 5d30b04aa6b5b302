//! File contents as base64 text.

use base64::Engine;
use vstd::prelude::*;

verus! {

/// The character that stands for the six-bit number `value` in the standard alphabet.
pub open spec fn base64_char(value: int) -> char {
    if value < 26 {
        ('A' as int + value) as char
    } else if value < 52 {
        ('a' as int + value - 26) as char
    } else if value < 62 {
        ('0' as int + value - 52) as char
    } else if value == 62 {
        '+'
    } else {
        '/'
    }
}

/// The base64 text of `data`: four characters for every three bytes, most significant bits first,
/// padded with `=` to a multiple of four characters.
pub open spec fn base64_text(data: Seq<u8>) -> Seq<char>
    decreases data.len(),
{
    if data.len() == 0 {
        Seq::empty()
    } else {
        let a = data[0] as int;
        if data.len() == 1 {
            seq![base64_char(a / 4), base64_char(a % 4 * 16), '=', '=']
        } else {
            let b = data[1] as int;
            if data.len() == 2 {
                seq![
                    base64_char(a / 4),
                    base64_char(a % 4 * 16 + b / 16),
                    base64_char(b % 16 * 4),
                    '=',
                ]
            } else {
                let c = data[2] as int;
                seq![
                    base64_char(a / 4),
                    base64_char(a % 4 * 16 + b / 16),
                    base64_char(b % 16 * 4 + c / 64),
                    base64_char(c % 64),
                ] + base64_text(data.skip(3))
            }
        }
    }
}

/// The number of characters of the base64 text of `len` bytes.
pub open spec fn base64_len(len: nat) -> nat {
    (len + 2) / 3 * 4
}

/// `base64::Engine::encode` of the engine `general_purpose::STANDARD`: the text of the bytes in
/// the standard alphabet, with padding. The text is one allocation, so it has to fit in
/// `isize::MAX` bytes.
#[verifier::external_body]
pub(crate) fn encode_base64(data: &Vec<u8>) -> (text: String)
    requires
        base64_len(data@.len()) <= isize::MAX,
    ensures
        text@ == base64_text(data@),
{
    base64::engine::general_purpose::STANDARD.encode(data)
}

proof fn lemma_base64_char_injective(v: int, w: int)
    requires
        0 <= v < 64,
        0 <= w < 64,
        base64_char(v) == base64_char(w),
    ensures
        v == w,
{
}

proof fn lemma_base64_char_not_padding(v: int)
    requires
        0 <= v < 64,
    ensures
        base64_char(v) != '=',
{
}

/// The first group of four shows whether it stands for one byte, for two, or for three.
proof fn lemma_first_padding(data: Seq<u8>)
    requires
        data.len() > 0,
    ensures
        base64_text(data).len() >= 4,
        base64_text(data)[2] == '=' <==> data.len() == 1,
        base64_text(data)[3] == '=' <==> data.len() <= 2,
{
    if data.len() == 2 {
        lemma_base64_char_not_padding(data[1] as int % 16 * 4);
    } else if data.len() >= 3 {
        lemma_base64_char_not_padding(data[1] as int % 16 * 4 + data[2] as int / 64);
        lemma_base64_char_not_padding(data[2] as int % 64);
    }
}

/// The base64 text has as many characters as `base64_len` says.
pub proof fn lemma_base64_text_len(data: Seq<u8>)
    ensures
        base64_text(data).len() == base64_len(data.len()),
    decreases data.len(),
{
    if data.len() >= 3 {
        lemma_base64_text_len(data.skip(3));
    }
}

/// Files with the same base64 text have the same contents: nothing of a file is lost on the wire.
pub proof fn law_base64_determines_data(data: Seq<u8>, other: Seq<u8>)
    requires
        base64_text(data) == base64_text(other),
    ensures
        data == other,
    decreases data.len(),
{
    let text = base64_text(data);
    lemma_base64_text_len(data);
    lemma_base64_text_len(other);
    if data.len() == 0 || other.len() == 0 {
        assert(data =~= other);
    } else {
        lemma_first_padding(data);
        lemma_first_padding(other);
        let (a, d) = (data[0] as int, other[0] as int);
        assert(text[0] == base64_char(a / 4) && text[0] == base64_char(d / 4));
        lemma_base64_char_injective(a / 4, d / 4);
        if data.len() == 1 {
            assert(text[1] == base64_char(a % 4 * 16) && text[1] == base64_char(d % 4 * 16));
            lemma_base64_char_injective(a % 4 * 16, d % 4 * 16);
            assert(data =~= other);
        } else {
            let (b, e) = (data[1] as int, other[1] as int);
            assert(text[1] == base64_char(a % 4 * 16 + b / 16));
            assert(text[1] == base64_char(d % 4 * 16 + e / 16));
            lemma_base64_char_injective(a % 4 * 16 + b / 16, d % 4 * 16 + e / 16);
            if data.len() == 2 {
                assert(text[2] == base64_char(b % 16 * 4) && text[2] == base64_char(e % 16 * 4));
                lemma_base64_char_injective(b % 16 * 4, e % 16 * 4);
                assert(data =~= other);
            } else {
                let (c, f) = (data[2] as int, other[2] as int);
                assert(text[2] == base64_char(b % 16 * 4 + c / 64));
                assert(text[2] == base64_char(e % 16 * 4 + f / 64));
                assert(text[3] == base64_char(c % 64) && text[3] == base64_char(f % 64));
                lemma_base64_char_injective(b % 16 * 4 + c / 64, e % 16 * 4 + f / 64);
                lemma_base64_char_injective(c % 64, f % 64);
                assert(text.skip(4) =~= base64_text(data.skip(3)));
                assert(base64_text(other).skip(4) =~= base64_text(other.skip(3)));
                law_base64_determines_data(data.skip(3), other.skip(3));
                assert(data =~= data.take(3) + data.skip(3));
                assert(other =~= other.take(3) + other.skip(3));
                assert(data.take(3) =~= other.take(3));
            }
        }
    }
}

} // verus!
