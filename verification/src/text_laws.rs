//! What holds of the text helpers, in terms of the characters alone.

use crate::text::{
    from_first, is_blank_text, is_white_space, joined, last_segment, lemma_trimmed_empty_iff_blank,
    trimmed,
};
use vstd::prelude::*;

verus! {

/// Whether `text` holds a character that is not white space.
pub open spec fn has_ink(text: Seq<char>) -> bool {
    exists|i: int| 0 <= i < text.len() && !is_white_space(#[trigger] text[i])
}

/// No visible ASCII character is white space; the space, the tabulator and the line ends are.
pub proof fn law_white_space(c: char)
    ensures
        '!' <= c <= '~' ==> !is_white_space(c),
        c == ' ' || c == '\t' || c == '\n' || c == '\r' ==> is_white_space(c),
{
}

/// A text is blank exactly if it has no ink, and trimming leaves something of it exactly if it has.
pub proof fn law_blank_texts_have_no_ink(text: Seq<char>)
    ensures
        is_blank_text(text) <==> !has_ink(text),
        trimmed(text).len() > 0 <==> has_ink(text),
{
    lemma_trimmed_empty_iff_blank(text);
}

/// Trimming takes white space off both ends and nothing else, and leaves none there.
pub proof fn law_trimming(text: Seq<char>)
    ensures
        exists|head: Seq<char>, tail: Seq<char>|
            {
                &&& text == #[trigger] (head + trimmed(text) + tail)
                &&& !has_ink(head)
                &&& !has_ink(tail)
            },
        trimmed(text).len() > 0 ==> !is_white_space(trimmed(text).first()) && !is_white_space(
            trimmed(text).last(),
        ),
    decreases text.len(),
{
    let rest = trimmed(text);
    if text.len() > 0 && is_white_space(text.first()) {
        let shorter = text.drop_first();
        law_trimming(shorter);
        let (head, tail) = choose|head: Seq<char>, tail: Seq<char>|
            {
                &&& shorter == #[trigger] (head + trimmed(shorter) + tail)
                &&& !has_ink(head)
                &&& !has_ink(tail)
            };
        let longer = seq![text.first()] + head;
        assert(text =~= seq![text.first()] + shorter);
        assert(longer + rest + tail =~= seq![text.first()] + (head + rest + tail));
        assert forall|i: int| 0 <= i < longer.len() implies is_white_space(
            #[trigger] longer[i],
        ) by {
            if i > 0 {
                assert(longer[i] == head[i - 1]);
            }
        }
        assert(!has_ink(longer));
    } else if text.len() > 0 && is_white_space(text.last()) {
        let shorter = text.drop_last();
        law_trimming(shorter);
        let (head, tail) = choose|head: Seq<char>, tail: Seq<char>|
            {
                &&& shorter == #[trigger] (head + trimmed(shorter) + tail)
                &&& !has_ink(head)
                &&& !has_ink(tail)
            };
        let longer = tail.push(text.last());
        assert(text =~= shorter.push(text.last()));
        assert(head + rest + longer =~= (head + rest + tail).push(text.last()));
        assert forall|i: int| 0 <= i < longer.len() implies is_white_space(
            #[trigger] longer[i],
        ) by {
            if i < tail.len() {
                assert(longer[i] == tail[i]);
            }
        }
        assert(!has_ink(longer));
    } else {
        let nothing = Seq::<char>::empty();
        assert(text =~= nothing + rest + nothing);
        assert(!has_ink(nothing));
    }
}

/// The last segment has no separator in it; all of the text is the last segment if it has none, and
/// else a separator stands right in front of the segment, which goes on to the end.
pub proof fn law_last_segment(text: Seq<char>, separator: char)
    ensures
        !last_segment(text, separator).contains(separator),
        !text.contains(separator) ==> last_segment(text, separator) == text,
        text.contains(separator) ==> exists|head: Seq<char>|
            text == #[trigger] head.push(separator) + last_segment(text, separator),
    decreases text.len(),
{
    let segment = last_segment(text, separator);
    if text.len() == 0 {
        assert(segment =~= text);
    } else {
        let shorter = text.drop_last();
        let last = text.last();
        assert(text =~= shorter.push(last));
        assert(text[text.len() - 1] == last);
        if last == separator {
            assert(text =~= shorter.push(separator) + segment);
        } else {
            law_last_segment(shorter, separator);
            if text.contains(separator) {
                let i = choose|i: int| 0 <= i < text.len() && text[i] == separator;
                assert(shorter[i] == separator);
                let head = choose|head: Seq<char>|
                    shorter == #[trigger] head.push(separator) + last_segment(shorter, separator);
                assert(text =~= head.push(separator) + segment);
            } else if shorter.contains(separator) {
                let i = choose|i: int| 0 <= i < shorter.len() && shorter[i] == separator;
                assert(text[i] == separator);
            }
            if segment.contains(separator) {
                let i = choose|i: int| 0 <= i < segment.len() && segment[i] == separator;
                assert(last_segment(shorter, separator)[i] == separator);
            }
        }
    }
}

/// Nothing is left of a text without a separator; else the rest starts with a separator, goes on to
/// the end, and no separator stands in front of it.
pub proof fn law_from_first(text: Seq<char>, separator: char)
    ensures
        !text.contains(separator) ==> from_first(text, separator).len() == 0,
        text.contains(separator) ==> from_first(text, separator).len() > 0 && from_first(
            text,
            separator,
        ).first() == separator,
        exists|head: Seq<char>|
            text == #[trigger] (head + from_first(text, separator)) && !head.contains(separator),
    decreases text.len(),
{
    let rest = from_first(text, separator);
    if text.len() == 0 || text.first() == separator {
        let nothing = Seq::<char>::empty();
        assert(text =~= nothing + rest);
        if text.len() > 0 {
            assert(text[0] == separator);
        }
    } else {
        let shorter = text.drop_first();
        law_from_first(shorter, separator);
        if text.contains(separator) {
            let i = choose|i: int| 0 <= i < text.len() && text[i] == separator;
            assert(shorter[i - 1] == separator);
        } else if shorter.contains(separator) {
            let i = choose|i: int| 0 <= i < shorter.len() && shorter[i] == separator;
            assert(text[i + 1] == separator);
        }
        let head = choose|head: Seq<char>|
            shorter == #[trigger] (head + from_first(shorter, separator)) && !head.contains(
                separator,
            );
        let longer = seq![text.first()] + head;
        assert(text =~= seq![text.first()] + shorter);
        assert(longer + rest =~= seq![text.first()] + (head + rest));
        if longer.contains(separator) {
            let i = choose|i: int| 0 <= i < longer.len() && longer[i] == separator;
            assert(head[i - 1] == separator);
        }
    }
}

/// Joined parts stand one after the other with the separator in between: one part alone is joined
/// as it is, and two lists are joined by joining each and putting the separator between them.
pub proof fn law_joining(a: Seq<Seq<char>>, b: Seq<Seq<char>>, separator: Seq<char>, part: Seq<char>)
    ensures
        joined(Seq::empty(), separator).len() == 0,
        joined(seq![part], separator) == part,
        a.len() > 0 && b.len() > 0 ==> joined(a + b, separator) == joined(a, separator) + separator
            + joined(b, separator),
    decreases b.len(),
{
    if a.len() > 0 && b.len() > 0 {
        assert((a + b).drop_last() =~= a + b.drop_last());
        assert((a + b).last() == b.last());
        if b.len() == 1 {
            assert(a + b.drop_last() =~= a);
        } else {
            law_joining(a, b.drop_last(), separator, part);
            assert(joined(a, separator) + separator + joined(b.drop_last(), separator) + separator
                + b.last() =~= joined(a, separator) + separator + (joined(
                b.drop_last(),
                separator,
            ) + separator + b.last()));
        }
    }
}

} // verus!
