//! Text helpers: white space, segments between colons, and joining.

use vstd::prelude::*;

verus! {

/// The characters with the Unicode property `White_Space`.
pub open spec fn is_white_space(c: char) -> bool {
    ||| '\u{9}' <= c <= '\u{d}'
    ||| c == '\u{20}'
    ||| c == '\u{85}'
    ||| c == '\u{a0}'
    ||| c == '\u{1680}'
    ||| '\u{2000}' <= c <= '\u{200a}'
    ||| c == '\u{2028}'
    ||| c == '\u{2029}'
    ||| c == '\u{202f}'
    ||| c == '\u{205f}'
    ||| c == '\u{3000}'
}

/// `text` without its leading and trailing white space.
pub open spec fn trimmed(text: Seq<char>) -> Seq<char>
    decreases text.len(),
{
    if text.len() > 0 && is_white_space(text.first()) {
        trimmed(text.drop_first())
    } else if text.len() > 0 && is_white_space(text.last()) {
        trimmed(text.drop_last())
    } else {
        text
    }
}

/// True of a text that holds nothing but white space.
pub open spec fn is_blank_text(text: Seq<char>) -> bool {
    forall|i: int| 0 <= i < text.len() ==> is_white_space(#[trigger] text[i])
}

/// The characters of `text` behind its last `separator`; all of `text` if it holds none.
pub open spec fn last_segment(text: Seq<char>, separator: char) -> Seq<char>
    decreases text.len(),
{
    if text.len() == 0 || text.last() == separator {
        Seq::empty()
    } else {
        last_segment(text.drop_last(), separator).push(text.last())
    }
}

/// The characters of `text` from its first `separator` on; empty if it holds none.
pub open spec fn from_first(text: Seq<char>, separator: char) -> Seq<char>
    decreases text.len(),
{
    if text.len() == 0 || text.first() == separator {
        text
    } else {
        from_first(text.drop_first(), separator)
    }
}

/// `parts`, one after the other, with `separator` between neighbours.
pub open spec fn joined(parts: Seq<Seq<char>>, separator: Seq<char>) -> Seq<char>
    decreases parts.len(),
{
    if parts.len() == 0 {
        Seq::empty()
    } else if parts.len() == 1 {
        parts[0]
    } else {
        joined(parts.drop_last(), separator) + separator + parts.last()
    }
}

/// `str::trim`: the text without leading and trailing white space, where white space is the
/// Unicode property `White_Space`.
pub assume_specification[ str::trim ](text: &str) -> (rest: &str)
    ensures
        rest@ == trimmed(text@),
;

/// `String::push`: appends one character.
pub assume_specification[ String::push ](text: &mut String, c: char)
    ensures
        final(text)@ == old(text)@.push(c),
;

/// The conversion of a value into its own type: the value unchanged.
pub assume_specification<A>[ <A as From<A>>::from ](value: A) -> (same: A)
    ensures
        same == value,
;

/// `String::from` of a string slice: a string with the same characters.
pub assume_specification<'a>[ <String as From<&'a str>>::from ](value: &str) -> (text: String)
    ensures
        text@ == value@,
;

/// A text is blank exactly if nothing is left of it once it is trimmed.
pub proof fn lemma_trimmed_empty_iff_blank(text: Seq<char>)
    ensures
        trimmed(text).len() == 0 <==> is_blank_text(text),
    decreases text.len(),
{
    if text.len() > 0 && is_white_space(text.first()) {
        lemma_trimmed_empty_iff_blank(text.drop_first());
        assert forall|i: int| is_blank_text(text.drop_first()) && 0 <= i < text.len() implies
            is_white_space(#[trigger] text[i]) by {
            if i > 0 {
                assert(text.drop_first()[i - 1] == text[i]);
            }
        }
        assert forall|i: int| is_blank_text(text) && 0 <= i < text.drop_first().len() implies
            is_white_space(#[trigger] text.drop_first()[i]) by {
            assert(text.drop_first()[i] == text[i + 1]);
        }
    } else if text.len() > 0 && is_white_space(text.last()) {
        assert(!is_white_space(text[0]));
        lemma_trimmed_empty_iff_blank(text.drop_last());
        assert(text.drop_last()[0] == text[0]);
    } else if text.len() > 0 {
        assert(!is_white_space(text[0]));
    }
}

/// Trimming a second time changes nothing.
pub proof fn lemma_trimmed_idempotent(text: Seq<char>)
    ensures
        trimmed(trimmed(text)) == trimmed(text),
    decreases text.len(),
{
    if text.len() > 0 && is_white_space(text.first()) {
        lemma_trimmed_idempotent(text.drop_first());
    } else if text.len() > 0 && is_white_space(text.last()) {
        lemma_trimmed_idempotent(text.drop_last());
    }
}

/// The last segment of a text that ends in a separator and a tail free of it is that tail.
pub proof fn lemma_last_segment_of_suffix(head: Seq<char>, tail: Seq<char>, separator: char)
    requires
        !tail.contains(separator),
    ensures
        last_segment(head.push(separator) + tail, separator) == tail,
    decreases tail.len(),
{
    let text = head.push(separator) + tail;
    if tail.len() == 0 {
        assert(text.last() == separator);
    } else {
        let shorter = tail.drop_last();
        assert(!shorter.contains(separator)) by {
            if shorter.contains(separator) {
                let i = choose|i: int| 0 <= i < shorter.len() && shorter[i] == separator;
                assert(tail[i] == separator);
            }
        }
        lemma_last_segment_of_suffix(head, shorter, separator);
        assert(text.drop_last() =~= head.push(separator) + shorter);
        assert(text.last() == tail.last());
        assert(tail.contains(tail.last())) by {
            assert(tail[tail.len() - 1] == tail.last());
        }
        assert(shorter.push(tail.last()) =~= tail);
    }
}

/// A separator in front of which there is none starts the text that `from_first` gives.
pub proof fn lemma_from_first_of_prefix(head: Seq<char>, tail: Seq<char>, separator: char)
    requires
        !head.contains(separator),
    ensures
        from_first(head + seq![separator] + tail, separator) == seq![separator] + tail,
    decreases head.len(),
{
    let text = head + seq![separator] + tail;
    if head.len() == 0 {
        assert(text =~= seq![separator] + tail);
    } else {
        assert(head.contains(head[0]));
        let rest = head.drop_first();
        assert(!rest.contains(separator)) by {
            if rest.contains(separator) {
                let i = choose|i: int| 0 <= i < rest.len() && rest[i] == separator;
                assert(head[i + 1] == separator);
            }
        }
        lemma_from_first_of_prefix(rest, tail, separator);
        assert(text.drop_first() =~= rest + seq![separator] + tail);
    }
}

/// Whether `text` is blank.
pub fn is_blank(text: &str) -> (blank: bool)
    ensures
        blank == is_blank_text(text@),
{
    proof {
        lemma_trimmed_empty_iff_blank(text@);
    }
    text.trim().is_empty()
}

/// The part of `text` behind its last `separator`.
pub(crate) fn split_last(text: &str, separator: char) -> (tail: String)
    ensures
        tail@ == last_segment(text@, separator),
{
    let mut tail = String::new();
    for c in chars: text.chars()
        invariant
            chars.seq() == text@,
            tail@ == last_segment(text@.take(chars.index() as int), separator),
    {
        proof {
            let done = chars.index() as int;
            assert(text@.take(done + 1).drop_last() =~= text@.take(done));
            assert(text@.take(done + 1).last() == c);
        }
        if c == separator {
            tail = String::new();
        } else {
            tail.push(c);
        }
    }
    assert(text@.take(text@.len() as int) =~= text@);
    tail
}

/// The part of `text` from its first `separator` on.
pub(crate) fn split_first(text: &str, separator: char) -> (rest: String)
    ensures
        rest@ == from_first(text@, separator),
{
    let mut rest = String::new();
    let mut found: bool = false;
    assert(text@.skip(0) =~= text@);
    for c in chars: text.chars()
        invariant
            chars.seq() == text@,
            !found ==> rest@.len() == 0 && from_first(text@, separator) == from_first(
                text@.skip(chars.index() as int),
                separator,
            ),
            found ==> from_first(text@, separator) == rest@ + text@.skip(chars.index() as int),
    {
        proof {
            let remaining = text@.skip(chars.index() as int);
            assert(remaining.first() == c);
            assert(remaining.drop_first() =~= text@.skip(chars.index() + 1));
            assert(remaining =~= seq![c] + remaining.drop_first());
        }
        if found || c == separator {
            found = true;
            rest.push(c);
        }
    }
    assert(text@.skip(text@.len() as int) =~= Seq::empty());
    rest
}

/// Joins `parts` with `separator` between neighbours.
pub(crate) fn join(parts: &Vec<String>, separator: &str) -> (text: String)
    ensures
        text@ == joined(parts.deep_view(), separator@),
{
    let mut text = String::new();
    let mut i: usize = 0;
    assert(parts.deep_view().take(0) =~= Seq::empty());
    while i < parts.len()
        invariant
            i <= parts.len(),
            text@ == joined(parts.deep_view().take(i as int), separator@),
        decreases parts.len() - i,
    {
        proof {
            let next = parts.deep_view().take(i + 1);
            assert(next.drop_last() =~= parts.deep_view().take(i as int));
            assert(next.last() == parts[i as int]@);
        }
        if i > 0 {
            text = text.concat(separator);
        }
        text = text.concat(parts[i].as_str());
        i += 1;
    }
    assert(parts.deep_view().take(parts.len() as int) =~= parts.deep_view());
    text
}

} // verus!
