//! JSON values as far as the adapter reads and writes them, and their compact text.

use crate::string_map::{entries_map, lemma_entries_map_dom};
use vstd::prelude::*;

verus! {

/// One member of a JSON object: a name with a string, or with `null`.
#[derive(Debug)]
pub struct JsonMember {
    pub name: String,
    pub value: Option<String>,
}

/// A JSON value. Objects are flat: their members are strings or `null`.
#[derive(Debug)]
pub enum JsonValue {
    Null,
    Bool(bool),
    Text(String),
    Object(Vec<JsonMember>),
}

/// What a `JsonValue` stands for. The members of an object are pairs of a name and a value; of
/// two members with the same name the later one counts.
#[verifier::ext_equal]
pub enum JsonModel {
    Null,
    Bool(bool),
    Text(Seq<char>),
    Object(Seq<(Seq<char>, Option<Seq<char>>)>),
}

/// Whether `a` comes before `b` when texts are ordered by their first difference in code points,
/// a text before its own extensions.
pub open spec fn precedes(a: Seq<char>, b: Seq<char>) -> bool {
    exists|k: int|
        {
            &&& 0 <= k <= a.len()
            &&& k < b.len()
            &&& #[trigger] a.take(k) == b.take(k)
            &&& k == a.len() || a[k] < b[k]
        }
}

/// Whether the names of `members` are in strictly ascending order.
pub open spec fn ascending(members: Seq<(Seq<char>, Option<Seq<char>>)>) -> bool {
    forall|i: int, j: int|
        0 <= i < j < members.len() ==> precedes(
            (#[trigger] members[i]).0,
            (#[trigger] members[j]).0,
        )
}

/// Ascending `members` with one more, in its place among them, or in place of the one with the
/// same name.
pub open spec fn with_member(
    members: Seq<(Seq<char>, Option<Seq<char>>)>,
    member: (Seq<char>, Option<Seq<char>>),
) -> Seq<(Seq<char>, Option<Seq<char>>)>
    decreases members.len(),
{
    if members.len() == 0 || precedes(members.last().0, member.0) {
        members.push(member)
    } else if members.last().0 == member.0 {
        members.drop_last().push(member)
    } else {
        with_member(members.drop_last(), member).push(members.last())
    }
}

/// `members` in ascending order of their names, the last one of each name.
pub open spec fn sorted(members: Seq<(Seq<char>, Option<Seq<char>>)>) -> Seq<
    (Seq<char>, Option<Seq<char>>),
>
    decreases members.len(),
{
    if members.len() == 0 {
        Seq::empty()
    } else {
        with_member(sorted(members.drop_last()), members.last())
    }
}

impl JsonModel {
    /// True of every value but an object whose names are not in strictly ascending order.
    pub open spec fn canonical(self) -> bool {
        match self {
            JsonModel::Object(members) => ascending(members),
            _ => true,
        }
    }
}

/// Whether two values are the same but for the order in which the members of an object are named,
/// and for members that a later one with the same name overrides.
pub open spec fn same_value(v: JsonModel, w: JsonModel) -> bool {
    match (v, w) {
        (JsonModel::Object(m), JsonModel::Object(n)) => entries_map(m) == entries_map(n),
        _ => v == w,
    }
}

impl View for JsonMember {
    type V = (Seq<char>, Option<Seq<char>>);

    open spec fn view(&self) -> (Seq<char>, Option<Seq<char>>) {
        (self.name@, self.value.deep_view())
    }
}

impl View for JsonValue {
    type V = JsonModel;

    open spec fn view(&self) -> JsonModel {
        match self {
            JsonValue::Null => JsonModel::Null,
            JsonValue::Bool(flag) => JsonModel::Bool(*flag),
            JsonValue::Text(text) => JsonModel::Text(text@),
            JsonValue::Object(members) => JsonModel::Object(
                members@.map_values(|member: JsonMember| member@),
            ),
        }
    }
}

/// The lower-case hexadecimal digit of `value`.
pub open spec fn hex_digit(value: int) -> char {
    if value < 10 {
        ('0' as int + value) as char
    } else {
        ('a' as int + value - 10) as char
    }
}

/// How `c` is written inside a JSON string.
pub open spec fn escaped_char(c: char) -> Seq<char> {
    if c == '"' || c == '\\' {
        seq!['\\', c]
    } else if c == '\u{8}' {
        seq!['\\', 'b']
    } else if c == '\u{9}' {
        seq!['\\', 't']
    } else if c == '\u{a}' {
        seq!['\\', 'n']
    } else if c == '\u{c}' {
        seq!['\\', 'f']
    } else if c == '\u{d}' {
        seq!['\\', 'r']
    } else if '\u{20}' > c {
        seq!['\\', 'u', '0', '0', hex_digit(c as int / 16), hex_digit(c as int % 16)]
    } else {
        seq![c]
    }
}

/// How the characters of `text` are written inside a JSON string.
pub open spec fn escaped(text: Seq<char>) -> Seq<char>
    decreases text.len(),
{
    if text.len() == 0 {
        Seq::empty()
    } else {
        escaped_char(text.first()) + escaped(text.drop_first())
    }
}

/// `text` as a JSON string.
pub open spec fn quoted(text: Seq<char>) -> Seq<char> {
    seq!['"'] + (escaped(text) + seq!['"'])
}

/// The word `null`.
pub open spec fn null_text() -> Seq<char> {
    seq!['n', 'u', 'l', 'l']
}

/// The value of a member as JSON.
pub open spec fn member_value_text(value: Option<Seq<char>>) -> Seq<char> {
    match value {
        Some(text) => quoted(text),
        None => null_text(),
    }
}

/// The members of an object as JSON, from the first of them to the closing brace.
pub open spec fn members_text(members: Seq<(Seq<char>, Option<Seq<char>>)>) -> Seq<char>
    decreases members.len(),
{
    if members.len() == 0 {
        seq!['}']
    } else {
        quoted(members.first().0) + (seq![':'] + (member_value_text(members.first().1) + (
        if members.len() == 1 {
            seq!['}']
        } else {
            seq![','] + members_text(members.drop_first())
        })))
    }
}

/// `value` as JSON without white space, the members of an object in ascending order.
pub open spec fn json_text(value: JsonModel) -> Seq<char> {
    match value {
        JsonModel::Null => null_text(),
        JsonModel::Bool(flag) => if flag {
            seq!['t', 'r', 'u', 'e']
        } else {
            seq!['f', 'a', 'l', 's', 'e']
        },
        JsonModel::Text(text) => quoted(text),
        JsonModel::Object(members) => seq!['{'] + members_text(sorted(members)),
    }
}

/// The errors of `serde_json`.
#[verifier::external_type_specification]
#[verifier::external_body]
pub struct ExJsonError(serde_json::Error);

/// `serde_json::to_string` of a `serde_json::Value`: the value in compact form, with the escapes
/// of `escaped_char` in its strings. The members of an object are held in ascending order of
/// their names, a later one in place of an earlier one with its name. Writing such a value to a
/// string cannot fail: an object's names are strings, and no value decides to fail.
#[verifier::external_body]
pub(crate) fn write_json(value: &JsonValue) -> (text: Result<String, serde_json::Error>)
    ensures
        text is Ok,
        text->Ok_0@ == json_text(value@),
{
    let value = match value {
        JsonValue::Null => serde_json::Value::Null,
        JsonValue::Bool(flag) => serde_json::Value::Bool(*flag),
        JsonValue::Text(text) => serde_json::Value::String(text.clone()),
        JsonValue::Object(members) => serde_json::Value::Object(
            members
                .iter()
                .map(|member| (member.name.clone(), serde_json::Value::from(member.value.clone())))
                .collect(),
        ),
    };
    serde_json::to_string(&value)
}

impl JsonValue {
    /// The text of a string value.
    pub fn as_str(&self) -> (text: Option<&str>)
        ensures
            text.deep_view() == (match self@ {
                JsonModel::Text(text) => Some(text),
                _ => None,
            }),
    {
        match self {
            JsonValue::Text(text) => Some(text.as_str()),
            _ => None,
        }
    }

    /// The flag of a boolean value.
    pub fn as_bool(&self) -> (flag: Option<bool>)
        ensures
            flag == (match self@ {
                JsonModel::Bool(flag) => Some(flag),
                _ => None,
            }),
    {
        match self {
            JsonValue::Bool(flag) => Some(*flag),
            _ => None,
        }
    }
}

/// Texts that differ in their first characters are ordered by these.
pub proof fn lemma_precedes_by_first(a: Seq<char>, b: Seq<char>)
    requires
        a.len() > 0,
        b.len() > 0,
        a[0] < b[0],
    ensures
        precedes(a, b),
{
    assert(a.take(0) =~= b.take(0));
}

/// True of a text without control characters.
pub open spec fn is_printable(text: Seq<char>) -> bool {
    forall|i: int| 0 <= i < text.len() ==> #[trigger] text[i] >= '\u{20}'
}

pub proof fn lemma_printable_concat(a: Seq<char>, b: Seq<char>)
    requires
        is_printable(a),
        is_printable(b),
    ensures
        is_printable(a + b),
{
}

proof fn lemma_escaped_char_printable(c: char)
    ensures
        is_printable(escaped_char(c)),
{
    let text = escaped_char(c);
    assert forall|i: int| 0 <= i < text.len() implies #[trigger] text[i] >= '\u{20}' by {
        if text.len() == 6 {
            assert(text[0] == '\\' && text[1] == 'u' && text[2] == '0' && text[3] == '0');
            assert(0 <= c as int / 16 < 16 && 0 <= c as int % 16 < 16);
            assert(text[4] >= '0');
            assert(text[5] >= '0');
        }
    }
}

proof fn lemma_escaped_printable(text: Seq<char>)
    ensures
        is_printable(escaped(text)),
    decreases text.len(),
{
    if text.len() > 0 {
        lemma_escaped_printable(text.drop_first());
        lemma_escaped_char_printable(text.first());
        lemma_printable_concat(escaped_char(text.first()), escaped(text.drop_first()));
    }
}

pub proof fn lemma_quoted_printable(text: Seq<char>)
    ensures
        is_printable(quoted(text)),
{
    lemma_escaped_printable(text);
    lemma_printable_concat(escaped(text), seq!['"']);
    lemma_printable_concat(seq!['"'], escaped(text) + seq!['"']);
}

proof fn lemma_members_printable(members: Seq<(Seq<char>, Option<Seq<char>>)>)
    ensures
        is_printable(members_text(members)),
    decreases members.len(),
{
    if members.len() > 0 {
        let rest = if members.len() == 1 {
            seq!['}']
        } else {
            seq![','] + members_text(members.drop_first())
        };
        lemma_members_printable(members.drop_first());
        lemma_quoted_printable(members.first().0);
        assert(is_printable(member_value_text(members.first().1))) by {
            match members.first().1 {
                Some(text) => {
                    lemma_quoted_printable(text);
                },
                None => {},
            }
        }
        assert(is_printable(rest));
        let value_on = member_value_text(members.first().1) + rest;
        lemma_printable_concat(member_value_text(members.first().1), rest);
        lemma_printable_concat(seq![':'], value_on);
        lemma_printable_concat(quoted(members.first().0), seq![':'] + value_on);
    }
}

/// The text of a JSON value has no control characters, so it stands on one line.
pub proof fn law_json_text_is_printable(value: JsonModel)
    ensures
        is_printable(json_text(value)),
{
    match value {
        JsonModel::Text(text) => {
            lemma_quoted_printable(text);
        },
        JsonModel::Object(members) => {
            lemma_members_printable(sorted(members));
            lemma_printable_concat(seq!['{'], members_text(sorted(members)));
        },
        _ => {},
    }
}

/// Equal heads can be cut off equal texts.
proof fn lemma_cut(head: Seq<char>, x: Seq<char>, y: Seq<char>)
    requires
        head + x == head + y,
    ensures
        x == y,
{
    assert((head + x).skip(head.len() as int) =~= x);
    assert((head + y).skip(head.len() as int) =~= y);
}

proof fn lemma_escaped_char_prefix_free(c: char, d: char, x: Seq<char>, y: Seq<char>)
    requires
        escaped_char(c) + x == escaped_char(d) + y,
    ensures
        c == d,
        x == y,
{
    let left = escaped_char(c) + x;
    let right = escaped_char(d) + y;
    assert(left[0] == escaped_char(c)[0]);
    assert(right[0] == escaped_char(d)[0]);
    if left[0] == '\\' {
        assert(left[1] == escaped_char(c)[1]);
        assert(right[1] == escaped_char(d)[1]);
        if left[1] == 'u' {
            assert(left[4] == escaped_char(c)[4] && left[5] == escaped_char(c)[5]);
            assert(right[4] == escaped_char(d)[4] && right[5] == escaped_char(d)[5]);
        }
    }
    assert(c == d);
    lemma_cut(escaped_char(c), x, y);
}

proof fn lemma_escaped_prefix_free(a: Seq<char>, b: Seq<char>, x: Seq<char>, y: Seq<char>)
    requires
        escaped(a) + (seq!['"'] + x) == escaped(b) + (seq!['"'] + y),
    ensures
        a == b,
        x == y,
    decreases a.len(),
{
    let left = escaped(a) + (seq!['"'] + x);
    let right = escaped(b) + (seq!['"'] + y);
    if a.len() == 0 && b.len() == 0 {
        assert(left =~= seq!['"'] + x);
        assert(right =~= seq!['"'] + y);
        lemma_cut(seq!['"'], x, y);
        assert(a =~= b);
    } else if a.len() == 0 {
        assert(left[0] == '"');
        assert(right[0] == escaped_char(b.first())[0]);
    } else if b.len() == 0 {
        assert(right[0] == '"');
        assert(left[0] == escaped_char(a.first())[0]);
    } else {
        let left_on = escaped(a.drop_first()) + (seq!['"'] + x);
        let right_on = escaped(b.drop_first()) + (seq!['"'] + y);
        assert(left =~= escaped_char(a.first()) + left_on);
        assert(right =~= escaped_char(b.first()) + right_on);
        lemma_escaped_char_prefix_free(a.first(), b.first(), left_on, right_on);
        lemma_escaped_prefix_free(a.drop_first(), b.drop_first(), x, y);
        assert(a =~= seq![a.first()] + a.drop_first());
        assert(b =~= seq![b.first()] + b.drop_first());
    }
}

/// A JSON string shows where it ends and which text it stands for.
pub proof fn lemma_quoted_prefix_free(a: Seq<char>, b: Seq<char>, x: Seq<char>, y: Seq<char>)
    requires
        quoted(a) + x == quoted(b) + y,
    ensures
        a == b,
        x == y,
{
    let left = escaped(a) + (seq!['"'] + x);
    let right = escaped(b) + (seq!['"'] + y);
    assert(quoted(a) + x =~= seq!['"'] + left);
    assert(quoted(b) + y =~= seq!['"'] + right);
    lemma_cut(seq!['"'], left, right);
    lemma_escaped_prefix_free(a, b, x, y);
}

proof fn lemma_member_value_prefix_free(
    v: Option<Seq<char>>,
    w: Option<Seq<char>>,
    x: Seq<char>,
    y: Seq<char>,
)
    requires
        member_value_text(v) + x == member_value_text(w) + y,
    ensures
        v == w,
        x == y,
{
    let left = member_value_text(v) + x;
    let right = member_value_text(w) + y;
    assert(left[0] == member_value_text(v)[0]);
    assert(right[0] == member_value_text(w)[0]);
    match (v, w) {
        (Some(a), Some(b)) => {
            lemma_quoted_prefix_free(a, b, x, y);
        },
        (None, None) => {
            lemma_cut(null_text(), x, y);
        },
        _ => {},
    }
}

proof fn lemma_members_prefix_free(
    m: Seq<(Seq<char>, Option<Seq<char>>)>,
    n: Seq<(Seq<char>, Option<Seq<char>>)>,
    x: Seq<char>,
    y: Seq<char>,
)
    requires
        members_text(m) + x == members_text(n) + y,
    ensures
        m == n,
        x == y,
    decreases m.len(),
{
    let left = members_text(m) + x;
    let right = members_text(n) + y;
    assert(left[0] == members_text(m)[0]);
    assert(right[0] == members_text(n)[0]);
    if m.len() == 0 || n.len() == 0 {
        assert(m.len() == 0 && n.len() == 0);
        assert(m =~= n);
        lemma_cut(seq!['}'], x, y);
    } else {
        let m_rest = if m.len() == 1 {
            seq!['}']
        } else {
            seq![','] + members_text(m.drop_first())
        };
        let n_rest = if n.len() == 1 {
            seq!['}']
        } else {
            seq![','] + members_text(n.drop_first())
        };
        let m_value = member_value_text(m.first().1) + (m_rest + x);
        let n_value = member_value_text(n.first().1) + (n_rest + y);
        assert(left =~= quoted(m.first().0) + (seq![':'] + m_value));
        assert(right =~= quoted(n.first().0) + (seq![':'] + n_value));
        lemma_quoted_prefix_free(m.first().0, n.first().0, seq![':'] + m_value, seq![':'] + n_value);
        lemma_cut(seq![':'], m_value, n_value);
        lemma_member_value_prefix_free(m.first().1, n.first().1, m_rest + x, n_rest + y);
        assert((m_rest + x)[0] == m_rest[0]);
        assert((n_rest + y)[0] == n_rest[0]);
        assert(m.len() == 1 <==> n.len() == 1);
        if m.len() == 1 {
            lemma_cut(seq!['}'], x, y);
            assert(m =~= n);
        } else {
            let m_on = members_text(m.drop_first()) + x;
            let n_on = members_text(n.drop_first()) + y;
            assert(m_rest + x =~= seq![','] + m_on);
            assert(n_rest + y =~= seq![','] + n_on);
            lemma_cut(seq![','], m_on, n_on);
            lemma_members_prefix_free(m.drop_first(), n.drop_first(), x, y);
            assert(m =~= seq![m.first()] + m.drop_first());
            assert(n =~= seq![n.first()] + n.drop_first());
        }
    }
}

/// No text comes before itself, nor two texts before each other.
proof fn lemma_precedes_asymmetric(a: Seq<char>, b: Seq<char>)
    requires
        precedes(a, b),
    ensures
        !precedes(b, a),
{
    if precedes(b, a) {
        let k = choose|k: int|
            {
                &&& 0 <= k <= a.len()
                &&& k < b.len()
                &&& #[trigger] a.take(k) == b.take(k)
                &&& k == a.len() || a[k] < b[k]
            };
        let l = choose|l: int|
            {
                &&& 0 <= l <= b.len()
                &&& l < a.len()
                &&& #[trigger] b.take(l) == a.take(l)
                &&& l == b.len() || b[l] < a[l]
            };
        if k < l {
            assert(a.take(l)[k] == b.take(l)[k]);
        } else if l < k {
            assert(a.take(k)[l] == b.take(k)[l]);
        }
    }
}

proof fn lemma_precedes_transitive(a: Seq<char>, b: Seq<char>, c: Seq<char>)
    requires
        precedes(a, b),
        precedes(b, c),
    ensures
        precedes(a, c),
{
    let k = choose|k: int|
        {
            &&& 0 <= k <= a.len()
            &&& k < b.len()
            &&& #[trigger] a.take(k) == b.take(k)
            &&& k == a.len() || a[k] < b[k]
        };
    let l = choose|l: int|
        {
            &&& 0 <= l <= b.len()
            &&& l < c.len()
            &&& #[trigger] b.take(l) == c.take(l)
            &&& l == b.len() || b[l] < c[l]
        };
    if k <= l {
        assert(a.take(k) =~= c.take(k)) by {
            assert(b.take(l).take(k) =~= b.take(k));
            assert(c.take(l).take(k) =~= c.take(k));
        }
        if k < l {
            assert(b.take(l)[k] == c.take(l)[k]);
        }
    } else {
        assert(a.take(l) =~= c.take(l)) by {
            assert(a.take(k).take(l) =~= a.take(l));
            assert(b.take(k).take(l) =~= b.take(l));
        }
        assert(a.take(k)[l] == b.take(k)[l]);
    }
}

/// Of two different texts that agree in their first `k` characters one comes before the other.
proof fn lemma_precedes_total(a: Seq<char>, b: Seq<char>, k: int)
    requires
        0 <= k <= a.len(),
        k <= b.len(),
        a.take(k) == b.take(k),
    ensures
        a == b || precedes(a, b) || precedes(b, a),
    decreases a.len() - k,
{
    if k == a.len() || k == b.len() {
        if a.len() == b.len() {
            assert(a.take(k) =~= a);
            assert(b.take(k) =~= b);
        }
    } else if a[k] == b[k] {
        assert(a.take(k + 1) =~= a.take(k).push(a[k]));
        assert(b.take(k + 1) =~= b.take(k).push(b[k]));
        lemma_precedes_total(a, b, k + 1);
    }
}

/// Putting a member among ascending members keeps them in order, and adds no name but its own.
proof fn lemma_with_member_ascending(
    members: Seq<(Seq<char>, Option<Seq<char>>)>,
    member: (Seq<char>, Option<Seq<char>>),
)
    requires
        ascending(members),
    ensures
        ascending(with_member(members, member)),
        forall|i: int|
            0 <= i < with_member(members, member).len() ==> {
                ||| (#[trigger] with_member(members, member)[i]) == member
                ||| members.contains(with_member(members, member)[i])
            },
    decreases members.len(),
{
    let placed = with_member(members, member);
    if members.len() == 0 {
    } else if precedes(members.last().0, member.0) || members.last().0 == member.0 {
        let kept = placed.drop_last();
        assert forall|i: int| 0 <= i < kept.len() implies precedes(
            (#[trigger] kept[i]).0,
            member.0,
        ) && members.contains(kept[i]) by {
            assert(kept[i] == members[i]);
            if i < members.len() - 1 {
                assert(precedes(members[i].0, members[members.len() - 1].0));
                if members.last().0 != member.0 {
                    lemma_precedes_transitive(members[i].0, members.last().0, member.0);
                }
            }
        }
        assert forall|i: int, j: int| 0 <= i < j < placed.len() implies precedes(
            (#[trigger] placed[i]).0,
            (#[trigger] placed[j]).0,
        ) by {
            assert(placed[i] == kept[i] && kept[i] == members[i]);
            if j < kept.len() {
                assert(placed[j] == members[j]);
            }
        }
        assert forall|i: int| 0 <= i < placed.len() implies {
            ||| (#[trigger] placed[i]) == member
            ||| members.contains(placed[i])
        } by {
            if i < kept.len() {
                assert(placed[i] == kept[i]);
            }
        }
    } else {
        let shorter = members.drop_last();
        let last = members.last();
        let kept = with_member(shorter, member);
        assert(members.last().0.take(0) =~= member.0.take(0));
        lemma_precedes_total(members.last().0, member.0, 0);
        lemma_with_member_ascending(shorter, member);
        assert forall|i: int| 0 <= i < kept.len() implies precedes(
            (#[trigger] kept[i]).0,
            last.0,
        ) && (kept[i] == member || members.contains(kept[i])) by {
            if kept[i] != member {
                let j = choose|j: int| 0 <= j < shorter.len() && shorter[j] == kept[i];
                assert(members[j] == kept[i]);
                assert(precedes(members[j].0, members[members.len() - 1].0));
            }
        }
        assert forall|i: int, j: int| 0 <= i < j < placed.len() implies precedes(
            (#[trigger] placed[i]).0,
            (#[trigger] placed[j]).0,
        ) by {
            assert(placed[i] == kept[i]);
            if j < kept.len() {
                assert(placed[j] == kept[j]);
            }
        }
        assert forall|i: int| 0 <= i < placed.len() implies {
            ||| (#[trigger] placed[i]) == member
            ||| members.contains(placed[i])
        } by {
            if i < kept.len() {
                assert(placed[i] == kept[i]);
            } else {
                assert(members[members.len() - 1] == last);
            }
        }
    }
}

/// Putting a member among members overrides what its name stood for.
proof fn lemma_with_member_map(
    members: Seq<(Seq<char>, Option<Seq<char>>)>,
    member: (Seq<char>, Option<Seq<char>>),
)
    ensures
        entries_map(with_member(members, member)) == entries_map(members).insert(
            member.0,
            member.1,
        ),
    decreases members.len(),
{
    if members.len() == 0 || precedes(members.last().0, member.0) {
        assert(members.push(member).drop_last() =~= members);
    } else {
        let shorter = members.drop_last();
        let last = members.last();
        if last.0 == member.0 {
            assert(shorter.push(member).drop_last() =~= shorter);
            assert(entries_map(shorter).insert(member.0, member.1) =~= entries_map(members).insert(
                member.0,
                member.1,
            ));
        } else {
            lemma_with_member_map(shorter, member);
            let kept = with_member(shorter, member);
            assert(kept.push(last).drop_last() =~= kept);
            assert(entries_map(shorter).insert(member.0, member.1).insert(last.0, last.1)
                =~= entries_map(members).insert(member.0, member.1));
        }
    }
}

/// Sorting puts members in ascending order, and keeps what their names stand for.
pub proof fn law_sorted_members(members: Seq<(Seq<char>, Option<Seq<char>>)>)
    ensures
        ascending(sorted(members)),
        entries_map(sorted(members)) == entries_map(members),
    decreases members.len(),
{
    if members.len() > 0 {
        law_sorted_members(members.drop_last());
        lemma_with_member_ascending(sorted(members.drop_last()), members.last());
        lemma_with_member_map(sorted(members.drop_last()), members.last());
    }
}

/// Without the last of ascending members, its name stands for nothing.
proof fn lemma_ascending_drop_last(members: Seq<(Seq<char>, Option<Seq<char>>)>)
    requires
        members.len() > 0,
        ascending(members),
    ensures
        entries_map(members.drop_last()) == entries_map(members).remove(members.last().0),
{
    let shorter = members.drop_last();
    let name = members.last().0;
    lemma_entries_map_dom(shorter, name);
    if entries_map(shorter).dom().contains(name) {
        let i = choose|i: int| 0 <= i < shorter.len() && (#[trigger] shorter[i]).0 == name;
        assert(precedes(members[i].0, members[members.len() - 1].0));
        lemma_precedes_asymmetric(name, name);
    }
    assert(entries_map(members).remove(name) =~= entries_map(shorter));
}

/// A name that stands for something among ascending members is the last one or comes before it.
proof fn lemma_ascending_last(members: Seq<(Seq<char>, Option<Seq<char>>)>, name: Seq<char>)
    requires
        ascending(members),
        entries_map(members).contains_key(name),
    ensures
        members.len() > 0,
        name == members.last().0 || precedes(name, members.last().0),
{
    lemma_entries_map_dom(members, name);
    let i = choose|i: int| 0 <= i < members.len() && (#[trigger] members[i]).0 == name;
    if i < members.len() - 1 {
        assert(precedes(members[i].0, members[members.len() - 1].0));
    }
}

/// Ascending members are determined by what their names stand for.
proof fn lemma_ascending_determined(
    m: Seq<(Seq<char>, Option<Seq<char>>)>,
    n: Seq<(Seq<char>, Option<Seq<char>>)>,
)
    requires
        ascending(m),
        ascending(n),
        entries_map(m) == entries_map(n),
    ensures
        m == n,
    decreases m.len(),
{
    if m.len() == 0 && n.len() == 0 {
        assert(m =~= n);
    } else if m.len() == 0 {
        assert(entries_map(m).contains_key(n.last().0));
    } else if n.len() == 0 {
        assert(entries_map(n).contains_key(m.last().0));
    } else {
        lemma_ascending_last(m, n.last().0);
        lemma_ascending_last(n, m.last().0);
        if m.last().0 != n.last().0 {
            lemma_precedes_asymmetric(m.last().0, n.last().0);
        }
        assert(entries_map(m)[m.last().0] == m.last().1);
        assert(entries_map(n)[n.last().0] == n.last().1);
        lemma_ascending_drop_last(m);
        lemma_ascending_drop_last(n);
        lemma_ascending_determined(m.drop_last(), n.drop_last());
        assert(m =~= m.drop_last().push(m.last()));
        assert(n =~= n.drop_last().push(n.last()));
    }
}

/// Values that are the same have one text.
pub proof fn law_same_values_have_one_text(v: JsonModel, w: JsonModel)
    requires
        same_value(v, w),
    ensures
        json_text(v) == json_text(w),
{
    match (v, w) {
        (JsonModel::Object(m), JsonModel::Object(n)) => {
            law_sorted_members(m);
            law_sorted_members(n);
            lemma_ascending_determined(sorted(m), sorted(n));
        },
        _ => {},
    }
}

/// Canonical values that are the same are equal.
pub proof fn law_canonical_values_are_unique(v: JsonModel, w: JsonModel)
    requires
        v.canonical(),
        w.canonical(),
        same_value(v, w),
    ensures
        v == w,
{
    match (v, w) {
        (JsonModel::Object(m), JsonModel::Object(n)) => {
            lemma_ascending_determined(m, n);
        },
        _ => {},
    }
}

/// The text of a JSON value shows where it ends and which value it stands for, whatever
/// follows it.
pub proof fn law_json_text_determines_value(v: JsonModel, w: JsonModel, x: Seq<char>, y: Seq<char>)
    requires
        json_text(v) + x == json_text(w) + y,
    ensures
        same_value(v, w),
        x == y,
{
    let left = json_text(v) + x;
    let right = json_text(w) + y;
    assert(left[0] == json_text(v)[0]);
    assert(right[0] == json_text(w)[0]);
    match (v, w) {
        (JsonModel::Text(a), JsonModel::Text(b)) => {
            lemma_quoted_prefix_free(a, b, x, y);
        },
        (JsonModel::Object(m), JsonModel::Object(n)) => {
            let m_on = members_text(sorted(m)) + x;
            let n_on = members_text(sorted(n)) + y;
            assert(left =~= seq!['{'] + m_on);
            assert(right =~= seq!['{'] + n_on);
            lemma_cut(seq!['{'], m_on, n_on);
            lemma_members_prefix_free(sorted(m), sorted(n), x, y);
            law_sorted_members(m);
            law_sorted_members(n);
        },
        _ => {
            lemma_cut(json_text(v), x, y);
        },
    }
}

} // verus!
