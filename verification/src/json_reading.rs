//! What a JSON text says: how it is read back into the value that it was written from.

use crate::command::{command_line, command_name, EnvelopeModel};
use crate::json::{
    escaped, escaped_char, hex_digit, json_text, member_value_text, members_text, null_text, quoted,
    sorted, JsonModel,
};
use vstd::prelude::*;

verus! {

/// A JSON value as it is read, without numbers and lists: the members of an object stand in the
/// order in which they are written.
#[verifier::ext_equal]
pub enum JsonTree {
    Null,
    Bool(bool),
    Text(Seq<char>),
    Object(Seq<(Seq<char>, JsonTree)>),
}

/// Whether `text` starts with `prefix`.
pub open spec fn starts_with(text: Seq<char>, prefix: Seq<char>) -> bool {
    text.len() >= prefix.len() && text.take(prefix.len() as int) == prefix
}

/// The value of a hexadecimal digit.
pub open spec fn hex_value(c: char) -> Option<int> {
    if '0' <= c <= '9' {
        Some(c as int - '0' as int)
    } else if 'a' <= c <= 'f' {
        Some(c as int - 'a' as int + 10)
    } else if 'A' <= c <= 'F' {
        Some(c as int - 'A' as int + 10)
    } else {
        None
    }
}

/// The character that four hexadecimal digits name, unless they name a surrogate.
pub open spec fn read_code(digits: Seq<char>) -> Option<char> {
    match (
        hex_value(digits[0]),
        hex_value(digits[1]),
        hex_value(digits[2]),
        hex_value(digits[3]),
    ) {
        (Some(a), Some(b), Some(c), Some(d)) => {
            let code = 4096 * a + 256 * b + 16 * c + d;
            if 0xd800 <= code <= 0xdfff {
                None
            } else {
                Some(code as char)
            }
        },
        _ => None,
    }
}

/// The first character of the inside of a JSON string, and the rest of it.
pub open spec fn read_char(text: Seq<char>) -> Option<(char, Seq<char>)> {
    if text.len() == 0 || text[0] == '"' || '\u{20}' > text[0] {
        None
    } else if text[0] != '\\' {
        Some((text[0], text.skip(1)))
    } else if text.len() < 2 {
        None
    } else if text[1] == '"' || text[1] == '\\' || text[1] == '/' {
        Some((text[1], text.skip(2)))
    } else if text[1] == 'b' {
        Some(('\u{8}', text.skip(2)))
    } else if text[1] == 't' {
        Some(('\u{9}', text.skip(2)))
    } else if text[1] == 'n' {
        Some(('\u{a}', text.skip(2)))
    } else if text[1] == 'f' {
        Some(('\u{c}', text.skip(2)))
    } else if text[1] == 'r' {
        Some(('\u{d}', text.skip(2)))
    } else if text[1] == 'u' && text.len() >= 6 {
        match read_code(text.subrange(2, 6)) {
            Some(c) => Some((c, text.skip(6))),
            None => None,
        }
    } else {
        None
    }
}

/// What the inside of a JSON string says up to the closing quotation mark, and what follows it.
pub open spec fn read_string_inside(text: Seq<char>) -> Option<(Seq<char>, Seq<char>)>
    decreases text.len(),
{
    if text.len() > 0 && text[0] == '"' {
        Some((Seq::empty(), text.skip(1)))
    } else {
        match read_char(text) {
            Some((c, rest)) => if rest.len() < text.len() {
                match read_string_inside(rest) {
                    Some((said, after)) => Some((seq![c] + said, after)),
                    None => None,
                }
            } else {
                None
            },
            None => None,
        }
    }
}

/// What a JSON string says at the start of `text`, and what follows it.
pub open spec fn read_string(text: Seq<char>) -> Option<(Seq<char>, Seq<char>)> {
    if text.len() > 0 && text[0] == '"' {
        read_string_inside(text.skip(1))
    } else {
        None
    }
}

/// The JSON value at the start of `text`, which holds no white space between its parts, and what
/// follows it.
pub open spec fn read_value(text: Seq<char>) -> Option<(JsonTree, Seq<char>)>
    decreases text.len(),
{
    if starts_with(text, null_text()) {
        Some((JsonTree::Null, text.skip(4)))
    } else if starts_with(text, seq!['t', 'r', 'u', 'e']) {
        Some((JsonTree::Bool(true), text.skip(4)))
    } else if starts_with(text, seq!['f', 'a', 'l', 's', 'e']) {
        Some((JsonTree::Bool(false), text.skip(5)))
    } else if starts_with(text, seq!['{', '}']) {
        Some((JsonTree::Object(Seq::empty()), text.skip(2)))
    } else if starts_with(text, seq!['{']) {
        match read_members(text.skip(1)) {
            Some((members, after)) => Some((JsonTree::Object(members), after)),
            None => None,
        }
    } else {
        match read_string(text) {
            Some((said, after)) => Some((JsonTree::Text(said), after)),
            None => None,
        }
    }
}

/// The members of a JSON object up to the closing brace, of which there is at least one, and what
/// follows it.
pub open spec fn read_members(text: Seq<char>) -> Option<(Seq<(Seq<char>, JsonTree)>, Seq<char>)>
    decreases text.len(),
{
    match read_string(text) {
        Some((name, rest)) => if starts_with(rest, seq![':']) && rest.len() <= text.len() {
            match read_value(rest.skip(1)) {
                Some((value, rest)) => if starts_with(rest, seq!['}']) {
                    Some((seq![(name, value)], rest.skip(1)))
                } else if starts_with(rest, seq![',']) && rest.len() <= text.len() {
                    match read_members(rest.skip(1)) {
                        Some((members, after)) => Some((seq![(name, value)] + members, after)),
                        None => None,
                    }
                } else {
                    None
                },
                None => None,
            }
        } else {
            None
        },
        None => None,
    }
}

/// The value of a member as it is read.
pub open spec fn member_tree(value: Option<Seq<char>>) -> JsonTree {
    match value {
        Some(text) => JsonTree::Text(text),
        None => JsonTree::Null,
    }
}

/// A value as it is read: the members of an object in ascending order, the last one of each name.
pub open spec fn value_tree(value: JsonModel) -> JsonTree {
    match value {
        JsonModel::Null => JsonTree::Null,
        JsonModel::Bool(flag) => JsonTree::Bool(flag),
        JsonModel::Text(text) => JsonTree::Text(text),
        JsonModel::Object(members) => JsonTree::Object(member_trees(sorted(members))),
    }
}

/// Members as they are read.
pub open spec fn member_trees(members: Seq<(Seq<char>, Option<Seq<char>>)>) -> Seq<
    (Seq<char>, JsonTree),
> {
    members.map_values(
        |member: (Seq<char>, Option<Seq<char>>)| (member.0, member_tree(member.1)),
    )
}

proof fn lemma_hex_digit_read(value: int)
    requires
        0 <= value < 16,
    ensures
        hex_value(hex_digit(value)) == Some(value),
{
}

proof fn lemma_read_char(c: char, x: Seq<char>)
    ensures
        read_char(escaped_char(c) + x) == Some((c, x)),
{
    let text = escaped_char(c) + x;
    let width = escaped_char(c).len() as int;
    assert(text.skip(width) =~= x);
    assert(text[0] == escaped_char(c)[0]);
    if width > 1 {
        assert(text[1] == escaped_char(c)[1]);
    }
    if width == 6 {
        let digits = text.subrange(2, 6);
        assert(digits =~= escaped_char(c).subrange(2, 6));
        lemma_hex_digit_read(0);
        lemma_hex_digit_read(c as int / 16);
        lemma_hex_digit_read(c as int % 16);
        assert(read_code(digits) == Some(c));
    }
}

proof fn lemma_read_string_inside(said: Seq<char>, x: Seq<char>)
    ensures
        read_string_inside(escaped(said) + (seq!['"'] + x)) == Some((said, x)),
    decreases said.len(),
{
    let text = escaped(said) + (seq!['"'] + x);
    if said.len() == 0 {
        assert(text =~= seq!['"'] + x);
        assert(text.skip(1) =~= x);
        assert(said =~= Seq::empty());
    } else {
        let rest = escaped(said.drop_first()) + (seq!['"'] + x);
        assert(text =~= escaped_char(said.first()) + rest);
        assert(text[0] == escaped_char(said.first())[0]);
        lemma_read_char(said.first(), rest);
        lemma_read_string_inside(said.drop_first(), x);
        assert(seq![said.first()] + said.drop_first() =~= said);
    }
}

proof fn lemma_read_string(said: Seq<char>, x: Seq<char>)
    ensures
        read_string(quoted(said) + x) == Some((said, x)),
{
    let text = quoted(said) + x;
    assert(text.skip(1) =~= escaped(said) + (seq!['"'] + x));
    lemma_read_string_inside(said, x);
}

/// A text that starts with a quotation mark is read as a string.
proof fn lemma_read_text_value(said: Seq<char>, x: Seq<char>)
    ensures
        read_value(quoted(said) + x) == Some((JsonTree::Text(said), x)),
{
    let text = quoted(said) + x;
    lemma_read_string(said, x);
    assert(text[0] == '"');
    lemma_starts_differently(text, null_text());
    lemma_starts_differently(text, seq!['t', 'r', 'u', 'e']);
    lemma_starts_differently(text, seq!['f', 'a', 'l', 's', 'e']);
    lemma_starts_differently(text, seq!['{', '}']);
    lemma_starts_differently(text, seq!['{']);
}

proof fn lemma_starts_differently(text: Seq<char>, prefix: Seq<char>)
    requires
        text.len() > 0,
        prefix.len() > 0,
        text[0] != prefix[0],
    ensures
        !starts_with(text, prefix),
{
    if starts_with(text, prefix) {
        assert(text.take(prefix.len() as int)[0] == text[0]);
    }
}

proof fn lemma_starts_with(prefix: Seq<char>, x: Seq<char>)
    ensures
        starts_with(prefix + x, prefix),
        (prefix + x).skip(prefix.len() as int) == x,
{
    assert((prefix + x).take(prefix.len() as int) =~= prefix);
    assert((prefix + x).skip(prefix.len() as int) =~= x);
}

proof fn lemma_read_null(x: Seq<char>)
    ensures
        read_value(null_text() + x) == Some((JsonTree::Null, x)),
{
    lemma_starts_with(null_text(), x);
}

proof fn lemma_read_member_value(value: Option<Seq<char>>, x: Seq<char>)
    ensures
        read_value(member_value_text(value) + x) == Some((member_tree(value), x)),
{
    match value {
        Some(text) => lemma_read_text_value(text, x),
        None => lemma_read_null(x),
    }
}

/// One member is read, given how the text goes on behind it.
proof fn lemma_read_member(name: Seq<char>, value_text: Seq<char>, value: JsonTree, rest: Seq<char>)
    requires
        read_value(value_text + rest) == Some((value, rest)),
        starts_with(rest, seq!['}']) || starts_with(rest, seq![',']),
    ensures
        ({
            let text = quoted(name) + (seq![':'] + (value_text + rest));
            if starts_with(rest, seq!['}']) {
                read_members(text) == Some((seq![(name, value)], rest.skip(1)))
            } else {
                read_members(text) == match read_members(rest.skip(1)) {
                    Some((members, after)) => Some((seq![(name, value)] + members, after)),
                    None => None,
                }
            }
        }),
{
    let value_on = value_text + rest;
    let text = quoted(name) + (seq![':'] + value_on);
    lemma_read_string(name, seq![':'] + value_on);
    lemma_starts_with(seq![':'], value_on);
}

proof fn lemma_read_members(members: Seq<(Seq<char>, Option<Seq<char>>)>, x: Seq<char>)
    requires
        members.len() > 0,
    ensures
        read_members(members_text(members) + x) == Some((member_trees(members), x)),
    decreases members.len(),
{
    let first = members.first();
    let later = members.drop_first();
    let ending = if members.len() == 1 {
        seq!['}']
    } else {
        seq![','] + members_text(later)
    };
    let rest = ending + x;
    let text = members_text(members) + x;
    assert(text =~= quoted(first.0) + (seq![':'] + (member_value_text(first.1) + rest)));
    lemma_read_member_value(first.1, rest);
    if members.len() == 1 {
        lemma_starts_with(seq!['}'], x);
        lemma_read_member(first.0, member_value_text(first.1), member_tree(first.1), rest);
        assert(member_trees(members) =~= seq![(first.0, member_tree(first.1))]);
    } else {
        assert(rest =~= seq![','] + (members_text(later) + x));
        lemma_starts_with(seq![','], members_text(later) + x);
        lemma_starts_differently(rest, seq!['}']);
        lemma_read_member(first.0, member_value_text(first.1), member_tree(first.1), rest);
        lemma_read_members(later, x);
        assert(member_trees(members) =~= seq![(first.0, member_tree(first.1))] + member_trees(
            later,
        ));
    }
}

/// The text of a JSON value is read back as that value, whatever follows it.
pub proof fn law_json_text_reads_back(value: JsonModel, x: Seq<char>)
    ensures
        read_value(json_text(value) + x) == Some((value_tree(value), x)),
{
    let text = json_text(value) + x;
    match value {
        JsonModel::Null => lemma_read_null(x),
        JsonModel::Bool(flag) => {
            let word = json_text(value);
            lemma_starts_with(word, x);
            lemma_starts_differently(text, null_text());
            if !flag {
                lemma_starts_differently(text, seq!['t', 'r', 'u', 'e']);
            }
        },
        JsonModel::Text(said) => lemma_read_text_value(said, x),
        JsonModel::Object(members) => {
            let ascending = sorted(members);
            let inside = members_text(ascending) + x;
            assert(text =~= seq!['{'] + inside);
            lemma_starts_differently(text, null_text());
            lemma_starts_differently(text, seq!['t', 'r', 'u', 'e']);
            lemma_starts_differently(text, seq!['f', 'a', 'l', 's', 'e']);
            if ascending.len() == 0 {
                assert(text =~= seq!['{', '}'] + x);
                lemma_starts_with(seq!['{', '}'], x);
                assert(member_trees(ascending) =~= Seq::empty());
            } else {
                lemma_starts_with(seq!['{'], inside);
                assert(text[1] == '"');
                if starts_with(text, seq!['{', '}']) {
                    assert(text.take(2)[1] == text[1]);
                }
                lemma_read_members(ascending, x);
            }
        },
    }
}

/// A text without characters that need an escape is written as it is.
proof fn lemma_plain_escaped(text: Seq<char>)
    requires
        forall|i: int| 0 <= i < text.len() ==> 'a' <= #[trigger] text[i] <= 'z',
    ensures
        escaped(text) == text,
    decreases text.len(),
{
    if text.len() > 0 {
        let later = text.drop_first();
        assert forall|i: int| 0 <= i < later.len() implies 'a' <= #[trigger] later[i] <= 'z' by {
            assert(later[i] == text[i + 1]);
        }
        lemma_plain_escaped(later);
        assert('a' <= text[0] <= 'z');
        assert(seq![text.first()] + later =~= text);
    } else {
        assert(text =~= Seq::empty());
    }
}

/// The members of the line of a command, from the second of them on.
spec fn line_from_command(envelope: EnvelopeModel) -> Seq<char> {
    quoted("command"@) + (seq![':'] + (quoted(command_name(envelope.command)) + (seq![',']
        + line_from_payload(envelope))))
}

/// The last member of the line of a command, and the closing brace.
spec fn line_from_payload(envelope: EnvelopeModel) -> Seq<char> {
    quoted("payload"@) + (seq![':'] + (json_text(envelope.payload) + seq!['}']))
}

/// The line of a command, in its parts.
proof fn lemma_command_line_parts(envelope: EnvelopeModel)
    ensures
        command_line(envelope) == seq!['{'] + (quoted("id"@) + (seq![':'] + (quoted(envelope.id) + (
        seq![','] + line_from_command(envelope))))),
{
    reveal_strlit("{\"id\":");
    reveal_strlit(",\"command\":");
    reveal_strlit(",\"payload\":");
    reveal_strlit("}");
    reveal_strlit("id");
    reveal_strlit("command");
    reveal_strlit("payload");
    lemma_plain_escaped("id"@);
    lemma_plain_escaped("command"@);
    lemma_plain_escaped("payload"@);
    let id = quoted(envelope.id);
    let name = quoted(command_name(envelope.command));
    let payload = json_text(envelope.payload);
    assert("{\"id\":"@ =~= seq!['{'] + (quoted("id"@) + seq![':']));
    assert(",\"command\":"@ =~= seq![','] + (quoted("command"@) + seq![':']));
    assert(",\"payload\":"@ =~= seq![','] + (quoted("payload"@) + seq![':']));
    assert("}"@ =~= seq!['}']);
    let last = ",\"payload\":"@ + (payload + "}"@);
    assert(last =~= seq![','] + line_from_payload(envelope));
    let middle = ",\"command\":"@ + (name + last);
    assert(middle =~= seq![','] + line_from_command(envelope));
    assert("{\"id\":"@ + (id + middle) =~= seq!['{'] + (quoted("id"@) + (seq![':'] + (id
        + middle))));
}

/// The members of the line of a command are read, from the second of them on.
proof fn lemma_read_from_command(envelope: EnvelopeModel)
    ensures
        read_members(line_from_command(envelope)) == Some(
            (
                seq![
                    ("command"@, JsonTree::Text(command_name(envelope.command))),
                    ("payload"@, value_tree(envelope.payload)),
                ],
                Seq::<char>::empty(),
            ),
        ),
{
    let kind = command_name(envelope.command);
    let nothing = Seq::<char>::empty();
    let last = line_from_payload(envelope);
    lemma_starts_with(seq!['}'], nothing);
    assert(seq!['}'] + nothing =~= seq!['}']);
    law_json_text_reads_back(envelope.payload, seq!['}']);
    lemma_read_member(
        "payload"@,
        json_text(envelope.payload),
        value_tree(envelope.payload),
        seq!['}'],
    );
    lemma_starts_with(seq![','], last);
    lemma_starts_differently(seq![','] + last, seq!['}']);
    lemma_read_text_value(kind, seq![','] + last);
    lemma_read_member("command"@, quoted(kind), JsonTree::Text(kind), seq![','] + last);
    assert(seq![("command"@, JsonTree::Text(kind))] + seq![
        ("payload"@, value_tree(envelope.payload)),
    ] =~= seq![
        ("command"@, JsonTree::Text(kind)),
        ("payload"@, value_tree(envelope.payload)),
    ]);
}

/// The line of a command is read back as an object with exactly the members `id`, `command` and
/// `payload`, which say the id, the name of the kind, and the payload of the command.
pub proof fn law_command_line_reads_back(envelope: EnvelopeModel)
    ensures
        read_value(command_line(envelope)) == Some(
            (
                JsonTree::Object(
                    seq![
                        ("id"@, JsonTree::Text(envelope.id)),
                        ("command"@, JsonTree::Text(command_name(envelope.command))),
                        ("payload"@, value_tree(envelope.payload)),
                    ],
                ),
                Seq::<char>::empty(),
            ),
        ),
{
    let line = command_line(envelope);
    let middle = line_from_command(envelope);
    let first = quoted("id"@) + (seq![':'] + (quoted(envelope.id) + (seq![','] + middle)));
    lemma_command_line_parts(envelope);
    lemma_read_from_command(envelope);
    lemma_starts_with(seq![','], middle);
    lemma_starts_differently(seq![','] + middle, seq!['}']);
    lemma_read_text_value(envelope.id, seq![','] + middle);
    lemma_read_member(
        "id"@,
        quoted(envelope.id),
        JsonTree::Text(envelope.id),
        seq![','] + middle,
    );
    lemma_starts_with(seq!['{'], first);
    lemma_starts_differently(line, null_text());
    lemma_starts_differently(line, seq!['t', 'r', 'u', 'e']);
    lemma_starts_differently(line, seq!['f', 'a', 'l', 's', 'e']);
    assert(line[1] == '"');
    if starts_with(line, seq!['{', '}']) {
        assert(line.take(2)[1] == line[1]);
    }
    assert(seq![("id"@, JsonTree::Text(envelope.id))] + seq![
        ("command"@, JsonTree::Text(command_name(envelope.command))),
        ("payload"@, value_tree(envelope.payload)),
    ] =~= seq![
        ("id"@, JsonTree::Text(envelope.id)),
        ("command"@, JsonTree::Text(command_name(envelope.command))),
        ("payload"@, value_tree(envelope.payload)),
    ]);
}

} // verus!
