//! The reader's side of both wire forms, as spec functions, and the proofs
//! that reading a line or a block gives back what was encoded.

use vstd::prelude::*;
use crate::command::{
    code_colon, code_comma, code_cr, code_lf, code_percent, command_head_spec,
    command_line_spec, command_token_spec, escape_data_spec, escape_property_spec,
    properties_spec, property_spec,
};
use crate::file_command::{delimiter_spec, file_block_spec, lemma_delimiter_shape};
use crate::text::{contains_spec, lacks, occurs_at, replace_char_spec, split_spec};

verus! {

/// Replacing distributes over concatenation.
pub proof fn lemma_replace_concat(a: Seq<char>, b: Seq<char>, from: char, to: Seq<char>)
    ensures
        replace_char_spec(a + b, from, to) == replace_char_spec(a, from, to) + replace_char_spec(
            b,
            from,
            to,
        ),
    decreases b.len(),
{
    if b.len() == 0 {
        assert(a + b == a);
        assert(replace_char_spec(a, from, to) + Seq::<char>::empty() == replace_char_spec(
            a,
            from,
            to,
        ));
    } else {
        lemma_replace_concat(a, b.drop_last(), from, to);
        assert((a + b).drop_last() == a + b.drop_last());
        assert((a + b).last() == b.last());
        let x = replace_char_spec(a, from, to);
        let y = replace_char_spec(b.drop_last(), from, to);
        if b.last() == from {
            assert((x + y) + to == x + (y + to));
        } else {
            assert((x + y).push(b.last()) == x + y.push(b.last()));
        }
    }
}

/// Replacing a character that does not occur changes nothing.
pub proof fn lemma_replace_absent(s: Seq<char>, from: char, to: Seq<char>)
    requires
        lacks(s, from),
    ensures
        replace_char_spec(s, from, to) == s,
    decreases s.len(),
{
    if s.len() > 0 {
        lemma_replace_absent(s.drop_last(), from, to);
        assert(s.drop_last().push(s.last()) == s);
    }
}

/// Replacing in a text of one character.
pub proof fn lemma_replace_single(c: char, from: char, to: Seq<char>)
    ensures
        replace_char_spec(seq![c], from, to) == (if c == from {
            to
        } else {
            seq![c]
        }),
{
    let s = seq![c];
    assert(s.drop_last() == Seq::<char>::empty());
    assert(replace_char_spec(s.drop_last(), from, to) == Seq::<char>::empty());
    assert(Seq::<char>::empty() + to == to);
    assert(Seq::<char>::empty().push(c) == s);
}

/// What one character becomes on the wire: its escape code, or itself.
/// `:` and `,` have a code in property values only.
pub open spec fn escape_char_spec(c: char, property: bool) -> Seq<char> {
    if c == '%' {
        code_percent()
    } else if c == '\r' {
        code_cr()
    } else if c == '\n' {
        code_lf()
    } else if property && c == ':' {
        code_colon()
    } else if property && c == ',' {
        code_comma()
    } else {
        seq![c]
    }
}

/// A text escaped character by character.
pub open spec fn escape_each_spec(s: Seq<char>, property: bool) -> Seq<char>
    decreases s.len(),
{
    if s.len() == 0 {
        Seq::empty()
    } else {
        escape_each_spec(s.drop_last(), property) + escape_char_spec(s.last(), property)
    }
}

/// A text escaped by the rules in their fixed order.
pub open spec fn escape_spec(s: Seq<char>, property: bool) -> Seq<char> {
    if property {
        escape_property_spec(s)
    } else {
        escape_data_spec(s)
    }
}

proof fn lemma_escape_single(c: char, property: bool)
    ensures
        escape_spec(seq![c], property) == escape_char_spec(c, property),
{
    let s = seq![c];
    lemma_replace_single(c, '%', code_percent());
    let a = replace_char_spec(s, '%', code_percent());
    if c == '%' {
        lemma_replace_absent(a, '\r', code_cr());
        lemma_replace_absent(a, '\n', code_lf());
        lemma_replace_absent(a, ':', code_colon());
        lemma_replace_absent(a, ',', code_comma());
    } else {
        lemma_replace_single(c, '\r', code_cr());
        let b = replace_char_spec(a, '\r', code_cr());
        if c == '\r' {
            lemma_replace_absent(b, '\n', code_lf());
            lemma_replace_absent(b, ':', code_colon());
            lemma_replace_absent(b, ',', code_comma());
        } else {
            lemma_replace_single(c, '\n', code_lf());
            let d = replace_char_spec(b, '\n', code_lf());
            if c == '\n' {
                lemma_replace_absent(d, ':', code_colon());
                lemma_replace_absent(d, ',', code_comma());
            } else {
                lemma_replace_single(c, ':', code_colon());
                let e = replace_char_spec(d, ':', code_colon());
                if c == ':' {
                    lemma_replace_absent(e, ',', code_comma());
                } else {
                    lemma_replace_single(c, ',', code_comma());
                }
            }
        }
    }
}

/// Escaping distributes over concatenation.
pub proof fn lemma_escape_concat(a: Seq<char>, b: Seq<char>, property: bool)
    ensures
        escape_spec(a + b, property) == escape_spec(a, property) + escape_spec(b, property),
{
    lemma_replace_concat(a, b, '%', code_percent());
    let a1 = replace_char_spec(a, '%', code_percent());
    let b1 = replace_char_spec(b, '%', code_percent());
    lemma_replace_concat(a1, b1, '\r', code_cr());
    let a2 = replace_char_spec(a1, '\r', code_cr());
    let b2 = replace_char_spec(b1, '\r', code_cr());
    lemma_replace_concat(a2, b2, '\n', code_lf());
    let a3 = replace_char_spec(a2, '\n', code_lf());
    let b3 = replace_char_spec(b2, '\n', code_lf());
    lemma_replace_concat(a3, b3, ':', code_colon());
    let a4 = replace_char_spec(a3, ':', code_colon());
    let b4 = replace_char_spec(b3, ':', code_colon());
    lemma_replace_concat(a4, b4, ',', code_comma());
}

/// Escaping by the rules in their fixed order escapes each character by
/// itself: no rule touches what an earlier rule wrote.
pub proof fn lemma_escape_is_per_character(s: Seq<char>, property: bool)
    ensures
        escape_spec(s, property) == escape_each_spec(s, property),
    decreases s.len(),
{
    if s.len() == 0 {
        assert(replace_char_spec(s, '%', code_percent()) == Seq::<char>::empty());
    } else {
        lemma_escape_is_per_character(s.drop_last(), property);
        lemma_escape_concat(s.drop_last(), seq![s.last()], property);
        lemma_escape_single(s.last(), property);
        assert(s.drop_last() + seq![s.last()] == s);
    }
}

/// The character that an escape code stands for. `%3A` and `%2C` are codes
/// in property values only.
pub open spec fn decode_code_spec(a: char, b: char, property: bool) -> Option<char> {
    if a == '2' && b == '5' {
        Some('%')
    } else if a == '0' && b == 'D' {
        Some('\r')
    } else if a == '0' && b == 'A' {
        Some('\n')
    } else if property && a == '3' && b == 'A' {
        Some(':')
    } else if property && a == '2' && b == 'C' {
        Some(',')
    } else {
        None
    }
}

/// A wire text with each escape code replaced by its character, read from
/// the left.
pub open spec fn unescape_spec(s: Seq<char>, property: bool) -> Seq<char>
    decreases s.len(),
{
    if s.len() == 0 {
        Seq::empty()
    } else if s[0] == '%' && s.len() >= 3 && decode_code_spec(s[1], s[2], property) is Some {
        seq![decode_code_spec(s[1], s[2], property)->0] + unescape_spec(s.skip(3), property)
    } else {
        seq![s[0]] + unescape_spec(s.skip(1), property)
    }
}

proof fn lemma_escape_each_concat(a: Seq<char>, b: Seq<char>, property: bool)
    ensures
        escape_each_spec(a + b, property) == escape_each_spec(a, property) + escape_each_spec(
            b,
            property,
        ),
{
    lemma_escape_is_per_character(a + b, property);
    lemma_escape_is_per_character(a, property);
    lemma_escape_is_per_character(b, property);
    lemma_escape_concat(a, b, property);
}

proof fn lemma_unescape_step(c: char, rest: Seq<char>, property: bool)
    ensures
        unescape_spec(escape_char_spec(c, property) + rest, property) == seq![c] + unescape_spec(
            rest,
            property,
        ),
{
    let code = escape_char_spec(c, property);
    let s = code + rest;
    if code.len() == 3 {
        assert(s[0] == '%' && s[1] == code[1] && s[2] == code[2]);
        assert(s.skip(3) == rest);
    } else {
        assert(s[0] == c);
        assert(s.skip(1) == rest);
    }
}

proof fn lemma_unescape_each(s: Seq<char>, property: bool)
    ensures
        unescape_spec(escape_each_spec(s, property), property) == s,
    decreases s.len(),
{
    if s.len() == 0 {
    } else {
        let head = seq![s[0]];
        let tail = s.skip(1);
        assert(head + tail == s);
        lemma_escape_each_concat(head, tail, property);
        lemma_escape_is_per_character(head, property);
        lemma_escape_single(s[0], property);
        lemma_unescape_step(s[0], escape_each_spec(tail, property), property);
        lemma_unescape_each(tail, property);
    }
}

/// Unescaping an escaped message body gives the message body back.
pub proof fn lemma_unescape_data(s: Seq<char>)
    ensures
        unescape_spec(escape_data_spec(s), false) == s,
{
    lemma_escape_is_per_character(s, false);
    lemma_unescape_each(s, false);
}

/// Unescaping an escaped property value gives the property value back.
pub proof fn lemma_unescape_property(s: Seq<char>)
    ensures
        unescape_spec(escape_property_spec(s), true) == s,
{
    lemma_escape_is_per_character(s, true);
    lemma_unescape_each(s, true);
}

/// The position of the first `c` in `s`, or the length of `s` where there
/// is none.
pub open spec fn first_index_spec(s: Seq<char>, c: char) -> int
    decreases s.len(),
{
    if s.len() == 0 {
        0
    } else if s[0] == c {
        0
    } else {
        1 + first_index_spec(s.skip(1), c)
    }
}

/// A command as the reader of a line sees it.
pub struct DecodedCommand {
    pub name: Seq<char>,
    pub properties: Seq<(Seq<char>, Seq<char>)>,
    pub message: Seq<char>,
}

/// Reads one property: the key ends at the first `=`, the rest is the
/// escaped value.
pub open spec fn decode_property_spec(piece: Seq<char>) -> (Seq<char>, Seq<char>) {
    let at = first_index_spec(piece, '=');
    (piece.take(at), unescape_spec(piece.skip(at + 1), true))
}

/// Reads the properties of a line: the pieces between commas, one
/// property each.
pub open spec fn decode_properties_spec(text: Seq<char>) -> Seq<(Seq<char>, Seq<char>)> {
    let pieces = split_spec(text, ',');
    Seq::new(pieces.len(), |i: int| decode_property_spec(pieces[i]))
}

/// Reads a stdout line. After the opening sentinel, the first `:` starts
/// the closing sentinel, and what follows that is the escaped message.
/// Between the sentinels the name ends at the first space, and what follows
/// the space are the properties.
pub open spec fn decode_line_spec(line: Seq<char>) -> DecodedCommand {
    let rest = line.skip(2);
    let close = first_index_spec(rest, ':');
    let head = rest.take(close);
    let message = unescape_spec(rest.skip(close + 2), false);
    let space = first_index_spec(head, ' ');
    if space == head.len() {
        DecodedCommand { name: head, properties: Seq::empty(), message }
    } else {
        DecodedCommand {
            name: head.take(space),
            properties: decode_properties_spec(head.skip(space + 1)),
            message,
        }
    }
}

/// A name that a reader can find again: not empty, without space or colon.
pub open spec fn name_is_plain(name: Seq<char>) -> bool {
    name.len() > 0 && lacks(name, ' ') && lacks(name, ':')
}

/// Keys that a reader can find again: without `=`, `,` or `:`.
pub open spec fn keys_are_plain(m: Seq<(Seq<char>, Seq<char>)>) -> bool {
    forall|i: int|
        0 <= i < m.len() ==> lacks((#[trigger] m[i]).0, '=') && lacks(m[i].0, ',') && lacks(
            m[i].0,
            ':',
        )
}

proof fn lemma_first_index(a: Seq<char>, b: Seq<char>, c: char)
    requires
        lacks(a, c),
    ensures
        first_index_spec(a, c) == a.len(),
        first_index_spec(a + seq![c] + b, c) == a.len(),
    decreases a.len(),
{
    let s = a + seq![c] + b;
    if a.len() == 0 {
        assert(s[0] == c);
    } else {
        assert(s[0] == a[0]);
        assert(s.skip(1) == a.skip(1) + seq![c] + b);
        assert forall|i: int| 0 <= i < a.skip(1).len() implies a.skip(1)[i] != c by {
            assert(a.skip(1)[i] == a[i + 1]);
        }
        lemma_first_index(a.skip(1), b, c);
    }
}

proof fn lemma_split_whole(b: Seq<char>, sep: char)
    requires
        lacks(b, sep),
    ensures
        split_spec(b, sep) == seq![b],
    decreases b.len(),
{
    if b.len() == 0 {
        assert(b == Seq::<char>::empty());
    } else {
        lemma_split_whole(b.drop_last(), sep);
        let before = seq![b.drop_last()];
        assert(before.drop_last().push(before.last().push(b.last())) == seq![b]) by {
            assert(b.drop_last().push(b.last()) == b);
        }
    }
}

proof fn lemma_split_append(a: Seq<char>, b: Seq<char>, sep: char)
    requires
        lacks(b, sep),
    ensures
        split_spec(a + seq![sep] + b, sep) == split_spec(a, sep).push(b),
    decreases b.len(),
{
    let s = a + seq![sep] + b;
    if b.len() == 0 {
        assert(s.drop_last() == a);
        assert(s.last() == sep);
        assert(b == Seq::<char>::empty());
    } else {
        lemma_split_append(a, b.drop_last(), sep);
        assert(s.drop_last() == a + seq![sep] + b.drop_last());
        assert(s.last() == b.last());
        let before = split_spec(a, sep).push(b.drop_last());
        assert(before.drop_last() == split_spec(a, sep));
        assert(b.drop_last().push(b.last()) == b);
    }
}

proof fn lemma_escaped_each_lacks(s: Seq<char>, property: bool)
    ensures
        lacks(escape_each_spec(s, property), '\n'),
        lacks(escape_each_spec(s, property), '\r'),
        property ==> lacks(escape_each_spec(s, property), ':'),
        property ==> lacks(escape_each_spec(s, property), ','),
    decreases s.len(),
{
    if s.len() > 0 {
        lemma_escaped_each_lacks(s.drop_last(), property);
        let code = escape_char_spec(s.last(), property);
        assert(lacks(code, '\n') && lacks(code, '\r'));
        if property {
            assert(lacks(code, ':') && lacks(code, ','));
        }
    }
}

/// An escaped message body holds no line end, so a message cannot start a
/// line of its own.
pub proof fn lemma_escaped_data_is_one_line(s: Seq<char>)
    ensures
        lacks(escape_data_spec(s), '\n'),
        lacks(escape_data_spec(s), '\r'),
{
    lemma_escape_is_per_character(s, false);
    lemma_escaped_each_lacks(s, false);
}

/// An escaped property value holds no line end, no `:` and no `,`, so a
/// value cannot end its property or the property list.
pub proof fn lemma_escaped_property_has_no_separator(s: Seq<char>)
    ensures
        lacks(escape_property_spec(s), '\n'),
        lacks(escape_property_spec(s), '\r'),
        lacks(escape_property_spec(s), ':'),
        lacks(escape_property_spec(s), ','),
{
    lemma_escape_is_per_character(s, true);
    lemma_escaped_each_lacks(s, true);
}

/// Whether `s` holds no line end.
pub open spec fn is_one_line(s: Seq<char>) -> bool {
    lacks(s, '\n') && lacks(s, '\r')
}

/// Whether no key holds a line end.
pub open spec fn keys_are_one_line(m: Seq<(Seq<char>, Seq<char>)>) -> bool {
    forall|i: int| 0 <= i < m.len() ==> is_one_line((#[trigger] m[i]).0)
}

proof fn lemma_properties_are_one_line(m: Seq<(Seq<char>, Seq<char>)>)
    requires
        keys_are_one_line(m),
    ensures
        is_one_line(properties_spec(m)),
    decreases m.len(),
{
    if m.len() > 0 {
        lemma_escaped_property_has_no_separator(m.last().1);
        assert(is_one_line(m.last().0));
        assert(is_one_line(property_spec(m.last())));
        if m.len() > 1 {
            lemma_properties_are_one_line(m.drop_last());
        }
    }
}

/// The line of a command is one line, whatever the property values and the
/// message hold, where the name and the keys are.
pub proof fn lemma_line_is_one_line(
    name: Seq<char>,
    m: Seq<(Seq<char>, Seq<char>)>,
    message: Seq<char>,
)
    requires
        is_one_line(name),
        keys_are_one_line(m),
    ensures
        is_one_line(command_line_spec(name, m, message)),
{
    lemma_properties_are_one_line(m);
    lemma_escaped_data_is_one_line(message);
    assert(is_one_line(command_token_spec(name)));
    assert(is_one_line(command_head_spec(name, m)));
}

proof fn lemma_property_lacks(p: (Seq<char>, Seq<char>))
    requires
        lacks(p.0, ','),
        lacks(p.0, ':'),
    ensures
        lacks(property_spec(p), ','),
        lacks(property_spec(p), ':'),
{
    lemma_escaped_property_has_no_separator(p.1);
}

proof fn lemma_decode_property(p: (Seq<char>, Seq<char>))
    requires
        lacks(p.0, '='),
    ensures
        decode_property_spec(property_spec(p)) == p,
{
    let escaped = escape_property_spec(p.1);
    let piece = p.0 + seq!['='] + escaped;
    lemma_first_index(p.0, escaped, '=');
    assert(piece.take(p.0.len() as int) == p.0);
    assert(piece.skip(p.0.len() as int + 1) == escaped);
    lemma_unescape_property(p.1);
}

/// The properties of a line, each as it stands on the wire.
pub open spec fn property_pieces_spec(m: Seq<(Seq<char>, Seq<char>)>) -> Seq<Seq<char>> {
    Seq::new(m.len(), |i: int| property_spec(m[i]))
}

proof fn lemma_properties_split(m: Seq<(Seq<char>, Seq<char>)>)
    requires
        m.len() > 0,
        keys_are_plain(m),
    ensures
        split_spec(properties_spec(m), ',') == property_pieces_spec(m),
        lacks(properties_spec(m), ':'),
    decreases m.len(),
{
    lemma_property_lacks(m.last());
    if m.len() == 1 {
        lemma_split_whole(property_spec(m[0]), ',');
        assert(seq![property_spec(m[0])] == property_pieces_spec(m));
    } else {
        let front = m.drop_last();
        lemma_properties_split(front);
        lemma_split_append(properties_spec(front), property_spec(m.last()), ',');
        assert(property_pieces_spec(front).push(property_spec(m.last())) == property_pieces_spec(
            m,
        ));
    }
}

/// Reading the properties of a line gives back the keys and values in
/// their order.
pub proof fn lemma_decode_properties(m: Seq<(Seq<char>, Seq<char>)>)
    requires
        m.len() > 0,
        keys_are_plain(m),
    ensures
        decode_properties_spec(properties_spec(m)) == m,
{
    lemma_properties_split(m);
    assert forall|i: int| 0 <= i < m.len() implies decode_property_spec(
        property_pieces_spec(m)[i],
    ) == m[i] by {
        lemma_decode_property(m[i]);
    }
    assert(decode_properties_spec(properties_spec(m)) =~= m);
}

/// Reading the line of a command gives back the command: its name, its
/// properties in insertion order, and its message. This holds of every
/// message and of every property value; the name and the keys must be
/// such that a reader can tell where they end.
pub proof fn lemma_decode_line(
    name: Seq<char>,
    m: Seq<(Seq<char>, Seq<char>)>,
    message: Seq<char>,
)
    requires
        name_is_plain(name),
        keys_are_plain(m),
    ensures
        decode_line_spec(command_line_spec(name, m, message)) == (DecodedCommand {
            name,
            properties: m,
            message,
        }),
{
    let head = command_head_spec(name, m);
    let escaped = escape_data_spec(message);
    let line = command_line_spec(name, m, message);
    let rest = line.skip(2);
    assert(rest == head.skip(2) + seq![':'] + (seq![':'] + escaped));
    let inner = head.skip(2);
    if m.len() == 0 {
        assert(inner == name);
        assert(lacks(inner, ':'));
        lemma_first_index(inner, Seq::empty(), ' ');
    } else {
        lemma_properties_split(m);
        assert(inner == name + seq![' '] + properties_spec(m));
        assert(lacks(inner, ':'));
        lemma_first_index(name, properties_spec(m), ' ');
        assert(inner.take(name.len() as int) == name);
        assert(inner.skip(name.len() as int + 1) == properties_spec(m));
        lemma_decode_properties(m);
    }
    lemma_first_index(inner, seq![':'] + escaped, ':');
    assert(first_index_spec(rest, ':') == inner.len());
    assert(rest.take(inner.len() as int) == inner);
    assert(rest.skip(inner.len() as int + 2) == escaped);
    lemma_unescape_data(message);
    let got = decode_line_spec(line);
    assert(got.message == message);
    if m.len() == 0 {
        assert(first_index_spec(inner, ' ') == inner.len());
        assert(m == Seq::<(Seq<char>, Seq<char>)>::empty());
        assert(got.name == name);
        assert(got.properties == m);
    } else {
        assert(first_index_spec(inner, ' ') == name.len());
        assert(got.name == name);
        assert(got.properties == m);
    }
}

/// Whether `at` is the first position at which `needle` occurs in `s`.
pub open spec fn is_first_occurrence(s: Seq<char>, needle: Seq<char>, at: int) -> bool {
    occurs_at(s, needle, at) && forall|j: int| 0 <= j < at ==> !occurs_at(s, needle, j)
}

/// The first position at which `needle` occurs in `s`.
pub open spec fn first_occurrence_spec(s: Seq<char>, needle: Seq<char>) -> int {
    choose|at: int| is_first_occurrence(s, needle, at)
}

/// Reads one block of a command file. The first line holds the key, up to
/// the first `<`, and after `<<` the delimiter. The value is what follows
/// that line, up to the first line feed that the delimiter follows.
pub open spec fn decode_block_spec(block: Seq<char>) -> (Seq<char>, Seq<char>) {
    let eol = first_index_spec(block, '\n');
    let header = block.take(eol);
    let lt = first_index_spec(header, '<');
    let delimiter = header.skip(lt + 2);
    let body = block.skip(eol + 1);
    let end = first_occurrence_spec(body, seq!['\n'] + delimiter);
    (header.take(lt), body.take(end))
}

proof fn lemma_first_occurrence(s: Seq<char>, needle: Seq<char>, at: int)
    requires
        is_first_occurrence(s, needle, at),
    ensures
        first_occurrence_spec(s, needle) == at,
{
    let chosen = first_occurrence_spec(s, needle);
    assert(is_first_occurrence(s, needle, chosen));
    if chosen < at {
        assert(!occurs_at(s, needle, chosen));
    }
    if at < chosen {
        assert(!occurs_at(s, needle, at));
    }
}

proof fn lemma_value_end(value: Seq<char>, delimiter: Seq<char>)
    requires
        lacks(delimiter, '\n'),
        !contains_spec(value, delimiter),
    ensures
        is_first_occurrence(
            value + seq!['\n'] + delimiter + seq!['\n'],
            seq!['\n'] + delimiter,
            value.len() as int,
        ),
{
    let body = value + seq!['\n'] + delimiter + seq!['\n'];
    let needle = seq!['\n'] + delimiter;
    let vlen = value.len() as int;
    let dlen = delimiter.len() as int;
    assert(body.subrange(vlen, vlen + needle.len()) == needle);
    assert forall|j: int| 0 <= j < vlen implies !occurs_at(body, needle, j) by {
        if occurs_at(body, needle, j) {
            let sub = body.subrange(j, j + needle.len());
            if j + 1 + dlen <= vlen {
                assert forall|t: int| 0 <= t < dlen implies value.subrange(j + 1, j + 1 + dlen)[t]
                    == delimiter[t] by {
                    assert(sub[1 + t] == body[j + 1 + t]);
                    assert(needle[1 + t] == delimiter[t]);
                }
                assert(value.subrange(j + 1, j + 1 + dlen) == delimiter);
                assert(occurs_at(value, delimiter, j + 1));
            } else {
                let t = vlen - (j + 1);
                assert(sub[1 + t] == body[vlen]);
                assert(needle[1 + t] == delimiter[t]);
            }
        }
    }
}

/// Reading a block gives back the key and the value, line feeds in the
/// value included, where the delimiter does not occur in the value. The
/// key must be such that a reader can tell where it ends, and the
/// delimiter must stand on one line.
pub proof fn lemma_decode_block(key: Seq<char>, value: Seq<char>, delimiter: Seq<char>)
    requires
        lacks(key, '<'),
        lacks(key, '\n'),
        lacks(delimiter, '\n'),
        !contains_spec(value, delimiter),
    ensures
        decode_block_spec(file_block_spec(key, value, delimiter)) == (key, value),
{
    let block = file_block_spec(key, value, delimiter);
    let header = key + seq!['<', '<'] + delimiter;
    let body = value + seq!['\n'] + delimiter + seq!['\n'];
    assert(block == header + seq!['\n'] + body);
    assert(lacks(header, '\n'));
    lemma_first_index(header, body, '\n');
    assert(block.take(header.len() as int) == header);
    assert(block.skip(header.len() as int + 1) == body);
    assert(header == key + seq!['<'] + (seq!['<'] + delimiter));
    lemma_first_index(key, seq!['<'] + delimiter, '<');
    assert(header.take(key.len() as int) == key);
    assert(header.skip(key.len() as int + 2) == delimiter);
    lemma_value_end(value, delimiter);
    lemma_first_occurrence(body, seq!['\n'] + delimiter, value.len() as int);
    assert(body.take(value.len() as int) == value);
}

/// Reading a block that was framed with a delimiter made from a 128-bit
/// value gives back the key and the value, where that delimiter does not
/// occur in the value: such a delimiter always stands on one line.
pub proof fn lemma_decode_generated_block(key: Seq<char>, value: Seq<char>, token: u128)
    requires
        lacks(key, '<'),
        lacks(key, '\n'),
        !contains_spec(value, delimiter_spec(token)),
    ensures
        decode_block_spec(file_block_spec(key, value, delimiter_spec(token))) == (key, value),
{
    lemma_delimiter_shape(token);
    lemma_decode_block(key, value, delimiter_spec(token));
}

} // verus!
