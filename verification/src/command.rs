//! The stdout form of a workflow command: `::name key=value,key=value::message`.

use vstd::prelude::*;
use crate::text::{replace_char, replace_char_spec, text_eq};

verus! {

/// The escape code of `%`.
pub open spec fn code_percent() -> Seq<char> {
    seq!['%', '2', '5']
}

/// The escape code of a carriage return.
pub open spec fn code_cr() -> Seq<char> {
    seq!['%', '0', 'D']
}

/// The escape code of a line feed.
pub open spec fn code_lf() -> Seq<char> {
    seq!['%', '0', 'A']
}

/// The escape code of `:`.
pub open spec fn code_colon() -> Seq<char> {
    seq!['%', '3', 'A']
}

/// The escape code of `,`.
pub open spec fn code_comma() -> Seq<char> {
    seq!['%', '2', 'C']
}

/// Data escaping: `%` becomes `%25`, then carriage return becomes `%0D`,
/// then line feed becomes `%0A`.
pub open spec fn escape_data_spec(s: Seq<char>) -> Seq<char> {
    replace_char_spec(
        replace_char_spec(replace_char_spec(s, '%', code_percent()), '\r', code_cr()),
        '\n',
        code_lf(),
    )
}

/// Property escaping: data escaping, then `:` becomes `%3A` and `,` becomes
/// `%2C`.
pub open spec fn escape_property_spec(s: Seq<char>) -> Seq<char> {
    replace_char_spec(
        replace_char_spec(escape_data_spec(s), ':', code_colon()),
        ',',
        code_comma(),
    )
}

/// Escapes a message body for the stdout form.
pub fn escape_data(s: &str) -> (r: String)
    ensures
        r@ == escape_data_spec(s@),
{
    proof {
        reveal_strlit("%25");
        reveal_strlit("%0D");
        reveal_strlit("%0A");
        assert("%25"@ =~= code_percent());
        assert("%0D"@ =~= code_cr());
        assert("%0A"@ =~= code_lf());
    }
    let a = replace_char(s, '%', "%25");
    let b = replace_char(a.as_str(), '\r', "%0D");
    replace_char(b.as_str(), '\n', "%0A")
}

/// Escapes a property value for the stdout form.
pub fn escape_property(s: &str) -> (r: String)
    ensures
        r@ == escape_property_spec(s@),
{
    proof {
        reveal_strlit("%3A");
        reveal_strlit("%2C");
        assert("%3A"@ =~= code_colon());
        assert("%2C"@ =~= code_comma());
    }
    let a = escape_data(s);
    let b = replace_char(a.as_str(), ':', "%3A");
    replace_char(b.as_str(), ',', "%2C")
}

/// Whether some entry of `m` has the key `k`.
pub open spec fn has_key(m: Seq<(Seq<char>, Seq<char>)>, k: Seq<char>) -> bool {
    exists|i: int| 0 <= i < m.len() && (#[trigger] m[i]).0 == k
}

/// Whether `i` is the first position of the key `k` in `m`.
pub open spec fn is_first_key_index(m: Seq<(Seq<char>, Seq<char>)>, k: Seq<char>, i: int) -> bool {
    &&& 0 <= i < m.len()
    &&& m[i].0 == k
    &&& forall|j: int| 0 <= j < i ==> (#[trigger] m[j]).0 != k
}

/// No key occurs twice.
pub open spec fn keys_unique(m: Seq<(Seq<char>, Seq<char>)>) -> bool {
    forall|i: int, j: int| 0 <= i < j < m.len() ==> (#[trigger] m[i]).0 != (#[trigger] m[j]).0
}

/// The entries after `k` is set to `v`: the first entry with the key `k`
/// gets the value `v` and keeps its place; without such an entry, a new
/// one goes to the end.
pub open spec fn insert_spec(m: Seq<(Seq<char>, Seq<char>)>, k: Seq<char>, v: Seq<char>) -> Seq<
    (Seq<char>, Seq<char>),
>
    decreases m.len(),
{
    if m.len() == 0 {
        seq![(k, v)]
    } else if m[0].0 == k {
        seq![(k, v)] + m.skip(1)
    } else {
        seq![m[0]] + insert_spec(m.skip(1), k, v)
    }
}

/// Setting a key that is not there appends it.
pub proof fn lemma_insert_new(m: Seq<(Seq<char>, Seq<char>)>, k: Seq<char>, v: Seq<char>)
    requires
        !has_key(m, k),
    ensures
        insert_spec(m, k, v) == m.push((k, v)),
    decreases m.len(),
{
    if m.len() > 0 {
        assert(m[0].0 != k);
        assert forall|i: int| 0 <= i < m.skip(1).len() implies (#[trigger] m.skip(1)[i]).0
            != k by {
            assert(m.skip(1)[i] == m[i + 1]);
        }
        lemma_insert_new(m.skip(1), k, v);
        assert(seq![m[0]] + m.skip(1).push((k, v)) == m.push((k, v)));
    } else {
        assert(seq![(k, v)] == m.push((k, v)));
    }
}

/// Setting a key that is there changes the value of its first entry and
/// nothing else.
pub proof fn lemma_insert_present(
    m: Seq<(Seq<char>, Seq<char>)>,
    k: Seq<char>,
    v: Seq<char>,
    i: int,
)
    requires
        is_first_key_index(m, k, i),
    ensures
        insert_spec(m, k, v) == m.update(i, (k, v)),
    decreases m.len(),
{
    if i == 0 {
        assert(seq![(k, v)] + m.skip(1) == m.update(0, (k, v)));
    } else {
        assert(m[0].0 != k);
        let rest = m.skip(1);
        assert(rest[i - 1] == m[i]);
        assert forall|j: int| 0 <= j < i - 1 implies (#[trigger] rest[j]).0 != k by {
            assert(rest[j] == m[j + 1]);
        }
        lemma_insert_present(rest, k, v, i - 1);
        assert(seq![m[0]] + rest.update(i - 1, (k, v)) == m.update(i, (k, v)));
    }
}

/// Setting a key keeps every key unique.
pub proof fn lemma_insert_keeps_keys_unique(
    m: Seq<(Seq<char>, Seq<char>)>,
    k: Seq<char>,
    v: Seq<char>,
)
    requires
        keys_unique(m),
    ensures
        keys_unique(insert_spec(m, k, v)),
{
    if has_key(m, k) {
        let i = choose|i: int| 0 <= i < m.len() && (#[trigger] m[i]).0 == k;
        assert forall|j: int| 0 <= j < i implies (#[trigger] m[j]).0 != k by {}
        lemma_insert_present(m, k, v, i);
    } else {
        lemma_insert_new(m, k, v);
    }
}

/// The properties of a command: keys with their values, in the order in
/// which the keys were first inserted. That order is the order on the wire,
/// so the entries are kept as a list and not in a map that orders by hash
/// or by key.
pub struct CommandProperties {
    entries: Vec<(String, String)>,
}

impl View for CommandProperties {
    type V = Seq<(Seq<char>, Seq<char>)>;

    closed spec fn view(&self) -> Self::V {
        Seq::new(self.entries@.len(), |i: int| (self.entries@[i].0@, self.entries@[i].1@))
    }
}

impl CommandProperties {
    /// Well-formed properties hold each key once.
    pub open spec fn wf(&self) -> bool {
        keys_unique(self@)
    }

    /// No properties.
    pub fn new() -> (r: Self)
        ensures
            r@ == Seq::<(Seq<char>, Seq<char>)>::empty(),
            r.wf(),
    {
        let r = CommandProperties { entries: Vec::new() };
        proof {
            assert(r@ =~= Seq::<(Seq<char>, Seq<char>)>::empty());
        }
        r
    }

    /// The number of properties.
    pub fn len(&self) -> (n: usize)
        ensures
            n == self@.len(),
    {
        self.entries.len()
    }

    /// Sets `key` to `value`: a key that is present keeps its place and
    /// gets the new value, a new key goes to the end.
    pub fn insert(&mut self, key: &str, value: &str)
        ensures
            final(self)@ == insert_spec(old(self)@, key@, value@),
            old(self).wf() ==> final(self).wf(),
    {
        let ghost before = self@;
        proof {
            if keys_unique(before) {
                lemma_insert_keeps_keys_unique(before, key@, value@);
            }
        }
        let mut i: usize = 0;
        while i < self.entries.len()
            invariant
                i <= self.entries@.len(),
                self@ == before,
                before == old(self)@,
                forall|j: int| 0 <= j < i ==> (#[trigger] before[j]).0 != key@,
            decreases self.entries@.len() - i,
        {
            if text_eq(self.entries[i].0.as_str(), key) {
                proof {
                    assert(before[i as int].0 == key@);
                    lemma_insert_present(before, key@, value@, i as int);
                }
                self.entries.set(i, (String::from_str(key), String::from_str(value)));
                proof {
                    assert(self@ =~= before.update(i as int, (key@, value@)));
                }
                return ;
            }
            i += 1;
        }
        proof {
            lemma_insert_new(before, key@, value@);
        }
        self.entries.push((String::from_str(key), String::from_str(value)));
        proof {
            assert(self@ =~= before.push((key@, value@)));
        }
    }

    fn key(&self, i: usize) -> (r: &str)
        requires
            i < self@.len(),
        ensures
            r@ == self@[i as int].0,
    {
        self.entries[i].0.as_str()
    }

    fn value(&self, i: usize) -> (r: &str)
        requires
            i < self@.len(),
        ensures
            r@ == self@[i as int].1,
    {
        self.entries[i].1.as_str()
    }
}

/// One property on the wire: the key, `=`, and the escaped value.
pub open spec fn property_spec(p: (Seq<char>, Seq<char>)) -> Seq<char> {
    p.0 + seq!['='] + escape_property_spec(p.1)
}

/// The properties on the wire, in their order, with `,` between them.
pub open spec fn properties_spec(m: Seq<(Seq<char>, Seq<char>)>) -> Seq<char>
    decreases m.len(),
{
    if m.len() == 0 {
        Seq::empty()
    } else if m.len() == 1 {
        property_spec(m[0])
    } else {
        properties_spec(m.drop_last()) + seq![','] + property_spec(m.last())
    }
}

/// The name that stands for a command without one.
pub open spec fn missing_command() -> Seq<char> {
    seq!['m', 'i', 's', 's', 'i', 'n', 'g', '.', 'c', 'o', 'm', 'm', 'a', 'n', 'd']
}

/// The command token of a line: the name, or the fallback for an empty one.
pub open spec fn command_token_spec(name: Seq<char>) -> Seq<char> {
    if name.len() == 0 {
        missing_command()
    } else {
        name
    }
}

/// The opening of a line: the sentinel, the command token and, where there
/// are properties, a space and the properties.
pub open spec fn command_head_spec(name: Seq<char>, m: Seq<(Seq<char>, Seq<char>)>) -> Seq<char> {
    let token = seq![':', ':'] + command_token_spec(name);
    if m.len() == 0 {
        token
    } else {
        token + seq![' '] + properties_spec(m)
    }
}

/// The stdout line of a command.
pub open spec fn command_line_spec(
    name: Seq<char>,
    m: Seq<(Seq<char>, Seq<char>)>,
    message: Seq<char>,
) -> Seq<char> {
    command_head_spec(name, m) + seq![':', ':'] + escape_data_spec(message)
}

/// Formats a command as one stdout line, without the line's end.
pub fn issue_command(command: &str, properties: &CommandProperties, message: &str) -> (line:
    String)
    ensures
        line@ == command_line_spec(command@, properties@, message@),
{
    proof {
        reveal_strlit("::");
        reveal_strlit("missing.command");
        reveal_strlit(" ");
        reveal_strlit(",");
        reveal_strlit("=");
        assert("::"@ =~= seq![':', ':']);
        assert("missing.command"@ =~= missing_command());
        assert(" "@ =~= seq![' ']);
        assert(","@ =~= seq![',']);
        assert("="@ =~= seq!['=']);
    }
    let mut out = String::from_str("::");
    if command.is_empty() {
        out.append("missing.command");
    } else {
        out.append(command);
    }
    let ghost token = out@;
    let n: usize = properties.len();
    let mut i: usize = 0;
    while i < n
        invariant
            i <= n,
            n == properties@.len(),
            ","@ == seq![','],
            " "@ == seq![' '],
            "="@ == seq!['='],
            token == seq![':', ':'] + command_token_spec(command@),
            out@ == command_head_spec(command@, properties@.take(i as int)),
        decreases n - i,
    {
        proof {
            let m = properties@.take(i + 1);
            assert(m.drop_last() == properties@.take(i as int));
            assert(m.last() == properties@[i as int]);
        }
        if i == 0 {
            out.append(" ");
        } else {
            out.append(",");
        }
        out.append(properties.key(i));
        out.append("=");
        let escaped = escape_property(properties.value(i));
        out.append(escaped.as_str());
        proof {
            let m = properties@.take(i + 1);
            let p = properties@[i as int];
            if i == 0 {
                assert(out@ =~= token + seq![' '] + property_spec(p));
            } else {
                assert(out@ =~= token + seq![' '] + (properties_spec(m.drop_last()) + seq![',']
                    + property_spec(p)));
            }
        }
        i += 1;
    }
    proof {
        assert(properties@.take(n as int) == properties@);
    }
    out.append("::");
    let escaped = escape_data(message);
    out.append(escaped.as_str());
    out
}

/// Formats a command that has no properties.
pub fn issue(name: &str, message: Option<&str>) -> (line: String)
    ensures
        line@ == command_line_spec(
            name@,
            Seq::empty(),
            match message {
                Some(m) => m@,
                None => Seq::empty(),
            },
        ),
{
    let properties = CommandProperties::new();
    match message {
        Some(m) => issue_command(name, &properties, m),
        None => {
            proof {
                reveal_strlit("");
                assert(""@ =~= Seq::<char>::empty());
            }
            issue_command(name, &properties, "")
        },
    }
}

} // verus!
