//! Character-level building blocks shared by every encoder.

use vstd::prelude::*;

verus! {

/// `String::push` appends exactly one character to the end of the string.
pub assume_specification[ String::push ](s: &mut String, ch: char)
    ensures
        final(s)@ == old(s)@.push(ch),
;

/// The upper-case form that `str::to_uppercase` gives to a text.
pub uninterp spec fn uppercase_of(s: Seq<char>) -> Seq<char>;

/// `str::to_uppercase` maps a text to its upper-case form by the Unicode
/// case tables; the contract only gives that form a name.
#[verifier::external_body]
pub(crate) fn to_uppercase(s: &str) -> (r: String)
    ensures
        r@ == uppercase_of(s@),
{
    s.to_uppercase()
}

/// Every occurrence of `from` in `s` replaced by the characters of `to`.
pub open spec fn replace_char_spec(s: Seq<char>, from: char, to: Seq<char>) -> Seq<char>
    decreases s.len(),
{
    if s.len() == 0 {
        Seq::empty()
    } else if s.last() == from {
        replace_char_spec(s.drop_last(), from, to) + to
    } else {
        replace_char_spec(s.drop_last(), from, to).push(s.last())
    }
}

/// Replaces every occurrence of the character `from` by the text `to`.
pub fn replace_char(s: &str, from: char, to: &str) -> (r: String)
    ensures
        r@ == replace_char_spec(s@, from, to@),
{
    let mut out = String::new();
    for c in it: s.chars()
        invariant
            it.seq() == s@,
            out@ == replace_char_spec(s@.take(it.index() as int), from, to@),
    {
        proof {
            let i = it.index() as int;
            assert(s@.take(i + 1).drop_last() == s@.take(i));
        }
        if c == from {
            out.append(to);
        } else {
            out.push(c);
        }
    }
    proof {
        assert(s@.take(s@.len() as int) == s@);
    }
    out
}

/// The characters of a text, one element each.
pub fn chars_of(s: &str) -> (v: Vec<char>)
    ensures
        v@ == s@,
{
    let mut v: Vec<char> = Vec::new();
    for c in it: s.chars()
        invariant
            it.seq() == s@,
            v@ == s@.take(it.index() as int),
    {
        proof {
            let i = it.index() as int;
            assert(s@.take(i + 1) == s@.take(i).push(s@[i]));
        }
        v.push(c);
    }
    proof {
        assert(s@.take(s@.len() as int) == s@);
    }
    v
}

/// The text made of the characters `v[from..to]`.
pub fn string_of(v: &Vec<char>, from: usize, to: usize) -> (r: String)
    requires
        from <= to <= v@.len(),
    ensures
        r@ == v@.subrange(from as int, to as int),
{
    let mut out = String::new();
    let mut i: usize = from;
    while i < to
        invariant
            from <= i <= to <= v@.len(),
            out@ == v@.subrange(from as int, i as int),
        decreases to - i,
    {
        proof {
            assert(v@.subrange(from as int, i + 1) == v@.subrange(from as int, i as int).push(
                v@[i as int],
            ));
        }
        out.push(v[i]);
        i += 1;
    }
    out
}

/// `a` followed by `b`.
pub fn concat2(a: &str, b: &str) -> (r: String)
    ensures
        r@ == a@ + b@,
{
    let mut out = String::from_str(a);
    out.append(b);
    out
}

/// `a`, then `b`, then `c`.
pub fn concat3(a: &str, b: &str, c: &str) -> (r: String)
    ensures
        r@ == a@ + b@ + c@,
{
    let mut out = String::from_str(a);
    out.append(b);
    out.append(c);
    out
}

/// Whether two texts hold the same characters.
pub fn text_eq(a: &str, b: &str) -> (r: bool)
    ensures
        r == (a@ == b@),
{
    let x = chars_of(a);
    let y = chars_of(b);
    if x.len() != y.len() {
        return false;
    }
    let mut i: usize = 0;
    while i < x.len()
        invariant
            i <= x@.len(),
            x@.len() == y@.len(),
            x@ == a@,
            y@ == b@,
            x@.take(i as int) == y@.take(i as int),
        decreases x@.len() - i,
    {
        if x[i] != y[i] {
            return false;
        }
        proof {
            assert(x@.take(i + 1) == x@.take(i as int).push(x@[i as int]));
            assert(y@.take(i + 1) == y@.take(i as int).push(y@[i as int]));
        }
        i += 1;
    }
    proof {
        assert(x@.take(x@.len() as int) == x@);
        assert(y@.take(y@.len() as int) == y@);
    }
    true
}

/// Whether `c` does not occur in `s`.
pub open spec fn lacks(s: Seq<char>, c: char) -> bool {
    forall|i: int| 0 <= i < s.len() ==> s[i] != c
}

/// Whether `needle` occurs in `hay` at position `at`.
pub open spec fn occurs_at(hay: Seq<char>, needle: Seq<char>, at: int) -> bool {
    0 <= at && at + needle.len() <= hay.len() && hay.subrange(at, at + needle.len()) == needle
}

/// Whether `needle` is a substring of `hay`. The empty text is a substring
/// of every text.
pub open spec fn contains_spec(hay: Seq<char>, needle: Seq<char>) -> bool {
    exists|at: int| occurs_at(hay, needle, at)
}

fn matches_at(hay: &Vec<char>, needle: &Vec<char>, at: usize) -> (r: bool)
    requires
        at + needle@.len() <= hay@.len(),
    ensures
        r == occurs_at(hay@, needle@, at as int),
{
    let total: usize = hay.len();
    let mut j: usize = 0;
    while j < needle.len()
        invariant
            j <= needle@.len(),
            at + needle@.len() <= hay@.len() == total,
            hay@.subrange(at as int, at + j) == needle@.take(j as int),
        decreases needle@.len() - j,
    {
        if hay[at + j] != needle[j] {
            proof {
                let k = j as int;
                assert(hay@.subrange(at as int, at + needle@.len())[k] == hay@[at + k]);
            }
            return false;
        }
        proof {
            assert(hay@.subrange(at as int, at + j + 1) == hay@.subrange(at as int, at + j).push(
                hay@[at + j],
            ));
            assert(needle@.take(j + 1) == needle@.take(j as int).push(needle@[j as int]));
        }
        j += 1;
    }
    proof {
        assert(needle@.take(needle@.len() as int) == needle@);
    }
    true
}

/// Whether `needle` is a substring of `hay`.
pub fn contains(hay: &str, needle: &str) -> (r: bool)
    ensures
        r == contains_spec(hay@, needle@),
{
    let h = chars_of(hay);
    let n = chars_of(needle);
    if n.len() > h.len() {
        return false;
    }
    let last: usize = h.len() - n.len();
    let mut at: usize = 0;
    while at < last
        invariant
            at <= last,
            last == h@.len() - n@.len(),
            h@ == hay@,
            n@ == needle@,
            forall|k: int| 0 <= k < at ==> !occurs_at(h@, n@, k),
        decreases last - at,
    {
        if matches_at(&h, &n, at) {
            return true;
        }
        at += 1;
    }
    matches_at(&h, &n, last)
}

/// The characters that count as white space: those with the Unicode property
/// `White_Space`.
pub open spec fn is_white_space(c: char) -> bool {
    let n = c as u32;
    ||| 0x09 <= n <= 0x0D
    ||| n == 0x20
    ||| n == 0x85
    ||| n == 0xA0
    ||| n == 0x1680
    ||| 0x2000 <= n <= 0x200A
    ||| n == 0x2028
    ||| n == 0x2029
    ||| n == 0x202F
    ||| n == 0x205F
    ||| n == 0x3000
}

/// Whether `c` is white space.
pub fn is_whitespace(c: char) -> (r: bool)
    ensures
        r == is_white_space(c),
{
    let n: u32 = c as u32;
    (0x09 <= n && n <= 0x0D) || n == 0x20 || n == 0x85 || n == 0xA0 || n == 0x1680 || (0x2000 <= n
        && n <= 0x200A) || n == 0x2028 || n == 0x2029 || n == 0x202F || n == 0x205F || n == 0x3000
}

/// `s` without its leading white space.
pub open spec fn trim_start_spec(s: Seq<char>) -> Seq<char>
    decreases s.len(),
{
    if s.len() > 0 && is_white_space(s[0]) {
        trim_start_spec(s.skip(1))
    } else {
        s
    }
}

/// `s` without its trailing white space.
pub open spec fn trim_end_spec(s: Seq<char>) -> Seq<char>
    decreases s.len(),
{
    if s.len() > 0 && is_white_space(s.last()) {
        trim_end_spec(s.drop_last())
    } else {
        s
    }
}

/// `s` without its leading and trailing white space.
pub open spec fn trim_spec(s: Seq<char>) -> Seq<char> {
    trim_end_spec(trim_start_spec(s))
}

/// Removes leading and trailing white space.
pub fn trim(s: &str) -> (r: String)
    ensures
        r@ == trim_spec(s@),
{
    let v = chars_of(s);
    let n: usize = v.len();
    let mut start: usize = 0;
    proof {
        assert(v@.skip(0) == v@);
    }
    while start < n && is_whitespace(v[start])
        invariant
            start <= n,
            n == v@.len(),
            trim_start_spec(v@) == trim_start_spec(v@.skip(start as int)),
        decreases n - start,
    {
        proof {
            assert(v@.skip(start as int).skip(1) == v@.skip(start + 1));
        }
        start += 1;
    }
    let mut end: usize = n;
    proof {
        assert(v@.skip(start as int) == v@.subrange(start as int, n as int));
    }
    while end > start && is_whitespace(v[end - 1])
        invariant
            start <= end <= n,
            n == v@.len(),
            trim_end_spec(v@.subrange(start as int, n as int)) == trim_end_spec(
                v@.subrange(start as int, end as int),
            ),
        decreases end,
    {
        proof {
            assert(v@.subrange(start as int, end as int).drop_last() == v@.subrange(
                start as int,
                end - 1,
            ));
        }
        end -= 1;
    }
    string_of(&v, start, end)
}

/// The views of a list of texts.
pub open spec fn views_of(v: Seq<String>) -> Seq<Seq<char>> {
    Seq::new(v.len(), |i: int| v[i]@)
}

/// The pieces of `s` between occurrences of `sep`: one more piece than
/// there are separators, so the empty text has one empty piece.
pub open spec fn split_spec(s: Seq<char>, sep: char) -> Seq<Seq<char>>
    decreases s.len(),
{
    if s.len() == 0 {
        seq![Seq::<char>::empty()]
    } else {
        let before = split_spec(s.drop_last(), sep);
        if s.last() == sep {
            before.push(Seq::<char>::empty())
        } else {
            before.drop_last().push(before.last().push(s.last()))
        }
    }
}

/// Splits `s` at every occurrence of `sep`.
pub fn split(s: &str, sep: char) -> (r: Vec<String>)
    ensures
        views_of(r@) == split_spec(s@, sep),
{
    let mut done: Vec<String> = Vec::new();
    let mut piece = String::new();
    for c in it: s.chars()
        invariant
            it.seq() == s@,
            views_of(done@).push(piece@) == split_spec(s@.take(it.index() as int), sep),
    {
        proof {
            let i = it.index() as int;
            assert(s@.take(i + 1).drop_last() == s@.take(i));
            assert(views_of(done@).push(piece@).drop_last() == views_of(done@));
        }
        if c == sep {
            let ghost before = views_of(done@).push(piece@);
            done.push(piece);
            piece = String::new();
            proof {
                assert(views_of(done@) == before);
            }
        } else {
            piece.push(c);
        }
    }
    proof {
        assert(s@.take(s@.len() as int) == s@);
    }
    let ghost before = views_of(done@);
    done.push(piece);
    proof {
        assert(views_of(done@) == before.push(piece@));
    }
    done
}

/// The decimal digit for a value below ten.
pub open spec fn digit_spec(d: nat) -> char {
    if d == 0 {
        '0'
    } else if d == 1 {
        '1'
    } else if d == 2 {
        '2'
    } else if d == 3 {
        '3'
    } else if d == 4 {
        '4'
    } else if d == 5 {
        '5'
    } else if d == 6 {
        '6'
    } else if d == 7 {
        '7'
    } else if d == 8 {
        '8'
    } else {
        '9'
    }
}

/// The decimal numeral of `n`, without leading zeros.
pub open spec fn decimal_spec(n: nat) -> Seq<char>
    decreases n,
{
    if n < 10 {
        seq![digit_spec(n)]
    } else {
        decimal_spec(n / 10).push(digit_spec(n % 10))
    }
}

fn digit(d: u32) -> (c: char)
    requires
        d < 10,
    ensures
        c == digit_spec(d as nat),
{
    if d == 0 {
        '0'
    } else if d == 1 {
        '1'
    } else if d == 2 {
        '2'
    } else if d == 3 {
        '3'
    } else if d == 4 {
        '4'
    } else if d == 5 {
        '5'
    } else if d == 6 {
        '6'
    } else if d == 7 {
        '7'
    } else if d == 8 {
        '8'
    } else {
        '9'
    }
}

fn push_decimal(out: &mut String, n: u32)
    ensures
        final(out)@ == old(out)@ + decimal_spec(n as nat),
    decreases n,
{
    if n >= 10 {
        push_decimal(out, n / 10);
    }
    out.push(digit(n % 10));
}

/// The decimal numeral of `n`.
pub fn decimal(n: u32) -> (r: String)
    ensures
        r@ == decimal_spec(n as nat),
{
    let mut out = String::new();
    push_decimal(&mut out, n);
    out
}

} // verus!
