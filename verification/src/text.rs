//! Strings as sequences of characters: reading one out of a `str`, comparing, trimming and
//! building one up.

use vstd::prelude::*;
use vstd::std_specs::iter::IteratorSpec;
use vstd::utf8::{char_is_scalar, encode_utf8};

verus! {

/// Unicode's `White_Space` property, which is what `char::is_whitespace` and `str::trim` test.
pub open spec fn is_white(c: char) -> bool {
    let u = c as u32;
    ||| 0x09 <= u <= 0x0d
    ||| u == 0x20
    ||| u == 0x85
    ||| u == 0xa0
    ||| u == 0x1680
    ||| 0x2000 <= u <= 0x200a
    ||| u == 0x2028
    ||| u == 0x2029
    ||| u == 0x202f
    ||| u == 0x205f
    ||| u == 0x3000
}

/// The characters left once leading white space is dropped.
pub open spec fn trim_start(s: Seq<char>) -> Seq<char>
    decreases s.len(),
{
    if s.len() > 0 && is_white(s[0]) {
        trim_start(s.drop_first())
    } else {
        s
    }
}

/// The characters left once trailing white space is dropped.
pub open spec fn trim_end(s: Seq<char>) -> Seq<char>
    decreases s.len(),
{
    if s.len() > 0 && is_white(s.last()) {
        trim_end(s.drop_last())
    } else {
        s
    }
}

/// `str::trim`: white space dropped from both ends.
pub open spec fn trimmed(s: Seq<char>) -> Seq<char> {
    trim_end(trim_start(s))
}

/// Whether `c` is white space, as `char::is_whitespace` says.
pub fn white(c: char) -> (b: bool)
    ensures
        b == is_white(c),
{
    let u = c as u32;
    (0x09 <= u && u <= 0x0d) || u == 0x20 || u == 0x85 || u == 0xa0 || u == 0x1680 || (0x2000
        <= u && u <= 0x200a) || u == 0x2028 || u == 0x2029 || u == 0x202f || u == 0x205f || u
        == 0x3000
}

proof fn lemma_trim_start_skip(s: Seq<char>, i: int)
    requires
        0 <= i <= s.len(),
        forall|k: int| 0 <= k < i ==> is_white(#[trigger] s[k]),
    ensures
        trim_start(s) == trim_start(s.skip(i)),
    decreases i,
{
    if i > 0 {
        assert(s.skip(1) =~= s.drop_first());
        lemma_trim_start_skip(s.drop_first(), i - 1);
        assert(s.drop_first().skip(i - 1) =~= s.skip(i));
    } else {
        assert(s.skip(0) =~= s);
    }
}

proof fn lemma_trim_end_take(s: Seq<char>, j: int)
    requires
        0 <= j <= s.len(),
        forall|k: int| j <= k < s.len() ==> is_white(#[trigger] s[k]),
    ensures
        trim_end(s) == trim_end(s.take(j)),
    decreases s.len() - j,
{
    if j < s.len() {
        assert(s.take(s.len() - 1) =~= s.drop_last());
        lemma_trim_end_take(s.drop_last(), j);
        assert(s.drop_last().take(j) =~= s.take(j));
    } else {
        assert(s.take(j) =~= s);
    }
}

/// Where the trimmed part of `s` starts and ends.
pub fn trim_bounds(s: &Vec<char>) -> (r: (usize, usize))
    ensures
        r.0 <= r.1 <= s@.len(),
        s@.subrange(r.0 as int, r.1 as int) == trimmed(s@),
{
    let mut i: usize = 0;
    while i < s.len() && white(s[i])
        invariant
            i <= s@.len(),
            forall|k: int| 0 <= k < i ==> is_white(#[trigger] s@[k]),
        decreases s@.len() - i,
    {
        i = i + 1;
    }
    proof {
        lemma_trim_start_skip(s@, i as int);
        assert(trim_start(s@.skip(i as int)) == s@.skip(i as int));
    }
    let ghost rest = s@.skip(i as int);
    let mut j: usize = s.len();
    while j > i && white(s[j - 1])
        invariant
            i <= j <= s@.len(),
            rest == s@.skip(i as int),
            forall|k: int| j <= k < s@.len() ==> is_white(#[trigger] s@[k]),
        decreases j,
    {
        j = j - 1;
    }
    proof {
        assert forall|k: int| j - i <= k < rest.len() implies is_white(#[trigger] rest[k]) by {
            assert(rest[k] == s@[k + i]);
        }
        lemma_trim_end_take(rest, j - i);
        assert(rest.take(j - i) =~= s@.subrange(i as int, j as int));
        let t = s@.subrange(i as int, j as int);
        if t.len() > 0 {
            assert(t.last() == s@[j - 1]);
        }
    }
    (i, j)
}

/// Every character of `s`, in order.
pub fn chars_of(s: &str) -> (v: Vec<char>)
    ensures
        v@ == s@,
{
    let mut v: Vec<char> = Vec::new();
    let mut it = s.chars();
    loop
        invariant
            it.remaining() == s@.skip(v@.len() as int),
            v@ == s@.take(v@.len() as int),
            v@.len() <= s@.len(),
        decreases s@.len() - v@.len(),
    {
        match it.next() {
            Some(c) => {
                v.push(c);
            },
            None => {
                return v;
            },
        }
    }
}

/// `String::push`: the string with one more character at its end.
#[verifier::external_body]
pub(crate) fn push_char(s: &mut String, c: char)
    ensures
        final(s)@ == old(s)@.push(c),
{
    s.push(c);
}

/// The characters `from..to` of `v`, as a string.
pub fn string_of_range(v: &Vec<char>, from: usize, to: usize) -> (s: String)
    requires
        from <= to <= v@.len(),
    ensures
        s@ == v@.subrange(from as int, to as int),
{
    let mut s = String::new();
    let mut i = from;
    while i < to
        invariant
            from <= i <= to <= v@.len(),
            s@ == v@.subrange(from as int, i as int),
        decreases to - i,
    {
        push_char(&mut s, v[i]);
        assert(s@ =~= v@.subrange(from as int, i + 1));
        i = i + 1;
    }
    s
}

/// The characters of `v`, as a string.
pub fn string_of(v: &Vec<char>) -> (s: String)
    ensures
        s@ == v@,
{
    let s = string_of_range(v, 0, v.len());
    assert(v@.subrange(0, v@.len() as int) =~= v@);
    s
}

/// `str::trim`, as an owned string.
pub fn trim(s: &str) -> (t: String)
    ensures
        t@ == trimmed(s@),
{
    let v = chars_of(s);
    let (i, j) = trim_bounds(&v);
    string_of_range(&v, i, j)
}

/// `s` followed by `t`.
pub fn push_all(s: &mut String, t: &str)
    ensures
        final(s)@ == old(s)@ + t@,
{
    let v = chars_of(t);
    let mut i: usize = 0;
    while i < v.len()
        invariant
            i <= v@.len(),
            v@ == t@,
            s@ == old(s)@ + v@.take(i as int),
        decreases v@.len() - i,
    {
        push_char(s, v[i]);
        assert(s@ =~= old(s)@ + v@.take(i + 1));
        i = i + 1;
    }
    assert(v@.take(v@.len() as int) =~= v@);
}

/// Whether two character sequences are the same.
pub fn same_chars(a: &Vec<char>, b: &Vec<char>) -> (r: bool)
    ensures
        r == (a@ == b@),
{
    if a.len() != b.len() {
        return false;
    }
    let mut i: usize = 0;
    while i < a.len()
        invariant
            i <= a@.len(),
            a@.len() == b@.len(),
            forall|k: int| 0 <= k < i ==> a@[k] == b@[k],
        decreases a@.len() - i,
    {
        if a[i] != b[i] {
            return false;
        }
        i = i + 1;
    }
    assert(a@ =~= b@);
    true
}

/// Whether two strings hold the same characters.
pub fn same_text(a: &str, b: &str) -> (r: bool)
    ensures
        r == (a@ == b@),
{
    same_chars(&chars_of(a), &chars_of(b))
}


/// Whether `s` begins with `p`.
pub open spec fn has_prefix(s: Seq<char>, p: Seq<char>) -> bool {
    p.len() <= s.len() && s.take(p.len() as int) == p
}

/// Whether `s` ends with `p`.
pub open spec fn has_suffix(s: Seq<char>, p: Seq<char>) -> bool {
    p.len() <= s.len() && s.skip(s.len() - p.len()) == p
}

/// `char::to_ascii_lowercase`: an ASCII capital as its small letter, anything else as it is.
pub open spec fn lower_char(c: char) -> char {
    if 'A' <= c && c <= 'Z' {
        ((c as u32) + 32) as char
    } else {
        c
    }
}

/// `str::to_ascii_lowercase`.
pub open spec fn ascii_lower(s: Seq<char>) -> Seq<char> {
    s.map_values(|c: char| lower_char(c))
}

/// Whether `v` begins with `p`.
pub fn starts_with(v: &Vec<char>, p: &Vec<char>) -> (b: bool)
    ensures
        b == has_prefix(v@, p@),
{
    if p.len() > v.len() {
        return false;
    }
    let mut i: usize = 0;
    while i < p.len()
        invariant
            p@.len() <= v@.len(),
            i <= p@.len(),
            forall|k: int| 0 <= k < i ==> v@[k] == p@[k],
        decreases p@.len() - i,
    {
        if v[i] != p[i] {
            assert(v@.take(p@.len() as int)[i as int] != p@[i as int]);
            return false;
        }
        i = i + 1;
    }
    assert(v@.take(p@.len() as int) =~= p@);
    true
}

/// Whether `v` ends with `p`.
pub fn ends_with(v: &Vec<char>, p: &Vec<char>) -> (b: bool)
    ensures
        b == has_suffix(v@, p@),
{
    if p.len() > v.len() {
        return false;
    }
    let off = v.len() - p.len();
    let mut i: usize = 0;
    while i < p.len()
        invariant
            p@.len() <= v@.len(),
            off == v@.len() - p@.len(),
            v@.len() == v.len(),
            i <= p@.len(),
            forall|k: int| 0 <= k < i ==> v@[off + k] == p@[k],
        decreases p@.len() - i,
    {
        if v[off + i] != p[i] {
            assert(v@.skip(off as int)[i as int] != p@[i as int]);
            return false;
        }
        i = i + 1;
    }
    assert(v@.skip(off as int) =~= p@);
    true
}

/// `char::to_ascii_lowercase`.
pub fn to_lower(c: char) -> (d: char)
    ensures
        d == lower_char(c),
{
    if 'A' <= c && c <= 'Z' {
        let u = (c as u32) + 32;
        assert(0x61 <= u <= 0x7a);
        char_from_ascii(u)
    } else {
        c
    }
}

/// The character an ASCII code stands for.
fn char_from_ascii(u: u32) -> (c: char)
    requires
        u < 0x80,
    ensures
        c == u as char,
        c as u32 == u,
{
    let b: u8 = u as u8;
    b as char
}

/// `str::to_ascii_lowercase`, over characters.
pub fn lower_all(v: &Vec<char>) -> (w: Vec<char>)
    ensures
        w@ == ascii_lower(v@),
{
    let mut w: Vec<char> = Vec::new();
    let mut i: usize = 0;
    while i < v.len()
        invariant
            i <= v@.len(),
            w@ == ascii_lower(v@.take(i as int)),
        decreases v@.len() - i,
    {
        w.push(to_lower(v[i]));
        assert(ascii_lower(v@.take(i + 1)) =~= ascii_lower(v@.take(i as int)).push(lower_char(v@[i as int])));
        i = i + 1;
    }
    assert(v@.take(v@.len() as int) =~= v@);
    w
}


/// The characters of each string, in order.
pub open spec fn texts(v: Seq<String>) -> Seq<Seq<char>> {
    v.map_values(|s: String| s@)
}

/// Whether one of `v` holds the same characters as `t`.
pub fn contains_text(v: &[String], t: &str) -> (b: bool)
    ensures
        b == texts(v@).contains(t@),
{
    let mut i: usize = 0;
    while i < v.len()
        invariant
            i <= v@.len(),
            forall|k: int| 0 <= k < i ==> v@[k]@ != t@,
        decreases v@.len() - i,
    {
        if same_text(v[i].as_str(), t) {
            assert(texts(v@)[i as int] == t@);
            return true;
        }
        i = i + 1;
    }
    proof {
        if texts(v@).contains(t@) {
            let k = choose|k: int| 0 <= k < texts(v@).len() && texts(v@)[k] == t@;
            assert(v@[k]@ == t@);
        }
    }
    false
}


/// The pieces of `s` between its `sep`s, in order: one more piece than there are separators.
pub open spec fn pieces(s: Seq<char>, sep: char) -> Seq<Seq<char>>
    decreases s.len(),
{
    if s.len() == 0 {
        seq![Seq::empty()]
    } else {
        let before = pieces(s.drop_last(), sep);
        if s.last() == sep {
            before.push(Seq::empty())
        } else {
            before.update(before.len() - 1, before.last().push(s.last()))
        }
    }
}

/// Each piece of `v` between its `sep`s.
pub fn split_pieces(v: &Vec<char>, sep: char) -> (out: Vec<Vec<char>>)
    ensures
        out@.map_values(|p: Vec<char>| p@) == pieces(v@, sep),
{
    let mut out: Vec<Vec<char>> = Vec::new();
    let mut piece: Vec<char> = Vec::new();
    let mut i: usize = 0;
    assert(v@.take(0) =~= Seq::<char>::empty());
    while i < v.len()
        invariant
            i <= v@.len(),
            out@.map_values(|p: Vec<char>| p@).push(piece@) == pieces(v@.take(i as int), sep),
        decreases v@.len() - i,
    {
        let c = v[i];
        assert(v@.take(i + 1).drop_last() =~= v@.take(i as int));
        let ghost before = out@.map_values(|p: Vec<char>| p@);
        if c == sep {
            let mut finished: Vec<char> = Vec::new();
            std::mem::swap(&mut finished, &mut piece);
            out.push(finished);
            assert(out@.map_values(|p: Vec<char>| p@) =~= before.push(finished@));
        } else {
            piece.push(c);
        }
        assert(out@.map_values(|p: Vec<char>| p@).push(piece@) =~= pieces(v@.take(i + 1), sep));
        i = i + 1;
    }
    let ghost before = out@.map_values(|p: Vec<char>| p@);
    out.push(piece);
    assert(out@.map_values(|p: Vec<char>| p@) =~= before.push(piece@));
    assert(v@.take(v@.len() as int) =~= v@);
    out
}

/// The characters of `s` with every trailing `c` dropped, as `str::trim_end_matches(c)` leaves
/// them.
pub open spec fn drop_trailing(s: Seq<char>, c: char) -> Seq<char>
    decreases s.len(),
{
    if s.len() > 0 && s.last() == c {
        drop_trailing(s.drop_last(), c)
    } else {
        s
    }
}

/// `s` with every trailing `c` dropped: `str::trim_end_matches` for one character.
pub fn without_trailing(s: &str, c: char) -> (r: String)
    ensures
        r@ == drop_trailing(s@, c),
{
    let v = chars_of(s);
    let mut j: usize = v.len();
    assert(v@.take(v@.len() as int) =~= v@);
    while j > 0 && v[j - 1] == c
        invariant
            j <= v@.len(),
            drop_trailing(v@, c) == drop_trailing(v@.take(j as int), c),
        decreases j,
    {
        assert(v@.take(j as int).drop_last() =~= v@.take(j - 1));
        j = j - 1;
    }
    string_of_range(&v, 0, j)
}

/// How many characters of `v` are left once every trailing `c` and, before that, every trailing
/// white space is dropped: `trim_end().trim_end_matches(c)`.
pub fn trimmed_end_len(v: &Vec<char>, c: char) -> (n: usize)
    ensures
        n <= v@.len(),
        v@.take(n as int) == drop_trailing(trim_end(v@), c),
{
    let mut j: usize = v.len();
    assert(v@.take(v@.len() as int) =~= v@);
    while j > 0 && white(v[j - 1])
        invariant
            j <= v@.len(),
            trim_end(v@) == trim_end(v@.take(j as int)),
        decreases j,
    {
        assert(v@.take(j as int).drop_last() =~= v@.take(j - 1));
        j = j - 1;
    }
    assert(v@.take(v@.len() as int) =~= v@);
    proof {
        let t = v@.take(j as int);
        if t.len() > 0 {
            assert(t.last() == v@[j - 1]);
        }
        assert(trim_end(t) == t);
    }
    let ghost t = v@.take(j as int);
    let mut k: usize = j;
    while k > 0 && v[k - 1] == c
        invariant
            k <= j <= v@.len(),
            t == v@.take(j as int),
            drop_trailing(t, c) == drop_trailing(v@.take(k as int), c),
        decreases k,
    {
        assert(v@.take(k as int).drop_last() =~= v@.take(k - 1));
        k = k - 1;
    }
    proof {
        let u = v@.take(k as int);
        if u.len() > 0 {
            assert(u.last() == v@[k - 1]);
        }
    }
    k
}

/// Lines joined with `sep` between them.
pub open spec fn joined(lines: Seq<Seq<char>>, sep: Seq<char>) -> Seq<char>
    decreases lines.len(),
{
    if lines.len() == 0 {
        seq![]
    } else if lines.len() == 1 {
        lines[0]
    } else {
        joined(lines.drop_last(), sep) + sep + lines.last()
    }
}


/// The strings of `v` joined with `sep` between them.
pub fn join_texts(v: &[String], sep: &str) -> (r: String)
    ensures
        r@ == joined(texts(v@), sep@),
{
    let mut r = String::new();
    let mut i: usize = 0;
    while i < v.len()
        invariant
            i <= v@.len(),
            r@ == joined(texts(v@).take(i as int), sep@),
        decreases v@.len() - i,
    {
        proof {
            let t = texts(v@).take(i + 1);
            assert(t.drop_last() =~= texts(v@).take(i as int));
            if i == 0 {
                assert(texts(v@).take(0) =~= Seq::<Seq<char>>::empty());
            }
        }
        if i > 0 {
            push_all(&mut r, sep);
        }
        push_all(&mut r, v[i].as_str());
        proof {
            let t = texts(v@).take(i + 1);
            if i == 0 {
                assert(r@ =~= t[0]);
            } else {
                assert(r@ =~= joined(t.drop_last(), sep@) + sep@ + t.last());
            }
        }
        i = i + 1;
    }
    assert(texts(v@).take(v@.len() as int) =~= texts(v@));
    r
}

/// How `{:?}` writes a string: quoted, with quotes, backslashes and control characters escaped.
pub uninterp spec fn debug_quoted(s: Seq<char>) -> Seq<char>;

/// `format!("{s:?}")`: the string as `str`'s `Debug` writes it, named by [`debug_quoted`].
#[verifier::external_body]
pub(crate) fn debug_text(s: &str) -> (r: String)
    ensures
        r@ == debug_quoted(s@),
{
    format!("{s:?}")
}


/// There is always one more piece than separators, so at least one.
pub proof fn lemma_pieces_nonempty(s: Seq<char>, sep: char)
    ensures
        pieces(s, sep).len() >= 1,
    decreases s.len(),
{
    if s.len() > 0 {
        lemma_pieces_nonempty(s.drop_last(), sep);
    }
}


/// How many bytes UTF-8 spends on `c`, as `char::len_utf8` says.
pub open spec fn width(c: char) -> nat {
    let u = c as u32;
    if u < 0x80 {
        1
    } else if u < 0x800 {
        2
    } else if u < 0x10000 {
        3
    } else {
        4
    }
}

/// How many bytes UTF-8 spends on `s`.
pub open spec fn utf8_len(s: Seq<char>) -> nat
    decreases s.len(),
{
    if s.len() == 0 {
        0
    } else {
        width(s[0]) + utf8_len(s.drop_first())
    }
}

/// `utf8_len` is the length of the encoding `str::len` counts.
pub proof fn lemma_utf8_len(s: Seq<char>)
    ensures
        encode_utf8(s).len() == utf8_len(s),
    decreases s.len(),
{
    if s.len() > 0 {
        char_is_scalar(s[0]);
        lemma_utf8_len(s.drop_first());
    }
}

/// The bytes of `a` then `b` are those of `a`, then those of `b`.
pub proof fn lemma_utf8_len_concat(a: Seq<char>, b: Seq<char>)
    ensures
        utf8_len(a + b) == utf8_len(a) + utf8_len(b),
    decreases a.len(),
{
    if a.len() > 0 {
        assert((a + b).drop_first() =~= a.drop_first() + b);
        lemma_utf8_len_concat(a.drop_first(), b);
    } else {
        assert(a + b =~= b);
    }
}

/// `char::len_utf8`.
pub fn width_of(c: char) -> (n: usize)
    ensures
        n == width(c),
{
    let u = c as u32;
    if u < 0x80 {
        1
    } else if u < 0x800 {
        2
    } else if u < 0x10000 {
        3
    } else {
        4
    }
}

} // verus!
