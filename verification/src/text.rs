//! Character-level text primitives shared by the configuration, path and
//! protocol modules: Unicode whitespace trimming, line splitting with the
//! same rules as `str::lines`, and small sequence helpers.

use vstd::prelude::*;

verus! {

/// The Unicode `White_Space` property, which is what `char::is_whitespace`
/// tests.
pub open spec fn is_ws(c: char) -> bool {
    let u = c as u32;
    ||| 0x9 <= u <= 0xd
    ||| u == 0x20
    ||| u == 0x85
    ||| u == 0xa0
    ||| u == 0x1680
    ||| 0x2000 <= u <= 0x200a
    ||| u == 0x2028
    ||| u == 0x2029
    ||| u == 0x202f
    ||| u == 0x205f
    ||| u == 0x3000
}

/// `s` without its leading whitespace.
pub open spec fn trim_start(s: Seq<char>) -> Seq<char>
    decreases s.len(),
{
    if s.len() > 0 && is_ws(s[0]) {
        trim_start(s.subrange(1, s.len() as int))
    } else {
        s
    }
}

/// `s` without its trailing whitespace.
pub open spec fn trim_end(s: Seq<char>) -> Seq<char>
    decreases s.len(),
{
    if s.len() > 0 && is_ws(s.last()) {
        trim_end(s.drop_last())
    } else {
        s
    }
}

/// `s` without leading and trailing whitespace.
pub open spec fn trim(s: Seq<char>) -> Seq<char> {
    trim_end(trim_start(s))
}

/// Index of the first `'\n'` in `s`, or `s.len()` when there is none.
pub open spec fn newline_index(s: Seq<char>) -> nat
    decreases s.len(),
{
    if s.len() == 0 {
        0
    } else if s[0] == '\n' {
        0
    } else {
        1 + newline_index(s.subrange(1, s.len() as int))
    }
}

/// `newline_index` finds the first line break, or the end.
pub proof fn lemma_newline_index_bound(s: Seq<char>)
    ensures
        newline_index(s) <= s.len(),
        newline_index(s) < s.len() ==> s[newline_index(s) as int] == '\n',
        forall|k: int| 0 <= k < newline_index(s) ==> s[k] != '\n',
    decreases s.len(),
{
    if s.len() > 0 && s[0] != '\n' {
        let t = s.subrange(1, s.len() as int);
        lemma_newline_index_bound(t);
        assert forall|k: int| 0 <= k < newline_index(s) implies s[k] != '\n' by {
            if k > 0 {
                assert(s[k] == t[k - 1]);
            }
        }
    }
}

/// A line as `str::lines` yields it: one trailing `'\r'` is dropped only
/// when the line was terminated by `'\n'`.
pub open spec fn strip_cr(l: Seq<char>) -> Seq<char> {
    if l.len() > 0 && l.last() == '\r' {
        l.drop_last()
    } else {
        l
    }
}

/// The lines of `s`, split as `str::lines` splits them: at each `'\n'`,
/// with a `"\r\n"` ending counted as one line ending, and no final empty
/// line after a trailing newline.
pub open spec fn lines(s: Seq<char>) -> Seq<Seq<char>>
    decreases s.len(),
{
    if s.len() == 0 {
        seq![]
    } else {
        let e = newline_index(s);
        if e < s.len() {
            proof {
                lemma_newline_index_bound(s);
            }
            seq![strip_cr(s.subrange(0, e as int))] + lines(
                s.subrange((e + 1) as int, s.len() as int),
            )
        } else {
            seq![s]
        }
    }
}

/// The characters of a string slice, in order.
pub(crate) fn chars_of(s: &str) -> (v: Vec<char>)
    ensures
        v@ == s@,
{
    broadcast use vstd::string::group_string_axioms;
    let mut v: Vec<char> = Vec::new();
    for c in it: s.chars()
        invariant
            it.seq() == s@,
            v@ == it.seq().subrange(0, it.index() as int),
    {
        v.push(c);
    }
    v
}

/// Appends one character with std's `String::push`, which its
/// documentation describes as appending the given `char` to the end of the
/// string; the contract claims exactly that.
#[verifier::external_body]
fn string_push(s: &mut String, c: char)
    ensures
        final(s)@ == old(s)@.push(c),
{
    s.push(c);
}

/// The string made of the given characters, in order.
pub(crate) fn string_from_chars(v: &Vec<char>) -> (s: String)
    ensures
        s@ == v@,
{
    let mut s = String::new();
    for i in 0..v.len()
        invariant
            s@ == v@.subrange(0, i as int),
    {
        string_push(&mut s, v[i]);
        assert(v@.subrange(0, i + 1) =~= v@.subrange(0, i as int).push(v@[i as int]));
    }
    assert(v@.subrange(0, v.len() as int) =~= v@);
    s
}

pub(crate) fn char_is_ws(c: char) -> (b: bool)
    ensures
        b == is_ws(c),
{
    let u = c as u32;
    (0x9 <= u && u <= 0xd) || u == 0x20 || u == 0x85 || u == 0xa0 || u == 0x1680 || (0x2000 <= u
        && u <= 0x200a) || u == 0x2028 || u == 0x2029 || u == 0x202f || u == 0x205f || u == 0x3000
}

/// Bounds of `trim(s[lo..hi])` inside `s`.
pub(crate) fn trim_bounds(s: &Vec<char>, lo: usize, hi: usize) -> (r: (usize, usize))
    requires
        lo <= hi <= s.len(),
    ensures
        lo <= r.0 <= r.1 <= hi,
        s@.subrange(r.0 as int, r.1 as int) == trim(s@.subrange(lo as int, hi as int)),
        s@.subrange(r.0 as int, r.1 as int) == trim_end(s@.subrange(r.0 as int, hi as int)),
        s@.subrange(r.0 as int, hi as int) == trim_start(s@.subrange(lo as int, hi as int)),
{
    let mut i = lo;
    while i < hi && char_is_ws(s[i])
        invariant
            lo <= i <= hi <= s.len(),
            trim_start(s@.subrange(lo as int, hi as int)) == trim_start(
                s@.subrange(i as int, hi as int),
            ),
        decreases hi - i,
    {
        assert(s@.subrange(i as int, hi as int).subrange(1, (hi - i) as int) =~= s@.subrange(
            i + 1,
            hi as int,
        ));
        i = i + 1;
    }
    let mut j = hi;
    while j > i && char_is_ws(s[j - 1])
        invariant
            lo <= i <= j <= hi <= s.len(),
            trim_end(s@.subrange(i as int, hi as int)) == trim_end(s@.subrange(i as int, j as int)),
        decreases j - i,
    {
        assert(s@.subrange(i as int, j as int).drop_last() =~= s@.subrange(i as int, j - 1));
        j = j - 1;
    }
    (i, j)
}

/// Whether `s[lo..hi]` equals `t`.
pub(crate) fn range_eq(s: &Vec<char>, lo: usize, hi: usize, t: &Vec<char>) -> (b: bool)
    requires
        lo <= hi <= s.len(),
    ensures
        b == (s@.subrange(lo as int, hi as int) == t@),
{
    if hi - lo != t.len() {
        return false;
    }
    let mut k: usize = 0;
    while k < t.len()
        invariant
            lo <= hi <= s.len(),
            hi - lo == t.len(),
            k <= t.len(),
            forall|m: int| 0 <= m < k ==> s@[lo + m] == t@[m],
        decreases t.len() - k,
    {
        if s[lo + k] != t[k] {
            assert(s@.subrange(lo as int, hi as int)[k as int] != t@[k as int]);
            return false;
        }
        k = k + 1;
    }
    assert(s@.subrange(lo as int, hi as int) =~= t@);
    true
}

/// Whether `s[lo..hi]` begins with `t`.
pub(crate) fn range_starts_with(s: &Vec<char>, lo: usize, hi: usize, t: &Vec<char>) -> (b: bool)
    requires
        lo <= hi <= s.len(),
    ensures
        b == (t.len() <= hi - lo && s@.subrange(lo as int, lo + t.len()) == t@),
{
    if hi - lo < t.len() {
        return false;
    }
    range_eq(s, lo, lo + t.len(), t)
}

/// Appends `s[lo..hi]` to `out`.
pub(crate) fn push_range(out: &mut Vec<char>, s: &Vec<char>, lo: usize, hi: usize)
    requires
        lo <= hi <= s.len(),
    ensures
        final(out)@ == old(out)@ + s@.subrange(lo as int, hi as int),
{
    let ghost start = out@;
    let mut k = lo;
    while k < hi
        invariant
            lo <= k <= hi <= s.len(),
            out@ == start + s@.subrange(lo as int, k as int),
        decreases hi - k,
    {
        out.push(s[k]);
        assert(s@.subrange(lo as int, k + 1) =~= s@.subrange(lo as int, k as int).push(s@[k as int]));
        k = k + 1;
    }
}

/// Appends all of `t` to `out`.
pub(crate) fn push_all(out: &mut Vec<char>, t: &Vec<char>)
    ensures
        final(out)@ == old(out)@ + t@,
{
    push_range(out, t, 0, t.len());
    assert(t@.subrange(0, t.len() as int) =~= t@);
}

/// Appends the characters of `t` to `out`.
pub(crate) fn push_str(out: &mut Vec<char>, t: &str)
    ensures
        final(out)@ == old(out)@ + t@,
{
    let v = chars_of(t);
    push_all(out, &v);
}

/// `s` with leading and trailing whitespace removed, as `str::trim` does.
pub(crate) fn trim_str(s: &str) -> (r: String)
    ensures
        r@ == trim(s@),
{
    let v = chars_of(s);
    let (a, b) = trim_bounds(&v, 0, v.len());
    assert(v@.subrange(0, v.len() as int) =~= v@);
    let mut out: Vec<char> = Vec::new();
    push_range(&mut out, &v, a, b);
    assert(out@ =~= v@.subrange(a as int, b as int));
    string_from_chars(&out)
}

/// Whether a string has any characters.
pub(crate) fn str_is_empty(s: &str) -> (b: bool)
    ensures
        b == (s@.len() == 0),
{
    let v = chars_of(s);
    v.len() == 0
}

} // verus!

verus! {

/// The decimal digit character for `d < 10`.
pub open spec fn digit_char(d: nat) -> char {
    ((d + 48) as u8) as char
}

/// The decimal representation of `n`, without leading zeros.
pub open spec fn decimal(n: nat) -> Seq<char>
    decreases n,
{
    if n < 10 {
        seq![digit_char(n)]
    } else {
        decimal(n / 10).push(digit_char(n % 10))
    }
}

/// Appends the decimal representation of `n`.
pub(crate) fn push_decimal(out: &mut Vec<char>, n: u64)
    ensures
        final(out)@ == old(out)@ + decimal(n as nat),
    decreases n,
{
    if n >= 10 {
        push_decimal(out, n / 10);
    }
    let d: u8 = (n % 10) as u8;
    let c: char = (d + 48u8) as char;
    out.push(c);
    assert(out@ =~= old(out)@ + decimal(n as nat));
}

/// A `String` holding the characters of `s`.
pub(crate) fn string_of(s: &str) -> (r: String)
    ensures
        r@ == s@,
{
    let v = chars_of(s);
    string_from_chars(&v)
}

/// Whether `pat` occurs somewhere in `s`.
pub open spec fn contains_seq(s: Seq<char>, pat: Seq<char>) -> bool {
    exists|i: int| 0 <= i && i + pat.len() <= s.len() && #[trigger] s.subrange(i, i + pat.len()) == pat
}

/// Whether `pat` occurs in `s`, as `str::contains` with a string pattern.
pub(crate) fn str_contains(s: &str, pat: &str) -> (b: bool)
    ensures
        b == contains_seq(s@, pat@),
{
    let v = chars_of(s);
    let p = chars_of(pat);
    if p.len() > v.len() {
        return false;
    }
    if p.len() == 0 {
        assert(s@.subrange(0int, 0int + pat@.len()) =~= pat@);
        return true;
    }
    let last = v.len() - p.len();
    let mut i: usize = 0;
    while i <= last
        invariant
            v@ == s@,
            p@ == pat@,
            0 < p.len() <= v.len(),
            last == v.len() - p.len(),
            i <= last + 1,
            forall|j: int| 0 <= j < i ==> #[trigger] v@.subrange(j, j + p@.len()) != p@,
        decreases last + 1 - i,
    {
        if range_eq(&v, i, i + p.len(), &p) {
            return true;
        }
        i = i + 1;
    }
    assert forall|j: int| 0 <= j && j + p@.len() <= v@.len() implies #[trigger] v@.subrange(j, j + p@.len()) != p@ by {
        assert(j < i);
    }
    false
}

} // verus!

verus! {

/// Index of the first `ch` in `s`, or `s.len()` when there is none.
pub open spec fn char_index(s: Seq<char>, ch: char) -> nat
    decreases s.len(),
{
    if s.len() == 0 {
        0
    } else if s[0] == ch {
        0
    } else {
        1 + char_index(s.subrange(1, s.len() as int), ch)
    }
}

/// `char_index` never points past the end.
pub proof fn lemma_char_index_bound(s: Seq<char>, ch: char)
    ensures
        char_index(s, ch) <= s.len(),
    decreases s.len(),
{
    if s.len() > 0 && s[0] != ch {
        lemma_char_index_bound(s.subrange(1, s.len() as int), ch);
    }
}

/// An index before which `ch` does not occur, and at which it does (or
/// the end), is `char_index`.
pub proof fn lemma_char_index_at(t: Seq<char>, ch: char, k: int)
    requires
        0 <= k <= t.len(),
        forall|m: int| 0 <= m < k ==> t[m] != ch,
        k == t.len() || t[k] == ch,
    ensures
        char_index(t, ch) == k,
    decreases k,
{
    if k > 0 {
        let u = t.subrange(1, t.len() as int);
        assert forall|m: int| 0 <= m < k - 1 implies u[m] != ch by {
            assert(u[m] == t[m + 1]);
        }
        if k < t.len() {
            assert(u[k - 1] == t[k]);
        }
        lemma_char_index_at(u, ch, k - 1);
    }
}

/// The pieces of `s` between `sep` characters, as `str::split(sep)`
/// yields them: empty pieces included, one empty piece for `""`.
pub open spec fn split_on(s: Seq<char>, sep: char) -> Seq<Seq<char>>
    decreases s.len(),
{
    let c = char_index(s, sep);
    if c < s.len() {
        proof {
            lemma_char_index_bound(s, sep);
        }
        seq![s.subrange(0, c as int)] + split_on(s.subrange((c + 1) as int, s.len() as int), sep)
    } else {
        seq![s]
    }
}

pub open spec fn strings_view(v: Seq<String>) -> Seq<Seq<char>> {
    v.map_values(|s: String| s@)
}

/// The pieces of `s` between `sep` characters, as `str::split` yields them.
pub(crate) fn split_str(s: &str, sep: char) -> (r: Vec<String>)
    ensures
        strings_view(r@) == split_on(s@, sep),
{
    let v = chars_of(s);
    let n = v.len();
    let mut out: Vec<String> = Vec::new();
    let mut pos: usize = 0;
    assert(v@.subrange(0, n as int) =~= v@);
    loop
        invariant
            n == v.len(),
            v@ == s@,
            pos <= n,
            split_on(s@, sep) == strings_view(out@) + split_on(v@.subrange(pos as int, n as int), sep),
        decreases n - pos,
    {
        let mut e = pos;
        while e < n && v[e] != sep
            invariant
                pos <= e <= n,
                n == v.len(),
                forall|m: int| pos <= m < e ==> v@[m] != sep,
            decreases n - e,
        {
            e = e + 1;
        }
        let ghost rest = v@.subrange(pos as int, n as int);
        proof {
            assert forall|m: int| 0 <= m < e - pos implies rest[m] != sep by {
                assert(rest[m] == v@[pos + m]);
            }
            if e < n {
                assert(rest[e - pos] == v@[e as int]);
            }
            lemma_char_index_at(rest, sep, e - pos);
        }
        let mut piece: Vec<char> = Vec::new();
        push_range(&mut piece, &v, pos, e);
        let ps = string_from_chars(&piece);
        let ghost before = out@;
        out.push(ps);
        assert(strings_view(out@) =~= strings_view(before).push(v@.subrange(pos as int, e as int)));
        if e == n {
            assert(rest =~= v@.subrange(pos as int, e as int));
            assert(split_on(rest, sep) =~= seq![rest]);
            assert(split_on(s@, sep) =~= strings_view(out@));
            return out;
        }
        proof {
            assert(rest.subrange(0, (e - pos) as int) =~= v@.subrange(pos as int, e as int));
            assert(rest.subrange((e - pos + 1) as int, rest.len() as int) =~= v@.subrange(
                e + 1,
                n as int,
            ));
            assert(split_on(rest, sep) =~= seq![v@.subrange(pos as int, e as int)] + split_on(
                v@.subrange(e + 1, n as int),
                sep,
            ));
        }
        pos = e + 1;
        assert(split_on(s@, sep) =~= strings_view(out@) + split_on(v@.subrange(pos as int, n as int), sep));
    }
}

} // verus!
