//! Rewriting the `[browser].chromium_path` entry of the TOML configuration
//! file, as the browser settings dialog saves it.

use vstd::prelude::*;
use crate::text::{
    chars_of, lines, newline_index, push_all, push_range, push_str, range_eq, range_starts_with,
    string_from_chars, strip_cr, trim, trim_bounds, trim_start,
};

verus! {

/// The characters that stand for `c` inside a TOML basic string.
pub open spec fn escape_char(c: char) -> Seq<char> {
    if c == '\\' {
        seq!['\\', '\\']
    } else if c == '"' {
        seq!['\\', '"']
    } else {
        seq![c]
    }
}

/// `s` with every backslash and double quote preceded by a backslash.
pub open spec fn escape(s: Seq<char>) -> Seq<char>
    decreases s.len(),
{
    if s.len() == 0 {
        seq![]
    } else {
        escape_char(s[0]) + escape(s.subrange(1, s.len() as int))
    }
}

/// What a TOML reader makes of the inside of a basic string written with
/// only `\\` and `\"` escapes: a backslash takes the next character
/// literally.
pub open spec fn unescape(t: Seq<char>) -> Seq<char>
    decreases t.len(),
{
    if t.len() == 0 {
        seq![]
    } else if t[0] == '\\' && t.len() >= 2 {
        seq![t[1]] + unescape(t.subrange(2, t.len() as int))
    } else {
        seq![t[0]] + unescape(t.subrange(1, t.len() as int))
    }
}

/// Escaping one more character appends that character's escape.
pub proof fn lemma_escape_push(s: Seq<char>, c: char)
    ensures
        escape(s.push(c)) == escape(s) + escape_char(c),
    decreases s.len(),
{
    if s.len() == 0 {
        assert(s.push(c).subrange(1, 1) =~= Seq::<char>::empty());
        assert(escape(Seq::<char>::empty()) =~= Seq::<char>::empty());
        assert(s.push(c)[0] == c);
        assert(escape(s.push(c)) =~= escape_char(c));
    } else {
        let t = s.subrange(1, s.len() as int);
        lemma_escape_push(t, c);
        assert(s.push(c).subrange(1, (s.len() + 1) as int) =~= t.push(c));
        assert(escape(s.push(c)) =~= escape_char(s[0]) + escape(t.push(c)));
        assert(escape(s) + escape_char(c) =~= escape_char(s[0]) + (escape(t) + escape_char(c)));
    }
}

/// Reading back an escaped value gives the value: `unescape` undoes
/// `escape` for every string.
pub proof fn lemma_unescape_escape(s: Seq<char>)
    ensures
        unescape(escape(s)) == s,
    decreases s.len(),
{
    if s.len() > 0 {
        let c = s[0];
        let t = s.subrange(1, s.len() as int);
        lemma_unescape_escape(t);
        let e = escape(s);
        assert(e =~= escape_char(c) + escape(t));
        if c == '\\' || c == '"' {
            assert(e[0] == '\\');
            assert(e[1] == c);
            assert(e.subrange(2, e.len() as int) =~= escape(t));
        } else {
            assert(e[0] == c);
            assert(e.subrange(1, e.len() as int) =~= escape(t));
        }
        assert(unescape(e) =~= s);
    }
}

/// Whether a trimmed line is a section header such as `[browser]`.
pub open spec fn is_header(t: Seq<char>) -> bool {
    t.len() > 0 && t[0] == '[' && t.last() == ']'
}

/// Whether a trimmed line assigns the key `chromium_path` itself (and not
/// a longer key such as `chromium_path_extra`): the key, optional
/// whitespace, then `=`.
pub open spec fn is_chromium_path_key(t: Seq<char>) -> bool {
    let k = "chromium_path"@;
    &&& t.len() >= k.len()
    &&& t.subrange(0, k.len() as int) == k
    &&& trim_start(t.subrange(k.len() as int, t.len() as int)).len() > 0
    &&& trim_start(t.subrange(k.len() as int, t.len() as int))[0] == '='
}

/// The line that records `v` as the Chromium path, newline included.
pub open spec fn key_line(v: Seq<char>) -> Seq<char> {
    "chromium_path = \""@ + escape(v) + "\"\n"@
}

/// State of the rewrite after some lines: text written so far, whether the
/// current section is `[browser]`, whether the new entry has been written.
pub type RewriteState = (Seq<char>, bool, bool);

/// Write the new entry unless it was written already or the value is
/// cleared.
pub open spec fn emit(st: RewriteState, value: Option<Seq<char>>) -> RewriteState {
    if !st.2 && value is Some {
        (st.0 + key_line(value->0), st.1, true)
    } else {
        st
    }
}

/// Whether the section that starts with the lines `ls` (up to the next
/// header) holds a `chromium_path` entry.
pub open spec fn section_has_key(ls: Seq<Seq<char>>) -> bool
    decreases ls.len(),
{
    if ls.len() == 0 {
        false
    } else if is_header(trim(ls[0])) {
        false
    } else if is_chromium_path_key(trim(ls[0])) {
        true
    } else {
        section_has_key(ls.drop_first())
    }
}

/// For each line of `ls`, whether the lines after it, up to the next
/// header, hold a `chromium_path` entry.
pub open spec fn ahead_flags(ls: Seq<Seq<char>>) -> Seq<bool> {
    Seq::new(ls.len(), |i: int| section_has_key(ls.subrange(i + 1, ls.len() as int)))
}

/// One input line, where `ahead` tells whether the section that a header
/// opens holds an entry: a header closes an open `[browser]` section
/// (writing the entry there if still due) and is copied; a `[browser]`
/// header whose section holds no entry gets the new entry right after it;
/// an existing entry inside `[browser]` is replaced by the new one (or
/// dropped); any other line is copied.
pub open spec fn step(st: RewriteState, line: Seq<char>, ahead: bool, value: Option<Seq<char>>) -> RewriteState {
    let t = trim(line);
    if is_header(t) {
        let e = if st.1 {
            emit(st, value)
        } else {
            st
        };
        let h = (e.0 + line + seq!['\n'], t == "[browser]"@, e.2);
        if t == "[browser]"@ && !ahead {
            emit(h, value)
        } else {
            h
        }
    } else if st.1 && is_chromium_path_key(t) {
        emit(st, value)
    } else {
        (st.0 + line + seq!['\n'], st.1, st.2)
    }
}

/// The rewrite state after the lines `ls`, with `fl` the lookahead flag of
/// each line.
pub open spec fn fold_lines(ls: Seq<Seq<char>>, fl: Seq<bool>, value: Option<Seq<char>>) -> RewriteState
    decreases ls.len(),
{
    if ls.len() == 0 {
        (seq![], false, false)
    } else {
        step(fold_lines(ls.drop_last(), fl.drop_last(), value), ls.last(), fl.last(), value)
    }
}

/// The configuration text after setting (`Some`) or clearing (`None`) the
/// Chromium path: every line is processed by `step`, so the entry replaces
/// an existing one in place, or comes right after a `[browser]` header
/// whose section has none; an entry still due at the end of a final
/// `[browser]` section is written there; when no `[browser]` section took
/// it, a new section holding it is appended.
pub open spec fn rewritten(existing: Seq<char>, value: Option<Seq<char>>) -> Seq<char> {
    let ls = lines(existing);
    let st = fold_lines(ls, ahead_flags(ls), value);
    let st2 = if st.1 {
        emit(st, value)
    } else {
        st
    };
    if !st2.2 && value is Some {
        let o = if st2.0.len() > 0 && st2.0.last() != '\n' {
            st2.0.push('\n')
        } else {
            st2.0
        };
        o + "\n[browser]\n"@ + key_line(value->0)
    } else {
        st2.0
    }
}

pub open spec fn opt_view(o: Option<&str>) -> Option<Seq<char>> {
    match o {
        Some(s) => Some(s@),
        None => None,
    }
}

/// Appends the escaped form of `v`.
fn push_escaped(out: &mut Vec<char>, v: &Vec<char>)
    ensures
        final(out)@ == old(out)@ + escape(v@),
{
    let ghost start = out@;
    let mut i: usize = 0;
    assert(v@.subrange(0, 0) =~= Seq::<char>::empty());
    while i < v.len()
        invariant
            i <= v.len(),
            out@ == start + escape(v@.subrange(0, i as int)),
        decreases v.len() - i,
    {
        let c = v[i];
        if c == '\\' || c == '"' {
            out.push('\\');
        }
        out.push(c);
        proof {
            lemma_escape_push(v@.subrange(0, i as int), c);
            assert(v@.subrange(0, i + 1) =~= v@.subrange(0, i as int).push(c));
        }
        assert(out@ =~= start + escape(v@.subrange(0, i + 1)));
        i = i + 1;
    }
    assert(v@.subrange(0, v.len() as int) =~= v@);
}

/// `s` with backslashes and double quotes escaped for a TOML basic string.
pub fn escape_toml(s: &str) -> (r: String)
    ensures
        r@ == escape(s@),
{
    let v = chars_of(s);
    let mut out: Vec<char> = Vec::new();
    push_escaped(&mut out, &v);
    string_from_chars(&out)
}

fn is_key_range(s: &Vec<char>, a: usize, b: usize) -> (r: bool)
    requires
        a <= b <= s.len(),
    ensures
        r == is_chromium_path_key(s@.subrange(a as int, b as int)),
{
    let k = chars_of("chromium_path");
    let ghost t = s@.subrange(a as int, b as int);
    if k.len() <= b - a {
        assert(t.subrange(0, k.len() as int) =~= s@.subrange(a as int, a + k.len()));
    }
    if !range_starts_with(s, a, b, &k) {
        return false;
    }
    let (c, _d) = trim_bounds(s, a + k.len(), b);
    assert(t.subrange(k.len() as int, t.len() as int) =~= s@.subrange(a + k.len(), b as int));
    c < b && s[c] == '='
}

/// Whether a trimmed line assigns the `chromium_path` key.
pub fn is_chromium_path_key_line(trimmed: &str) -> (r: bool)
    ensures
        r == is_chromium_path_key(trimmed@),
{
    let v = chars_of(trimmed);
    assert(v@.subrange(0, v.len() as int) =~= v@);
    is_key_range(&v, 0, v.len())
}

proof fn lemma_newline_index_at(t: Seq<char>, k: int)
    requires
        0 <= k <= t.len(),
        forall|m: int| 0 <= m < k ==> t[m] != '\n',
        k == t.len() || t[k] == '\n',
    ensures
        newline_index(t) == k,
    decreases k,
{
    if k > 0 {
        let u = t.subrange(1, t.len() as int);
        assert forall|m: int| 0 <= m < k - 1 implies u[m] != '\n' by {
            assert(u[m] == t[m + 1]);
        }
        if k < t.len() {
            assert(u[k - 1] == t[k]);
        }
        lemma_newline_index_at(u, k - 1);
    }
}

fn emit_exec(
    out: &mut Vec<char>,
    wrote: &mut bool,
    in_browser: bool,
    esc: &Option<Vec<char>>,
    Ghost(value): Ghost<Option<Seq<char>>>,
)
    requires
        match value {
            Some(v) => esc matches Some(e) && e@ == escape(v),
            None => esc is None,
        },
    ensures
        (final(out)@, in_browser, *final(wrote)) == emit((old(out)@, in_browser, *old(wrote)), value),
{
    if !*wrote {
        if let Some(e) = esc {
            push_str(out, "chromium_path = \"");
            push_all(out, e);
            push_str(out, "\"\n");
            *wrote = true;
            assert(final(out)@ =~= old(out)@ + key_line(value->0));
        }
    }
}

/// Finds the line that starts at `pos`: returns the index `e` of its
/// line ending (or `s.len()`) and the end `lend` of its text, which leaves
/// out a `'\r'` before the `'\n'`.
fn next_line(s: &Vec<char>, pos: usize) -> (r: (usize, usize))
    requires
        pos < s.len(),
    ensures
        pos <= r.1 <= r.0 <= s.len(),
        r.0 < s.len() ==> lines(s@.subrange(pos as int, s.len() as int)) == seq![
            s@.subrange(pos as int, r.1 as int),
        ] + lines(s@.subrange(r.0 + 1, s.len() as int)),
        r.0 == s.len() ==> lines(s@.subrange(pos as int, s.len() as int)) == seq![
            s@.subrange(pos as int, r.1 as int),
        ],
{
    let n = s.len();
    let mut e = pos;
    while e < n && s[e] != '\n'
        invariant
            pos <= e <= n,
            n == s.len(),
            forall|m: int| pos <= m < e ==> s@[m] != '\n',
        decreases n - e,
    {
        e = e + 1;
    }
    let ghost rest = s@.subrange(pos as int, n as int);
    proof {
        assert forall|m: int| 0 <= m < e - pos implies rest[m] != '\n' by {
            assert(rest[m] == s@[pos + m]);
        }
        if e < n {
            assert(rest[e - pos] == s@[e as int]);
        }
        lemma_newline_index_at(rest, e - pos);
    }
    let lend = if e < n && e > pos && s[e - 1] == '\r' {
        e - 1
    } else {
        e
    };
    let ghost line = s@.subrange(pos as int, lend as int);
    proof {
        assert(rest.subrange(0, (e - pos) as int) =~= s@.subrange(pos as int, e as int));
        if e < n {
            assert(rest.subrange((e - pos + 1) as int, rest.len() as int) =~= s@.subrange(
                e + 1,
                n as int,
            ));
            assert(line == strip_cr(s@.subrange(pos as int, e as int))) by {
                if e > pos && s@[e - 1] == '\r' {
                    assert(s@.subrange(pos as int, e as int).drop_last() =~= line);
                }
            }
            assert(lines(rest) =~= seq![line] + lines(s@.subrange(e + 1, n as int)));
        } else {
            assert(line =~= rest);
            assert(lines(rest) =~= seq![line]);
        }
    }
    (e, lend)
}

/// Whether the section that starts at `start` (up to the next header)
/// holds a `chromium_path` entry.
fn section_has_key_from(s: &Vec<char>, start: usize) -> (r: bool)
    requires
        start <= s.len(),
    ensures
        r == section_has_key(lines(s@.subrange(start as int, s.len() as int))),
{
    let n = s.len();
    let mut p = start;
    while p < n
        invariant
            start <= p <= n,
            n == s.len(),
            section_has_key(lines(s@.subrange(start as int, n as int))) == section_has_key(
                lines(s@.subrange(p as int, n as int)),
            ),
        decreases n - p,
    {
        let (e, lend) = next_line(s, p);
        let ghost line = s@.subrange(p as int, lend as int);
        let ghost ls = lines(s@.subrange(p as int, n as int));
        let (a, b) = trim_bounds(s, p, lend);
        let ghost t = s@.subrange(a as int, b as int);
        assert(ls[0] == line);
        proof {
            if b > a {
                assert(t[0] == s@[a as int]);
                assert(t.last() == s@[b - 1]);
            }
        }
        if b > a && s[a] == '[' && s[b - 1] == ']' {
            return false;
        }
        if is_key_range(s, a, b) {
            return true;
        }
        let next = if e < n {
            e + 1
        } else {
            n
        };
        proof {
            if e == n {
                assert(s@.subrange(n as int, n as int) =~= Seq::<char>::empty());
                assert(lines(Seq::<char>::empty()) =~= Seq::<Seq<char>>::empty());
            }
            assert(ls.drop_first() =~= lines(s@.subrange(next as int, n as int)));
        }
        p = next;
    }
    assert(s@.subrange(n as int, n as int) =~= Seq::<char>::empty());
    assert(lines(Seq::<char>::empty()) =~= Seq::<Seq<char>>::empty());
    false
}

/// Processes the line `s[pos..lend]` as `step` does, where the next line
/// starts at `next`.
fn rewrite_line(
    out: &mut Vec<char>,
    in_browser: &mut bool,
    wrote: &mut bool,
    s: &Vec<char>,
    pos: usize,
    lend: usize,
    next: usize,
    esc: &Option<Vec<char>>,
    browser: &Vec<char>,
    Ghost(value): Ghost<Option<Seq<char>>>,
)
    requires
        pos <= lend <= s.len(),
        next <= s.len(),
        browser@ == "[browser]"@,
        match value {
            Some(v) => esc matches Some(e) && e@ == escape(v),
            None => esc is None,
        },
    ensures
        (final(out)@, *final(in_browser), *final(wrote)) == step(
            (old(out)@, *old(in_browser), *old(wrote)),
            s@.subrange(pos as int, lend as int),
            section_has_key(lines(s@.subrange(next as int, s.len() as int))),
            value,
        ),
{
    let ghost line = s@.subrange(pos as int, lend as int);
    let (a, b) = trim_bounds(s, pos, lend);
    let ghost t = s@.subrange(a as int, b as int);
    let header = b > a && s[a] == '[' && s[b - 1] == ']';
    proof {
        if b > a {
            assert(t[0] == s@[a as int]);
            assert(t.last() == s@[b - 1]);
        }
    }
    if header {
        if *in_browser {
            emit_exec(out, wrote, *in_browser, esc, Ghost(value));
        }
        push_range(out, s, pos, lend);
        out.push('\n');
        *in_browser = range_eq(s, a, b, browser);
        if *in_browser && !section_has_key_from(s, next) {
            emit_exec(out, wrote, *in_browser, esc, Ghost(value));
        }
    } else if *in_browser && is_key_range(s, a, b) {
        emit_exec(out, wrote, *in_browser, esc, Ghost(value));
    } else {
        push_range(out, s, pos, lend);
        out.push('\n');
    }
}

/// The configuration text `existing` with the `[browser].chromium_path`
/// entry set to `new_value`, or removed when it is `None`.
pub fn rewrite_chromium_path(existing: &str, new_value: Option<&str>) -> (r: String)
    ensures
        r@ == rewritten(existing@, opt_view(new_value)),
{
    let ghost value = opt_view(new_value);
    let esc: Option<Vec<char>> = match new_value {
        Some(v) => {
            let vc = chars_of(v);
            let mut e: Vec<char> = Vec::new();
            push_escaped(&mut e, &vc);
            Some(e)
        },
        None => None,
    };
    let s = chars_of(existing);
    let n = s.len();
    let browser = chars_of("[browser]");
    let mut out: Vec<char> = Vec::new();
    let mut in_browser = false;
    let mut wrote = false;
    let mut pos: usize = 0;
    let ghost mut done: Seq<Seq<char>> = seq![];
    let ghost flags = ahead_flags(lines(s@));
    assert(s@.subrange(0, n as int) =~= s@);
    while pos < n
        invariant
            n == s.len(),
            pos <= n,
            lines(s@) == done + lines(s@.subrange(pos as int, n as int)),
            flags == ahead_flags(lines(s@)),
            (out@, in_browser, wrote) == fold_lines(done, flags.subrange(0, done.len() as int), value),
            browser@ == "[browser]"@,
            match value {
                Some(v) => esc matches Some(e) && e@ == escape(v),
                None => esc is None,
            },
        decreases n - pos,
    {
        let (e, lend) = next_line(&s, pos);
        let ghost line = s@.subrange(pos as int, lend as int);
        let ghost old_done = done;
        let next = if e < n {
            e + 1
        } else {
            n
        };
        proof {
            let ls = lines(s@);
            let k = done.len() as int;
            if e == n {
                assert(s@.subrange(n as int, n as int) =~= Seq::<char>::empty());
                assert(lines(Seq::<char>::empty()) =~= Seq::<Seq<char>>::empty());
            }
            assert(ls =~= done + (seq![line] + lines(s@.subrange(next as int, n as int))));
            assert(ls.subrange(k + 1, ls.len() as int) =~= lines(s@.subrange(next as int, n as int)));
            assert(flags[k] == section_has_key(lines(s@.subrange(next as int, n as int))));
            assert(flags.subrange(0, k + 1).drop_last() =~= flags.subrange(0, k));
        }
        rewrite_line(
            &mut out,
            &mut in_browser,
            &mut wrote,
            &s,
            pos,
            lend,
            next,
            &esc,
            &browser,
            Ghost(value),
        );
        proof {
            done = done.push(line);
            assert(done.drop_last() =~= old_done);
        }
        pos = next;
        proof {
            if e == n {
                assert(s@.subrange(n as int, n as int) =~= Seq::<char>::empty());
            }
            assert(done + lines(s@.subrange(pos as int, n as int)) =~= old_done + (seq![line]
                + lines(s@.subrange(pos as int, n as int))));
        }
    }
    assert(s@.subrange(n as int, n as int) =~= Seq::<char>::empty());
    assert(done =~= lines(s@));
    assert(flags.subrange(0, done.len() as int) =~= flags);
    if in_browser {
        emit_exec(&mut out, &mut wrote, in_browser, &esc, Ghost(value));
    }
    if !wrote {
        if let Some(e) = &esc {
            if out.len() > 0 && out[out.len() - 1] != '\n' {
                out.push('\n');
            }
            push_str(&mut out, "\n[browser]\n");
            push_str(&mut out, "chromium_path = \"");
            push_all(&mut out, e);
            push_str(&mut out, "\"\n");
        }
    }
    string_from_chars(&out)
}

/// The text of the entry line for `v`, without its line ending.
pub open spec fn key_text(v: Seq<char>) -> Seq<char> {
    "chromium_path = \""@ + escape(v) + "\""@
}

/// The lines of text `ls`, each followed by a line ending.
pub open spec fn join_lines(ls: Seq<Seq<char>>) -> Seq<char>
    decreases ls.len(),
{
    if ls.len() == 0 {
        seq![]
    } else {
        join_lines(ls.drop_last()) + ls.last() + seq!['\n']
    }
}

/// The lines that the rewrite writes for the input lines `ls`, in order.
pub open spec fn emitted(ls: Seq<Seq<char>>, fl: Seq<bool>, value: Option<Seq<char>>) -> Seq<Seq<char>>
    decreases ls.len(),
{
    if ls.len() == 0 {
        seq![]
    } else {
        let st = fold_lines(ls.drop_last(), fl.drop_last(), value);
        let e = emitted(ls.drop_last(), fl.drop_last(), value);
        let line = ls.last();
        let t = trim(line);
        let due = !st.2 && value is Some;
        let with_key = if due {
            e.push(key_text(value->0))
        } else {
            e
        };
        if is_header(t) {
            if st.1 {
                with_key.push(line)
            } else if due && t == "[browser]"@ && !fl.last() {
                e.push(line).push(key_text(value->0))
            } else {
                e.push(line)
            }
        } else if st.1 && is_chromium_path_key(t) {
            with_key
        } else {
            e.push(line)
        }
    }
}

/// Whether, after the lines `ls`, the current section is `[browser]`.
pub open spec fn in_browser_after(ls: Seq<Seq<char>>) -> bool
    decreases ls.len(),
{
    if ls.len() == 0 {
        false
    } else if is_header(trim(ls.last())) {
        trim(ls.last()) == "[browser]"@
    } else {
        in_browser_after(ls.drop_last())
    }
}

/// The `chromium_path` entries (trimmed) that lie in `[browser]` sections
/// of the lines `ls`: what a reader of the file finds for the key.
pub open spec fn browser_entries(ls: Seq<Seq<char>>) -> Seq<Seq<char>>
    decreases ls.len(),
{
    if ls.len() == 0 {
        seq![]
    } else {
        let t = trim(ls.last());
        if !is_header(t) && in_browser_after(ls.drop_last()) && is_chromium_path_key(t) {
            browser_entries(ls.drop_last()).push(t)
        } else {
            browser_entries(ls.drop_last())
        }
    }
}

pub open spec fn no_newline(l: Seq<char>) -> bool {
    forall|i: int| 0 <= i < l.len() ==> l[i] != '\n'
}

proof fn lemma_fold_is_join(ls: Seq<Seq<char>>, fl: Seq<bool>, value: Option<Seq<char>>)
    ensures
        fold_lines(ls, fl, value).0 == join_lines(emitted(ls, fl, value)),
    decreases ls.len(),
{
    if ls.len() > 0 {
        lemma_fold_is_join(ls.drop_last(), fl.drop_last(), value);
        let st = fold_lines(ls.drop_last(), fl.drop_last(), value);
        let e = emitted(ls.drop_last(), fl.drop_last(), value);
        let line = ls.last();
        if value is Some {
            let k = key_text(value->0);
            reveal_strlit("\"\n");
            reveal_strlit("\"");
            assert(e.push(k).drop_last() =~= e);
            assert(join_lines(e.push(k)) =~= join_lines(e) + key_line(value->0));
            assert(e.push(k).push(line).drop_last() =~= e.push(k));
            assert(e.push(line).push(k).drop_last() =~= e.push(line));
            assert(join_lines(e.push(line).push(k)) =~= join_lines(e.push(line)) + key_line(value->0));
        }
        assert(e.push(line).drop_last() =~= e);
    }
}

proof fn lemma_trim_strip_cr(l: Seq<char>)
    ensures
        trim(strip_cr(l)) == trim(l),
{
    if l.len() > 0 && l.last() == '\r' {
        lemma_trim_drop_ws_last(l);
    }
}

proof fn lemma_trim_drop_ws_last(s: Seq<char>)
    requires
        s.len() > 0,
        crate::text::is_ws(s.last()),
    ensures
        trim(s.drop_last()) == trim(s),
    decreases s.len(),
{
    if s.len() == 1 {
        assert(s.subrange(1, 1) =~= Seq::<char>::empty());
        assert(trim_start(Seq::<char>::empty()) =~= Seq::<char>::empty());
        assert(crate::text::trim_end(Seq::<char>::empty()) =~= Seq::<char>::empty());
        assert(trim_start(s) =~= Seq::<char>::empty());
        assert(s.drop_last() =~= Seq::<char>::empty());
    } else if crate::text::is_ws(s[0]) {
        let t = s.subrange(1, s.len() as int);
        assert(t.last() == s.last());
        lemma_trim_drop_ws_last(t);
        assert(s.drop_last().subrange(1, s.len() - 1) =~= t.drop_last());
        assert(s.drop_last()[0] == s[0]);
    } else {
        assert(s.drop_last()[0] == s[0]);
        assert(trim_start(s) == s);
        assert(trim_start(s.drop_last()) == s.drop_last());
    }
}

proof fn lemma_lines_newline_prefix(a: Seq<char>, b: Seq<char>)
    requires
        a.len() == 0 || a.last() == '\n',
    ensures
        lines(a + b) == lines(a) + lines(b),
    decreases a.len(),
{
    if a.len() == 0 {
        assert(a + b =~= b);
        assert(lines(a) + lines(b) =~= lines(b));
    } else {
        let ab = a + b;
        crate::text::lemma_newline_index_bound(a);
        let e = newline_index(a);
        assert(a[a.len() - 1] == '\n');
        assert(e < a.len()) by {
            if e == a.len() {
                assert(a[a.len() - 1] != '\n');
            }
        }
        assert forall|m: int| 0 <= m < e implies ab[m] != '\n' by {
            assert(ab[m] == a[m]);
        }
        assert(ab[e as int] == a[e as int]);
        lemma_newline_index_at_char(ab, e as int);
        let a2 = a.subrange((e + 1) as int, a.len() as int);
        assert(ab.subrange(0, e as int) =~= a.subrange(0, e as int));
        assert(ab.subrange((e + 1) as int, ab.len() as int) =~= a2 + b);
        if a2.len() > 0 {
            assert(a2.last() == a.last());
        }
        lemma_lines_newline_prefix(a2, b);
    }
}

proof fn lemma_newline_index_at_char(t: Seq<char>, k: int)
    requires
        0 <= k <= t.len(),
        forall|m: int| 0 <= m < k ==> t[m] != '\n',
        k == t.len() || t[k] == '\n',
    ensures
        newline_index(t) == k,
{
    lemma_newline_index_at(t, k);
}

proof fn lemma_lines_join(es: Seq<Seq<char>>)
    requires
        forall|i: int| 0 <= i < es.len() ==> no_newline(#[trigger] es[i]),
    ensures
        lines(join_lines(es)) == es.map_values(|l: Seq<char>| strip_cr(l)),
    decreases es.len(),
{
    if es.len() > 0 {
        let p = es.drop_last();
        let x = es.last();
        assert(no_newline(es[es.len() - 1]));
        lemma_lines_join(p);
        let jp = join_lines(p);
        let xn = x + seq!['\n'];
        assert(join_lines(es) =~= jp + xn);
        if jp.len() > 0 {
            assert(jp.last() == '\n');
        }
        lemma_lines_newline_prefix(jp, xn);
        assert forall|m: int| 0 <= m < x.len() implies xn[m] != '\n' by {
            assert(xn[m] == x[m]);
        }
        lemma_newline_index_at_char(xn, x.len() as int);
        assert(lines(Seq::<char>::empty()) =~= Seq::<Seq<char>>::empty());
        assert(xn.subrange(0, x.len() as int) =~= x);
        assert(xn.subrange((x.len() + 1) as int, xn.len() as int) =~= Seq::<char>::empty());
        assert(lines(xn) =~= seq![strip_cr(x)]);
        assert(es.map_values(|l: Seq<char>| strip_cr(l)) =~= p.map_values(|l: Seq<char>| strip_cr(l)).push(
            strip_cr(x),
        ));
    }
}

proof fn lemma_classify_strip_cr(es: Seq<Seq<char>>)
    ensures
        in_browser_after(es.map_values(|l: Seq<char>| strip_cr(l))) == in_browser_after(es),
        browser_entries(es.map_values(|l: Seq<char>| strip_cr(l))) == browser_entries(es),
    decreases es.len(),
{
    if es.len() > 0 {
        let m = es.map_values(|l: Seq<char>| strip_cr(l));
        lemma_classify_strip_cr(es.drop_last());
        assert(m.drop_last() =~= es.drop_last().map_values(|l: Seq<char>| strip_cr(l)));
        lemma_trim_strip_cr(es.last());
        assert(m.last() == strip_cr(es.last()));
    }
}

proof fn lemma_lines_no_newline(s: Seq<char>)
    ensures
        forall|i: int| 0 <= i < lines(s).len() ==> no_newline(#[trigger] lines(s)[i]),
    decreases s.len(),
{
    if s.len() > 0 {
        crate::text::lemma_newline_index_bound(s);
        let e = newline_index(s);
        if e < s.len() {
            let rest = s.subrange((e + 1) as int, s.len() as int);
            lemma_lines_no_newline(rest);
            let first = strip_cr(s.subrange(0, e as int));
            assert(no_newline(first)) by {
                assert forall|i: int| 0 <= i < first.len() implies first[i] != '\n' by {
                    assert(first[i] == s[i]);
                }
            }
            assert forall|i: int| 0 <= i < lines(s).len() implies no_newline(#[trigger] lines(s)[i]) by {
                if i > 0 {
                    assert(lines(s)[i] == lines(rest)[i - 1]);
                }
            }
        } else {
            assert forall|i: int| 0 <= i < s.len() implies s[i] != '\n' by {}
        }
    }
}

proof fn lemma_escape_no_newline(v: Seq<char>)
    requires
        no_newline(v),
    ensures
        no_newline(escape(v)),
    decreases v.len(),
{
    if v.len() > 0 {
        let t = v.subrange(1, v.len() as int);
        assert forall|i: int| 0 <= i < t.len() implies t[i] != '\n' by {
            assert(t[i] == v[i + 1]);
        }
        lemma_escape_no_newline(t);
        let e = escape(v);
        assert(e =~= escape_char(v[0]) + escape(t));
        assert forall|i: int| 0 <= i < e.len() implies e[i] != '\n' by {
            if i >= escape_char(v[0]).len() {
                assert(e[i] == escape(t)[i - escape_char(v[0]).len()]);
            }
        }
    }
}

/// Facts about the entry line of a value without line breaks: it has no
/// line break, is its own trimmed form, is an entry and not a header.
proof fn lemma_key_text(v: Seq<char>)
    requires
        no_newline(v),
    ensures
        no_newline(key_text(v)),
        trim(key_text(v)) == key_text(v),
        is_chromium_path_key(key_text(v)),
        !is_header(key_text(v)),
        strip_cr(key_text(v)) == key_text(v),
{
    reveal_strlit("chromium_path = \"");
    reveal_strlit("\"");
    reveal_strlit("chromium_path");
    lemma_escape_no_newline(v);
    let k = key_text(v);
    let e = escape(v);
    assert forall|i: int| 0 <= i < k.len() implies k[i] != '\n' by {
        if 17 <= i < 17 + e.len() {
            assert(k[i] == e[i - 17]);
        }
    }
    assert(k[0] == 'c');
    assert(k.last() == '"');
    assert(trim_start(k) == k);
    assert(crate::text::trim_end(k) == k);
    let rest = k.subrange(13, k.len() as int);
    assert(rest[0] == ' ');
    assert(rest.subrange(1, rest.len() as int)[0] == '=');
    assert(trim_start(rest) == trim_start(rest.subrange(1, rest.len() as int)));
    assert(k.subrange(0, 13) =~= "chromium_path"@);
}

/// The invariant of the rewrite: the lines written so far are in a
/// `[browser]` section exactly when the input is, and hold the new entry
/// in a `[browser]` section once it was written, and no other entry there.
proof fn lemma_emitted_entries(ls: Seq<Seq<char>>, fl: Seq<bool>, value: Option<Seq<char>>)
    requires
        match value {
            Some(v) => no_newline(v),
            None => true,
        },
    ensures
        in_browser_after(emitted(ls, fl, value)) == fold_lines(ls, fl, value).1,
        browser_entries(emitted(ls, fl, value)) == (if fold_lines(ls, fl, value).2 {
            seq![key_text(value->0)]
        } else {
            Seq::<Seq<char>>::empty()
        }),
        fold_lines(ls, fl, value).2 ==> value is Some,
    decreases ls.len(),
{
    if ls.len() > 0 {
        let p = ls.drop_last();
        lemma_emitted_entries(p, fl.drop_last(), value);
        let st = fold_lines(p, fl.drop_last(), value);
        let e = emitted(p, fl.drop_last(), value);
        let line = ls.last();
        let t = trim(line);
        let due = !st.2 && value is Some;
        assert(e.push(line).drop_last() =~= e);
        assert(e.push(line).last() == line);
        if let Some(v) = value {
            lemma_key_text(v);
            let k = key_text(v);
            assert(e.push(k).drop_last() =~= e);
            assert(e.push(k).last() == k);
            assert(e.push(k).push(line).drop_last() =~= e.push(k));
            assert(e.push(k).push(line).last() == line);
            assert(in_browser_after(e.push(k)) == in_browser_after(e));
            if st.1 {
                assert(browser_entries(e.push(k)) == browser_entries(e).push(k));
            }
            let el = e.push(line);
            assert(el.push(k).drop_last() =~= el);
            assert(el.push(k).last() == k);
            if is_header(t) && t == "[browser]"@ {
                assert(in_browser_after(el));
                assert(browser_entries(el) == browser_entries(e));
                assert(browser_entries(el.push(k)) == browser_entries(el).push(k));
                assert(in_browser_after(el.push(k)));
            }
        }
        if is_header(t) {
            assert(in_browser_after(e.push(line)) == (t == "[browser]"@));
        } else if st.1 && is_chromium_path_key(t) {
        } else {
            assert(in_browser_after(e.push(line)) == in_browser_after(e));
            assert(browser_entries(e.push(line)) == browser_entries(e));
        }
    }
}

/// Setting the Chromium path leaves exactly one `chromium_path` entry in
/// the `[browser]` sections of the file, and that entry reads back as the
/// value set; clearing it leaves none. (A value with a line break is left
/// out: it cannot stand in one TOML line.)
pub proof fn lemma_rewrite_reads_back(existing: Seq<char>, value: Option<Seq<char>>)
    requires
        match value {
            Some(v) => no_newline(v),
            None => true,
        },
    ensures
        browser_entries(lines(rewritten(existing, value))) == match value {
            Some(v) => seq![key_text(v)],
            None => Seq::<Seq<char>>::empty(),
        },
        forall|v: Seq<char>|
            value == Some(v) ==> unescape(
                #[trigger] key_text(v).subrange(17, key_text(v).len() - 1),
            ) == v,
{
    let ls = lines(existing);
    let fl = ahead_flags(ls);
    let st = fold_lines(ls, fl, value);
    let e = emitted(ls, fl, value);
    lemma_emitted_entries(ls, fl, value);
    lemma_fold_is_join(ls, fl, value);
    lemma_lines_no_newline(existing);
    // lines of the input have no line breaks, so neither do the written ones
    assert forall|i: int| 0 <= i < e.len() implies no_newline(#[trigger] e[i]) by {
        lemma_emitted_no_newline(ls, fl, value);
    }
    // the entry still due at the end of a final [browser] section
    let e2 = if st.1 && !st.2 && value is Some {
        e.push(key_text(value->0))
    } else {
        e
    };
    let st2 = if st.1 {
        emit(st, value)
    } else {
        st
    };
    if let Some(v) = value {
        lemma_key_text(v);
        reveal_strlit("\"\n");
        reveal_strlit("\"");
        assert(e.push(key_text(v)).drop_last() =~= e);
        assert(join_lines(e.push(key_text(v))) =~= join_lines(e) + key_line(v));
    }
    assert(st2.0 == join_lines(e2));
    assert(forall|i: int| 0 <= i < e2.len() ==> no_newline(#[trigger] e2[i])) by {
        if e2.len() > e.len() {
            assert forall|i: int| 0 <= i < e2.len() implies no_newline(#[trigger] e2[i]) by {
                if i < e.len() {
                    assert(e2[i] == e[i]);
                }
            }
        }
    }
    assert(browser_entries(e2) == (if st2.2 {
        seq![key_text(value->0)]
    } else {
        Seq::<Seq<char>>::empty()
    }));
    let e3 = if !st2.2 && value is Some {
        e2.push(seq![]).push("[browser]"@).push(key_text(value->0))
    } else {
        e2
    };
    if !st2.2 && value is Some {
        let v = value->0;
        reveal_strlit("[browser]");
        reveal_strlit("\n[browser]\n");
        let b = "[browser]"@;
        assert(trim_start(b) == b);
        assert(crate::text::trim_end(b) == b);
        assert(no_newline(b));
        assert(no_newline(Seq::<char>::empty()));
        let j2 = join_lines(e2);
        assert(j2.len() == 0 || j2.last() == '\n') by {
            if e2.len() > 0 {
                assert(j2.last() == '\n');
            }
        }
        assert(e2.push(seq![]).drop_last() =~= e2);
        assert(e2.push(seq![]).push(b).drop_last() =~= e2.push(seq![]));
        assert(e3.drop_last() =~= e2.push(seq![]).push(b));
        reveal_strlit("\"\n");
        reveal_strlit("\"");
        assert(join_lines(e2.push(seq![])) =~= j2 + seq!['\n']);
        assert(join_lines(e2.push(seq![]).push(b)) =~= j2 + seq!['\n'] + b + seq!['\n']);
        assert(join_lines(e3) =~= j2 + "\n[browser]\n"@ + key_line(v));
        assert(rewritten(existing, value) == join_lines(e3));
        assert(trim(Seq::<char>::empty()) =~= Seq::<char>::empty());
        assert(forall|i: int| 0 <= i < e3.len() ==> no_newline(#[trigger] e3[i])) by {
            assert forall|i: int| 0 <= i < e3.len() implies no_newline(#[trigger] e3[i]) by {
                if i < e2.len() {
                    assert(e3[i] == e2[i]);
                }
            }
        }
        lemma_lines_join(e3);
        lemma_classify_strip_cr(e3);
        let e2a = e2.push(seq![]);
        let e2b = e2a.push(b);
        assert(e2a.drop_last() =~= e2);
        assert(e2a.last() =~= Seq::<char>::empty());
        assert(e2b.drop_last() =~= e2a);
        assert(e2b.last() == b);
        assert(e3.last() == key_text(v));
        assert(!is_header(trim(Seq::<char>::empty())));
        assert(!is_chromium_path_key(trim(Seq::<char>::empty())));
        assert(browser_entries(e2a) == browser_entries(e2));
        assert(is_header(trim(b)));
        assert(browser_entries(e2b) == browser_entries(e2a));
        assert(in_browser_after(e2b));
        assert(browser_entries(e3) == browser_entries(e2b).push(key_text(v)));
        assert(browser_entries(e3) =~= seq![key_text(v)]);
    } else {
        assert(rewritten(existing, value) == join_lines(e2));
        lemma_lines_join(e2);
        lemma_classify_strip_cr(e2);
    }
    assert forall|v: Seq<char>| value == Some(v) implies unescape(
        #[trigger] key_text(v).subrange(17, key_text(v).len() - 1),
    ) == v by {
        reveal_strlit("chromium_path = \"");
        reveal_strlit("\"");
        assert(key_text(v).subrange(17, key_text(v).len() - 1) =~= escape(v));
        lemma_unescape_escape(v);
    }
}

proof fn lemma_emitted_no_newline(ls: Seq<Seq<char>>, fl: Seq<bool>, value: Option<Seq<char>>)
    requires
        forall|i: int| 0 <= i < ls.len() ==> no_newline(#[trigger] ls[i]),
        match value {
            Some(v) => no_newline(v),
            None => true,
        },
    ensures
        forall|i: int| 0 <= i < emitted(ls, fl, value).len() ==> no_newline(#[trigger] emitted(ls, fl, value)[i]),
    decreases ls.len(),
{
    if ls.len() > 0 {
        let p = ls.drop_last();
        assert forall|i: int| 0 <= i < p.len() implies no_newline(#[trigger] p[i]) by {
            assert(p[i] == ls[i]);
        }
        lemma_emitted_no_newline(p, fl.drop_last(), value);
        assert(no_newline(ls[ls.len() - 1]));
        if let Some(v) = value {
            lemma_key_text(v);
        }
        let e = emitted(p, fl.drop_last(), value);
        let r = emitted(ls, fl, value);
        assert forall|i: int| 0 <= i < r.len() implies no_newline(#[trigger] r[i]) by {
            if i < e.len() {
                assert(r[i] == e[i]);
            }
        }
    }
}

/// The lines `ls` without the `chromium_path` entries of their `[browser]`
/// sections.
pub open spec fn without_entries(ls: Seq<Seq<char>>) -> Seq<Seq<char>>
    decreases ls.len(),
{
    if ls.len() == 0 {
        seq![]
    } else {
        let t = trim(ls.last());
        if !is_header(t) && in_browser_after(ls.drop_last()) && is_chromium_path_key(t) {
            without_entries(ls.drop_last())
        } else {
            without_entries(ls.drop_last()).push(ls.last())
        }
    }
}

/// Whether some line of `ls` is the `[browser]` header.
pub open spec fn has_browser_section(ls: Seq<Seq<char>>) -> bool {
    exists|i: int| 0 <= i < ls.len() && #[trigger] trim(ls[i]) == "[browser]"@
}

proof fn lemma_fold_section(ls: Seq<Seq<char>>, fl: Seq<bool>, value: Option<Seq<char>>)
    ensures
        fold_lines(ls, fl, value).1 == in_browser_after(ls),
        fold_lines(ls, fl, value).2 ==> value is Some && has_browser_section(ls),
        value is Some && has_browser_section(ls) && !fold_lines(ls, fl, value).2 ==> in_browser_after(ls),
        in_browser_after(ls) ==> has_browser_section(ls),
    decreases ls.len(),
{
    reveal_strlit("[browser]");
    if ls.len() > 0 {
        let p = ls.drop_last();
        lemma_fold_section(p, fl.drop_last(), value);
        let t = trim(ls.last());
        assert(ls.last() == ls[ls.len() - 1]);
        if is_header(t) && t == "[browser]"@ {
            assert(trim(ls[ls.len() - 1]) == "[browser]"@);
            assert(has_browser_section(ls));
        }
        if has_browser_section(p) {
            let i = choose|i: int| 0 <= i < p.len() && #[trigger] trim(p[i]) == "[browser]"@;
            assert(ls[i] == p[i]);
            assert(has_browser_section(ls));
        }
        if has_browser_section(ls) && !has_browser_section(p) {
            let i = choose|i: int| 0 <= i < ls.len() && #[trigger] trim(ls[i]) == "[browser]"@;
            if i < p.len() {
                assert(p[i] == ls[i]);
            }
            assert(i == ls.len() - 1);
            assert(t == "[browser]"@);
        }
    }
}

proof fn lemma_without_entries_emitted(ls: Seq<Seq<char>>, fl: Seq<bool>, value: Option<Seq<char>>)
    requires
        match value {
            Some(v) => no_newline(v),
            None => true,
        },
    ensures
        without_entries(emitted(ls, fl, value)) == without_entries(ls),
    decreases ls.len(),
{
    if ls.len() > 0 {
        let p = ls.drop_last();
        lemma_without_entries_emitted(p, fl.drop_last(), value);
        lemma_emitted_entries(p, fl.drop_last(), value);
        lemma_fold_section(p, fl.drop_last(), value);
        let st = fold_lines(p, fl.drop_last(), value);
        let e = emitted(p, fl.drop_last(), value);
        let line = ls.last();
        let t = trim(line);
        assert(e.push(line).drop_last() =~= e);
        assert(e.push(line).last() == line);
        if let Some(v) = value {
            lemma_key_text(v);
            let k = key_text(v);
            assert(e.push(k).drop_last() =~= e);
            assert(e.push(k).last() == k);
            assert(e.push(k).push(line).drop_last() =~= e.push(k));
            assert(e.push(k).push(line).last() == line);
            assert(in_browser_after(e.push(k)) == in_browser_after(e));
            if st.1 {
                assert(without_entries(e.push(k)) == without_entries(e));
            }
            let el = e.push(line);
            assert(el.push(k).drop_last() =~= el);
            assert(el.push(k).last() == k);
            if is_header(t) && t == "[browser]"@ {
                assert(in_browser_after(el));
                assert(without_entries(el.push(k)) == without_entries(el));
            }
        }
    }
}

/// Every line other than a `chromium_path` entry of a `[browser]` section
/// is kept, in order: the file read back after a rewrite, without its
/// `[browser]` `chromium_path` entries, is the file read before it without
/// them, followed by an empty line and a `[browser]` header when a value
/// was set and the file had no `[browser]` section. (Lines are compared
/// as read back, so without a final `'\r'`; a value with a line break is
/// left out.)
pub proof fn lemma_rewrite_keeps_other_lines(existing: Seq<char>, value: Option<Seq<char>>)
    requires
        match value {
            Some(v) => no_newline(v),
            None => true,
        },
    ensures
        without_entries(lines(rewritten(existing, value))) == if value is Some && !has_browser_section(
            lines(existing),
        ) {
            without_entries(lines(existing)).map_values(|l: Seq<char>| strip_cr(l)) + seq![
                Seq::<char>::empty(),
                "[browser]"@,
            ]
        } else {
            without_entries(lines(existing)).map_values(|l: Seq<char>| strip_cr(l))
        },
{
    let ls = lines(existing);
    let fl = ahead_flags(ls);
    let st = fold_lines(ls, fl, value);
    let e = emitted(ls, fl, value);
    lemma_emitted_entries(ls, fl, value);
    lemma_fold_section(ls, fl, value);
    lemma_fold_is_join(ls, fl, value);
    lemma_lines_no_newline(existing);
    lemma_emitted_no_newline(ls, fl, value);
    lemma_without_entries_emitted(ls, fl, value);
    let st2 = if st.1 {
        emit(st, value)
    } else {
        st
    };
    let e2 = if st.1 && !st.2 && value is Some {
        e.push(key_text(value->0))
    } else {
        e
    };
    if let Some(v) = value {
        lemma_key_text(v);
        reveal_strlit("\"\n");
        reveal_strlit("\"");
        assert(e.push(key_text(v)).drop_last() =~= e);
        assert(e.push(key_text(v)).last() == key_text(v));
        assert(join_lines(e.push(key_text(v))) =~= join_lines(e) + key_line(v));
    }
    assert(st2.0 == join_lines(e2));
    assert(without_entries(e2) == without_entries(e));
    assert(forall|i: int| 0 <= i < e2.len() ==> no_newline(#[trigger] e2[i])) by {
        assert forall|i: int| 0 <= i < e2.len() implies no_newline(#[trigger] e2[i]) by {
            if i < e.len() {
                assert(e2[i] == e[i]);
            }
        }
    }
    assert(st2.2 == (value is Some && has_browser_section(ls)));
    lemma_without_entries_strip_cr(e2);
    if !st2.2 && value is Some {
        let v = value->0;
        reveal_strlit("[browser]");
        reveal_strlit("\n[browser]\n");
        let b = "[browser]"@;
        assert(trim_start(b) == b);
        assert(crate::text::trim_end(b) == b);
        assert(no_newline(b));
        let e3 = e2.push(seq![]).push(b).push(key_text(v));
        let j2 = join_lines(e2);
        assert(j2.len() == 0 || j2.last() == '\n') by {
            if e2.len() > 0 {
                assert(j2.last() == '\n');
            }
        }
        let e2a = e2.push(seq![]);
        let e2b = e2a.push(b);
        assert(e2a.drop_last() =~= e2);
        assert(e2a.last() =~= Seq::<char>::empty());
        assert(e2b.drop_last() =~= e2a);
        assert(e2b.last() == b);
        assert(e3.drop_last() =~= e2b);
        assert(e3.last() == key_text(v));
        assert(join_lines(e2a) =~= j2 + seq!['\n']);
        assert(join_lines(e2b) =~= j2 + seq!['\n'] + b + seq!['\n']);
        assert(join_lines(e3) =~= j2 + "\n[browser]\n"@ + key_line(v));
        assert(rewritten(existing, value) == join_lines(e3));
        assert(trim(Seq::<char>::empty()) =~= Seq::<char>::empty());
        assert(forall|i: int| 0 <= i < e3.len() ==> no_newline(#[trigger] e3[i])) by {
            assert forall|i: int| 0 <= i < e3.len() implies no_newline(#[trigger] e3[i]) by {
                if i < e2.len() {
                    assert(e3[i] == e2[i]);
                } else if i == e2.len() {
                    assert(e3[i] =~= Seq::<char>::empty());
                }
            }
        }
        lemma_lines_join(e3);
        lemma_without_entries_strip_cr(e3);
        assert(is_header(trim(b)));
        assert(in_browser_after(e2b));
        assert(without_entries(e2a) == without_entries(e2).push(seq![]));
        assert(without_entries(e2b) == without_entries(e2a).push(b));
        assert(without_entries(e3) == without_entries(e2b));
        assert(strip_cr(Seq::<char>::empty()) =~= Seq::<char>::empty());
        assert(strip_cr(b) == b);
        assert(without_entries(e3).map_values(|l: Seq<char>| strip_cr(l)) =~= without_entries(e2).map_values(
            |l: Seq<char>| strip_cr(l),
        ) + seq![Seq::<char>::empty(), b]);
    } else {
        assert(rewritten(existing, value) == join_lines(e2));
        lemma_lines_join(e2);
    }
}

proof fn lemma_without_entries_strip_cr(es: Seq<Seq<char>>)
    ensures
        without_entries(es.map_values(|l: Seq<char>| strip_cr(l))) == without_entries(es).map_values(
            |l: Seq<char>| strip_cr(l),
        ),
    decreases es.len(),
{
    if es.len() > 0 {
        let m = es.map_values(|l: Seq<char>| strip_cr(l));
        lemma_without_entries_strip_cr(es.drop_last());
        lemma_classify_strip_cr(es.drop_last());
        assert(m.drop_last() =~= es.drop_last().map_values(|l: Seq<char>| strip_cr(l)));
        lemma_trim_strip_cr(es.last());
        assert(m.last() == strip_cr(es.last()));
        let w = without_entries(es.drop_last());
        assert(w.push(es.last()).map_values(|l: Seq<char>| strip_cr(l)) =~= w.map_values(
            |l: Seq<char>| strip_cr(l),
        ).push(strip_cr(es.last())));
    }
}

/// Where the lines `es` stand for the entry of `v`: 0 before any
/// `[browser]` header; 1 inside the first `[browser]` section, before an
/// entry; 2 once that section's first entry was exactly the entry for `v`
/// and no other `[browser]` entry followed; -1 otherwise.
pub open spec fn settled_phase(es: Seq<Seq<char>>, v: Seq<char>) -> int
    decreases es.len(),
{
    if es.len() == 0 {
        0
    } else {
        let q = settled_phase(es.drop_last(), v);
        let line = es.last();
        let t = trim(line);
        if q == 0 {
            if is_header(t) && t == "[browser]"@ {
                1
            } else {
                0
            }
        } else if q == 1 {
            if is_header(t) {
                -1
            } else if is_chromium_path_key(t) {
                if line == key_text(v) {
                    2
                } else {
                    -1
                }
            } else {
                1
            }
        } else if q == 2 {
            if !is_header(t) && in_browser_after(es.drop_last()) && is_chromium_path_key(t) {
                -1
            } else {
                2
            }
        } else {
            -1
        }
    }
}

proof fn lemma_phase_browser(es: Seq<Seq<char>>, v: Seq<char>)
    ensures
        settled_phase(es, v) == 0 ==> !in_browser_after(es),
        settled_phase(es, v) == 1 ==> in_browser_after(es),
    decreases es.len(),
{
    if es.len() > 0 {
        lemma_phase_browser(es.drop_last(), v);
    }
}

proof fn lemma_phase_absorb(es: Seq<Seq<char>>, v: Seq<char>, a: int)
    requires
        0 <= a <= es.len(),
        settled_phase(es.subrange(0, a), v) == -1,
    ensures
        settled_phase(es, v) == -1,
    decreases es.len(),
{
    if a == es.len() {
        assert(es.subrange(0, a) =~= es);
    } else {
        let p = es.drop_last();
        assert(p.subrange(0, a) =~= es.subrange(0, a));
        lemma_phase_absorb(p, v, a);
    }
}

/// Inside the first `[browser]` section of settled lines, an entry lies
/// ahead before the next header.
proof fn lemma_phase_lookahead(es: Seq<Seq<char>>, v: Seq<char>, m: int)
    requires
        0 <= m <= es.len(),
        settled_phase(es.subrange(0, m), v) == 1,
        settled_phase(es, v) == 2,
    ensures
        section_has_key(es.subrange(m, es.len() as int)),
    decreases es.len() - m,
{
    if m == es.len() {
        assert(es.subrange(0, m) =~= es);
    } else {
        let pre = es.subrange(0, m + 1);
        assert(pre.drop_last() =~= es.subrange(0, m));
        assert(pre.last() == es[m]);
        let rest = es.subrange(m, es.len() as int);
        assert(rest[0] == es[m]);
        assert(rest.drop_first() =~= es.subrange(m + 1, es.len() as int));
        let t = trim(es[m]);
        if is_header(t) {
            lemma_phase_absorb(es, v, m + 1);
        } else if !is_chromium_path_key(t) {
            lemma_phase_lookahead(es, v, m + 1);
        }
    }
}

/// A second rewrite with the same value passes settled lines through
/// unchanged.
proof fn lemma_settled_fold(es: Seq<Seq<char>>, v: Seq<char>, k: int)
    requires
        settled_phase(es, v) == 2,
        no_newline(v),
        0 <= k <= es.len(),
    ensures
        fold_lines(es.subrange(0, k), ahead_flags(es).subrange(0, k), Some(v)) == (
            join_lines(es.subrange(0, k)),
            in_browser_after(es.subrange(0, k)),
            settled_phase(es.subrange(0, k), v) == 2,
        ),
        settled_phase(es.subrange(0, k), v) != -1,
    decreases k,
{
    let f = ahead_flags(es);
    let pre = es.subrange(0, k);
    if k == 0 {
        assert(pre =~= Seq::<Seq<char>>::empty());
        assert(f.subrange(0, 0) =~= Seq::<bool>::empty());
    } else {
        lemma_settled_fold(es, v, k - 1);
        let p = es.subrange(0, k - 1);
        assert(pre.drop_last() =~= p);
        assert(pre.last() == es[k - 1]);
        assert(f.subrange(0, k).drop_last() =~= f.subrange(0, k - 1));
        assert(f.subrange(0, k).last() == section_has_key(es.subrange(k, es.len() as int)));
        lemma_phase_browser(p, v);
        if settled_phase(pre, v) == -1 {
            lemma_phase_absorb(es, v, k);
        }
        if settled_phase(pre, v) == 1 {
            lemma_phase_lookahead(es, v, k);
        }
        lemma_key_text(v);
        reveal_strlit("\"\n");
        reveal_strlit("\"");
        assert(key_line(v) =~= key_text(v) + seq!['\n']);
    }
}

proof fn lemma_emitted_no_cr(ls: Seq<Seq<char>>, fl: Seq<bool>, value: Option<Seq<char>>)
    requires
        forall|i: int| 0 <= i < ls.len() ==> strip_cr(#[trigger] ls[i]) == ls[i],
    ensures
        forall|i: int|
            0 <= i < emitted(ls, fl, value).len() ==> strip_cr(#[trigger] emitted(ls, fl, value)[i])
                == emitted(ls, fl, value)[i],
    decreases ls.len(),
{
    if ls.len() > 0 {
        let p = ls.drop_last();
        assert forall|i: int| 0 <= i < p.len() implies strip_cr(#[trigger] p[i]) == p[i] by {
            assert(p[i] == ls[i]);
        }
        lemma_emitted_no_cr(p, fl.drop_last(), value);
        assert(strip_cr(ls[ls.len() - 1]) == ls[ls.len() - 1]);
        if let Some(v) = value {
            reveal_strlit("\"");
            assert(key_text(v).last() == '"');
        }
        let e = emitted(p, fl.drop_last(), value);
        let r = emitted(ls, fl, value);
        assert forall|i: int| 0 <= i < r.len() implies strip_cr(#[trigger] r[i]) == r[i] by {
            if i < e.len() {
                assert(r[i] == e[i]);
            }
        }
    }
}

/// The lines written by a rewrite to `v` are settled: the first
/// `[browser]` section holds the entry for `v` and no other `[browser]`
/// entry follows (or no `[browser]` section was reached yet).
proof fn lemma_rewrite_settles(ls: Seq<Seq<char>>, v: Seq<char>, k: int)
    requires
        no_newline(v),
        0 <= k <= ls.len(),
    ensures
        settled_phase(
            emitted(ls.subrange(0, k), ahead_flags(ls).subrange(0, k), Some(v)),
            v,
        ) != -1,
        (settled_phase(emitted(ls.subrange(0, k), ahead_flags(ls).subrange(0, k), Some(v)), v) == 2)
            == fold_lines(ls.subrange(0, k), ahead_flags(ls).subrange(0, k), Some(v)).2,
        settled_phase(emitted(ls.subrange(0, k), ahead_flags(ls).subrange(0, k), Some(v)), v) == 1
            ==> fold_lines(ls.subrange(0, k), ahead_flags(ls).subrange(0, k), Some(v)).1
            && section_has_key(ls.subrange(k, ls.len() as int)),
        settled_phase(emitted(ls.subrange(0, k), ahead_flags(ls).subrange(0, k), Some(v)), v) == 0
            ==> !fold_lines(ls.subrange(0, k), ahead_flags(ls).subrange(0, k), Some(v)).1,
    decreases k,
{
    let f = ahead_flags(ls);
    let pre = ls.subrange(0, k);
    let fp = f.subrange(0, k);
    if k == 0 {
        assert(pre =~= Seq::<Seq<char>>::empty());
    } else {
        lemma_rewrite_settles(ls, v, k - 1);
        let p = ls.subrange(0, k - 1);
        let fq = f.subrange(0, k - 1);
        assert(pre.drop_last() =~= p);
        assert(fp.drop_last() =~= fq);
        assert(pre.last() == ls[k - 1]);
        assert(fp.last() == section_has_key(ls.subrange(k, ls.len() as int)));
        let rest = ls.subrange(k - 1, ls.len() as int);
        assert(rest[0] == ls[k - 1]);
        assert(rest.drop_first() =~= ls.subrange(k, ls.len() as int));
        lemma_emitted_entries(p, fq, Some(v));
        lemma_key_text(v);
        let e = emitted(p, fq, Some(v));
        let line = ls[k - 1];
        let kt = key_text(v);
        assert(e.push(line).drop_last() =~= e);
        assert(e.push(line).last() == line);
        assert(e.push(kt).drop_last() =~= e);
        assert(e.push(kt).last() == kt);
        assert(e.push(line).push(kt).drop_last() =~= e.push(line));
        assert(e.push(line).push(kt).last() == kt);
        assert(e.push(kt).push(line).drop_last() =~= e.push(kt));
        assert(e.push(kt).push(line).last() == line);
        lemma_phase_browser(e, v);
        let st = fold_lines(p, fq, Some(v));
        let q = settled_phase(e, v);
        let t = trim(line);
        let flag = section_has_key(ls.subrange(k, ls.len() as int));
        let ek = emitted(pre, fp, Some(v));
        if is_header(t) {
            if st.1 {
                assert(q == 2);
                assert(ek == e.push(line));
                assert(settled_phase(ek, v) == 2);
            } else if !st.2 && t == "[browser]"@ && !flag {
                assert(q == 0);
                assert(ek == e.push(line).push(kt));
                assert(settled_phase(e.push(line), v) == 1);
                assert(settled_phase(ek, v) == 2);
            } else {
                assert(ek == e.push(line));
                if q == 0 {
                    if t == "[browser]"@ {
                        assert(settled_phase(ek, v) == 1);
                    } else {
                        assert(settled_phase(ek, v) == 0);
                    }
                } else {
                    assert(q == 2);
                    assert(settled_phase(ek, v) == 2);
                }
            }
        } else if st.1 && is_chromium_path_key(t) {
            if q == 1 {
                assert(ek == e.push(kt));
                assert(settled_phase(ek, v) == 2);
            } else {
                assert(q == 2);
                assert(ek == e);
            }
        } else {
            assert(ek == e.push(line));
            if q == 0 {
                assert(settled_phase(ek, v) == 0);
            } else if q == 1 {
                assert(settled_phase(ek, v) == 1);
            } else {
                assert(settled_phase(ek, v) == 2);
            }
        }
    }
}

proof fn lemma_emitted_cleared(ls: Seq<Seq<char>>, fl: Seq<bool>)
    ensures
        emitted(ls, fl, None) == without_entries(ls),
    decreases ls.len(),
{
    if ls.len() > 0 {
        lemma_emitted_cleared(ls.drop_last(), fl.drop_last());
        lemma_fold_section(ls.drop_last(), fl.drop_last(), None);
    }
}

proof fn lemma_without_entries_browser(ls: Seq<Seq<char>>)
    ensures
        in_browser_after(without_entries(ls)) == in_browser_after(ls),
    decreases ls.len(),
{
    if ls.len() > 0 {
        let p = ls.drop_last();
        lemma_without_entries_browser(p);
        let w = without_entries(p);
        assert(w.push(ls.last()).drop_last() =~= w);
        assert(w.push(ls.last()).last() == ls.last());
    }
}

proof fn lemma_without_entries_twice(ls: Seq<Seq<char>>)
    ensures
        without_entries(without_entries(ls)) == without_entries(ls),
    decreases ls.len(),
{
    if ls.len() > 0 {
        let p = ls.drop_last();
        lemma_without_entries_twice(p);
        lemma_without_entries_browser(p);
        let w = without_entries(p);
        assert(w.push(ls.last()).drop_last() =~= w);
        assert(w.push(ls.last()).last() == ls.last());
    }
}

/// Rewriting twice with the same value gives what rewriting once gives: a
/// second save of an unchanged setting leaves the file as it is. (A file
/// with a line that, as read, still ends in a carriage return, such as
/// `"a\r\r\n"`, is left out: the first rewrite drops that character's
/// pair; so is a value with a line break.)
pub proof fn lemma_rewrite_idempotent(existing: Seq<char>, value: Option<Seq<char>>)
    requires
        match value {
            Some(v) => no_newline(v),
            None => true,
        },
        forall|i: int|
            0 <= i < lines(existing).len() ==> strip_cr(#[trigger] lines(existing)[i]) == lines(
                existing,
            )[i],
    ensures
        rewritten(rewritten(existing, value), value) == rewritten(existing, value),
{
    let ls = lines(existing);
    let fl = ahead_flags(ls);
    let st = fold_lines(ls, fl, value);
    let e = emitted(ls, fl, value);
    lemma_fold_is_join(ls, fl, value);
    lemma_lines_no_newline(existing);
    lemma_emitted_no_newline(ls, fl, value);
    lemma_emitted_no_cr(ls, fl, value);
    lemma_fold_section(ls, fl, value);
    match value {
        None => {
            lemma_emitted_cleared(ls, fl);
            assert(rewritten(existing, value) == join_lines(e));
            lemma_lines_join(e);
            assert(e.map_values(|l: Seq<char>| strip_cr(l)) =~= e);
            let fl2 = ahead_flags(e);
            lemma_fold_is_join(e, fl2, value);
            lemma_fold_section(e, fl2, value);
            lemma_emitted_cleared(e, fl2);
            lemma_without_entries_twice(ls);
        },
        Some(v) => {
            lemma_rewrite_settles(ls, v, ls.len() as int);
            assert(ls.subrange(0, ls.len() as int) =~= ls);
            assert(fl.subrange(0, ls.len() as int) =~= fl);
            assert(ls.subrange(ls.len() as int, ls.len() as int) =~= Seq::<Seq<char>>::empty());
            lemma_key_text(v);
            let kt = key_text(v);
            reveal_strlit("\"\n");
            reveal_strlit("\"");
            assert(kt.last() == '"');
            let b = "[browser]"@;
            let e3 = if settled_phase(e, v) == 2 {
                e
            } else {
                e.push(seq![]).push(b).push(kt)
            };
            if settled_phase(e, v) == 2 {
                assert(rewritten(existing, value) == join_lines(e3));
            } else {
                reveal_strlit("[browser]");
                reveal_strlit("\n[browser]\n");
                assert(trim_start(b) == b);
                assert(crate::text::trim_end(b) == b);
                assert(no_newline(b));
                assert(b.last() == ']');
                let j2 = join_lines(e);
                assert(j2.len() == 0 || j2.last() == '\n') by {
                    if e.len() > 0 {
                        assert(j2.last() == '\n');
                    }
                }
                let ea = e.push(seq![]);
                let eb = ea.push(b);
                assert(ea.drop_last() =~= e);
                assert(ea.last() =~= Seq::<char>::empty());
                assert(eb.drop_last() =~= ea);
                assert(eb.last() == b);
                assert(e3.drop_last() =~= eb);
                assert(e3.last() == kt);
                assert(join_lines(ea) =~= j2 + seq!['\n']);
                assert(join_lines(eb) =~= j2 + seq!['\n'] + b + seq!['\n']);
                assert(join_lines(e3) =~= j2 + "\n[browser]\n"@ + key_line(v));
                assert(rewritten(existing, value) == join_lines(e3));
                assert(trim(Seq::<char>::empty()) =~= Seq::<char>::empty());
                assert(settled_phase(ea, v) == 0);
                assert(is_header(trim(b)));
                assert(settled_phase(eb, v) == 1);
                assert(settled_phase(e3, v) == 2);
            }
            assert(forall|i: int| 0 <= i < e3.len() ==> no_newline(#[trigger] e3[i])) by {
                assert forall|i: int| 0 <= i < e3.len() implies no_newline(#[trigger] e3[i]) by {
                    if i < e.len() {
                        assert(e3[i] == e[i]);
                    } else if i == e.len() {
                        assert(e3[i] =~= Seq::<char>::empty());
                    }
                }
            }
            assert forall|i: int| 0 <= i < e3.len() implies strip_cr(#[trigger] e3[i]) == e3[i] by {
                if i < e.len() {
                    assert(e3[i] == e[i]);
                }
            }
            lemma_lines_join(e3);
            assert(e3.map_values(|l: Seq<char>| strip_cr(l)) =~= e3);
            lemma_settled_fold(e3, v, e3.len() as int);
            assert(e3.subrange(0, e3.len() as int) =~= e3);
            assert(ahead_flags(e3).subrange(0, e3.len() as int) =~= ahead_flags(e3));
        },
    }
}

} // verus!
