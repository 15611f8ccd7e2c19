//! Reading an operating system's name out of text printed inside the guest:
//! `os-release` style `KEY=VALUE` files, or a free-form first line.

use vstd::prelude::*;
use crate::text::{
    chars_of, contains, contains_chars, line_bounds, line_content_end, lines, lines_from, occurs_at,
    spans, starts_with, strip_cr, sub_string, trim, trim_bounds,
};

verus! {

/// `s` without one pair of surrounding double quotes.
pub open spec fn strip_quotes(s: Seq<char>) -> Seq<char> {
    if s.len() >= 2 && s[0] == '"' && s.last() == '"' {
        s.subrange(1, s.len() - 1)
    } else {
        s
    }
}

/// `s` trimmed of white space, then of one pair of surrounding double quotes.
pub open spec fn unquote(s: Seq<char>) -> Seq<char> {
    strip_quotes(trim(s))
}

/// The value of the last line in `ls` that starts with `key`, unquoted.
pub open spec fn key_value(ls: Seq<Seq<char>>, key: Seq<char>) -> Option<Seq<char>>
    decreases ls.len(),
{
    if ls.len() == 0 {
        None
    } else if starts_with(ls.last(), key) {
        Some(unquote(ls.last().subrange(key.len() as int, ls.last().len() as int)))
    } else {
        key_value(ls.drop_last(), key)
    }
}

/// The name an `os-release` text gives: `PRETTY_NAME`, else `NAME` followed by
/// `VERSION` when there is one, else its first non-blank line, trimmed; `(unknown)`
/// only for a text with no non-blank line.
pub open spec fn os_release_name(content: Seq<char>) -> Seq<char> {
    let ls = lines(content);
    match (key_value(ls, "PRETTY_NAME="@), key_value(ls, "NAME="@), key_value(ls, "VERSION="@)) {
        (Some(p), _, _) => p,
        (None, Some(n), Some(v)) => n + " "@ + v,
        (None, Some(n), None) => n,
        _ => match first_nonblank(ls) {
            Some(l) => l,
            None => "(unknown)"@,
        },
    }
}

/// The first line of `ls` that is not blank, trimmed.
pub open spec fn first_nonblank(ls: Seq<Seq<char>>) -> Option<Seq<char>>
    decreases ls.len(),
{
    if ls.len() == 0 {
        None
    } else if trim(ls[0]).len() > 0 {
        Some(trim(ls[0]))
    } else {
        first_nonblank(ls.drop_first())
    }
}

/// What the output of an in-guest read command says of the operating system.
/// The output is unquoted first; a `KEY=VALUE` text is read as `os-release`,
/// anything else by its first non-blank line.
pub open spec fn os_from_output(raw: Seq<char>) -> Option<Seq<char>> {
    let t = unquote(raw);
    if contains(t, "PRETTY_NAME="@) || contains(t, "NAME="@) {
        Some(os_release_name(t))
    } else {
        first_nonblank(lines(t))
    }
}

/// Bounds `[a, b)` of the quoted content of `s[from..to]` once trimmed.
fn unquote_bounds(s: &Vec<char>, from: usize, to: usize) -> (r: (usize, usize))
    requires
        from <= to <= s@.len(),
    ensures
        from <= r.0 <= r.1 <= to,
        s@.subrange(r.0 as int, r.1 as int) == unquote(s@.subrange(from as int, to as int)),
{
    let (a, b) = trim_bounds(s, from, to);
    let ghost t = s@.subrange(a as int, b as int);
    if b - a >= 2 && s[a] == '"' && s[b - 1] == '"' {
        assert(t[0] == s@[a as int] && t.last() == s@[b - 1]);
        assert(t.subrange(1, t.len() - 1) =~= s@.subrange(a + 1, b - 1));
        (a + 1, b - 1)
    } else {
        (a, b)
    }
}

/// Trims white space, then one pair of surrounding double quotes.
pub fn trim_quotes(s: &str) -> (r: String)
    ensures
        r@ == unquote(s@),
{
    let cs = chars_of(s);
    let (a, b) = unquote_bounds(&cs, 0, cs.len());
    assert(cs@.subrange(0, cs@.len() as int) =~= s@);
    sub_string(s, a, b)
}

/// The value of a `key` line `s[start..end]`, if the line starts with `key`.
fn line_value(s: &str, cs: &Vec<char>, start: usize, end: usize, key: &Vec<char>)
    -> (r: Option<String>)
    requires
        cs@ == s@,
        start <= end <= cs@.len(),
    ensures
        r is Some == starts_with(s@.subrange(start as int, end as int), key@),
        r is Some ==> r->0@ == unquote(s@.subrange(start + key@.len(), end as int)),
{
    let ghost l = s@.subrange(start as int, end as int);
    let found = occurs_at(cs, start, end, key);
    assert(found == starts_with(l, key@)) by {
        if start + key@.len() <= end {
            assert(l.subrange(0, key@.len() as int) =~= s@.subrange(start as int, start + key@.len()));
        }
    }
    if found {
        let (a, b) = unquote_bounds(cs, start + key.len(), end);
        Some(sub_string(s, a, b))
    } else {
        None
    }
}

/// `slot` holds a string exactly when `v` holds a value, and then that value.
pub open spec fn holds(slot: Option<String>, v: Option<Seq<char>>) -> bool {
    &&& slot is Some == v is Some
    &&& slot is Some ==> slot->0@ == v->0
}

/// Takes the line `s[start..end]` into account for `key`.
fn absorb(
    slot: &mut Option<String>,
    s: &str,
    cs: &Vec<char>,
    start: usize,
    end: usize,
    key: &Vec<char>,
    Ghost(done): Ghost<Seq<Seq<char>>>,
)
    requires
        cs@ == s@,
        start <= end <= cs@.len(),
        holds(*old(slot), key_value(done, key@)),
    ensures
        holds(*final(slot), key_value(done.push(s@.subrange(start as int, end as int)), key@)),
{
    let ghost l = s@.subrange(start as int, end as int);
    assert(done.push(l).last() == l);
    assert(done.push(l).drop_last() =~= done);
    proof {
        if start + key@.len() <= end {
            assert(l.subrange(key@.len() as int, l.len() as int)
                =~= s@.subrange(start + key@.len(), end as int));
        }
    }
    if let Some(v) = line_value(s, cs, start, end, key) {
        *slot = Some(v);
    }
}

/// Reads an `os-release` text: `PRETTY_NAME`, else `NAME` and `VERSION` joined by
/// a space, else `NAME` alone, else the first non-blank line, trimmed (`(unknown)`
/// when there is none). Where a key occurs on several lines the last one counts.
pub fn parse_os_release(content: &str) -> (r: String)
    ensures
        r@ == os_release_name(content@),
{
    let cs = chars_of(content);
    let kp = chars_of("PRETTY_NAME=");
    let kn = chars_of("NAME=");
    let kv = chars_of("VERSION=");
    let mut pretty: Option<String> = None;
    let mut name: Option<String> = None;
    let mut version: Option<String> = None;
    let ghost mut done: Seq<Seq<char>> = seq![];
    let mut start: usize = 0;
    let mut i: usize = 0;
    while i < cs.len()
        invariant
            cs@ == content@,
            kp@ == "PRETTY_NAME="@,
            kn@ == "NAME="@,
            kv@ == "VERSION="@,
            start <= i <= cs@.len(),
            lines(content@) == done + lines_from(content@, start as int, i as int),
            holds(pretty, key_value(done, kp@)),
            holds(name, key_value(done, kn@)),
            holds(version, key_value(done, kv@)),
        decreases cs@.len() - i,
    {
        if cs[i] == '\n' {
            let e = line_content_end(&cs, start, i);
            absorb(&mut pretty, content, &cs, start, e, &kp, Ghost(done));
            absorb(&mut name, content, &cs, start, e, &kn, Ghost(done));
            absorb(&mut version, content, &cs, start, e, &kv, Ghost(done));
            proof {
                let l = content@.subrange(start as int, e as int);
                assert(l == strip_cr(content@.subrange(start as int, i as int)));
                assert(done + lines_from(content@, start as int, i as int)
                    =~= done.push(l) + lines_from(content@, i + 1, i + 1));
                done = done.push(l);
            }
            start = i + 1;
        }
        i += 1;
    }
    if start < cs.len() {
        let e = i;
        absorb(&mut pretty, content, &cs, start, e, &kp, Ghost(done));
        absorb(&mut name, content, &cs, start, e, &kn, Ghost(done));
        absorb(&mut version, content, &cs, start, e, &kv, Ghost(done));
        proof {
            let l = content@.subrange(start as int, e as int);
            assert(lines(content@) =~= done.push(l));
            done = done.push(l);
        }
    } else {
        assert(lines(content@) =~= done);
    }
    proof {
        reveal_strlit(" ");
        reveal_strlit("(unknown)");
    }
    match (pretty, name, version) {
        (Some(p), _, _) => p,
        (None, Some(n), Some(v)) => n.concat(" ").concat(v.as_str()),
        (None, Some(n), None) => n,
        _ => match first_nonblank_line(content) {
            Some(l) => l,
            None => String::from_str("(unknown)"),
        },
    }
}

/// The first non-blank line of `s`, trimmed.
pub fn first_nonblank_line(s: &str) -> (r: Option<String>)
    ensures
        r is Some == first_nonblank(lines(s@)) is Some,
        r is Some ==> r->0@ == first_nonblank(lines(s@))->0,
{
    let cs = chars_of(s);
    let lb = line_bounds(&cs);
    let ghost ls = lines(s@);
    let mut k: usize = 0;
    assert(ls.subrange(0, ls.len() as int) =~= ls);
    while k < lb.len()
        invariant
            cs@ == s@,
            ls == lines(cs@),
            spans(cs@, lb@, ls),
            k <= lb@.len(),
            first_nonblank(ls) == first_nonblank(ls.subrange(k as int, ls.len() as int)),
        decreases lb@.len() - k,
    {
        let ghost rest = ls.subrange(k as int, ls.len() as int);
        assert(rest.drop_first() =~= ls.subrange(k + 1, ls.len() as int));
        assert(rest[0] == ls[k as int]);
        let (a, b) = lb[k];
        assert(lb@[k as int] == (a, b));
        assert(cs@.subrange(a as int, b as int) == ls[k as int]);
        let (ta, tb) = trim_bounds(&cs, a, b);
        if ta < tb {
            return Some(sub_string(s, ta, tb));
        }
        k += 1;
    }
    None
}

/// The operating system named by the output of an in-guest read command, if any.
pub fn os_from_probe_output(raw: &str) -> (r: Option<String>)
    ensures
        r is Some == os_from_output(raw@) is Some,
        r is Some ==> r->0@ == os_from_output(raw@)->0,
{
    let t = trim_quotes(raw);
    let ts = t.as_str();
    let tc = chars_of(ts);
    if contains_chars(&tc, &chars_of("PRETTY_NAME=")) || contains_chars(&tc, &chars_of("NAME=")) {
        Some(parse_os_release(ts))
    } else {
        first_nonblank_line(ts)
    }
}

} // verus!
