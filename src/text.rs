//! Character-level helpers shared by the parsers and formatters.

use vstd::prelude::*;

verus! {

/// Unicode `White_Space`, the set that `char::is_whitespace` and `str::trim` use.
pub open spec fn is_ws(c: char) -> bool {
    ('\t' <= c && c <= '\r') || c == ' ' || c == '\u{85}' || c == '\u{a0}' || c == '\u{1680}'
        || ('\u{2000}' <= c && c <= '\u{200a}') || c == '\u{2028}' || c == '\u{2029}'
        || c == '\u{202f}' || c == '\u{205f}' || c == '\u{3000}'
}

/// Drops leading white space.
pub open spec fn trim_start(s: Seq<char>) -> Seq<char>
    decreases s.len(),
{
    if s.len() > 0 && is_ws(s[0]) {
        trim_start(s.drop_first())
    } else {
        s
    }
}

/// Drops trailing white space.
pub open spec fn trim_end(s: Seq<char>) -> Seq<char>
    decreases s.len(),
{
    if s.len() > 0 && is_ws(s.last()) {
        trim_end(s.drop_last())
    } else {
        s
    }
}

/// Drops white space at both ends.
pub open spec fn trim(s: Seq<char>) -> Seq<char> {
    trim_end(trim_start(s))
}

pub fn is_ws_char(c: char) -> (r: bool)
    ensures
        r == is_ws(c),
{
    ('\t' <= c && c <= '\r') || c == ' ' || c == '\u{85}' || c == '\u{a0}' || c == '\u{1680}'
        || ('\u{2000}' <= c && c <= '\u{200a}') || c == '\u{2028}' || c == '\u{2029}'
        || c == '\u{202f}' || c == '\u{205f}' || c == '\u{3000}'
}

proof fn lemma_trim_start_at(s: Seq<char>, i: int)
    requires
        0 <= i <= s.len(),
        forall|k: int| 0 <= k < i ==> is_ws(#[trigger] s[k]),
        i == s.len() || !is_ws(s[i]),
    ensures
        trim_start(s) == s.subrange(i, s.len() as int),
    decreases i,
{
    if i == 0 {
        assert(s.subrange(0, s.len() as int) =~= s);
    } else {
        let t = s.drop_first();
        assert forall|k: int| 0 <= k < i - 1 implies is_ws(#[trigger] t[k]) by {
            assert(t[k] == s[k + 1]);
        }
        lemma_trim_start_at(t, i - 1);
        assert(t.subrange(i - 1, t.len() as int) =~= s.subrange(i, s.len() as int));
    }
}

proof fn lemma_trim_end_at(s: Seq<char>, j: int)
    requires
        0 <= j <= s.len(),
        forall|k: int| j <= k < s.len() ==> is_ws(#[trigger] s[k]),
        j == 0 || !is_ws(s[j - 1]),
    ensures
        trim_end(s) == s.subrange(0, j),
    decreases s.len() - j,
{
    if j == s.len() {
        assert(s.subrange(0, j) =~= s);
    } else {
        let t = s.drop_last();
        assert forall|k: int| j <= k < t.len() implies is_ws(#[trigger] t[k]) by {
            assert(t[k] == s[k]);
        }
        lemma_trim_end_at(t, j);
        assert(t.subrange(0, j) =~= s.subrange(0, j));
    }
}

/// The characters of `s`, one by one.
pub fn chars_of(s: &str) -> (r: Vec<char>)
    ensures
        r@ == s@,
{
    let n = s.unicode_len();
    let mut v: Vec<char> = Vec::new();
    let mut i: usize = 0;
    while i < n
        invariant
            n == s@.len(),
            i <= n,
            v@ == s@.subrange(0, i as int),
        decreases n - i,
    {
        v.push(s.get_char(i));
        i += 1;
    }
    assert(v@ =~= s@);
    v
}

/// Bounds `[a, b)` of the trimmed part of `s[from..to]`.
pub fn trim_bounds(s: &Vec<char>, from: usize, to: usize) -> (r: (usize, usize))
    requires
        from <= to <= s@.len(),
    ensures
        from <= r.0 <= r.1 <= to,
        s@.subrange(r.0 as int, r.1 as int) == trim(s@.subrange(from as int, to as int)),
{
    let ghost t = s@.subrange(from as int, to as int);
    let mut a = from;
    while a < to && is_ws_char(s[a])
        invariant
            from <= a <= to <= s@.len(),
            t == s@.subrange(from as int, to as int),
            forall|k: int| from <= k < a ==> is_ws(#[trigger] s@[k]),
        decreases to - a,
    {
        a += 1;
    }
    proof {
        assert forall|k: int| 0 <= k < a - from implies is_ws(#[trigger] t[k]) by {
            assert(t[k] == s@[from + k]);
        }
        lemma_trim_start_at(t, a - from);
    }
    let ghost u = s@.subrange(a as int, to as int);
    assert(trim_start(t) =~= u);
    let mut b = to;
    while b > a && is_ws_char(s[b - 1])
        invariant
            from <= a <= b <= to <= s@.len(),
            u == s@.subrange(a as int, to as int),
            forall|k: int| b <= k < to ==> is_ws(#[trigger] s@[k]),
        decreases b - a,
    {
        b -= 1;
    }
    proof {
        assert forall|k: int| b - a <= k < u.len() implies is_ws(#[trigger] u[k]) by {
            assert(u[k] == s@[a + k]);
        }
        lemma_trim_end_at(u, b - a);
        assert(u.subrange(0, b - a) =~= s@.subrange(a as int, b as int));
    }
    (a, b)
}

/// The decimal digit for `d`.
pub open spec fn digit(d: nat) -> char {
    if d == 0 { '0' } else if d == 1 { '1' } else if d == 2 { '2' } else if d == 3 { '3' }
    else if d == 4 { '4' } else if d == 5 { '5' } else if d == 6 { '6' } else if d == 7 { '7' }
    else if d == 8 { '8' } else { '9' }
}

/// Decimal notation of `n`, without leading zeros.
pub open spec fn dec(n: nat) -> Seq<char>
    decreases n,
{
    if n < 10 {
        seq![digit(n)]
    } else {
        dec(n / 10).push(digit(n % 10))
    }
}

/// Two-digit notation of `n < 100`, with a leading zero below ten.
pub open spec fn dec2(n: nat) -> Seq<char> {
    if n < 10 {
        seq!['0', digit(n)]
    } else {
        dec(n)
    }
}

pub fn digit_str(d: u64) -> (r: &'static str)
    requires
        d < 10,
    ensures
        r@ == seq![digit(d as nat)],
{
    proof {
        reveal_strlit("0");
        reveal_strlit("1");
        reveal_strlit("2");
        reveal_strlit("3");
        reveal_strlit("4");
        reveal_strlit("5");
        reveal_strlit("6");
        reveal_strlit("7");
        reveal_strlit("8");
        reveal_strlit("9");
    }
    let r = if d == 0 { "0" } else if d == 1 { "1" } else if d == 2 { "2" } else if d == 3 {
        "3"
    } else if d == 4 { "4" } else if d == 5 { "5" } else if d == 6 { "6" } else if d == 7 {
        "7"
    } else if d == 8 { "8" } else { "9" };
    assert(r@ =~= seq![digit(d as nat)]);
    r
}

/// Appends the decimal notation of `n` to `out`.
pub fn push_dec(out: &mut String, n: u64)
    ensures
        final(out)@ == old(out)@ + dec(n as nat),
    decreases n,
{
    if n < 10 {
        out.append(digit_str(n));
    } else {
        push_dec(out, n / 10);
        out.append(digit_str(n % 10));
        assert(dec(n as nat) == dec((n / 10) as nat).push(digit((n % 10) as nat)));
    }
}

/// Appends the two-digit notation of `n` to `out`.
pub fn push_dec2(out: &mut String, n: u64)
    requires
        n < 100,
    ensures
        final(out)@ == old(out)@ + dec2(n as nat),
{
    proof {
        reveal_strlit("0");
    }
    if n < 10 {
        out.append("0");
        out.append(digit_str(n));
    } else {
        push_dec(out, n);
    }
    assert(final(out)@ =~= old(out)@ + dec2(n as nat));
}

/// The decimal notation of `n`, as `u64::to_string` writes it.
pub fn decimal(n: u64) -> (r: String)
    ensures
        r@ == dec(n as nat),
{
    let mut s = String::new();
    push_dec(&mut s, n);
    assert(s@ =~= dec(n as nat));
    s
}

/// The characters of `s` in `[a, b)`, as a new string.
pub fn sub_string(s: &str, a: usize, b: usize) -> (r: String)
    requires
        a <= b <= s@.len(),
    ensures
        r@ == s@.subrange(a as int, b as int),
{
    String::from_str(s.substring_char(a, b))
}

/// `s` begins with `p`.
pub open spec fn starts_with(s: Seq<char>, p: Seq<char>) -> bool {
    p.len() <= s.len() && s.subrange(0, p.len() as int) == p
}

/// `p` occurs somewhere in `s`.
pub open spec fn contains(s: Seq<char>, p: Seq<char>) -> bool {
    exists|i: int| 0 <= i && i + p.len() <= s.len() && #[trigger] s.subrange(i, i + p.len()) == p
}

/// `p` occurs in `s` at position `i`.
pub fn occurs_at(s: &Vec<char>, i: usize, end: usize, p: &Vec<char>) -> (r: bool)
    requires
        i <= end <= s@.len(),
    ensures
        r == (i + p@.len() <= end && s@.subrange(i as int, i + p@.len()) == p@),
{
    if p.len() > end - i {
        return false;
    }
    let mut k: usize = 0;
    while k < p.len()
        invariant
            i + p@.len() <= end <= s@.len(),
            k <= p@.len(),
            forall|j: int| 0 <= j < k ==> s@[i + j] == p@[j],
        decreases p@.len() - k,
    {
        if s[i + k] != p[k] {
            assert(s@.subrange(i as int, i + p@.len())[k as int] != p@[k as int]);
            return false;
        }
        k += 1;
    }
    assert(s@.subrange(i as int, i + p@.len()) =~= p@);
    true
}

/// Whether `p` occurs in `s`.
pub fn contains_chars(s: &Vec<char>, p: &Vec<char>) -> (r: bool)
    ensures
        r == contains(s@, p@),
{
    if p.len() > s.len() {
        return false;
    }
    let last = s.len() - p.len();
    let mut i: usize = 0;
    loop
        invariant
            last == s@.len() - p@.len(),
            i <= last,
            forall|j: int| 0 <= j < i && j + p@.len() <= s@.len()
                ==> #[trigger] s@.subrange(j, j + p@.len()) != p@,
        decreases last - i,
    {
        if occurs_at(s, i, s.len(), p) {
            return true;
        }
        if i == last {
            return false;
        }
        i += 1;
    }
}

/// `l` without one trailing carriage return.
pub open spec fn strip_cr(l: Seq<char>) -> Seq<char> {
    if l.len() > 0 && l.last() == '\r' {
        l.drop_last()
    } else {
        l
    }
}

/// The lines of `s` from the line that began at `start`, scanning at `i`.
pub open spec fn lines_from(s: Seq<char>, start: int, i: int) -> Seq<Seq<char>>
    decreases s.len() - i,
{
    if i >= s.len() {
        if start < s.len() {
            seq![s.subrange(start, s.len() as int)]
        } else {
            seq![]
        }
    } else if s[i] == '\n' {
        seq![strip_cr(s.subrange(start, i))] + lines_from(s, i + 1, i + 1)
    } else {
        lines_from(s, start, i + 1)
    }
}

/// The lines of `s` as `str::lines` gives them: split at `\n`, a line ended by
/// `\r\n` without its `\r`, and no empty line after a final `\n`. A last line
/// with no `\n` keeps a trailing `\r`.
pub open spec fn lines(s: Seq<char>) -> Seq<Seq<char>> {
    lines_from(s, 0, 0)
}

/// End of the line that begins at `start`, once a trailing `\r` is dropped.
pub fn line_content_end(s: &Vec<char>, start: usize, i: usize) -> (r: usize)
    requires
        start <= i <= s@.len(),
    ensures
        start <= r <= i,
        s@.subrange(start as int, r as int) == strip_cr(s@.subrange(start as int, i as int)),
{
    if i > start && s[i - 1] == '\r' {
        assert(s@.subrange(start as int, i - 1) =~= s@.subrange(start as int, i as int).drop_last());
        i - 1
    } else {
        i
    }
}

/// Every character of `s` is a decimal digit.
pub open spec fn all_digits(s: Seq<char>) -> bool {
    forall|i: int| 0 <= i < s.len() ==> '0' <= #[trigger] s[i] && s[i] <= '9'
}

/// The number the decimal digits `s` spell.
pub open spec fn digits_value(s: Seq<char>) -> nat
    decreases s.len(),
{
    if s.len() == 0 {
        0
    } else {
        (digits_value(s.drop_last()) * 10 + (s.last() as int - '0' as int)) as nat
    }
}

/// The `u64` that `s` denotes as `u64::from_str` reads it: an optional `+`, then
/// one or more decimal digits, of a value that fits.
pub open spec fn u64_text(s: Seq<char>) -> Option<u64> {
    let t = if s.len() > 0 && s[0] == '+' { s.drop_first() } else { s };
    if t.len() > 0 && all_digits(t) && digits_value(t) <= u64::MAX {
        Some(digits_value(t) as u64)
    } else {
        None
    }
}

/// Reads the decimal number `s[from..to]`, as `u64::from_str` does.
pub fn parse_u64_range(s: &Vec<char>, from: usize, to: usize) -> (r: Option<u64>)
    requires
        from <= to <= s@.len(),
    ensures
        r == u64_text(s@.subrange(from as int, to as int)),
{
    let ghost whole = s@.subrange(from as int, to as int);
    let mut i = from;
    if i < to && s[i] == '+' {
        i += 1;
    }
    let ghost t = s@.subrange(i as int, to as int);
    assert(t =~= (if whole.len() > 0 && whole[0] == '+' { whole.drop_first() } else { whole }));
    if i == to {
        return None;
    }
    let mut v: u64 = 0;
    let mut k = i;
    while k < to
        invariant
            from <= i <= k <= to <= s@.len(),
            t == s@.subrange(i as int, to as int),
            whole == s@.subrange(from as int, to as int),
            t == (if whole.len() > 0 && whole[0] == '+' { whole.drop_first() } else { whole }),
            t.len() > 0,
            all_digits(s@.subrange(i as int, k as int)),
            v == digits_value(s@.subrange(i as int, k as int)),
        decreases to - k,
    {
        let c = s[k];
        let ghost pre = s@.subrange(i as int, k as int);
        let ghost next = s@.subrange(i as int, k + 1);
        assert(next.drop_last() =~= pre);
        if c < '0' || c > '9' {
            assert(t[k - i] == c);
            assert(!all_digits(t));
            return None;
        }
        let d = (c as u32 - '0' as u32) as u64;
        assert(digits_value(next) == v * 10 + d);
        if v > (u64::MAX - d) / 10 {
            proof {
                assert(v * 10 + d > u64::MAX) by (nonlinear_arith)
                    requires
                        v > (u64::MAX - d) / 10,
                        d <= 9,
                ;
                if all_digits(t) {
                    lemma_digits_value_mono(t, k - i + 1);
                    assert(t.subrange(0, k - i + 1) =~= next);
                }
            }
            return None;
        }
        v = v * 10 + d;
        k += 1;
    }
    assert(s@.subrange(i as int, k as int) =~= t);
    Some(v)
}

proof fn lemma_digits_value_mono(t: Seq<char>, n: int)
    requires
        0 <= n <= t.len(),
        all_digits(t),
    ensures
        digits_value(t) >= digits_value(t.subrange(0, n)),
    decreases t.len(),
{
    if n < t.len() {
        assert(t.drop_last().subrange(0, n) =~= t.subrange(0, n));
        lemma_digits_value_mono(t.drop_last(), n);
    } else {
        assert(t.subrange(0, n) =~= t);
    }
}

/// First index at or after `k` that holds `c`, or the length.
pub open spec fn scan_char(s: Seq<char>, k: int, c: char) -> int
    decreases s.len() - k,
{
    if k >= s.len() {
        s.len() as int
    } else if s[k] == c {
        k
    } else {
        scan_char(s, k + 1, c)
    }
}

/// First index at or after `k` whose character is white space exactly when `ws`,
/// or the length.
pub open spec fn scan_ws(s: Seq<char>, k: int, ws: bool) -> int
    decreases s.len() - k,
{
    if k >= s.len() {
        s.len() as int
    } else if is_ws(s[k]) == ws {
        k
    } else {
        scan_ws(s, k + 1, ws)
    }
}

proof fn lemma_scan_char(s: Seq<char>, k: int, e: int, c: char)
    requires
        0 <= k <= e <= s.len(),
        forall|m: int| k <= m < e ==> #[trigger] s[m] != c,
        e == s.len() || s[e] == c,
    ensures
        scan_char(s, k, c) == e,
    decreases e - k,
{
    if k < e {
        lemma_scan_char(s, k + 1, e, c);
    }
}

proof fn lemma_scan_ws(s: Seq<char>, k: int, e: int, ws: bool)
    requires
        0 <= k <= e <= s.len(),
        forall|m: int| k <= m < e ==> is_ws(#[trigger] s[m]) != ws,
        e == s.len() || is_ws(s[e]) == ws,
    ensures
        scan_ws(s, k, ws) == e,
    decreases e - k,
{
    if k < e {
        lemma_scan_ws(s, k + 1, e, ws);
    }
}

/// The text between the first and the second `sep` of `l` (or its end), as
/// `l.split(sep).nth(1)` gives it; `None` when `l` holds no `sep`.
pub open spec fn second_field(l: Seq<char>, sep: char) -> Option<Seq<char>> {
    let i = scan_char(l, 0, sep);
    if i >= l.len() {
        None
    } else {
        Some(l.subrange(i + 1, scan_char(l, i + 1, sep)))
    }
}

/// The first run of non-white-space characters of `s`, as
/// `s.split_whitespace().next()` gives it.
pub open spec fn first_word(s: Seq<char>) -> Option<Seq<char>> {
    let a = scan_ws(s, 0, false);
    if a >= s.len() {
        None
    } else {
        Some(s.subrange(a, scan_ws(s, a, true)))
    }
}

/// First index in `[k, to)` of `s` that holds `c`, or `to`.
fn scan_char_exec(s: &Vec<char>, k: usize, to: usize, c: char) -> (r: usize)
    requires
        k <= to <= s@.len(),
    ensures
        k <= r <= to,
        forall|m: int| k <= m < r ==> #[trigger] s@[m] != c,
        r == to || s@[r as int] == c,
{
    let mut i = k;
    while i < to && s[i] != c
        invariant
            k <= i <= to <= s@.len(),
            forall|m: int| k <= m < i ==> #[trigger] s@[m] != c,
        decreases to - i,
    {
        i += 1;
    }
    i
}

/// First index in `[k, to)` of `s` whose character is white space exactly when
/// `ws`, or `to`.
fn scan_ws_exec(s: &Vec<char>, k: usize, to: usize, ws: bool) -> (r: usize)
    requires
        k <= to <= s@.len(),
    ensures
        k <= r <= to,
        forall|m: int| k <= m < r ==> is_ws(#[trigger] s@[m]) != ws,
        r == to || is_ws(s@[r as int]) == ws,
{
    let mut i = k;
    while i < to && is_ws_char(s[i]) != ws
        invariant
            k <= i <= to <= s@.len(),
            forall|m: int| k <= m < i ==> is_ws(#[trigger] s@[m]) != ws,
        decreases to - i,
    {
        i += 1;
    }
    i
}

/// Bounds of `second_field(s[from..to], sep)`.
pub fn second_field_bounds(s: &Vec<char>, from: usize, to: usize, sep: char) -> (r: Option<(usize, usize)>)
    requires
        from <= to <= s@.len(),
    ensures
        r is Some == second_field(s@.subrange(from as int, to as int), sep) is Some,
        r is Some ==> from <= (r->0).0 <= (r->0).1 <= to && s@.subrange((r->0).0 as int, (r->0).1 as int)
            == second_field(s@.subrange(from as int, to as int), sep)->0,
{
    let ghost l = s@.subrange(from as int, to as int);
    let i = scan_char_exec(s, from, to, sep);
    proof {
        assert forall|m: int| 0 <= m < i - from implies #[trigger] l[m] != sep by {
            assert(l[m] == s@[from + m]);
        }
        lemma_scan_char(l, 0, i - from, sep);
    }
    if i == to {
        return None;
    }
    let j = scan_char_exec(s, i + 1, to, sep);
    proof {
        assert forall|m: int| i - from + 1 <= m < j - from implies #[trigger] l[m] != sep by {
            assert(l[m] == s@[from + m]);
        }
        lemma_scan_char(l, i - from + 1, j - from, sep);
        assert(l.subrange(i - from + 1, j - from) =~= s@.subrange(i + 1, j as int));
    }
    Some((i + 1, j))
}

/// Bounds of `first_word(s[from..to])`.
pub fn first_word_bounds(s: &Vec<char>, from: usize, to: usize) -> (r: Option<(usize, usize)>)
    requires
        from <= to <= s@.len(),
    ensures
        r is Some == first_word(s@.subrange(from as int, to as int)) is Some,
        r is Some ==> from <= (r->0).0 <= (r->0).1 <= to && s@.subrange((r->0).0 as int, (r->0).1 as int)
            == first_word(s@.subrange(from as int, to as int))->0,
{
    let ghost l = s@.subrange(from as int, to as int);
    let a = scan_ws_exec(s, from, to, false);
    proof {
        assert forall|m: int| 0 <= m < a - from implies is_ws(#[trigger] l[m]) != false by {
            assert(l[m] == s@[from + m]);
        }
        lemma_scan_ws(l, 0, a - from, false);
    }
    if a == to {
        return None;
    }
    let b = scan_ws_exec(s, a, to, true);
    proof {
        assert forall|m: int| a - from <= m < b - from implies is_ws(#[trigger] l[m]) != true by {
            assert(l[m] == s@[from + m]);
        }
        lemma_scan_ws(l, a - from, b - from, true);
        assert(l.subrange(a - from, b - from) =~= s@.subrange(a as int, b as int));
    }
    Some((a, b))
}

/// Whether `p` occurs in `s[from..to]`.
pub fn contains_in(s: &Vec<char>, from: usize, to: usize, p: &Vec<char>) -> (r: bool)
    requires
        from <= to <= s@.len(),
    ensures
        r == contains(s@.subrange(from as int, to as int), p@),
{
    let ghost l = s@.subrange(from as int, to as int);
    if p.len() > to - from {
        return false;
    }
    let last = to - p.len();
    let mut i = from;
    loop
        invariant
            from <= i <= last,
            last + p@.len() == to <= s@.len(),
            l == s@.subrange(from as int, to as int),
            forall|j: int| 0 <= j < i - from && j + p@.len() <= l.len()
                ==> #[trigger] l.subrange(j, j + p@.len()) != p@,
        decreases last - i,
    {
        let found = occurs_at(s, i, to, p);
        assert(l.subrange(i - from, i - from + p@.len()) =~= s@.subrange(i as int, i + p@.len()));
        if found {
            return true;
        }
        if i == last {
            return false;
        }
        i += 1;
    }
}

/// `l` is the kind of line looked for: it starts with `p`, or holds `p`
/// anywhere when `anywhere`.
pub open spec fn line_matches(l: Seq<char>, p: Seq<char>, anywhere: bool) -> bool {
    if anywhere {
        contains(l, p)
    } else {
        starts_with(l, p)
    }
}

/// The first of `ls` that matches.
pub open spec fn first_matching(ls: Seq<Seq<char>>, p: Seq<char>, anywhere: bool) -> Option<Seq<char>>
    decreases ls.len(),
{
    if ls.len() == 0 {
        None
    } else if line_matches(ls[0], p, anywhere) {
        Some(ls[0])
    } else {
        first_matching(ls.drop_first(), p, anywhere)
    }
}

proof fn lemma_first_matching_push(ls: Seq<Seq<char>>, l: Seq<char>, p: Seq<char>, anywhere: bool)
    requires
        first_matching(ls, p, anywhere) is None,
    ensures
        first_matching(ls.push(l), p, anywhere) == (if line_matches(l, p, anywhere) {
            Some(l)
        } else {
            None::<Seq<char>>
        }),
    decreases ls.len(),
{
    if ls.len() == 0 {
        assert(ls.push(l).drop_first() =~= Seq::<Seq<char>>::empty());
        assert(ls.push(l)[0] == l);
    } else {
        assert(ls.push(l)[0] == ls[0]);
        assert(ls.push(l).drop_first() =~= ls.drop_first().push(l));
        lemma_first_matching_push(ls.drop_first(), l, p, anywhere);
    }
}

proof fn lemma_first_matching_found(ls: Seq<Seq<char>>, rest: Seq<Seq<char>>, p: Seq<char>, anywhere: bool)
    requires
        first_matching(ls, p, anywhere) is Some,
    ensures
        first_matching(ls + rest, p, anywhere) == first_matching(ls, p, anywhere),
    decreases ls.len(),
{
    assert((ls + rest)[0] == ls[0]);
    if !line_matches(ls[0], p, anywhere) {
        assert((ls + rest).drop_first() =~= ls.drop_first() + rest);
        lemma_first_matching_found(ls.drop_first(), rest, p, anywhere);
    }
}

/// Whether the line `s[start..e]` matches, and the proof that it is `l`.
fn line_hit(s: &Vec<char>, start: usize, e: usize, p: &Vec<char>, anywhere: bool) -> (r: bool)
    requires
        start <= e <= s@.len(),
    ensures
        r == line_matches(s@.subrange(start as int, e as int), p@, anywhere),
{
    let hit = if anywhere {
        contains_in(s, start, e, p)
    } else {
        occurs_at(s, start, e, p)
    };
    proof {
        let l = s@.subrange(start as int, e as int);
        if !anywhere && start + p@.len() <= e {
            assert(l.subrange(0, p@.len() as int) =~= s@.subrange(start as int, start + p@.len()));
        }
    }
    hit
}

/// Bounds of the first line of `s` that matches, without its line break.
pub fn find_line(s: &Vec<char>, p: &Vec<char>, anywhere: bool) -> (r: Option<(usize, usize)>)
    ensures
        r is Some == first_matching(lines(s@), p@, anywhere) is Some,
        r is Some ==> (r->0).0 <= (r->0).1 <= s@.len() && s@.subrange((r->0).0 as int, (r->0).1 as int)
            == first_matching(lines(s@), p@, anywhere)->0,
{
    let ghost mut done: Seq<Seq<char>> = seq![];
    let mut start: usize = 0;
    let mut i: usize = 0;
    while i < s.len()
        invariant
            start <= i <= s@.len(),
            lines(s@) == done + lines_from(s@, start as int, i as int),
            first_matching(done, p@, anywhere) is None,
        decreases s@.len() - i,
    {
        if s[i] == '\n' {
            let e = line_content_end(s, start, i);
            let hit = line_hit(s, start, e, p, anywhere);
            let ghost l = s@.subrange(start as int, e as int);
            proof {
                let rest = lines_from(s@, i + 1, i + 1);
                assert(done + lines_from(s@, start as int, i as int) =~= done.push(l) + rest);
                lemma_first_matching_push(done, l, p@, anywhere);
                if hit {
                    lemma_first_matching_found(done.push(l), rest, p@, anywhere);
                }
                done = done.push(l);
            }
            if hit {
                return Some((start, e));
            }
            start = i + 1;
        }
        i += 1;
    }
    if start < s.len() {
        let e = i;
        let hit = line_hit(s, start, e, p, anywhere);
        let ghost l = s@.subrange(start as int, e as int);
        proof {
            assert(lines(s@) =~= done.push(l));
            lemma_first_matching_push(done, l, p@, anywhere);
        }
        if hit {
            return Some((start, e));
        }
    } else {
        assert(lines(s@) =~= done);
    }
    None
}

/// The `[start, end)` bounds in `s` of `parts`, one pair per part.
pub open spec fn spans(s: Seq<char>, b: Seq<(usize, usize)>, parts: Seq<Seq<char>>) -> bool {
    &&& b.len() == parts.len()
    &&& forall|k: int| 0 <= k < b.len() ==> (#[trigger] b[k]).0 <= b[k].1 <= s.len()
        && s.subrange(b[k].0 as int, b[k].1 as int) == parts[k]
}

/// Bounds of each line of `s`, without line breaks.
pub fn line_bounds(s: &Vec<char>) -> (r: Vec<(usize, usize)>)
    ensures
        spans(s@, r@, lines(s@)),
{
    let mut out: Vec<(usize, usize)> = Vec::new();
    let ghost mut done: Seq<Seq<char>> = seq![];
    let mut start: usize = 0;
    let mut i: usize = 0;
    while i < s.len()
        invariant
            start <= i <= s@.len(),
            lines(s@) == done + lines_from(s@, start as int, i as int),
            spans(s@, out@, done),
        decreases s@.len() - i,
    {
        if s[i] == '\n' {
            let e = line_content_end(s, start, i);
            let ghost l = s@.subrange(start as int, e as int);
            proof {
                assert(done + lines_from(s@, start as int, i as int)
                    =~= done.push(l) + lines_from(s@, i + 1, i + 1));
            }
            out.push((start, e));
            proof {
                done = done.push(l);
            }
            start = i + 1;
        }
        i += 1;
    }
    if start < s.len() {
        let e = i;
        let ghost l = s@.subrange(start as int, e as int);
        proof {
            assert(lines(s@) =~= done.push(l));
        }
        out.push((start, e));
        proof {
            done = done.push(l);
        }
    } else {
        assert(lines(s@) =~= done);
    }
    out
}

/// The words of `s` from `i` on, where the word in progress began at `start`
/// (negative when between words).
pub open spec fn words_from(s: Seq<char>, start: int, i: int) -> Seq<Seq<char>>
    decreases s.len() - i,
{
    if i >= s.len() {
        if start >= 0 {
            seq![s.subrange(start, s.len() as int)]
        } else {
            seq![]
        }
    } else if is_ws(s[i]) {
        if start >= 0 {
            seq![s.subrange(start, i)] + words_from(s, -1, i + 1)
        } else {
            words_from(s, -1, i + 1)
        }
    } else if start >= 0 {
        words_from(s, start, i + 1)
    } else {
        words_from(s, i, i + 1)
    }
}

/// The runs of non-white-space characters of `s`, as `str::split_whitespace`
/// gives them.
pub open spec fn words(s: Seq<char>) -> Seq<Seq<char>> {
    words_from(s, -1, 0)
}

/// Bounds of the words of `s[from..to]`.
pub fn word_bounds(s: &Vec<char>, from: usize, to: usize) -> (r: Vec<(usize, usize)>)
    requires
        from <= to <= s@.len(),
    ensures
        spans(s@, r@, words(s@.subrange(from as int, to as int))),
{
    let ghost l = s@.subrange(from as int, to as int);
    let mut out: Vec<(usize, usize)> = Vec::new();
    let ghost mut done: Seq<Seq<char>> = seq![];
    let mut in_word = false;
    let mut start: usize = from;
    let mut i: usize = from;
    while i < to
        invariant
            from <= start <= i <= to <= s@.len(),
            l == s@.subrange(from as int, to as int),
            words(l) == done + words_from(l, if in_word { start - from } else { -1 }, i - from),
            spans(s@, out@, done),
        decreases to - i,
    {
        let ghost rel = if in_word { start - from } else { -1int };
        assert(l[i - from] == s@[i as int]);
        if is_ws_char(s[i]) {
            if in_word {
                let ghost w = l.subrange(start - from, i - from);
                proof {
                    assert(w =~= s@.subrange(start as int, i as int));
                    assert(done + words_from(l, rel, i - from) =~= done.push(w) + words_from(l, -1, i - from + 1));
                }
                out.push((start, i));
                proof {
                    done = done.push(w);
                }
                in_word = false;
            }
        } else if !in_word {
            in_word = true;
            start = i;
        }
        i += 1;
    }
    if in_word {
        let ghost w = l.subrange(start - from, to - from);
        proof {
            assert(w =~= s@.subrange(start as int, to as int));
            assert(words(l) =~= done.push(w));
        }
        out.push((start, to));
        proof {
            done = done.push(w);
        }
    } else {
        assert(words(l) =~= done);
    }
    out
}

/// `s` ends with `p`.
pub open spec fn ends_with(s: Seq<char>, p: Seq<char>) -> bool {
    p.len() <= s.len() && s.subrange(s.len() - p.len(), s.len() as int) == p
}

} // verus!
