//! Character-sequence helpers: searching, trimming, prefix stripping and
//! decimal conversion, each with the specification it is proved against.

use vstd::prelude::*;
use vstd::string::*;

verus! {

// ── Specifications ───────────────────────────────────────────────────────────

/// Unicode `White_Space` property, the set that `char::is_whitespace` tests.
pub open spec fn is_ws(c: char) -> bool {
    ||| c == '\t' || c == '\n' || c == '\u{0B}' || c == '\u{0C}' || c == '\r' || c == ' '
    ||| c == '\u{85}' || c == '\u{A0}' || c == '\u{1680}'
    ||| ('\u{2000}' <= c && c <= '\u{200A}')
    ||| c == '\u{2028}' || c == '\u{2029}' || c == '\u{202F}' || c == '\u{205F}'
    ||| c == '\u{3000}'
}

/// What a trim removes: whitespace when `q` is `None`, the character `q` otherwise.
pub open spec fn is_trimmed(c: char, q: Option<char>) -> bool {
    match q {
        None => is_ws(c),
        Some(x) => c == x,
    }
}

/// The first index at or after `i` whose character a trim keeps.
pub open spec fn skip_from(s: Seq<char>, q: Option<char>, i: int) -> int
    decreases s.len() - i,
{
    if 0 <= i < s.len() && is_trimmed(s[i], q) {
        skip_from(s, q, i + 1)
    } else {
        i
    }
}

/// The end of `s[..j]` once trailing trimmed characters are dropped.
pub open spec fn cut_before(s: Seq<char>, q: Option<char>, j: int) -> int
    decreases j,
{
    if 0 < j <= s.len() && is_trimmed(s[j - 1], q) {
        cut_before(s, q, j - 1)
    } else {
        j
    }
}

/// `s` without its leading characters matched by `q`.
pub open spec fn trim_start_by(s: Seq<char>, q: Option<char>) -> Seq<char> {
    s.subrange(skip_from(s, q, 0), s.len() as int)
}

/// `s` without its trailing characters matched by `q`.
pub open spec fn trim_end_by(s: Seq<char>, q: Option<char>) -> Seq<char> {
    s.subrange(0, cut_before(s, q, s.len() as int))
}

/// `s` without leading and trailing characters matched by `q`
/// (`str::trim` for `None`, `str::trim_matches(x)` for `Some(x)`).
pub open spec fn trim_by(s: Seq<char>, q: Option<char>) -> Seq<char> {
    trim_end_by(trim_start_by(s, q), q)
}

/// The index of the first `c` in `s` at or after `i`.
pub open spec fn find_from(s: Seq<char>, c: char, i: int) -> Option<int>
    decreases s.len() - i,
{
    if i < 0 || i >= s.len() {
        None
    } else if s[i] == c {
        Some(i)
    } else {
        find_from(s, c, i + 1)
    }
}

/// The index of the first `c` in `s` (`str::find`).
pub open spec fn find_first(s: Seq<char>, c: char) -> Option<int> {
    find_from(s, c, 0)
}

/// The index of the last `c` in `s[..j]`.
pub open spec fn find_last_before(s: Seq<char>, c: char, j: int) -> Option<int>
    decreases j,
{
    if j <= 0 || j > s.len() {
        None
    } else if s[j - 1] == c {
        Some(j - 1)
    } else {
        find_last_before(s, c, j - 1)
    }
}

/// The index of the last `c` in `s` (`str::rfind`).
pub open spec fn find_last(s: Seq<char>, c: char) -> Option<int> {
    find_last_before(s, c, s.len() as int)
}

/// Whether `s` starts with the non-empty `p`.
pub open spec fn has_prefix(s: Seq<char>, p: Seq<char>) -> bool {
    p.len() <= s.len() && s.subrange(0, p.len() as int) == p
}

/// `s` with every leading copy of `p` removed (`str::trim_start_matches`).
pub open spec fn strip_prefix_all(s: Seq<char>, p: Seq<char>) -> Seq<char>
    decreases s.len(),
{
    if p.len() > 0 && has_prefix(s, p) {
        strip_prefix_all(s.subrange(p.len() as int, s.len() as int), p)
    } else {
        s
    }
}

/// The part of `s` before its first `c` (`s.split(c).next()`).
pub open spec fn before_first(s: Seq<char>, c: char) -> Seq<char> {
    match find_first(s, c) {
        Some(i) => s.subrange(0, i),
        None => s,
    }
}

/// Whether `c` occurs in `s`.
pub open spec fn has_char(s: Seq<char>, c: char) -> bool {
    exists|i: int| 0 <= i < s.len() && s[i] == c
}

pub open spec fn digit_char(d: nat) -> char {
    if d == 0 { '0' } else if d == 1 { '1' } else if d == 2 { '2' } else if d == 3 { '3' }
    else if d == 4 { '4' } else if d == 5 { '5' } else if d == 6 { '6' } else if d == 7 { '7' }
    else if d == 8 { '8' } else { '9' }
}

/// Decimal digits of `n`, without leading zeros (`"0"` for zero).
pub open spec fn dec(n: nat) -> Seq<char>
    decreases n,
{
    if n < 10 {
        seq![digit_char(n)]
    } else {
        dec(n / 10).push(digit_char(n % 10))
    }
}

/// `n` in decimal, padded with zeros to at least two digits (`{:02}`).
pub open spec fn dec2(n: nat) -> Seq<char> {
    if n < 10 { seq!['0'] + dec(n) } else { dec(n) }
}

/// A signed integer as `Display` writes it.
pub open spec fn dec_signed(v: int) -> Seq<char> {
    if v < 0 { seq!['-'] + dec((-v) as nat) } else { dec(v as nat) }
}

pub open spec fn is_digit(c: char) -> bool {
    '0' <= c && c <= '9'
}

pub open spec fn digit_value(c: char) -> nat {
    ((c as int) - ('0' as int)) as nat
}

pub open spec fn all_digits(s: Seq<char>) -> bool {
    forall|i: int| 0 <= i < s.len() ==> is_digit(#[trigger] s[i])
}

/// The number that a string of decimal digits denotes.
pub open spec fn digits_value(s: Seq<char>) -> nat
    decreases s.len(),
{
    if s.len() == 0 {
        0
    } else {
        10 * digits_value(s.drop_last()) + digit_value(s.last())
    }
}

/// What `str::parse` gives for an unsigned integer type whose largest value
/// is `max`: an optional `+`, then one or more decimal digits, in range.
pub open spec fn parse_unsigned(s: Seq<char>, max: nat) -> Option<nat> {
    let body = if s.len() > 0 && s[0] == '+' { s.drop_first() } else { s };
    if body.len() > 0 && all_digits(body) && digits_value(body) <= max {
        Some(digits_value(body))
    } else {
        None
    }
}

/// What `str::parse::<i64>` gives: an optional sign, then one or more
/// decimal digits, in range.
pub open spec fn parse_i64(s: Seq<char>) -> Option<int> {
    let neg = s.len() > 0 && s[0] == '-';
    let body = if s.len() > 0 && (s[0] == '+' || s[0] == '-') { s.drop_first() } else { s };
    if body.len() > 0 && all_digits(body) {
        let v: int = if neg { -(digits_value(body) as int) } else { digits_value(body) as int };
        if i64::MIN <= v <= i64::MAX { Some(v) } else { None }
    } else {
        None
    }
}

// ── Conversions ──────────────────────────────────────────────────────────────

/// `String::push`: appends one character.
#[verifier::external_body]
pub(crate) fn push_char(s: &mut String, c: char)
    ensures
        final(s)@ == old(s)@.push(c),
{
    s.push(c);
}

/// The characters of `s`, in order.
pub fn chars_of(s: &str) -> (v: Vec<char>)
    ensures
        v@ == s@,
{
    let n = s.unicode_len();
    let mut v: Vec<char> = Vec::new();
    let mut i: usize = 0;
    while i < n
        invariant
            n == s@.len(),
            i <= n,
            v@ == s@.subrange(0, i as int),
        decreases n - i,
    {
        let c = s.get_char(i);
        v.push(c);
        i = i + 1;
        assert(v@ =~= s@.subrange(0, i as int));
    }
    v
}

/// The string made of the characters `v[lo..hi]`.
pub fn string_of(v: &Vec<char>, lo: usize, hi: usize) -> (s: String)
    requires
        lo <= hi <= v@.len(),
    ensures
        s@ == v@.subrange(lo as int, hi as int),
{
    let mut s = String::new();
    let mut i: usize = lo;
    while i < hi
        invariant
            lo <= i <= hi <= v@.len(),
            s@ == v@.subrange(lo as int, i as int),
        decreases hi - i,
    {
        push_char(&mut s, v[i]);
        i = i + 1;
        assert(s@ =~= v@.subrange(lo as int, i as int));
    }
    s
}

/// Appends `v[lo..hi]` to `s`.
pub fn append_chars(s: &mut String, v: &Vec<char>, lo: usize, hi: usize)
    requires
        lo <= hi <= v@.len(),
    ensures
        final(s)@ == old(s)@ + v@.subrange(lo as int, hi as int),
{
    let mut i: usize = lo;
    while i < hi
        invariant
            lo <= i <= hi <= v@.len(),
            s@ == old(s)@ + v@.subrange(lo as int, i as int),
        decreases hi - i,
    {
        push_char(s, v[i]);
        i = i + 1;
        assert(s@ =~= old(s)@ + v@.subrange(lo as int, i as int));
    }
}

/// Appends the characters of `t` to `s`.
pub fn append_str(s: &mut String, t: &str)
    ensures
        final(s)@ == old(s)@ + t@,
{
    let v = chars_of(t);
    append_chars(s, &v, 0, v.len());
    assert(v@.subrange(0, v@.len() as int) =~= v@);
}

/// A copy of `v[lo..hi]`.
pub fn slice_vec(v: &Vec<char>, lo: usize, hi: usize) -> (r: Vec<char>)
    requires
        lo <= hi <= v@.len(),
    ensures
        r@ == v@.subrange(lo as int, hi as int),
{
    let mut r: Vec<char> = Vec::new();
    let mut i: usize = lo;
    while i < hi
        invariant
            lo <= i <= hi <= v@.len(),
            r@ == v@.subrange(lo as int, i as int),
        decreases hi - i,
    {
        r.push(v[i]);
        i = i + 1;
        assert(r@ =~= v@.subrange(lo as int, i as int));
    }
    r
}

// ── Searching and trimming ───────────────────────────────────────────────────

/// `char::is_whitespace`.
pub fn is_whitespace(c: char) -> (b: bool)
    ensures
        b == is_ws(c),
{
    c == '\t' || c == '\n' || c == '\u{0B}' || c == '\u{0C}' || c == '\r' || c == ' '
        || c == '\u{85}' || c == '\u{A0}' || c == '\u{1680}'
        || ('\u{2000}' <= c && c <= '\u{200A}')
        || c == '\u{2028}' || c == '\u{2029}' || c == '\u{202F}' || c == '\u{205F}'
        || c == '\u{3000}'
}

fn trimmed(c: char, q: Option<char>) -> (b: bool)
    ensures
        b == is_trimmed(c, q),
{
    match q {
        None => is_whitespace(c),
        Some(x) => c == x,
    }
}

/// The first index of `c` in `v`.
pub fn find(v: &Vec<char>, c: char) -> (r: Option<usize>)
    ensures
        match r {
            Some(i) => find_first(v@, c) == Some(i as int),
            None => find_first(v@, c) is None,
        },
{
    let mut i: usize = 0;
    while i < v.len()
        invariant
            i <= v@.len(),
            find_first(v@, c) == find_from(v@, c, i as int),
        decreases v@.len() - i,
    {
        if v[i] == c {
            return Some(i);
        }
        i = i + 1;
    }
    None
}

/// The last index of `c` in `v`.
pub fn rfind(v: &Vec<char>, c: char) -> (r: Option<usize>)
    ensures
        match r {
            Some(i) => find_last(v@, c) == Some(i as int),
            None => find_last(v@, c) is None,
        },
{
    let mut j: usize = v.len();
    while j > 0
        invariant
            j <= v@.len(),
            find_last(v@, c) == find_last_before(v@, c, j as int),
        decreases j,
    {
        if v[j - 1] == c {
            return Some(j - 1);
        }
        j = j - 1;
    }
    None
}

/// `v` without leading and trailing characters matched by `q`.
pub fn trim_vec(v: &Vec<char>, q: Option<char>) -> (r: Vec<char>)
    ensures
        r@ == trim_by(v@, q),
{
    let mut i: usize = 0;
    while i < v.len() && trimmed(v[i], q)
        invariant
            i <= v@.len(),
            skip_from(v@, q, 0) == skip_from(v@, q, i as int),
        decreases v@.len() - i,
    {
        i = i + 1;
    }
    let head = slice_vec(v, i, v.len());
    let mut j: usize = head.len();
    while j > 0 && trimmed(head[j - 1], q)
        invariant
            j <= head@.len(),
            cut_before(head@, q, head@.len() as int) == cut_before(head@, q, j as int),
        decreases j,
    {
        j = j - 1;
    }
    slice_vec(&head, 0, j)
}

proof fn lemma_strip_step(s: Seq<char>, p: Seq<char>, i: int)
    requires
        0 <= i <= s.len(),
        p.len() > 0,
        has_prefix(s.subrange(i, s.len() as int), p),
    ensures
        strip_prefix_all(s.subrange(i, s.len() as int), p)
            == strip_prefix_all(s.subrange(i + p.len(), s.len() as int), p),
{
    let t = s.subrange(i, s.len() as int);
    assert(t.subrange(p.len() as int, t.len() as int) =~= s.subrange(i + p.len(), s.len() as int));
}

/// Whether `p` occurs in `v` at index `i`.
fn matches_at(v: &Vec<char>, i: usize, p: &Vec<char>) -> (b: bool)
    requires
        i <= v@.len(),
    ensures
        b == has_prefix(v@.subrange(i as int, v@.len() as int), p@),
{
    let ghost t = v@.subrange(i as int, v@.len() as int);
    let n = v.len();
    if n - i < p.len() {
        return false;
    }
    let mut k: usize = 0;
    while k < p.len()
        invariant
            n == v@.len(),
            i + p@.len() <= n,
            k <= p@.len(),
            t == v@.subrange(i as int, v@.len() as int),
            forall|m: int| 0 <= m < k ==> v@[i + m] == p@[m],
        decreases p@.len() - k,
    {
        if v[i + k] != p[k] {
            assert(t.subrange(0, p@.len() as int)[k as int] != p@[k as int]);
            return false;
        }
        k = k + 1;
    }
    assert(t.subrange(0, p@.len() as int) =~= p@);
    true
}

/// `v` with every leading copy of the non-empty `p` removed.
pub fn strip_prefix_vec(v: &Vec<char>, p: &Vec<char>) -> (r: Vec<char>)
    requires
        p@.len() > 0,
    ensures
        r@ == strip_prefix_all(v@, p@),
{
    let mut i: usize = 0;
    let n = v.len();
    assert(v@.subrange(0, v@.len() as int) =~= v@);
    while matches_at(v, i, p)
        invariant
            n == v@.len(),
            i <= n,
            p@.len() > 0,
            strip_prefix_all(v@, p@) == strip_prefix_all(v@.subrange(i as int, v@.len() as int), p@),
        decreases v@.len() - i,
    {
        proof {
            lemma_strip_step(v@, p@, i as int);
        }
        i = i + p.len();
    }
    slice_vec(v, i, v.len())
}

/// `v[..first c]`, or all of `v` when `c` does not occur.
pub fn before_first_vec(v: &Vec<char>, c: char) -> (r: Vec<char>)
    ensures
        r@ == before_first(v@, c),
{
    match find(v, c) {
        Some(i) => {
            proof { lemma_find_first_bounds(v@, c); }
            slice_vec(v, 0, i)
        },
        None => slice_vec(v, 0, v.len()),
    }
}

// ── Lemmas on searching ──────────────────────────────────────────────────────

proof fn lemma_find_from_bounds(s: Seq<char>, c: char, i: int)
    requires
        0 <= i,
    ensures
        match find_from(s, c, i) {
            Some(k) => i <= k < s.len() && s[k] == c
                && forall|m: int| i <= m < k ==> s[m] != c,
            None => forall|m: int| i <= m < s.len() && 0 <= m ==> s[m] != c,
        },
    decreases s.len() - i,
{
    if i < 0 || i >= s.len() {
    } else if s[i] == c {
    } else {
        lemma_find_from_bounds(s, c, i + 1);
    }
}

/// What `find_first` gives: the least index holding `c`, or none.
pub proof fn lemma_find_first_bounds(s: Seq<char>, c: char)
    ensures
        match find_first(s, c) {
            Some(k) => 0 <= k < s.len() && s[k] == c && forall|m: int| 0 <= m < k ==> s[m] != c,
            None => forall|m: int| 0 <= m < s.len() ==> s[m] != c,
        },
{
    lemma_find_from_bounds(s, c, 0);
}

proof fn lemma_find_last_before_bounds(s: Seq<char>, c: char, j: int)
    requires
        j <= s.len(),
    ensures
        match find_last_before(s, c, j) {
            Some(k) => 0 <= k < j && k < s.len() && s[k] == c
                && forall|m: int| k < m < j ==> s[m] != c,
            None => forall|m: int| 0 <= m < j && m < s.len() ==> s[m] != c,
        },
    decreases j,
{
    if j <= 0 {
    } else if s[j - 1] == c {
    } else {
        lemma_find_last_before_bounds(s, c, j - 1);
    }
}

/// What `find_last` gives: the greatest index holding `c`, or none.
pub proof fn lemma_find_last_bounds(s: Seq<char>, c: char)
    ensures
        match find_last(s, c) {
            Some(k) => 0 <= k < s.len() && s[k] == c && forall|m: int| k < m < s.len() ==> s[m] != c,
            None => forall|m: int| 0 <= m < s.len() ==> s[m] != c,
        },
{
    lemma_find_last_before_bounds(s, c, s.len() as int);
}

// ── Decimal conversion ───────────────────────────────────────────────────────

fn digit(d: u64) -> (c: char)
    requires
        d < 10,
    ensures
        c == digit_char(d as nat),
{
    if d == 0 { '0' } else if d == 1 { '1' } else if d == 2 { '2' } else if d == 3 { '3' }
    else if d == 4 { '4' } else if d == 5 { '5' } else if d == 6 { '6' } else if d == 7 { '7' }
    else if d == 8 { '8' } else { '9' }
}

/// Appends the decimal digits of `n` to `s`.
pub fn push_dec(s: &mut String, n: u64)
    ensures
        final(s)@ == old(s)@ + dec(n as nat),
    decreases n,
{
    if n < 10 {
        push_char(s, digit(n));
        assert(old(s)@.push(digit_char(n as nat)) =~= old(s)@ + dec(n as nat));
    } else {
        push_dec(s, n / 10);
        push_char(s, digit(n % 10));
        assert(dec(n as nat) == dec((n / 10) as nat).push(digit_char((n % 10) as nat)));
        assert((old(s)@ + dec((n / 10) as nat)).push(digit_char((n % 10) as nat))
            =~= old(s)@ + dec(n as nat));
    }
}

/// Appends `n` padded with zeros to two digits.
pub fn push_dec2(s: &mut String, n: u64)
    requires
        n < 100,
    ensures
        final(s)@ == old(s)@ + dec2(n as nat),
{
    if n < 10 {
        push_char(s, '0');
        push_dec(s, n);
        assert(old(s)@.push('0') + dec(n as nat) =~= old(s)@ + (seq!['0'] + dec(n as nat)));
    } else {
        push_dec(s, n);
    }
}

/// Appends a signed number as `Display` writes it.
pub fn push_dec_i64(s: &mut String, v: i64)
    ensures
        final(s)@ == old(s)@ + dec_signed(v as int),
{
    if v < 0 {
        push_char(s, '-');
        let m: u64 = if v == i64::MIN { 9223372036854775808u64 } else { (-v) as u64 };
        push_dec(s, m);
        assert(old(s)@.push('-') + dec(m as nat) =~= old(s)@ + (seq!['-'] + dec(m as nat)));
    } else {
        push_dec(s, v as u64);
    }
}

proof fn lemma_digits_step(s: Seq<char>, i: int)
    requires
        0 <= i < s.len(),
    ensures
        digits_value(s.subrange(0, i + 1)) == 10 * digits_value(s.subrange(0, i)) + digit_value(s[i]),
{
    assert(s.subrange(0, i + 1).drop_last() =~= s.subrange(0, i));
}

proof fn lemma_cap_step(v: nat, d: nat, cap: nat)
    requires
        d < 10,
    ensures
        (if 10 * (if v < cap { v } else { cap }) + d < cap { 10 * (if v < cap { v } else { cap }) + d } else { cap })
            == (if 10 * v + d < cap { 10 * v + d } else { cap }),
{
    if v >= cap {
        assert(10 * v + d >= cap) by (nonlinear_arith)
            requires v >= cap;
        assert(10 * cap + d >= cap) by (nonlinear_arith);
    }
}

/// The value of the decimal digits `v[lo..hi]`, capped at `cap`.
fn digits_capped(v: &Vec<char>, lo: usize, hi: usize, cap: u128) -> (r: (bool, u128))
    requires
        lo <= hi <= v@.len(),
        cap <= u128::MAX / 16,
    ensures
        r.0 == all_digits(v@.subrange(lo as int, hi as int)),
        r.0 ==> r.1 == (if digits_value(v@.subrange(lo as int, hi as int)) < cap {
            digits_value(v@.subrange(lo as int, hi as int))
        } else {
            cap as nat
        }),
{
    let ghost s = v@.subrange(lo as int, hi as int);
    let mut acc: u128 = 0;
    let mut i: usize = lo;
    assert(s.subrange(0, 0) =~= Seq::<char>::empty());
    while i < hi
        invariant
            lo <= i <= hi <= v@.len(),
            s == v@.subrange(lo as int, hi as int),
            cap <= u128::MAX / 16,
            all_digits(s.subrange(0, i - lo)),
            acc == (if digits_value(s.subrange(0, i - lo)) < cap {
                digits_value(s.subrange(0, i - lo))
            } else {
                cap as nat
            }),
        decreases hi - i,
    {
        let c = v[i];
        if !('0' <= c && c <= '9') {
            assert(!is_digit(s[i - lo]));
            return (false, 0);
        }
        let d: u128 = ((c as u32) - ('0' as u32)) as u128;
        proof {
            lemma_digits_step(s, i - lo);
            lemma_cap_step(digits_value(s.subrange(0, i - lo)), d as nat, cap as nat);
        }
        let next: u128 = 10 * acc + d;
        acc = if next < cap { next } else { cap };
        i = i + 1;
        assert forall|m: int| 0 <= m < i - lo implies is_digit(#[trigger] s.subrange(0, i - lo)[m]) by {
            if m < i - lo - 1 {
                assert(s.subrange(0, i - lo)[m] == s.subrange(0, i - lo - 1)[m]);
            }
        }
    }
    assert(s.subrange(0, hi - lo) =~= s);
    (true, acc)
}

/// `str::parse` for an unsigned type whose largest value is `max`.
pub fn parse_unsigned_vec(v: &Vec<char>, lo: usize, hi: usize, max: u64) -> (r: Option<u64>)
    requires
        lo <= hi <= v@.len(),
        max < u64::MAX / 16,
    ensures
        match r {
            Some(n) => parse_unsigned(v@.subrange(lo as int, hi as int), max as nat) == Some(n as nat),
            None => parse_unsigned(v@.subrange(lo as int, hi as int), max as nat) is None,
        },
{
    let ghost s = v@.subrange(lo as int, hi as int);
    let start: usize = if lo < hi && v[lo] == '+' { lo + 1 } else { lo };
    assert(v@.subrange(start as int, hi as int) =~= (if s.len() > 0 && s[0] == '+' { s.drop_first() } else { s }));
    if start >= hi {
        return None;
    }
    let (ok, n) = digits_capped(v, start, hi, max as u128 + 1);
    if ok && n <= max as u128 {
        Some(n as u64)
    } else {
        None
    }
}

/// `str::parse::<i64>`.
pub fn parse_i64_vec(v: &Vec<char>, lo: usize, hi: usize) -> (r: Option<i64>)
    requires
        lo <= hi <= v@.len(),
    ensures
        match r {
            Some(n) => parse_i64(v@.subrange(lo as int, hi as int)) == Some(n as int),
            None => parse_i64(v@.subrange(lo as int, hi as int)) is None,
        },
{
    let ghost s = v@.subrange(lo as int, hi as int);
    let neg = lo < hi && v[lo] == '-';
    let start: usize = if lo < hi && (v[lo] == '+' || v[lo] == '-') { lo + 1 } else { lo };
    assert(v@.subrange(start as int, hi as int)
        =~= (if s.len() > 0 && (s[0] == '+' || s[0] == '-') { s.drop_first() } else { s }));
    if start >= hi {
        return None;
    }
    let cap: u128 = 9223372036854775809u128;
    let (ok, n) = digits_capped(v, start, hi, cap);
    if !ok {
        return None;
    }
    if neg {
        if n <= 9223372036854775808u128 {
            if n == 9223372036854775808u128 {
                Some(i64::MIN)
            } else {
                Some(-(n as i64))
            }
        } else {
            None
        }
    } else {
        if n <= 9223372036854775807u128 {
            Some(n as i64)
        } else {
            None
        }
    }
}

// ── Lemmas on trimming ───────────────────────────────────────────────────────

proof fn lemma_skip_from_stops(s: Seq<char>, q: Option<char>, i: int, k: int)
    requires
        0 <= i <= k < s.len(),
        !is_trimmed(s[k], q),
    ensures
        i <= skip_from(s, q, i) <= k,
    decreases k - i,
{
    if is_trimmed(s[i], q) {
        lemma_skip_from_stops(s, q, i + 1, k);
    }
}

proof fn lemma_cut_before_stops(s: Seq<char>, q: Option<char>, j: int, k: int)
    requires
        0 <= k < j <= s.len(),
        !is_trimmed(s[k], q),
    ensures
        k < cut_before(s, q, j) <= j,
    decreases j,
{
    if is_trimmed(s[j - 1], q) {
        lemma_cut_before_stops(s, q, j - 1, k);
    }
}

proof fn lemma_skip_from_facts(s: Seq<char>, q: Option<char>, i: int)
    requires
        0 <= i <= s.len(),
    ensures
        i <= skip_from(s, q, i) <= s.len(),
        forall|m: int| i <= m < skip_from(s, q, i) ==> is_trimmed(#[trigger] s[m], q),
        skip_from(s, q, i) < s.len() ==> !is_trimmed(s[skip_from(s, q, i)], q),
    decreases s.len() - i,
{
    if i < s.len() && is_trimmed(s[i], q) {
        lemma_skip_from_facts(s, q, i + 1);
    }
}

proof fn lemma_cut_before_facts(s: Seq<char>, q: Option<char>, j: int)
    requires
        0 <= j <= s.len(),
    ensures
        0 <= cut_before(s, q, j) <= j,
        forall|m: int| cut_before(s, q, j) <= m < j ==> is_trimmed(#[trigger] s[m], q),
        cut_before(s, q, j) > 0 ==> !is_trimmed(s[cut_before(s, q, j) - 1], q),
    decreases j,
{
    if 0 < j && is_trimmed(s[j - 1], q) {
        lemma_cut_before_facts(s, q, j - 1);
    }
}

/// What a trim leaves is the piece `s[lo..hi]`: everything cut off is
/// matched by `q`, and a non-empty piece neither starts nor ends with a
/// character matched by `q`.
pub proof fn lemma_trim_piece(s: Seq<char>, q: Option<char>) -> (r: (int, int))
    ensures
        0 <= r.0 <= r.1 <= s.len(),
        trim_by(s, q) == s.subrange(r.0, r.1),
        forall|m: int| (0 <= m < r.0 || r.1 <= m < s.len()) ==> is_trimmed(#[trigger] s[m], q),
        r.0 < r.1 ==> !is_trimmed(s[r.0], q) && !is_trimmed(s[r.1 - 1], q),
{
    lemma_skip_from_facts(s, q, 0);
    let a = skip_from(s, q, 0);
    let t = trim_start_by(s, q);
    assert(t =~= s.subrange(a, s.len() as int));
    lemma_cut_before_facts(t, q, t.len() as int);
    let c = cut_before(t, q, t.len() as int);
    assert(trim_by(s, q) =~= s.subrange(a, a + c));
    assert forall|m: int| (0 <= m < a || a + c <= m < s.len()) implies is_trimmed(#[trigger] s[m], q) by {
        if m >= a + c {
            assert(s[m] == t[m - a]);
        }
    }
    if c > 0 {
        assert(s[a + c - 1] == t[c - 1]);
    }
    (a, a + c)
}

/// A character that a trim does not remove survives the trim.
pub proof fn lemma_trim_keeps(s: Seq<char>, q: Option<char>, c: char)
    requires
        has_char(s, c),
        !is_trimmed(c, q),
    ensures
        has_char(trim_by(s, q), c),
{
    let k = choose|k: int| 0 <= k < s.len() && s[k] == c;
    lemma_skip_from_stops(s, q, 0, k);
    let a = skip_from(s, q, 0);
    let t = trim_start_by(s, q);
    assert(t[k - a] == c);
    lemma_cut_before_stops(t, q, t.len() as int, k - a);
    let u = trim_end_by(t, q);
    assert(u[k - a] == c);
}

// ── Lemmas on decimal text ───────────────────────────────────────────────────

proof fn lemma_digit_char(d: nat)
    requires
        d < 10,
    ensures
        is_digit(digit_char(d)),
        digit_value(digit_char(d)) == d,
{
}

/// Decimal text is non-empty, made of digits, and denotes its number.
pub proof fn lemma_dec(n: nat)
    ensures
        dec(n).len() > 0,
        all_digits(dec(n)),
        digits_value(dec(n)) == n,
    decreases n,
{
    lemma_digit_char(n % 10);
    if n < 10 {
        assert(dec(n).drop_last() =~= Seq::<char>::empty());
        assert(digits_value(Seq::<char>::empty()) == 0);
        assert(dec(n).last() == digit_char(n));
        assert(n % 10 == n);
        assert(digits_value(dec(n)) == 10 * digits_value(dec(n).drop_last()) + digit_value(dec(n).last()));
    } else {
        lemma_dec(n / 10);
        assert(dec(n).drop_last() =~= dec(n / 10));
        assert(dec(n).last() == digit_char(n % 10));
        assert(digits_value(dec(n)) == 10 * digits_value(dec(n).drop_last()) + digit_value(dec(n).last()));
        assert(10 * (n / 10) + n % 10 == n);
        assert forall|i: int| 0 <= i < dec(n).len() implies is_digit(#[trigger] dec(n)[i]) by {
            if i < dec(n).len() - 1 {
                assert(dec(n)[i] == dec(n / 10)[i]);
            }
        }
    }
}

/// Parsing the decimal text of a number in range gives the number back.
pub proof fn lemma_parse_dec(n: nat, max: nat)
    requires
        n <= max,
    ensures
        parse_unsigned(dec(n), max) == Some(n),
{
    lemma_dec(n);
    assert(is_digit(dec(n)[0]));
}

/// Parsing what `Display` writes for an `i64` gives it back.
pub proof fn lemma_parse_dec_signed(v: i64)
    ensures
        parse_i64(dec_signed(v as int)) == Some(v as int),
{
    if v < 0 {
        let m = (-v) as nat;
        lemma_dec(m);
        let s = dec_signed(v as int);
        assert(s.drop_first() =~= dec(m));
    } else {
        lemma_dec(v as nat);
        assert(is_digit(dec(v as nat)[0]));
    }
}

/// Decimal text holds no character other than digits.
pub proof fn lemma_dec_lacks(n: nat, c: char)
    requires
        !is_digit(c),
    ensures
        !has_char(dec(n), c),
{
    lemma_dec(n);
}

/// The first `c` at or after `start` is at `k` when `s[start..k]` holds no `c`.
pub proof fn lemma_find_from_at(s: Seq<char>, c: char, start: int, k: int)
    requires
        0 <= start <= k < s.len(),
        s[k] == c,
        forall|m: int| start <= m < k ==> s[m] != c,
    ensures
        find_from(s, c, start) == Some(k),
    decreases k - start,
{
    if start < k {
        lemma_find_from_at(s, c, start + 1, k);
    }
}

/// No `c` is found after `start` when `s[start..]` holds none.
pub proof fn lemma_find_from_none(s: Seq<char>, c: char, start: int)
    requires
        0 <= start,
        forall|m: int| start <= m < s.len() ==> s[m] != c,
    ensures
        find_from(s, c, start) is None,
    decreases s.len() - start,
{
    if start < s.len() {
        lemma_find_from_none(s, c, start + 1);
    }
}

/// The pieces of `s[start..]` split at `sep`, at most `n` of them, the
/// last one holding the rest (`str::splitn(n, sep)`).
pub open spec fn fields_from(s: Seq<char>, sep: char, start: int, n: nat) -> Seq<Seq<char>>
    decreases n,
{
    if n <= 1 {
        seq![s.subrange(start, s.len() as int)]
    } else {
        match find_from(s, sep, start) {
            None => seq![s.subrange(start, s.len() as int)],
            Some(i) => seq![s.subrange(start, i)] + fields_from(s, sep, i + 1, (n - 1) as nat),
        }
    }
}

/// The index of the first `c` in `v` at or after `start`.
pub fn find_after(v: &Vec<char>, c: char, start: usize) -> (r: Option<usize>)
    requires
        start <= v@.len(),
    ensures
        match r {
            Some(i) => find_from(v@, c, start as int) == Some(i as int) && start <= i < v@.len(),
            None => find_from(v@, c, start as int) is None,
        },
{
    let mut i: usize = start;
    while i < v.len()
        invariant
            start <= i <= v@.len(),
            find_from(v@, c, start as int) == find_from(v@, c, i as int),
        decreases v@.len() - i,
    {
        if v[i] == c {
            return Some(i);
        }
        i = i + 1;
    }
    None
}

} // verus!
