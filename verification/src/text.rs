//! Character-level text helpers shared by the SQL builders and the
//! spreadsheet readers: whitespace handling, decimal formatting and
//! parsing of `i32`, prefix and substring tests.
use vstd::prelude::*;

verus! {

// ---------------------------------------------------------------------
// Whitespace
// ---------------------------------------------------------------------

/// The Unicode `White_Space` property (PropList.txt), which is what
/// `char::is_whitespace` tests.
pub open spec fn is_ws(c: char) -> bool {
    ||| ('\u{9}' <= c && c <= '\u{d}')
    ||| c == ' '
    ||| c == '\u{85}'
    ||| c == '\u{a0}'
    ||| c == '\u{1680}'
    ||| ('\u{2000}' <= c && c <= '\u{200a}')
    ||| c == '\u{2028}'
    ||| c == '\u{2029}'
    ||| c == '\u{202f}'
    ||| c == '\u{205f}'
    ||| c == '\u{3000}'
}

/// `char::is_whitespace`: true exactly for the characters that have the
/// Unicode `White_Space` property, as its documentation states.
#[verifier::external_body]
pub(crate) fn char_is_whitespace(c: char) -> (r: bool)
    ensures
        r == is_ws(c),
{
    c.is_whitespace()
}

/// `String::push`: appends one character at the end.
#[verifier::external_body]
pub(crate) fn push_char(s: &mut String, c: char)
    ensures
        final(s)@ == old(s)@.push(c),
{
    s.push(c)
}

/// The characters of `s` that are not whitespace, in their order.
pub open spec fn strip_ws(s: Seq<char>) -> Seq<char>
    decreases s.len(),
{
    if s.len() == 0 {
        s
    } else if is_ws(s.last()) {
        strip_ws(s.drop_last())
    } else {
        strip_ws(s.drop_last()).push(s.last())
    }
}

/// Removing whitespace leaves no whitespace behind, and removing it once
/// more changes nothing.
pub proof fn lemma_strip_ws_laws(s: Seq<char>)
    ensures
        forall|i: int| 0 <= i < strip_ws(s).len() ==> !is_ws(#[trigger] strip_ws(s)[i]),
        strip_ws(strip_ws(s)) == strip_ws(s),
    decreases s.len(),
{
    if s.len() > 0 {
        let d = s.drop_last();
        lemma_strip_ws_laws(d);
        let t = strip_ws(d);
        if !is_ws(s.last()) {
            let u = t.push(s.last());
            assert(u.drop_last() =~= t);
            assert(u.last() == s.last());
            assert forall|i: int| 0 <= i < u.len() implies !is_ws(#[trigger] u[i]) by {
                if i < t.len() {
                    assert(u[i] == t[i]);
                }
            }
        }
    }
}

/// Drops the leading whitespace.
pub open spec fn trim_start_seq(s: Seq<char>) -> Seq<char>
    decreases s.len(),
{
    if s.len() > 0 && is_ws(s[0]) {
        trim_start_seq(s.drop_first())
    } else {
        s
    }
}

/// Drops the trailing whitespace.
pub open spec fn trim_end_seq(s: Seq<char>) -> Seq<char>
    decreases s.len(),
{
    if s.len() > 0 && is_ws(s.last()) {
        trim_end_seq(s.drop_last())
    } else {
        s
    }
}

/// What `str::trim` gives back: `s` without leading and trailing whitespace.
pub open spec fn trim_seq(s: Seq<char>) -> Seq<char> {
    trim_end_seq(trim_start_seq(s))
}

/// A copy of `s` with every whitespace character removed.
pub fn remove_whitespace_str(s: &str) -> (r: String)
    ensures
        r@ == strip_ws(s@),
{
    let n = s.unicode_len();
    let mut r = String::new();
    let mut i: usize = 0;
    while i < n
        invariant
            n == s@.len(),
            i <= n,
            r@ == strip_ws(s@.take(i as int)),
        decreases n - i,
    {
        let c = s.get_char(i);
        assert(s@.take(i + 1).drop_last() =~= s@.take(i as int));
        if !char_is_whitespace(c) {
            push_char(&mut r, c);
        }
        i = i + 1;
    }
    assert(s@.take(n as int) =~= s@);
    r
}

/// Removes every whitespace character of `s` in place.
pub fn remove_whitespace_string(s: &mut String)
    ensures
        final(s)@ == strip_ws(old(s)@),
{
    let t = remove_whitespace_str(s.as_str());
    *s = t;
}

/// `s` without leading and trailing whitespace, as an owned string.
pub fn trim_to_string(s: &str) -> (r: String)
    ensures
        r@ == trim_seq(s@),
{
    let n = s.unicode_len();
    let mut i: usize = 0;
    assert(s@.subrange(0, n as int) =~= s@);
    while i < n && char_is_whitespace(s.get_char(i))
        invariant
            n == s@.len(),
            i <= n,
            trim_start_seq(s@) == trim_start_seq(s@.subrange(i as int, n as int)),
        decreases n - i,
    {
        assert(s@.subrange(i as int, n as int).drop_first() =~= s@.subrange(i + 1, n as int));
        i = i + 1;
    }
    assert(trim_start_seq(s@) == s@.subrange(i as int, n as int));
    let mut j: usize = n;
    while j > i && char_is_whitespace(s.get_char(j - 1))
        invariant
            n == s@.len(),
            i <= j <= n,
            trim_seq(s@) == trim_end_seq(s@.subrange(i as int, j as int)),
        decreases j,
    {
        assert(s@.subrange(i as int, j as int).drop_last() =~= s@.subrange(i as int, j - 1));
        j = j - 1;
    }
    let sub = s.substring_char(i, j);
    String::from_str(sub)
}

// ---------------------------------------------------------------------
// Prefixes and substrings
// ---------------------------------------------------------------------

/// `p` occurs in `s` at position `i`.
pub open spec fn occurs_at(s: Seq<char>, p: Seq<char>, i: int) -> bool {
    0 <= i && i + p.len() <= s.len() && s.subrange(i, i + p.len()) == p
}

/// `p` occurs somewhere in `s` (the empty string occurs everywhere).
pub open spec fn seq_contains(s: Seq<char>, p: Seq<char>) -> bool {
    exists|i: int| occurs_at(s, p, i)
}

fn matches_at(s: &str, p: &str, i: usize) -> (r: bool)
    requires
        i + p@.len() <= s@.len(),
    ensures
        r == occurs_at(s@, p@, i as int),
{
    let n = s.unicode_len();
    let m = p.unicode_len();
    let mut k: usize = 0;
    while k < m
        invariant
            n == s@.len(),
            m == p@.len(),
            i + m <= s@.len(),
            k <= m,
            forall|t: int| 0 <= t < k ==> s@[i + t] == p@[t],
        decreases m - k,
    {
        if s.get_char(i + k) != p.get_char(k) {
            assert(s@.subrange(i as int, i + m)[k as int] != p@[k as int]);
            return false;
        }
        k = k + 1;
    }
    assert(s@.subrange(i as int, i + m) =~= p@);
    true
}

/// Whether two texts are the same.
pub fn str_eq(a: &str, b: &str) -> (r: bool)
    ensures
        r == (a@ == b@),
{
    let n = a.unicode_len();
    if n != b.unicode_len() {
        return false;
    }
    let r = matches_at(a, b, 0);
    assert(a@.subrange(0, n as int) =~= a@);
    r
}

/// `str::contains` for a string pattern.
pub fn str_contains(s: &str, p: &str) -> (r: bool)
    ensures
        r == seq_contains(s@, p@),
{
    let n = s.unicode_len();
    let m = p.unicode_len();
    if m > n {
        return false;
    }
    if m == 0 {
        assert(s@.subrange(0, 0) =~= p@);
        assert(occurs_at(s@, p@, 0));
        return true;
    }
    let mut i: usize = 0;
    while i <= n - m
        invariant
            n == s@.len(),
            m == p@.len(),
            1 <= m <= n,
            i <= n - m + 1,
            forall|t: int| 0 <= t < i ==> !occurs_at(s@, p@, t),
        decreases n - i,
    {
        if matches_at(s, p, i) {
            return true;
        }
        i = i + 1;
    }
    assert forall|t: int| !occurs_at(s@, p@, t) by {
        if 0 <= t && t + m <= n {
            assert(t < i);
        }
    }
    false
}

/// What `s.strip_prefix(p).unwrap_or("")` gives: the rest of `s` after
/// `p` when `s` starts with `p`, otherwise the empty string.
pub open spec fn strip_prefix_or_empty_seq(s: Seq<char>, p: Seq<char>) -> Seq<char> {
    if p.len() <= s.len() && s.take(p.len() as int) == p {
        s.skip(p.len() as int)
    } else {
        Seq::empty()
    }
}

/// `s.strip_prefix(p).unwrap_or("")` as an owned string.
pub fn strip_prefix_or_empty(s: &str, p: &str) -> (r: String)
    ensures
        r@ == strip_prefix_or_empty_seq(s@, p@),
{
    let n = s.unicode_len();
    let m = p.unicode_len();
    if m <= n && matches_at(s, p, 0) {
        assert(s@.subrange(0, m as int) =~= s@.take(m as int));
        let rest = s.substring_char(m, n);
        assert(rest@ =~= s@.skip(m as int));
        String::from_str(rest)
    } else {
        proof {
            if m <= n && s@.take(m as int) == p@ {
                assert(s@.subrange(0, m as int) =~= s@.take(m as int));
            }
        }
        String::new()
    }
}

// ---------------------------------------------------------------------
// Decimal integers
// ---------------------------------------------------------------------

/// The decimal digit for `d` (`0 <= d < 10`).
pub open spec fn digit_char(d: int) -> char {
    if d == 0 {
        '0'
    } else if d == 1 {
        '1'
    } else if d == 2 {
        '2'
    } else if d == 3 {
        '3'
    } else if d == 4 {
        '4'
    } else if d == 5 {
        '5'
    } else if d == 6 {
        '6'
    } else if d == 7 {
        '7'
    } else if d == 8 {
        '8'
    } else {
        '9'
    }
}

/// Decimal notation of a natural number, without leading zeros.
pub open spec fn nat_str(n: nat) -> Seq<char>
    decreases n,
{
    if n < 10 {
        seq![digit_char(n as int)]
    } else {
        nat_str(n / 10).push(digit_char((n % 10) as int))
    }
}

/// Decimal notation of an integer, as `Display` writes it: a minus sign
/// for negative numbers, no sign otherwise.
pub open spec fn int_str(x: int) -> Seq<char> {
    if x < 0 {
        seq!['-'] + nat_str((-x) as nat)
    } else {
        nat_str(x as nat)
    }
}

fn digit_to_char(d: u64) -> (c: char)
    requires
        d < 10,
    ensures
        c == digit_char(d as int),
{
    if d == 0 {
        '0'
    } else if d == 1 {
        '1'
    } else if d == 2 {
        '2'
    } else if d == 3 {
        '3'
    } else if d == 4 {
        '4'
    } else if d == 5 {
        '5'
    } else if d == 6 {
        '6'
    } else if d == 7 {
        '7'
    } else if d == 8 {
        '8'
    } else {
        '9'
    }
}

/// Appends the decimal notation of `n` to `s`.
pub fn push_nat(s: &mut String, n: u64)
    ensures
        final(s)@ == old(s)@ + nat_str(n as nat),
    decreases n,
{
    if n >= 10 {
        push_nat(s, n / 10);
    }
    push_char(s, digit_to_char(n % 10));
    assert(final(s)@ =~= old(s)@ + nat_str(n as nat));
}

/// Appends the decimal notation of `x` to `s`.
pub fn push_i32(s: &mut String, x: i32)
    ensures
        final(s)@ == old(s)@ + int_str(x as int),
{
    if x < 0 {
        push_char(s, '-');
        let m: i64 = -(x as i64);
        push_nat(s, m as u64);
        assert(final(s)@ =~= old(s)@ + int_str(x as int));
    } else {
        push_nat(s, x as u64);
    }
}

/// `x.to_string()` for an `i32`.
pub fn i32_to_string(x: i32) -> (r: String)
    ensures
        r@ == int_str(x as int),
{
    let mut r = String::new();
    push_i32(&mut r, x);
    assert(r@ =~= int_str(x as int));
    r
}

pub open spec fn is_digit(c: char) -> bool {
    '0' <= c && c <= '9'
}

pub open spec fn digit_val(c: char) -> int {
    (c as int) - 48
}

pub open spec fn all_digits(s: Seq<char>) -> bool {
    forall|i: int| 0 <= i < s.len() ==> is_digit(#[trigger] s[i])
}

/// Value of a string of decimal digits.
pub open spec fn digits_val(s: Seq<char>) -> int
    decreases s.len(),
{
    if s.len() == 0 {
        0
    } else {
        digits_val(s.drop_last()) * 10 + digit_val(s.last())
    }
}

/// What `s.parse::<i32>()` accepts: an optional `+` or `-` followed by at
/// least one decimal digit and nothing else, whose value fits in `i32`.
pub open spec fn spec_parse_i32(s: Seq<char>) -> Option<i32> {
    let signed = s.len() > 0 && (s[0] == '-' || s[0] == '+');
    let neg = s.len() > 0 && s[0] == '-';
    let body = if signed {
        s.drop_first()
    } else {
        s
    };
    if body.len() == 0 || !all_digits(body) {
        None
    } else {
        let v = if neg {
            -digits_val(body)
        } else {
            digits_val(body)
        };
        if i32::MIN <= v && v <= i32::MAX {
            Some(v as i32)
        } else {
            None
        }
    }
}

proof fn lemma_digits_val_nonneg(s: Seq<char>)
    requires
        all_digits(s),
    ensures
        digits_val(s) >= 0,
    decreases s.len(),
{
    if s.len() > 0 {
        lemma_digits_val_nonneg(s.drop_last());
        assert(is_digit(s[s.len() - 1]));
    }
}

proof fn lemma_digits_val_prefix(s: Seq<char>, k: int)
    requires
        all_digits(s),
        0 <= k <= s.len(),
    ensures
        digits_val(s.take(k)) <= digits_val(s),
    decreases s.len(),
{
    if k == s.len() {
        assert(s.take(k) =~= s);
    } else {
        let t = s.drop_last();
        assert(all_digits(t));
        lemma_digits_val_prefix(t, k);
        assert(t.take(k) =~= s.take(k));
        lemma_digits_val_nonneg(t);
        assert(is_digit(s[s.len() - 1]));
    }
}

proof fn lemma_nat_str_digits(n: nat)
    ensures
        nat_str(n).len() > 0,
        all_digits(nat_str(n)),
        digits_val(nat_str(n)) == n,
    decreases n,
{
    if n >= 10 {
        lemma_nat_str_digits(n / 10);
        let t = nat_str(n / 10);
        let d = (n % 10) as int;
        let u = t.push(digit_char(d));
        assert(u.drop_last() =~= t);
        assert(is_digit(digit_char(d)) && digit_val(digit_char(d)) == d);
        assert forall|i: int| 0 <= i < u.len() implies is_digit(#[trigger] u[i]) by {
            if i < t.len() {
                assert(u[i] == t[i]);
            }
        }
        assert(digits_val(u) == digits_val(t) * 10 + d);
        assert((n / 10) * 10 + n % 10 == n) by (nonlinear_arith);
    } else {
        assert(is_digit(digit_char(n as int)) && digit_val(digit_char(n as int)) == n);
        let u = seq![digit_char(n as int)];
        assert(u.drop_last() =~= Seq::<char>::empty());
        assert(u.last() == digit_char(n as int));
        assert(digits_val(u) == digits_val(u.drop_last()) * 10 + digit_val(u.last()));
        assert(digits_val(Seq::<char>::empty()) == 0);
    }
}

/// Reading back the decimal notation of a number gives the number.
pub proof fn lemma_parse_displayed_i32(x: i32)
    ensures
        spec_parse_i32(int_str(x as int)) == Some(x),
{
    if x < 0 {
        let m = (-x) as nat;
        lemma_nat_str_digits(m);
        let s = int_str(x as int);
        assert(s[0] == '-');
        assert(s.drop_first() =~= nat_str(m));
    } else {
        lemma_nat_str_digits(x as nat);
        let s = nat_str(x as nat);
        assert(is_digit(s[0]));
    }
}

/// `s.parse::<i32>().ok()`.
pub fn parse_i32(s: &str) -> (r: Option<i32>)
    ensures
        r == spec_parse_i32(s@),
{
    let n = s.unicode_len();
    let mut start: usize = 0;
    let mut neg = false;
    if n > 0 {
        let c0 = s.get_char(0);
        if c0 == '-' {
            start = 1;
            neg = true;
        } else if c0 == '+' {
            start = 1;
        }
    }
    let ghost body = if start == 1 {
        s@.drop_first()
    } else {
        s@
    };
    assert(body =~= s@.subrange(start as int, n as int));
    assert(neg == (s@.len() > 0 && s@[0] == '-'));
    assert((start == 1) == (s@.len() > 0 && (s@[0] == '-' || s@[0] == '+')));
    if start == n {
        return None;
    }
    let mut acc: i64 = 0;
    let mut k: usize = start;
    while k < n
        invariant
            n == s@.len(),
            start <= k <= n,
            start <= 1,
            body == s@.subrange(start as int, n as int),
            neg == (s@.len() > 0 && s@[0] == '-'),
            (start == 1) == (s@.len() > 0 && (s@[0] == '-' || s@[0] == '+')),
            body == (if start == 1 {
                s@.drop_first()
            } else {
                s@
            }),
            all_digits(body.take(k - start)),
            acc == digits_val(body.take(k - start)),
            0 <= acc <= 2147483648,
        decreases n - k,
    {
        let c = s.get_char(k);
        if !('0' <= c && c <= '9') {
            assert(body[k - start] == c);
            assert(!is_digit(body[k - start]));
            assert(!all_digits(body));
            return None;
        }
        let d = (c as u32 - 48) as i64;
        let ghost pre = body.take(k - start);
        assert(body.take(k + 1 - start).drop_last() =~= pre);
        assert(body.take(k + 1 - start).last() == c);
        acc = acc * 10 + d;
        k = k + 1;
        assert(all_digits(body.take(k - start)));
        if acc > 2147483648 {
            proof {
                assert(body.take(k - start) =~= body.take(k - start));
                if all_digits(body) {
                    lemma_digits_val_prefix(body, k - start);
                    assert(digits_val(body) > 2147483648);
                }
            }
            return None;
        }
    }
    assert(body.take(k - start) =~= body);
    assert(all_digits(body));
    assert(body.len() > 0);
    assert(neg == (s@.len() > 0 && s@[0] == '-'));
    if neg {
        let v: i64 = -acc;
        Some(v as i32)
    } else {
        if acc > 2147483647 {
            None
        } else {
            Some(acc as i32)
        }
    }
}

/// `s.parse::<i32>().unwrap_or(0)`.
pub fn parse_i32_or_zero(s: &str) -> (r: i32)
    ensures
        r == match spec_parse_i32(s@) {
            Some(v) => v,
            None => 0,
        },
{
    match parse_i32(s) {
        Some(v) => v,
        None => 0,
    }
}

} // verus!
