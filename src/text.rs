//! Character-level helpers shared by the outline scanner and the
//! content cleaner. Text is scanned as a vector of characters; a window
//! `[p, end)` bounds every search, as a pattern match on a slice would.
use vstd::prelude::*;

verus! {

/// Relies on `String::push`, which appends one character to the string.
pub assume_specification[ String::push ](s: &mut String, ch: char)
    ensures
        final(s)@ == old(s)@.push(ch),
;

/// The characters of `s`, in order.
pub fn chars_of(s: &str) -> (r: Vec<char>)
    ensures
        r@ == s@,
{
    let mut v: Vec<char> = Vec::new();
    for c in it: s.chars()
        invariant
            v@ == it.seq().take(it.index() as int),
    {
        v.push(c);
    }
    v
}

/// `w` occurs in `t` at `p` and ends no later than `end`.
pub open spec fn occurs_at(t: Seq<char>, p: int, w: Seq<char>, end: int) -> bool {
    0 <= p && p + w.len() <= end && end <= t.len() && t.subrange(p, p + w.len()) == w
}

pub open spec fn is_digit(c: char) -> bool {
    '0' <= c && c <= '9'
}

/// The first index at or after `p` (and before `end`) that holds no digit, or `end`.
pub open spec fn digits_end(t: Seq<char>, p: int, end: int) -> int
    decreases end - p,
{
    if p >= end || !is_digit(t[p]) {
        p
    } else {
        digits_end(t, p + 1, end)
    }
}

/// The first index at or after `p` (and before `end`) that holds a line break, or `end`.
pub open spec fn line_end(t: Seq<char>, p: int, end: int) -> int
    decreases end - p,
{
    if p >= end || t[p] == '\n' {
        p
    } else {
        line_end(t, p + 1, end)
    }
}

/// The number that a run of decimal digits stands for.
pub open spec fn decimal_value(s: Seq<char>) -> nat
    decreases s.len(),
{
    if s.len() == 0 {
        0
    } else {
        decimal_value(s.drop_last()) * 10 + (s.last() as nat - '0' as nat) as nat
    }
}

/// The decimal value of a digit run when it is at most `limit`, else `fallback`.
pub open spec fn value_or(s: Seq<char>, limit: nat, fallback: nat) -> nat {
    if decimal_value(s) <= limit {
        decimal_value(s)
    } else {
        fallback
    }
}

pub open spec fn digit_char(d: nat) -> char {
    let d = d % 10;
    if d == 0 {
        '0'
    } else if d == 1 {
        '1'
    } else if d == 2 {
        '2'
    } else if d == 3 {
        '3'
    } else if d == 4 {
        '4'
    } else if d == 5 {
        '5'
    } else if d == 6 {
        '6'
    } else if d == 7 {
        '7'
    } else if d == 8 {
        '8'
    } else {
        '9'
    }
}

/// The shortest decimal writing of `n`.
pub open spec fn decimal_text(n: nat) -> Seq<char>
    decreases n,
{
    if n < 10 {
        seq![digit_char(n)]
    } else {
        decimal_text(n / 10).push(digit_char(n % 10))
    }
}

pub proof fn lemma_digits_end_bounds(t: Seq<char>, p: int, end: int)
    requires
        0 <= p <= end <= t.len(),
    ensures
        p <= digits_end(t, p, end) <= end,
        forall|i: int| p <= i < digits_end(t, p, end) ==> is_digit(#[trigger] t[i]),
        digits_end(t, p, end) < end ==> !is_digit(t[digits_end(t, p, end)]),
    decreases end - p,
{
    if p < end && is_digit(t[p]) {
        lemma_digits_end_bounds(t, p + 1, end);
    }
}

pub proof fn lemma_line_end_bounds(t: Seq<char>, p: int, end: int)
    requires
        0 <= p <= end <= t.len(),
    ensures
        p <= line_end(t, p, end) <= end,
        forall|i: int| p <= i < line_end(t, p, end) ==> #[trigger] t[i] != '\n',
        line_end(t, p, end) < end ==> t[line_end(t, p, end)] == '\n',
    decreases end - p,
{
    if p < end && t[p] != '\n' {
        lemma_line_end_bounds(t, p + 1, end);
    }
}

/// Whether `w` occurs in `t` at `p`, ending no later than `end`.
pub fn occurs_at_exec(t: &Vec<char>, p: usize, w: &Vec<char>, end: usize) -> (r: bool)
    requires
        end <= t@.len(),
    ensures
        r == occurs_at(t@, p as int, w@, end as int),
{
    if p > end || w.len() > end - p {
        return false;
    }
    let mut i: usize = 0;
    while i < w.len()
        invariant
            p + w@.len() <= end <= t@.len(),
            0 <= i <= w@.len(),
            forall|k: int| 0 <= k < i ==> t@[p + k] == w@[k],
        decreases w@.len() - i,
    {
        if t[p + i] != w[i] {
            assert(t@.subrange(p as int, p + w@.len())[i as int] != w@[i as int]);
            return false;
        }
        i += 1;
    }
    assert(t@.subrange(p as int, p + w@.len()) =~= w@);
    true
}

/// Index just past the digit run that starts at `p`.
pub fn digits_end_exec(t: &Vec<char>, p: usize, end: usize) -> (r: usize)
    requires
        p <= end <= t@.len(),
    ensures
        r == digits_end(t@, p as int, end as int),
        p <= r <= end,
        forall|i: int| p <= i < r ==> is_digit(#[trigger] t@[i]),
{
    proof {
        lemma_digits_end_bounds(t@, p as int, end as int);
    }
    let mut i: usize = p;
    while i < end && '0' <= t[i] && t[i] <= '9'
        invariant
            p <= i <= end <= t@.len(),
            digits_end(t@, i as int, end as int) == digits_end(t@, p as int, end as int),
        decreases end - i,
    {
        i += 1;
    }
    i
}

/// Index of the first line break at or after `p`, or `end`.
pub fn line_end_exec(t: &Vec<char>, p: usize, end: usize) -> (r: usize)
    requires
        p <= end <= t@.len(),
    ensures
        r == line_end(t@, p as int, end as int),
        p <= r <= end,
        r < end ==> t@[r as int] == '\n',
{
    proof {
        lemma_line_end_bounds(t@, p as int, end as int);
    }
    let mut i: usize = p;
    while i < end && t[i] != '\n'
        invariant
            p <= i <= end <= t@.len(),
            line_end(t@, i as int, end as int) == line_end(t@, p as int, end as int),
        decreases end - i,
    {
        i += 1;
    }
    i
}

proof fn lemma_decimal_value_prefix(s: Seq<char>, k: int)
    requires
        0 <= k <= s.len(),
        forall|i: int| 0 <= i < s.len() ==> is_digit(#[trigger] s[i]),
    ensures
        decimal_value(s.take(k)) <= decimal_value(s),
    decreases s.len() - k,
{
    if k < s.len() {
        lemma_decimal_value_prefix(s, k + 1);
        assert(s.take(k + 1).drop_last() =~= s.take(k));
        let v = decimal_value(s.take(k));
        assert(v * 10 + (s.take(k + 1).last() as nat - '0' as nat) as nat >= v) by (nonlinear_arith);
    } else {
        assert(s.take(k) =~= s);
    }
}

/// Reads the digit run `t[s..e)`: its value when that is at most `limit`,
/// else `fallback`.
pub fn parse_digits(t: &Vec<char>, s: usize, e: usize, limit: u64, fallback: u64) -> (r: u64)
    requires
        s <= e <= t@.len(),
        forall|i: int| s <= i < e ==> is_digit(#[trigger] t@[i]),
    ensures
        r == value_or(t@.subrange(s as int, e as int), limit as nat, fallback as nat),
{
    let ghost run = t@.subrange(s as int, e as int);
    let mut acc: u64 = 0;
    let mut i: usize = s;
    while i < e
        invariant
            s <= i <= e <= t@.len(),
            run == t@.subrange(s as int, e as int),
            forall|k: int| s <= k < e ==> is_digit(#[trigger] t@[k]),
            acc as nat == decimal_value(run.take(i - s)),
            acc <= limit,
        decreases e - i,
    {
        let d = (t[i] as u32 - '0' as u32) as u64;
        proof {
            assert(run.take(i - s + 1).drop_last() =~= run.take(i - s));
            assert(run.take(i - s + 1).last() == t@[i as int]);
        }
        if d > limit || acc > (limit - d) / 10 {
            proof {
                if d <= limit {
                    assert(acc * 10 + d > limit) by (nonlinear_arith)
                        requires
                            acc > (limit - d) / 10,
                            d <= limit,
                    ;
                }
                lemma_decimal_value_prefix(run, i - s + 1);
                assert(run.take(run.len() as int) =~= run);
            }
            return fallback;
        }
        acc = acc * 10 + d;
        i += 1;
    }
    proof {
        assert(run.take(e - s) =~= run);
    }
    acc
}

/// Appends the shortest decimal writing of `n`.
pub fn append_decimal(acc: &mut String, n: u64)
    ensures
        final(acc)@ == old(acc)@ + decimal_text(n as nat),
    decreases n,
{
    if n >= 10 {
        append_decimal(acc, n / 10);
    }
    let d = n % 10;
    let c = if d == 0 {
        '0'
    } else if d == 1 {
        '1'
    } else if d == 2 {
        '2'
    } else if d == 3 {
        '3'
    } else if d == 4 {
        '4'
    } else if d == 5 {
        '5'
    } else if d == 6 {
        '6'
    } else if d == 7 {
        '7'
    } else if d == 8 {
        '8'
    } else {
        '9'
    };
    acc.push(c);
    proof {
        if n < 10 {
            assert(old(acc)@ + decimal_text(n as nat) =~= old(acc)@.push(c));
        } else {
            assert(old(acc)@ + decimal_text(n as nat) =~= (old(acc)@ + decimal_text((n / 10) as nat)).push(c));
        }
    }
}

/// Appends the characters `t[s..e)`.
pub fn append_range(acc: &mut String, t: &Vec<char>, s: usize, e: usize)
    requires
        s <= e <= t@.len(),
    ensures
        final(acc)@ == old(acc)@ + t@.subrange(s as int, e as int),
{
    let mut i: usize = s;
    while i < e
        invariant
            s <= i <= e <= t@.len(),
            acc@ == old(acc)@ + t@.subrange(s as int, i as int),
        decreases e - i,
    {
        acc.push(t[i]);
        proof {
            assert(t@.subrange(s as int, i + 1) =~= t@.subrange(s as int, i as int).push(t@[i as int]));
        }
        i += 1;
    }
}

} // verus!
