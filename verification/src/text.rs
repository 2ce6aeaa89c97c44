//! Decimal text: rendering and reading of unsigned integers.

use vstd::prelude::*;

verus! {

/// The character of the decimal digit `d` (for `0 <= d < 10`).
pub open spec fn digit_char(d: int) -> char {
    (d + 48) as char
}

/// Is `c` one of the ASCII digits `'0'..='9'`?
pub open spec fn is_digit(c: char) -> bool {
    48 <= (c as int) <= 57
}

/// The value of the ASCII digit `c`.
pub open spec fn digit_value(c: char) -> int {
    (c as int) - 48
}

/// The decimal representation of `n`, without leading zeros (`"0"` for zero).
pub open spec fn decimal(n: nat) -> Seq<char>
    decreases n,
{
    if n < 10 {
        seq![digit_char(n as int)]
    } else {
        decimal(n / 10).push(digit_char((n % 10) as int))
    }
}

/// The one-character string of the digit `d`.
fn digit_str(d: u64) -> (s: &'static str)
    requires
        d < 10,
    ensures
        s@ == seq![digit_char(d as int)],
{
    proof {
        reveal_strlit("0");
        reveal_strlit("1");
        reveal_strlit("2");
        reveal_strlit("3");
        reveal_strlit("4");
        reveal_strlit("5");
        reveal_strlit("6");
        reveal_strlit("7");
        reveal_strlit("8");
        reveal_strlit("9");
    }
    if d == 0 {
        "0"
    } else if d == 1 {
        "1"
    } else if d == 2 {
        "2"
    } else if d == 3 {
        "3"
    } else if d == 4 {
        "4"
    } else if d == 5 {
        "5"
    } else if d == 6 {
        "6"
    } else if d == 7 {
        "7"
    } else if d == 8 {
        "8"
    } else {
        "9"
    }
}

/// Renders `n` in decimal.
pub fn decimal_string(n: u64) -> (s: String)
    ensures
        s@ == decimal(n as nat),
    decreases n,
{
    if n < 10 {
        String::from_str(digit_str(n))
    } else {
        let mut s = decimal_string(n / 10);
        s.append(digit_str(n % 10));
        s
    }
}


/// Two decimal digits of `n` (for `n < 100`), with a leading zero if needed.
pub open spec fn two_digits(n: nat) -> Seq<char> {
    seq![digit_char((n / 10) as int), digit_char((n % 10) as int)]
}

/// `n` divided by 10, rounded half up.
pub open spec fn round_tenth(n: nat) -> nat {
    n / 10 + if n % 10 >= 5 { 1nat } else { 0nat }
}

/// A time in microseconds shown in milliseconds with two decimals, the
/// third decimal rounded half up (15504 gives `15.50`, 15505 gives `15.51`).
pub open spec fn millis_2dp(us: nat) -> Seq<char> {
    let c = round_tenth(us);
    decimal(c / 100) + "."@ + two_digits(c % 100)
}

/// `n / d` rounded to the nearest whole number, an exact half to the even one.
pub open spec fn div_round_half_even(n: nat, d: nat) -> nat {
    let q = n / d;
    let r = n % d;
    if 2 * r > d {
        q + 1
    } else if 2 * r < d {
        q
    } else if q % 2 == 0 {
        q
    } else {
        q + 1
    }
}

/// The share `part / total` shown as a percentage with one decimal, rounded
/// to the nearest tenth with an exact half going to the even tenth (1 of 4
/// gives `25.0`, 1 of 3 gives `33.3`, 1 of 16 gives `6.2`); `0.0` when the
/// total is zero.
pub open spec fn percent_1dp(part: nat, total: nat) -> Seq<char> {
    let t = if total == 0 {
        0
    } else {
        div_round_half_even(part * 1000, total)
    };
    decimal(t / 10) + "."@ + seq![digit_char((t % 10) as int)]
}

/// `s` without the zeros that end it.
pub open spec fn trim_trailing_zeros(s: Seq<char>) -> Seq<char>
    decreases s.len(),
{
    if s.len() > 0 && s.last() == '0' {
        trim_trailing_zeros(s.drop_last())
    } else {
        s
    }
}

/// Six decimal digits of `n` (for `n < 1000000`), with leading zeros.
pub open spec fn six_digits(n: nat) -> Seq<char> {
    two_digits(n / 10000) + two_digits((n / 100) % 100) + two_digits(n % 100)
}

/// A time in microseconds shown in seconds: the whole seconds, then, if the
/// time is not a whole number of seconds, a point and the fraction without
/// trailing zeros (1500000 gives `1.5`, 2000000 gives `2`).
pub open spec fn seconds_text(us: nat) -> Seq<char> {
    let frac = us % 1000000;
    if frac == 0 {
        decimal(us / 1000000)
    } else {
        decimal(us / 1000000) + "."@ + trim_trailing_zeros(six_digits(frac))
    }
}

/// Does every character of `s` satisfy `is_digit`?
pub open spec fn all_digits(s: Seq<char>) -> bool {
    forall|i: int| 0 <= i < s.len() ==> is_digit(#[trigger] s[i])
}

/// The value of a string of decimal digits, most significant digit first.
pub open spec fn digits_value(s: Seq<char>) -> nat
    decreases s.len(),
{
    if s.len() == 0 {
        0
    } else {
        digits_value(s.drop_last()) * 10 + digit_value(s.last()) as nat
    }
}

/// What `str::parse::<u16>` gives: the text must be an optional `+` followed by
/// at least one decimal digit and nothing else, with a value below 65536.
pub open spec fn parse_u16_spec(s: Seq<char>) -> Option<u16> {
    let body = if s.len() > 0 && s[0] == '+' {
        s.drop_first()
    } else {
        s
    };
    if body.len() > 0 && all_digits(body) && digits_value(body) <= 65535 {
        Some(digits_value(body) as u16)
    } else {
        None
    }
}

/// Renders `n < 100` as two digits.
pub fn two_digits_string(n: u64) -> (s: String)
    requires
        n < 100,
    ensures
        s@ == two_digits(n as nat),
{
    let mut s = String::from_str(digit_str(n / 10));
    s.append(digit_str(n % 10));
    s
}

/// `round_tenth` in executable form.
fn round_tenth_u64(n: u64) -> (r: u64)
    ensures
        r == round_tenth(n as nat),
{
    n / 10 + if n % 10 >= 5 {
        1
    } else {
        0
    }
}

/// Shows a time in microseconds in milliseconds with two decimals.
pub fn millis_2dp_string(us: u64) -> (s: String)
    ensures
        s@ == millis_2dp(us as nat),
{
    let c = round_tenth_u64(us);
    let mut s = decimal_string(c / 100);
    s.append(".");
    let frac = two_digits_string(c % 100);
    s.append(frac.as_str());
    s
}

/// Shows the share `part / total` as a percentage with one decimal.
pub fn percent_1dp_string(part: u64, total: u64) -> (s: String)
    requires
        part <= total,
    ensures
        s@ == percent_1dp(part as nat, total as nat),
{
    let t: u64 = if total == 0 {
        0
    } else {
        let n: u128 = part as u128 * 1000;
        let d: u128 = total as u128;
        let q: u128 = n / d;
        let r: u128 = n % d;
        proof {
            assert(q <= 1000) by (nonlinear_arith)
                requires n == part * 1000, part <= total, d == total, d > 0, q == n / d;
        }
        let rounded = if 2 * r > d {
            q + 1
        } else if 2 * r < d {
            q
        } else if q % 2 == 0 {
            q
        } else {
            q + 1
        };
        rounded as u64
    };
    let mut s = decimal_string(t / 10);
    s.append(".");
    s.append(digit_str(t % 10));
    s
}

/// Shows a time in microseconds in seconds, without trailing zeros.
pub fn seconds_string(us: u64) -> (s: String)
    ensures
        s@ == seconds_text(us as nat),
{
    let whole = decimal_string(us / 1000000);
    let frac = us % 1000000;
    if frac == 0 {
        return whole;
    }
    let mut digits = two_digits_string(frac / 10000);
    let mid = two_digits_string((frac / 100) % 100);
    let low = two_digits_string(frac % 100);
    digits.append(mid.as_str());
    digits.append(low.as_str());
    assert(digits@ == six_digits(frac as nat));
    let mut end: usize = 6;
    assert(digits@.len() == 6);
    assert(digits@.take(6) =~= digits@);
    while end > 0 && digits.as_str().get_char(end - 1) == '0'
        invariant
            end <= 6,
            digits@.len() == 6,
            trim_trailing_zeros(digits@) == trim_trailing_zeros(digits@.take(end as int)),
        decreases end,
    {
        assert(digits@.take(end as int).drop_last() =~= digits@.take(end - 1));
        end = end - 1;
    }
    assert(trim_trailing_zeros(digits@.take(end as int)) == digits@.take(end as int));
    let kept = digits.as_str().substring_char(0, end);
    let mut s = whole;
    s.append(".");
    s.append(kept);
    s
}

/// A digit string is worth at least as much as any of its prefixes.
pub proof fn lemma_digits_value_prefix(s: Seq<char>, k: int)
    requires
        0 <= k <= s.len(),
        all_digits(s),
    ensures
        digits_value(s.take(k)) <= digits_value(s),
    decreases s.len() - k,
{
    if k < s.len() {
        let t = s.take(k + 1);
        assert(t.drop_last() =~= s.take(k));
        assert(is_digit(s[k]));
        lemma_digits_value_prefix(s, k + 1);
    } else {
        assert(s.take(k) =~= s);
    }
}

/// Renders a decimal digit string and reads it back.
pub proof fn lemma_decimal_digits(n: nat)
    ensures
        decimal(n).len() >= 1,
        all_digits(decimal(n)),
        digits_value(decimal(n)) == n,
        decimal(n)[0] != '+',
    decreases n,
{
    if n < 10 {
        assert(decimal(n).drop_last() =~= Seq::<char>::empty());
        assert(digit_value(digit_char(n as int)) == n);
        assert(digits_value(decimal(n)) == digits_value(Seq::<char>::empty()) * 10 + digit_value(decimal(n).last()) as nat);
    } else {
        lemma_decimal_digits(n / 10);
        let d = decimal(n);
        assert(d.drop_last() =~= decimal(n / 10));
        assert(digit_value(digit_char((n % 10) as int)) == n % 10);
        assert(d.last() == digit_char((n % 10) as int));
        assert(digits_value(d) == digits_value(decimal(n / 10)) * 10 + digit_value(d.last()) as nat);
        assert(digits_value(d) == n);
        assert forall|i: int| 0 <= i < d.len() implies is_digit(#[trigger] d[i]) by {
            if i < d.len() - 1 {
                assert(d[i] == decimal(n / 10)[i]);
            }
        }
    }
}

/// Reads a port-sized unsigned number as `str::parse::<u16>` does.
pub fn parse_u16(s: &str) -> (r: Option<u16>)
    ensures
        r == parse_u16_spec(s@),
{
    let n = s.unicode_len();
    let start: usize = if n > 0 && s.get_char(0) == '+' {
        1
    } else {
        0
    };
    let ghost body = if s@.len() > 0 && s@[0] == '+' {
        s@.drop_first()
    } else {
        s@
    };
    assert(body =~= s@.subrange(start as int, n as int));
    if start == n {
        return None;
    }
    let mut acc: u32 = 0;
    let mut i: usize = start;
    while i < n
        invariant
            start <= i <= n,
            n == s@.len(),
            start < n,
            body =~= s@.subrange(start as int, n as int),
            body == (if s@.len() > 0 && s@[0] == '+' {
                s@.drop_first()
            } else {
                s@
            }),
            all_digits(body.take(i - start)),
            acc == digits_value(body.take(i - start)),
            acc <= 65535,
        decreases n - i,
    {
        let c = s.get_char(i);
        if !('0' <= c && c <= '9') {
            assert(!is_digit(body[i - start]));
            assert(!all_digits(body));
            return None;
        }
        let d: u32 = (c as u32) - 48;
        let ghost pre = body.take(i - start);
        let ghost next = body.take(i - start + 1);
        assert(next.drop_last() =~= pre);
        assert(next.last() == c);
        acc = acc * 10 + d;
        assert(acc == digits_value(next));
        assert forall|j: int| 0 <= j < next.len() implies is_digit(#[trigger] next[j]) by {
            if j < pre.len() {
                assert(next[j] == pre[j]);
            }
        }
        i = i + 1;
        if acc > 65535 {
            proof {
                if all_digits(body) {
                    lemma_digits_value_prefix(body, i - start);
                }
                assert(!(all_digits(body) && digits_value(body) <= 65535));
            }
            return None;
        }
    }
    assert(body.take(n - start) =~= body);
    Some(acc as u16)
}

} // verus!
