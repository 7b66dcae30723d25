use vstd::prelude::*;

verus! {

/// The character of a decimal digit `0 <= d < 10`.
pub open spec fn digit_char(d: int) -> char {
    if d == 0 { '0' }
    else if d == 1 { '1' }
    else if d == 2 { '2' }
    else if d == 3 { '3' }
    else if d == 4 { '4' }
    else if d == 5 { '5' }
    else if d == 6 { '6' }
    else if d == 7 { '7' }
    else if d == 8 { '8' }
    else { '9' }
}

/// The decimal digits of a natural number, most significant first, without
/// leading zeros (`0` is the single digit `0`).
pub open spec fn nat_digits(n: nat) -> Seq<char>
    decreases n,
{
    if n < 10 {
        seq![digit_char(n as int)]
    } else {
        nat_digits(n / 10) + seq![digit_char((n % 10) as int)]
    }
}

/// The decimal rendering of an integer: a `-` before the digits of its
/// magnitude when it is negative.
pub open spec fn decimal(n: int) -> Seq<char> {
    if n < 0 {
        seq!['-'] + nat_digits((-n) as nat)
    } else {
        nat_digits(n as nat)
    }
}

fn digit_str(d: u64) -> (s: &'static str)
    requires
        d < 10,
    ensures
        s@ == seq![digit_char(d as int)],
{
    if d == 0 {
        proof { reveal_strlit("0"); }
        "0"
    } else if d == 1 {
        proof { reveal_strlit("1"); }
        "1"
    } else if d == 2 {
        proof { reveal_strlit("2"); }
        "2"
    } else if d == 3 {
        proof { reveal_strlit("3"); }
        "3"
    } else if d == 4 {
        proof { reveal_strlit("4"); }
        "4"
    } else if d == 5 {
        proof { reveal_strlit("5"); }
        "5"
    } else if d == 6 {
        proof { reveal_strlit("6"); }
        "6"
    } else if d == 7 {
        proof { reveal_strlit("7"); }
        "7"
    } else if d == 8 {
        proof { reveal_strlit("8"); }
        "8"
    } else {
        proof { reveal_strlit("9"); }
        "9"
    }
}

/// The decimal digits of `n`.
pub fn u64_to_decimal(n: u64) -> (s: String)
    ensures
        s@ == nat_digits(n as nat),
{
    let mut m: u64 = n / 10;
    let mut s = String::from_str(digit_str(n % 10));
    while m > 0
        invariant
            m > 0 ==> nat_digits(n as nat) == nat_digits(m as nat) + s@,
            m == 0 ==> nat_digits(n as nat) == s@,
        decreases m,
    {
        let d = digit_str(m % 10);
        let ghost before = s@;
        s = String::from_str(d).concat(s.as_str());
        assert(nat_digits(m as nat) == nat_digits((m / 10) as nat) + seq![digit_char((m % 10) as int)]
            || m < 10);
        if m < 10 {
            assert(nat_digits(m as nat) == seq![digit_char(m as int)]);
        }
        assert(s@ == seq![digit_char((m % 10) as int)] + before);
        m = m / 10;
    }
    s
}

/// The decimal rendering of `n`, as `format!("{}", n)` writes it.
pub fn i64_to_decimal(n: i64) -> (s: String)
    ensures
        s@ == decimal(n as int),
{
    if n < 0 {
        let wide: i128 = n as i128;
        let magnitude: u64 = (0i128 - wide) as u64;
        let digits = u64_to_decimal(magnitude);
        proof { reveal_strlit("-"); }
        String::from_str("-").concat(digits.as_str())
    } else {
        u64_to_decimal(n as u64)
    }
}

/// A decimal digit character.
pub open spec fn is_digit(c: char) -> bool {
    '0' <= c && c <= '9'
}

/// The value of a decimal digit character.
pub open spec fn digit_value(c: char) -> int {
    (c as int) - ('0' as int)
}

/// Every character is a decimal digit.
pub open spec fn all_digits(s: Seq<char>) -> bool {
    forall|i: int| 0 <= i < s.len() ==> is_digit(#[trigger] s[i])
}

/// The number that a string of decimal digits writes.
pub open spec fn digits_value(s: Seq<char>) -> nat
    decreases s.len(),
{
    if s.len() == 0 {
        0
    } else {
        (digits_value(s.drop_last()) * 10 + digit_value(s.last())) as nat
    }
}

/// The integer that a string writes in decimal with an optional sign, as
/// `str::parse` reads it: a `+` or `-`, then at least one digit, nothing else.
pub open spec fn parse_int(s: Seq<char>) -> Option<int> {
    if s.len() > 0 && (s[0] == '-' || s[0] == '+') {
        let rest = s.skip(1);
        if rest.len() > 0 && all_digits(rest) {
            if s[0] == '-' { Some(-(digits_value(rest) as int)) } else { Some(digits_value(rest) as int) }
        } else {
            None
        }
    } else if s.len() > 0 && all_digits(s) {
        Some(digits_value(s) as int)
    } else {
        None
    }
}

/// The `i64` that a string writes, `None` when it writes none or one out of range.
pub open spec fn parse_i64(s: Seq<char>) -> Option<i64> {
    match parse_int(s) {
        Some(v) => if i64::MIN <= v <= i64::MAX { Some(v as i64) } else { None },
        None => None,
    }
}

/// A longer run of digits writes a number at least as large.
pub proof fn lemma_digits_monotone(s: Seq<char>, k: int)
    requires
        0 <= k <= s.len(),
        all_digits(s),
    ensures
        digits_value(s.take(k)) <= digits_value(s),
    decreases s.len(),
{
    if k < s.len() {
        assert(s.drop_last() =~= s.take(s.len() - 1));
        assert(all_digits(s.drop_last())) by {
            assert forall|i: int| 0 <= i < s.drop_last().len() implies is_digit(#[trigger] s.drop_last()[i]) by {
                assert(s.drop_last()[i] == s[i]);
            }
        }
        lemma_digits_monotone(s.drop_last(), k);
        assert(s.drop_last().take(k) =~= s.take(k));
        assert(is_digit(s[s.len() - 1]));
    } else {
        assert(s.take(k) =~= s);
    }
}

/// The value of the digits of `s` from `start` on, `None` when one is not a
/// digit, there are none, or the value exceeds `limit`.
fn digits_up_to(s: &str, start: usize, n: usize, limit: u64) -> (r: Option<u64>)
    requires
        n == s@.len(),
        start <= n,
        limit >= 9,
    ensures
        match r {
            Some(v) => start < n && all_digits(s@.skip(start as int)) && v == digits_value(s@.skip(start as int))
                && v <= limit,
            None => !(start < n && all_digits(s@.skip(start as int)) && digits_value(s@.skip(start as int)) <= limit),
        },
{
    if start >= n {
        return None;
    }
    let ghost d = s@.skip(start as int);
    let mut acc: u64 = 0;
    let mut k: usize = start;
    while k < n
        invariant
            start <= k <= n,
            n == s@.len(),
            d == s@.skip(start as int),
            all_digits(d.take(k - start)),
            acc == digits_value(d.take(k - start)),
            acc <= limit,
            limit >= 9,
        decreases n - k,
    {
        let c = s.get_char(k);
        assert(d[k - start] == c);
        assert(d.take(k - start + 1).drop_last() =~= d.take(k - start));
        if !(c >= '0' && c <= '9') {
            proof {
                assert(!is_digit(d[k - start]));
            }
            return None;
        }
        let v: u64 = (c as u32 - '0' as u32) as u64;
        assert(v == digit_value(c));
        if acc > (limit - v) / 10 {
            proof {
                assert(digits_value(d.take(k - start + 1)) == acc * 10 + v);
                assert(acc * 10 + v > limit) by (nonlinear_arith)
                    requires
                        acc > (limit - v) / 10,
                        v <= 9,
                        v <= limit;
                if all_digits(d) {
                    lemma_digits_monotone(d, k - start + 1);
                }
            }
            return None;
        }
        proof {
            assert(acc * 10 + v <= limit) by (nonlinear_arith)
                requires
                    acc <= (limit - v) / 10,
                    v <= limit;
        }
        acc = acc * 10 + v;
        proof {
            assert forall|i: int| 0 <= i < d.take(k - start + 1).len() implies is_digit(#[trigger] d.take(k - start + 1)[i]) by {
                if i < k - start {
                    assert(d.take(k - start + 1)[i] == d.take(k - start)[i]);
                }
            }
        }
        k = k + 1;
    }
    assert(d.take(n - start) =~= d);
    Some(acc)
}

/// The `i64` that a string writes in decimal, as `str::parse::<i64>` reads it.
pub fn str_to_i64(s: &str) -> (r: Option<i64>)
    ensures
        r == parse_i64(s@),
{
    let n = s.unicode_len();
    if n == 0 {
        return None;
    }
    let first = s.get_char(0);
    if first == '-' || first == '+' {
        let limit: u64 = if first == '-' { 9223372036854775808u64 } else { 9223372036854775807u64 };
        match digits_up_to(s, 1, n, limit) {
            Some(v) => {
                if first == '-' {
                    let w: i128 = 0i128 - (v as i128);
                    Some(w as i64)
                } else {
                    Some(v as i64)
                }
            },
            None => {
                proof {
                    let rest = s@.skip(1);
                    if rest.len() > 0 && all_digits(rest) {
                        assert(digits_value(rest) > limit);
                    }
                }
                None
            },
        }
    } else {
        match digits_up_to(s, 0, n, 9223372036854775807u64) {
            Some(v) => {
                assert(s@.skip(0) =~= s@);
                Some(v as i64)
            },
            None => {
                assert(s@.skip(0) =~= s@);
                None
            },
        }
    }
}

} // verus!
