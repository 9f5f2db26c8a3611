//! Decimal numerals: rendering unsigned integers and reading signed and
//! unsigned decimal integers as `from_str_radix(_, 10)` reads them.
use vstd::prelude::*;
use crate::text::push_char;

verus! {

/// The numeral character of a digit value `0..=9`.
pub open spec fn digit_char(d: int) -> char {
    if d == 0 {
        '0'
    } else if d == 1 {
        '1'
    } else if d == 2 {
        '2'
    } else if d == 3 {
        '3'
    } else if d == 4 {
        '4'
    } else if d == 5 {
        '5'
    } else if d == 6 {
        '6'
    } else if d == 7 {
        '7'
    } else if d == 8 {
        '8'
    } else {
        '9'
    }
}

/// The decimal numeral of `n`, without sign or leading zeros.
pub open spec fn decimal(n: nat) -> Seq<char>
    decreases n,
{
    if n < 10 {
        seq![digit_char(n as int)]
    } else {
        decimal(n / 10).push(digit_char((n % 10) as int))
    }
}

fn digit(d: u64) -> (c: char)
    requires
        d < 10,
    ensures
        c == digit_char(d as int),
{
    if d == 0 {
        '0'
    } else if d == 1 {
        '1'
    } else if d == 2 {
        '2'
    } else if d == 3 {
        '3'
    } else if d == 4 {
        '4'
    } else if d == 5 {
        '5'
    } else if d == 6 {
        '6'
    } else if d == 7 {
        '7'
    } else if d == 8 {
        '8'
    } else {
        '9'
    }
}

/// Appends the decimal numeral of `n` to `s` (as `format!("{}", n)` renders it).
pub fn push_decimal(s: &mut String, n: u64)
    ensures
        final(s)@ == old(s)@ + decimal(n as nat),
    decreases n,
{
    if n >= 10 {
        push_decimal(s, n / 10);
    }
    let ghost before = s@;
    push_char(s, digit(n % 10));
    proof {
        if n >= 10 {
            assert(s@ =~= old(s)@ + decimal(n as nat));
        } else {
            assert(s@ =~= old(s)@ + decimal(n as nat));
        }
    }
}

/// An ASCII decimal digit.
pub open spec fn is_digit(c: char) -> bool {
    '0' <= c <= '9'
}

/// The value of a decimal digit character.
pub open spec fn digit_value(c: char) -> int {
    c as int - '0' as int
}

/// Every character of `d` is a decimal digit.
pub open spec fn all_digits(d: Seq<char>) -> bool {
    forall|i: int| 0 <= i < d.len() ==> is_digit(#[trigger] d[i])
}

/// The value of a string of decimal digits, most significant first.
pub open spec fn digits_value(d: Seq<char>) -> int
    decreases d.len(),
{
    if d.len() == 0 {
        0
    } else {
        digits_value(d.drop_last()) * 10 + digit_value(d.last())
    }
}

/// What `u64::from_str_radix(s, 10)` gives: an optional `+` and at least one
/// digit, of a value that fits.
pub open spec fn unsigned_value(s: Seq<char>) -> Option<u64> {
    let d = if s.len() > 0 && s[0] == '+' {
        s.skip(1)
    } else {
        s
    };
    if d.len() > 0 && all_digits(d) && digits_value(d) <= u64::MAX {
        Some(digits_value(d) as u64)
    } else {
        None
    }
}

/// What `i64::from_str_radix(s, 10)` gives: an optional `+` or `-` and at
/// least one digit, of a value that fits.
pub open spec fn signed_value(s: Seq<char>) -> Option<i64> {
    let negative = s.len() > 0 && s[0] == '-';
    let d = if s.len() > 0 && (s[0] == '+' || s[0] == '-') {
        s.skip(1)
    } else {
        s
    };
    let v = if negative {
        -digits_value(d)
    } else {
        digits_value(d)
    };
    if d.len() > 0 && all_digits(d) && i64::MIN <= v <= i64::MAX {
        Some(v as i64)
    } else {
        None
    }
}

proof fn lemma_digits_value_grows(d: Seq<char>, k: int)
    requires
        0 <= k <= d.len(),
        all_digits(d),
    ensures
        digits_value(d.take(k)) <= digits_value(d),
        0 <= digits_value(d.take(k)),
    decreases d.len() - k,
{
    if k == d.len() {
        assert(d.take(k) =~= d);
        lemma_digits_value_nonneg(d);
    } else {
        let e = d.take(k + 1);
        assert(e.drop_last() =~= d.take(k));
        assert(is_digit(d[k]));
        lemma_digits_value_grows(d, k + 1);
        lemma_digits_value_nonneg(d.take(k));
    }
}

proof fn lemma_digits_value_nonneg(d: Seq<char>)
    requires
        all_digits(d),
    ensures
        0 <= digits_value(d),
    decreases d.len(),
{
    if d.len() > 0 {
        assert(is_digit(d[d.len() - 1]));
        lemma_digits_value_nonneg(d.drop_last());
    }
}

/// The value of the digits `s[lo..]` when they are all digits and the value
/// is at most `limit`; `None` otherwise.
fn digits_up_to(s: &Vec<char>, lo: usize, limit: u64) -> (r: Option<u64>)
    requires
        lo <= s@.len(),
    ensures
        r == (if all_digits(s@.skip(lo as int)) && digits_value(s@.skip(lo as int)) <= limit {
            Some(digits_value(s@.skip(lo as int)) as u64)
        } else {
            None
        }),
        all_digits(s@.skip(lo as int)) ==> 0 <= digits_value(s@.skip(lo as int)),
{
    let n = s.len();
    let ghost d = s@.skip(lo as int);
    let mut acc: u64 = 0;
    let mut i = lo;
    let mut ok = true;
    while i < n
        invariant
            n == s@.len(),
            lo <= i <= n,
            d == s@.skip(lo as int),
            ok ==> all_digits(d.take(i - lo)) && acc == digits_value(d.take(i - lo)) && acc
                <= limit,
            !ok ==> !(all_digits(d) && digits_value(d) <= limit),
        decreases n - i,
    {
        let c = s[i];
        if ok {
            proof {
                assert(d.take(i - lo + 1).drop_last() =~= d.take(i - lo));
                assert(d.take(i - lo + 1).last() == c);
            }
            if c < '0' || c > '9' {
                ok = false;
                assert(!is_digit(d[i - lo]));
            } else {
                let v = (c as u32 - 48) as u64;
                assert(v == digit_value(c));
                let next = acc.checked_mul(10);
                let next = match next {
                    Some(m) => m.checked_add(v),
                    None => None,
                };
                match next {
                    Some(m) => {
                        if m <= limit {
                            assert forall|j: int| 0 <= j < i - lo + 1 implies is_digit(
                                #[trigger] d.take(i - lo + 1)[j],
                            ) by {
                                if j < i - lo {
                                    assert(d.take(i - lo + 1)[j] == d.take(i - lo)[j]);
                                }
                            }
                            acc = m;
                        } else {
                            proof {
                                assert forall|j: int| 0 <= j < i - lo + 1 implies is_digit(
                                    #[trigger] d.take(i - lo + 1)[j],
                                ) by {
                                    if j < i - lo {
                                        assert(d.take(i - lo + 1)[j] == d.take(i - lo)[j]);
                                    }
                                }
                                if all_digits(d) {
                                    lemma_digits_value_grows(d, i - lo + 1);
                                }
                            }
                            ok = false;
                        }
                    },
                    None => {
                        proof {
                            assert forall|j: int| 0 <= j < i - lo + 1 implies is_digit(
                                #[trigger] d.take(i - lo + 1)[j],
                            ) by {
                                if j < i - lo {
                                    assert(d.take(i - lo + 1)[j] == d.take(i - lo)[j]);
                                }
                            }
                            if all_digits(d) {
                                lemma_digits_value_grows(d, i - lo + 1);
                            }
                        }
                        ok = false;
                    },
                }
            }
        }
        i = i + 1;
    }
    assert(d.take(n - lo) =~= d);
    proof {
        if all_digits(d) {
            lemma_digits_value_nonneg(d);
        }
    }
    if ok {
        Some(acc)
    } else {
        None
    }
}

proof fn lemma_digit_char(d: int)
    requires
        0 <= d < 10,
    ensures
        is_digit(digit_char(d)),
        digit_value(digit_char(d)) == d,
{
}

proof fn lemma_decimal_digits(n: nat)
    ensures
        decimal(n).len() > 0,
        all_digits(decimal(n)),
        digits_value(decimal(n)) == n,
        is_digit(decimal(n)[0]),
    decreases n,
{
    if n >= 10 {
        lemma_decimal_digits(n / 10);
        lemma_digit_char((n % 10) as int);
        let d = decimal(n);
        assert(d.drop_last() =~= decimal(n / 10));
        assert forall|i: int| 0 <= i < d.len() implies is_digit(#[trigger] d[i]) by {
            if i < d.len() - 1 {
                assert(d[i] == decimal(n / 10)[i]);
            }
        }
        assert(d[0] == decimal(n / 10)[0]);
        assert(d.last() == digit_char((n % 10) as int));
        assert(digits_value(d) == digits_value(d.drop_last()) * 10 + digit_value(d.last()));
        assert(n == (n / 10) * 10 + n % 10);
    } else {
        lemma_digit_char(n as int);
        let d = decimal(n);
        assert(d.drop_last() =~= Seq::<char>::empty());
        assert(digits_value(d) == digits_value(d.drop_last()) * 10 + digit_value(d.last()));
    }
}

/// The decimal numeral of a number has at least one digit.
pub proof fn lemma_decimal_nonempty(n: nat)
    ensures
        decimal(n).len() >= 1,
{
    lemma_decimal_digits(n);
}

/// Law: reading back the decimal numeral of a `u64` gives the number.
pub proof fn lemma_decimal_round_trip(n: u64)
    ensures
        unsigned_value(decimal(n as nat)) == Some(n),
{
    lemma_decimal_digits(n as nat);
}

/// Reads an unsigned decimal integer (as `u64::from_str_radix(s, 10)`).
pub fn parse_unsigned(s: &Vec<char>) -> (r: Option<u64>)
    ensures
        r == unsigned_value(s@),
{
    let lo: usize = if s.len() > 0 && s[0] == '+' {
        1
    } else {
        0
    };
    assert(s@.skip(0) =~= s@);
    if lo == s.len() {
        return None;
    }
    digits_up_to(s, lo, u64::MAX)
}

/// Reads a signed decimal integer (as `i64::from_str_radix(s, 10)`).
pub fn parse_signed(s: &Vec<char>) -> (r: Option<i64>)
    ensures
        r == signed_value(s@),
{
    let negative = s.len() > 0 && s[0] == '-';
    let lo: usize = if s.len() > 0 && (s[0] == '+' || s[0] == '-') {
        1
    } else {
        0
    };
    assert(s@.skip(0) =~= s@);
    if lo == s.len() {
        return None;
    }
    let limit: u64 = if negative {
        0x8000_0000_0000_0000
    } else {
        0x7fff_ffff_ffff_ffff
    };
    match digits_up_to(s, lo, limit) {
        Some(m) => {
            if negative {
                if m == 0x8000_0000_0000_0000 {
                    Some(i64::MIN)
                } else {
                    Some(-(m as i64))
                }
            } else {
                Some(m as i64)
            }
        },
        None => None,
    }
}

} // verus!
