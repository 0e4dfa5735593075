//! Decimal digits in text: writing numbers and reading them back.
use vstd::prelude::*;

verus! {

/// The character of decimal digit `d`.
pub open spec fn digit_char(d: int) -> char {
    if d == 0 {
        '0'
    } else     if d == 1 {
        '1'
    } else     if d == 2 {
        '2'
    } else     if d == 3 {
        '3'
    } else     if d == 4 {
        '4'
    } else     if d == 5 {
        '5'
    } else     if d == 6 {
        '6'
    } else     if d == 7 {
        '7'
    } else     if d == 8 {
        '8'
    } else {
        '9'
    }
}

/// Whether `c` is a decimal digit.
pub open spec fn is_digit(c: char) -> bool {
    '0' <= c && c <= '9'
}

/// The value of decimal digit `c`.
pub open spec fn digit_value(c: char) -> int {
    c as int - '0' as int
}

/// Whether every character of `s` is a decimal digit.
pub open spec fn all_digits(s: Seq<char>) -> bool {
    forall|i: int| 0 <= i < s.len() ==> is_digit(#[trigger] s[i])
}

/// The value of the decimal digits `s`.
pub open spec fn digits_value(s: Seq<char>) -> int
    decreases s.len(),
{
    if s.len() == 0 {
        0
    } else {
        digits_value(s.drop_last()) * 10 + digit_value(s.last())
    }
}

/// `n` in decimal, without leading zeros.
pub open spec fn decimal(n: nat) -> Seq<char>
    decreases n,
{
    if n < 10 {
        seq![digit_char(n as int)]
    } else {
        decimal(n / 10).push(digit_char(n as int % 10))
    }
}

/// `n` in decimal, with leading zeros up to `width` characters.
pub open spec fn padded(n: nat, width: nat) -> Seq<char> {
    let d = decimal(n);
    if d.len() >= width {
        d
    } else {
        Seq::new((width - d.len()) as nat, |i: int| '0') + d
    }
}

/// `x` in decimal, with a minus sign when negative and leading zeros up to
/// `width` digits.
pub open spec fn signed_padded(x: int, width: nat) -> Seq<char> {
    if x < 0 {
        seq!['-'] + padded((-x) as nat, width)
    } else {
        padded(x as nat, width)
    }
}

proof fn lemma_digit_char(d: int)
    requires
        0 <= d < 10,
    ensures
        is_digit(digit_char(d)),
        digit_value(digit_char(d)) == d,
{
}

/// The decimal digits of `n` are digits, and read back as `n`.
pub proof fn lemma_decimal(n: nat)
    ensures
        all_digits(decimal(n)),
        digits_value(decimal(n)) == n,
        1 <= decimal(n).len(),
    decreases n,
{
    if n < 10 {
        lemma_digit_char(n as int);
        assert(decimal(n).drop_last() =~= Seq::<char>::empty());
        assert(decimal(n)[0] == digit_char(n as int));
        assert(decimal(n).last() == digit_char(n as int));
        assert(digits_value(decimal(n).drop_last()) == 0);
        assert(digits_value(decimal(n)) == digits_value(decimal(n).drop_last()) * 10 + digit_value(
            decimal(n).last(),
        ));
    } else {
        lemma_decimal(n / 10);
        lemma_digit_char(n as int % 10);
        assert(decimal(n).drop_last() =~= decimal(n / 10));
        assert(decimal(n).last() == digit_char(n as int % 10));
        assert(digits_value(decimal(n)) == digits_value(decimal(n / 10)) * 10 + digit_value(
            digit_char(n as int % 10),
        ));
        assert forall|i: int| 0 <= i < decimal(n).len() implies is_digit(#[trigger] decimal(n)[i]) by {
            if i < decimal(n / 10).len() {
                assert(decimal(n)[i] == decimal(n / 10)[i]);
            }
        }
    }
}

/// Leading zeros do not change the value of digits.
pub proof fn lemma_leading_zeros(k: nat, s: Seq<char>)
    ensures
        digits_value(Seq::new(k, |i: int| '0') + s) == digits_value(s),
    decreases s.len() + k,
{
    let z = Seq::new(k, |i: int| '0');
    if s.len() == 0 {
        assert(z + s =~= z);
        if k > 0 {
            assert(z.drop_last() =~= Seq::new((k - 1) as nat, |i: int| '0'));
            lemma_leading_zeros((k - 1) as nat, s);
            assert(Seq::new((k - 1) as nat, |i: int| '0') + s =~= Seq::new((k - 1) as nat, |i: int| '0'));
        }
    } else {
        assert((z + s).drop_last() =~= z + s.drop_last());
        lemma_leading_zeros(k, s.drop_last());
    }
}

/// Padded digits are digits, and read back as the number.
pub proof fn lemma_padded(n: nat, width: nat)
    ensures
        all_digits(padded(n, width)),
        digits_value(padded(n, width)) == n,
        padded(n, width).len() >= width,
        padded(n, width).len() >= 1,
{
    lemma_decimal(n);
    let d = decimal(n);
    if d.len() < width {
        lemma_leading_zeros((width - d.len()) as nat, d);
        let p = padded(n, width);
        assert forall|i: int| 0 <= i < p.len() implies is_digit(#[trigger] p[i]) by {
            if i >= width - d.len() {
                assert(p[i] == d[i - (width - d.len())]);
            }
        }
    }
}

/// Numbers of at most `width` digits take exactly `width` characters padded.
pub proof fn lemma_padded_len(n: nat, width: nat)
    requires
        1 <= width <= 4,
        n < 10000,
        width == 4 || n < 100,
        width >= 2 || n < 10,
    ensures
        padded(n, width).len() == width,
{
    reveal_with_fuel(decimal, 5);
}

/// The text of decimal digit `d`.
fn digit_str(d: u32) -> (r: &'static str)
    requires
        d < 10,
    ensures
        r@ == seq![digit_char(d as int)],
{
    match d {
        0 => {
            proof {
                reveal_strlit("0");
            }
            "0"
        },
        1 => {
            proof {
                reveal_strlit("1");
            }
            "1"
        },
        2 => {
            proof {
                reveal_strlit("2");
            }
            "2"
        },
        3 => {
            proof {
                reveal_strlit("3");
            }
            "3"
        },
        4 => {
            proof {
                reveal_strlit("4");
            }
            "4"
        },
        5 => {
            proof {
                reveal_strlit("5");
            }
            "5"
        },
        6 => {
            proof {
                reveal_strlit("6");
            }
            "6"
        },
        7 => {
            proof {
                reveal_strlit("7");
            }
            "7"
        },
        8 => {
            proof {
                reveal_strlit("8");
            }
            "8"
        },
        _ => {
            proof {
                reveal_strlit("9");
            }
            "9"
        },
    }
}

/// Appends `n` in decimal.
pub fn push_decimal(out: &mut String, n: u64)
    ensures
        final(out)@ == old(out)@ + decimal(n as nat),
    decreases n,
{
    if n >= 10 {
        push_decimal(out, n / 10);
    }
    out.append(digit_str((n % 10) as u32));
    proof {
        if n >= 10 {
            assert(old(out)@ + decimal(n as nat) =~= old(out)@ + decimal((n / 10) as nat) + seq![
                digit_char(n as int % 10),
            ]);
        } else {
            assert(old(out)@ + decimal(n as nat) =~= old(out)@ + seq![digit_char(n as int % 10)]);
        }
    }
}

/// The number of decimal digits of `n`.
fn decimal_len(n: u64) -> (r: usize)
    ensures
        r == decimal(n as nat).len(),
        1 <= r <= 20,
    decreases n,
{
    proof {
        reveal_with_fuel(pow10, 21);
        lemma_decimal_len(n as nat, 20);
    }
    if n >= 10 {
        decimal_len(n / 10) + 1
    } else {
        1
    }
}

/// Appends `n` in decimal, with leading zeros up to `width` characters.
pub fn push_padded(out: &mut String, n: u32, width: usize)
    ensures
        final(out)@ == old(out)@ + padded(n as nat, width as nat),
{
    let len = decimal_len(n as u64);
    let mut k: usize = len;
    while k < width
        invariant
            len == decimal(n as nat).len(),
            len <= k,
            k <= width || k == len,
            out@ == old(out)@ + Seq::new((k - len) as nat, |i: int| '0'),
        decreases width - k,
    {
        proof {
            reveal_strlit("0");
        }
        out.append("0");
        proof {
            assert(Seq::new((k - len) as nat, |i: int| '0').push('0') =~= Seq::new(
                (k + 1 - len) as nat,
                |i: int| '0',
            ));
        }
        k = k + 1;
    }
    push_decimal(out, n as u64);
    proof {
        if len >= width {
            assert(Seq::new((k - len) as nat, |i: int| '0') =~= Seq::<char>::empty());
        }
    }
}

/// Appends `x` in decimal, with a minus sign when negative and leading zeros
/// up to `width` digits.
pub fn push_signed_padded(out: &mut String, x: i32, width: usize)
    ensures
        final(out)@ == old(out)@ + signed_padded(x as int, width as nat),
{
    if x < 0 {
        proof {
            reveal_strlit("-");
        }
        out.append("-");
        let m: u32 = (-(x as i64)) as u32;
        push_padded(out, m, width);
    } else {
        push_padded(out, x as u32, width);
    }
}

/// Appends `x` in decimal, with a minus sign when negative.
pub fn push_signed(out: &mut String, x: i64)
    ensures
        final(out)@ == old(out)@ + signed_padded(x as int, 1),
{
    let n: u64 = if x < 0 {
        proof {
            reveal_strlit("-");
        }
        out.append("-");
        (-(x as i128)) as u64
    } else {
        x as u64
    };
    let ghost mid = out@;
    push_decimal(out, n);
    proof {
        lemma_decimal(n as nat);
        if x < 0 {
            assert(out@ =~= old(out)@ + (seq!['-'] + padded(n as nat, 1)));
        }
    }
}

/// The value of the digits `s@[from..to]`, if they are all digits.
pub fn parse_digits(s: &str, from: usize, to: usize) -> (r: Option<u32>)
    requires
        from <= to <= s@.len(),
        to - from <= 9,
    ensures
        r.is_some() <==> all_digits(s@.subrange(from as int, to as int)),
        r.is_some() ==> r.unwrap() == digits_value(s@.subrange(from as int, to as int)),
{
    let mut acc: u32 = 0;
    let mut bound: u32 = 1;
    let mut i = from;
    while i < to
        invariant
            from <= i <= to <= s@.len(),
            to - from <= 9,
            all_digits(s@.subrange(from as int, i as int)),
            acc == digits_value(s@.subrange(from as int, i as int)),
            acc < bound,
            bound <= 1000000000,
            i - from < 9 ==> bound * 10 <= 1000000000,
            bound == pow10((i - from) as nat),
        decreases to - i,
    {
        let c = s.get_char(i);
        assert(s@.subrange(from as int, i + 1).drop_last() =~= s@.subrange(from as int, i as int));
        if c < '0' || c > '9' {
            assert(!is_digit(s@.subrange(from as int, to as int)[i - from]));
            return None;
        }
        let d = (c as u32) - ('0' as u32);
        proof {
            lemma_pow10_step((i - from) as nat, (to - from) as nat);
        }
        acc = acc * 10 + d;
        bound = bound * 10;
        i = i + 1;
    }
    assert(s@.subrange(from as int, to as int) =~= s@.subrange(from as int, i as int));
    Some(acc)
}

/// The value of `t` read as an optional minus sign followed by one to ten
/// decimal digits, if it is of that form and fits in an `i32`.
pub open spec fn signed_value(t: Seq<char>) -> Option<int> {
    let neg = t.len() > 0 && t[0] == '-';
    let digits = if neg {
        t.subrange(1, t.len() as int)
    } else {
        t
    };
    let v = if neg {
        -digits_value(digits)
    } else {
        digits_value(digits)
    };
    if 1 <= digits.len() <= 10 && all_digits(digits) && i32::MIN <= v <= i32::MAX {
        Some(v)
    } else {
        None
    }
}

/// The value of `s@[from..to]` read as an optional minus sign followed by one
/// to ten decimal digits, if it is of that form and fits in an `i32`.
pub fn parse_signed(s: &str, from: usize, to: usize) -> (r: Option<i32>)
    requires
        from <= to <= s@.len(),
    ensures
        r.is_some() <==> signed_value(s@.subrange(from as int, to as int)).is_some(),
        r.is_some() ==> r.unwrap() == signed_value(s@.subrange(from as int, to as int)).unwrap(),
{
    let t = Ghost(s@.subrange(from as int, to as int));
    let neg = from < to && s.get_char(from) == '-';
    let start = if neg {
        from + 1
    } else {
        from
    };
    if neg {
        assert(t@.subrange(1, t@.len() as int) =~= s@.subrange(from + 1, to as int));
    } else {
        assert(t@ =~= s@.subrange(start as int, to as int));
    }
    if to - start < 1 || to - start > 10 {
        return None;
    }
    let ghost digits = s@.subrange(start as int, to as int);
    let value: i64 = if to - start <= 9 {
        match parse_digits(s, start, to) {
            None => {
                return None;
            },
            Some(v) => v as i64,
        }
    } else {
        let c = s.get_char(to - 1);
        assert(digits.drop_last() =~= s@.subrange(start as int, to - 1));
        assert(digits.last() == c);
        match parse_digits(s, start, to - 1) {
            None => {
                proof {
                    let i = choose|i: int|
                        0 <= i < digits.drop_last().len() && !is_digit(
                            #[trigger] digits.drop_last()[i],
                        );
                    assert(digits[i] == digits.drop_last()[i]);
                }
                return None;
            },
            Some(v) => {
                if c < '0' || c > '9' {
                    assert(!is_digit(digits[digits.len() - 1]));
                    return None;
                }
                proof {
                    assert forall|i: int| 0 <= i < digits.len() implies is_digit(
                        #[trigger] digits[i],
                    ) by {
                        if i < digits.len() - 1 {
                            assert(digits[i] == digits.drop_last()[i]);
                        }
                    }
                    lemma_digits_bound(digits.drop_last());
                    lemma_pow10_bound(9);
                }
                v as i64 * 10 + (c as u32 - '0' as u32) as i64
            },
        }
    };
    proof {
        lemma_digits_bound(digits);
    }
    let signed = if neg {
        -value
    } else {
        value
    };
    if signed < i32::MIN as i64 || signed > i32::MAX as i64 {
        return None;
    }
    Some(signed as i32)
}

/// `k` digits are less than ten to the `k`.
pub proof fn lemma_digits_bound(t: Seq<char>)
    requires
        all_digits(t),
    ensures
        0 <= digits_value(t) < pow10(t.len()),
    decreases t.len(),
{
    if t.len() > 0 {
        assert forall|i: int| 0 <= i < t.drop_last().len() implies is_digit(#[trigger] t.drop_last()[i]) by {
            assert(t.drop_last()[i] == t[i]);
        }
        lemma_digits_bound(t.drop_last());
        assert(is_digit(t[t.len() - 1]));
    }
}

/// Decimal digits of numbers below ten to the `k` number at most `k`.
pub proof fn lemma_decimal_len(n: nat, k: nat)
    requires
        k >= 1,
        n < pow10(k),
    ensures
        decimal(n).len() <= k,
    decreases k,
{
    if n >= 10 {
        assert(k >= 2) by {
            if k == 1 {
                reveal_with_fuel(pow10, 2);
            }
        }
        lemma_decimal_len(n / 10, (k - 1) as nat);
    }
}

/// Writing an `i32` with sign and padding and reading it back gives the
/// number.
pub proof fn lemma_signed_padded(x: int, width: nat)
    requires
        i32::MIN <= x <= i32::MAX,
        1 <= width <= 10,
    ensures
        signed_value(signed_padded(x, width)) == Some(x),
        1 <= signed_padded(x, width).len() <= 11,
{
    let n: nat = if x < 0 {
        (-x) as nat
    } else {
        x as nat
    };
    reveal_with_fuel(pow10, 11);
    lemma_decimal_len(n, 10);
    lemma_padded(n, width);
    let p = padded(n, width);
    if x < 0 {
        let t = seq!['-'] + p;
        assert(t.subrange(1, t.len() as int) =~= p);
    } else {
        assert(is_digit(p[0]));
    }
}

pub proof fn lemma_pow10_bound(k: nat)
    requires
        k <= 9,
    ensures
        pow10(k) <= 1000000000,
{
    reveal_with_fuel(pow10, 10);
}

/// Whether `s` starts with `p`.
pub fn has_prefix(s: &str, p: &str) -> (r: bool)
    ensures
        r == (s@.len() >= p@.len() && s@.subrange(0, p@.len() as int) == p@),
{
    let n = s.unicode_len();
    let m = p.unicode_len();
    if n < m {
        return false;
    }
    let mut i: usize = 0;
    while i < m
        invariant
            i <= m <= n,
            n == s@.len(),
            m == p@.len(),
            s@.subrange(0, i as int) == p@.subrange(0, i as int),
        decreases m - i,
    {
        if s.get_char(i) != p.get_char(i) {
            assert(s@.subrange(0, m as int)[i as int] != p@[i as int]);
            return false;
        }
        assert(s@.subrange(0, i + 1) =~= s@.subrange(0, i as int).push(s@[i as int]));
        assert(p@.subrange(0, i + 1) =~= p@.subrange(0, i as int).push(p@[i as int]));
        i = i + 1;
    }
    assert(p@.subrange(0, m as int) =~= p@);
    true
}

/// Ten to the power `k`.
pub open spec fn pow10(k: nat) -> int
    decreases k,
{
    if k == 0 {
        1
    } else {
        10 * pow10((k - 1) as nat)
    }
}

proof fn lemma_pow10_step(k: nat, n: nat)
    requires
        k < n <= 9,
    ensures
        k + 1 < 9 ==> pow10(k + 2) <= 1000000000,
        pow10(k + 1) <= 1000000000,
    decreases n - k,
{
    reveal_with_fuel(pow10, 10);
    if k + 1 < n {
        lemma_pow10_step(k + 1, n);
    }
}

} // verus!
