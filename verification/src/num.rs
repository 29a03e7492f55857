//! Verified parsing and printing of unsigned integers in decimal, octal and hex.

use vstd::prelude::*;

verus! {

/// The value of a digit character in the given radix (as `char::to_digit`).
pub open spec fn radix_digit(c: char, radix: nat) -> Option<nat> {
    let v: int = if '0' <= c && c <= '9' {
        c as int - '0' as int
    } else if 'a' <= c && c <= 'z' {
        c as int - 'a' as int + 10
    } else if 'A' <= c && c <= 'Z' {
        c as int - 'A' as int + 10
    } else {
        -1
    };
    if 0 <= v && v < radix {
        Some(v as nat)
    } else {
        None
    }
}

/// Every character is a digit of the radix.
pub open spec fn all_radix_digits(s: Seq<char>, radix: nat) -> bool {
    forall|i: int| 0 <= i < s.len() ==> (#[trigger] radix_digit(s[i], radix)) is Some
}

/// Positional value of a digit string.
pub open spec fn digits_value(s: Seq<char>, radix: nat) -> nat
    decreases s.len(),
{
    if s.len() == 0 {
        0
    } else {
        digits_value(s.drop_last(), radix) * radix + radix_digit(s.last(), radix).unwrap()
    }
}

/// What `from_str_radix` gives for an unsigned integer type whose largest
/// value is `max`: an optional `+`, then one or more digits, in range.
pub open spec fn parse_unsigned(s: Seq<char>, radix: nat, max: nat) -> Option<nat> {
    let d = if s.len() > 0 && s[0] == '+' {
        s.skip(1)
    } else {
        s
    };
    if d.len() == 0 || !all_radix_digits(d, radix) || digits_value(d, radix) > max {
        None
    } else {
        Some(digits_value(d, radix))
    }
}

/// The decimal digit character for `d < 10`.
pub open spec fn digit_char(d: nat) -> char {
    (('0' as int) + d) as char
}

/// Decimal representation without leading zeros.
pub open spec fn decimal(n: nat) -> Seq<char>
    decreases n,
{
    if n < 10 {
        seq![digit_char(n)]
    } else {
        decimal(n / 10).push(digit_char(n % 10))
    }
}

/// Extending a digit prefix never decreases its value.
pub proof fn lemma_digits_value_prefix(s: Seq<char>, radix: nat, i: int)
    requires
        0 <= i < s.len(),
        radix >= 1,
        all_radix_digits(s, radix),
    ensures
        digits_value(s.take(i + 1), radix) == digits_value(s.take(i), radix) * radix
            + radix_digit(s[i], radix).unwrap(),
        digits_value(s.take(i + 1), radix) >= digits_value(s.take(i), radix),
{
    assert(s.take(i + 1).drop_last() == s.take(i));
    assert(s.take(i + 1).last() == s[i]);
    assert(radix_digit(s[i], radix) is Some);
    assert(digits_value(s.take(i), radix) * radix >= digits_value(s.take(i), radix)) by (nonlinear_arith)
        requires radix >= 1;
}

/// The value of a prefix is at most the value of the whole digit string.
pub proof fn lemma_digits_value_mono(s: Seq<char>, radix: nat, i: int)
    requires
        0 <= i <= s.len(),
        radix >= 1,
        all_radix_digits(s, radix),
    ensures
        digits_value(s.take(i), radix) <= digits_value(s, radix),
    decreases s.len() - i,
{
    if i == s.len() {
        assert(s.take(i) == s);
    } else {
        lemma_digits_value_prefix(s, radix, i);
        lemma_digits_value_mono(s, radix, i + 1);
    }
}

/// Parses an unsigned integer as `from_str_radix` does, for radix 8, 10 or 16.
pub fn parse_unsigned_chars(s: &[char], radix: u32, max: u64) -> (r: Option<u64>)
    requires
        radix == 8 || radix == 10 || radix == 16,
    ensures
        match r {
            Some(v) => parse_unsigned(s@, radix as nat, max as nat) == Some(v as nat),
            None => parse_unsigned(s@, radix as nat, max as nat) is None,
        },
{
    let n = s.len();
    let start: usize = if n > 0 && s[0] == '+' { 1 } else { 0 };
    let ghost d = if s@.len() > 0 && s@[0] == '+' { s@.skip(1) } else { s@ };
    assert(d == s@.skip(start as int));
    if start == n {
        return None;
    }
    let mut acc: u64 = 0;
    let mut over = false;
    let mut i: usize = start;
    while i < n
        invariant
            n == s@.len(),
            start <= i <= n,
            radix == 8 || radix == 10 || radix == 16,
            d == s@.skip(start as int),
            d == (if s@.len() > 0 && s@[0] == '+' { s@.skip(1) } else { s@ }),
            all_radix_digits(d.take(i - start), radix as nat),
            !over ==> acc == digits_value(d.take(i - start), radix as nat),
            !over ==> acc <= max,
            over ==> digits_value(d.take(i - start), radix as nat) > max,
        decreases n - i,
    {
        let c = s[i];
        let v: u32 = if '0' <= c && c <= '9' {
            (c as u32) - ('0' as u32)
        } else if 'a' <= c && c <= 'z' {
            (c as u32) - ('a' as u32) + 10
        } else if 'A' <= c && c <= 'Z' {
            (c as u32) - ('A' as u32) + 10
        } else {
            radix
        };
        let ghost k: int = i - start;
        assert(d[k] == c);
        if v >= radix {
            assert(radix_digit(d[k], radix as nat) is None);
            assert(!all_radix_digits(d, radix as nat));
            assert(d.len() > 0);
            assert(parse_unsigned(s@, radix as nat, max as nat) is None);
            return None;
        }
        assert(radix_digit(c, radix as nat) == Some(v as nat));
        proof {
            assert forall|j: int| 0 <= j < k + 1 implies (#[trigger] radix_digit(d.take(k + 1)[j], radix as nat)) is Some by {
                if j < k {
                    assert(d.take(k + 1)[j] == d.take(k)[j]);
                }
            }
            lemma_digits_value_prefix(d.take(k + 1), radix as nat, k);
            assert(d.take(k + 1).take(k + 1) == d.take(k + 1));
            assert(d.take(k + 1).take(k) == d.take(k));
        }
        if !over {
            if (v as u64) > max || acc > (max - v as u64) / (radix as u64) {
                over = true;
                proof {
                    if v <= max {
                        assert(acc * radix + v > max) by (nonlinear_arith)
                            requires acc > (max - v) / (radix as int), radix >= 1, v <= max;
                    } else {
                        assert(acc * radix + v > max) by (nonlinear_arith)
                            requires acc >= 0, radix >= 1, v > max;
                    }
                }
            } else {
                proof {
                    assert(acc * radix + v <= max) by (nonlinear_arith)
                        requires acc <= (max - v) / (radix as int), radix >= 1, v <= max;
                }
                acc = acc * (radix as u64) + (v as u64);
            }
        } else {
            proof {
                assert(digits_value(d.take(k + 1), radix as nat) >= digits_value(d.take(k), radix as nat));
            }
        }
        i = i + 1;
    }
    assert(d.take(n - start) == d);
    if over {
        None
    } else {
        Some(acc)
    }
}

/// Casting a small digit value to a character and back is lossless.
pub proof fn lemma_digit_char(d: nat)
    requires
        d < 10,
    ensures
        digit_char(d) as int == '0' as int + d,
        radix_digit(digit_char(d), 10) == Some(d),
        digit_char(d) != '+',
{
    assert(digit_char(d) as int == '0' as int + d);
}

/// Decimal digits of `n`.
pub fn decimal_chars(n: u64) -> (v: Vec<char>)
    ensures
        v@ == decimal(n as nat),
    decreases n,
{
    if n < 10 {
        let c = (('0' as u8) + (n as u8)) as char;
        assert(c == digit_char(n as nat));
        let mut v: Vec<char> = Vec::new();
        v.push(c);
        v
    } else {
        let mut v = decimal_chars(n / 10);
        let d: u8 = (n % 10) as u8;
        let c = (('0' as u8) + d) as char;
        assert(c == digit_char((n % 10) as nat));
        v.push(c);
        v
    }
}

/// The decimal representation parses back to the same number.
pub proof fn lemma_decimal_parses(n: nat)
    ensures
        all_radix_digits(decimal(n), 10),
        decimal(n).len() >= 1,
        decimal(n)[0] != '+',
        digits_value(decimal(n), 10) == n,
    decreases n,
{
    if n < 10 {
        assert(decimal(n) == seq![digit_char(n)]);
        assert(decimal(n).drop_last() =~= Seq::<char>::empty());
        lemma_digit_char(n);
        assert(decimal(n).last() == digit_char(n));
        assert(digits_value(decimal(n).drop_last(), 10) == 0);
        assert(digits_value(decimal(n), 10) == 0 * 10 + n);
    } else {
        lemma_decimal_parses(n / 10);
        let p = decimal(n / 10);
        assert(decimal(n) == p.push(digit_char(n % 10)));
        assert(decimal(n).drop_last() == p);
        lemma_digit_char(n % 10);
        assert forall|i: int| 0 <= i < decimal(n).len() implies (#[trigger] radix_digit(decimal(n)[i], 10)) is Some by {
            if i < p.len() {
                assert(decimal(n)[i] == p[i]);
            }
        }
        assert(decimal(n)[0] == p[0]);
        assert(decimal(n).last() == digit_char(n % 10));
        assert(digits_value(decimal(n), 10) == digits_value(p, 10) * 10 + n % 10);
        assert((n / 10) * 10 + n % 10 == n);
    }
}

/// Decimal numbers have at most as many digits as their magnitude allows.
pub proof fn lemma_decimal_len(n: nat)
    ensures
        n < 10 ==> decimal(n).len() == 1,
        10 <= n < 100 ==> decimal(n).len() == 2,
        n >= 100 ==> decimal(n).len() >= 3,
    decreases n,
{
    if n >= 10 {
        lemma_decimal_len(n / 10);
    }
}

} // verus!
