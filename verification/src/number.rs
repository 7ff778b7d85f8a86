//! Numerals: reading and writing unsigned numbers in base ten and sixteen.

use vstd::prelude::*;

verus! {

/// The value of a digit in base `radix`, for a base of at most sixteen.
pub open spec fn digit_value(c: char, radix: nat) -> Option<nat> {
    let v = c as u32;
    let value: nat = if 0x30 <= v <= 0x39 {
        (v - 0x30) as nat
    } else if 0x41 <= v <= 0x46 {
        (v - 0x41 + 10) as nat
    } else if 0x61 <= v <= 0x66 {
        (v - 0x61 + 10) as nat
    } else {
        radix
    };
    if value < radix {
        Some(value)
    } else {
        None
    }
}

pub open spec fn all_digits(s: Seq<char>, radix: nat) -> bool {
    forall|i: int| 0 <= i < s.len() ==> digit_value(#[trigger] s[i], radix) is Some
}

/// The number that a row of digits stands for.
pub open spec fn digits_value(s: Seq<char>, radix: nat) -> nat
    decreases s.len(),
{
    if s.len() == 0 {
        0
    } else {
        digits_value(s.drop_last(), radix) * radix + digit_value(s.last(), radix).unwrap_or(0)
    }
}

/// The digits of a numeral behind the plus sign that it may start with.
pub open spec fn without_plus(s: Seq<char>) -> Seq<char> {
    if s.len() > 0 && s[0] == '+' {
        s.skip(1)
    } else {
        s
    }
}

/// The number that `s` denotes: at least one digit, a plus sign allowed in front,
/// nothing else, and a value of at most `max`.
pub open spec fn unsigned(s: Seq<char>, radix: nat, max: nat) -> Option<nat> {
    let digits = without_plus(s);
    if digits.len() > 0 && all_digits(digits, radix) && digits_value(digits, radix) <= max {
        Some(digits_value(digits, radix))
    } else {
        None
    }
}

fn digit(c: char, radix: u64) -> (value: Option<u64>)
    requires
        radix <= 16,
    ensures
        match value {
            Some(v) => digit_value(c, radix as nat) == Some(v as nat) && v < radix,
            None => digit_value(c, radix as nat) is None,
        },
{
    let v: u32 = c as u32;
    let value: u64 = if 0x30 <= v && v <= 0x39 {
        (v - 0x30) as u64
    } else if 0x41 <= v && v <= 0x46 {
        (v - 0x41 + 10) as u64
    } else if 0x61 <= v && v <= 0x66 {
        (v - 0x61 + 10) as u64
    } else {
        radix
    };
    if value < radix {
        Some(value)
    } else {
        None
    }
}

proof fn digits_value_grows(s: Seq<char>, end: int, radix: nat)
    requires
        0 <= end <= s.len(),
        radix >= 1,
    ensures
        digits_value(s.take(end), radix) <= digits_value(s, radix),
    decreases s.len(),
{
    if end < s.len() {
        digits_value_grows(s.drop_last(), end, radix);
        assert(s.drop_last().take(end) =~= s.take(end));
        let before = digits_value(s.drop_last(), radix);
        assert(before * radix >= before) by (nonlinear_arith)
            requires
                radix >= 1,
        ;
    } else {
        assert(s.take(end) =~= s);
    }
}

/// Reads an unsigned numeral in base `radix` whose value is at most `max`.
pub fn parse_unsigned(chars: &[char], radix: u64, max: u64) -> (value: Option<u64>)
    requires
        2 <= radix <= 16,
    ensures
        match value {
            Some(v) => unsigned(chars@, radix as nat, max as nat) == Some(v as nat) && v <= max,
            None => unsigned(chars@, radix as nat, max as nat) is None,
        },
{
    let start: usize = if chars.len() > 0 && chars[0] == '+' {
        1
    } else {
        0
    };
    let ghost digits = without_plus(chars@);
    assert(digits =~= chars@.skip(start as int));
    if start == chars.len() {
        return None;
    }
    let mut value: u64 = 0;
    let mut i: usize = start;
    assert(digits.take(0) =~= Seq::empty());
    while i < chars.len()
        invariant
            start <= i <= chars@.len(),
            start < chars@.len(),
            2 <= radix <= 16,
            digits == without_plus(chars@),
            digits == chars@.skip(start as int),
            value <= max,
            value == digits_value(digits.take(i - start), radix as nat),
            all_digits(digits.take(i - start), radix as nat),
        decreases chars.len() - i,
    {
        let ghost at = i - start;
        assert(digits.take(at + 1).drop_last() =~= digits.take(at));
        assert(digits.take(at + 1).last() == chars@[i as int]);
        match digit(chars[i], radix) {
            None => {
                assert(digits[at] == chars@[i as int]);
                return None;
            },
            Some(d) => {
                assert(0 <= value * radix <= 0xffff_ffff_ffff_ffff * 16) by (nonlinear_arith)
                    requires
                        0 <= value <= 0xffff_ffff_ffff_ffff,
                        0 <= radix <= 16,
                ;
                let next: u128 = value as u128 * radix as u128 + d as u128;
                assert(next == digits_value(digits.take(at + 1), radix as nat));
                if next > max as u128 {
                    proof {
                        digits_value_grows(digits, at + 1, radix as nat);
                    }
                    return None;
                }
                value = next as u64;
                assert forall|j: int| 0 <= j < at + 1 implies digit_value(
                    #[trigger] digits.take(at + 1)[j],
                    radix as nat,
                ) is Some by {
                    if j < at {
                        assert(digits.take(at + 1)[j] == digits.take(at)[j]);
                    }
                }
            },
        }
        i += 1;
    }
    assert(digits.take(digits.len() as int) =~= digits);
    Some(value)
}

/// The digit for a value below sixteen, in lower case.
pub open spec fn digit_char(value: nat) -> char {
    if value < 10 {
        (0x30 + value) as u8 as char
    } else {
        (0x61 + value - 10) as u8 as char
    }
}

/// The shortest numeral for `n` in base `radix`.
pub open spec fn numeral(n: nat, radix: nat) -> Seq<char>
    decreases n,
    via numeral_decreases
{
    if radix < 2 || n < radix {
        seq![digit_char(n % 16)]
    } else {
        numeral(n / radix, radix).push(digit_char(n % radix))
    }
}

#[via_fn]
proof fn numeral_decreases(n: nat, radix: nat) {
    if !(radix < 2 || n < radix) {
        assert(n / radix < n) by (nonlinear_arith)
            requires
                n >= radix,
                radix >= 2,
        ;
    }
}

/// `s` behind as many zeros as make its length at least `width`.
pub open spec fn zero_padded(s: Seq<char>, width: nat) -> Seq<char> {
    if s.len() < width {
        Seq::new((width - s.len()) as nat, |i: int| '0') + s
    } else {
        s
    }
}

fn char_of_digit(value: u8) -> (c: char)
    requires
        value < 16,
    ensures
        c == digit_char(value as nat),
{
    if value < 10 {
        (0x30 + value) as char
    } else {
        (0x61 + (value - 10)) as char
    }
}

/// Writes `n` in base `radix`, with zeros in front up to `width`.
pub fn format_unsigned(n: u128, radix: u128, width: usize) -> (digits: Vec<char>)
    requires
        2 <= radix <= 16,
    ensures
        digits@ == zero_padded(numeral(n as nat, radix as nat), width as nat),
{
    let mut reversed: Vec<char> = Vec::new();
    let mut rest: u128 = n;
    assert(numeral(n as nat, radix as nat) + reversed@.reverse() =~= numeral(
        n as nat,
        radix as nat,
    ));
    while rest >= radix
        invariant
            2 <= radix <= 16,
            numeral(rest as nat, radix as nat) + reversed@.reverse() == numeral(
                n as nat,
                radix as nat,
            ),
        decreases rest,
    {
        let ghost before = reversed@;
        let ghost whole = rest as nat;
        let d: u8 = (rest % radix) as u8;
        proof {
            assert(rest / radix < rest) by (nonlinear_arith)
                requires
                    rest >= radix,
                    radix >= 2,
            ;
        }
        reversed.push(char_of_digit(d));
        rest = rest / radix;
        proof {
            assert(reversed@.reverse() =~= seq![digit_char(whole % radix as nat)]
                + before.reverse());
            assert(numeral(rest as nat, radix as nat) + reversed@.reverse() =~= numeral(
                whole,
                radix as nat,
            ) + before.reverse());
        }
    }
    reversed.push(char_of_digit(rest as u8));
    let ghost plain = numeral(n as nat, radix as nat);
    assert(reversed@.reverse() =~= plain);
    let mut digits: Vec<char> = Vec::new();
    let ghost zeros = if plain.len() < width {
        (width - plain.len()) as nat
    } else {
        0
    };
    let total: usize = if reversed.len() < width {
        width
    } else {
        reversed.len()
    };
    let mut i: usize = 0;
    while i < total
        invariant
            i <= total,
            total == zeros + plain.len(),
            reversed@.len() == plain.len(),
            reversed@.reverse() == plain,
            digits@ =~= (Seq::new(zeros, |k: int| '0') + plain).take(i as int),
        decreases total - i,
    {
        let left: usize = total - i;
        if left > reversed.len() {
            digits.push('0');
        } else {
            assert(plain[plain.len() - left] == reversed@[left - 1]);
            digits.push(reversed[left - 1]);
        }
        i += 1;
    }
    assert(digits@ =~= zero_padded(plain, width as nat));
    digits
}

/// A digit reads as the value that it was written for.
pub proof fn digit_char_round_trip(value: nat, radix: nat)
    requires
        value < radix <= 16,
    ensures
        digit_value(digit_char(value), radix) == Some(value),
        digit_char(value) != '+',
{
}

proof fn numeral_reads_back(n: nat, radix: nat)
    requires
        2 <= radix <= 16,
    ensures
        numeral(n, radix).len() > 0,
        all_digits(numeral(n, radix), radix),
        digits_value(numeral(n, radix), radix) == n,
    decreases n,
{
    let s = numeral(n, radix);
    if n < radix {
        digit_char_round_trip(n, radix);
        assert(s.drop_last() =~= Seq::empty());
        assert(digits_value(s.drop_last(), radix) == 0);
        assert(0 * radix == 0) by (nonlinear_arith);
    } else {
        assert(n / radix < n && (n / radix) * radix + n % radix == n) by (nonlinear_arith)
            requires
                n >= radix,
                radix >= 2,
        ;
        numeral_reads_back(n / radix, radix);
        assert(n % radix < radix) by (nonlinear_arith)
            requires
                radix >= 2,
        ;
        digit_char_round_trip(n % radix, radix);
        assert(s.drop_last() =~= numeral(n / radix, radix));
        assert forall|i: int| 0 <= i < s.len() implies digit_value(
            #[trigger] s[i],
            radix,
        ) is Some by {
            if i < s.len() - 1 {
                assert(s[i] == s.drop_last()[i]);
            }
        }
    }
}

/// Reading the numeral of a number gives the number back, where it is in range.
pub proof fn written_number_reads_back(n: nat, radix: nat, max: nat)
    requires
        2 <= radix <= 16,
        n <= max,
    ensures
        unsigned(numeral(n, radix), radix, max) == Some(n),
{
    numeral_reads_back(n, radix);
    assert(digit_value(numeral(n, radix)[0], radix) is Some);
    assert(without_plus(numeral(n, radix)) == numeral(n, radix));
}

/// A decimal digit that is written behind a number makes it ten times as large and adds
/// its own value; nothing written is zero.
pub proof fn digits_have_place_values(s: Seq<char>, digit: char)
    requires
        '0' <= digit <= '9',
    ensures
        digits_value(s.push(digit), 10) == 10 * digits_value(s, 10) + (digit as u32 - '0' as u32),
        digits_value(Seq::empty(), 10) == 0,
{
    assert(s.push(digit).drop_last() =~= s);
}

/// A row of decimal digits.
pub open spec fn only_decimals(s: Seq<char>) -> bool {
    forall|i: int| 0 <= i < s.len() ==> '0' <= #[trigger] s[i] <= '9'
}

proof fn one_decimal(c: char)
    ensures
        digit_value(c, 10) is Some <==> '0' <= c <= '9',
{
}

/// A numeral is read where it is one: at least one digit, nothing but digits behind the
/// plus sign that it may have, and a value that fits.
pub proof fn numerals_alone_are_read(s: Seq<char>, max: nat)
    ensures
        s.len() > 0 && only_decimals(s) && digits_value(s, 10) <= max ==> unsigned(s, 10, max)
            == Some(digits_value(s, 10)) && unsigned(seq!['+'] + s, 10, max) == Some(
            digits_value(s, 10),
        ),
        s.len() > 0 && only_decimals(s) && digits_value(s, 10) > max ==> unsigned(s, 10, max)
            is None,
        unsigned(Seq::empty(), 10, max) is None,
        unsigned(seq!['+'], 10, max) is None,
        unsigned(s, 10, max) is Some ==> s.len() > 0 && (only_decimals(s) || s[0] == '+'
            && only_decimals(s.skip(1))),
{
    assert((seq!['+'] + s).skip(1) =~= s);
    assert(seq!['+'].skip(1) =~= Seq::<char>::empty());
    if s.len() > 0 && only_decimals(s) {
        assert('0' <= s[0] <= '9');
        assert forall|i: int| 0 <= i < s.len() implies digit_value(#[trigger] s[i], 10) is Some by {
            assert('0' <= s[i] <= '9');
        }
    }
    if unsigned(s, 10, max) is Some {
        let digits = without_plus(s);
        assert forall|i: int| 0 <= i < digits.len() implies '0' <= #[trigger] digits[i] <= '9' by {
            one_decimal(digits[i]);
        }
        if s.len() > 0 && s[0] == '+' && s.len() > 1 {
            assert(digits == s.skip(1));
        }
    }
}

/// A number is written without a zero in front, and zero as one digit.
pub proof fn numerals_are_short(n: nat)
    ensures
        numeral(n, 10).len() > 0,
        only_decimals(numeral(n, 10)),
        n > 0 ==> numeral(n, 10)[0] != '0',
        n < 10 ==> numeral(n, 10).len() == 1,
        n < 100 ==> numeral(n, 10).len() <= 2,
        n < 1_000 ==> numeral(n, 10).len() <= 3,
    decreases n,
{
    let s = numeral(n, 10);
    if n >= 10 {
        numerals_are_short(n / 10);
        assert forall|i: int| 0 <= i < s.len() implies '0' <= #[trigger] s[i] <= '9' by {
            if i < s.len() - 1 {
                assert(s[i] == numeral(n / 10, 10)[i]);
            }
        }
        assert(s[0] == numeral(n / 10, 10)[0]);
    }
}

/// Zeros in front change nothing of what is read, and fill up to the width.
pub proof fn padding_changes_no_value(s: Seq<char>, width: nat)
    ensures
        digits_value(zero_padded(s, width), 10) == digits_value(s, 10),
        zero_padded(s, width).len() == (if s.len() < width {
            width
        } else {
            s.len()
        }),
        only_decimals(s) ==> only_decimals(zero_padded(s, width)),
        s.len() <= width ==> zero_padded(s, width).skip(width - s.len()) == s,
    decreases s.len(),
{
    let all = zero_padded(s, width);
    if s.len() < width {
        let zeros = Seq::new((width - s.len()) as nat, |i: int| '0');
        zeros_in_front(zeros, s, 10);
        assert(all.skip(width - s.len()) =~= s);
    } else {
        assert(all.skip(0) =~= all);
    }
}

/// A number is written in base sixteen with small letters, and below 256 with two of them
/// at most.
pub proof fn numerals_are_small_letters(n: nat)
    ensures
        numeral(n, 16).len() > 0,
        forall|i: int|
            0 <= i < numeral(n, 16).len() ==> ('0' <= #[trigger] numeral(n, 16)[i] <= '9' || 'a'
                <= numeral(n, 16)[i] <= 'f'),
        n < 16 ==> numeral(n, 16).len() == 1,
        n < 256 ==> numeral(n, 16).len() <= 2,
    decreases n,
{
    let s = numeral(n, 16);
    if n >= 16 {
        numerals_are_small_letters(n / 16);
        assert forall|i: int| 0 <= i < s.len() implies ('0' <= #[trigger] s[i] <= '9' || 'a' <= s[i]
            <= 'f') by {
            if i < s.len() - 1 {
                assert(s[i] == numeral(n / 16, 16)[i]);
            }
        }
    }
}

/// A number that is written with zeros in front, up to some width, is read as the same.
pub proof fn padded_number_reads_back(n: nat, radix: nat, max: nat, width: nat)
    requires
        2 <= radix <= 16,
        n <= max,
    ensures
        unsigned(zero_padded(numeral(n, radix), width), radix, max) == Some(n),
        zero_padded(numeral(n, radix), width).len() == (if numeral(n, radix).len() < width {
            width
        } else {
            numeral(n, radix).len()
        }),
{
    let s = numeral(n, radix);
    let all = zero_padded(s, width);
    written_number_reads_back(n, radix, max);
    numeral_reads_back(n, radix);
    if s.len() < width {
        let zeros = Seq::new((width - s.len()) as nat, |i: int| '0');
        zeros_in_front(zeros, s, radix);
        assert(all[0] == '0');
        assert forall|i: int| 0 <= i < all.len() implies digit_value(#[trigger] all[i], radix)
            is Some by {
            if i >= zeros.len() {
                assert(all[i] == s[i - zeros.len()]);
            }
        }
    }
}

proof fn zeros_in_front(zeros: Seq<char>, s: Seq<char>, radix: nat)
    requires
        2 <= radix <= 16,
        forall|i: int| 0 <= i < zeros.len() ==> #[trigger] zeros[i] == '0',
    ensures
        digits_value(zeros + s, radix) == digits_value(s, radix),
    decreases s.len(), zeros.len(),
{
    if s.len() > 0 {
        zeros_in_front(zeros, s.drop_last(), radix);
        assert((zeros + s).drop_last() =~= zeros + s.drop_last());
        assert((zeros + s).last() == s.last());
    } else if zeros.len() > 0 {
        zeros_in_front(zeros.drop_last(), s, radix);
        assert((zeros + s).drop_last() =~= zeros.drop_last() + s);
        assert((zeros + s).last() == '0');
        assert(0 * radix == 0) by (nonlinear_arith);
    } else {
        assert(zeros + s =~= s);
    }
}

/// In base sixteen the letters from `a` to `f`, small or capital, stand for ten to fifteen.
pub proof fn letters_are_digits_in_base_sixteen(c: char)
    ensures
        '0' <= c <= '9' ==> digit_value(c, 16) == Some((c as u32 - '0' as u32) as nat),
        'a' <= c <= 'f' ==> digit_value(c, 16) == Some((c as u32 - 'a' as u32 + 10) as nat),
        'A' <= c <= 'F' ==> digit_value(c, 16) == Some((c as u32 - 'A' as u32 + 10) as nat),
        !('0' <= c <= '9' || 'a' <= c <= 'f' || 'A' <= c <= 'F') ==> digit_value(c, 16) is None,
{
}

} // verus!
