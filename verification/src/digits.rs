//! Decimal and hexadecimal rendering of integers into character buffers.
use vstd::prelude::*;

verus! {

/// The ASCII digit for `d` in `0..16` (lower-case hex above 9).
pub open spec fn digit_spec(d: int) -> char {
    if d == 0 {
        '0'
    } else if d == 1 {
        '1'
    } else if d == 2 {
        '2'
    } else if d == 3 {
        '3'
    } else if d == 4 {
        '4'
    } else if d == 5 {
        '5'
    } else if d == 6 {
        '6'
    } else if d == 7 {
        '7'
    } else if d == 8 {
        '8'
    } else if d == 9 {
        '9'
    } else if d == 10 {
        'a'
    } else if d == 11 {
        'b'
    } else if d == 12 {
        'c'
    } else if d == 13 {
        'd'
    } else if d == 14 {
        'e'
    } else {
        'f'
    }
}

/// Decimal digits of `n`, most significant first, without leading zeros.
pub open spec fn decimal_spec(n: nat) -> Seq<char>
    decreases n,
{
    if n < 10 {
        seq![digit_spec(n as int)]
    } else {
        decimal_spec(n / 10).push(digit_spec((n % 10) as int))
    }
}

/// The last `k` hexadecimal digits of `n`, most significant first.
pub open spec fn hex_spec(n: nat, k: nat) -> Seq<char>
    decreases k,
{
    if k == 0 {
        Seq::empty()
    } else {
        hex_spec(n / 16, (k - 1) as nat).push(digit_spec((n % 16) as int))
    }
}

/// `10^k`.
pub open spec fn pow10(k: nat) -> nat
    decreases k,
{
    if k == 0 {
        1
    } else {
        10 * pow10((k - 1) as nat)
    }
}

/// Every character of `s` is ASCII.
pub open spec fn all_ascii(s: Seq<char>) -> bool {
    forall|i: int| 0 <= i < s.len() ==> (s[i] as u32) < 0x80
}

pub fn digit_char(d: u64) -> (c: char)
    requires
        d < 16,
    ensures
        c == digit_spec(d as int),
        (c as u32) < 0x80,
{
    match d {
        0 => '0',
        1 => '1',
        2 => '2',
        3 => '3',
        4 => '4',
        5 => '5',
        6 => '6',
        7 => '7',
        8 => '8',
        9 => '9',
        10 => 'a',
        11 => 'b',
        12 => 'c',
        13 => 'd',
        14 => 'e',
        _ => 'f',
    }
}

pub proof fn lemma_digit_ascii(d: int)
    ensures
        (digit_spec(d) as u32) < 0x80,
{
}

/// Decimal text is ASCII, one to `k` characters for `n < 10^k`.
pub proof fn lemma_decimal_len(n: nat, k: nat)
    requires
        k >= 1,
        n < pow10(k),
    ensures
        1 <= decimal_spec(n).len() <= k,
        all_ascii(decimal_spec(n)),
    decreases n,
{
    if n >= 10 {
        assert(k >= 2) by {
            if k == 1 {
                assert(pow10(1) == 10 * pow10(0));
            }
        }
        assert(n / 10 < pow10((k - 1) as nat));
        lemma_decimal_len(n / 10, (k - 1) as nat);
        lemma_digit_ascii((n % 10) as int);
    } else {
        lemma_digit_ascii(n as int);
    }
}

/// Hex text of `k` digits is ASCII and exactly `k` characters.
pub proof fn lemma_hex_len(n: nat, k: nat)
    ensures
        hex_spec(n, k).len() == k,
        all_ascii(hex_spec(n, k)),
    decreases k,
{
    if k > 0 {
        lemma_hex_len(n / 16, (k - 1) as nat);
        lemma_digit_ascii((n % 16) as int);
    }
}

/// `u64` values have at most twenty decimal digits.
pub proof fn lemma_u64_below_pow10_20(n: u64)
    ensures
        n < pow10(20),
{
    reveal_with_fuel(pow10, 21);
}

/// Appends the decimal digits of `n`.
pub fn push_decimal(out: &mut Vec<char>, n: u64)
    ensures
        final(out)@ == old(out)@ + decimal_spec(n as nat),
    decreases n,
{
    if n >= 10 {
        push_decimal(out, n / 10);
    }
    let d = digit_char(n % 10);
    out.push(d);
    assert(final(out)@ =~= old(out)@ + decimal_spec(n as nat)) by {
        if n >= 10 {
            assert(decimal_spec(n as nat) == decimal_spec((n / 10) as nat).push(digit_spec((n % 10) as int)));
        }
    }
}

/// Appends the last `k` hexadecimal digits of `n`, zero-padded.
pub fn push_hex(out: &mut Vec<char>, n: u64, k: u32)
    ensures
        final(out)@ == old(out)@ + hex_spec(n as nat, k as nat),
    decreases k,
{
    if k > 0 {
        push_hex(out, n / 16, k - 1);
        let d = digit_char(n % 16);
        out.push(d);
        assert(final(out)@ =~= old(out)@ + hex_spec(n as nat, k as nat));
    } else {
        assert(final(out)@ =~= old(out)@ + hex_spec(n as nat, k as nat));
    }
}

/// Copies the ASCII characters `text` into the front of `buf` as bytes,
/// leaving the rest of `buf` unchanged.
pub fn fill_ascii<const N: usize>(buf: &mut [u8; N], text: &Vec<char>)
    requires
        text@.len() <= N,
        all_ascii(text@),
    ensures
        forall|i: int| 0 <= i < text@.len() ==> final(buf)@[i] as u32 == text@[i] as u32,
        forall|i: int| text@.len() <= i < N ==> final(buf)@[i] == old(buf)@[i],
{
    let mut i: usize = 0;
    while i < text.len()
        invariant
            text@.len() <= N,
            all_ascii(text@),
            i <= text@.len(),
            forall|j: int| 0 <= j < i ==> buf@[j] as u32 == text@[j] as u32,
            forall|j: int| i <= j < N ==> buf@[j] == old(buf)@[j],
        decreases text@.len() - i,
    {
        let c = text[i];
        buf[i] = (c as u32) as u8;
        i = i + 1;
    }
}

/// The upper-case hexadecimal digit for `d` in `0..16`.
pub open spec fn upper_digit_spec(d: int) -> char {
    if d == 10 {
        'A'
    } else if d == 11 {
        'B'
    } else if d == 12 {
        'C'
    } else if d == 13 {
        'D'
    } else if d == 14 {
        'E'
    } else if d == 15 {
        'F'
    } else {
        digit_spec(d)
    }
}

/// The last `k` upper-case hexadecimal digits of `n`, most significant
/// first.
pub open spec fn upper_hex_spec(n: nat, k: nat) -> Seq<char>
    decreases k,
{
    if k == 0 {
        Seq::empty()
    } else {
        upper_hex_spec(n / 16, (k - 1) as nat).push(upper_digit_spec((n % 16) as int))
    }
}

/// How many hexadecimal digits `n` has (one for zero).
pub open spec fn hex_len(n: nat) -> nat
    decreases n,
{
    if n < 16 {
        1
    } else {
        1 + hex_len(n / 16)
    }
}

/// `n` in upper-case hexadecimal, zero-padded to at least `width` digits.
pub open spec fn upper_hex_padded(n: nat, width: nat) -> Seq<char> {
    upper_hex_spec(n, if hex_len(n) < width { width } else { hex_len(n) })
}

/// The upper-case character for hexadecimal digit `d`.
pub fn upper_digit_char(d: u64) -> (c: char)
    requires
        d < 16,
    ensures
        c == upper_digit_spec(d as int),
{
    match d {
        10 => 'A',
        11 => 'B',
        12 => 'C',
        13 => 'D',
        14 => 'E',
        15 => 'F',
        _ => digit_char(d),
    }
}

/// Appends the last `k` upper-case hexadecimal digits of `n`.
pub fn push_upper_hex(out: &mut Vec<char>, n: u64, k: u32)
    ensures
        final(out)@ == old(out)@ + upper_hex_spec(n as nat, k as nat),
    decreases k,
{
    if k > 0 {
        push_upper_hex(out, n / 16, k - 1);
        let d = upper_digit_char(n % 16);
        out.push(d);
        assert(final(out)@ =~= old(out)@ + upper_hex_spec(n as nat, k as nat));
    } else {
        assert(final(out)@ =~= old(out)@ + upper_hex_spec(n as nat, k as nat));
    }
}

/// The number of hexadecimal digits of `n`.
pub fn hex_digits(n: u64) -> (k: u32)
    ensures
        k == hex_len(n as nat),
        k <= 16,
    decreases n,
{
    if n < 16 {
        1
    } else {
        proof {
            assert(n / 16 < 0x1000_0000_0000_0000);
        }
        let k = hex_digits(n / 16);
        proof {
            if k == 16 {
                reveal_with_fuel(pow16, 16);
                assert(pow16(15) == 0x1000_0000_0000_0000);
                lemma_hex_len_bound((n / 16) as nat, 15);
                assert(false);
            }
        }
        1 + k
    }
}

/// Below `16^k` a number has at most `k` hexadecimal digits.
proof fn lemma_hex_len_bound(n: nat, k: nat)
    requires
        k >= 1,
        n < pow16(k),
    ensures
        hex_len(n) <= k,
    decreases n,
{
    if n >= 16 {
        assert(k >= 2) by {
            if k == 1 {
                assert(pow16(1) == 16 * pow16(0));
            }
        }
        assert(n / 16 < pow16((k - 1) as nat));
        lemma_hex_len_bound(n / 16, (k - 1) as nat);
    }
}

/// The value a digit character stands for: `0`-`9`, then `a`-`f` or
/// `A`-`F` for ten to fifteen.
pub open spec fn digit_value(c: char) -> int {
    let u = c as u32;
    if 48 <= u <= 57 {
        u - 48
    } else if 97 <= u <= 102 {
        u - 87
    } else if 65 <= u <= 70 {
        u - 55
    } else {
        -1
    }
}

/// The number a string of digits spells in base `b`, most significant
/// digit first.
pub open spec fn digits_value(s: Seq<char>, b: int) -> int
    decreases s.len(),
{
    if s.len() == 0 {
        0
    } else {
        digits_value(s.drop_last(), b) * b + digit_value(s.last())
    }
}

/// The digit characters are ASCII in their usual places: `0`-`9` from
/// code 48, then `a`-`f` from 97 (upper case `A`-`F` from 65); each one
/// stands for its value.
pub proof fn lemma_digit_codes(d: int)
    requires
        0 <= d < 16,
    ensures
        d < 10 ==> digit_spec(d) as u32 == 48 + d && upper_digit_spec(d) as u32 == 48 + d,
        10 <= d ==> digit_spec(d) as u32 == 87 + d && upper_digit_spec(d) as u32 == 55 + d,
        digit_value(digit_spec(d)) == d,
        digit_value(upper_digit_spec(d)) == d,
{
}

/// Decimal text reads back as the number it was made from, and has no
/// leading zero.
pub proof fn lemma_decimal_reads_back(n: nat)
    ensures
        digits_value(decimal_spec(n), 10) == n,
        decimal_spec(n).len() >= 1,
        n > 0 ==> decimal_spec(n)[0] != '0',
    decreases n,
{
    if n < 10 {
        lemma_digit_codes(n as int);
        assert(decimal_spec(n).drop_last() =~= Seq::<char>::empty());
        assert(digits_value(Seq::<char>::empty(), 10) == 0);
    } else {
        lemma_decimal_reads_back(n / 10);
        lemma_digit_codes((n % 10) as int);
        let s = decimal_spec(n);
        assert(s.drop_last() =~= decimal_spec(n / 10));
        assert(s[0] == decimal_spec(n / 10)[0]);
        vstd::arithmetic::div_mod::lemma_fundamental_div_mod(n as int, 10);
        assert((n / 10) * 10 == 10 * (n / 10)) by (nonlinear_arith);
    }
}

/// The last `k` hexadecimal digits of `n`, lower or upper case, read back
/// as `n` modulo `16^k`.
pub proof fn lemma_hex_reads_back(n: nat, k: nat)
    ensures
        hex_spec(n, k).len() == k,
        upper_hex_spec(n, k).len() == k,
        digits_value(hex_spec(n, k), 16) == n % pow16(k),
        digits_value(upper_hex_spec(n, k), 16) == n % pow16(k),
    decreases k,
{
    if k > 0 {
        lemma_hex_reads_back(n / 16, (k - 1) as nat);
        lemma_digit_codes((n % 16) as int);
        assert(hex_spec(n, k).drop_last() =~= hex_spec(n / 16, (k - 1) as nat));
        assert(upper_hex_spec(n, k).drop_last() =~= upper_hex_spec(n / 16, (k - 1) as nat));
        let p = pow16((k - 1) as nat);
        assert(p > 0) by {
            lemma_pow16_positive((k - 1) as nat);
        }
        vstd::arithmetic::div_mod::lemma_mod_breakdown(n as int, 16, p as int);
        assert(pow16(k) == 16 * p);
    }
}

proof fn lemma_pow16_positive(k: nat)
    ensures
        pow16(k) > 0,
    decreases k,
{
    if k > 0 {
        lemma_pow16_positive((k - 1) as nat);
    }
}

/// `16^k`.
pub open spec fn pow16(k: nat) -> nat
    decreases k,
{
    if k == 0 {
        1
    } else {
        16 * pow16((k - 1) as nat)
    }
}

/// Appends `n` in upper-case hexadecimal, zero-padded to at least `width`
/// digits.
pub fn push_upper_hex_padded(out: &mut Vec<char>, n: u64, width: u32)
    ensures
        final(out)@ == old(out)@ + upper_hex_padded(n as nat, width as nat),
{
    let len = hex_digits(n);
    let k = if len < width {
        width
    } else {
        len
    };
    push_upper_hex(out, n, k);
}

} // verus!
