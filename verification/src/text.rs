//! Building text: digits in base 10 and 16, and the `String` operations
//! the rest of the library composes.
use vstd::prelude::*;

verus! {

/// The character that stands for the digit `d` (upper-case for 10..15).
pub open spec fn digit_char(d: int) -> char
    recommends
        0 <= d < 16,
{
    seq!['0', '1', '2', '3', '4', '5', '6', '7', '8', '9', 'A', 'B', 'C', 'D', 'E', 'F'][d]
}

/// The decimal digits of `n`, most significant first, without leading zeros.
pub open spec fn decimal_digits(n: nat) -> Seq<char>
    decreases n,
{
    if n < 10 {
        seq![digit_char(n as int)]
    } else {
        decimal_digits(n / 10).push(digit_char((n % 10) as int))
    }
}

/// The upper-case hexadecimal digits of `n`, most significant first, without leading zeros.
pub open spec fn hex_digits(n: nat) -> Seq<char>
    decreases n,
{
    if n < 16 {
        seq![digit_char(n as int)]
    } else {
        hex_digits(n / 16).push(digit_char((n % 16) as int))
    }
}

/// `n` written in decimal, with a leading `-` when it is negative.
pub open spec fn decimal_text(n: int) -> Seq<char> {
    if n < 0 {
        seq!['-'] + decimal_digits((-n) as nat)
    } else {
        decimal_digits(n as nat)
    }
}

/// `count` copies of the character `c`.
pub open spec fn repeat_char(c: char, count: nat) -> Seq<char> {
    Seq::new(count, |i: int| c)
}

/// The upper-case hexadecimal digits of `n`, padded on the left with `0`
/// to at least `width` characters.
pub open spec fn hex_padded(n: nat, width: nat) -> Seq<char> {
    let digits = hex_digits(n);
    if digits.len() < width {
        repeat_char('0', (width - digits.len()) as nat) + digits
    } else {
        digits
    }
}

/// Appends one character to a `String`.
#[verifier::external_body]
pub(crate) fn push_char(s: &mut String, c: char)
    ensures
        final(s)@ == old(s)@.push(c),
{
    s.push(c);
}

/// The character for the digit `d`.
pub fn digit(d: u8) -> (c: char)
    requires
        d < 16,
    ensures
        c == digit_char(d as int),
{
    match d {
        0 => '0',
        1 => '1',
        2 => '2',
        3 => '3',
        4 => '4',
        5 => '5',
        6 => '6',
        7 => '7',
        8 => '8',
        9 => '9',
        10 => 'A',
        11 => 'B',
        12 => 'C',
        13 => 'D',
        14 => 'E',
        _ => 'F',
    }
}

/// Appends the decimal digits of `n`.
pub fn push_decimal(s: &mut String, n: u64)
    ensures
        final(s)@ == old(s)@ + decimal_digits(n as nat),
    decreases n,
{
    if n >= 10 {
        push_decimal(s, n / 10);
    }
    push_char(s, digit((n % 10) as u8));
}

/// Appends the upper-case hexadecimal digits of `n`.
pub fn push_hex(s: &mut String, n: u64)
    ensures
        final(s)@ == old(s)@ + hex_digits(n as nat),
    decreases n,
{
    if n >= 16 {
        push_hex(s, n / 16);
    }
    push_char(s, digit((n % 16) as u8));
}

/// Appends `n` in decimal, with a leading `-` when it is negative.
pub fn push_signed_decimal(s: &mut String, n: i64)
    ensures
        final(s)@ == old(s)@ + decimal_text(n as int),
{
    if n < 0 {
        push_char(s, '-');
        let magnitude: u64 = (-(n as i128)) as u64;
        push_decimal(s, magnitude);
        assert(old(s)@.push('-') + decimal_digits(magnitude as nat) =~= old(s)@ + (seq!['-']
            + decimal_digits(magnitude as nat)));
    } else {
        push_decimal(s, n as u64);
    }
}

/// `n` written in decimal, as `i64::to_string` writes it.
pub fn signed_decimal_string(n: i64) -> (r: String)
    ensures
        r@ == decimal_text(n as int),
{
    let mut s = String::new();
    push_signed_decimal(&mut s, n);
    proof {
        assert(Seq::<char>::empty() + decimal_text(n as int) =~= decimal_text(n as int));
    }
    s
}

/// The number of hexadecimal digits of `n`.
pub fn hex_digit_count(n: u64) -> (c: usize)
    ensures
        c == hex_digits(n as nat).len(),
        1 <= c <= 16,
    decreases n,
{
    if n >= 16 {
        proof {
            lemma_u64_below_pow16();
            lemma_hex_digits_len(n as nat, 16);
        }
        1 + hex_digit_count(n / 16)
    } else {
        1
    }
}

/// `16` to the power `k`.
pub open spec fn pow16(k: nat) -> nat
    decreases k,
{
    if k == 0 {
        1
    } else {
        16 * pow16((k - 1) as nat)
    }
}

/// A number below `16^k` (with `k >= 1`) has at most `k` hexadecimal digits.
pub proof fn lemma_hex_digits_len(n: nat, k: nat)
    requires
        k >= 1,
        n < pow16(k),
    ensures
        1 <= hex_digits(n).len() <= k,
    decreases n,
{
    if n >= 16 {
        let p = pow16((k - 1) as nat);
        assert(pow16(k) == 16 * p);
        if k == 1 {
            assert(pow16(0) == 1);
        }
        assert(k >= 2);
        assert(n / 16 < p) by (nonlinear_arith)
            requires
                n < 16 * p,
        ;
        lemma_hex_digits_len(n / 16, (k - 1) as nat);
    }
}

/// Every `u64` is below `16^16`.
pub proof fn lemma_u64_below_pow16()
    ensures
        pow16(16) == 0x1_0000_0000_0000_0000,
{
    reveal_with_fuel(pow16, 17);
}

/// Appends `n` in upper-case hexadecimal, padded on the left with `0` to at
/// least `width` characters.
pub fn push_hex_padded(s: &mut String, n: u64, width: usize)
    ensures
        final(s)@ == old(s)@ + hex_padded(n as nat, width as nat),
{
    let count = hex_digit_count(n);
    let ghost start = s@;
    if count < width {
        let pad = width - count;
        let mut i: usize = 0;
        while i < pad
            invariant
                i <= pad,
                s@ == start + repeat_char('0', i as nat),
            decreases pad - i,
        {
            push_char(s, '0');
            i = i + 1;
            assert(start + repeat_char('0', i as nat) =~= (start + repeat_char('0', (i - 1) as nat)).push('0'));
        }
        push_hex(s, n);
        assert(s@ =~= start + (repeat_char('0', pad as nat) + hex_digits(n as nat)));
    } else {
        push_hex(s, n);
    }
}

/// The value of the digit character `c` (`0`-`9`, `A`-`F`), or -1 for any
/// other character.
pub open spec fn char_digit_value(c: char) -> int {
    if '0' <= c && c <= '9' {
        c as int - '0' as int
    } else if 'A' <= c && c <= 'F' {
        c as int - 'A' as int + 10
    } else {
        -1
    }
}

/// `s` is a non-empty string of digits of base `base`.
pub open spec fn is_numeral(s: Seq<char>, base: int) -> bool {
    &&& s.len() > 0
    &&& forall|i: int| 0 <= i < s.len() ==> 0 <= #[trigger] char_digit_value(s[i]) < base
}

/// The number that the digits `s` stand for in base `base`, most
/// significant digit first.
pub open spec fn numeral_value(s: Seq<char>, base: int) -> int
    decreases s.len(),
{
    if s.len() == 0 {
        0
    } else {
        numeral_value(s.drop_last(), base) * base + char_digit_value(s.last())
    }
}

/// Each digit character stands for its digit.
pub proof fn lemma_digit_char_value(d: int)
    requires
        0 <= d < 16,
    ensures
        char_digit_value(digit_char(d)) == d,
{
    let digits = seq!['0', '1', '2', '3', '4', '5', '6', '7', '8', '9', 'A', 'B', 'C', 'D', 'E', 'F'];
    assert(digit_char(d) == digits[d]);
    if d == 0 { assert(digits[0] == '0'); }
    else if d == 1 { assert(digits[1] == '1'); }
    else if d == 2 { assert(digits[2] == '2'); }
    else if d == 3 { assert(digits[3] == '3'); }
    else if d == 4 { assert(digits[4] == '4'); }
    else if d == 5 { assert(digits[5] == '5'); }
    else if d == 6 { assert(digits[6] == '6'); }
    else if d == 7 { assert(digits[7] == '7'); }
    else if d == 8 { assert(digits[8] == '8'); }
    else if d == 9 { assert(digits[9] == '9'); }
    else if d == 10 { assert(digits[10] == 'A'); }
    else if d == 11 { assert(digits[11] == 'B'); }
    else if d == 12 { assert(digits[12] == 'C'); }
    else if d == 13 { assert(digits[13] == 'D'); }
    else if d == 14 { assert(digits[14] == 'E'); }
    else { assert(digits[15] == 'F'); }
}

/// The decimal digits of `n` are a base-10 numeral that reads as `n`.
pub proof fn lemma_decimal_digits_read_back(n: nat)
    ensures
        is_numeral(decimal_digits(n), 10),
        numeral_value(decimal_digits(n), 10) == n,
    decreases n,
{
    if n < 10 {
        lemma_digit_char_value(n as int);
        assert(decimal_digits(n).drop_last() =~= Seq::<char>::empty());
        assert(numeral_value(Seq::<char>::empty(), 10) == 0);
        assert(decimal_digits(n).last() == digit_char(n as int));
    } else {
        lemma_decimal_digits_read_back(n / 10);
        lemma_digit_char_value((n % 10) as int);
        let d = decimal_digits(n);
        assert(d.drop_last() =~= decimal_digits(n / 10));
        assert(d.last() == digit_char((n % 10) as int));
        assert(numeral_value(d, 10) == numeral_value(d.drop_last(), 10) * 10 + char_digit_value(d.last()));
        assert forall|i: int| 0 <= i < d.len() implies 0 <= #[trigger] char_digit_value(d[i]) < 10 by {
            if i < d.len() - 1 {
                assert(d[i] == decimal_digits(n / 10)[i]);
            }
        }
    }
}

/// The hexadecimal digits of `n` are a base-16 numeral that reads as `n`.
pub proof fn lemma_hex_digits_read_back(n: nat)
    ensures
        is_numeral(hex_digits(n), 16),
        numeral_value(hex_digits(n), 16) == n,
    decreases n,
{
    if n < 16 {
        lemma_digit_char_value(n as int);
        assert(hex_digits(n).drop_last() =~= Seq::<char>::empty());
        assert(numeral_value(Seq::<char>::empty(), 16) == 0);
        assert(hex_digits(n).last() == digit_char(n as int));
    } else {
        lemma_hex_digits_read_back(n / 16);
        lemma_digit_char_value((n % 16) as int);
        let d = hex_digits(n);
        assert(d.drop_last() =~= hex_digits(n / 16));
        assert(d.last() == digit_char((n % 16) as int));
        assert(numeral_value(d, 16) == numeral_value(d.drop_last(), 16) * 16 + char_digit_value(d.last()));
        assert forall|i: int| 0 <= i < d.len() implies 0 <= #[trigger] char_digit_value(d[i]) < 16 by {
            if i < d.len() - 1 {
                assert(d[i] == hex_digits(n / 16)[i]);
            }
        }
    }
}

/// Zeros in front of a numeral change neither its kind nor its value.
pub proof fn lemma_leading_zeros(k: nat, s: Seq<char>, base: int)
    requires
        base > 1,
    ensures
        numeral_value(repeat_char('0', k) + s, base) == numeral_value(s, base),
        is_numeral(s, base) ==> is_numeral(repeat_char('0', k) + s, base),
    decreases s.len() + k,
{
    let z = repeat_char('0', k);
    assert(char_digit_value('0') == 0);
    if s.len() == 0 {
        assert(z + s =~= z);
        if k > 0 {
            assert(z.drop_last() =~= repeat_char('0', (k - 1) as nat));
            lemma_leading_zeros((k - 1) as nat, s, base);
            assert(repeat_char('0', (k - 1) as nat) + s =~= repeat_char('0', (k - 1) as nat));
        }
    } else {
        lemma_leading_zeros(k, s.drop_last(), base);
        assert((z + s).drop_last() =~= z + s.drop_last());
        assert((z + s).last() == s.last());
    }
    if is_numeral(s, base) {
        let t = z + s;
        assert forall|i: int| 0 <= i < t.len() implies 0 <= #[trigger] char_digit_value(t[i]) < base by {
            if i >= k {
                assert(t[i] == s[i - k]);
            }
        }
    }
}

/// The zero-padded hexadecimal digits of `n` read as `n`.
pub proof fn lemma_hex_padded_read_back(n: nat, width: nat)
    ensures
        is_numeral(hex_padded(n, width), 16),
        numeral_value(hex_padded(n, width), 16) == n,
        hex_padded(n, width).len() >= width,
{
    lemma_hex_digits_read_back(n);
    let d = hex_digits(n);
    if d.len() < width {
        lemma_leading_zeros((width - d.len()) as nat, d, 16);
    }
}

/// `t` is the decimal numeral of `v`, preceded by `-` when `v` is negative.
pub open spec fn reads_as_signed_decimal(t: Seq<char>, v: int) -> bool {
    if v < 0 {
        &&& t.len() > 0
        &&& t[0] == '-'
        &&& is_numeral(t.drop_first(), 10)
        &&& numeral_value(t.drop_first(), 10) == -v
    } else {
        &&& is_numeral(t, 10)
        &&& numeral_value(t, 10) == v
    }
}

/// The decimal text of `v` reads back as `v`.
pub proof fn lemma_decimal_text_read_back(v: int)
    ensures
        reads_as_signed_decimal(decimal_text(v), v),
{
    if v < 0 {
        lemma_decimal_digits_read_back((-v) as nat);
        assert(decimal_text(v).drop_first() =~= decimal_digits((-v) as nat));
    } else {
        lemma_decimal_digits_read_back(v as nat);
    }
}

} // verus!
