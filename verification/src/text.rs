//! Text building blocks: positional numerals, zero padding and comparison.

use vstd::prelude::*;
use vstd::string::*;

verus! {

/// The character that stands for the digit `d`, for `d` below sixteen.
pub open spec fn digit_char(d: nat) -> char {
    seq!['0', '1', '2', '3', '4', '5', '6', '7', '8', '9', 'A', 'B', 'C', 'D', 'E', 'F'][d as int]
}

/// The numeral of `n` in `base`, most significant digit first, without leading zeros.
pub open spec fn numeral(n: nat, base: nat) -> Seq<char>
    decreases n,
{
    if base < 2 || n < base {
        seq![digit_char(n)]
    } else {
        proof {
            vstd::arithmetic::div_mod::lemma_div_decreases(n as int, base as int);
        }
        numeral(n / base, base).push(digit_char(n % base))
    }
}

/// `s` filled up on the left with zeros to at least `width` characters.
pub open spec fn zero_padded(s: Seq<char>, width: nat) -> Seq<char> {
    if s.len() >= width {
        s
    } else {
        Seq::new((width - s.len()) as nat, |i: int| '0') + s
    }
}

/// The decimal numeral of `n`.
pub open spec fn decimal(n: nat) -> Seq<char> {
    numeral(n, 10)
}

/// The upper-case hexadecimal numeral of `n`, zero-padded to `width` digits.
pub open spec fn padded_hex(n: nat, width: nat) -> Seq<char> {
    zero_padded(numeral(n, 16), width)
}

/// The text of one digit.
fn digit_text(d: u32) -> (r: &'static str)
    requires
        d < 16,
    ensures
        r@ == seq![digit_char(d as nat)],
{
    proof {
        reveal_strlit("0");
        reveal_strlit("1");
        reveal_strlit("2");
        reveal_strlit("3");
        reveal_strlit("4");
        reveal_strlit("5");
        reveal_strlit("6");
        reveal_strlit("7");
        reveal_strlit("8");
        reveal_strlit("9");
        reveal_strlit("A");
        reveal_strlit("B");
        reveal_strlit("C");
        reveal_strlit("D");
        reveal_strlit("E");
        reveal_strlit("F");
    }
    match d {
        0 => "0",
        1 => "1",
        2 => "2",
        3 => "3",
        4 => "4",
        5 => "5",
        6 => "6",
        7 => "7",
        8 => "8",
        9 => "9",
        10 => "A",
        11 => "B",
        12 => "C",
        13 => "D",
        14 => "E",
        _ => "F",
    }
}

/// The numeral of `n` in `base` and its number of digits.
fn numeral_text(n: u32, base: u32) -> (r: (String, usize))
    requires
        2 <= base <= 16,
    ensures
        r.0@ == numeral(n as nat, base as nat),
        r.1 == r.0@.len(),
        r.1 <= n + 1,
    decreases n,
{
    if n < base {
        (String::from_str(digit_text(n)), 1)
    } else {
        proof {
            vstd::arithmetic::div_mod::lemma_div_is_ordered_by_denominator(n as int, 2, base as int);
        }
        let (mut text, count) = numeral_text(n / base, base);
        text.append(digit_text(n % base));
        (text, count + 1)
    }
}

/// The numeral of `n` in `base`, zero-padded to `width` characters.
pub(crate) fn padded_numeral(n: u32, base: u32, width: usize) -> (r: String)
    requires
        2 <= base <= 16,
    ensures
        r@ == zero_padded(numeral(n as nat, base as nat), width as nat),
{
    let (digits, count) = numeral_text(n, base);
    let mut padding: String = String::new();
    let mut filled: usize = count;
    proof {
        reveal_strlit("0");
    }
    while filled < width
        invariant
            count <= filled,
            filled <= width || filled == count,
            padding@ =~= Seq::new((filled - count) as nat, |i: int| '0'),
            "0"@ =~= seq!['0'],
        decreases width - filled,
    {
        padding.append("0");
        filled = filled + 1;
    }
    padding.append(digits.as_str());
    assert(padding@ =~= zero_padded(numeral(n as nat, base as nat), width as nat));
    padding
}

/// The decimal numeral of `n`.
pub(crate) fn decimal_text(n: u32) -> (r: String)
    ensures
        r@ == decimal(n as nat),
{
    numeral_text(n, 10).0
}

/// Whether two texts hold the same characters.
pub(crate) fn same_text(a: &str, b: &str) -> (r: bool)
    ensures
        r == (a@ == b@),
{
    a.to_owned() == b.to_owned()
}

/// The number that a digit stands for.
pub open spec fn digit_value(c: char) -> int {
    if '0' <= c <= '9' {
        c as int - '0' as int
    } else {
        c as int - 'A' as int + 10
    }
}

/// The number that a text of digits stands for, read from the left.
pub open spec fn value_of(s: Seq<char>, base: nat) -> int
    decreases s.len(),
{
    if s.len() == 0 {
        0
    } else {
        value_of(s.drop_last(), base) * base + digit_value(s.last())
    }
}

/// The digits up to nine stand in a row, and so do the letters of the others.
pub proof fn law_digits(d: nat)
    requires
        d < 16,
    ensures
        d < 10 ==> digit_char(d) as int == '0' as int + d,
        d >= 10 ==> digit_char(d) as int == 'A' as int + (d - 10),
        digit_value(digit_char(d)) == d,
{
}

/// A numeral can be read back: it stands for its number, and has no zero in front.
pub proof fn law_numerals_read_back(n: nat, base: nat)
    requires
        2 <= base <= 16,
    ensures
        value_of(numeral(n, base), base) == n,
        numeral(n, base).len() >= 1,
        n > 0 ==> numeral(n, base)[0] != '0',
        n == 0 ==> numeral(n, base) == seq!['0'],
    decreases n,
{
    if n < base {
        law_digits(n);
        let s = numeral(n, base);
        assert(s.drop_last() =~= Seq::empty());
        assert(value_of(s.drop_last(), base) == 0);
        assert(0 * base == 0) by (nonlinear_arith);
    } else {
        vstd::arithmetic::div_mod::lemma_div_decreases(n as int, base as int);
        vstd::arithmetic::div_mod::lemma_fundamental_div_mod(n as int, base as int);
        vstd::arithmetic::div_mod::lemma_mod_bound(n as int, base as int);
        assert(n / base > 0) by (nonlinear_arith)
            requires
                n >= base,
                base >= 2,
        ;
        law_numerals_read_back(n / base, base);
        law_digits(n % base);
        let s = numeral(n, base);
        assert(s.drop_last() =~= numeral(n / base, base));
        assert((n / base) * base == base * (n / base)) by (nonlinear_arith);
    }
}

/// Padding keeps the text at the end, puts only zeros in front of it, and no more than are needed
/// for the width.
pub proof fn law_padding(s: Seq<char>, width: nat)
    ensures
        zero_padded(s, width).len() == if s.len() < width {
            width
        } else {
            s.len()
        },
        zero_padded(s, width).skip(zero_padded(s, width).len() - s.len()) == s,
        forall|i: int|
            0 <= i < zero_padded(s, width).len() - s.len() ==> #[trigger] zero_padded(s, width)[i]
                == '0',
{
    assert(zero_padded(s, width).skip(zero_padded(s, width).len() - s.len()) =~= s);
}

/// Zeros in front of a text of digits do not change its value.
pub proof fn law_padding_keeps_the_value(s: Seq<char>, width: nat, base: nat)
    ensures
        value_of(zero_padded(s, width), base) == value_of(s, base),
    decreases s.len(),
{
    if s.len() < width {
        let zeros = Seq::new((width - s.len()) as nat, |i: int| '0');
        lemma_zeros_in_front(zeros, s, base);
    }
}

proof fn lemma_zeros_in_front(zeros: Seq<char>, s: Seq<char>, base: nat)
    requires
        forall|i: int| 0 <= i < zeros.len() ==> #[trigger] zeros[i] == '0',
    ensures
        value_of(zeros + s, base) == value_of(s, base),
    decreases s.len() + zeros.len(),
{
    if s.len() > 0 {
        assert((zeros + s).drop_last() =~= zeros + s.drop_last());
        lemma_zeros_in_front(zeros, s.drop_last(), base);
    } else if zeros.len() > 0 {
        assert(zeros + s =~= zeros);
        assert(zeros.drop_last() + s =~= zeros.drop_last());
        lemma_zeros_in_front(zeros.drop_last(), s, base);
        assert(zeros[zeros.len() - 1] == '0');
        assert(0 * base == 0) by (nonlinear_arith);
    }
}

} // verus!
