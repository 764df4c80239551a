//! Building texts: decimal numbers, padding and repetition.
use vstd::arithmetic::power2::*;
use vstd::prelude::*;
use vstd::string::*;

verus! {

/// The character of one decimal digit.
pub open spec fn digit_char(digit: nat) -> char
    recommends
        digit < 10,
{
    (48 + digit) as char
}

/// A natural number in decimal, without leading zeros.
pub open spec fn decimal(n: nat) -> Seq<char>
    decreases n,
{
    if n < 10 {
        seq![digit_char(n)]
    } else {
        decimal(n / 10).push(digit_char(n % 10))
    }
}

/// One text set `count` times in a row.
pub open spec fn repeated(unit: Seq<char>, count: nat) -> Seq<char>
    decreases count,
{
    if count == 0 {
        Seq::empty()
    } else {
        repeated(unit, (count - 1) as nat) + unit
    }
}

/// How many characters a text lacks to fill a column.
pub open spec fn lacking(text: Seq<char>, width: nat) -> nat {
    if text.len() < width {
        (width - text.len()) as nat
    } else {
        0
    }
}

/// A text set at the left of a column, filled up with spaces.
pub open spec fn left_in(text: Seq<char>, width: nat) -> Seq<char> {
    text + repeated(" "@, lacking(text, width))
}

/// A text set at the right of a column, filled up with spaces.
pub open spec fn right_in(text: Seq<char>, width: nat) -> Seq<char> {
    repeated(" "@, lacking(text, width)) + text
}

/// Whether two texts are the same.
pub fn same(a: &str, b: &str) -> (r: bool)
    ensures
        r == (a@ == b@),
{
    let (a, b) = (a.to_owned(), b.to_owned());
    a == b
}

/// One decimal digit as a text.
fn digit_text(digit: u8) -> (text: &'static str)
    requires
        digit < 10,
    ensures
        text@ == seq![digit_char(digit as nat)],
{
    proof {
        reveal_strlit("0");
        reveal_strlit("1");
        reveal_strlit("2");
        reveal_strlit("3");
        reveal_strlit("4");
        reveal_strlit("5");
        reveal_strlit("6");
        reveal_strlit("7");
        reveal_strlit("8");
        reveal_strlit("9");
    }
    match digit {
        0 => "0",
        1 => "1",
        2 => "2",
        3 => "3",
        4 => "4",
        5 => "5",
        6 => "6",
        7 => "7",
        8 => "8",
        _ => "9",
    }
}

/// Writes a number out in decimal.
pub fn decimal_text(n: u64) -> (text: String)
    ensures
        text@ == decimal(n as nat),
    decreases n,
{
    if n < 10 {
        digit_text(n as u8).to_owned()
    } else {
        let mut text = decimal_text(n / 10);
        text.append(digit_text((n % 10) as u8));
        text
    }
}

/// Sets a text `count` times behind another.
pub fn append_repeated(text: &mut String, unit: &str, count: usize)
    ensures
        final(text)@ == old(text)@ + repeated(unit@, count as nat),
{
    let ghost start = text@;
    let mut done: usize = 0;
    while done < count
        invariant
            done <= count,
            text@ == start + repeated(unit@, done as nat),
        decreases count - done,
    {
        text.append(unit);
        done += 1;
        assert(text@ == start + repeated(unit@, done as nat));
    }
}

/// Sets a text at the left of a column behind another.
pub fn append_left(text: &mut String, cell: &str, width: usize)
    ensures
        final(text)@ == old(text)@ + left_in(cell@, width as nat),
{
    let len: usize = cell.unicode_len();
    text.append(cell);
    if len < width {
        append_repeated(text, " ", width - len);
    } else {
        assert(repeated(" "@, 0) =~= Seq::<char>::empty());
    }
    assert(text@ =~= old(text)@ + left_in(cell@, width as nat));
}

/// Sets a text at the right of a column behind another.
pub fn append_right(text: &mut String, cell: &str, width: usize)
    ensures
        final(text)@ == old(text)@ + right_in(cell@, width as nat),
{
    let len: usize = cell.unicode_len();
    if len < width {
        append_repeated(text, " ", width - len);
    }
    text.append(cell);
    assert(text@ =~= old(text)@ + right_in(cell@, width as nat));
}

/// The number that decimal digits write down, the highest first.
pub open spec fn digits_number(digits: Seq<u8>) -> nat
    decreases digits.len(),
{
    if digits.len() == 0 {
        0
    } else {
        10 * digits_number(digits.drop_last()) + digits.last() as nat
    }
}

/// Whether all are decimal digits and the first is not zero.
pub open spec fn plain_digits(digits: Seq<u8>) -> bool {
    &&& forall|i: int| 0 <= i < digits.len() ==> #[trigger] digits[i] < 10
    &&& digits.len() > 0 ==> digits[0] > 0
}

/// The decimal digits of a number, none for zero.
fn digits_of(n: u64) -> (digits: Vec<u8>)
    ensures
        plain_digits(digits@),
        digits_number(digits@) == n,
        n > 0 ==> digits@.len() > 0,
    decreases n,
{
    if n == 0 {
        Vec::new()
    } else {
        let mut digits = digits_of(n / 10);
        let ghost higher = digits@;
        digits.push((n % 10) as u8);
        assert(digits@.drop_last() =~= higher);
        digits
    }
}

/// Doubles the number that the first `len` digits write down and adds a carry.
fn doubled_digits(digits: &Vec<u8>, len: usize, carry: u8) -> (r: Vec<u8>)
    requires
        len <= digits@.len(),
        plain_digits(digits@),
        carry < 2,
    ensures
        plain_digits(r@),
        digits_number(r@) == 2 * digits_number(digits@.take(len as int)) + carry,
        len > 0 || carry > 0 ==> r@.len() > 0,
    decreases len,
{
    let mut r: Vec<u8>;
    if len == 0 {
        r = Vec::new();
        if carry > 0 {
            r.push(carry);
            assert(r@.drop_last() =~= Seq::<u8>::empty());
            assert(digits_number(r@.drop_last()) == 0);
        }
    } else {
        let t: u8 = 2 * digits[len - 1] + carry;
        r = doubled_digits(digits, len - 1, t / 10);
        let ghost higher = r@;
        r.push(t % 10);
        proof {
            assert(r@.drop_last() =~= higher);
            assert(digits@.take(len as int).drop_last() =~= digits@.take(len - 1));
        }
    }
    r
}

/// Digits write down the number whose decimal they are.
proof fn lemma_digits_decimal(digits: Seq<u8>)
    requires
        plain_digits(digits),
        digits.len() > 0,
    ensures
        digits_number(digits) > 0,
        decimal(digits_number(digits)) == digits.map_values(|d: u8| digit_char(d as nat)),
    decreases digits.len(),
{
    let higher = digits.drop_last();
    let chars = |d: u8| digit_char(d as nat);
    assert(digits.last() < 10);
    if higher.len() > 0 {
        lemma_digits_decimal(higher);
        let n = digits_number(digits);
        assert(n / 10 == digits_number(higher));
        assert(n % 10 == digits.last());
        assert(digits.map_values(chars) =~= higher.map_values(chars).push(chars(digits.last())));
    } else {
        assert(digits_number(higher) == 0);
        assert(digits.map_values(chars) =~= seq![chars(digits.last())]);
    }
}

/// Writes a number that is doubled some times over out in decimal.
pub fn doubled_decimal_text(n: u64, times: u32) -> (text: String)
    requires
        n > 0,
    ensures
        text@ == decimal(n as nat * pow2(times as nat)),
{
    let mut digits = digits_of(n);
    let mut done: u32 = 0;
    proof {
        lemma2_to64();
    }
    while done < times
        invariant
            done <= times,
            plain_digits(digits@),
            digits@.len() > 0,
            digits_number(digits@) == n as nat * pow2(done as nat),
        decreases times - done,
    {
        proof {
            assert(digits@.take(digits@.len() as int) =~= digits@);
            lemma_pow2_unfold((done + 1) as nat);
            assert(n as nat * (2 * pow2(done as nat)) == 2 * (n as nat * pow2(done as nat)))
                by (nonlinear_arith);
        }
        digits = doubled_digits(&digits, digits.len(), 0);
        done += 1;
    }
    proof {
        lemma_digits_decimal(digits@);
    }
    let ghost chars = |d: u8| digit_char(d as nat);
    let mut text = String::new();
    let mut i: usize = 0;
    while i < digits.len()
        invariant
            i <= digits@.len(),
            plain_digits(digits@),
            chars == |d: u8| digit_char(d as nat),
            text@ == digits@.map_values(chars).take(i as int),
        decreases digits@.len() - i,
    {
        text.append(digit_text(digits[i]));
        assert(digits@.map_values(chars).take(i + 1) =~= digits@.map_values(chars).take(
            i as int,
        ).push(chars(digits@[i as int])));
        i += 1;
    }
    assert(digits@.map_values(chars).take(i as int) =~= digits@.map_values(chars));
    text
}

/// A number of tenths in decimal, with one digit behind the point.
pub open spec fn tenths(n: nat) -> Seq<char> {
    decimal(n / 10) + "."@ + seq![digit_char(n % 10)]
}

/// Writes a number of tenths out behind a text.
pub fn append_tenths(text: &mut String, n: u64)
    ensures
        final(text)@ == old(text)@ + tenths(n as nat),
{
    text.append(decimal_text(n / 10).as_str());
    text.append(".");
    text.append(digit_text((n % 10) as u8));
    assert(text@ =~= old(text)@ + tenths(n as nat));
}

// ── Laws ───────────────────────────────────────────────────────────────────

/// The number that a text of decimal digits is read as.
pub open spec fn read_decimal(text: Seq<char>) -> nat
    decreases text.len(),
{
    if text.len() == 0 {
        0
    } else {
        10 * read_decimal(text.drop_last()) + (text.last() as int - 48) as nat
    }
}

/// A number is written in decimal digits without a leading zero, and read back as it was. So no two
/// numbers are written alike.
pub proof fn law_decimals_are_read_back(n: nat)
    ensures
        decimal(n).len() > 0,
        forall|i: int| 0 <= i < decimal(n).len() ==> '0' <= #[trigger] decimal(n)[i] <= '9',
        decimal(n)[0] == '0' ==> decimal(n).len() == 1,
        read_decimal(decimal(n)) == n,
    decreases n,
{
    if n < 10 {
        assert(decimal(n).drop_last() =~= Seq::<char>::empty());
        assert(read_decimal(Seq::<char>::empty()) == 0);
    } else {
        law_decimals_are_read_back(n / 10);
        assert(decimal(n).drop_last() =~= decimal(n / 10));
        if decimal(n / 10)[0] == '0' {
            let digit = decimal(n / 10)[0];
            assert(decimal(n / 10).drop_last() =~= Seq::<char>::empty());
            assert(read_decimal(Seq::<char>::empty()) == 0);
            assert(read_decimal(decimal(n / 10)) == 0);
        }
    }
}

/// A repeated character fills the text with itself, as often as it is repeated.
pub proof fn law_repetition_fills(unit: Seq<char>, count: nat)
    requires
        unit.len() == 1,
    ensures
        repeated(unit, count).len() == count,
        forall|i: int| 0 <= i < count ==> #[trigger] repeated(unit, count)[i] == unit[0],
    decreases count,
{
    if count > 0 {
        law_repetition_fills(unit, (count - 1) as nat);
    }
}

/// Repeating a text so often and then so often again is repeating it as often as both; once is the text
/// itself.
pub proof fn law_repetitions_add_up(unit: Seq<char>, a: nat, b: nat)
    ensures
        repeated(unit, 0) == Seq::<char>::empty(),
        repeated(unit, 1) == unit,
        repeated(unit, a + b) == repeated(unit, a) + repeated(unit, b),
    decreases b,
{
    assert(repeated(unit, 0) =~= Seq::<char>::empty());
    assert(repeated(unit, 1) =~= unit);
    if b == 0 {
        assert(repeated(unit, a) + repeated(unit, b) =~= repeated(unit, a));
    } else {
        law_repetitions_add_up(unit, a, (b - 1) as nat);
        assert(repeated(unit, a) + (repeated(unit, (b - 1) as nat) + unit) =~= repeated(unit, a)
            + repeated(unit, (b - 1) as nat) + unit);
    }
}

/// A column is as wide as it was asked to be, or as the text in it where that is wider; the text stands
/// in it whole, at the left or at the right, and all else is spaces.
pub proof fn law_columns_hold_their_text(text: Seq<char>, width: nat)
    ensures
        left_in(text, width).len() == if text.len() < width {
            width
        } else {
            text.len()
        },
        right_in(text, width).len() == left_in(text, width).len(),
        left_in(text, width).take(text.len() as int) == text,
        right_in(text, width).skip(right_in(text, width).len() - text.len()) == text,
        forall|i: int|
            text.len() <= i < left_in(text, width).len() ==> #[trigger] left_in(text, width)[i]
                == ' ',
        forall|i: int|
            0 <= i < right_in(text, width).len() - text.len() ==> #[trigger] right_in(
                text,
                width,
            )[i] == ' ',
{
    reveal_strlit(" ");
    law_repetition_fills(" "@, lacking(text, width));
    assert(left_in(text, width).take(text.len() as int) =~= text);
    assert(right_in(text, width).skip(right_in(text, width).len() - text.len()) =~= text);
}

/// A number of tenths is written with one digit behind the point: what stands before the point is the
/// whole number, and what stands behind it is what is left.
pub proof fn law_tenths_are_read_back(n: nat)
    ensures
        ({
            let text = tenths(n);
            let whole = text.take(text.len() - 2);
            &&& text.len() >= 3
            &&& text[text.len() - 2] == '.'
            &&& whole == decimal(n / 10)
            &&& 10 * read_decimal(whole) + (text.last() as int - 48) == n
        }),
{
    reveal_strlit(".");
    law_decimals_are_read_back(n / 10);
    assert(tenths(n).take(tenths(n).len() - 2) =~= decimal(n / 10));
}

} // verus!
