//! Decimal text of integers, as it appears in labels, tables and messages.

use vstd::prelude::*;

verus! {

/// The character of one decimal digit.
pub open spec fn digit_char(digit: nat) -> char {
    (48 + digit) as char
}

/// The decimal text of a natural number, without leading zeros.
pub open spec fn decimal(value: nat) -> Seq<char>
    decreases value,
{
    if value < 10 {
        seq![digit_char(value)]
    } else {
        decimal(value / 10).push(digit_char(value % 10))
    }
}

/// The decimal text of an integer, with a leading minus sign where it is negative.
pub open spec fn signed_decimal(value: int) -> Seq<char> {
    if value < 0 {
        seq!['-'] + decimal((-value) as nat)
    } else {
        decimal(value as nat)
    }
}

/// The decimal text of a natural number, filled up with zeros on the left to `width` characters.
pub open spec fn zero_padded(value: nat, width: nat) -> Seq<char> {
    let digits = decimal(value);
    if digits.len() < width {
        Seq::new((width - digits.len()) as nat, |i: int| '0') + digits
    } else {
        digits
    }
}

fn digit_text(digit: u64) -> (text: &'static str)
    requires
        digit < 10,
    ensures
        text@ == seq![digit_char(digit as nat)],
{
    proof {
        reveal_strlit("0");
        reveal_strlit("1");
        reveal_strlit("2");
        reveal_strlit("3");
        reveal_strlit("4");
        reveal_strlit("5");
        reveal_strlit("6");
        reveal_strlit("7");
        reveal_strlit("8");
        reveal_strlit("9");
    }
    if digit == 0 {
        "0"
    } else if digit == 1 {
        "1"
    } else if digit == 2 {
        "2"
    } else if digit == 3 {
        "3"
    } else if digit == 4 {
        "4"
    } else if digit == 5 {
        "5"
    } else if digit == 6 {
        "6"
    } else if digit == 7 {
        "7"
    } else if digit == 8 {
        "8"
    } else {
        "9"
    }
}

/// Writes a `u64` in decimal.
pub fn decimal_text(value: u64) -> (text: String)
    ensures
        text@ == decimal(value as nat),
    decreases value,
{
    if value < 10 {
        String::from_str(digit_text(value))
    } else {
        let mut text = decimal_text(value / 10);
        text.append(digit_text(value % 10));
        text
    }
}

/// Writes a `usize` in decimal.
pub fn count_text(value: usize) -> (text: String)
    ensures
        text@ == decimal(value as nat),
{
    decimal_text(value as u64)
}

/// Writes an `i64` in decimal.
pub fn signed_text(value: i64) -> (text: String)
    ensures
        text@ == signed_decimal(value as int),
{
    if value < 0 {
        proof {
            reveal_strlit("-");
        }
        let mut text = String::from_str("-");
        if value == i64::MIN {
            text.append(decimal_text(9223372036854775808u64).as_str());
        } else {
            text.append(decimal_text((-value) as u64).as_str());
        }
        assert(text@ =~= signed_decimal(value as int));
        text
    } else {
        decimal_text(value as u64)
    }
}

proof fn lemma_decimal_len(value: nat)
    ensures
        decimal(value).len() >= 1,
        value < 10 <==> decimal(value).len() == 1,
        value < 100 <==> decimal(value).len() <= 2,
{
    reveal_with_fuel(decimal, 4);
    if value >= 10 {
        assert(decimal(value) == decimal(value / 10).push(digit_char(value % 10)));
    }
}

/// Writes a `usize` in decimal, filled up with zeros to at least three characters.
pub fn three_digit_text(value: usize) -> (text: String)
    ensures
        text@ == zero_padded(value as nat, 3),
{
    proof {
        lemma_decimal_len(value as nat);
        reveal_strlit("0");
        reveal_strlit("00");
    }
    let digits = count_text(value);
    if value < 10 {
        let mut text = String::from_str("00");
        text.append(digits.as_str());
        assert(text@ =~= zero_padded(value as nat, 3));
        text
    } else if value < 100 {
        let mut text = String::from_str("0");
        text.append(digits.as_str());
        assert(text@ =~= zero_padded(value as nat, 3));
        text
    } else {
        digits
    }
}

/// The texts of a list of numbers with commas between them.
pub open spec fn listed_numbers(values: Seq<usize>) -> Seq<char>
    decreases values.len(),
{
    if values.len() == 0 {
        Seq::empty()
    } else if values.len() == 1 {
        decimal(values[0] as nat)
    } else {
        listed_numbers(values.drop_last()) + ", "@ + decimal(values.last() as nat)
    }
}

/// Writes a list of numbers in brackets.
pub fn list_text(values: &Vec<usize>) -> (text: String)
    ensures
        text@ == "["@ + listed_numbers(values@) + "]"@,
{
    let mut text = String::from_str("[");
    let mut index: usize = 0;
    assert(text@ =~= "["@ + listed_numbers(values@.take(0)));
    while index < values.len()
        invariant
            index <= values.len(),
            text@ == "["@ + listed_numbers(values@.take(index as int)),
        decreases values.len() - index,
    {
        let ghost before = values@.take(index as int);
        let ghost after = values@.take(index + 1);
        assert(after.drop_last() =~= before);
        if index > 0 {
            text.append(", ");
        }
        text.append(count_text(values[index]).as_str());
        proof {
            let number = decimal(values@[index as int] as nat);
            if index > 0 {
                assert((("["@ + listed_numbers(before)) + ", "@) + number =~= "["@ + (
                listed_numbers(before) + ", "@ + number));
            } else {
                assert(("["@ + listed_numbers(before)) + number =~= "["@ + number);
            }
        }
        index = index + 1;
    }
    assert(values@.take(index as int) =~= values@);
    text.append("]");
    text
}

/// Texts as lines: each is followed by a line break.
pub open spec fn as_lines(parts: Seq<Seq<char>>) -> Seq<char>
    decreases parts.len(),
{
    if parts.len() == 0 {
        Seq::empty()
    } else {
        as_lines(parts.drop_last()) + parts.last() + "\n"@
    }
}

/// The texts of a list of strings.
pub open spec fn string_views(parts: Seq<String>) -> Seq<Seq<char>> {
    parts.map_values(|part: String| part@)
}

/// Writes texts as lines.
pub fn join_lines(parts: &Vec<String>) -> (text: String)
    ensures
        text@ == as_lines(string_views(parts@)),
{
    let ghost views = string_views(parts@);
    let mut text = String::new();
    let mut index: usize = 0;
    assert(text@ =~= as_lines(views.take(0)));
    while index < parts.len()
        invariant
            index <= parts.len(),
            views == string_views(parts@),
            text@ == as_lines(views.take(index as int)),
        decreases parts.len() - index,
    {
        proof {
            assert(views.take(index + 1).drop_last() =~= views.take(index as int));
            assert(views.take(index + 1).last() == parts@[index as int]@);
        }
        text.append(parts[index].as_str());
        text.append("\n");
        index = index + 1;
    }
    assert(views.take(index as int) =~= views);
    text
}

/// Whether a text comes before another as dictionaries order them, by the codes of characters.
pub open spec fn text_before(left: Seq<char>, right: Seq<char>) -> bool {
    ||| exists|k: int| #[trigger] differ_first_at(left, right, k) && (left[k] as int) < (
    right[k] as int)
    ||| left.len() < right.len() && left == right.take(left.len() as int)
}

/// Whether two texts agree up to a place and differ there.
pub open spec fn differ_first_at(left: Seq<char>, right: Seq<char>, place: int) -> bool {
    &&& 0 <= place < left.len()
    &&& place < right.len()
    &&& left.take(place) == right.take(place)
    &&& left[place] != right[place]
}

/// The three digits of a number below a thousand.
pub proof fn lemma_three_digits(value: nat)
    requires
        value < 1000,
    ensures
        zero_padded(value, 3) == seq![
            digit_char(value / 100),
            digit_char((value / 10) % 10),
            digit_char(value % 10),
        ],
{
    reveal_with_fuel(decimal, 4);
    lemma_decimal_len(value);
    if value < 10 {
        assert(zero_padded(value, 3) =~= seq![
            digit_char(value / 100),
            digit_char((value / 10) % 10),
            digit_char(value % 10),
        ]);
    } else if value < 100 {
        assert(decimal(value) =~= seq![digit_char(value / 10), digit_char(value % 10)]);
        assert(zero_padded(value, 3) =~= seq![
            digit_char(value / 100),
            digit_char((value / 10) % 10),
            digit_char(value % 10),
        ]);
    } else {
        assert(decimal(value / 10) =~= seq![
            digit_char(value / 10 / 10),
            digit_char((value / 10) % 10),
        ]);
        assert(value / 10 / 10 == value / 100);
        assert(zero_padded(value, 3) =~= seq![
            digit_char(value / 100),
            digit_char((value / 10) % 10),
            digit_char(value % 10),
        ]);
    }
}

proof fn lemma_digits_order(left: nat, right: nat)
    requires
        left < right < 1000,
    ensures
        left / 100 <= right / 100 < 10,
        left / 100 == right / 100 ==> (left / 10) % 10 <= (right / 10) % 10,
        left / 100 == right / 100 && (left / 10) % 10 == (right / 10) % 10 ==> left % 10 < right
            % 10,
{
    assert(left == 100 * (left / 100) + 10 * ((left / 10) % 10) + left % 10);
    assert(right == 100 * (right / 100) + 10 * ((right / 10) % 10) + right % 10);
}

proof fn lemma_differ_after(
    prefix: Seq<char>,
    left: Seq<char>,
    right: Seq<char>,
    left_rest: Seq<char>,
    right_rest: Seq<char>,
    place: int,
)
    requires
        differ_first_at(left, right, place),
        (left[place] as int) < (right[place] as int),
    ensures
        text_before(prefix + left + left_rest, prefix + right + right_rest),
{
    let a = prefix + left + left_rest;
    let b = prefix + right + right_rest;
    let k = prefix.len() + place;
    assert forall|i: int| 0 <= i < k implies a[i] == b[i] by {
        if i >= prefix.len() {
            let j = i - prefix.len();
            assert(a[i] == left[j] && b[i] == right[j]);
            assert(left.take(place)[j] == left[j] && right.take(place)[j] == right[j]);
        }
    }
    assert(a.take(k) =~= b.take(k));
    assert(a[k] == left[place] && b[k] == right[place]);
    assert(differ_first_at(a, b, k));
}

/// Texts that start alike and go on with three digits are ordered as the numbers are.
pub proof fn lemma_padded_order(
    prefix: Seq<char>,
    left: nat,
    right: nat,
    left_rest: Seq<char>,
    right_rest: Seq<char>,
)
    requires
        left < right < 1000,
    ensures
        text_before(
            prefix + zero_padded(left, 3) + left_rest,
            prefix + zero_padded(right, 3) + right_rest,
        ),
{
    lemma_three_digits(left);
    lemma_three_digits(right);
    lemma_digits_order(left, right);
    let a = zero_padded(left, 3);
    let b = zero_padded(right, 3);
    let place: int = if left / 100 != right / 100 {
        0
    } else if (left / 10) % 10 != (right / 10) % 10 {
        1
    } else {
        2
    };
    assert(a.take(place) =~= b.take(place));
    assert(differ_first_at(a, b, place));
    lemma_differ_after(prefix, a, b, left_rest, right_rest, place);
}

/// The value of a digit.
pub open spec fn digit_value(digit: char) -> int {
    digit as int - 48
}

/// Whether a text consists of decimal digits.
pub open spec fn all_digits(text: Seq<char>) -> bool {
    forall|i: int| 0 <= i < text.len() ==> 0 <= digit_value(#[trigger] text[i]) <= 9
}

/// The number that digits stand for: each counts ten times what it would count one place further
/// to the right.
pub open spec fn numeral(text: Seq<char>) -> int
    decreases text.len(),
{
    if text.len() == 0 {
        0
    } else {
        10 * numeral(text.drop_last()) + digit_value(text.last())
    }
}

/// A power of ten.
pub open spec fn ten_power(exponent: nat) -> int
    decreases exponent,
{
    if exponent == 0 {
        1
    } else {
        10 * ten_power((exponent - 1) as nat)
    }
}

/// The decimal text of a number consists of digits, stands for the number, and has no zero in
/// front.
pub proof fn lemma_decimal_reads_back(value: nat)
    ensures
        all_digits(decimal(value)),
        numeral(decimal(value)) == value,
        decimal(value).len() >= 1,
        decimal(value)[0] == '0' <==> value == 0,
    decreases value,
{
    if value < 10 {
        let text = decimal(value);
        assert(text =~= seq![digit_char(value)]);
        assert(text.drop_last() =~= Seq::empty());
        reveal_with_fuel(numeral, 2);
    } else {
        lemma_decimal_reads_back(value / 10);
        let (front, text) = (decimal(value / 10), decimal(value));
        assert(text.drop_last() =~= front);
        assert(text.last() == digit_char(value % 10));
        assert forall|i: int| 0 <= i < text.len() implies 0 <= digit_value(#[trigger] text[i])
            <= 9 by {
            if i < front.len() {
                assert(text[i] == front[i]);
            }
        }
        assert(text[0] == front[0]);
    }
}

/// The number of a text in front counts for as many places as follow it.
pub proof fn lemma_numeral_concat(left: Seq<char>, right: Seq<char>)
    ensures
        numeral(left + right) == numeral(left) * ten_power(right.len()) + numeral(right),
        all_digits(left) && all_digits(right) ==> all_digits(left + right),
    decreases right.len(),
{
    if right.len() == 0 {
        assert(left + right =~= left);
        assert(numeral(left) * 1 == numeral(left));
    } else {
        lemma_numeral_concat(left, right.drop_last());
        assert((left + right).drop_last() =~= left + right.drop_last());
        assert((left + right).last() == right.last());
        let (a, p, b) = (
            numeral(left),
            ten_power((right.len() - 1) as nat),
            numeral(right.drop_last()),
        );
        assert(10 * (a * p + b) == a * (10 * p) + 10 * b) by (nonlinear_arith);
    }
}

/// Zeros in front do not change the number that a text stands for.
pub proof fn lemma_padding_reads_back(value: nat, width: nat)
    ensures
        all_digits(zero_padded(value, width)),
        numeral(zero_padded(value, width)) == value,
        zero_padded(value, width).len() >= width,
        zero_padded(value, width).len() == width || zero_padded(value, width) == decimal(value),
{
    lemma_decimal_reads_back(value);
    let digits = decimal(value);
    if digits.len() < width {
        let zeros = Seq::new((width - digits.len()) as nat, |i: int| '0');
        lemma_zeros(zeros);
        lemma_numeral_concat(zeros, digits);
        assert(0 * ten_power(digits.len()) == 0);
    }
}

/// Zeros stand for zero.
pub proof fn lemma_zeros(text: Seq<char>)
    requires
        forall|i: int| 0 <= i < text.len() ==> #[trigger] text[i] == '0',
    ensures
        numeral(text) == 0,
        all_digits(text),
    decreases text.len(),
{
    if text.len() > 0 {
        lemma_zeros(text.drop_last());
        assert(text[text.len() - 1] == '0');
    }
}

/// The decimal text of an integer starts with a minus sign if and only if the integer is negative;
/// what follows stands for its size.
pub proof fn lemma_signed_decimal_reads_back(value: int)
    ensures
        value < 0 ==> signed_decimal(value)[0] == '-' && numeral(signed_decimal(value).skip(1))
            == -value && all_digits(signed_decimal(value).skip(1)),
        value >= 0 ==> numeral(signed_decimal(value)) == value && all_digits(signed_decimal(value)),
{
    if value < 0 {
        lemma_decimal_reads_back((-value) as nat);
        assert(signed_decimal(value).skip(1) =~= decimal((-value) as nat));
    } else {
        lemma_decimal_reads_back(value as nat);
    }
}

} // verus!
