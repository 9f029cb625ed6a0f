//! Decimal numbers: reading them from text and writing them as text.

use vstd::prelude::*;

verus! {

/// Why a text is not a number of the wanted type.
#[derive(Clone, Copy, Debug, PartialEq, Eq, Structural)]
pub enum IntError {
    /// There is no character at all.
    Empty,
    /// A character is not a digit, or there is a sign and no digit.
    InvalidDigit,
    /// The number is greater than the type's maximum.
    PosOverflow,
}

impl IntError {
    /// What the error says.
    pub open spec fn text(self) -> Seq<char> {
        match self {
            IntError::Empty => "cannot parse integer from empty string"@,
            IntError::InvalidDigit => "invalid digit found in string"@,
            IntError::PosOverflow => "number too large to fit in target type"@,
        }
    }

    /// What the error says, as a string.
    pub fn message(self) -> (s: String)
        ensures
            s@ == self.text(),
    {
        match self {
            IntError::Empty => "cannot parse integer from empty string".to_owned(),
            IntError::InvalidDigit => "invalid digit found in string".to_owned(),
            IntError::PosOverflow => "number too large to fit in target type".to_owned(),
        }
    }
}

/// Whether a character is one of the ten ASCII digits.
pub open spec fn is_digit(c: char) -> bool {
    '0' <= c && c <= '9'
}

/// What an ASCII digit stands for.
pub open spec fn digit_value(c: char) -> nat {
    (c as u32 - '0' as u32) as nat
}

/// The number that a sequence of digits stands for.
pub open spec fn digits_value(s: Seq<char>) -> nat
    decreases s.len(),
{
    if s.len() == 0 {
        0
    } else {
        10 * digits_value(s.drop_last()) + digit_value(s.last())
    }
}

/// Whether every character is a digit.
pub open spec fn all_digits(s: Seq<char>) -> bool {
    forall|i: int| 0 <= i < s.len() ==> is_digit(#[trigger] s[i])
}

/// Whether the character at `i` stops the reading of `s` from the left: it is no digit, or the
/// number up to it is greater than `max`.
pub open spec fn stops_at(s: Seq<char>, max: nat, i: int) -> bool {
    !is_digit(s[i]) || digits_value(s.take(i + 1)) > max
}

/// The text behind a leading plus sign. A plus sign alone is kept.
pub open spec fn unsigned_part(s: Seq<char>) -> Seq<char> {
    if s.len() > 1 && s[0] == '+' {
        s.skip(1)
    } else {
        s
    }
}

/// The position of the first character that stops the reading, from `i` on.
pub open spec fn first_stop(s: Seq<char>, max: nat, i: int) -> int
    decreases s.len() - i,
{
    if i >= s.len() || stops_at(s, max, i) {
        i
    } else {
        first_stop(s, max, i + 1)
    }
}

/// The number that a text stands for, none greater than `max`: digits, with an optional plus sign
/// before them. The error is that of the first character that stops the reading.
pub open spec fn parsed(s: Seq<char>, max: nat) -> Result<nat, IntError> {
    let digits = unsigned_part(s);
    let stop = first_stop(digits, max, 0);
    if s.len() == 0 {
        Err(IntError::Empty)
    } else if stop >= digits.len() {
        Ok(digits_value(digits))
    } else if !is_digit(digits[stop]) {
        Err(IntError::InvalidDigit)
    } else {
        Err(IntError::PosOverflow)
    }
}

/// Reads an unsigned number that is at most `max`.
pub fn parse_unsigned(s: &Vec<char>, max: u64) -> (r: Result<u64, IntError>)
    ensures
        match r {
            Ok(n) => parsed(s@, max as nat) == Ok::<nat, IntError>(n as nat),
            Err(e) => parsed(s@, max as nat) == Err::<nat, IntError>(e),
        },
        r matches Ok(n) ==> n <= max,
{
    if s.len() == 0 {
        return Err(IntError::Empty);
    }
    let start: usize = if s.len() > 1 && s[0] == '+' {
        1
    } else {
        0
    };
    let ghost digits = unsigned_part(s@);
    proof {
        assert(s@.skip(0) =~= s@);
        assert(digits =~= s@.skip(start as int));
        assert(digits.take(0) =~= Seq::empty());
    }
    let mut n: u64 = 0;
    let mut i: usize = start;
    while i < s.len()
        invariant
            start <= i <= s@.len(),
            digits == s@.skip(start as int),
            n == digits_value(digits.take(i - start)),
            n <= max,
            first_stop(digits, max as nat, 0) == first_stop(digits, max as nat, i - start),
            s@.len() > 0,
            digits == unsigned_part(s@),
        decreases s@.len() - i,
    {
        let c: char = s[i];
        let ghost k = i - start;
        assert(digits[k] == c);
        if !('0' <= c && c <= '9') {
            return Err(IntError::InvalidDigit);
        }
        let d: u64 = c as u64 - '0' as u64;
        proof {
            assert(digits.take(k + 1).drop_last() =~= digits.take(k));
            assert(digits_value(digits.take(k + 1)) == 10 * n + d);
        }
        if d > max || n > (max - d) / 10 {
            return Err(IntError::PosOverflow);
        }
        n = n * 10 + d;
        i += 1;
    }
    assert(digits.take(digits.len() as int) =~= digits);
    Ok(n)
}

/// The digit for a number below ten.
pub open spec fn digit_char(d: nat) -> char {
    (d + '0' as u32) as char
}

/// A number in decimal notation, without leading zeros.
pub open spec fn decimal(n: nat) -> Seq<char>
    decreases n,
{
    if n < 10 {
        seq![digit_char(n)]
    } else {
        decimal(n / 10).push(digit_char(n % 10))
    }
}

/// A number in decimal notation, with a minus sign before a negative one.
pub open spec fn signed_decimal(n: int) -> Seq<char> {
    if n < 0 {
        seq!['-'] + decimal((-n) as nat)
    } else {
        decimal(n as nat)
    }
}

fn digit_str(d: u64) -> (s: &'static str)
    requires
        d < 10,
    ensures
        s@ == seq![digit_char(d as nat)],
{
    proof {
        reveal_strlit("0");
        reveal_strlit("1");
        reveal_strlit("2");
        reveal_strlit("3");
        reveal_strlit("4");
        reveal_strlit("5");
        reveal_strlit("6");
        reveal_strlit("7");
        reveal_strlit("8");
        reveal_strlit("9");
    }
    match d {
        0 => "0",
        1 => "1",
        2 => "2",
        3 => "3",
        4 => "4",
        5 => "5",
        6 => "6",
        7 => "7",
        8 => "8",
        _ => "9",
    }
}

/// Writes a number in decimal notation.
pub fn to_decimal(n: u64) -> (s: String)
    ensures
        s@ == decimal(n as nat),
    decreases n,
{
    if n < 10 {
        digit_str(n).to_owned()
    } else {
        let mut s: String = to_decimal(n / 10);
        s.append(digit_str(n % 10));
        assert(s@ =~= decimal(n as nat));
        s
    }
}

/// Writes a signed number in decimal notation.
pub fn to_signed_decimal(n: i32) -> (s: String)
    ensures
        s@ == signed_decimal(n as int),
{
    if n < 0 {
        proof {
            reveal_strlit("-");
        }
        let mut s: String = "-".to_owned();
        let m: i64 = -(n as i64);
        s.append(to_decimal(m as u64).as_str());
        assert(s@ =~= signed_decimal(n as int));
        s
    } else {
        to_decimal(n as u64)
    }
}

proof fn lemma_first_stop(s: Seq<char>, max: nat, i: int)
    requires
        0 <= i <= s.len(),
    ensures
        i <= first_stop(s, max, i) <= s.len(),
        forall|j: int| i <= j < first_stop(s, max, i) ==> !stops_at(s, max, j),
        first_stop(s, max, i) < s.len() ==> stops_at(s, max, first_stop(s, max, i)),
    decreases s.len() - i,
{
    if i < s.len() && !stops_at(s, max, i) {
        lemma_first_stop(s, max, i + 1);
    }
}

proof fn lemma_prefix_value(s: Seq<char>, i: int)
    requires
        0 <= i <= s.len(),
    ensures
        digits_value(s.take(i)) <= digits_value(s),
    decreases s.len(),
{
    if i == s.len() {
        assert(s.take(i) =~= s);
    } else {
        lemma_prefix_value(s.drop_last(), i);
        assert(s.drop_last().take(i) =~= s.take(i));
    }
}

/// A text is accepted exactly when it holds digits, at least one and with an optional plus sign
/// before them, that stand for a number of at most `max`; it then stands for that number.
pub proof fn law_parsed_accepts(s: Seq<char>, max: nat)
    ensures
        parsed(s, max) is Ok <==> {
            &&& unsigned_part(s).len() > 0
            &&& all_digits(unsigned_part(s))
            &&& digits_value(unsigned_part(s)) <= max
        },
        parsed(s, max) matches Ok(n) ==> n == digits_value(unsigned_part(s)),
{
    let digits = unsigned_part(s);
    let stop = first_stop(digits, max, 0);
    lemma_first_stop(digits, max, 0);
    if stop == digits.len() && s.len() > 0 {
        assert forall|i: int| 0 <= i < digits.len() implies is_digit(#[trigger] digits[i]) by {
            assert(!stops_at(digits, max, i));
        }
        assert(!stops_at(digits, max, digits.len() - 1));
        assert(digits.take(digits.len() as int) =~= digits);
    } else if s.len() > 0 {
        lemma_prefix_value(digits, stop + 1);
        assert(stops_at(digits, max, stop));
    }
}

/// What is written is a numeral: digits, at least one, that stand for the number.
pub proof fn law_decimal_is_a_numeral(n: nat)
    ensures
        decimal(n).len() > 0,
        all_digits(decimal(n)),
        digits_value(decimal(n)) == n,
    decreases n,
{
    reveal_with_fuel(digits_value, 2);
    if n < 10 {
        assert(decimal(n).drop_last() =~= Seq::empty());
    } else {
        law_decimal_is_a_numeral(n / 10);
        assert(decimal(n).drop_last() =~= decimal(n / 10));
    }
}

/// Reading what was written gives the number back.
pub proof fn law_decimal_is_read_back(n: nat, max: nat)
    requires
        n <= max,
    ensures
        parsed(decimal(n), max) == Ok::<nat, IntError>(n),
{
    law_decimal_is_a_numeral(n);
    assert(is_digit(decimal(n)[0]));
    assert(unsigned_part(decimal(n)) == decimal(n));
    law_parsed_accepts(decimal(n), max);
}

/// Two numbers that are written alike are equal.
pub proof fn law_decimal_is_injective(a: nat, b: nat)
    requires
        decimal(a) == decimal(b),
    ensures
        a == b,
{
    law_decimal_is_a_numeral(a);
    law_decimal_is_a_numeral(b);
}

/// The digits are the ten characters from `0` to `9`, and no others.
pub proof fn law_there_are_ten_digits(c: char)
    ensures
        is_digit(c) <==> seq!['0', '1', '2', '3', '4', '5', '6', '7', '8', '9'].contains(c),
{
    let ten = seq!['0', '1', '2', '3', '4', '5', '6', '7', '8', '9'];
    if is_digit(c) {
        assert(ten[c as u32 - '0' as u32] == c);
    }
}

/// One more digit makes a number ten times as large, plus the digit; no digits stand for zero.
pub proof fn law_digits_have_place_value(s: Seq<char>, c: char)
    requires
        '0' <= c <= '9',
    ensures
        digits_value(Seq::empty()) == 0,
        digits_value(s.push(c)) == 10 * digits_value(s) + (c as int - '0' as int),
{
    assert(s.push(c).drop_last() =~= s);
}

/// One plus sign before a text does not matter; without one the text is left as it is, and so is a
/// plus sign alone.
pub proof fn law_one_plus_sign_is_skipped(s: Seq<char>)
    ensures
        s.len() > 0 ==> unsigned_part(seq!['+'] + s) == s,
        s.len() == 0 || s[0] != '+' ==> unsigned_part(s) == s,
        unsigned_part(seq!['+']) == seq!['+'],
{
    assert((seq!['+'] + s).skip(1) =~= s);
}

/// Whether a text is a numeral for a number: digits, at least one and with an optional plus sign
/// before them.
pub open spec fn is_numeral_of(s: Seq<char>, n: nat) -> bool {
    &&& unsigned_part(s).len() > 0
    &&& forall|i: int|
        0 <= i < unsigned_part(s).len() ==> '0' <= #[trigger] unsigned_part(s)[i] <= '9'
    &&& digits_value(unsigned_part(s)) == n
}

/// A text is read as a number exactly when it is a numeral for it and the number is not too large.
pub proof fn law_numerals_are_read(s: Seq<char>, n: nat, max: nat)
    ensures
        parsed(s, max) == Ok::<nat, IntError>(n) <==> is_numeral_of(s, n) && n <= max,
{
    law_parsed_accepts(s, max);
    let digits = unsigned_part(s);
    if is_numeral_of(s, n) {
        assert forall|i: int| 0 <= i < digits.len() implies is_digit(#[trigger] digits[i]) by {}
    }
    if parsed(s, max) is Ok {
        assert forall|i: int| 0 <= i < digits.len() implies '0' <= #[trigger] digits[i] <= '9' by {
            assert(is_digit(digits[i]));
        }
    }
}

/// The error tells what stops the reading first: nothing to read, a character that is no digit, or
/// a number that has become too large.
pub proof fn law_the_first_obstacle_is_reported(s: Seq<char>, max: nat, i: int)
    requires
        0 <= i < unsigned_part(s).len(),
        forall|j: int|
            0 <= j < i ==> '0' <= #[trigger] unsigned_part(s)[j] <= '9' && digits_value(
                unsigned_part(s).take(j + 1),
            ) <= max,
    ensures
        parsed(Seq::empty(), max) == Err::<nat, IntError>(IntError::Empty),
        !('0' <= unsigned_part(s)[i] <= '9') ==> parsed(s, max) == Err::<nat, IntError>(
            IntError::InvalidDigit,
        ),
        '0' <= unsigned_part(s)[i] <= '9' && digits_value(unsigned_part(s).take(i + 1)) > max
            ==> parsed(s, max) == Err::<nat, IntError>(IntError::PosOverflow),
{
    let digits = unsigned_part(s);
    let stop = first_stop(digits, max, 0);
    lemma_first_stop(digits, max, 0);
    if stop < i {
        assert('0' <= digits[stop] <= '9');
        assert(stops_at(digits, max, stop));
    }
    if i < stop {
        assert(!stops_at(digits, max, i));
    }
}

/// What each error says.
pub proof fn law_error_texts()
    ensures
        IntError::Empty.text() == "cannot parse integer from empty string"@,
        IntError::InvalidDigit.text() == "invalid digit found in string"@,
        IntError::PosOverflow.text() == "number too large to fit in target type"@,
{
}

/// A number is written without leading zeros.
pub proof fn law_decimal_has_no_leading_zero(n: nat)
    ensures
        decimal(0) == seq!['0'],
        n > 0 ==> decimal(n)[0] != '0',
    decreases n,
{
    if n >= 10 {
        law_decimal_has_no_leading_zero(n / 10);
        law_decimal_is_a_numeral(n / 10);
    }
}

/// A numeral without a sign and without leading zeros is the one that is written.
pub proof fn law_decimal_is_the_shortest_numeral(s: Seq<char>)
    requires
        s.len() > 0,
        forall|i: int| 0 <= i < s.len() ==> '0' <= #[trigger] s[i] <= '9',
        s[0] == '0' ==> s.len() == 1,
    ensures
        decimal(digits_value(s)) == s,
    decreases s.len(),
{
    let n = digits_value(s);
    reveal_with_fuel(digits_value, 2);
    assert(s.drop_last().push(s.last()) =~= s);
    if s.len() == 1 {
        assert(s.drop_last() =~= Seq::empty());
        assert(decimal(n) =~= s);
    } else {
        law_decimal_is_the_shortest_numeral(s.drop_last());
        lemma_prefix_value(s.drop_last(), 1);
        assert(s.drop_last().take(1).drop_last() =~= Seq::empty());
        assert(decimal(n) =~= s);
    }
}

/// A negative number is written as a minus sign and its absolute value, another one as it is.
pub proof fn law_minus_sign(n: nat)
    ensures
        signed_decimal(n as int) == decimal(n),
        n > 0 ==> signed_decimal(-(n as int)) == seq!['-'] + decimal(n),
{
}

/// What is written for a number is a numeral for it.
pub proof fn law_decimal_is_its_numeral(n: nat)
    ensures
        is_numeral_of(decimal(n), n),
{
    law_decimal_is_read_back(n, n);
    law_numerals_are_read(decimal(n), n, n);
}

} // verus!
