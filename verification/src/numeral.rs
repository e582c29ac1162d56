//! Decimal numerals: writing a number and reading one.

use vstd::prelude::*;

verus! {

/// The decimal digit for `d`.
pub open spec fn digit(d: nat) -> char {
    if d == 0 {
        '0'
    } else if d == 1 {
        '1'
    } else if d == 2 {
        '2'
    } else if d == 3 {
        '3'
    } else if d == 4 {
        '4'
    } else if d == 5 {
        '5'
    } else if d == 6 {
        '6'
    } else if d == 7 {
        '7'
    } else if d == 8 {
        '8'
    } else {
        '9'
    }
}

/// The value of a decimal digit; no other character has one.
pub open spec fn digit_value(c: char) -> Option<nat> {
    if c == '0' {
        Some(0)
    } else if c == '1' {
        Some(1)
    } else if c == '2' {
        Some(2)
    } else if c == '3' {
        Some(3)
    } else if c == '4' {
        Some(4)
    } else if c == '5' {
        Some(5)
    } else if c == '6' {
        Some(6)
    } else if c == '7' {
        Some(7)
    } else if c == '8' {
        Some(8)
    } else if c == '9' {
        Some(9)
    } else {
        None
    }
}

/// The decimal numeral of `n`, without leading zeros.
pub open spec fn decimal(n: nat) -> Seq<char>
    decreases n,
{
    if n < 10 {
        seq![digit(n)]
    } else {
        decimal(n / 10).push(digit(n % 10))
    }
}

/// The number that a text of one or more decimal digits writes; a text that
/// is empty or holds another character writes none.
pub open spec fn numeral_value(digits: Seq<char>) -> Option<nat>
    decreases digits.len(),
{
    if digits.len() == 0 {
        None
    } else {
        match digit_value(digits.last()) {
            None => None,
            Some(d) => if digits.len() == 1 {
                Some(d)
            } else {
                match numeral_value(digits.drop_last()) {
                    Some(v) => Some(v * 10 + d),
                    None => None,
                }
            },
        }
    }
}

/// `text` without a leading plus sign.
pub open spec fn unsigned_part(text: Seq<char>) -> Seq<char> {
    if text.len() > 0 && text[0] == '+' {
        text.drop_first()
    } else {
        text
    }
}

/// The count that `text` writes: decimal digits, with or without a plus sign
/// in front, that write a number of 32 bits. Leading zeros are read over.
pub open spec fn parsed_count(text: Seq<char>) -> Option<u32> {
    match numeral_value(unsigned_part(text)) {
        Some(v) => if v <= u32::MAX {
            Some(v as u32)
        } else {
            None
        },
        None => None,
    }
}

/// A character that is no digit leaves the text without a value.
pub proof fn lemma_other_character_spoils(digits: Seq<char>, k: int)
    requires
        0 <= k < digits.len(),
        digit_value(digits[k]) is None,
    ensures
        numeral_value(digits) is None,
    decreases digits.len(),
{
    if k < digits.len() - 1 {
        lemma_other_character_spoils(digits.drop_last(), k);
    }
}

/// A text of digits writes at least what any beginning of it writes.
pub proof fn lemma_value_grows(digits: Seq<char>, k: int)
    requires
        1 <= k <= digits.len(),
        numeral_value(digits.subrange(0, k)) is Some,
    ensures
        numeral_value(digits) matches Some(v) ==> v >= numeral_value(digits.subrange(0, k))->0,
    decreases digits.len() - k,
{
    if k < digits.len() {
        assert(digits.drop_last().subrange(0, k) =~= digits.subrange(0, k));
        lemma_value_grows(digits.drop_last(), k);
    } else {
        assert(digits.subrange(0, k) =~= digits);
    }
}

/// A digit more at the end: ten times the value so far, and the digit.
pub proof fn lemma_value_step(digits: Seq<char>, k: int)
    requires
        0 <= k < digits.len(),
        digit_value(digits[k]) is Some,
        k > 0 ==> numeral_value(digits.subrange(0, k)) is Some,
    ensures
        numeral_value(digits.subrange(0, k + 1)) == Some(
            if k == 0 {
                digit_value(digits[k])->0
            } else {
                numeral_value(digits.subrange(0, k))->0 * 10 + digit_value(digits[k])->0
            },
        ),
{
    let longer = digits.subrange(0, k + 1);
    assert(longer.last() == digits[k]);
    assert(longer.drop_last() =~= digits.subrange(0, k));
}

/// The numeral of a number writes that number.
pub proof fn lemma_decimal_writes(n: nat)
    ensures
        numeral_value(decimal(n)) == Some(n),
        decimal(n).len() > 0,
        digit_value(decimal(n)[0]) is Some,
    decreases n,
{
    if n < 10 {
        assert(decimal(n).last() == digit(n));
    } else {
        lemma_decimal_writes(n / 10);
        let shorter = decimal(n / 10);
        let whole = decimal(n);
        assert(whole.last() == digit(n % 10));
        assert(whole.drop_last() =~= shorter);
        assert(whole[0] == shorter[0]);
    }
}

/// Reading undoes writing: the numeral of a count is read as that count.
pub proof fn law_written_count_is_read_back(n: u32)
    ensures
        parsed_count(decimal(n as nat)) == Some(n),
{
    lemma_decimal_writes(n as nat);
}

/// The one-character text of a digit.
fn digit_text(d: u32) -> (text: &'static str)
    requires
        d < 10,
    ensures
        text@ == seq![digit(d as nat)],
{
    proof {
        reveal_strlit("0");
        reveal_strlit("1");
        reveal_strlit("2");
        reveal_strlit("3");
        reveal_strlit("4");
        reveal_strlit("5");
        reveal_strlit("6");
        reveal_strlit("7");
        reveal_strlit("8");
        reveal_strlit("9");
    }
    let text = if d == 0 {
        "0"
    } else if d == 1 {
        "1"
    } else if d == 2 {
        "2"
    } else if d == 3 {
        "3"
    } else if d == 4 {
        "4"
    } else if d == 5 {
        "5"
    } else if d == 6 {
        "6"
    } else if d == 7 {
        "7"
    } else if d == 8 {
        "8"
    } else {
        "9"
    };
    assert(text@ =~= seq![digit(d as nat)]);
    text
}

/// The decimal numeral of `n`.
pub fn decimal_text(n: u32) -> (text: String)
    ensures
        text@ == decimal(n as nat),
    decreases n,
{
    if n < 10 {
        digit_text(n).to_owned()
    } else {
        let mut text = decimal_text(n / 10);
        text.append(digit_text(n % 10));
        assert(text@ =~= decimal(n as nat));
        text
    }
}

/// The value of `c` as a decimal digit.
pub fn digit_of(c: char) -> (value: Option<u32>)
    ensures
        match value {
            Some(d) => digit_value(c) == Some(d as nat) && d < 10,
            None => digit_value(c) is None,
        },
{
    if c == '0' {
        Some(0)
    } else if c == '1' {
        Some(1)
    } else if c == '2' {
        Some(2)
    } else if c == '3' {
        Some(3)
    } else if c == '4' {
        Some(4)
    } else if c == '5' {
        Some(5)
    } else if c == '6' {
        Some(6)
    } else if c == '7' {
        Some(7)
    } else if c == '8' {
        Some(8)
    } else if c == '9' {
        Some(9)
    } else {
        None
    }
}

/// Reads a count: decimal digits, with or without a plus sign in front. A
/// text that is empty, holds any other character or writes a number beyond
/// 32 bits gives `None`.
pub fn parse_count(text: &str) -> (count: Option<u32>)
    ensures
        count == parsed_count(text@),
{
    let ghost body = unsigned_part(text@);
    let mut value: u32 = 0;
    let mut first = true;
    let mut signed = false;
    let mut any = false;
    for c in it: text.chars()
        invariant
            it.seq() == text@,
            body == unsigned_part(text@),
            first == (it.index() == 0),
            signed ==> it.index() >= 1 && text@[0] == '+',
            !signed && it.index() >= 1 ==> text@[0] != '+',
            any == (it.index() - (if signed { 1int } else { 0int }) > 0),
            any ==> numeral_value(
                body.subrange(0, it.index() - (if signed { 1int } else { 0int })),
            ) == Some(value as nat),
    {
        let ghost seen = it.index() - (if signed { 1int } else { 0int });
        if first && c == '+' {
            signed = true;
        } else {
            assert(body[seen] == c);
            match digit_of(c) {
                None => {
                    proof {
                        lemma_other_character_spoils(body, seen);
                    }
                    return None;
                },
                Some(d) => {
                    proof {
                        lemma_value_step(body, seen);
                        lemma_value_grows(body, seen + 1);
                    }
                    if any {
                        if value > (u32::MAX - d) / 10 {
                            return None;
                        }
                        value = value * 10 + d;
                    } else {
                        value = d;
                    }
                    any = true;
                },
            }
        }
        first = false;
    }
    proof {
        assert(body.subrange(0, body.len() as int) =~= body);
    }
    if any {
        Some(value)
    } else {
        None
    }
}

} // verus!
