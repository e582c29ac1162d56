//! The texts that three function attributes work out: a greeting line, a
//! dump of what the attribute was given, and numbered copies of a function.

use crate::basics::{first_at, locate};
use crate::numeral::{decimal, decimal_text};
use vstd::prelude::*;

verus! {

/// The index of the first occurrence of `needle` in a text that holds it.
pub open spec fn index_of_first(text: Seq<char>, needle: char) -> int {
    choose|i: int| first_at(text, needle, i)
}

/// `text` with the numeral of `number` put in before the index `at`.
pub open spec fn numbered(text: Seq<char>, at: int, number: nat) -> Seq<char> {
    text.subrange(0, at) + decimal(number) + text.subrange(at, text.len() as int)
}

/// A first occurrence is the only first occurrence.
pub proof fn lemma_first_is_unique(text: Seq<char>, needle: char, i: int)
    requires
        first_at(text, needle, i),
    ensures
        text.contains(needle),
        index_of_first(text, needle) == i,
{
    let j = index_of_first(text, needle);
    assert(first_at(text, needle, j));
    if j < i {
        assert(text[j] != needle);
    } else if i < j {
        assert(text[i] != needle);
    }
}

/// The statement that the greeting attribute prints for `attr`; the
/// annotated item itself stays as it is.
pub fn hello_attribute(attr: &str) -> (output: String)
    ensures
        output@ == "println!(\"Hello, "@ + attr@ + "\");"@,
{
    let mut output = "println!(\"Hello, ".to_owned();
    output.append(attr);
    output.append("\");");
    output
}

/// The two lines that show what an attribute was given: its argument and the
/// annotated item, each in double quotes. The item itself stays as it is.
pub fn show_streams(attr: &str, item: &str) -> (lines: (String, String))
    ensures
        lines.0@ == "attr: \""@ + attr@ + "\""@,
        lines.1@ == "item: \""@ + item@ + "\""@,
{
    let mut first = "attr: \"".to_owned();
    first.append(attr);
    first.append("\"");
    let mut second = "item: \"".to_owned();
    second.append(item);
    second.append("\"");
    (first, second)
}

/// The copies that the repeating attribute makes of a function: one for each
/// number from 1 to `repeat_count`, the number put in before the first `(`,
/// that is at the end of the function's name. A text without `(` gives no
/// copy.
pub fn repeat(repeat_count: u32, input_fn: &str) -> (output: Vec<String>)
    ensures
        !input_fn@.contains('(') ==> output@.len() == 0,
        input_fn@.contains('(') ==> output@.len() == repeat_count,
        forall|i: int|
            0 <= i < output@.len() ==> #[trigger] output@[i]@ == numbered(
                input_fn@,
                index_of_first(input_fn@, '('),
                (i + 1) as nat,
            ),
{
    let mut output: Vec<String> = Vec::new();
    if let Some((index, _)) = locate(input_fn, '(') {
        proof {
            lemma_first_is_unique(input_fn@, '(', index as int);
        }
        let length: usize = input_fn.unicode_len();
        let head = input_fn.substring_char(0, index);
        let tail = input_fn.substring_char(index, length);
        for i in 0..repeat_count
            invariant
                head@ == input_fn@.subrange(0, index as int),
                tail@ == input_fn@.subrange(index as int, input_fn@.len() as int),
                index_of_first(input_fn@, '(') == index,
                output@.len() == i,
                forall|k: int|
                    0 <= k < output@.len() ==> #[trigger] output@[k]@ == numbered(
                        input_fn@,
                        index as int,
                        (k + 1) as nat,
                    ),
        {
            let mut ret = head.to_owned();
            let number = decimal_text(i + 1);
            ret.append(number.as_str());
            ret.append(tail);
            output.push(ret);
        }
    }
    output
}

} // verus!
