//! Small building blocks: integer helpers, a search in a string, and two
//! plain records.

use vstd::prelude::*;
use vstd::utf8::{char_is_scalar, encode_scalar, encode_utf8};

verus! {

/// The successor of `value`.
pub fn increase_by_one(value: i32) -> (next: i32)
    requires
        value < i32::MAX,
    ensures
        next == value + 1,
{
    let mut value = value;
    value += 1;
    return value;
}

/// The distance of `x` from zero.
pub open spec fn magnitude(x: int) -> int {
    if x >= 0 {
        x
    } else {
        -x
    }
}

/// The quotient of the division that rounds towards zero: the quotient of
/// the magnitudes, negative where the signs differ.
pub open spec fn quotient_towards_zero(x: int, y: int) -> int {
    if (x >= 0) == (y > 0) {
        magnitude(x) / magnitude(y)
    } else {
        -(magnitude(x) / magnitude(y))
    }
}

/// The remainder of the division that rounds towards zero: the remainder of
/// the magnitudes, with the sign of the dividend.
pub open spec fn remainder_towards_zero(x: int, y: int) -> int {
    if x >= 0 {
        magnitude(x) % magnitude(y)
    } else {
        -(magnitude(x) % magnitude(y))
    }
}

/// Quotient and remainder towards zero make up the dividend, and the
/// remainder is smaller in magnitude than the divisor.
pub proof fn lemma_division_towards_zero(x: int, y: int)
    requires
        y != 0,
    ensures
        quotient_towards_zero(x, y) * y + remainder_towards_zero(x, y) == x,
        x >= 0 ==> 0 <= remainder_towards_zero(x, y) < magnitude(y),
        x < 0 ==> -magnitude(y) < remainder_towards_zero(x, y) <= 0,
{
    let a = magnitude(x);
    let b = magnitude(y);
    assert(b * (a / b) + a % b == a && 0 <= a % b < b) by (nonlinear_arith)
        requires
            b > 0,
    ;
    assert((a / b) * y == y * (a / b)) by (nonlinear_arith);
    assert((-(a / b)) * y == -(y * (a / b))) by (nonlinear_arith);
    assert((-b) * (a / b) == -(b * (a / b))) by (nonlinear_arith);
}

/// Quotient and remainder of the division that rounds towards zero.
#[verifier::nonlinear]
pub fn divmod(x: i32, y: i32) -> (out: (i32, i32))
    requires
        y != 0,
        !(x == i32::MIN && y == -1),
    ensures
        out.0 == quotient_towards_zero(x as int, y as int),
        out.1 == remainder_towards_zero(x as int, y as int),
        out.0 * y + out.1 == x,
        x >= 0 ==> 0 <= out.1 < magnitude(y as int),
        x < 0 ==> -magnitude(y as int) < out.1 <= 0,
{
    proof {
        lemma_division_towards_zero(x as int, y as int);
    }
    return (x / y, x % y);
}

/// Whether a guess between 1 and 10 hits the number 5.
pub fn guss(n: i32) -> (hit: bool)
    requires
        1 <= n <= 10,
    ensures
        hit == (n == 5),
{
    n == 5
}

/// The number of bytes that the first `i` characters of `text` take in
/// UTF-8, which is the byte offset of the character at index `i`.
pub open spec fn byte_offset(text: Seq<char>, i: int) -> nat {
    encode_utf8(text.subrange(0, i)).len()
}

/// `i` is the index of the first occurrence of `needle` in `text`.
pub open spec fn first_at(text: Seq<char>, needle: char, i: int) -> bool {
    &&& 0 <= i < text.len()
    &&& text[i] == needle
    &&& forall|j: int| 0 <= j < i ==> text[j] != needle
}

/// Appending a character appends its encoding.
pub proof fn lemma_encode_push(text: Seq<char>, c: char)
    ensures
        encode_utf8(text.push(c)) == encode_utf8(text) + encode_scalar(c as u32),
    decreases text.len(),
{
    if text.len() == 0 {
        assert(text.push(c).drop_first() =~= text);
        assert(encode_utf8(text.push(c)) =~= encode_utf8(text) + encode_scalar(c as u32));
    } else {
        lemma_encode_push(text.drop_first(), c);
        assert(text.push(c).drop_first() =~= text.drop_first().push(c));
        assert(encode_utf8(text.push(c)) =~= encode_utf8(text) + encode_scalar(c as u32));
    }
}

/// The offset of the next character lies one encoded character further.
pub proof fn lemma_offset_step(text: Seq<char>, i: int)
    requires
        0 <= i < text.len(),
    ensures
        byte_offset(text, i + 1) == byte_offset(text, i) + encode_scalar(text[i] as u32).len(),
{
    assert(text.subrange(0, i + 1) =~= text.subrange(0, i).push(text[i]));
    lemma_encode_push(text.subrange(0, i), text[i]);
}

/// Offsets grow with the index.
pub proof fn lemma_offset_grows(text: Seq<char>, i: int, j: int)
    requires
        0 <= i <= j <= text.len(),
    ensures
        byte_offset(text, i) <= byte_offset(text, j),
    decreases j - i,
{
    if i < j {
        lemma_offset_grows(text, i, j - 1);
        lemma_offset_step(text, j - 1);
    }
}

/// The number of bytes that `c` takes in UTF-8.
pub fn width_of(c: char) -> (width: usize)
    ensures
        width == encode_scalar(c as u32).len(),
        1 <= width <= 4,
{
    proof {
        char_is_scalar(c);
    }
    let scalar: u32 = c as u32;
    if scalar < 0x80 {
        1
    } else if scalar < 0x800 {
        2
    } else if scalar < 0x10000 {
        3
    } else {
        4
    }
}

/// The first occurrence of `needle` in `haystack`: its index in characters
/// and its offset in bytes.
pub fn locate(haystack: &str, needle: char) -> (found: Option<(usize, usize)>)
    ensures
        match found {
            Some((index, offset)) => first_at(haystack@, needle, index as int) && offset
                == byte_offset(haystack@, index as int),
            None => !haystack@.contains(needle),
        },
{
    let total: usize = haystack.as_bytes().len();
    let mut index: usize = 0;
    let mut offset: usize = 0;
    proof {
        assert(haystack@.subrange(0, haystack@.len() as int) =~= haystack@);
        assert(haystack@.subrange(0, 0) =~= Seq::<char>::empty());
    }
    for c in it: haystack.chars()
        invariant
            it.seq() == haystack@,
            index == it.index(),
            index <= offset,
            offset == byte_offset(haystack@, index as int),
            total == byte_offset(haystack@, haystack@.len() as int),
            forall|j: int| 0 <= j < index ==> haystack@[j] != needle,
    {
        if c == needle {
            return Some((index, offset));
        }
        proof {
            lemma_offset_step(haystack@, index as int);
            lemma_offset_grows(haystack@, index + 1, haystack@.len() as int);
        }
        offset = offset + width_of(c);
        index = index + 1;
    }
    None
}

/// The byte offset of the first occurrence of `needle` in `haystack`.
pub fn find(haystack: &str, needle: char) -> (found: Option<usize>)
    ensures
        match found {
            Some(offset) => exists|i: int|
                first_at(haystack@, needle, i) && offset == byte_offset(haystack@, i),
            None => !haystack@.contains(needle),
        },
{
    match locate(haystack, needle) {
        Some((_, offset)) => Some(offset),
        None => None,
    }
}

/// A person, known by name.
#[derive(Debug)]
pub struct People {
    name: String,
}

impl View for People {
    type V = Seq<char>;

    /// The person's name.
    closed spec fn view(&self) -> Seq<char> {
        self.name@
    }
}

impl People {
    /// A person of the name `n`.
    pub fn new(n: &str) -> (people: People)
        ensures
            people@ == n@,
    {
        People { name: n.to_owned() }
    }

    /// The person's name.
    pub fn name(&self) -> (name: &str)
        ensures
            name@ == self@,
    {
        self.name.as_str()
    }

    /// The line with which the person greets: the name, then ` say hello.`
    pub fn greeting(&self) -> (line: String)
        ensures
            line@ == self@ + " say hello."@,
    {
        let mut line = self.name.clone();
        line.append(" say hello.");
        line
    }
}

/// A circle on the integer grid.
#[derive(Clone, Copy, Debug, PartialEq, Eq)]
pub struct Circle {
    pub center: (i32, i32),
    pub radius: u32,
}

impl Circle {
    pub fn new(center: (i32, i32), radius: u32) -> (circle: Circle)
        ensures
            circle.center == center,
            circle.radius == radius,
    {
        Circle { center: center, radius: radius }
    }

    /// Moves the circle; its radius stays.
    pub fn move_to(&mut self, new_center: (i32, i32))
        ensures
            final(self).center == new_center,
            final(self).radius == old(self).radius,
    {
        self.center = new_center;
    }
}

} // verus!
