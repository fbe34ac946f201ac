//! Reading a coordinate from a line of text of the form `x,y`.

use crate::board::{in_bounds, Coordinate};
use vstd::prelude::*;

verus! {

/// Why a line of text is not a coordinate.
#[derive(Debug, Clone, Copy, PartialEq, Eq, Structural)]
pub enum InputError {
    /// The line holds nothing but whitespace.
    Empty,
    /// The line does not hold exactly two values with a comma between them.
    NotTwoValues,
    /// Both values are numbers, and one of them is larger than 2.
    TooLarge,
    /// One of the values is not a number that can be read.
    NotANumber,
}

/// Whether `c` is whitespace: one of the characters with the Unicode
/// property `White_Space`.
pub open spec fn is_whitespace(c: char) -> bool {
    let code = c as u32;
    ||| 0x09 <= code <= 0x0D
    ||| code == 0x20
    ||| code == 0x85
    ||| code == 0xA0
    ||| code == 0x1680
    ||| 0x2000 <= code <= 0x200A
    ||| code == 0x2028
    ||| code == 0x2029
    ||| code == 0x202F
    ||| code == 0x205F
    ||| code == 0x3000
}

/// `s` without the whitespace at its start.
pub open spec fn trimmed_start(s: Seq<char>) -> Seq<char>
    decreases s.len(),
{
    if s.len() > 0 && is_whitespace(s[0]) {
        trimmed_start(s.skip(1))
    } else {
        s
    }
}

/// `s` without the whitespace at its end.
pub open spec fn trimmed_end(s: Seq<char>) -> Seq<char>
    decreases s.len(),
{
    if s.len() > 0 && is_whitespace(s.last()) {
        trimmed_end(s.drop_last())
    } else {
        s
    }
}

/// `s` without the whitespace at its start and at its end.
pub open spec fn trimmed(s: Seq<char>) -> Seq<char> {
    trimmed_end(trimmed_start(s))
}

/// Whether `c` is one of the decimal digits `0` to `9`.
pub open spec fn is_digit(c: char) -> bool {
    '0' <= c <= '9'
}

/// The number that a sequence of decimal digits denotes.
pub open spec fn digits_value(digits: Seq<char>) -> nat
    decreases digits.len(),
{
    if digits.len() == 0 {
        0
    } else {
        (10 * digits_value(digits.drop_last()) + (digits.last() as u32 - '0' as u32)) as nat
    }
}

/// Whether `s` consists of decimal digits only.
pub open spec fn all_digits(s: Seq<char>) -> bool {
    forall|i: int| 0 <= i < s.len() ==> is_digit(#[trigger] s[i])
}

/// `s` without the `+` that may stand at its start.
pub open spec fn without_plus(s: Seq<char>) -> Seq<char> {
    if s.len() > 0 && s[0] == '+' {
        s.skip(1)
    } else {
        s
    }
}

/// The number that `s` denotes: an optional `+`, then one or more decimal
/// digits and nothing else. A number that does not fit in `usize` cannot
/// be read.
pub open spec fn parsed_number(s: Seq<char>) -> Option<usize> {
    let digits = without_plus(s);
    if digits.len() > 0 && all_digits(digits) && digits_value(digits) <= usize::MAX {
        Some(digits_value(digits) as usize)
    } else {
        None
    }
}

/// Whether the only comma of `s` stands at index `k`.
pub open spec fn is_only_comma(s: Seq<char>, k: int) -> bool {
    &&& 0 <= k < s.len()
    &&& s[k] == ','
    &&& forall|i: int| 0 <= i < s.len() && i != k ==> #[trigger] s[i] != ','
}

/// The coordinate that a line of text denotes, or the reason why it
/// denotes none.
///
/// The line must hold two values with one comma between them; whitespace
/// around each value is ignored. Each value must be a number from 0 to 2.
pub open spec fn spec_parse_user_input(s: Seq<char>) -> Result<Coordinate, InputError> {
    if trimmed(s).len() == 0 {
        Err(InputError::Empty)
    } else if !exists|k: int| is_only_comma(s, k) {
        Err(InputError::NotTwoValues)
    } else {
        let k = choose|k: int| is_only_comma(s, k);
        let x = parsed_number(trimmed(s.take(k)));
        let y = parsed_number(trimmed(s.skip(k + 1)));
        if x is Some && y is Some {
            if x->Some_0 > 2 || y->Some_0 > 2 {
                Err(InputError::TooLarge)
            } else {
                Ok((x->Some_0, y->Some_0))
            }
        } else {
            Err(InputError::NotANumber)
        }
    }
}

/// Whether `c` is whitespace.
pub fn is_whitespace_char(c: char) -> (result: bool)
    ensures
        result == is_whitespace(c),
{
    let code = c as u32;
    (0x09 <= code && code <= 0x0D) || code == 0x20 || code == 0x85 || code == 0xA0 || code
        == 0x1680 || (0x2000 <= code && code <= 0x200A) || code == 0x2028 || code == 0x2029
        || code == 0x202F || code == 0x205F || code == 0x3000
}

/// The characters of `text`, one by one.
pub fn characters(text: &str) -> (chars: Vec<char>)
    ensures
        chars@ == text@,
{
    let mut chars: Vec<char> = Vec::new();
    for c in it: text.chars()
        invariant
            it.seq() == text@,
            chars@ == it.seq().take(it.index() as int),
    {
        chars.push(c);
        assert(it.seq().take(it.index() + 1) =~= it.seq().take(it.index() as int).push(c));
    }
    assert(text@.take(text@.len() as int) =~= text@);
    chars
}

/// The bounds of the part of `chars[from..to]` that is left when the
/// whitespace at its start and at its end is taken away.
pub fn trim_bounds(chars: &Vec<char>, from: usize, to: usize) -> (bounds: (usize, usize))
    requires
        from <= to <= chars.len(),
    ensures
        from <= bounds.0 <= bounds.1 <= to,
        chars@.subrange(bounds.0 as int, bounds.1 as int) == trimmed(
            chars@.subrange(from as int, to as int),
        ),
{
    let mut start = from;
    while start < to && is_whitespace_char(chars[start])
        invariant
            from <= start <= to <= chars.len(),
            trimmed_start(chars@.subrange(start as int, to as int)) == trimmed_start(
                chars@.subrange(from as int, to as int),
            ),
        decreases to - start,
    {
        assert(chars@.subrange(start as int, to as int).skip(1) =~= chars@.subrange(
            start + 1,
            to as int,
        ));
        start += 1;
    }
    let mut end = to;
    while end > start && is_whitespace_char(chars[end - 1])
        invariant
            start <= end <= to <= chars.len(),
            trimmed_end(chars@.subrange(start as int, end as int)) == trimmed_end(
                chars@.subrange(start as int, to as int),
            ),
        decreases end - start,
    {
        assert(chars@.subrange(start as int, end as int).drop_last() =~= chars@.subrange(
            start as int,
            end - 1,
        ));
        end -= 1;
    }
    (start, end)
}

/// A longer sequence of digits does not denote a smaller number.
pub proof fn lemma_digits_value_grows(digits: Seq<char>, k: int)
    requires
        0 <= k <= digits.len(),
        all_digits(digits),
    ensures
        digits_value(digits.take(k)) <= digits_value(digits),
    decreases digits.len() - k,
{
    if k < digits.len() {
        lemma_digits_value_grows(digits, k + 1);
        assert(digits.take(k + 1).drop_last() =~= digits.take(k));
        assert(is_digit(digits[k]));
    } else {
        assert(digits.take(k) =~= digits);
    }
}

/// The number that `chars[from..to]` denotes, if it denotes one that fits
/// in `usize`.
pub fn parse_number(chars: &Vec<char>, from: usize, to: usize) -> (number: Option<usize>)
    requires
        from <= to <= chars.len(),
    ensures
        number == parsed_number(chars@.subrange(from as int, to as int)),
{
    let ghost text = chars@.subrange(from as int, to as int);
    let mut i = from;
    if i < to && chars[i] == '+' {
        i += 1;
    }
    let start = i;
    let ghost digits = chars@.subrange(start as int, to as int);
    assert(digits =~= without_plus(text));
    if i == to {
        return None;
    }
    let mut value: usize = 0;
    while i < to
        invariant
            from <= start <= i <= to <= chars.len(),
            start < to,
            text == chars@.subrange(from as int, to as int),
            digits == chars@.subrange(start as int, to as int),
            digits == without_plus(text),
            forall|k: int| 0 <= k < i - start ==> is_digit(#[trigger] digits[k]),
            value == digits_value(digits.take(i - start)),
        decreases to - i,
    {
        let c = chars[i];
        if !('0' <= c && c <= '9') {
            assert(!is_digit(digits[i - start]));
            return None;
        }
        let digit = (c as u32 - '0' as u32) as usize;
        proof {
            assert(digits.take(i - start + 1).drop_last() =~= digits.take(i - start));
            assert(digits_value(digits.take(i - start + 1)) == 10 * value + digit);
        }
        if value > (usize::MAX - digit) / 10 {
            proof {
                if all_digits(digits) {
                    lemma_digits_value_grows(digits, i - start + 1);
                }
            }
            return None;
        }
        value = value * 10 + digit;
        i += 1;
    }
    assert(digits.take(i - start) =~= digits);
    Some(value)
}

/// Reads a coordinate from a line of the form `x,y`.
///
/// Whitespace around each of the two values is ignored, as is a line
/// break at the end. Each value must be a number from 0 to 2.
pub fn parse_user_input(input: String) -> (result: Result<Coordinate, InputError>)
    ensures
        result == spec_parse_user_input(input@),
        result matches Ok(coordinate) ==> in_bounds(coordinate),
{
    let chars = characters(input.as_str());
    let length = chars.len();
    assert(chars@.subrange(0, length as int) =~= input@);
    let (first, last) = trim_bounds(&chars, 0, length);
    if first == last {
        return Err(InputError::Empty);
    }
    assert(chars@.subrange(first as int, last as int).len() == last - first);
    let mut comma: Option<usize> = None;
    let mut i: usize = 0;
    while i < length
        invariant
            i <= length,
            length == chars.len(),
            chars@ == input@,
            trimmed(input@).len() != 0,
            match comma {
                Some(k) => k < i && chars[k as int] == ',' && forall|j: int|
                    0 <= j < i && j != k ==> #[trigger] chars[j] != ',',
                None => forall|j: int| 0 <= j < i ==> #[trigger] chars[j] != ',',
            },
        decreases length - i,
    {
        if chars[i] == ',' {
            if let Some(k) = comma {
                assert forall|only: int| !is_only_comma(chars@, only) by {
                    assert(chars@[k as int] == ',' && chars@[i as int] == ',');
                }
                return Err(InputError::NotTwoValues);
            }
            comma = Some(i);
        }
        i += 1;
    }
    let k = match comma {
        Some(k) => k,
        None => {
            assert forall|only: int| !is_only_comma(chars@, only) by {
                if 0 <= only < chars@.len() {
                    assert(chars@[only] != ',');
                }
            }
            return Err(InputError::NotTwoValues);
        },
    };
    proof {
        assert(is_only_comma(chars@, k as int));
        let chosen = choose|only: int| is_only_comma(chars@, only);
        assert(chars@[k as int] == ',');
        assert(chosen == k);
        assert(chars@.take(k as int) =~= chars@.subrange(0, k as int));
        assert(chars@.skip(k + 1) =~= chars@.subrange(k + 1, length as int));
    }
    let (x_first, x_last) = trim_bounds(&chars, 0, k);
    let (y_first, y_last) = trim_bounds(&chars, k + 1, length);
    let x_result = parse_number(&chars, x_first, x_last);
    let y_result = parse_number(&chars, y_first, y_last);
    match (x_result, y_result) {
        (Some(x), Some(y)) => {
            if x > 2 || y > 2 {
                return Err(InputError::TooLarge);
            }
            Ok((x, y))
        },
        _ => Err(InputError::NotANumber),
    }
}

impl InputError {
    /// The text shown to a player whose line could not be read.
    pub fn message(&self) -> (text: String)
        ensures
            text@ == match *self {
                InputError::Empty => "The input can't be empty"@,
                InputError::NotTwoValues => "You have to pass two values"@,
                InputError::TooLarge => "Value can't be larger than 2"@,
                InputError::NotANumber => "The value can't be smaller than 0"@,
            },
    {
        match self {
            InputError::Empty => "The input can't be empty".to_string(),
            InputError::NotTwoValues => "You have to pass two values".to_string(),
            InputError::TooLarge => "Value can't be larger than 2".to_string(),
            InputError::NotANumber => "The value can't be smaller than 0".to_string(),
        }
    }
}

} // verus!
