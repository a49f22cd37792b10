//! The range that an HTTP server says it returns.

use vstd::prelude::*;

use super::error::{NetworkError, Result};
use crate::text::{chars_of, decimal, digit};

verus! {

/// A range of an object, and the length of the object.
#[derive(Debug, Clone, Copy, PartialEq, Eq, Structural)]
pub struct ParsedContentRange {
    pub start: u64,
    pub end: u64,
    pub total: u64,
}

/// The place of a character from `from` on, or the length of the text.
pub open spec fn place_of(text: Seq<char>, wanted: char, from: int) -> int
    decreases text.len() - from,
{
    if from >= text.len() {
        text.len() as int
    } else if text[from] == wanted {
        from
    } else {
        place_of(text, wanted, from + 1)
    }
}

/// The character is a decimal digit.
pub open spec fn is_digit(c: char) -> bool {
    '0' <= c <= '9'
}

/// The number that digits spell out.
pub open spec fn digits_value(digits: Seq<char>) -> nat
    decreases digits.len(),
{
    if digits.len() == 0 {
        0
    } else {
        (10 * digits_value(digits.drop_last()) + (digits.last() as int - 48)) as nat
    }
}

/// The digits of a number, behind a plus sign if there is one.
pub open spec fn unsigned_part(text: Seq<char>) -> Seq<char> {
    if text.len() > 0 && text[0] == '+' {
        text.skip(1)
    } else {
        text
    }
}

/// The number that a text spells out, if it is one of 64 bits.
pub open spec fn number_of(text: Seq<char>) -> Option<u64> {
    let digits = unsigned_part(text);
    if digits.len() == 0 || exists|i: int|
        0 <= i < digits.len() && !is_digit(#[trigger] digits[i]) {
        None
    } else if digits_value(digits) > u64::MAX {
        None
    } else {
        Some(digits_value(digits) as u64)
    }
}

/// The numbers of a range and of a length, the end being inside the range.
pub open spec fn bounds_of(start: Option<u64>, last: Option<u64>, total: Option<u64>) -> Result<
    ParsedContentRange,
> {
    match (start, last, total) {
        (None, _, _) => Err(NetworkError::InvalidResponse("Content-Range start is invalid")),
        (_, None, _) => Err(NetworkError::InvalidResponse("Content-Range end is invalid")),
        (_, _, None) => Err(
            NetworkError::InvalidResponse("Content-Range total length is invalid"),
        ),
        (Some(start), Some(last), Some(total)) => if last == u64::MAX {
            Err(NetworkError::InvalidResponse("Content-Range end overflows"))
        } else if start > last || last >= total {
            Err(NetworkError::InvalidResponse("Content-Range bounds are inconsistent"))
        } else {
            Ok(ParsedContentRange { start, end: (last + 1) as u64, total })
        },
    }
}

/// The range that a Content-Range header says.
pub open spec fn content_range(text: Seq<char>) -> Result<ParsedContentRange> {
    let rest = text.skip(6);
    let slash = place_of(rest, '/', 0);
    let range = rest.take(slash);
    let dash = place_of(range, '-', 0);
    if text.len() < 6 || text.take(6) != "bytes "@ {
        Err(NetworkError::InvalidResponse("Content-Range unit is not bytes"))
    } else if slash >= rest.len() {
        Err(NetworkError::InvalidResponse("Content-Range is malformed"))
    } else if dash >= range.len() {
        Err(NetworkError::InvalidResponse("Content-Range byte range is malformed"))
    } else {
        bounds_of(
            number_of(range.take(dash)),
            number_of(range.skip(dash + 1)),
            number_of(rest.skip(slash + 1)),
        )
    }
}

/// The place of a character in a part of a text, or the end of the part.
fn find_char(text: &Vec<char>, wanted: char, start: usize, end: usize) -> (place: usize)
    requires
        start <= end <= text@.len(),
    ensures
        start <= place <= end,
        place - start == place_of(text@.subrange(start as int, end as int), wanted, 0),
{
    let ghost part = text@.subrange(start as int, end as int);
    let mut place: usize = start;
    while place < end
        invariant
            start <= place <= end <= text@.len(),
            part == text@.subrange(start as int, end as int),
            place_of(part, wanted, 0) == place_of(part, wanted, place - start),
        decreases end - place,
    {
        assert(part[place - start] == text@[place as int]);
        if text[place] == wanted {
            return place;
        }
        place = place + 1;
    }
    place
}

/// The number that a part of a text spells out.
fn parse_number(text: &Vec<char>, start: usize, end: usize) -> (number: Option<u64>)
    requires
        start <= end <= text@.len(),
    ensures
        number == number_of(text@.subrange(start as int, end as int)),
{
    let ghost part = text@.subrange(start as int, end as int);
    let first: usize = if start < end && text[start] == '+' {
        start + 1
    } else {
        start
    };
    let ghost digits = unsigned_part(part);
    assert(digits =~= text@.subrange(first as int, end as int));
    if first == end {
        return None;
    }
    let mut value: u128 = 0;
    let mut index: usize = first;
    let mut full: bool = false;
    while index < end
        invariant
            first <= index <= end <= text@.len(),
            digits == text@.subrange(first as int, end as int),
            part == text@.subrange(start as int, end as int),
            digits == unsigned_part(part),
            forall|i: int| 0 <= i < index - first ==> is_digit(#[trigger] digits[i]),
            full ==> digits_value(digits.take(index - first)) > u64::MAX,
            !full ==> value == digits_value(digits.take(index - first)) && value <= u64::MAX,
        decreases end - index,
    {
        let c: char = text[index];
        assert(digits[index - first] == c);
        if !('0' <= c && c <= '9') {
            return None;
        }
        assert(digits.take(index + 1 - first).drop_last() =~= digits.take(index - first));
        let ones: u128 = (c as u32 - 48) as u128;
        if !full {
            value = value * 10 + ones;
            if value > u64::MAX as u128 {
                full = true;
            }
        }
        index = index + 1;
    }
    assert(digits.take(index - first) =~= digits);
    if full {
        None
    } else {
        Some(value as u64)
    }
}

/// Reads what a Content-Range header says.
pub fn parse_content_range(value: &str) -> (result: Result<ParsedContentRange>)
    ensures
        result == content_range(value@),
{
    let text = chars_of(value);
    proof {
        reveal_strlit("bytes ");
    }
    if text.len() < 6 || text[0] != 'b' || text[1] != 'y' || text[2] != 't' || text[3] != 'e'
        || text[4] != 's' || text[5] != ' ' {
        proof {
            if text@.len() >= 6 {
                assert(text@.take(6)[0] == text@[0]);
                assert(text@.take(6)[1] == text@[1]);
                assert(text@.take(6)[2] == text@[2]);
                assert(text@.take(6)[3] == text@[3]);
                assert(text@.take(6)[4] == text@[4]);
                assert(text@.take(6)[5] == text@[5]);
            }
        }
        return Err(NetworkError::InvalidResponse("Content-Range unit is not bytes"));
    }
    assert(text@.take(6) =~= "bytes "@);
    let length: usize = text.len();
    let slash: usize = find_char(&text, '/', 6, length);
    let ghost rest = text@.skip(6);
    assert(rest =~= text@.subrange(6, length as int));
    if slash == length {
        return Err(NetworkError::InvalidResponse("Content-Range is malformed"));
    }
    let dash: usize = find_char(&text, '-', 6, slash);
    let ghost range = rest.take(slash - 6);
    assert(range =~= text@.subrange(6, slash as int));
    if dash == slash {
        return Err(NetworkError::InvalidResponse("Content-Range byte range is malformed"));
    }
    proof {
        assert(range.take(dash - 6) =~= text@.subrange(6, dash as int));
        assert(range.skip(dash - 6 + 1) =~= text@.subrange(dash + 1, slash as int));
        assert(rest.skip(slash - 6 + 1) =~= text@.subrange(slash + 1, length as int));
    }
    let start: u64 = match parse_number(&text, 6, dash) {
        Some(start) => start,
        None => return Err(NetworkError::InvalidResponse("Content-Range start is invalid")),
    };
    let last: u64 = match parse_number(&text, dash + 1, slash) {
        Some(last) => last,
        None => return Err(NetworkError::InvalidResponse("Content-Range end is invalid")),
    };
    let total: u64 = match parse_number(&text, slash + 1, length) {
        Some(total) => total,
        None => return Err(
            NetworkError::InvalidResponse("Content-Range total length is invalid"),
        ),
    };
    if last == u64::MAX {
        return Err(NetworkError::InvalidResponse("Content-Range end overflows"));
    }
    if start > last || last >= total {
        return Err(NetworkError::InvalidResponse("Content-Range bounds are inconsistent"));
    }
    Ok(ParsedContentRange { start, end: last + 1, total })
}

/// A number in decimal is made of digits and spells itself out.
pub proof fn lemma_decimal_digits(value: nat)
    ensures
        decimal(value).len() > 0,
        digits_value(decimal(value)) == value,
        forall|i: int| 0 <= i < decimal(value).len() ==> is_digit(#[trigger] decimal(value)[i]),
    decreases value,
{
    reveal_with_fuel(digits_value, 2);
    if value < 10 {
        let text = decimal(value);
        assert(text.drop_last() =~= Seq::<char>::empty());
        assert(text.last() == digit(value as int));
    } else {
        lemma_decimal_digits(value / 10);
        let text = decimal(value);
        assert(text.drop_last() =~= decimal(value / 10));
        assert(text.last() == digit((value % 10) as int));
        assert forall|i: int| 0 <= i < text.len() implies is_digit(#[trigger] text[i]) by {
            if i < text.len() - 1 {
                assert(text[i] == decimal(value / 10)[i]);
            }
        }
    }
}

/// A number in decimal is read back.
proof fn lemma_number_of_decimal(value: u64)
    ensures
        number_of(decimal(value as nat)) == Some(value),
{
    lemma_decimal_digits(value as nat);
    assert(unsigned_part(decimal(value as nat)) == decimal(value as nat));
}

/// A character that a text begins without stands where it first comes.
proof fn lemma_place_of(text: Seq<char>, wanted: char, from: int, place: int)
    requires
        0 <= from <= place < text.len(),
        text[place] == wanted,
        forall|i: int| from <= i < place ==> #[trigger] text[i] != wanted,
    ensures
        place_of(text, wanted, from) == place,
    decreases place - from,
{
    if from < place {
        lemma_place_of(text, wanted, from + 1, place);
    }
}

/// What a server that returns a range of an object says of it.
pub open spec fn written_range(start: u64, end: u64, total: u64) -> Seq<char> {
    "bytes "@ + decimal(start as nat) + seq!['-'] + decimal((end - 1) as nat) + seq!['/']
        + decimal(total as nat)
}

/// What a server says of a range is read back as that range.
pub proof fn law_written_range_is_read_back(start: u64, end: u64, total: u64)
    requires
        start < end <= total,
    ensures
        content_range(written_range(start, end, total)) == Ok::<ParsedContentRange, NetworkError>(
            ParsedContentRange { start, end, total },
        ),
{
    reveal_strlit("bytes ");
    let text = written_range(start, end, total);
    let first = decimal(start as nat);
    let last = decimal((end - 1) as nat);
    let size = decimal(total as nat);
    lemma_decimal_digits(start as nat);
    lemma_decimal_digits((end - 1) as nat);
    lemma_decimal_digits(total as nat);
    lemma_number_of_decimal(start);
    lemma_number_of_decimal((end - 1) as u64);
    lemma_number_of_decimal(total);
    let rest = text.skip(6);
    let range = first + seq!['-'] + last;
    assert(text.take(6) =~= "bytes "@);
    assert(rest =~= range + seq!['/'] + size);
    let slash = range.len() as int;
    assert forall|i: int| 0 <= i < slash implies #[trigger] rest[i] != '/' by {
        if i < first.len() {
            assert(rest[i] == first[i]);
        } else if i > first.len() {
            assert(rest[i] == last[i - first.len() - 1]);
        }
    }
    lemma_place_of(rest, '/', 0, slash);
    assert(rest.take(slash) =~= range);
    let dash = first.len() as int;
    assert forall|i: int| 0 <= i < dash implies #[trigger] range[i] != '-' by {
        assert(range[i] == first[i]);
    }
    lemma_place_of(range, '-', 0, dash);
    assert(range.take(dash) =~= first);
    assert(range.skip(dash + 1) =~= last);
    assert(rest.skip(slash + 1) =~= size);
}

} // verus!
