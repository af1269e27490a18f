//! The textual frame of a wire line: fields separated by `;`, small decimal
//! numbers, and the step between a `String` and its bytes.
//!
//! A line is modelled by the bytes of its UTF-8 encoding. The separator and
//! the digits are ASCII, and no byte of a longer UTF-8 sequence is ASCII, so
//! separating bytes separates characters.

use vstd::prelude::*;
use vstd::slice::slice_subrange;

verus! {

/// The byte that separates the fields of a line: `;`.
pub const SEPARATOR: u8 = 0x3b;

/// The bytes of a line.
pub open spec fn line_bytes(line: Seq<char>) -> Seq<u8> {
    vstd::utf8::encode_utf8(line)
}

/// Whether every byte is ASCII.
pub open spec fn is_ascii_bytes(bytes: Seq<u8>) -> bool {
    forall|i: int| 0 <= i < bytes.len() ==> #[trigger] bytes[i] < 0x80
}

/// `String::from_utf8` on bytes that are all ASCII.
///
/// Trusted: ASCII is valid UTF-8, so the call succeeds, and the string it
/// returns holds exactly the bytes it was given.
#[verifier::external_body]
pub(crate) fn string_from_ascii(bytes: Vec<u8>) -> (line: String)
    requires
        is_ascii_bytes(bytes@),
    ensures
        line_bytes(line@) == bytes@,
{
    match String::from_utf8(bytes) {
        Ok(line) => line,
        Err(_) => String::new(),
    }
}

/// The positions of the separators in a line, in rising order.
pub open spec fn separator_positions(line: Seq<u8>) -> Seq<int>
    decreases line.len(),
{
    if line.len() == 0 {
        Seq::empty()
    } else {
        let before = separator_positions(line.drop_last());
        if line.last() == SEPARATOR {
            before.push(line.len() - 1)
        } else {
            before
        }
    }
}

/// The number of fields of a line: one more than it has separators.
pub open spec fn field_count(line: Seq<u8>) -> nat {
    separator_positions(line).len() + 1
}

/// Where field `k` begins.
pub open spec fn field_start(line: Seq<u8>, k: int) -> int {
    if k == 0 {
        0
    } else {
        separator_positions(line)[k - 1] + 1
    }
}

/// Where field `k` ends: at the next separator, or at the end of the line.
pub open spec fn field_end(line: Seq<u8>, k: int) -> int {
    if k < separator_positions(line).len() {
        separator_positions(line)[k]
    } else {
        line.len() as int
    }
}

/// Field `k` of a line, for `0 <= k < field_count(line)`.
pub open spec fn field(line: Seq<u8>, k: int) -> Seq<u8> {
    line.subrange(field_start(line, k), field_end(line, k))
}

/// The separators are positions of the line, strictly rising, and each holds a
/// separator.
pub proof fn lemma_separator_positions(line: Seq<u8>)
    ensures
        separator_positions(line).len() <= line.len(),
        forall|k: int|
            0 <= k < separator_positions(line).len() ==> {
                &&& 0 <= (#[trigger] separator_positions(line)[k]) < line.len()
                &&& line[separator_positions(line)[k]] == SEPARATOR
            },
        forall|j: int, k: int|
            0 <= j < k < separator_positions(line).len() ==> (#[trigger] separator_positions(
                line,
            )[j]) < #[trigger] separator_positions(line)[k],
    decreases line.len(),
{
    if line.len() > 0 {
        lemma_separator_positions(line.drop_last());
    }
}

/// Whether a text holds no separator.
pub open spec fn is_plain(text: Seq<u8>) -> bool {
    forall|i: int| 0 <= i < text.len() ==> #[trigger] text[i] != SEPARATOR
}

/// A line that continues with a plain text has the same separators.
pub proof fn lemma_separators_append_plain(line: Seq<u8>, tail: Seq<u8>)
    requires
        is_plain(tail),
    ensures
        separator_positions(line + tail) == separator_positions(line),
    decreases tail.len(),
{
    if tail.len() == 0 {
        assert(line + tail =~= line);
    } else {
        assert(is_plain(tail.drop_last())) by {
            assert forall|i: int| 0 <= i < tail.drop_last().len() implies #[trigger] tail.drop_last()[i]
                != SEPARATOR by {
                assert(tail.drop_last()[i] == tail[i]);
            }
        }
        lemma_separators_append_plain(line, tail.drop_last());
        assert((line + tail).drop_last() =~= line + tail.drop_last());
        assert(tail[tail.len() - 1] != SEPARATOR);
    }
}

/// A plain text is a line of one field: itself.
pub proof fn lemma_single_field(text: Seq<u8>)
    requires
        is_plain(text),
    ensures
        field_count(text) == 1,
        field(text, 0) == text,
{
    lemma_separators_append_plain(Seq::empty(), text);
    assert(Seq::<u8>::empty() + text =~= text);
    assert(field(text, 0) =~= text);
}

/// A line that continues with a separator and a plain text has one field
/// more, that text; the fields it had are as they were.
pub proof fn lemma_append_field(line: Seq<u8>, text: Seq<u8>)
    requires
        is_plain(text),
    ensures
        field_count(line.push(SEPARATOR) + text) == field_count(line) + 1,
        forall|k: int|
            0 <= k < field_count(line) ==> #[trigger] field(line.push(SEPARATOR) + text, k)
                == field(line, k),
        field(line.push(SEPARATOR) + text, field_count(line) as int) == text,
{
    let longer = line.push(SEPARATOR) + text;
    let old_positions = separator_positions(line);
    lemma_separator_positions(line);
    assert(line.push(SEPARATOR).drop_last() =~= line);
    lemma_separators_append_plain(line.push(SEPARATOR), text);
    assert(separator_positions(longer) == old_positions.push(line.len() as int));
    assert forall|k: int| 0 <= k < field_count(line) implies #[trigger] field(longer, k) == field(
        line,
        k,
    ) by {
        assert(field_start(longer, k) == field_start(line, k));
        assert(field_end(longer, k) == field_end(line, k));
        assert(field(longer, k) =~= field(line, k));
    }
    assert(field(longer, field_count(line) as int) =~= text);
}

/// The positions that a vector of indices holds.
pub open spec fn positions_of(indices: Seq<usize>) -> Seq<int> {
    indices.map_values(|p: usize| p as int)
}

/// Finds the separators of a line.
pub fn find_separators(line: &[u8]) -> (positions: Vec<usize>)
    ensures
        positions_of(positions@) == separator_positions(line@),
{
    let mut positions: Vec<usize> = Vec::new();
    let mut i: usize = 0;
    assert(line@.take(0) =~= Seq::<u8>::empty());
    while i < line.len()
        invariant
            i <= line.len(),
            positions_of(positions@) == separator_positions(line@.take(i as int)),
        decreases line.len() - i,
    {
        assert(line@.take(i + 1).drop_last() =~= line@.take(i as int));
        if line[i] == SEPARATOR {
            let ghost before = positions@;
            positions.push(i);
            assert(positions_of(positions@) =~= positions_of(before).push(i as int));
        }
        i += 1;
    }
    assert(line@.take(i as int) =~= line@);
    positions
}

/// Field `k` of a line whose separators are known.
pub fn field_slice<'a>(line: &'a [u8], positions: &Vec<usize>, k: usize) -> (part: &'a [u8])
    requires
        positions_of(positions@) == separator_positions(line@),
        k < field_count(line@),
    ensures
        part@ == field(line@, k as int),
{
    proof {
        lemma_separator_positions(line@);
        assert(positions@.len() == separator_positions(line@).len());
        if k > 0 {
            assert(separator_positions(line@)[k - 1] == positions@[k - 1]);
            assert(positions@[k - 1] < line@.len());
        }
        if k < positions@.len() {
            assert(separator_positions(line@)[k as int] == positions@[k as int]);
        }
    }
    let len: usize = line.len();
    let start: usize = if k == 0 {
        0
    } else {
        positions[k - 1] + 1
    };
    let end: usize = if k < positions.len() {
        positions[k]
    } else {
        len
    };
    slice_subrange(line, start, end)
}

/// Whether a byte is a decimal digit.
pub open spec fn is_digit(c: u8) -> bool {
    0x30 <= c <= 0x39
}

/// Whether a text is made of decimal digits only.
pub open spec fn all_digits(text: Seq<u8>) -> bool {
    forall|i: int| 0 <= i < text.len() ==> is_digit(#[trigger] text[i])
}

/// The number that a text of decimal digits writes, first digit highest.
pub open spec fn decimal_value(digits: Seq<u8>) -> nat
    decreases digits.len(),
{
    if digits.len() == 0 {
        0
    } else {
        10 * decimal_value(digits.drop_last()) + (digits.last() - 0x30) as nat
    }
}

/// The digits of a number text: the text without a leading `+`.
pub open spec fn unsigned_digits(text: Seq<u8>) -> Seq<u8> {
    if text.len() > 0 && text[0] == 0x2b {
        text.drop_first()
    } else {
        text
    }
}

/// The unsigned 8-bit number that a text writes: an optional `+`, then one or
/// more decimal digits whose value is at most 255. Anything else, the empty
/// text and a lone `+` included, writes no number.
pub open spec fn parse_u8(text: Seq<u8>) -> Option<u8> {
    let digits = unsigned_digits(text);
    if digits.len() > 0 && all_digits(digits) && decimal_value(digits) <= 255 {
        Some(decimal_value(digits) as u8)
    } else {
        None
    }
}

/// The decimal text of an unsigned 8-bit number, without leading zeros.
pub open spec fn decimal_text(n: u8) -> Seq<u8> {
    if n < 10 {
        seq![(0x30 + n) as u8]
    } else if n < 100 {
        seq![(0x30 + n / 10) as u8, (0x30 + n % 10) as u8]
    } else {
        seq![(0x30 + n / 100) as u8, (0x30 + (n / 10) % 10) as u8, (0x30 + n % 10) as u8]
    }
}

/// A longer text of digits writes no smaller a number than its beginning.
pub proof fn lemma_decimal_value_grows(digits: Seq<u8>, n: int)
    requires
        0 <= n <= digits.len(),
        all_digits(digits),
    ensures
        decimal_value(digits.take(n)) <= decimal_value(digits),
    decreases digits.len() - n,
{
    if n < digits.len() {
        lemma_decimal_value_grows(digits, n + 1);
        assert(digits.take(n + 1).drop_last() =~= digits.take(n));
        assert(is_digit(digits[n]));
    } else {
        assert(digits.take(n) =~= digits);
    }
}

/// Reading the text of a number gives the number back; the text is ASCII and
/// holds no separator.
pub proof fn lemma_decimal_round_trip(n: u8)
    ensures
        parse_u8(decimal_text(n)) == Some(n),
        is_ascii_bytes(decimal_text(n)),
        is_plain(decimal_text(n)),
        1 <= decimal_text(n).len() <= 3,
{
    let text = decimal_text(n);
    assert(unsigned_digits(text) == text);
    reveal_with_fuel(decimal_value, 4);
    if n < 10 {
        assert(text.drop_last() =~= Seq::<u8>::empty());
    } else if n < 100 {
        assert(text.drop_last() =~= seq![(0x30 + n / 10) as u8]);
        assert(text.drop_last().drop_last() =~= Seq::<u8>::empty());
    } else {
        assert(text.drop_last() =~= seq![(0x30 + n / 100) as u8, (0x30 + (n / 10) % 10) as u8]);
        assert(text.drop_last().drop_last() =~= seq![(0x30 + n / 100) as u8]);
        assert(text.drop_last().drop_last().drop_last() =~= Seq::<u8>::empty());
    }
}

/// Reads an unsigned 8-bit number from its text.
pub fn read_u8(text: &[u8]) -> (number: Option<u8>)
    ensures
        number == parse_u8(text@),
{
    let len: usize = text.len();
    let first: usize = if len > 0 && text[0] == 0x2b {
        1
    } else {
        0
    };
    let ghost digits = unsigned_digits(text@);
    assert(digits =~= text@.skip(first as int));
    if first == len {
        return None;
    }
    let mut value: u16 = 0;
    let mut i: usize = first;
    assert(digits.take(0) =~= Seq::<u8>::empty());
    while i < len
        invariant
            first <= i <= len,
            len == text@.len(),
            digits == text@.skip(first as int),
            digits == unsigned_digits(text@),
            all_digits(digits.take(i - first)),
            value == decimal_value(digits.take(i - first)),
            value <= 255,
        decreases len - i,
    {
        let c: u8 = text[i];
        assert(digits[i - first] == c);
        assert(digits.take(i - first + 1).drop_last() =~= digits.take(i - first));
        if c < 0x30 || c > 0x39 {
            assert(!is_digit(digits[i - first]));
            return None;
        }
        assert(all_digits(digits.take(i - first + 1))) by {
            assert forall|j: int| 0 <= j < i - first + 1 implies is_digit(
                #[trigger] digits.take(i - first + 1)[j],
            ) by {
                if j < i - first {
                    assert(digits.take(i - first + 1)[j] == digits.take(i - first)[j]);
                }
            }
        }
        let next: u16 = value * 10 + (c - 0x30) as u16;
        if next > 255 {
            proof {
                if all_digits(digits) {
                    lemma_decimal_value_grows(digits, i - first + 1);
                }
            }
            return None;
        }
        value = next;
        i += 1;
    }
    assert(digits.take(i - first) =~= digits);
    Some(value as u8)
}

/// Writes an unsigned 8-bit number in decimal at the end of a buffer.
pub fn write_u8(buffer: &mut Vec<u8>, n: u8)
    ensures
        final(buffer)@ == old(buffer)@ + decimal_text(n),
{
    if n >= 100 {
        buffer.push(0x30 + n / 100);
    }
    if n >= 10 {
        buffer.push(0x30 + (n / 10) % 10);
    }
    buffer.push(0x30 + n % 10);
    assert(buffer@ =~= old(buffer)@ + decimal_text(n));
}

} // verus!
