//! Decoding raw field bytes into text and packed decimal digits.
//!
//! Text fields hold one character per byte, padded with white space to their
//! fixed width. Packed decimal fields hold one decimal digit per four-bit
//! nibble, the more significant nibble first.

use vstd::prelude::*;
use crate::error::Error;

verus! {

/// `String::push` of the standard library: the character is appended to the
/// end of the string, and nothing else of the string changes.
pub assume_specification[ String::push ](s: &mut String, ch: char)
    ensures
        final(s)@ == old(s)@.push(ch),
;

/// The character that stands for the decimal digit `d`.
pub open spec fn digit_char(d: u8) -> char {
    (0x30 + d) as char
}

/// The more significant nibble of `b`.
pub open spec fn high_nibble(b: u8) -> u8 {
    b / 16
}

/// The less significant nibble of `b`.
pub open spec fn low_nibble(b: u8) -> u8 {
    b % 16
}

/// Both nibbles of `b` are decimal digits.
pub open spec fn is_bcd_byte(b: u8) -> bool {
    high_nibble(b) <= 9 && low_nibble(b) <= 9
}

/// Every nibble of `data` is a decimal digit.
pub open spec fn is_bcd(data: Seq<u8>) -> bool {
    forall|i: int| 0 <= i < data.len() ==> is_bcd_byte(#[trigger] data[i])
}

/// The nibble of `data` at position `k`, counting nibbles from the front and
/// the more significant nibble of each byte first.
pub open spec fn nibble_at(data: Seq<u8>, k: int) -> u8 {
    if k % 2 == 0 {
        high_nibble(data[k / 2])
    } else {
        low_nibble(data[k / 2])
    }
}

/// The digit string that `data` packs: one digit per nibble, in order.
pub open spec fn bcd_digits(data: Seq<u8>) -> Seq<char> {
    Seq::new(2 * data.len(), |k: int| digit_char(nibble_at(data, k)))
}

/// What decoding `data` as packed decimal digits gives.
pub open spec fn bcd_outcome(data: Seq<u8>) -> Result<Seq<char>, Error> {
    if is_bcd(data) {
        Ok(bcd_digits(data))
    } else {
        Err(Error::InvalidBcdDigit)
    }
}

/// The digit string of packed decimal digits holds two decimal digits for
/// each byte, and nothing but decimal digits.
pub proof fn lemma_bcd_digits_are_decimal(data: Seq<u8>)
    requires
        is_bcd(data),
    ensures
        bcd_digits(data).len() == 2 * data.len(),
        forall|k: int|
            0 <= k < bcd_digits(data).len() ==> '0' <= #[trigger] bcd_digits(data)[k] <= '9',
{
    assert forall|k: int| 0 <= k < bcd_digits(data).len() implies '0' <= #[trigger] bcd_digits(
        data,
    )[k] <= '9' by {
        assert(is_bcd_byte(data[k / 2]));
    }
}

/// The byte is a character of the text encoding: the 7-bit codes.
pub open spec fn is_text_byte(b: u8) -> bool {
    b < 0x80
}

/// Every byte of `data` is a character of the text encoding.
pub open spec fn is_text(data: Seq<u8>) -> bool {
    forall|i: int| 0 <= i < data.len() ==> is_text_byte(#[trigger] data[i])
}

/// The byte is padding white space: a space, or one of the control
/// characters from horizontal tab to carriage return.
pub open spec fn is_padding(b: u8) -> bool {
    b == 0x20 || (0x09 <= b && b <= 0x0D)
}

/// `data` without its leading padding.
pub open spec fn trim_start(data: Seq<u8>) -> Seq<u8>
    decreases data.len(),
{
    if data.len() > 0 && is_padding(data.first()) {
        trim_start(data.drop_first())
    } else {
        data
    }
}

/// `data` without its trailing padding.
pub open spec fn trim_end(data: Seq<u8>) -> Seq<u8>
    decreases data.len(),
{
    if data.len() > 0 && is_padding(data.last()) {
        trim_end(data.drop_last())
    } else {
        data
    }
}

/// `data` without its leading and trailing padding.
pub open spec fn trimmed(data: Seq<u8>) -> Seq<u8> {
    trim_end(trim_start(data))
}

/// Every byte of `data` is padding white space.
pub open spec fn all_padding(data: Seq<u8>) -> bool {
    forall|i: int| 0 <= i < data.len() ==> is_padding(#[trigger] data[i])
}

/// `data` is empty, or neither begins nor ends with padding.
pub open spec fn is_unpadded(data: Seq<u8>) -> bool {
    data.len() > 0 ==> !is_padding(data.first()) && !is_padding(data.last())
}

proof fn lemma_trim_start_skips(pad: Seq<u8>, rest: Seq<u8>)
    requires
        all_padding(pad),
    ensures
        trim_start(pad + rest) == trim_start(rest),
    decreases pad.len(),
{
    if pad.len() == 0 {
        assert(pad + rest =~= rest);
    } else {
        assert(is_padding(pad[0]));
        assert((pad + rest).drop_first() =~= pad.drop_first() + rest);
        assert forall|i: int| 0 <= i < pad.drop_first().len() implies is_padding(
            #[trigger] pad.drop_first()[i],
        ) by {
            assert(pad.drop_first()[i] == pad[i + 1]);
        }
        lemma_trim_start_skips(pad.drop_first(), rest);
    }
}

proof fn lemma_trim_end_skips(rest: Seq<u8>, pad: Seq<u8>)
    requires
        all_padding(pad),
    ensures
        trim_end(rest + pad) == trim_end(rest),
    decreases pad.len(),
{
    if pad.len() == 0 {
        assert(rest + pad =~= rest);
    } else {
        assert(is_padding(pad[pad.len() - 1]));
        assert((rest + pad).drop_last() =~= rest + pad.drop_last());
        assert forall|i: int| 0 <= i < pad.drop_last().len() implies is_padding(
            #[trigger] pad.drop_last()[i],
        ) by {
            assert(pad.drop_last()[i] == pad[i]);
        }
        lemma_trim_end_skips(rest, pad.drop_last());
    }
}

/// Trimming removes exactly the padding around a field's content: whatever
/// padding stands before and after an unpadded `body`, trimming gives `body`
/// back.
pub proof fn lemma_trimmed_strips_padding(lead: Seq<u8>, body: Seq<u8>, trail: Seq<u8>)
    requires
        all_padding(lead),
        all_padding(trail),
        is_unpadded(body),
    ensures
        trimmed(lead + body + trail) == body,
{
    assert(lead + body + trail =~= lead + (body + trail));
    lemma_trim_start_skips(lead, body + trail);
    if body.len() == 0 {
        assert(body + trail =~= trail + body);
        lemma_trim_start_skips(trail, body);
    } else {
        assert((body + trail).first() == body.first());
        lemma_trim_end_skips(body, trail);
    }
}

/// What trimming leaves neither begins nor ends with padding, and what it
/// removes from the field, before and after, is padding and nothing else.
pub proof fn lemma_trimmed_is_unpadded(data: Seq<u8>)
    ensures
        is_unpadded(trimmed(data)),
        exists|lead: Seq<u8>, trail: Seq<u8>|
            all_padding(lead) && all_padding(trail) && data == lead + trimmed(data) + trail,
{
    lemma_trim_start_splits(data);
    lemma_trim_end_splits(trim_start(data));
    let lead = choose|lead: Seq<u8>| all_padding(lead) && data == lead + trim_start(data);
    let trail = choose|trail: Seq<u8>|
        all_padding(trail) && trim_start(data) == trim_end(trim_start(data)) + trail;
    assert(data == lead + trimmed(data) + trail) by {
        assert(lead + (trimmed(data) + trail) =~= lead + trimmed(data) + trail);
    }
    if trimmed(data).len() > 0 {
        assert(trim_start(data).len() > 0);
        assert(trimmed(data).first() == trim_start(data).first());
    }
}

proof fn lemma_trim_start_splits(data: Seq<u8>)
    ensures
        exists|lead: Seq<u8>| all_padding(lead) && data == lead + trim_start(data),
        trim_start(data).len() > 0 ==> !is_padding(trim_start(data).first()),
    decreases data.len(),
{
    if data.len() > 0 && is_padding(data.first()) {
        lemma_trim_start_splits(data.drop_first());
        let inner = choose|lead: Seq<u8>|
            all_padding(lead) && data.drop_first() == lead + trim_start(data.drop_first());
        let lead = seq![data.first()] + inner;
        assert(data =~= seq![data.first()] + data.drop_first());
        assert(lead + trim_start(data) =~= seq![data.first()] + (inner + trim_start(data)));
        assert(data =~= lead + trim_start(data));
        assert(all_padding(lead));
    } else {
        let lead = Seq::<u8>::empty();
        assert(data =~= lead + trim_start(data));
        assert(all_padding(lead));
    }
}

proof fn lemma_trim_end_splits(data: Seq<u8>)
    ensures
        exists|trail: Seq<u8>| all_padding(trail) && data == trim_end(data) + trail,
        trim_end(data).len() > 0 ==> !is_padding(trim_end(data).last()),
        trim_end(data).len() > 0 ==> trim_end(data).first() == data.first(),
    decreases data.len(),
{
    if data.len() > 0 && is_padding(data.last()) {
        lemma_trim_end_splits(data.drop_last());
        let inner = choose|trail: Seq<u8>|
            all_padding(trail) && data.drop_last() == trim_end(data.drop_last()) + trail;
        let trail = inner + seq![data.last()];
        assert(data =~= data.drop_last() + seq![data.last()]);
        assert(trim_end(data) + trail =~= (trim_end(data) + inner) + seq![data.last()]);
        assert(data =~= trim_end(data) + trail);
        assert(all_padding(trail));
    } else {
        let trail = Seq::<u8>::empty();
        assert(data =~= trim_end(data) + trail);
        assert(all_padding(trail));
    }
}

/// The characters that the bytes of `data` stand for, one per byte.
pub open spec fn text_chars(data: Seq<u8>) -> Seq<char> {
    Seq::new(data.len(), |i: int| data[i] as char)
}

/// What decoding `data` as a fixed-width text field gives.
pub open spec fn text_outcome(data: Seq<u8>) -> Result<Seq<char>, Error> {
    if is_text(data) {
        Ok(text_chars(trimmed(data)))
    } else {
        Err(Error::InvalidEncoding)
    }
}

/// A decoded string, or the failure, as a value of the model.
pub open spec fn string_outcome(result: Result<String, Error>) -> Result<Seq<char>, Error> {
    match result {
        Ok(s) => Ok(s@),
        Err(e) => Err(e),
    }
}

/// Whether the byte is padding white space.
pub fn padding_byte(b: u8) -> (padding: bool)
    ensures
        padding == is_padding(b),
{
    b == 0x20 || (0x09 <= b && b <= 0x0D)
}

/// The string of the characters that the bytes of `data` stand for.
fn string_of_text(data: &[u8]) -> (text: String)
    requires
        is_text(data@),
    ensures
        text@ == text_chars(data@),
{
    let mut text = String::new();
    let mut i: usize = 0;
    while i < data.len()
        invariant
            i <= data@.len(),
            is_text(data@),
            text@ == text_chars(data@.take(i as int)),
        decreases data@.len() - i,
    {
        let b: u8 = data[i];
        assert(is_text_byte(data@[i as int]));
        text.push(b as char);
        assert(text@ =~= text_chars(data@.take(i + 1)));
        i += 1;
    }
    assert(data@.take(i as int) =~= data@);
    text
}

/// Decodes a fixed-width text field: one character per byte, with the
/// padding white space at both ends removed.
///
/// Fails with `InvalidEncoding` exactly when some byte of the field, padding
/// included, is not a character of the encoding.
pub fn decode_text(data: &[u8]) -> (result: Result<String, Error>)
    ensures
        string_outcome(result) == text_outcome(data@),
{
    let mut i: usize = 0;
    while i < data.len()
        invariant
            i <= data@.len(),
            forall|j: int| 0 <= j < i ==> is_text_byte(#[trigger] data@[j]),
        decreases data@.len() - i,
    {
        if data[i] >= 0x80 {
            assert(!is_text_byte(data@[i as int]));
            return Err(Error::InvalidEncoding);
        }
        i += 1;
    }
    let mut start: usize = 0;
    assert(data@.skip(0) =~= data@);
    while start < data.len() && padding_byte(data[start])
        invariant
            start <= data@.len(),
            trim_start(data@) == trim_start(data@.skip(start as int)),
        decreases data@.len() - start,
    {
        assert(data@.skip(start as int).drop_first() =~= data@.skip(start + 1));
        start += 1;
    }
    let mut end: usize = data.len();
    assert(data@.subrange(start as int, end as int) =~= data@.skip(start as int));
    while start < end && padding_byte(data[end - 1])
        invariant
            start <= end <= data@.len(),
            trim_start(data@) == data@.skip(start as int),
            trimmed(data@) == trim_end(data@.subrange(start as int, end as int)),
        decreases end - start,
    {
        assert(data@.subrange(start as int, end as int).drop_last() =~= data@.subrange(
            start as int,
            end - 1,
        ));
        end -= 1;
    }
    let kept = vstd::slice::slice_subrange(data, start, end);
    Ok(string_of_text(kept))
}

/// Decodes packed decimal digits: each nibble of `data` gives one digit, the
/// more significant nibble of each byte first.
///
/// Fails with `InvalidBcdDigit` exactly when some nibble is greater than nine.
pub fn bcdstring_from_byte_string(data: &[u8]) -> (result: Result<String, Error>)
    ensures
        string_outcome(result) == bcd_outcome(data@),
{
    let mut digits = String::new();
    let mut i: usize = 0;
    while i < data.len()
        invariant
            i <= data@.len(),
            is_bcd(data@.take(i as int)),
            digits@ == bcd_digits(data@.take(i as int)),
        decreases data@.len() - i,
    {
        let b: u8 = data[i];
        let high: u8 = b / 16;
        let low: u8 = b % 16;
        if high > 9 || low > 9 {
            assert(!is_bcd_byte(data@[i as int]));
            return Err(Error::InvalidBcdDigit);
        }
        digits.push((0x30u8 + high) as char);
        digits.push((0x30u8 + low) as char);
        assert(is_bcd(data@.take(i + 1))) by {
            assert forall|j: int| 0 <= j < i + 1 implies is_bcd_byte(
                #[trigger] data@.take(i + 1)[j],
            ) by {
                if j < i {
                    assert(data@.take(i + 1)[j] == data@.take(i as int)[j]);
                }
            }
        }
        assert(digits@ =~= bcd_digits(data@.take(i + 1)));
        i += 1;
    }
    assert(data@.take(i as int) =~= data@);
    Ok(digits)
}

} // verus!
