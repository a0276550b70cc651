//! The two identification records of a driver card, and their decoding from
//! the responses to the two binary reads.
//!
//! The card identification response holds one byte that is not used, then the
//! driver card number in bytes 1 to 16. The card holder identification
//! response holds the surname in bytes 0 to 35, the first names in bytes 36 to
//! 71, the birth date in bytes 72 to 75 and the preferred language in bytes 76
//! and 77.

use vstd::prelude::*;
use vstd::pervasive::unreached;
use crate::codec::{bcd_digits, is_bcd, is_bcd_byte, is_text, text_chars, trimmed};
use crate::error::Error;
use crate::layout::{
    decode_record, field_bytes, fields_outcome, layout_len, lemma_field_start, record_outcome,
    values_view, DecodeRule, FieldDescriptor, FieldModel, FieldValue, RecordLayout,
};

verus! {

/// The number of bytes of the card identification that are read.
pub const CARD_IDENTIFICATION_LENGTH: u8 = 0x41;

/// The offset at which the card holder identification is read.
pub const DRIVER_CARD_HOLDER_IDENTIFICATION_OFFSET: u8 = 0x41;

/// The number of bytes of the card holder identification that are read.
pub const DRIVER_CARD_HOLDER_IDENTIFICATION_LENGTH: u8 = 0x4E;

/// The identification of the card.
#[derive(Clone, Debug, PartialEq, Eq)]
pub struct CardIdentificationRecord {
    /// The number of the driver card.
    pub driver_card_number: String,
}

/// The identification of the card, as a value of the model.
pub struct CardIdentificationModel {
    pub driver_card_number: Seq<char>,
}

impl View for CardIdentificationRecord {
    type V = CardIdentificationModel;

    open spec fn view(&self) -> CardIdentificationModel {
        CardIdentificationModel { driver_card_number: self.driver_card_number@ }
    }
}

/// A date of birth, as the digit strings that the card packs.
#[derive(Clone, Debug, PartialEq, Eq)]
pub struct BirthDate {
    /// Four digits.
    pub year: String,
    /// Two digits.
    pub month: String,
    /// Two digits.
    pub day: String,
}

/// A date of birth, as a value of the model.
pub struct BirthDateModel {
    pub year: Seq<char>,
    pub month: Seq<char>,
    pub day: Seq<char>,
}

impl View for BirthDate {
    type V = BirthDateModel;

    open spec fn view(&self) -> BirthDateModel {
        BirthDateModel { year: self.year@, month: self.month@, day: self.day@ }
    }
}

/// The identification of the holder of the card.
#[derive(Clone, Debug, PartialEq, Eq)]
pub struct CardHolderIdentificationRecord {
    pub surname: String,
    pub first_names: String,
    pub birth_date: BirthDate,
    pub preferred_language: String,
}

/// The identification of the holder of the card, as a value of the model.
pub struct CardHolderIdentificationModel {
    pub surname: Seq<char>,
    pub first_names: Seq<char>,
    pub birth_date: BirthDateModel,
    pub preferred_language: Seq<char>,
}

impl View for CardHolderIdentificationRecord {
    type V = CardHolderIdentificationModel;

    open spec fn view(&self) -> CardHolderIdentificationModel {
        CardHolderIdentificationModel {
            surname: self.surname@,
            first_names: self.first_names@,
            birth_date: self.birth_date@,
            preferred_language: self.preferred_language@,
        }
    }
}

/// The fields of a birth date: two bytes of year, one of month, one of day.
pub open spec fn birth_date_fields() -> Seq<FieldDescriptor> {
    seq![
        FieldDescriptor { length: 2, rule: DecodeRule::Bcd },
        FieldDescriptor { length: 1, rule: DecodeRule::Bcd },
        FieldDescriptor { length: 1, rule: DecodeRule::Bcd },
    ]
}

/// The fields of the card identification response.
pub open spec fn card_identification_fields() -> Seq<FieldDescriptor> {
    seq![
        FieldDescriptor { length: 1, rule: DecodeRule::Raw },
        FieldDescriptor { length: 16, rule: DecodeRule::Text },
    ]
}

/// The fields of the card holder identification response.
pub open spec fn card_holder_identification_fields() -> Seq<FieldDescriptor> {
    seq![
        FieldDescriptor { length: 36, rule: DecodeRule::Text },
        FieldDescriptor { length: 36, rule: DecodeRule::Text },
        FieldDescriptor { length: 2, rule: DecodeRule::Bcd },
        FieldDescriptor { length: 1, rule: DecodeRule::Bcd },
        FieldDescriptor { length: 1, rule: DecodeRule::Bcd },
        FieldDescriptor { length: 2, rule: DecodeRule::Text },
    ]
}

/// What decoding the four bytes of a birth date gives.
pub open spec fn birth_date_outcome(bytes: Seq<u8>) -> Result<BirthDateModel, Error> {
    if bytes.len() < 4 {
        Err(Error::TruncatedData)
    } else if !is_bcd(bytes.subrange(0, 4)) {
        Err(Error::InvalidBcdDigit)
    } else {
        Ok(
            BirthDateModel {
                year: bcd_digits(bytes.subrange(0, 2)),
                month: bcd_digits(bytes.subrange(2, 3)),
                day: bcd_digits(bytes.subrange(3, 4)),
            },
        )
    }
}

/// What decoding a card identification response gives.
pub open spec fn card_identification_outcome(response: Seq<u8>) -> Result<
    CardIdentificationModel,
    Error,
> {
    if response.len() < 17 {
        Err(Error::TruncatedData)
    } else if !is_text(response.subrange(1, 17)) {
        Err(Error::InvalidEncoding)
    } else {
        Ok(
            CardIdentificationModel {
                driver_card_number: text_chars(trimmed(response.subrange(1, 17))),
            },
        )
    }
}

/// What decoding a card holder identification response gives. Of several
/// fields that do not decode, the first one decides the failure.
pub open spec fn card_holder_identification_outcome(response: Seq<u8>) -> Result<
    CardHolderIdentificationModel,
    Error,
> {
    if response.len() < 78 {
        Err(Error::TruncatedData)
    } else if !is_text(response.subrange(0, 36)) || !is_text(response.subrange(36, 72)) {
        Err(Error::InvalidEncoding)
    } else if !is_bcd(response.subrange(72, 76)) {
        Err(Error::InvalidBcdDigit)
    } else if !is_text(response.subrange(76, 78)) {
        Err(Error::InvalidEncoding)
    } else {
        Ok(
            CardHolderIdentificationModel {
                surname: text_chars(trimmed(response.subrange(0, 36))),
                first_names: text_chars(trimmed(response.subrange(36, 72))),
                birth_date: BirthDateModel {
                    year: bcd_digits(response.subrange(72, 74)),
                    month: bcd_digits(response.subrange(74, 75)),
                    day: bcd_digits(response.subrange(75, 76)),
                },
                preferred_language: text_chars(trimmed(response.subrange(76, 78))),
            },
        )
    }
}

/// A decoded birth date, or the failure, as a value of the model.
pub open spec fn birth_date_view(result: Result<BirthDate, Error>) -> Result<
    BirthDateModel,
    Error,
> {
    match result {
        Ok(date) => Ok(date@),
        Err(e) => Err(e),
    }
}

/// A decoded card identification, or the failure, as a value of the model.
pub open spec fn card_identification_view(
    result: Result<CardIdentificationRecord, Error>,
) -> Result<CardIdentificationModel, Error> {
    match result {
        Ok(record) => Ok(record@),
        Err(e) => Err(e),
    }
}

/// A decoded card holder identification, or the failure, as a value of the
/// model.
pub open spec fn card_holder_identification_view(
    result: Result<CardHolderIdentificationRecord, Error>,
) -> Result<CardHolderIdentificationModel, Error> {
    match result {
        Ok(record) => Ok(record@),
        Err(e) => Err(e),
    }
}

/// A stretch of bytes packs decimal digits exactly when both of its parts do.
pub proof fn lemma_is_bcd_split(data: Seq<u8>, from: int, mid: int, to: int)
    requires
        0 <= from <= mid <= to <= data.len(),
    ensures
        is_bcd(data.subrange(from, to)) <==> is_bcd(data.subrange(from, mid)) && is_bcd(
            data.subrange(mid, to),
        ),
{
    let whole = data.subrange(from, to);
    let left = data.subrange(from, mid);
    let right = data.subrange(mid, to);
    if is_bcd(whole) {
        assert forall|i: int| 0 <= i < left.len() implies is_bcd_byte(
            #[trigger] left[i],
        ) by {
            assert(left[i] == whole[i]);
        }
        assert forall|i: int| 0 <= i < right.len() implies is_bcd_byte(
            #[trigger] right[i],
        ) by {
            assert(right[i] == whole[i + (mid - from)]);
        }
    }
    if is_bcd(left) && is_bcd(right) {
        assert forall|i: int| 0 <= i < whole.len() implies is_bcd_byte(
            #[trigger] whole[i],
        ) by {
            if i < mid - from {
                assert(whole[i] == left[i]);
            } else {
                assert(whole[i] == right[i - (mid - from)]);
            }
        }
    }
}

/// The layout of a birth date.
pub fn birth_date_layout() -> (layout: RecordLayout)
    ensures
        layout@ == birth_date_fields(),
{
    let mut fields: Vec<FieldDescriptor> = Vec::new();
    fields.push(FieldDescriptor { length: 2, rule: DecodeRule::Bcd });
    fields.push(FieldDescriptor { length: 1, rule: DecodeRule::Bcd });
    fields.push(FieldDescriptor { length: 1, rule: DecodeRule::Bcd });
    assert(fields@ =~= birth_date_fields());
    RecordLayout { fields }
}

/// The layout of the card identification response.
pub fn card_identification_layout() -> (layout: RecordLayout)
    ensures
        layout@ == card_identification_fields(),
{
    let mut fields: Vec<FieldDescriptor> = Vec::new();
    fields.push(FieldDescriptor { length: 1, rule: DecodeRule::Raw });
    fields.push(FieldDescriptor { length: 16, rule: DecodeRule::Text });
    assert(fields@ =~= card_identification_fields());
    RecordLayout { fields }
}

/// The layout of the card holder identification response.
pub fn card_holder_identification_layout() -> (layout: RecordLayout)
    ensures
        layout@ == card_holder_identification_fields(),
{
    let mut fields: Vec<FieldDescriptor> = Vec::new();
    fields.push(FieldDescriptor { length: 36, rule: DecodeRule::Text });
    fields.push(FieldDescriptor { length: 36, rule: DecodeRule::Text });
    fields.push(FieldDescriptor { length: 2, rule: DecodeRule::Bcd });
    fields.push(FieldDescriptor { length: 1, rule: DecodeRule::Bcd });
    fields.push(FieldDescriptor { length: 1, rule: DecodeRule::Bcd });
    fields.push(FieldDescriptor { length: 2, rule: DecodeRule::Text });
    assert(fields@ =~= card_holder_identification_fields());
    RecordLayout { fields }
}

/// The birth date layout covers four bytes: the year in the first two, then
/// the month, then the day.
pub proof fn lemma_birth_date_layout(data: Seq<u8>)
    ensures
        layout_len(birth_date_fields()) == 4,
        field_bytes(birth_date_fields(), data, 0) == data.subrange(0, 2),
        field_bytes(birth_date_fields(), data, 1) == data.subrange(2, 3),
        field_bytes(birth_date_fields(), data, 2) == data.subrange(3, 4),
{
    let fields = birth_date_fields();
    lemma_field_start(fields, 0);
    lemma_field_start(fields, 1);
    lemma_field_start(fields, 2);
}

/// The card identification layout covers 17 bytes: one byte that is not used,
/// then the driver card number in bytes 1 to 16.
pub proof fn lemma_card_identification_layout(data: Seq<u8>)
    ensures
        layout_len(card_identification_fields()) == 17,
        field_bytes(card_identification_fields(), data, 0) == data.subrange(0, 1),
        field_bytes(card_identification_fields(), data, 1) == data.subrange(1, 17),
{
    let fields = card_identification_fields();
    lemma_field_start(fields, 0);
    lemma_field_start(fields, 1);
}

/// The card holder identification layout covers 78 bytes: the surname in
/// bytes 0 to 35, the first names in bytes 36 to 71, the birth date in bytes
/// 72 to 75 and the preferred language in bytes 76 and 77.
pub proof fn lemma_card_holder_identification_layout(data: Seq<u8>)
    ensures
        layout_len(card_holder_identification_fields()) == 78,
        field_bytes(card_holder_identification_fields(), data, 0) == data.subrange(0, 36),
        field_bytes(card_holder_identification_fields(), data, 1) == data.subrange(36, 72),
        field_bytes(card_holder_identification_fields(), data, 2) == data.subrange(72, 74),
        field_bytes(card_holder_identification_fields(), data, 3) == data.subrange(74, 75),
        field_bytes(card_holder_identification_fields(), data, 4) == data.subrange(75, 76),
        field_bytes(card_holder_identification_fields(), data, 5) == data.subrange(76, 78),
{
    let fields = card_holder_identification_fields();
    lemma_field_start(fields, 0);
    lemma_field_start(fields, 1);
    lemma_field_start(fields, 2);
    lemma_field_start(fields, 3);
    lemma_field_start(fields, 4);
    lemma_field_start(fields, 5);
}

/// The birth date that the decoded fields of its layout make up.
pub open spec fn birth_date_of(values: Seq<FieldModel>) -> BirthDateModel {
    BirthDateModel {
        year: values[0]->Digits_0,
        month: values[1]->Digits_0,
        day: values[2]->Digits_0,
    }
}

/// The card identification that the decoded fields of its layout make up.
pub open spec fn card_identification_of(values: Seq<FieldModel>) -> CardIdentificationModel {
    CardIdentificationModel { driver_card_number: values[1]->Text_0 }
}

/// The card holder identification that the decoded fields of its layout make
/// up.
pub open spec fn card_holder_identification_of(
    values: Seq<FieldModel>,
) -> CardHolderIdentificationModel {
    CardHolderIdentificationModel {
        surname: values[0]->Text_0,
        first_names: values[1]->Text_0,
        birth_date: BirthDateModel {
            year: values[2]->Digits_0,
            month: values[3]->Digits_0,
            day: values[4]->Digits_0,
        },
        preferred_language: values[5]->Text_0,
    }
}

/// Decoding four bytes by the birth date layout gives the birth date, and
/// fails where and as the birth date does.
pub proof fn lemma_birth_date_by_layout(bytes: Seq<u8>)
    ensures
        match record_outcome(birth_date_fields(), bytes) {
            Ok(values) => {
                &&& values.len() == 3
                &&& values[0] is Digits
                &&& values[1] is Digits
                &&& values[2] is Digits
                &&& birth_date_outcome(bytes) == Ok::<BirthDateModel, Error>(
                    birth_date_of(values),
                )
            },
            Err(e) => birth_date_outcome(bytes) == Err::<BirthDateModel, Error>(e),
        },
{
    lemma_birth_date_layout(bytes);
    reveal_with_fuel(fields_outcome, 4);
    if bytes.len() >= 4 {
        lemma_is_bcd_split(bytes, 0, 2, 4);
        lemma_is_bcd_split(bytes, 2, 3, 4);
    }
}

/// Decoding a response by the card identification layout gives the card
/// identification, and fails where and as the card identification does.
pub proof fn lemma_card_identification_by_layout(response: Seq<u8>)
    ensures
        match record_outcome(card_identification_fields(), response) {
            Ok(values) => {
                &&& values.len() == 2
                &&& values[1] is Text
                &&& card_identification_outcome(response) == Ok::<CardIdentificationModel, Error>(
                    card_identification_of(values),
                )
            },
            Err(e) => card_identification_outcome(response) == Err::<
                CardIdentificationModel,
                Error,
            >(e),
        },
{
    lemma_card_identification_layout(response);
    reveal_with_fuel(fields_outcome, 3);
}

/// Decoding a response by the card holder identification layout gives the
/// card holder identification, and fails where and as the card holder
/// identification does.
pub proof fn lemma_card_holder_identification_by_layout(response: Seq<u8>)
    ensures
        match record_outcome(card_holder_identification_fields(), response) {
            Ok(values) => {
                &&& values.len() == 6
                &&& values[0] is Text
                &&& values[1] is Text
                &&& values[2] is Digits
                &&& values[3] is Digits
                &&& values[4] is Digits
                &&& values[5] is Text
                &&& card_holder_identification_outcome(response) == Ok::<
                    CardHolderIdentificationModel,
                    Error,
                >(card_holder_identification_of(values))
            },
            Err(e) => card_holder_identification_outcome(response) == Err::<
                CardHolderIdentificationModel,
                Error,
            >(e),
        },
{
    lemma_card_holder_identification_layout(response);
    reveal_with_fuel(fields_outcome, 7);
    if response.len() >= 78 {
        lemma_is_bcd_split(response, 72, 74, 76);
        lemma_is_bcd_split(response, 74, 75, 76);
    }
}

/// Takes the last of the decoded values, which is a text.
fn take_text(values: &mut Vec<FieldValue>) -> (text: String)
    requires
        old(values)@.len() > 0,
        old(values)@.last()@ is Text,
    ensures
        final(values)@ == old(values)@.drop_last(),
        old(values)@.last()@ == FieldModel::Text(text@),
{
    match values.pop() {
        Some(FieldValue::Text(text)) => text,
        _ => unreached(),
    }
}

/// Takes the last of the decoded values, which is a digit string.
fn take_digits(values: &mut Vec<FieldValue>) -> (digits: String)
    requires
        old(values)@.len() > 0,
        old(values)@.last()@ is Digits,
    ensures
        final(values)@ == old(values)@.drop_last(),
        old(values)@.last()@ == FieldModel::Digits(digits@),
{
    match values.pop() {
        Some(FieldValue::Digits(digits)) => digits,
        _ => unreached(),
    }
}

/// Decodes a birth date from its four bytes: the year in the first two, then
/// the month, then the day, each as packed decimal digits.
///
/// Fails with `TruncatedData` exactly when fewer than four bytes are given,
/// and otherwise with `InvalidBcdDigit` exactly when a nibble of the four
/// bytes is greater than nine.
pub fn decode_birth_date(bytes: &[u8]) -> (result: Result<BirthDate, Error>)
    ensures
        birth_date_view(result) == birth_date_outcome(bytes@),
{
    let layout = birth_date_layout();
    proof {
        lemma_birth_date_by_layout(bytes@);
    }
    let mut values = match decode_record(&layout, bytes) {
        Ok(values) => values,
        Err(e) => {
            return Err(e);
        },
    };
    let ghost all = values@;
    assert(values_view(all).len() == 3);
    assert(all[0]@ == values_view(all)[0] && all[1]@ == values_view(all)[1] && all[2]@
        == values_view(all)[2]);
    let day = take_digits(&mut values);
    let month = take_digits(&mut values);
    let year = take_digits(&mut values);
    Ok(BirthDate { year, month, day })
}

/// Decodes the response to the read of the card identification.
///
/// Fails with `TruncatedData` exactly when the response holds fewer than 17
/// bytes, and otherwise with `InvalidEncoding` exactly when the driver card
/// number is not text.
pub fn decode_card_identification(response: &[u8]) -> (result: Result<
    CardIdentificationRecord,
    Error,
>)
    ensures
        card_identification_view(result) == card_identification_outcome(response@),
{
    let layout = card_identification_layout();
    proof {
        lemma_card_identification_by_layout(response@);
    }
    let mut values = match decode_record(&layout, response) {
        Ok(values) => values,
        Err(e) => {
            return Err(e);
        },
    };
    let ghost all = values@;
    assert(values_view(all).len() == 2);
    assert(all[1]@ == values_view(all)[1]);
    let driver_card_number = take_text(&mut values);
    Ok(CardIdentificationRecord { driver_card_number })
}

/// Decodes the response to the read of the card holder identification.
///
/// Fails with `TruncatedData` exactly when the response holds fewer than 78
/// bytes, and otherwise with the failure of the first field that does not
/// decode: `InvalidEncoding` for a name or the language, `InvalidBcdDigit`
/// for the birth date.
pub fn decode_card_holder_identification(response: &[u8]) -> (result: Result<
    CardHolderIdentificationRecord,
    Error,
>)
    ensures
        card_holder_identification_view(result) == card_holder_identification_outcome(response@),
{
    let layout = card_holder_identification_layout();
    proof {
        lemma_card_holder_identification_by_layout(response@);
    }
    let mut values = match decode_record(&layout, response) {
        Ok(values) => values,
        Err(e) => {
            return Err(e);
        },
    };
    let ghost all = values@;
    assert(values_view(all).len() == 6);
    assert(all[0]@ == values_view(all)[0] && all[1]@ == values_view(all)[1] && all[2]@
        == values_view(all)[2] && all[3]@ == values_view(all)[3] && all[4]@ == values_view(
        all,
    )[4] && all[5]@ == values_view(all)[5]);
    let preferred_language = take_text(&mut values);
    let day = take_digits(&mut values);
    let month = take_digits(&mut values);
    let year = take_digits(&mut values);
    let first_names = take_text(&mut values);
    let surname = take_text(&mut values);
    Ok(
        CardHolderIdentificationRecord {
            surname,
            first_names,
            birth_date: BirthDate { year, month, day },
            preferred_language,
        },
    )
}

} // verus!
