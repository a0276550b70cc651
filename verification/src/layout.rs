//! Record layouts: a record is a run of fixed-length fields, each with the
//! rule by which its bytes are decoded.
//!
//! A layout is applied to a buffer from the left. The buffer may be longer
//! than the layout: what follows the last field is not looked at.

use vstd::prelude::*;
use crate::codec::{
    bcd_outcome, bcdstring_from_byte_string, decode_text, text_outcome,
};
use crate::error::Error;
use crate::slicer::take_n;

verus! {

/// How the bytes of a field are decoded.
#[derive(Clone, Copy, Debug, PartialEq, Eq, Structural)]
pub enum DecodeRule {
    /// The bytes are kept as they are.
    Raw,
    /// The bytes are text, one character per byte, padded with white space.
    Text,
    /// The bytes pack decimal digits, one per nibble.
    Bcd,
}

/// One field of a record: its length in bytes and its decode rule.
#[derive(Clone, Copy, Debug, PartialEq, Eq, Structural)]
pub struct FieldDescriptor {
    pub length: usize,
    pub rule: DecodeRule,
}

/// The fields of a record, in the order in which they lie in the buffer.
#[derive(Clone, Debug, PartialEq, Eq)]
pub struct RecordLayout {
    pub fields: Vec<FieldDescriptor>,
}

impl View for RecordLayout {
    type V = Seq<FieldDescriptor>;

    open spec fn view(&self) -> Seq<FieldDescriptor> {
        self.fields@
    }
}

/// The value of a decoded field.
#[derive(Clone, Debug, PartialEq, Eq)]
pub enum FieldValue {
    /// The bytes of a raw field.
    Raw(Vec<u8>),
    /// The text of a text field, without its padding.
    Text(String),
    /// The digits of a packed decimal field.
    Digits(String),
}

/// The value of a decoded field, as a value of the model.
pub enum FieldModel {
    Raw(Seq<u8>),
    Text(Seq<char>),
    Digits(Seq<char>),
}

impl View for FieldValue {
    type V = FieldModel;

    open spec fn view(&self) -> FieldModel {
        match self {
            FieldValue::Raw(bytes) => FieldModel::Raw(bytes@),
            FieldValue::Text(text) => FieldModel::Text(text@),
            FieldValue::Digits(digits) => FieldModel::Digits(digits@),
        }
    }
}

/// The number of bytes that the fields take together.
pub open spec fn layout_len(fields: Seq<FieldDescriptor>) -> nat
    decreases fields.len(),
{
    if fields.len() == 0 {
        0
    } else {
        layout_len(fields.drop_last()) + fields.last().length as nat
    }
}

/// The offset in the buffer at which field `i` begins: the length of the
/// fields before it.
pub open spec fn field_start(fields: Seq<FieldDescriptor>, i: int) -> nat {
    layout_len(fields.take(i))
}

/// The bytes of field `i` in `data`.
pub open spec fn field_bytes(fields: Seq<FieldDescriptor>, data: Seq<u8>, i: int) -> Seq<u8> {
    data.subrange(field_start(fields, i) as int, field_start(fields, i) + fields[i].length)
}

/// What decoding `bytes` by `rule` gives.
pub open spec fn field_outcome(rule: DecodeRule, bytes: Seq<u8>) -> Result<FieldModel, Error> {
    match rule {
        DecodeRule::Raw => Ok(FieldModel::Raw(bytes)),
        DecodeRule::Text => match text_outcome(bytes) {
            Ok(text) => Ok(FieldModel::Text(text)),
            Err(e) => Err(e),
        },
        DecodeRule::Bcd => match bcd_outcome(bytes) {
            Ok(digits) => Ok(FieldModel::Digits(digits)),
            Err(e) => Err(e),
        },
    }
}

/// What decoding the first `n` fields of `data` gives, in their order: the
/// values of all of them, or the failure of the first that fails.
pub open spec fn fields_outcome(fields: Seq<FieldDescriptor>, data: Seq<u8>, n: nat) -> Result<
    Seq<FieldModel>,
    Error,
>
    decreases n,
{
    if n == 0 {
        Ok(Seq::empty())
    } else {
        match fields_outcome(fields, data, (n - 1) as nat) {
            Err(e) => Err(e),
            Ok(values) => match field_outcome(
                fields[n - 1].rule,
                field_bytes(fields, data, n - 1),
            ) {
                Err(e) => Err(e),
                Ok(value) => Ok(values.push(value)),
            },
        }
    }
}

/// What decoding `data` by the layout gives. Data shorter than the layout is
/// truncated, whatever its fields hold; otherwise the fields are decoded in
/// their order.
pub open spec fn record_outcome(fields: Seq<FieldDescriptor>, data: Seq<u8>) -> Result<
    Seq<FieldModel>,
    Error,
> {
    if data.len() < layout_len(fields) {
        Err(Error::TruncatedData)
    } else {
        fields_outcome(fields, data, fields.len())
    }
}

/// The values of decoded fields, as values of the model.
pub open spec fn values_view(values: Seq<FieldValue>) -> Seq<FieldModel> {
    Seq::new(values.len(), |i: int| values[i]@)
}

/// Decoded fields, or the failure, as a value of the model.
pub open spec fn values_outcome(result: Result<Vec<FieldValue>, Error>) -> Result<
    Seq<FieldModel>,
    Error,
> {
    match result {
        Ok(values) => Ok(values_view(values@)),
        Err(e) => Err(e),
    }
}

/// The raw bytes of every field of the layout in `data`.
pub open spec fn raw_fields(fields: Seq<FieldDescriptor>, data: Seq<u8>) -> Seq<Seq<u8>> {
    Seq::new(fields.len(), |i: int| field_bytes(fields, data, i))
}

/// The views of a run of slices.
pub open spec fn slices_view(slices: Seq<&[u8]>) -> Seq<Seq<u8>> {
    Seq::new(slices.len(), |i: int| slices[i]@)
}

/// The fields before any field take no more bytes than the whole layout, and
/// each field ends where the next begins.
pub proof fn lemma_field_start(fields: Seq<FieldDescriptor>, i: int)
    requires
        0 <= i < fields.len(),
    ensures
        field_start(fields, i + 1) == field_start(fields, i) + fields[i].length,
        field_start(fields, i + 1) <= layout_len(fields),
        field_start(fields, 0) == 0,
        field_start(fields, fields.len() as int) == layout_len(fields),
    decreases fields.len() - i,
{
    assert(fields.take(i + 1).drop_last() =~= fields.take(i));
    assert(fields.take(fields.len() as int) =~= fields);
    if i + 1 < fields.len() {
        lemma_field_start(fields, i + 1);
    }
}

/// Slices `data` into the raw bytes of the fields of `layout`, from the left,
/// and gives them with what is left of `data` after the last field.
///
/// Fails with `TruncatedData` exactly when `data` is shorter than the layout.
pub fn slice_record<'a>(layout: &RecordLayout, data: &'a [u8]) -> (result: Result<
    (Vec<&'a [u8]>, &'a [u8]),
    Error,
>)
    ensures
        match result {
            Ok((raw, rest)) => {
                &&& layout_len(layout@) <= data@.len()
                &&& slices_view(raw@) == raw_fields(layout@, data@)
                &&& rest@ == data@.skip(layout_len(layout@) as int)
            },
            Err(e) => data@.len() < layout_len(layout@) && e == Error::TruncatedData,
        },
{
    let mut raw: Vec<&'a [u8]> = Vec::new();
    let mut rest: &'a [u8] = data;
    let mut i: usize = 0;
    assert(data@.skip(0) =~= data@);
    assert(layout@.take(0) =~= Seq::<FieldDescriptor>::empty());
    while i < layout.fields.len()
        invariant
            i <= layout@.len(),
            field_start(layout@, i as int) <= data@.len(),
            rest@ == data@.skip(field_start(layout@, i as int) as int),
            raw@.len() == i,
            forall|j: int| 0 <= j < i ==> (#[trigger] raw@[j])@ == field_bytes(layout@, data@, j),
        decreases layout@.len() - i,
    {
        let field: FieldDescriptor = layout.fields[i];
        proof {
            lemma_field_start(layout@, i as int);
        }
        match take_n(field.length, rest) {
            Err(e) => {
                return Err(e);
            },
            Ok((head, tail)) => {
                assert(head@ =~= field_bytes(layout@, data@, i as int));
                assert(tail@ =~= data@.skip(field_start(layout@, i + 1) as int));
                raw.push(head);
                rest = tail;
            },
        }
        i += 1;
    }
    proof {
        assert(layout@.take(i as int) =~= layout@);
        assert(slices_view(raw@) =~= raw_fields(layout@, data@));
    }
    Ok((raw, rest))
}

/// Decodes the bytes of one field by its rule.
pub fn decode_field(rule: DecodeRule, bytes: &[u8]) -> (result: Result<FieldValue, Error>)
    ensures
        match result {
            Ok(value) => field_outcome(rule, bytes@) == Ok::<FieldModel, Error>(value@),
            Err(e) => field_outcome(rule, bytes@) == Err::<FieldModel, Error>(e),
        },
{
    match rule {
        DecodeRule::Raw => Ok(FieldValue::Raw(vstd::slice::slice_to_vec(bytes))),
        DecodeRule::Text => match decode_text(bytes) {
            Ok(text) => Ok(FieldValue::Text(text)),
            Err(e) => Err(e),
        },
        DecodeRule::Bcd => match bcdstring_from_byte_string(bytes) {
            Ok(digits) => Ok(FieldValue::Digits(digits)),
            Err(e) => Err(e),
        },
    }
}

/// Decodes `data` by `layout`: slices it into the fields, then decodes each
/// field by its rule, in the order of the layout.
///
/// Fails with `TruncatedData` exactly when `data` is shorter than the layout,
/// and otherwise with the failure of the first field that does not decode.
pub fn decode_record(layout: &RecordLayout, data: &[u8]) -> (result: Result<Vec<FieldValue>, Error>)
    ensures
        values_outcome(result) == record_outcome(layout@, data@),
{
    let raw = match slice_record(layout, data) {
        Ok((raw, _)) => raw,
        Err(e) => {
            return Err(e);
        },
    };
    assert(raw@.len() == layout@.len()) by {
        assert(slices_view(raw@).len() == raw_fields(layout@, data@).len());
    }
    let mut values: Vec<FieldValue> = Vec::new();
    let mut i: usize = 0;
    assert(values_view(values@) =~= Seq::empty());
    while i < layout.fields.len()
        invariant
            i <= layout@.len(),
            layout_len(layout@) <= data@.len(),
            raw@.len() == layout@.len(),
            slices_view(raw@) == raw_fields(layout@, data@),
            fields_outcome(layout@, data@, i as nat) == Ok::<Seq<FieldModel>, Error>(
                values_view(values@),
            ),
        decreases layout@.len() - i,
    {
        let field: FieldDescriptor = layout.fields[i];
        assert(raw@[i as int]@ == field_bytes(layout@, data@, i as int)) by {
            assert(slices_view(raw@)[i as int] == raw_fields(layout@, data@)[i as int]);
        }
        match decode_field(field.rule, raw[i]) {
            Err(e) => {
                assert(fields_outcome(layout@, data@, (i + 1) as nat) == Err::<
                    Seq<FieldModel>,
                    Error,
                >(e));
                proof {
                    lemma_failure_stays(layout@, data@, (i + 1) as nat, layout@.len());
                }
                return Err(e);
            },
            Ok(value) => {
                let ghost before = values_view(values@);
                values.push(value);
                assert(values_view(values@) =~= before.push(value@));
            },
        }
        i += 1;
    }
    Ok(values)
}

/// Once a field has failed, decoding more fields gives the same failure.
pub proof fn lemma_failure_stays(fields: Seq<FieldDescriptor>, data: Seq<u8>, n: nat, m: nat)
    requires
        n <= m,
        fields_outcome(fields, data, n) is Err,
    ensures
        fields_outcome(fields, data, m) == fields_outcome(fields, data, n),
    decreases m,
{
    if n < m {
        lemma_failure_stays(fields, data, n, (m - 1) as nat);
    }
}

} // verus!
