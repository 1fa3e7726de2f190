//! The canonical byte encoding that every digest is taken over.
//!
//! A value is flattened into a sequence of self-describing fields, and the
//! sequence is written as one CBOR array.

use vstd::prelude::*;

verus! {

/// One field of a flattened value.
#[derive(Debug)]
pub enum Field {
    Unsigned(u64),
    Signed(i64),
    Bytes(Vec<u8>),
}

/// What a `Field` holds.
pub enum FieldModel {
    Unsigned(u64),
    Signed(i64),
    Bytes(Seq<u8>),
}

impl View for Field {
    type V = FieldModel;

    open spec fn view(&self) -> FieldModel {
        match self {
            Field::Unsigned(n) => FieldModel::Unsigned(*n),
            Field::Signed(n) => FieldModel::Signed(*n),
            Field::Bytes(b) => FieldModel::Bytes(b@),
        }
    }
}

/// What a sequence of fields holds, field by field.
pub open spec fn fields_model(fields: Seq<Field>) -> Seq<FieldModel> {
    fields.map_values(|f: Field| f@)
}

/// A value that has a canonical encoding.
pub trait Encode {
    /// The fields of the value, in the order in which they are encoded.
    spec fn spec_fields(&self) -> Seq<FieldModel>;

    fn encode_fields(&self) -> (fields: Vec<Field>)
        ensures
            fields_model(fields@) == self.spec_fields(),
    ;
}

/// The bytes of the CBOR array whose items are `fields`: an unsigned or
/// negative integer for a number, a byte string for bytes.
pub uninterp spec fn cbor_encoding(fields: Seq<FieldModel>) -> Seq<u8>;

/// Writes the fields as one CBOR array with `ciborium::into_writer`.
///
/// Trusted: the bytes written depend on the fields alone, and writing such an
/// array into a vector does not fail.
#[verifier::external_body]
pub(crate) fn cbor_encode(fields: &Vec<Field>) -> (bytes: Option<Vec<u8>>)
    ensures
        bytes is Some,
        bytes.unwrap()@ == cbor_encoding(fields_model(fields@)),
{
    let items = fields.iter().map(|f| match f {
        Field::Unsigned(n) => ciborium::Value::Integer((*n).into()),
        Field::Signed(n) => ciborium::Value::Integer((*n).into()),
        Field::Bytes(b) => ciborium::Value::Bytes(b.clone()),
    }).collect();
    let mut out = Vec::new();
    ciborium::into_writer(&ciborium::Value::Array(items), &mut out).ok().map(|_| out)
}

/// Appends one field.
pub(crate) fn push_field(fields: &mut Vec<Field>, field: Field)
    ensures
        fields_model(final(fields)@) == fields_model(old(fields)@).push(field@),
{
    fields.push(field);
    assert(fields_model(fields@) =~= fields_model(old(fields)@).push(field@));
}

/// Appends everything in `more`.
pub(crate) fn push_all(fields: &mut Vec<Field>, more: Vec<Field>)
    ensures
        fields_model(final(fields)@) == fields_model(old(fields)@) + fields_model(more@),
{
    let ghost added = more@;
    let mut more = more;
    fields.append(&mut more);
    assert(fields_model(fields@) =~= fields_model(old(fields)@) + fields_model(added));
}

} // verus!
