//! `Range` for structs.
use vstd::prelude::*;
use crate::input::{DataStruct, ItemFields, FieldsNamed, FieldsUnnamed};
use crate::tokens::{error, error_tokens, TokenStream, TokenView};
use super::utils::{receiver_named, receiver_named_tokens, receiver_unnamed, receiver_unnamed_tokens};

verus! {

/// The message of the error for a unit struct.
pub const UNIT_STRUCT: &'static str = "`#[Derive(Range)]` can't be implemented on unit structs.";

/// The struct can be handled: positional fields are at least one.
pub open spec fn struct_supported(data: DataStruct) -> bool {
    data.fields matches ItemFields::Unnamed(f) ==> f.count > 0
}

/// The body of `get_range` for a struct.
pub open spec fn struct_body(data: DataStruct) -> Seq<TokenView> {
    match data.fields {
        ItemFields::Named(f) => receiver_named_tokens("self"@, f.named@),
        ItemFields::Unnamed(f) => receiver_unnamed_tokens("self"@, f.count as nat),
        ItemFields::Unit => error_tokens(UNIT_STRUCT@),
    }
}

/// The body of `get_range` for a struct.
pub fn generate(data: &DataStruct) -> (r: TokenStream)
    requires
        struct_supported(*data),
    ensures
        r.deep_view() == struct_body(*data),
{
    match &data.fields {
        ItemFields::Named(fields) => named(fields),
        ItemFields::Unnamed(fields) => unnamed(fields),
        ItemFields::Unit => error(UNIT_STRUCT),
    }
}

/// The body of `get_range` for a struct with named fields: the range of the
/// only field, or from the start of the first field's range to the end of the
/// last one's, each field falling back to the field its `range_or` names.
pub fn named(fields: &FieldsNamed) -> (r: TokenStream)
    ensures
        r.deep_view() == receiver_named_tokens("self"@, fields.named@),
{
    receiver_named(fields, "self")
}

/// The body of `get_range` for a struct with positional fields.
pub fn unnamed(fields: &FieldsUnnamed) -> (r: TokenStream)
    requires
        fields.count > 0,
    ensures
        r.deep_view() == receiver_unnamed_tokens("self"@, fields.count as nat),
{
    receiver_unnamed(fields, "self")
}

} // verus!
