//! A plain-value model of the item that a derive is applied to.
//!
//! It holds what the two derives read of the item: its name, its generic
//! parameters as tokens, and the shape of its fields and variants.
use vstd::prelude::*;
use crate::tokens::TokenStream;

verus! {

/// The form of an attribute after its path.
#[derive(Debug)]
pub enum AttrMeta {
    /// `#[path]`
    Path,
    /// `#[path(...)]`, `#[path[...]]` or `#[path{...}]`
    List,
    /// `#[path = "value"]`, by the value that the string literal denotes.
    NameValueStr(String),
    /// `#[path = <literal>]` with a literal other than a string.
    NameValueOtherLiteral,
    /// `#[path = <expression>]` with an expression other than a literal.
    NameValueOtherExpression,
}

/// An attribute on a field, as far as the derives read it.
#[derive(Debug)]
pub struct FieldAttribute {
    /// The attribute's path when it is a single identifier (`#[range_or ...]`), else `None`.
    pub path_ident: Option<String>,
    /// The form of the attribute after its path.
    pub meta: AttrMeta,
}

/// A field of a struct or of an enum variant.
#[derive(Debug)]
pub struct ItemField {
    /// The field's name; `None` for a positional field.
    pub ident: Option<String>,
    /// The field's attributes, in source order.
    pub attrs: Vec<FieldAttribute>,
}

/// Named fields: `{ a: A, b: B }`.
#[derive(Debug)]
pub struct FieldsNamed {
    pub named: Vec<ItemField>,
}

/// Positional fields: `(A, B)`, by their number.
#[derive(Debug)]
pub struct FieldsUnnamed {
    pub count: usize,
}

/// The fields of a struct or of an enum variant.
#[derive(Debug)]
pub enum ItemFields {
    Named(FieldsNamed),
    Unnamed(FieldsUnnamed),
    Unit,
}

/// A variant of an enum.
#[derive(Debug)]
pub struct ItemVariant {
    pub ident: String,
    pub fields: ItemFields,
}

/// The body of a struct.
#[derive(Debug)]
pub struct DataStruct {
    pub fields: ItemFields,
}

/// The body of an enum.
#[derive(Debug)]
pub struct DataEnum {
    pub variants: Vec<ItemVariant>,
}

/// The body of the item.
#[derive(Debug)]
pub enum Data {
    Struct(DataStruct),
    Enum(DataEnum),
    Union,
}

/// The item that a derive is applied to.
#[derive(Debug)]
pub struct Item {
    /// The item's name.
    pub ident: String,
    /// The tokens of the item's generic parameters (`<'a, T: Clone>`), empty when it has none.
    pub generics: TokenStream,
    pub data: Data,
}

/// The view of an optional string.
pub open spec fn opt_view(o: Option<String>) -> Option<Seq<char>> {
    match o {
        Some(s) => Some(s@),
        None => None,
    }
}

/// Every field in `fields` has a name.
pub open spec fn all_named(fields: Seq<ItemField>) -> bool {
    forall|i: int| 0 <= i < fields.len() ==> (#[trigger] fields[i]).ident is Some
}

} // verus!
