//! Parsing the item's source text with `syn`, and describing the parsed item
//! with the plain values of [`crate::input`].
use vstd::prelude::*;
use crate::input::{
    AttrMeta, FieldAttribute, Data, DataEnum, DataStruct, Item, ItemField, ItemFields, FieldsNamed, FieldsUnnamed,
    ItemVariant,
};
use crate::brackets::{lemma_wb_plain, well_bracketed};
use crate::tokens::{Token, TokenStream, TokenView};

verus! {

#[verifier::external_type_specification]
#[verifier::external_body]
pub struct ExSynDeriveInput(syn::DeriveInput);

#[verifier::external_type_specification]
#[verifier::external_body]
pub struct ExSynVariant(syn::Variant);

#[verifier::external_type_specification]
#[verifier::external_body]
pub struct ExSynFields(syn::Fields);

#[verifier::external_type_specification]
#[verifier::external_body]
pub struct ExSynField(syn::Field);

#[verifier::external_type_specification]
#[verifier::external_body]
pub struct ExSynAttribute(syn::Attribute);

/// Calls `syn::parse_str::<syn::DeriveInput>` on `src` and gives back the
/// parsed item, or the message (`Display` text) of each error that the parse
/// error holds, in order. Nothing is claimed about the outcome: it depends on
/// the text and on which lexer `proc_macro2` uses where the call runs (the
/// compiler's inside a macro expansion, its own elsewhere). The contract
/// claims only that an error holds at least one message: every `syn::Error`
/// is built with one (`Error::new`, `new_spanned`) and only ever gains more
/// (`Error::combine`).
#[verifier::external_body]
fn syn_parse_item(src: &str) -> (r: Result<syn::DeriveInput, Vec<String>>)
    ensures
        r matches Err(ms) ==> ms.len() >= 1,
{
    syn::parse_str::<syn::DeriveInput>(src).map_err(|e| e.into_iter().map(|m| m.to_string()).collect())
}

/// The item's data as `syn` holds it: a struct's fields, an enum's variants in
/// declaration order, or a union.
enum SynData<'a> {
    Struct(&'a syn::Fields),
    Enum(Vec<&'a syn::Variant>),
    Union,
}

/// ItemFields as `syn` holds them: named fields in order, the number of
/// positional fields, or none.
enum SynFields<'a> {
    Named(Vec<&'a syn::Field>),
    Unnamed(usize),
    Unit,
}

/// `item.ident`, as text (`Ident::to_string`). Nothing is claimed about the text.
#[verifier::external_body]
fn item_ident(item: &syn::DeriveInput) -> String {
    item.ident.to_string()
}

/// The text of `item.generics` printed as tokens (`ToTokens::to_token_stream`,
/// then `to_string`). Nothing is claimed about the text.
#[verifier::external_body]
fn item_generics(item: &syn::DeriveInput) -> String {
    quote::ToTokens::to_token_stream(&item.generics).to_string()
}

/// `item.data`, told apart by variant; an enum's variants are handed out in
/// order (`Punctuated::iter`). Nothing is claimed about the result.
#[verifier::external_body]
fn item_data(item: &syn::DeriveInput) -> SynData<'_> {
    match &item.data {
        syn::Data::Struct(s) => SynData::Struct(&s.fields),
        syn::Data::Enum(e) => SynData::Enum(e.variants.iter().collect()),
        syn::Data::Union(_) => SynData::Union,
    }
}

/// `variant.ident`, as text. Nothing is claimed about the text.
#[verifier::external_body]
fn variant_ident(variant: &syn::Variant) -> String {
    variant.ident.to_string()
}

/// `variant.fields`. Nothing is claimed about the result.
#[verifier::external_body]
fn variant_fields(variant: &syn::Variant) -> &syn::Fields {
    &variant.fields
}

/// `fields`, told apart by variant: named fields handed out in order
/// (`Punctuated::iter`), or the number of positional fields
/// (`Punctuated::len`). Nothing is claimed about the result.
#[verifier::external_body]
fn fields_shape(fields: &syn::Fields) -> SynFields<'_> {
    match fields {
        syn::Fields::Named(n) => SynFields::Named(n.named.iter().collect()),
        syn::Fields::Unnamed(u) => SynFields::Unnamed(u.unnamed.len()),
        syn::Fields::Unit => SynFields::Unit,
    }
}

/// `field.ident`, as text. Nothing is claimed about the result.
#[verifier::external_body]
fn field_ident(field: &syn::Field) -> Option<String> {
    field.ident.as_ref().map(|i| i.to_string())
}

/// `field.attrs`. Nothing is claimed about the result.
#[verifier::external_body]
fn field_attrs(field: &syn::Field) -> &Vec<syn::Attribute> {
    &field.attrs
}

/// `attr.path().get_ident()`, as text. Nothing is claimed about the result.
#[verifier::external_body]
fn attr_path_ident(attr: &syn::Attribute) -> Option<String> {
    attr.path().get_ident().map(|i| i.to_string())
}

/// The form of `attr.meta`, told apart by variant: a path, a list, or a
/// name-value whose value is a string literal (by `LitStr::value`), another
/// literal, or another expression. Nothing is claimed about the result.
#[verifier::external_body]
fn attr_meta(attr: &syn::Attribute) -> AttrMeta {
    match &attr.meta {
        syn::Meta::Path(_) => AttrMeta::Path,
        syn::Meta::List(_) => AttrMeta::List,
        syn::Meta::NameValue(meta) => match &meta.value {
            syn::Expr::Lit(literal) => match &literal.lit {
                syn::Lit::Str(s) => AttrMeta::NameValueStr(s.value()),
                _ => AttrMeta::NameValueOtherLiteral,
            },
            _ => AttrMeta::NameValueOtherExpression,
        },
    }
}

/// The description of a field.
fn field_model(field: &syn::Field) -> ItemField {
    let attrs = field_attrs(field);
    let mut model_attrs: Vec<FieldAttribute> = Vec::new();
    let n = attrs.len();
    let mut i: usize = 0;
    while i < n
        invariant
            n == attrs.len(),
            i <= n,
        decreases n - i,
    {
        let a = &attrs[i];
        model_attrs.push(FieldAttribute { path_ident: attr_path_ident(a), meta: attr_meta(a) });
        i = i + 1;
    }
    ItemField { ident: field_ident(field), attrs: model_attrs }
}

/// The description of fields.
fn fields_model(fields: &syn::Fields) -> ItemFields {
    match fields_shape(fields) {
        SynFields::Named(named) => {
            let mut model: Vec<ItemField> = Vec::new();
            let n = named.len();
            let mut i: usize = 0;
            while i < n
                invariant
                    n == named.len(),
                    i <= n,
                decreases n - i,
            {
                model.push(field_model(named[i]));
                i = i + 1;
            }
            ItemFields::Named(FieldsNamed { named: model })
        },
        SynFields::Unnamed(count) => ItemFields::Unnamed(FieldsUnnamed { count }),
        SynFields::Unit => ItemFields::Unit,
    }
}

/// Every token of `ts` is a verbatim run of source text, and there is at most one.
pub open spec fn at_most_one_verbatim(ts: Seq<TokenView>) -> bool {
    &&& ts.len() <= 1
    &&& forall|i: int| 0 <= i < ts.len() ==> (#[trigger] ts[i]) is Verbatim
}

/// The description of a parsed item: its name, its generic parameters as one
/// verbatim token (none when it has none), and its fields and variants.
fn item_model(item: &syn::DeriveInput) -> (r: Item)
    ensures
        at_most_one_verbatim(r.generics.deep_view()),
{
    let generics_text = item_generics(item);
    let mut generics: TokenStream = Vec::new();
    if !generics_text.as_str().is_empty() {
        generics.push(Token::Verbatim(generics_text));
    }
    assert(at_most_one_verbatim(generics.deep_view()));
    let data = match item_data(item) {
        SynData::Struct(fields) => Data::Struct(DataStruct { fields: fields_model(fields) }),
        SynData::Enum(variants) => {
            let mut model: Vec<ItemVariant> = Vec::new();
            let n = variants.len();
            let mut i: usize = 0;
            while i < n
                invariant
                    n == variants.len(),
                    i <= n,
                decreases n - i,
            {
                let v = variants[i];
                model.push(ItemVariant { ident: variant_ident(v), fields: fields_model(variant_fields(v)) });
                i = i + 1;
            }
            Data::Enum(DataEnum { variants: model })
        },
        SynData::Union => Data::Union,
    };
    Item { ident: item_ident(item), generics, data }
}

/// Parses the item's source text with `syn`: the item's description, or the
/// messages of the parse error. Which of the two comes back is syn's answer,
/// of which nothing is stated; an error holds at least one message, and an
/// item's generic parameters are at most one verbatim token, so they are
/// well-bracketed.
pub fn parse_item(src: &str) -> (r: Result<Item, Vec<String>>)
    ensures
        r matches Err(ms) ==> ms.len() >= 1,
        r matches Ok(d) ==> at_most_one_verbatim(d.generics.deep_view()) && well_bracketed(
            d.generics.deep_view(),
        ),
{
    match syn_parse_item(src) {
        Ok(item) => {
            let d = item_model(&item);
            proof {
                lemma_wb_plain(d.generics.deep_view());
            }
            Ok(d)
        },
        Err(e) => Err(e),
    }
}

} // verus!
