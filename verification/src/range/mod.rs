//! The `Range` derive: an impl of `crate::types::GetRange` whose `get_range`
//! spans the item's fields.
pub mod enum_impl;
pub mod struct_impl;
pub mod utils;

use vstd::prelude::*;
use crate::brackets::{group_well_bracketed, lemma_wb_impl_header, well_bracketed};
use crate::input::{Data, Item};
use crate::tokens::{
    alone, append, colon2, emit_impl_header, error, error_tokens, group, id, impl_header,
    push_close, push_colon2, push_ident, push_open, push_punct, rarrow, Delimiter, TokenStream,
    TokenView,
};
use self::enum_impl::{enum_body, lemma_wb_enum_body};
use self::struct_impl::{struct_body, struct_supported};
use crate::input::{ItemFields, FieldsUnnamed};
use self::utils::{
    crate_types, emit_crate_types, lemma_wb_crate_types, lemma_wb_receiver_named,
    lemma_wb_receiver_unnamed,
};

verus! {

/// The message of the error for a union.
pub const UNION: &'static str = "`#[Derive(Range)]` can't be called on unions.";

/// The item can be handled: a struct with positional fields has at least one.
pub open spec fn range_supported(input: Item) -> bool {
    input.data matches Data::Struct(s) ==> struct_supported(s)
}

/// The body of `get_range` for the item's data.
pub open spec fn range_body(data: Data) -> Seq<TokenView> {
    match data {
        Data::Struct(s) => struct_body(s),
        Data::Enum(e) => enum_body(e),
        Data::Union => error_tokens(UNION@),
    }
}

/// `crate::types::GetRange`
pub open spec fn get_range_trait() -> Seq<TokenView> {
    crate_types() + colon2() + seq![id("GetRange"@)]
}

/// `#[inline] fn get_range(&self) -> Result<crate::types::Range, crate::types::GetRangeError>`
pub open spec fn get_range_signature() -> Seq<TokenView> {
    seq![alone('#')] + group(Delimiter::Bracket, seq![id("inline"@)]) + seq![id("fn"@), id("get_range"@)]
        + group(Delimiter::Parenthesis, seq![alone('&'), id("self"@)]) + rarrow() + seq![
        id("Result"@),
        alone('<'),
    ] + crate_types() + colon2() + seq![id("Range"@), alone(',')] + crate_types() + colon2() + seq![
        id("GetRangeError"@),
        alone('>'),
    ]
}

/// ```text
/// impl <generics> crate::types::GetRange for <name> <generics> {
///     #[inline]
///     fn get_range(&self) -> Result<crate::types::Range, crate::types::GetRangeError> { <body> }
/// }
/// ```
pub open spec fn get_range_impl(name: Seq<char>, generics: Seq<TokenView>, body: Seq<TokenView>) -> Seq<TokenView> {
    impl_header(get_range_trait(), name, generics) + group(
        Delimiter::Brace,
        get_range_signature() + group(Delimiter::Brace, body),
    )
}

/// The tokens that the `Range` derive produces for `input`.
pub open spec fn range_tokens(input: Item) -> Seq<TokenView> {
    get_range_impl(input.ident@, input.generics.deep_view(), range_body(input.data))
}

/// Whether the `Range` derive handles `input`.
pub fn is_range_supported(input: &Item) -> (r: bool)
    ensures
        r == range_supported(*input),
{
    match &input.data {
        Data::Struct(s) => match &s.fields {
            ItemFields::Unnamed(FieldsUnnamed { count }) => *count > 0,
            _ => true,
        },
        _ => true,
    }
}

fn emit_get_range_trait() -> (r: TokenStream)
    ensures
        r.deep_view() == get_range_trait(),
{
    let mut r = emit_crate_types();
    push_colon2(&mut r);
    push_ident(&mut r, "GetRange");
    assert(r.deep_view() =~= get_range_trait());
    r
}

fn emit_get_range_signature() -> (r: TokenStream)
    ensures
        r.deep_view() == get_range_signature(),
{
    let mut r: TokenStream = Vec::new();
    push_punct(&mut r, '#', false);
    push_open(&mut r, Delimiter::Bracket);
    push_ident(&mut r, "inline");
    push_close(&mut r, Delimiter::Bracket);
    push_ident(&mut r, "fn");
    push_ident(&mut r, "get_range");
    push_open(&mut r, Delimiter::Parenthesis);
    push_punct(&mut r, '&', false);
    push_ident(&mut r, "self");
    push_close(&mut r, Delimiter::Parenthesis);
    push_punct(&mut r, '-', true);
    push_punct(&mut r, '>', false);
    push_ident(&mut r, "Result");
    push_punct(&mut r, '<', false);
    append(&mut r, emit_crate_types());
    push_colon2(&mut r);
    push_ident(&mut r, "Range");
    push_punct(&mut r, ',', false);
    append(&mut r, emit_crate_types());
    push_colon2(&mut r);
    push_ident(&mut r, "GetRangeError");
    push_punct(&mut r, '>', false);
    assert(r.deep_view() =~= get_range_signature());
    r
}

/// The `Range` derive: an impl of `crate::types::GetRange` for the item.
pub fn generate(input: &Item) -> (r: TokenStream)
    requires
        range_supported(*input),
    ensures
        r.deep_view() == range_tokens(*input),
{
    let body = match &input.data {
        Data::Struct(data_struct) => struct_impl::generate(data_struct),
        Data::Enum(data_enum) => enum_impl::generate(data_enum),
        Data::Union => error(UNION),
    };
    let ghost bv = body.deep_view();
    let mut r = emit_impl_header(emit_get_range_trait(), &input.ident, &input.generics);
    let ghost hv = r.deep_view();
    push_open(&mut r, Delimiter::Brace);
    append(&mut r, emit_get_range_signature());
    push_open(&mut r, Delimiter::Brace);
    append(&mut r, body);
    push_close(&mut r, Delimiter::Brace);
    push_close(&mut r, Delimiter::Brace);
    assert(r.deep_view() =~= hv + group(Delimiter::Brace, get_range_signature() + group(Delimiter::Brace, bv)));
    r
}

proof fn lemma_wb_range_body(data: Data)
    ensures
        well_bracketed(range_body(data)),
{
    broadcast use group_well_bracketed;
    match data {
        Data::Struct(s) => match s.fields {
            ItemFields::Named(f) => lemma_wb_receiver_named("self"@, f.named@),
            ItemFields::Unnamed(f) => lemma_wb_receiver_unnamed("self"@, f.count as nat),
            ItemFields::Unit => {
                assert(well_bracketed(error_tokens(struct_impl::UNIT_STRUCT@)));
            },
        },
        Data::Enum(e) => lemma_wb_enum_body(e),
        Data::Union => {
            assert(well_bracketed(error_tokens(UNION@)));
        },
    }
}

proof fn lemma_wb_get_range_parts()
    ensures
        well_bracketed(get_range_trait()),
        well_bracketed(get_range_signature()),
{
    broadcast use group_well_bracketed;
    lemma_wb_crate_types();
    assert(well_bracketed(colon2()));
    assert(well_bracketed(rarrow()));
}

/// Whatever the item, the code of the `Range` derive opens and closes its
/// groups properly, given that the item's generic parameters do.
pub proof fn law_range_well_bracketed(input: Item)
    requires
        well_bracketed(input.generics.deep_view()),
    ensures
        well_bracketed(range_tokens(input)),
{
    broadcast use group_well_bracketed;
    lemma_wb_range_body(input.data);
    lemma_wb_get_range_parts();
    lemma_wb_impl_header(get_range_trait(), input.ident@, input.generics.deep_view());
    let body = range_body(input.data);
    assert(well_bracketed(group(Delimiter::Brace, get_range_signature() + group(Delimiter::Brace, body))));
}

} // verus!
