//! The `Print` derive: an impl of `crate::types::Print` that prints the
//! item's fields one after the other.
pub mod enum_impl;
pub mod struct_impl;
pub mod utils;

use vstd::prelude::*;
use crate::brackets::{group_well_bracketed, lemma_wb_impl_header, well_bracketed};
use crate::input::{all_named, Data, Item, ItemFields, FieldsNamed};
use crate::range::utils::{crate_types, emit_crate_types, lemma_wb_crate_types};
use crate::tokens::{
    alone, append, colon2, emit_impl_header, error, error_tokens, group, id, impl_header,
    push_close, push_colon2, push_ident, push_open, push_punct, rarrow, Delimiter, TokenStream,
    TokenView,
};

use self::enum_impl::{enum_print_tokens, enum_supported, lemma_wb_enum_matches};
use self::struct_impl::{lemma_wb_struct_data, struct_data, struct_print_tokens, struct_supported};
use self::utils::lemma_wb_bodies;

verus! {

/// The receivers of a printed item, split into the first, those in the
/// middle and the last one.
#[derive(Debug)]
pub struct CodeData {
    pub first: TokenStream,
    pub middle: Vec<TokenStream>,
    pub last: Option<TokenStream>,
}

/// The mathematical value of a [`CodeData`].
pub struct CodeDataView {
    pub first: Seq<TokenView>,
    pub middle: Seq<Seq<TokenView>>,
    pub last: Option<Seq<TokenView>>,
}

impl DeepView for CodeData {
    type V = CodeDataView;

    open spec fn deep_view(&self) -> CodeDataView {
        CodeDataView {
            first: self.first.deep_view(),
            middle: self.middle.deep_view(),
            last: self.last.deep_view(),
        }
    }
}

/// The data that stands for a compile error with `message`: the error in first place.
pub open spec fn error_data(message: Seq<char>) -> CodeDataView {
    CodeDataView { first: error_tokens(message), middle: seq![], last: None }
}

impl CodeData {
    /// The data that stands for a compile error with `message`.
    pub fn error(message: &str) -> (r: Self)
        ensures
            r.deep_view() == error_data(message@),
    {
        let r = CodeData { first: error(message), middle: Vec::new(), last: None };
        assert(r.middle.deep_view() =~= Seq::<Seq<TokenView>>::empty());
        r
    }
}

/// The message of the error for a union.
pub const UNION: &'static str = "`#[Derive(Print)]` can't be called on unions.";

/// `crate::types::Print`
pub open spec fn print_trait() -> Seq<TokenView> {
    crate_types() + colon2() + seq![id("Print"@)]
}

/// `#[inline] #[allow(unused)] fn <name>(&self) -> String { <body> }`
pub open spec fn print_method(name: Seq<char>, body: Seq<TokenView>) -> Seq<TokenView> {
    seq![alone('#')] + group(Delimiter::Bracket, seq![id("inline"@)]) + seq![alone('#')] + group(
        Delimiter::Bracket,
        seq![id("allow"@)] + group(Delimiter::Parenthesis, seq![id("unused"@)]),
    ) + seq![id("fn"@), id(name)] + group(Delimiter::Parenthesis, seq![alone('&'), id("self"@)])
        + rarrow() + seq![id("String"@)] + group(Delimiter::Brace, body)
}

/// ```text
/// impl <generics> crate::types::Print for <name> <generics> {
///     #[inline] #[allow(unused)] fn print_final_trivia(&self) -> String { <final_trivia> }
///     #[inline] #[allow(unused)] fn print_without_final_trivia(&self) -> String { <without_final_trivia> }
/// }
/// ```
pub open spec fn print_impl(
    name: Seq<char>,
    generics: Seq<TokenView>,
    final_trivia: Seq<TokenView>,
    without_final_trivia: Seq<TokenView>,
) -> Seq<TokenView> {
    impl_header(print_trait(), name, generics) + group(
        Delimiter::Brace,
        print_method("print_final_trivia"@, final_trivia) + print_method(
            "print_without_final_trivia"@,
            without_final_trivia,
        ),
    )
}

/// The item can be handled: every set of named fields is non-empty and every
/// field in it has a name.
pub open spec fn print_supported(input: Item) -> bool {
    match input.data {
        Data::Struct(s) => struct_supported(s),
        Data::Enum(e) => enum_supported(e),
        Data::Union => true,
    }
}

/// The tokens that the `Print` derive produces for `input`.
pub open spec fn print_tokens(input: Item) -> Seq<TokenView> {
    match input.data {
        Data::Struct(s) => struct_print_tokens(input, s),
        Data::Enum(e) => enum_print_tokens(input, e),
        Data::Union => error_tokens(UNION@),
    }
}

/// Whether a set of named fields is non-empty and every field in it has a name.
fn named_supported(f: &FieldsNamed) -> (r: bool)
    ensures
        r == (f.named.len() > 0 && all_named(f.named@)),
{
    let n = f.named.len();
    let mut i: usize = 0;
    while i < n
        invariant
            n == f.named@.len(),
            i <= n,
            forall|j: int| 0 <= j < i ==> (#[trigger] f.named@[j]).ident is Some,
        decreases n - i,
    {
        if f.named[i].ident.is_none() {
            return false;
        }
        i = i + 1;
    }
    n > 0
}

/// Whether the `Print` derive handles `input`.
pub fn is_print_supported(input: &Item) -> (r: bool)
    ensures
        r == print_supported(*input),
{
    match &input.data {
        Data::Struct(s) => match &s.fields {
            ItemFields::Named(f) => named_supported(f),
            _ => true,
        },
        Data::Enum(e) => {
            let n = e.variants.len();
            let mut i: usize = 0;
            while i < n
                invariant
                    n == e.variants@.len(),
                    input.data == Data::Enum(*e),
                    i <= n,
                    forall|j: int|
                        0 <= j < i ==> ((#[trigger] e.variants@[j]).fields matches ItemFields::Named(f)
                            ==> f.named.len() > 0 && all_named(f.named@)),
                decreases n - i,
            {
                let v = &e.variants[i];
                assert(*v == e.variants@[i as int]);
                match &v.fields {
                    ItemFields::Named(f) => {
                        if !named_supported(f) {
                            assert(!enum_supported(*e));
                            assert(!print_supported(*input));
                            return false;
                        }
                    },
                    _ => {},
                }
                i = i + 1;
            }
            true
        },
        Data::Union => true,
    }
}

fn emit_print_method(name: &str, body: TokenStream) -> (r: TokenStream)
    ensures
        r.deep_view() == print_method(name@, body.deep_view()),
{
    let ghost bv = body.deep_view();
    let mut r: TokenStream = Vec::new();
    push_punct(&mut r, '#', false);
    push_open(&mut r, Delimiter::Bracket);
    push_ident(&mut r, "inline");
    push_close(&mut r, Delimiter::Bracket);
    push_punct(&mut r, '#', false);
    push_open(&mut r, Delimiter::Bracket);
    push_ident(&mut r, "allow");
    push_open(&mut r, Delimiter::Parenthesis);
    push_ident(&mut r, "unused");
    push_close(&mut r, Delimiter::Parenthesis);
    push_close(&mut r, Delimiter::Bracket);
    push_ident(&mut r, "fn");
    push_ident(&mut r, name);
    push_open(&mut r, Delimiter::Parenthesis);
    push_punct(&mut r, '&', false);
    push_ident(&mut r, "self");
    push_close(&mut r, Delimiter::Parenthesis);
    push_punct(&mut r, '-', true);
    push_punct(&mut r, '>', false);
    push_ident(&mut r, "String");
    push_open(&mut r, Delimiter::Brace);
    append(&mut r, body);
    push_close(&mut r, Delimiter::Brace);
    assert(r.deep_view() =~= print_method(name@, bv));
    r
}

/// The tokens of the impl of `crate::types::Print` with the two method bodies.
pub fn emit_print_impl(
    input: &Item,
    final_trivia: TokenStream,
    without_final_trivia: TokenStream,
) -> (r: TokenStream)
    ensures
        r.deep_view() == print_impl(
            input.ident@,
            input.generics.deep_view(),
            final_trivia.deep_view(),
            without_final_trivia.deep_view(),
        ),
{
    let ghost fv = final_trivia.deep_view();
    let ghost wv = without_final_trivia.deep_view();
    let mut path = emit_crate_types();
    push_colon2(&mut path);
    push_ident(&mut path, "Print");
    assert(path.deep_view() =~= print_trait());
    let mut r = emit_impl_header(path, &input.ident, &input.generics);
    let ghost hv = r.deep_view();
    push_open(&mut r, Delimiter::Brace);
    append(&mut r, emit_print_method("print_final_trivia", final_trivia));
    append(&mut r, emit_print_method("print_without_final_trivia", without_final_trivia));
    push_close(&mut r, Delimiter::Brace);
    assert(r.deep_view() =~= hv + group(
        Delimiter::Brace,
        print_method("print_final_trivia"@, fv) + print_method("print_without_final_trivia"@, wv),
    ));
    r
}

/// The `Print` derive: an impl of `crate::types::Print` for the item.
pub fn generate(input: &Item) -> (r: TokenStream)
    requires
        print_supported(*input),
    ensures
        r.deep_view() == print_tokens(*input),
{
    match &input.data {
        Data::Struct(data_struct) => struct_impl::generate(input, data_struct),
        Data::Enum(data_enum) => enum_impl::generate(input, data_enum),
        Data::Union => error(UNION),
    }
}

proof fn lemma_wb_print_impl(name: Seq<char>, generics: Seq<TokenView>, ft: Seq<TokenView>, wft: Seq<TokenView>)
    requires
        well_bracketed(generics),
        well_bracketed(ft),
        well_bracketed(wft),
    ensures
        well_bracketed(print_impl(name, generics, ft, wft)),
{
    broadcast use group_well_bracketed;
    lemma_wb_crate_types();
    assert(well_bracketed(colon2()));
    assert(well_bracketed(rarrow()));
    assert(well_bracketed(print_trait()));
    lemma_wb_impl_header(print_trait(), name, generics);
    assert(well_bracketed(print_method("print_final_trivia"@, ft)));
    assert(well_bracketed(print_method("print_without_final_trivia"@, wft)));
}

/// Whatever the supported item, the code of the `Print` derive opens and
/// closes its groups properly, given that the item's generic parameters do.
pub proof fn law_print_well_bracketed(input: Item)
    requires
        print_supported(input),
        well_bracketed(input.generics.deep_view()),
    ensures
        well_bracketed(print_tokens(input)),
{
    broadcast use group_well_bracketed;
    match input.data {
        Data::Struct(s) => {
            lemma_wb_struct_data(s);
            lemma_wb_bodies(struct_data(s));
            lemma_wb_print_impl(
                input.ident@,
                input.generics.deep_view(),
                utils::print_final_trivia_body(struct_data(s)),
                utils::print_without_final_trivia_body(struct_data(s)),
            );
        },
        Data::Enum(e) => {
            lemma_wb_enum_matches(e);
            lemma_wb_print_impl(
                input.ident@,
                input.generics.deep_view(),
                enum_impl::match_self(enum_impl::final_trivia_arms(enum_impl::entries(e.variants@))),
                enum_impl::match_self(enum_impl::without_final_trivia_arms(enum_impl::entries(e.variants@))),
            );
        },
        Data::Union => {
            assert(well_bracketed(error_tokens(UNION@)));
        },
    }
}

} // verus!
