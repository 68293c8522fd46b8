//! `Range` for enums.
use vstd::prelude::*;
use crate::brackets::{group_well_bracketed, well_bracketed};
use crate::input::{opt_view, DataEnum, ItemField, ItemFields, FieldsNamed, FieldsUnnamed, ItemVariant};
use crate::tokens::{
    alone, append, colon2, dot2, emit_self_path, self_path, error, error_tokens, fat_arrow, group, id, joint, push_close,
    push_colon2, push_ident, push_ident_string, push_open, push_punct, Delimiter, TokenStream,
    TokenView,
};
use super::utils::{
    bad_fallback, crate_types, emit_crate_types, emit_fallback_block, emit_get_range_call,
    emit_ok, emit_range_new, fallback_block, fallback_of, get_fallback, get_range_call,
    lemma_wb_crate_types, lemma_wb_fragments, ok, range_new, FALLBACK_NOT_STRING,
};

verus! {

/// The message of the error for a variant without items.
pub const VARIANT_WITHOUT_ITEMS: &'static str = "Enum variants passed to `#[Derive(Range)]` must have at least one item.";

/// `<pattern> => <body>,`
pub open spec fn arm(pattern: Seq<TokenView>, body: Seq<TokenView>) -> Seq<TokenView> {
    pattern + fat_arrow() + body + seq![alone(',')]
}

/// `<a>, <b>, ...` with a comma after each binding.
pub open spec fn bindings(refs: Seq<Seq<char>>) -> Seq<TokenView>
    decreases refs.len(),
{
    if refs.len() == 0 {
        seq![]
    } else {
        bindings(refs.drop_last()) + seq![id(refs.last()), alone(',')]
    }
}

/// `Self::<variant> { <refs>, .. }`
pub open spec fn named_pattern(variant: Seq<char>, refs: Seq<Seq<char>>) -> Seq<TokenView> {
    self_path(variant) + group(Delimiter::Brace, bindings(refs) + dot2())
}

/// The range of the binding `name`, falling back to the binding `fb` when the first is `None`.
pub open spec fn binding_body(name: Seq<char>, fb: Option<Seq<char>>) -> Seq<TokenView> {
    match fb {
        Some(f) => fallback_block(seq![id(name)], seq![id(f)]),
        None => get_range_call(seq![id(name)]),
    }
}

/// The bindings that the first field needs: the field and its fallback field.
pub open spec fn first_refs(name: Seq<char>, fb: Option<Seq<char>>) -> Seq<Seq<char>> {
    match fb {
        Some(f) => seq![name, f],
        None => seq![name],
    }
}

/// The bindings that the first and the last field need; the last field's
/// fallback is left out when it is the first field itself.
pub open spec fn all_refs(
    first: Seq<char>,
    first_fb: Option<Seq<char>>,
    last: Seq<char>,
    last_fb: Option<Seq<char>>,
) -> Seq<Seq<char>> {
    first_refs(first, first_fb).push(last) + match last_fb {
        Some(l) => if l != first { seq![l] } else { seq![] },
        None => seq![],
    }
}

/// The match arm for a variant with named fields.
pub open spec fn named_arm(variant: Seq<char>, fields: Seq<ItemField>) -> Seq<TokenView> {
    if fields.len() == 0 || fields[0].ident is None {
        error_tokens(VARIANT_WITHOUT_ITEMS@)
    } else if bad_fallback(fields[0]) {
        error_tokens(FALLBACK_NOT_STRING@)
    } else {
        let first = fields[0].ident.unwrap()@;
        let first_fb = fallback_of(fields[0].attrs@);
        if fields.len() == 1 {
            arm(named_pattern(variant, first_refs(first, first_fb)), binding_body(first, first_fb))
        } else if fields.last().ident is None {
            error_tokens(VARIANT_WITHOUT_ITEMS@)
        } else if bad_fallback(fields.last()) {
            error_tokens(FALLBACK_NOT_STRING@)
        } else {
            let last = fields.last().ident.unwrap()@;
            let last_fb = fallback_of(fields.last().attrs@);
            arm(
                named_pattern(variant, all_refs(first, first_fb, last, last_fb)),
                ok(range_new(seq![id("lsp_types"@)], binding_body(first, first_fb), binding_body(last, last_fb))),
            )
        }
    }
}

/// The match arm for a variant with `count` positional fields.
pub open spec fn unnamed_arm(variant: Seq<char>, count: nat) -> Seq<TokenView> {
    if count == 1 {
        arm(
            self_path(variant) + group(Delimiter::Parenthesis, seq![id("item"@)]),
            get_range_call(seq![id("item"@)]),
        )
    } else {
        arm(
            self_path(variant) + group(
                Delimiter::Parenthesis,
                seq![id("item1"@), alone(','), joint('.'), alone('.'), alone(','), id("item2"@)],
            ),
            range_new(seq![id("lsp_types"@)], get_range_call(seq![id("item1"@)]), get_range_call(seq![id("item2"@)])),
        )
    }
}

/// `crate::types::GetRangeError::ErrorVariant`
pub open spec fn error_variant_path() -> Seq<TokenView> {
    crate_types() + colon2() + seq![id("GetRangeError"@)] + colon2() + seq![id("ErrorVariant"@)]
}

/// The match arm for a unit variant: `Self::<variant> => Err(crate::types::GetRangeError::ErrorVariant),`
pub open spec fn unit_arm(variant: Seq<char>) -> Seq<TokenView> {
    arm(self_path(variant), seq![id("Err"@)] + group(Delimiter::Parenthesis, error_variant_path()))
}

/// The match arm for one variant.
pub open spec fn variant_arm(v: ItemVariant) -> Seq<TokenView> {
    match v.fields {
        ItemFields::Named(f) => named_arm(v.ident@, f.named@),
        ItemFields::Unnamed(f) => unnamed_arm(v.ident@, f.count as nat),
        ItemFields::Unit => unit_arm(v.ident@),
    }
}

/// The match arms for the variants, one after the other in declaration order.
pub open spec fn variant_arms(vs: Seq<ItemVariant>) -> Seq<TokenView>
    decreases vs.len(),
{
    if vs.len() == 0 {
        seq![]
    } else {
        variant_arms(vs.drop_last()) + variant_arm(vs.last())
    }
}

/// The body of `get_range` for an enum: `match self { <arms> }`.
pub open spec fn enum_body(data: DataEnum) -> Seq<TokenView> {
    seq![id("match"@), id("self"@)] + group(Delimiter::Brace, variant_arms(data.variants@))
}

/// The body of `get_range` for an enum: one match arm per variant.
pub fn generate(data: &DataEnum) -> (r: TokenStream)
    ensures
        r.deep_view() == enum_body(*data),
{
    let mut arms: TokenStream = Vec::new();
    let n = data.variants.len();
    let mut i: usize = 0;
    while i < n
        invariant
            n == data.variants@.len(),
            i <= n,
            arms.deep_view() == variant_arms(data.variants@.take(i as int)),
        decreases n - i,
    {
        let variant = &data.variants[i];
        let name = &variant.ident;
        let arm = match &variant.fields {
            ItemFields::Named(fields) => named(name, fields),
            ItemFields::Unnamed(fields) => unnamed(name, fields),
            ItemFields::Unit => emit_unit_arm(name),
        };
        assert(data.variants@.take(i + 1).drop_last() =~= data.variants@.take(i as int));
        append(&mut arms, arm);
        i = i + 1;
    }
    assert(data.variants@.take(n as int) =~= data.variants@);
    let mut r: TokenStream = Vec::new();
    push_ident(&mut r, "match");
    push_ident(&mut r, "self");
    push_open(&mut r, Delimiter::Brace);
    append(&mut r, arms);
    push_close(&mut r, Delimiter::Brace);
    assert(r.deep_view() =~= enum_body(*data));
    r
}

/// The tokens of `<pattern> => <body>,`.
fn emit_arm(pattern: TokenStream, body: TokenStream) -> (r: TokenStream)
    ensures
        r.deep_view() == arm(pattern.deep_view(), body.deep_view()),
{
    let ghost pv = pattern.deep_view();
    let ghost bv = body.deep_view();
    let mut r = pattern;
    push_punct(&mut r, '=', true);
    push_punct(&mut r, '>', false);
    append(&mut r, body);
    push_punct(&mut r, ',', false);
    assert(r.deep_view() =~= arm(pv, bv));
    r
}

/// The tokens of `Self::<variant> { <refs>, .. }`.
fn emit_named_pattern(variant: &String, refs: &Vec<String>) -> (r: TokenStream)
    ensures
        r.deep_view() == named_pattern(variant@, refs.deep_view()),
{
    let mut r = emit_self_path(variant);
    push_open(&mut r, Delimiter::Brace);
    let ghost opened = r.deep_view();
    let n = refs.len();
    let mut i: usize = 0;
    while i < n
        invariant
            n == refs.deep_view().len(),
            i <= n,
            r.deep_view() == opened + bindings(refs.deep_view().take(i as int)),
        decreases n - i,
    {
        push_ident_string(&mut r, &refs[i]);
        push_punct(&mut r, ',', false);
        assert(refs.deep_view().take(i + 1).drop_last() =~= refs.deep_view().take(i as int));
        assert(refs.deep_view().take(i + 1).last() == refs[i as int]@);
        assert(r.deep_view() =~= opened + bindings(refs.deep_view().take(i + 1)));
        i = i + 1;
    }
    assert(refs.deep_view().take(n as int) =~= refs.deep_view());
    push_punct(&mut r, '.', true);
    push_punct(&mut r, '.', false);
    push_close(&mut r, Delimiter::Brace);
    assert(r.deep_view() =~= named_pattern(variant@, refs.deep_view()));
    r
}

/// The tokens of the range of binding `name` with its fallback binding.
fn emit_binding_body(name: &String, fb: &Option<String>) -> (r: TokenStream)
    ensures
        r.deep_view() == binding_body(name@, opt_view(*fb)),
{
    let mut bound: TokenStream = Vec::new();
    push_ident_string(&mut bound, name);
    assert(bound.deep_view() =~= seq![id(name@)]);
    match fb {
        Some(f) => {
            let mut other: TokenStream = Vec::new();
            push_ident_string(&mut other, f);
            assert(other.deep_view() =~= seq![id(f@)]);
            emit_fallback_block(bound, other)
        },
        None => emit_get_range_call(bound),
    }
}

/// The tokens of the unit arm of `variant`.
fn emit_unit_arm(variant: &String) -> (r: TokenStream)
    ensures
        r.deep_view() == unit_arm(variant@),
{
    let mut body: TokenStream = Vec::new();
    push_ident(&mut body, "Err");
    push_open(&mut body, Delimiter::Parenthesis);
    append(&mut body, emit_crate_types());
    push_colon2(&mut body);
    push_ident(&mut body, "GetRangeError");
    push_colon2(&mut body);
    push_ident(&mut body, "ErrorVariant");
    push_close(&mut body, Delimiter::Parenthesis);
    assert(body.deep_view() =~= seq![id("Err"@)] + group(Delimiter::Parenthesis, error_variant_path()));
    emit_arm(emit_self_path(variant), body)
}

/// The match arm for a variant with named fields: the range of the only field,
/// or from the start of the first field's range to the end of the last one's.
pub fn named(name: &String, fields: &FieldsNamed) -> (r: TokenStream)
    ensures
        r.deep_view() == named_arm(name@, fields.named@),
{
    let n = fields.named.len();
    if n == 0 {
        return error(VARIANT_WITHOUT_ITEMS);
    }
    let first = &fields.named[0];
    let first_name = match &first.ident {
        Some(f) => f,
        None => {
            return error(VARIANT_WITHOUT_ITEMS);
        },
    };
    let (found, first_fallback) = get_fallback(first);
    if found && first_fallback.is_none() {
        return error(FALLBACK_NOT_STRING);
    }
    let first_body = emit_binding_body(first_name, &first_fallback);
    let mut referenced_fields: Vec<String> = Vec::new();
    referenced_fields.push(first_name.clone());
    match &first_fallback {
        Some(f) => referenced_fields.push(f.clone()),
        None => {},
    }
    let ghost fname = first_name@;
    let ghost ffb = opt_view(first_fallback);
    assert(referenced_fields.deep_view() =~= first_refs(fname, ffb));
    if n == 1 {
        emit_arm(emit_named_pattern(name, &referenced_fields), first_body)
    } else {
        let last = &fields.named[n - 1];
        let last_name = match &last.ident {
            Some(l) => l,
            None => {
                return error(VARIANT_WITHOUT_ITEMS);
            },
        };
        let (found, last_fallback) = get_fallback(last);
        if found && last_fallback.is_none() {
            return error(FALLBACK_NOT_STRING);
        }
        let last_body = emit_binding_body(last_name, &last_fallback);
        referenced_fields.push(last_name.clone());
        match &last_fallback {
            Some(l) => {
                if !(*l == *first_name) {
                    referenced_fields.push(l.clone());
                }
            },
            None => {},
        }
        assert(referenced_fields.deep_view() =~= all_refs(fname, ffb, last_name@, opt_view(last_fallback)));
        let mut prefix: TokenStream = Vec::new();
        push_ident(&mut prefix, "lsp_types");
        assert(prefix.deep_view() =~= seq![id("lsp_types"@)]);
        emit_arm(
            emit_named_pattern(name, &referenced_fields),
            emit_ok(emit_range_new(prefix, first_body, last_body)),
        )
    }
}

/// The match arm for a variant with positional fields.
pub fn unnamed(name: &String, fields: &FieldsUnnamed) -> (r: TokenStream)
    ensures
        r.deep_view() == unnamed_arm(name@, fields.count as nat),
{
    let mut pattern = emit_self_path(name);
    let ghost head = pattern.deep_view();
    if fields.count == 1 {
        push_open(&mut pattern, Delimiter::Parenthesis);
        push_ident(&mut pattern, "item");
        push_close(&mut pattern, Delimiter::Parenthesis);
        assert(pattern.deep_view() =~= head + group(Delimiter::Parenthesis, seq![id("item"@)]));
        let mut item: TokenStream = Vec::new();
        push_ident(&mut item, "item");
        assert(item.deep_view() =~= seq![id("item"@)]);
        emit_arm(pattern, emit_get_range_call(item))
    } else {
        push_open(&mut pattern, Delimiter::Parenthesis);
        push_ident(&mut pattern, "item1");
        push_punct(&mut pattern, ',', false);
        push_punct(&mut pattern, '.', true);
        push_punct(&mut pattern, '.', false);
        push_punct(&mut pattern, ',', false);
        push_ident(&mut pattern, "item2");
        push_close(&mut pattern, Delimiter::Parenthesis);
        assert(pattern.deep_view() =~= head + group(
            Delimiter::Parenthesis,
            seq![id("item1"@), alone(','), joint('.'), alone('.'), alone(','), id("item2"@)],
        ));
        let mut item1: TokenStream = Vec::new();
        push_ident(&mut item1, "item1");
        assert(item1.deep_view() =~= seq![id("item1"@)]);
        let mut item2: TokenStream = Vec::new();
        push_ident(&mut item2, "item2");
        assert(item2.deep_view() =~= seq![id("item2"@)]);
        let mut prefix: TokenStream = Vec::new();
        push_ident(&mut prefix, "lsp_types");
        assert(prefix.deep_view() =~= seq![id("lsp_types"@)]);
        emit_arm(
            pattern,
            emit_range_new(prefix, emit_get_range_call(item1), emit_get_range_call(item2)),
        )
    }
}

// ---------------------------------------------------------------------------
// Laws.

/// The arm of a tuple variant binds its one field as `item` when it has
/// exactly one; otherwise it binds the first and the last as `item1` and
/// `item2` and spans from the start of the first's range to the end of the
/// last's:
/// `Self::<variant>(item1, .., item2) => lsp_types::Range::new(item1.get_range()?.start, item2.get_range()?.end,),`.
pub proof fn law_unnamed_arm(variant: Seq<char>, count: nat)
    ensures
        count == 1 ==> unnamed_arm(variant, count) == seq![
            id("Self"@),
            joint(':'),
            alone(':'),
            id(variant),
            TokenView::Open(Delimiter::Parenthesis),
            id("item"@),
            TokenView::Close(Delimiter::Parenthesis),
            joint('='),
            alone('>'),
            id("item"@),
            alone('.'),
            id("get_range"@),
            TokenView::Open(Delimiter::Parenthesis),
            TokenView::Close(Delimiter::Parenthesis),
            alone(','),
        ],
        count != 1 ==> unnamed_arm(variant, count) == seq![
            id("Self"@),
            joint(':'),
            alone(':'),
            id(variant),
            TokenView::Open(Delimiter::Parenthesis),
            id("item1"@),
            alone(','),
            joint('.'),
            alone('.'),
            alone(','),
            id("item2"@),
            TokenView::Close(Delimiter::Parenthesis),
            joint('='),
            alone('>'),
            id("lsp_types"@),
            joint(':'),
            alone(':'),
            id("Range"@),
            joint(':'),
            alone(':'),
            id("new"@),
            TokenView::Open(Delimiter::Parenthesis),
            id("item1"@),
            alone('.'),
            id("get_range"@),
            TokenView::Open(Delimiter::Parenthesis),
            TokenView::Close(Delimiter::Parenthesis),
            alone('?'),
            alone('.'),
            id("start"@),
            alone(','),
            id("item2"@),
            alone('.'),
            id("get_range"@),
            TokenView::Open(Delimiter::Parenthesis),
            TokenView::Close(Delimiter::Parenthesis),
            alone('?'),
            alone('.'),
            id("end"@),
            alone(','),
            TokenView::Close(Delimiter::Parenthesis),
            alone(','),
        ],
{
    if count == 1 {
        assert(unnamed_arm(variant, count) =~= seq![
            id("Self"@),
            joint(':'),
            alone(':'),
            id(variant),
            TokenView::Open(Delimiter::Parenthesis),
            id("item"@),
            TokenView::Close(Delimiter::Parenthesis),
            joint('='),
            alone('>'),
            id("item"@),
            alone('.'),
            id("get_range"@),
            TokenView::Open(Delimiter::Parenthesis),
            TokenView::Close(Delimiter::Parenthesis),
            alone(','),
        ]);
    } else {
        assert(unnamed_arm(variant, count) =~= seq![
            id("Self"@),
            joint(':'),
            alone(':'),
            id(variant),
            TokenView::Open(Delimiter::Parenthesis),
            id("item1"@),
            alone(','),
            joint('.'),
            alone('.'),
            alone(','),
            id("item2"@),
            TokenView::Close(Delimiter::Parenthesis),
            joint('='),
            alone('>'),
            id("lsp_types"@),
            joint(':'),
            alone(':'),
            id("Range"@),
            joint(':'),
            alone(':'),
            id("new"@),
            TokenView::Open(Delimiter::Parenthesis),
            id("item1"@),
            alone('.'),
            id("get_range"@),
            TokenView::Open(Delimiter::Parenthesis),
            TokenView::Close(Delimiter::Parenthesis),
            alone('?'),
            alone('.'),
            id("start"@),
            alone(','),
            id("item2"@),
            alone('.'),
            id("get_range"@),
            TokenView::Open(Delimiter::Parenthesis),
            TokenView::Close(Delimiter::Parenthesis),
            alone('?'),
            alone('.'),
            id("end"@),
            alone(','),
            TokenView::Close(Delimiter::Parenthesis),
            alone(','),
        ]);
    }
}

// ---------------------------------------------------------------------------
// Bracketing.

proof fn lemma_wb_bindings(refs: Seq<Seq<char>>)
    ensures
        well_bracketed(bindings(refs)),
    decreases refs.len(),
{
    broadcast use group_well_bracketed;
    if refs.len() > 0 {
        lemma_wb_bindings(refs.drop_last());
        assert(well_bracketed(seq![id(refs.last()), alone(',')]));
    }
}

proof fn lemma_wb_binding_body(name: Seq<char>, fb: Option<Seq<char>>)
    ensures
        well_bracketed(binding_body(name, fb)),
{
    broadcast use group_well_bracketed;
    let e = Seq::<TokenView>::empty();
    match fb {
        Some(f) => lemma_wb_fragments(e, seq![id(name)], seq![id(f)]),
        None => lemma_wb_fragments(e, seq![id(name)], e),
    }
}

proof fn lemma_wb_arm(pattern: Seq<TokenView>, body: Seq<TokenView>)
    requires
        well_bracketed(pattern),
        well_bracketed(body),
    ensures
        well_bracketed(arm(pattern, body)),
{
    broadcast use group_well_bracketed;
    assert(well_bracketed(fat_arrow()));
}

proof fn lemma_wb_named_pattern(variant: Seq<char>, refs: Seq<Seq<char>>)
    ensures
        well_bracketed(named_pattern(variant, refs)),
{
    broadcast use group_well_bracketed;
    lemma_wb_bindings(refs);
    assert(well_bracketed(self_path(variant)));
    assert(well_bracketed(dot2()));
}

/// Each variant's arm is well-bracketed.
proof fn lemma_wb_variant_arm(v: ItemVariant)
    ensures
        well_bracketed(variant_arm(v)),
{
    broadcast use group_well_bracketed;
    let name = v.ident@;
    let e = Seq::<TokenView>::empty();
    let lsp = seq![id("lsp_types"@)];
    assert(well_bracketed(lsp));
    assert(well_bracketed(self_path(name)));
    match v.fields {
        ItemFields::Named(f) => {
            let fields = f.named@;
            assert(well_bracketed(error_tokens(VARIANT_WITHOUT_ITEMS@)));
            assert(well_bracketed(error_tokens(FALLBACK_NOT_STRING@)));
            if fields.len() > 0 && fields[0].ident is Some {
                let first = fields[0].ident.unwrap()@;
                let first_fb = fallback_of(fields[0].attrs@);
                lemma_wb_binding_body(first, first_fb);
                lemma_wb_named_pattern(name, first_refs(first, first_fb));
                lemma_wb_arm(named_pattern(name, first_refs(first, first_fb)), binding_body(first, first_fb));
                if fields.len() > 1 && fields.last().ident is Some {
                    let last = fields.last().ident.unwrap()@;
                    let last_fb = fallback_of(fields.last().attrs@);
                    lemma_wb_binding_body(last, last_fb);
                    lemma_wb_named_pattern(name, all_refs(first, first_fb, last, last_fb));
                    lemma_wb_fragments(lsp, binding_body(first, first_fb), binding_body(last, last_fb));
                    lemma_wb_arm(
                        named_pattern(name, all_refs(first, first_fb, last, last_fb)),
                        ok(range_new(lsp, binding_body(first, first_fb), binding_body(last, last_fb))),
                    );
                }
            }
        },
        ItemFields::Unnamed(f) => {
            let one = seq![id("item"@)];
            let two = seq![id("item1"@), alone(','), joint('.'), alone('.'), alone(','), id("item2"@)];
            assert(well_bracketed(one));
            assert(well_bracketed(two));
            assert(well_bracketed(seq![id("item1"@)]));
            assert(well_bracketed(seq![id("item2"@)]));
            lemma_wb_fragments(e, one, e);
            lemma_wb_fragments(e, seq![id("item1"@)], e);
            lemma_wb_fragments(e, seq![id("item2"@)], e);
            lemma_wb_fragments(lsp, get_range_call(seq![id("item1"@)]), get_range_call(seq![id("item2"@)]));
            lemma_wb_arm(self_path(name) + group(Delimiter::Parenthesis, one), get_range_call(one));
            lemma_wb_arm(
                self_path(name) + group(Delimiter::Parenthesis, two),
                range_new(lsp, get_range_call(seq![id("item1"@)]), get_range_call(seq![id("item2"@)])),
            );
        },
        ItemFields::Unit => {
            lemma_wb_crate_types();
            assert(well_bracketed(error_variant_path()));
            lemma_wb_arm(self_path(name), seq![id("Err"@)] + group(Delimiter::Parenthesis, error_variant_path()));
        },
    }
}

proof fn lemma_wb_variant_arms(vs: Seq<ItemVariant>)
    ensures
        well_bracketed(variant_arms(vs)),
    decreases vs.len(),
{
    broadcast use group_well_bracketed;
    if vs.len() > 0 {
        lemma_wb_variant_arms(vs.drop_last());
        lemma_wb_variant_arm(vs.last());
    }
}

/// The body of `get_range` for an enum is well-bracketed.
pub proof fn lemma_wb_enum_body(data: DataEnum)
    ensures
        well_bracketed(enum_body(data)),
{
    broadcast use group_well_bracketed;
    lemma_wb_variant_arms(data.variants@);
}

} // verus!
