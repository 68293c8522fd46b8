//! The `range_or` attribute and the fragments shared by the `Range` derive.
use vstd::prelude::*;
use crate::brackets::{group_well_bracketed, well_bracketed};
use crate::input::{opt_view, AttrMeta, FieldAttribute, ItemField, FieldsNamed, FieldsUnnamed};
use crate::tokens::{
    alone, append, colon2, decimal, error, error_tokens, joint, group, id, push_close, push_colon2, push_ident,
    push_ident_string, push_open, push_punct, push_usize_literal, usize_literal_text, Delimiter,
    TokenStream, TokenView,
};

verus! {

/// The message of the error for a struct without items.
pub const STRUCT_WITHOUT_ITEMS: &'static str = "Structs passed to `#[Derive(Range)]` must have at least one item.";

/// The message of the error for a `range_or` attribute whose value is not a string literal.
pub const FALLBACK_NOT_STRING: &'static str = "`range_or` field must be a string literal.";

// ---------------------------------------------------------------------------
// The `range_or` attribute.

/// `a` is a `range_or` attribute.
pub open spec fn is_range_or(a: FieldAttribute) -> bool {
    a.path_ident matches Some(p) && p@ == "range_or"@
}

/// Some attribute in `attrs` is a `range_or` attribute.
pub open spec fn has_range_or(attrs: Seq<FieldAttribute>) -> bool {
    exists|i: int| 0 <= i < attrs.len() && is_range_or(#[trigger] attrs[i])
}

/// The value of the last `range_or` attribute in `attrs` that carries a string literal.
pub open spec fn fallback_of(attrs: Seq<FieldAttribute>) -> Option<Seq<char>>
    decreases attrs.len(),
{
    if attrs.len() == 0 {
        None
    } else if is_range_or(attrs.last()) && attrs.last().meta is NameValueStr {
        Some(attrs.last().meta->NameValueStr_0@)
    } else {
        fallback_of(attrs.drop_last())
    }
}

/// The field has a `range_or` attribute, but none of them carries a string literal.
pub open spec fn bad_fallback(f: ItemField) -> bool {
    has_range_or(f.attrs@) && fallback_of(f.attrs@) is None
}

/// Whether `field` has a `range_or` attribute, and the field named by the last
/// such attribute that carries a string literal.
pub fn get_fallback(field: &ItemField) -> (r: (bool, Option<String>))
    ensures
        r.0 == has_range_or(field.attrs@),
        opt_view(r.1) == fallback_of(field.attrs@),
{
    let mut fallback_field: Option<String> = None;
    let mut found_attribute = false;
    let key: String = "range_or".to_owned();
    let n = field.attrs.len();
    let mut i: usize = 0;
    while i < n
        invariant
            n == field.attrs@.len(),
            i <= n,
            key@ == "range_or"@,
            found_attribute == has_range_or(field.attrs@.take(i as int)),
            opt_view(fallback_field) == fallback_of(field.attrs@.take(i as int)),
        decreases n - i,
    {
        let attr = &field.attrs[i];
        let ghost prefix = field.attrs@.take(i as int);
        let ghost next = field.attrs@.take(i + 1);
        assert(next.drop_last() =~= prefix);
        assert(next.last() == *attr);
        let is_key = match &attr.path_ident {
            Some(p) => *p == key,
            None => false,
        };
        if is_key {
            found_attribute = true;
            assert(next[i as int] == *attr);
            match &attr.meta {
                AttrMeta::NameValueStr(v) => {
                    fallback_field = Some(v.clone());
                },
                _ => {},
            }
        } else {
            assert forall|j: int| 0 <= j < next.len() && is_range_or(#[trigger] next[j]) implies
                0 <= j < prefix.len() && is_range_or(prefix[j]) by {
                if j == i {
                    assert(next[j] == *attr);
                }
            }
        }
        i = i + 1;
    }
    assert(field.attrs@.take(n as int) =~= field.attrs@);
    (found_attribute, fallback_field)
}

// ---------------------------------------------------------------------------
// Fragments.

/// `<recv>.get_range()`
pub open spec fn get_range_call(recv: Seq<TokenView>) -> Seq<TokenView> {
    recv + seq![alone('.'), id("get_range"@)] + group(Delimiter::Parenthesis, seq![])
}

/// `<recv>.<member>`
pub open spec fn member(recv: Seq<char>, name: Seq<char>) -> Seq<TokenView> {
    seq![id(recv), alone('.'), id(name)]
}

/// `{ if let Some(item) = <scrutinee> { item.get_range() } else { <fallback>.get_range() } }`
pub open spec fn fallback_block(scrutinee: Seq<TokenView>, fallback: Seq<TokenView>) -> Seq<TokenView> {
    group(
        Delimiter::Brace,
        seq![id("if"@), id("let"@), id("Some"@)] + group(Delimiter::Parenthesis, seq![id("item"@)])
            + seq![alone('=')] + scrutinee
            + group(Delimiter::Brace, get_range_call(seq![id("item"@)]))
            + seq![id("else"@)]
            + group(Delimiter::Brace, get_range_call(fallback)),
    )
}

/// `<prefix>::Range::new(<a>?.start, <b>?.end,)`
pub open spec fn range_new(prefix: Seq<TokenView>, a: Seq<TokenView>, b: Seq<TokenView>) -> Seq<TokenView> {
    prefix + colon2() + seq![id("Range"@)] + colon2() + seq![id("new"@)] + group(
        Delimiter::Parenthesis,
        a + seq![alone('?'), alone('.'), id("start"@), alone(',')] + b + seq![
            alone('?'),
            alone('.'),
            id("end"@),
            alone(','),
        ],
    )
}

/// `crate::types`
pub open spec fn crate_types() -> Seq<TokenView> {
    seq![id("crate"@)] + colon2() + seq![id("types"@)]
}

/// `Ok(<inner>)`
pub open spec fn ok(inner: Seq<TokenView>) -> Seq<TokenView> {
    seq![id("Ok"@)] + group(Delimiter::Parenthesis, inner)
}

/// The tokens of `<recv>.get_range()`.
pub fn emit_get_range_call(recv: TokenStream) -> (r: TokenStream)
    ensures
        r.deep_view() == get_range_call(recv.deep_view()),
{
    let ghost rv = recv.deep_view();
    let mut r = recv;
    push_punct(&mut r, '.', false);
    push_ident(&mut r, "get_range");
    push_open(&mut r, Delimiter::Parenthesis);
    push_close(&mut r, Delimiter::Parenthesis);
    assert(r.deep_view() =~= get_range_call(rv));
    r
}

/// The tokens of `<recv>.<name>`.
pub fn emit_member(recv: &str, name: &String) -> (r: TokenStream)
    ensures
        r.deep_view() == member(recv@, name@),
{
    let mut r: TokenStream = Vec::new();
    push_ident(&mut r, recv);
    push_punct(&mut r, '.', false);
    push_ident_string(&mut r, name);
    assert(r.deep_view() =~= member(recv@, name@));
    r
}

/// The tokens of `{ if let Some(item) = <scrutinee> { item.get_range() } else { <fallback>.get_range() } }`.
pub fn emit_fallback_block(scrutinee: TokenStream, fallback: TokenStream) -> (r: TokenStream)
    ensures
        r.deep_view() == fallback_block(scrutinee.deep_view(), fallback.deep_view()),
{
    let ghost sv = scrutinee.deep_view();
    let ghost fv = fallback.deep_view();
    let mut item: TokenStream = Vec::new();
    push_ident(&mut item, "item");
    let mut r: TokenStream = Vec::new();
    push_open(&mut r, Delimiter::Brace);
    push_ident(&mut r, "if");
    push_ident(&mut r, "let");
    push_ident(&mut r, "Some");
    push_open(&mut r, Delimiter::Parenthesis);
    push_ident(&mut r, "item");
    push_close(&mut r, Delimiter::Parenthesis);
    push_punct(&mut r, '=', false);
    append(&mut r, scrutinee);
    push_open(&mut r, Delimiter::Brace);
    append(&mut r, emit_get_range_call(item));
    push_close(&mut r, Delimiter::Brace);
    push_ident(&mut r, "else");
    push_open(&mut r, Delimiter::Brace);
    append(&mut r, emit_get_range_call(fallback));
    push_close(&mut r, Delimiter::Brace);
    push_close(&mut r, Delimiter::Brace);
    assert(r.deep_view() =~= fallback_block(sv, fv));
    r
}

/// The tokens of `<prefix>::Range::new(<a>?.start, <b>?.end,)`.
pub fn emit_range_new(prefix: TokenStream, a: TokenStream, b: TokenStream) -> (r: TokenStream)
    ensures
        r.deep_view() == range_new(prefix.deep_view(), a.deep_view(), b.deep_view()),
{
    let ghost pv = prefix.deep_view();
    let ghost av = a.deep_view();
    let ghost bv = b.deep_view();
    let mut r = prefix;
    push_colon2(&mut r);
    push_ident(&mut r, "Range");
    push_colon2(&mut r);
    push_ident(&mut r, "new");
    push_open(&mut r, Delimiter::Parenthesis);
    append(&mut r, a);
    push_punct(&mut r, '?', false);
    push_punct(&mut r, '.', false);
    push_ident(&mut r, "start");
    push_punct(&mut r, ',', false);
    append(&mut r, b);
    push_punct(&mut r, '?', false);
    push_punct(&mut r, '.', false);
    push_ident(&mut r, "end");
    push_punct(&mut r, ',', false);
    push_close(&mut r, Delimiter::Parenthesis);
    assert(r.deep_view() =~= range_new(pv, av, bv));
    r
}

/// The tokens of `crate::types`.
pub fn emit_crate_types() -> (r: TokenStream)
    ensures
        r.deep_view() == crate_types(),
{
    let mut r: TokenStream = Vec::new();
    push_ident(&mut r, "crate");
    push_colon2(&mut r);
    push_ident(&mut r, "types");
    assert(r.deep_view() =~= crate_types());
    r
}

/// The tokens of `Ok(<inner>)`.
pub fn emit_ok(inner: TokenStream) -> (r: TokenStream)
    ensures
        r.deep_view() == ok(inner.deep_view()),
{
    let ghost iv = inner.deep_view();
    let mut r: TokenStream = Vec::new();
    push_ident(&mut r, "Ok");
    push_open(&mut r, Delimiter::Parenthesis);
    append(&mut r, inner);
    push_close(&mut r, Delimiter::Parenthesis);
    assert(r.deep_view() =~= ok(iv));
    r
}

// ---------------------------------------------------------------------------
// Bodies that read the fields through a receiver (`self` or a named binding).

/// The range of field `name` of `recv`, falling back to field `fb` of `recv`
/// when the first is `None`.
pub open spec fn receiver_member_body(recv: Seq<char>, name: Seq<char>, fb: Option<Seq<char>>) -> Seq<TokenView> {
    match fb {
        Some(f) => fallback_block(seq![alone('&')] + member(recv, name), member(recv, f)),
        None => get_range_call(member(recv, name)),
    }
}

/// The body of `get_range` for named fields read through `recv`: the range of
/// the only field, or from the start of the first field's range to the end of
/// the last field's range; or the error that the first offending field gives.
pub open spec fn receiver_named_tokens(recv: Seq<char>, fields: Seq<ItemField>) -> Seq<TokenView> {
    if fields.len() == 0 || fields[0].ident is None {
        error_tokens(STRUCT_WITHOUT_ITEMS@)
    } else if bad_fallback(fields[0]) {
        error_tokens(FALLBACK_NOT_STRING@)
    } else {
        let first = receiver_member_body(recv, fields[0].ident.unwrap()@, fallback_of(fields[0].attrs@));
        if fields.len() == 1 {
            first
        } else if fields.last().ident is None {
            error_tokens(STRUCT_WITHOUT_ITEMS@)
        } else if bad_fallback(fields.last()) {
            error_tokens(FALLBACK_NOT_STRING@)
        } else {
            ok(
                range_new(
                    crate_types(),
                    first,
                    receiver_member_body(recv, fields.last().ident.unwrap()@, fallback_of(fields.last().attrs@)),
                ),
            )
        }
    }
}

/// `<recv>.<index>.get_range()`, with the index written as `usize_literal_text(index, suffixed)`.
pub open spec fn receiver_index_call(recv: Seq<char>, index: nat, suffixed: bool) -> Seq<TokenView> {
    get_range_call(seq![id(recv), alone('.'), TokenView::Literal(usize_literal_text(index, suffixed))])
}

/// The body of `get_range` for `count` positional fields read through `recv`.
pub open spec fn receiver_unnamed_tokens(recv: Seq<char>, count: nat) -> Seq<TokenView> {
    if count == 1 {
        receiver_index_call(recv, 0, false)
    } else {
        ok(range_new(crate_types(), receiver_index_call(recv, 0, false), receiver_index_call(recv, (count - 1) as nat, true)))
    }
}

/// The tokens of the range of field `name` of `recv`, with its fallback field.
pub fn emit_receiver_member_body(recv: &str, name: &String, fb: Option<String>) -> (r: TokenStream)
    ensures
        r.deep_view() == receiver_member_body(recv@, name@, opt_view(fb)),
{
    match fb {
        Some(f) => {
            let mut scrutinee: TokenStream = Vec::new();
            push_punct(&mut scrutinee, '&', false);
            append(&mut scrutinee, emit_member(recv, name));
            emit_fallback_block(scrutinee, emit_member(recv, &f))
        },
        None => emit_get_range_call(emit_member(recv, name)),
    }
}

/// The body for named fields read through `recv`.
pub fn receiver_named(fields: &FieldsNamed, recv: &str) -> (r: TokenStream)
    ensures
        r.deep_view() == receiver_named_tokens(recv@, fields.named@),
{
    let n = fields.named.len();
    if n == 0 {
        return error(STRUCT_WITHOUT_ITEMS);
    }
    let first = &fields.named[0];
    let first_name = match &first.ident {
        Some(name) => name,
        None => {
            return error(STRUCT_WITHOUT_ITEMS);
        },
    };
    let (found, first_fallback) = get_fallback(first);
    if found && first_fallback.is_none() {
        return error(FALLBACK_NOT_STRING);
    }
    let first_body = emit_receiver_member_body(recv, first_name, first_fallback);
    if n == 1 {
        first_body
    } else {
        let last = &fields.named[n - 1];
        let last_name = match &last.ident {
            Some(name) => name,
            None => {
                return error(STRUCT_WITHOUT_ITEMS);
            },
        };
        let (found, last_fallback) = get_fallback(last);
        if found && last_fallback.is_none() {
            return error(FALLBACK_NOT_STRING);
        }
        let last_body = emit_receiver_member_body(recv, last_name, last_fallback);
        emit_ok(emit_range_new(emit_crate_types(), first_body, last_body))
    }
}

/// The tokens of `<recv>.<index>.get_range()`.
pub fn emit_receiver_index_call(recv: &str, index: usize, suffixed: bool) -> (r: TokenStream)
    ensures
        r.deep_view() == receiver_index_call(recv@, index as nat, suffixed),
{
    let mut target: TokenStream = Vec::new();
    push_ident(&mut target, recv);
    push_punct(&mut target, '.', false);
    push_usize_literal(&mut target, index, suffixed);
    let ghost tv = target.deep_view();
    assert(tv =~= seq![id(recv@), alone('.'), TokenView::Literal(usize_literal_text(index as nat, suffixed))]);
    emit_get_range_call(target)
}

/// The body for positional fields read through `recv`.
pub fn receiver_unnamed(fields: &FieldsUnnamed, recv: &str) -> (r: TokenStream)
    requires
        fields.count > 0,
    ensures
        r.deep_view() == receiver_unnamed_tokens(recv@, fields.count as nat),
{
    let len = fields.count;
    if len == 1 {
        emit_receiver_index_call(recv, 0, false)
    } else {
        let last = len - 1;
        emit_ok(
            emit_range_new(
                emit_crate_types(),
                emit_receiver_index_call(recv, 0, false),
                emit_receiver_index_call(recv, last, true),
            ),
        )
    }
}

/// The body of `get_range` for named fields read through the binding `indexer_name`.
pub fn named(fields: &FieldsNamed, indexer_name: &str) -> (r: TokenStream)
    ensures
        r.deep_view() == receiver_named_tokens(indexer_name@, fields.named@),
{
    receiver_named(fields, indexer_name)
}

/// The body of `get_range` for positional fields read through the binding `indexer_name`.
///
/// The last index is `count - 1`, which overflows for no fields (a panic
/// where overflow is checked, a wrapped index where it is not): that input is left out.
pub fn unnamed(fields: &FieldsUnnamed, indexer_name: &str) -> (r: TokenStream)
    requires
        fields.count > 0,
    ensures
        r.deep_view() == receiver_unnamed_tokens(indexer_name@, fields.count as nat),
{
    receiver_unnamed(fields, indexer_name)
}

// ---------------------------------------------------------------------------
// Laws.

/// The range of field `name` of `recv` when the field has no fallback:
/// `<recv>.<name>.get_range()`.
pub proof fn law_member_without_fallback(recv: Seq<char>, name: Seq<char>)
    ensures
        receiver_member_body(recv, name, None) == seq![
            id(recv),
            alone('.'),
            id(name),
            alone('.'),
            id("get_range"@),
            TokenView::Open(Delimiter::Parenthesis),
            TokenView::Close(Delimiter::Parenthesis),
        ],
{
    assert(receiver_member_body(recv, name, None) =~= seq![
        id(recv),
        alone('.'),
        id(name),
        alone('.'),
        id("get_range"@),
        TokenView::Open(Delimiter::Parenthesis),
        TokenView::Close(Delimiter::Parenthesis),
    ]);
}

/// The range of field `name` of `recv` with fallback field `f`:
/// `{ if let Some(item) = &<recv>.<name> { item.get_range() } else { <recv>.<f>.get_range() } }`.
pub proof fn law_member_with_fallback(recv: Seq<char>, name: Seq<char>, f: Seq<char>)
    ensures
        receiver_member_body(recv, name, Some(f)) == seq![
            TokenView::Open(Delimiter::Brace),
            id("if"@),
            id("let"@),
            id("Some"@),
            TokenView::Open(Delimiter::Parenthesis),
            id("item"@),
            TokenView::Close(Delimiter::Parenthesis),
            alone('='),
            alone('&'),
            id(recv),
            alone('.'),
            id(name),
            TokenView::Open(Delimiter::Brace),
            id("item"@),
            alone('.'),
            id("get_range"@),
            TokenView::Open(Delimiter::Parenthesis),
            TokenView::Close(Delimiter::Parenthesis),
            TokenView::Close(Delimiter::Brace),
            id("else"@),
            TokenView::Open(Delimiter::Brace),
            id(recv),
            alone('.'),
            id(f),
            alone('.'),
            id("get_range"@),
            TokenView::Open(Delimiter::Parenthesis),
            TokenView::Close(Delimiter::Parenthesis),
            TokenView::Close(Delimiter::Brace),
            TokenView::Close(Delimiter::Brace),
        ],
{
    assert(receiver_member_body(recv, name, Some(f)) =~= seq![
        TokenView::Open(Delimiter::Brace),
        id("if"@),
        id("let"@),
        id("Some"@),
        TokenView::Open(Delimiter::Parenthesis),
        id("item"@),
        TokenView::Close(Delimiter::Parenthesis),
        alone('='),
        alone('&'),
        id(recv),
        alone('.'),
        id(name),
        TokenView::Open(Delimiter::Brace),
        id("item"@),
        alone('.'),
        id("get_range"@),
        TokenView::Open(Delimiter::Parenthesis),
        TokenView::Close(Delimiter::Parenthesis),
        TokenView::Close(Delimiter::Brace),
        id("else"@),
        TokenView::Open(Delimiter::Brace),
        id(recv),
        alone('.'),
        id(f),
        alone('.'),
        id("get_range"@),
        TokenView::Open(Delimiter::Parenthesis),
        TokenView::Close(Delimiter::Parenthesis),
        TokenView::Close(Delimiter::Brace),
        TokenView::Close(Delimiter::Brace),
    ]);
}

/// With two or more named fields, the first and last of which have names and
/// no bad `range_or`, the body spans from the start of the first field's range
/// to the end of the last field's range:
/// `Ok(crate::types::Range::new(<first>?.start, <last>?.end,))`, each field's
/// range read through `recv` with its fallback.
pub proof fn law_named_spans_first_to_last(recv: Seq<char>, fields: Seq<ItemField>)
    requires
        fields.len() >= 2,
        fields[0].ident is Some,
        fields.last().ident is Some,
        !bad_fallback(fields[0]),
        !bad_fallback(fields.last()),
    ensures
        receiver_named_tokens(recv, fields) == seq![
            id("Ok"@),
            TokenView::Open(Delimiter::Parenthesis),
            id("crate"@),
            joint(':'),
            alone(':'),
            id("types"@),
            joint(':'),
            alone(':'),
            id("Range"@),
            joint(':'),
            alone(':'),
            id("new"@),
            TokenView::Open(Delimiter::Parenthesis),
        ] + receiver_member_body(recv, fields[0].ident.unwrap()@, fallback_of(fields[0].attrs@))
            + seq![alone('?'), alone('.'), id("start"@), alone(',')] + receiver_member_body(
            recv,
            fields.last().ident.unwrap()@,
            fallback_of(fields.last().attrs@),
        ) + seq![
            alone('?'),
            alone('.'),
            id("end"@),
            alone(','),
            TokenView::Close(Delimiter::Parenthesis),
            TokenView::Close(Delimiter::Parenthesis),
        ],
{
    let first = receiver_member_body(recv, fields[0].ident.unwrap()@, fallback_of(fields[0].attrs@));
    let last = receiver_member_body(recv, fields.last().ident.unwrap()@, fallback_of(fields.last().attrs@));
    assert(receiver_named_tokens(recv, fields) =~= seq![
        id("Ok"@),
        TokenView::Open(Delimiter::Parenthesis),
        id("crate"@),
        joint(':'),
        alone(':'),
        id("types"@),
        joint(':'),
        alone(':'),
        id("Range"@),
        joint(':'),
        alone(':'),
        id("new"@),
        TokenView::Open(Delimiter::Parenthesis),
    ] + first + seq![alone('?'), alone('.'), id("start"@), alone(',')] + last + seq![
        alone('?'),
        alone('.'),
        id("end"@),
        alone(','),
        TokenView::Close(Delimiter::Parenthesis),
        TokenView::Close(Delimiter::Parenthesis),
    ]);
}

/// With one positional field the body is `<recv>.0.get_range()`; with two or
/// more it spans from position 0 to the last position `count - 1`:
/// `Ok(crate::types::Range::new(<recv>.0.get_range()?.start, <recv>.<count - 1>usize.get_range()?.end,))`.
pub proof fn law_unnamed_spans_first_to_last(recv: Seq<char>, count: nat)
    requires
        count >= 1,
    ensures
        count == 1 ==> receiver_unnamed_tokens(recv, count) == seq![
            id(recv),
            alone('.'),
            TokenView::Literal(seq!['0']),
            alone('.'),
            id("get_range"@),
            TokenView::Open(Delimiter::Parenthesis),
            TokenView::Close(Delimiter::Parenthesis),
        ],
        count >= 2 ==> receiver_unnamed_tokens(recv, count) == seq![
            id("Ok"@),
            TokenView::Open(Delimiter::Parenthesis),
            id("crate"@),
            joint(':'),
            alone(':'),
            id("types"@),
            joint(':'),
            alone(':'),
            id("Range"@),
            joint(':'),
            alone(':'),
            id("new"@),
            TokenView::Open(Delimiter::Parenthesis),
            id(recv),
            alone('.'),
            TokenView::Literal(seq!['0']),
            alone('.'),
            id("get_range"@),
            TokenView::Open(Delimiter::Parenthesis),
            TokenView::Close(Delimiter::Parenthesis),
            alone('?'),
            alone('.'),
            id("start"@),
            alone(','),
            id(recv),
            alone('.'),
            TokenView::Literal(decimal((count - 1) as nat) + "usize"@),
            alone('.'),
            id("get_range"@),
            TokenView::Open(Delimiter::Parenthesis),
            TokenView::Close(Delimiter::Parenthesis),
            alone('?'),
            alone('.'),
            id("end"@),
            alone(','),
            TokenView::Close(Delimiter::Parenthesis),
            TokenView::Close(Delimiter::Parenthesis),
        ],
{
    assert(decimal(0) =~= seq!['0']);
    if count == 1 {
        assert(receiver_unnamed_tokens(recv, count) =~= seq![
            id(recv),
            alone('.'),
            TokenView::Literal(seq!['0']),
            alone('.'),
            id("get_range"@),
            TokenView::Open(Delimiter::Parenthesis),
            TokenView::Close(Delimiter::Parenthesis),
        ]);
    } else {
        assert(receiver_unnamed_tokens(recv, count) =~= seq![
            id("Ok"@),
            TokenView::Open(Delimiter::Parenthesis),
            id("crate"@),
            joint(':'),
            alone(':'),
            id("types"@),
            joint(':'),
            alone(':'),
            id("Range"@),
            joint(':'),
            alone(':'),
            id("new"@),
            TokenView::Open(Delimiter::Parenthesis),
            id(recv),
            alone('.'),
            TokenView::Literal(seq!['0']),
            alone('.'),
            id("get_range"@),
            TokenView::Open(Delimiter::Parenthesis),
            TokenView::Close(Delimiter::Parenthesis),
            alone('?'),
            alone('.'),
            id("start"@),
            alone(','),
            id(recv),
            alone('.'),
            TokenView::Literal(decimal((count - 1) as nat) + "usize"@),
            alone('.'),
            id("get_range"@),
            TokenView::Open(Delimiter::Parenthesis),
            TokenView::Close(Delimiter::Parenthesis),
            alone('?'),
            alone('.'),
            id("end"@),
            alone(','),
            TokenView::Close(Delimiter::Parenthesis),
            TokenView::Close(Delimiter::Parenthesis),
        ]);
    }
}

// ---------------------------------------------------------------------------
// Bracketing.

proof fn lemma_wb_get_range_call(a: Seq<TokenView>)
    requires
        well_bracketed(a),
    ensures
        well_bracketed(get_range_call(a)),
{
    broadcast use group_well_bracketed;
    assert(well_bracketed(group(Delimiter::Parenthesis, seq![])));
}

proof fn lemma_wb_range_new(p: Seq<TokenView>, a: Seq<TokenView>, b: Seq<TokenView>)
    requires
        well_bracketed(p),
        well_bracketed(a),
        well_bracketed(b),
    ensures
        well_bracketed(range_new(p, a, b)),
        well_bracketed(ok(range_new(p, a, b))),
{
    broadcast use group_well_bracketed;
    assert(well_bracketed(colon2()));
}

proof fn lemma_wb_fallback_block(a: Seq<TokenView>, b: Seq<TokenView>)
    requires
        well_bracketed(a),
        well_bracketed(b),
    ensures
        well_bracketed(fallback_block(a, b)),
{
    broadcast use group_well_bracketed;
    lemma_wb_get_range_call(seq![id("item"@)]);
    lemma_wb_get_range_call(b);
    assert(well_bracketed(group(Delimiter::Parenthesis, seq![id("item"@)])));
}

/// `crate::types` is well-bracketed.
pub proof fn lemma_wb_crate_types()
    ensures
        well_bracketed(crate_types()),
{
    broadcast use group_well_bracketed;
    assert(well_bracketed(colon2()));
}

/// The range of a receiver's field, with its fallback, is well-bracketed.
pub proof fn lemma_wb_member_body(recv: Seq<char>, name: Seq<char>, fb: Option<Seq<char>>)
    ensures
        well_bracketed(receiver_member_body(recv, name, fb)),
{
    broadcast use group_well_bracketed;
    match fb {
        Some(f) => {
            assert(well_bracketed(seq![alone('&')] + member(recv, name)));
            lemma_wb_fallback_block(seq![alone('&')] + member(recv, name), member(recv, f));
        },
        None => {
            lemma_wb_get_range_call(member(recv, name));
        },
    }
}

/// The fragments of this module are well-bracketed when their parts are.
pub proof fn lemma_wb_fragments(p: Seq<TokenView>, a: Seq<TokenView>, b: Seq<TokenView>)
    requires
        well_bracketed(p),
        well_bracketed(a),
        well_bracketed(b),
    ensures
        well_bracketed(get_range_call(a)),
        well_bracketed(fallback_block(a, b)),
        well_bracketed(range_new(p, a, b)),
        well_bracketed(ok(range_new(p, a, b))),
{
    lemma_wb_get_range_call(a);
    lemma_wb_fallback_block(a, b);
    lemma_wb_range_new(p, a, b);
}

/// The body for named fields read through a receiver is well-bracketed.
pub proof fn lemma_wb_receiver_named(recv: Seq<char>, fields: Seq<ItemField>)
    ensures
        well_bracketed(receiver_named_tokens(recv, fields)),
{
    broadcast use group_well_bracketed;
    assert(well_bracketed(error_tokens(STRUCT_WITHOUT_ITEMS@)));
    assert(well_bracketed(error_tokens(FALLBACK_NOT_STRING@)));
    if fields.len() > 0 && fields[0].ident is Some {
        let first = receiver_member_body(recv, fields[0].ident.unwrap()@, fallback_of(fields[0].attrs@));
        lemma_wb_member_body(recv, fields[0].ident.unwrap()@, fallback_of(fields[0].attrs@));
        if fields.len() > 1 && fields.last().ident is Some {
            let last = receiver_member_body(recv, fields.last().ident.unwrap()@, fallback_of(fields.last().attrs@));
            lemma_wb_member_body(recv, fields.last().ident.unwrap()@, fallback_of(fields.last().attrs@));
            lemma_wb_crate_types();
            lemma_wb_range_new(crate_types(), first, last);
        }
    }
}

/// The body for positional fields read through a receiver is well-bracketed.
pub proof fn lemma_wb_receiver_unnamed(recv: Seq<char>, count: nat)
    ensures
        well_bracketed(receiver_unnamed_tokens(recv, count)),
{
    broadcast use group_well_bracketed;
    let t0 = seq![id(recv), alone('.'), TokenView::Literal(usize_literal_text(0, false))];
    let tl = seq![id(recv), alone('.'), TokenView::Literal(usize_literal_text((count - 1) as nat, true))];
    assert(well_bracketed(t0));
    assert(well_bracketed(tl));
    lemma_wb_get_range_call(t0);
    lemma_wb_get_range_call(tl);
    lemma_wb_crate_types();
    lemma_wb_range_new(crate_types(), get_range_call(t0), get_range_call(tl));
}

} // verus!
