//! `Print` for enums.
use vstd::prelude::*;
use crate::brackets::{group_well_bracketed, well_bracketed};
use crate::input::{all_named, DataEnum, Item, ItemField, ItemFields, FieldsNamed, FieldsUnnamed, ItemVariant};
use crate::tokens::{
    alone, append, copy_stream, extend, joint, decimal, law_decimal_injective, decimal_string, emit_self_path, fat_arrow, group, id,
    push_close, push_ident, push_ident_string, push_open, push_punct, push_str_literal,
    self_path, Delimiter, TokenStream, TokenView,
};
use super::utils::{
    generate_print_final_trivia, generate_print_without_final_trivia, print_final_trivia_body,
    print_without_final_trivia_body, split_names, all_wb, data_wb, lemma_wb_bodies, lemma_wb_split,
    law_final_receiver_is_last, law_prints_every_receiver_in_order, method_call, print_in_order,
};
use super::{emit_print_impl, error_data, print_impl, CodeData, CodeDataView};

verus! {

/// The message of the error for a variant without items.
pub const VARIANT_WITHOUT_ITEMS: &'static str = "Enum variants passed to `#[Derive(Print)]` must have at least one item.";

/// What a variant contributes to the two `match` expressions.
#[derive(Debug)]
pub enum Data {
    /// The bindings of the variant's fields, printed in turn.
    CodeData(CodeData),
    /// A complete match arm, the same in both expressions.
    MatchArm(TokenStream),
}

/// The mathematical value of a [`Data`].
pub enum DataView {
    CodeData(CodeDataView),
    MatchArm(Seq<TokenView>),
}

impl DeepView for Data {
    type V = DataView;

    open spec fn deep_view(&self) -> DataView {
        match self {
            Data::CodeData(d) => DataView::CodeData(d.deep_view()),
            Data::MatchArm(t) => DataView::MatchArm(t.deep_view()),
        }
    }
}

/// An entry of the table of arms, keyed by variant name.
///
/// The table is a `Vec` of entries whose names never repeat, which [`insert`]
/// keeps: inserting a name that is present replaces that entry in place, as a
/// map keyed by the name does. A `HashMap` keyed by the name would hand its
/// entries out in an order that varies from process to process, and a
/// contract could then only say that the arms come in some order; the table
/// fixes the order of first occurrence, which is one of those orders.
#[derive(Debug)]
pub struct Entry {
    pub name: String,
    pub data: Data,
    pub is_named: bool,
}

/// The mathematical value of an [`Entry`].
pub struct EntryView {
    pub name: Seq<char>,
    pub data: DataView,
    pub is_named: bool,
}

impl DeepView for Entry {
    type V = EntryView;

    open spec fn deep_view(&self) -> EntryView {
        EntryView { name: self.name@, data: self.data.deep_view(), is_named: self.is_named }
    }
}

/// Every variant's named fields are at least one and all have a name.
pub open spec fn enum_supported(data: DataEnum) -> bool {
    forall|i: int|
        0 <= i < data.variants@.len() ==> ((#[trigger] data.variants@[i]).fields matches ItemFields::Named(f)
            ==> f.named.len() > 0 && all_named(f.named@))
}

/// The binding of each named field, in order.
pub open spec fn binding_names(fields: Seq<ItemField>) -> Seq<Seq<TokenView>> {
    Seq::new(fields.len(), |i: int| seq![id(fields[i].ident.unwrap()@)])
}

/// The name `item<i>`.
pub open spec fn item_name(i: nat) -> Seq<char> {
    "item"@ + decimal(i)
}

/// The bindings `item0`, `item1`, ... of `count` positional fields.
pub open spec fn item_names(count: nat) -> Seq<Seq<TokenView>> {
    Seq::new(count, |i: int| seq![id(item_name(i as nat))])
}

/// The data of positional fields: their bindings, or an error when there are none.
pub open spec fn unnamed_data(count: nat) -> CodeDataView {
    if count == 0 {
        error_data(VARIANT_WITHOUT_ITEMS@)
    } else {
        split_names(item_names(count))
    }
}

/// `Self::<variant> => "".to_string(),`
pub open spec fn unit_arm(variant: Seq<char>) -> Seq<TokenView> {
    self_path(variant) + fat_arrow() + seq![TokenView::Str(seq![]), alone('.'), id("to_string"@)]
        + group(Delimiter::Parenthesis, seq![]) + seq![alone(',')]
}

/// What variant `v` contributes.
pub open spec fn variant_data(v: ItemVariant) -> DataView {
    match v.fields {
        ItemFields::Named(f) => DataView::CodeData(split_names(binding_names(f.named@))),
        ItemFields::Unnamed(f) => DataView::CodeData(unnamed_data(f.count as nat)),
        ItemFields::Unit => DataView::MatchArm(unit_arm(v.ident@)),
    }
}

/// The table entry of variant `v`.
pub open spec fn variant_entry(v: ItemVariant) -> EntryView {
    EntryView { name: v.ident@, data: variant_data(v), is_named: v.fields is Named }
}

/// `es` with `e` inserted under its name: it replaces the entry of that name
/// in place when there is one, and is added at the end otherwise.
pub open spec fn insert_entry(es: Seq<EntryView>, e: EntryView) -> Seq<EntryView> {
    if exists|k: int| 0 <= k < es.len() && (#[trigger] es[k]).name == e.name {
        let k = choose|k: int| 0 <= k < es.len() && (#[trigger] es[k]).name == e.name;
        es.update(k, e)
    } else {
        es.push(e)
    }
}

/// The table of arms after inserting every variant in turn.
pub open spec fn entries(vs: Seq<ItemVariant>) -> Seq<EntryView>
    decreases vs.len(),
{
    if vs.len() == 0 {
        seq![]
    } else {
        insert_entry(entries(vs.drop_last()), variant_entry(vs.last()))
    }
}

/// No name occurs twice in `es`.
pub open spec fn distinct_names(es: Seq<EntryView>) -> bool {
    forall|i: int, j: int| 0 <= i < j < es.len() ==> (#[trigger] es[i]).name != (#[trigger] es[j]).name
}

/// The bindings of an arm's pattern: the middle ones, then the first, then the last.
pub open spec fn pattern_names(d: CodeDataView) -> Seq<Seq<TokenView>> {
    d.middle.push(d.first) + match d.last {
        Some(l) => seq![l],
        None => seq![],
    }
}

/// Each element followed by a comma.
pub open spec fn comma_list(ns: Seq<Seq<TokenView>>) -> Seq<TokenView>
    decreases ns.len(),
{
    if ns.len() == 0 {
        seq![]
    } else {
        comma_list(ns.drop_last()) + ns.last() + seq![alone(',')]
    }
}

/// `Self::<variant> { <names>, }` or `Self::<variant>(<names>,)`.
pub open spec fn arm_pattern(variant: Seq<char>, d: CodeDataView, is_named: bool) -> Seq<TokenView> {
    self_path(variant) + group(
        if is_named { Delimiter::Brace } else { Delimiter::Parenthesis },
        comma_list(pattern_names(d)),
    )
}

/// The arm of `e` in `print_without_final_trivia`.
pub open spec fn without_final_trivia_arm(e: EntryView) -> Seq<TokenView> {
    match e.data {
        DataView::CodeData(d) => arm_pattern(e.name, d, e.is_named) + fat_arrow() + group(
            Delimiter::Brace,
            print_without_final_trivia_body(d),
        ),
        DataView::MatchArm(b) => b,
    }
}

/// The arm of `e` in `print_final_trivia`.
pub open spec fn final_trivia_arm(e: EntryView) -> Seq<TokenView> {
    match e.data {
        DataView::CodeData(d) => arm_pattern(e.name, d, e.is_named) + fat_arrow() + group(
            Delimiter::Brace,
            print_final_trivia_body(d),
        ),
        DataView::MatchArm(b) => b,
    }
}

/// The arms of `print_without_final_trivia`, in table order.
pub open spec fn without_final_trivia_arms(es: Seq<EntryView>) -> Seq<TokenView>
    decreases es.len(),
{
    if es.len() == 0 {
        seq![]
    } else {
        without_final_trivia_arms(es.drop_last()) + without_final_trivia_arm(es.last())
    }
}

/// The arms of `print_final_trivia`, in table order.
pub open spec fn final_trivia_arms(es: Seq<EntryView>) -> Seq<TokenView>
    decreases es.len(),
{
    if es.len() == 0 {
        seq![]
    } else {
        final_trivia_arms(es.drop_last()) + final_trivia_arm(es.last())
    }
}

/// `match self { <arms> }`
pub open spec fn match_self(arms: Seq<TokenView>) -> Seq<TokenView> {
    seq![id("match"@), id("self"@)] + group(Delimiter::Brace, arms)
}

/// The tokens of `Print` for an enum.
pub open spec fn enum_print_tokens(input: Item, data: DataEnum) -> Seq<TokenView> {
    print_impl(
        input.ident@,
        input.generics.deep_view(),
        match_self(final_trivia_arms(entries(data.variants@))),
        match_self(without_final_trivia_arms(entries(data.variants@))),
    )
}

/// Inserting keeps names distinct.
proof fn lemma_insert_distinct(es: Seq<EntryView>, e: EntryView)
    requires
        distinct_names(es),
    ensures
        distinct_names(insert_entry(es, e)),
{
    let r = insert_entry(es, e);
    if exists|k: int| 0 <= k < es.len() && (#[trigger] es[k]).name == e.name {
        let k = choose|k: int| 0 <= k < es.len() && (#[trigger] es[k]).name == e.name;
        assert forall|i: int, j: int| 0 <= i < j < r.len() implies (#[trigger] r[i]).name != (#[trigger] r[j]).name by {
            assert(r[i].name == es[i].name);
            assert(r[j].name == es[j].name);
        }
    } else {
        assert forall|i: int, j: int| 0 <= i < j < r.len() implies (#[trigger] r[i]).name != (#[trigger] r[j]).name by {
            if j == es.len() {
                assert(es[i].name != e.name);
            } else {
                assert(r[i] == es[i] && r[j] == es[j]);
            }
        }
    }
}

/// The names of the table are distinct.
proof fn lemma_entries_distinct(vs: Seq<ItemVariant>)
    ensures
        distinct_names(entries(vs)),
    decreases vs.len(),
{
    if vs.len() > 0 {
        lemma_entries_distinct(vs.drop_last());
        lemma_insert_distinct(entries(vs.drop_last()), variant_entry(vs.last()));
    }
}

/// Inserts `e` into the table under its name.
fn insert(table: &mut Vec<Entry>, e: Entry)
    requires
        distinct_names(old(table).deep_view()),
    ensures
        final(table).deep_view() == insert_entry(old(table).deep_view(), e.deep_view()),
{
    let ghost tv = table.deep_view();
    let ghost ev = e.deep_view();
    let n = table.len();
    let mut i: usize = 0;
    while i < n
        invariant
            n == table.len(),
            tv == table.deep_view(),
            tv == old(table).deep_view(),
            ev == e.deep_view(),
            distinct_names(tv),
            i <= n,
            forall|j: int| 0 <= j < i ==> (#[trigger] tv[j]).name != ev.name,
        decreases n - i,
    {
        if table[i].name == e.name {
            proof {
                assert(tv[i as int].name == ev.name);
                let k = choose|k: int| 0 <= k < tv.len() && (#[trigger] tv[k]).name == ev.name;
                assert(0 <= k < tv.len() && tv[k].name == ev.name);
                if k < i {
                    assert(tv[k].name != tv[i as int].name);
                } else if k > i {
                    assert(tv[i as int].name != tv[k].name);
                }
                assert(insert_entry(tv, ev) == tv.update(i as int, ev));
            }
            table.set(i, e);
            assert(table.deep_view() =~= tv.update(i as int, ev));
            return;
        }
        i = i + 1;
    }
    table.push(e);
    assert(table.deep_view() =~= tv.push(ev));
}

/// `Print` for an enum: one arm per variant name in each method.
pub fn generate(input: &Item, data: &DataEnum) -> (r: TokenStream)
    requires
        enum_supported(*data),
    ensures
        r.deep_view() == enum_print_tokens(*input, *data),
{
    let ghost vs = data.variants@;
    let mut match_arms_data: Vec<Entry> = Vec::new();
    let n = data.variants.len();
    let mut i: usize = 0;
    while i < n
        invariant
            n == vs.len(),
            vs == data.variants@,
            enum_supported(*data),
            i <= n,
            match_arms_data.deep_view() == entries(vs.take(i as int)),
        decreases n - i,
    {
        let variant = &data.variants[i];
        let name = &variant.ident;
        assert(variant == vs[i as int]);
        let (arm, is_named) = match &variant.fields {
            ItemFields::Named(fields) => (named(fields), true),
            ItemFields::Unnamed(fields) => (unnamed(fields), false),
            ItemFields::Unit => (Data::MatchArm(emit_unit_arm(name)), false),
        };
        let e = Entry { name: name.clone(), data: arm, is_named };
        assert(e.deep_view() == variant_entry(vs[i as int]));
        proof {
            lemma_entries_distinct(vs.take(i as int));
            assert(vs.take(i + 1).drop_last() =~= vs.take(i as int));
        }
        insert(&mut match_arms_data, e);
        i = i + 1;
    }
    assert(vs.take(n as int) =~= vs);
    let ghost es = match_arms_data.deep_view();
    let mut arms: TokenStream = Vec::new();
    let mut last_trivia_arms: TokenStream = Vec::new();
    let m = match_arms_data.len();
    let mut j: usize = 0;
    while j < m
        invariant
            m == es.len(),
            es == match_arms_data.deep_view(),
            j <= m,
            arms.deep_view() == without_final_trivia_arms(es.take(j as int)),
            last_trivia_arms.deep_view() == final_trivia_arms(es.take(j as int)),
        decreases m - j,
    {
        let (body, final_trivia) = emit_arms(&match_arms_data[j]);
        assert(es.take(j + 1).drop_last() =~= es.take(j as int));
        append(&mut arms, body);
        append(&mut last_trivia_arms, final_trivia);
        j = j + 1;
    }
    assert(es.take(m as int) =~= es);
    emit_print_impl(input, emit_match_self(last_trivia_arms), emit_match_self(arms))
}

/// The tokens of `match self { <arms> }`.
fn emit_match_self(arms: TokenStream) -> (r: TokenStream)
    ensures
        r.deep_view() == match_self(arms.deep_view()),
{
    let ghost av = arms.deep_view();
    let mut r: TokenStream = Vec::new();
    push_ident(&mut r, "match");
    push_ident(&mut r, "self");
    push_open(&mut r, Delimiter::Brace);
    append(&mut r, arms);
    push_close(&mut r, Delimiter::Brace);
    assert(r.deep_view() =~= match_self(av));
    r
}

/// The tokens of the unit arm of `variant`.
fn emit_unit_arm(variant: &String) -> (r: TokenStream)
    ensures
        r.deep_view() == unit_arm(variant@),
{
    let mut r = emit_self_path(variant);
    push_punct(&mut r, '=', true);
    push_punct(&mut r, '>', false);
    let empty = String::new();
    push_str_literal(&mut r, empty.as_str());
    push_punct(&mut r, '.', false);
    push_ident(&mut r, "to_string");
    push_open(&mut r, Delimiter::Parenthesis);
    push_close(&mut r, Delimiter::Parenthesis);
    push_punct(&mut r, ',', false);
    assert(r.deep_view() =~= unit_arm(variant@));
    r
}

/// The tokens of the pattern of an arm.
fn emit_arm_pattern(variant: &String, d: &CodeData, is_named: bool) -> (r: TokenStream)
    ensures
        r.deep_view() == arm_pattern(variant@, d.deep_view(), is_named),
{
    let delimiter = if is_named { Delimiter::Brace } else { Delimiter::Parenthesis };
    let mut all_names: Vec<TokenStream> = Vec::new();
    let k = d.middle.len();
    let mut i: usize = 0;
    while i < k
        invariant
            k == d.middle.len(),
            i <= k,
            all_names.deep_view() =~= d.middle.deep_view().take(i as int),
        decreases k - i,
    {
        let ghost before = all_names.deep_view();
        all_names.push(copy_stream(&d.middle[i]));
        assert(all_names.deep_view() =~= before.push(d.middle.deep_view()[i as int]));
        i = i + 1;
    }
    let ghost before = all_names.deep_view();
    all_names.push(copy_stream(&d.first));
    assert(all_names.deep_view() =~= before.push(d.first.deep_view()));
    match &d.last {
        Some(last) => {
            let ghost before = all_names.deep_view();
            all_names.push(copy_stream(last));
            assert(all_names.deep_view() =~= before.push(last.deep_view()));
        },
        None => {},
    }
    assert(all_names.deep_view() =~= pattern_names(d.deep_view()));
    let mut r = emit_self_path(variant);
    push_open(&mut r, delimiter);
    let ghost opened = r.deep_view();
    let ghost nv = all_names.deep_view();
    let n = all_names.len();
    let mut j: usize = 0;
    while j < n
        invariant
            n == nv.len(),
            nv == all_names.deep_view(),
            j <= n,
            r.deep_view() == opened + comma_list(nv.take(j as int)),
        decreases n - j,
    {
        extend(&mut r, &all_names[j]);
        push_punct(&mut r, ',', false);
        assert(nv.take(j + 1).drop_last() =~= nv.take(j as int));
        assert(r.deep_view() =~= opened + comma_list(nv.take(j + 1)));
        j = j + 1;
    }
    assert(nv.take(n as int) =~= nv);
    push_close(&mut r, delimiter);
    assert(r.deep_view() =~= arm_pattern(variant@, d.deep_view(), is_named));
    r
}

/// The tokens of the entry's arm in each method: `print_without_final_trivia`, then `print_final_trivia`.
fn emit_arms(e: &Entry) -> (r: (TokenStream, TokenStream))
    ensures
        r.0.deep_view() == without_final_trivia_arm(e.deep_view()),
        r.1.deep_view() == final_trivia_arm(e.deep_view()),
{
    match &e.data {
        Data::CodeData(d) => {
            let mut body = emit_arm_pattern(&e.name, d, e.is_named);
            let mut final_trivia = copy_stream(&body);
            push_punct(&mut body, '=', true);
            push_punct(&mut body, '>', false);
            push_open(&mut body, Delimiter::Brace);
            append(&mut body, generate_print_without_final_trivia(d));
            push_close(&mut body, Delimiter::Brace);
            push_punct(&mut final_trivia, '=', true);
            push_punct(&mut final_trivia, '>', false);
            push_open(&mut final_trivia, Delimiter::Brace);
            append(&mut final_trivia, generate_print_final_trivia(d));
            push_close(&mut final_trivia, Delimiter::Brace);
            assert(body.deep_view() =~= without_final_trivia_arm(e.deep_view()));
            assert(final_trivia.deep_view() =~= final_trivia_arm(e.deep_view()));
            (body, final_trivia)
        },
        Data::MatchArm(b) => (copy_stream(b), copy_stream(b)),
    }
}

/// The bindings of a variant's named fields.
pub fn named(fields: &FieldsNamed) -> (r: Data)
    requires
        fields.named.len() > 0,
        all_named(fields.named@),
    ensures
        r.deep_view() == DataView::CodeData(split_names(binding_names(fields.named@))),
{
    let ghost target = binding_names(fields.named@);
    let n = fields.named.len();
    let mut names: Vec<TokenStream> = Vec::new();
    let mut i: usize = 0;
    while i < n
        invariant
            n == fields.named@.len(),
            i <= n,
            all_named(fields.named@),
            target == binding_names(fields.named@),
            names.deep_view() =~= target.take(i as int),
        decreases n - i,
    {
        let field = &fields.named[i];
        assert(field.ident is Some);
        let name = field.ident.as_ref().unwrap();
        let mut binding: TokenStream = Vec::new();
        push_ident_string(&mut binding, name);
        assert(*name == fields.named@[i as int].ident.unwrap());
        assert(binding.deep_view() =~= target[i as int]);
        let ghost before = names.deep_view();
        let ghost bv = binding.deep_view();
        names.push(binding);
        assert(names.deep_view() =~= before.push(bv));
        i = i + 1;
    }
    assert(names.deep_view() =~= target);
    Data::CodeData(super::utils::generate(names))
}

/// The bindings `item0`, `item1`, ... of a variant's positional fields, or an
/// error when there are none.
pub fn unnamed(fields: &FieldsUnnamed) -> (r: Data)
    ensures
        r.deep_view() == DataView::CodeData(unnamed_data(fields.count as nat)),
{
    if fields.count == 0 {
        return Data::CodeData(CodeData::error(VARIANT_WITHOUT_ITEMS));
    }
    let ghost target = item_names(fields.count as nat);
    let n = fields.count;
    let mut names: Vec<TokenStream> = Vec::new();
    let mut i: usize = 0;
    while i < n
        invariant
            n == fields.count,
            i <= n,
            target == item_names(n as nat),
            names.deep_view() =~= target.take(i as int),
        decreases n - i,
    {
        let mut ident = "item".to_owned();
        let digits = decimal_string(i);
        ident.append(digits.as_str());
        assert(ident@ == item_name(i as nat));
        let mut binding: TokenStream = Vec::new();
        push_ident_string(&mut binding, &ident);
        assert(target[i as int] == seq![id(item_name(i as nat))]);
        assert(binding.deep_view() =~= target[i as int]);
        let ghost before = names.deep_view();
        let ghost bv = binding.deep_view();
        names.push(binding);
        assert(names.deep_view() =~= before.push(bv));
        i = i + 1;
    }
    assert(names.deep_view() =~= target);
    Data::CodeData(super::utils::generate(names))
}

/// The bindings of positional fields are pairwise distinct.
pub proof fn law_item_names_distinct(i: nat, j: nat)
    requires
        i != j,
    ensures
        item_name(i) != item_name(j),
{
    if item_name(i) == item_name(j) {
        let p = "item"@;
        assert(item_name(i).subrange(p.len() as int, item_name(i).len() as int) =~= decimal(i));
        assert(item_name(j).subrange(p.len() as int, item_name(j).len() as int) =~= decimal(j));
        law_decimal_injective(i, j);
    }
}

/// The entry at `k` of the table is what variant `i` contributes, and no later
/// variant has the same name.
pub open spec fn entry_from_last(vs: Seq<ItemVariant>, es: Seq<EntryView>, k: int, i: int) -> bool {
    &&& 0 <= i < vs.len()
    &&& es[k] == variant_entry(vs[i])
    &&& forall|j: int| i < j < vs.len() ==> (#[trigger] vs[j]).ident@ != vs[i].ident@
}

/// The entry at `k` of the table is what the last variant of its name contributes.
pub open spec fn from_last_variant(vs: Seq<ItemVariant>, es: Seq<EntryView>, k: int) -> bool {
    exists|i: int| #[trigger] entry_from_last(vs, es, k, i)
}

/// The table of arms has exactly one entry for each variant name: names do not
/// repeat, every variant's name has an entry, and each entry is what the last
/// variant of that name contributes.
pub proof fn law_one_arm_per_variant_name(vs: Seq<ItemVariant>)
    ensures
        distinct_names(entries(vs)),
        forall|i: int| 0 <= i < vs.len() ==> exists|k: int|
            0 <= k < entries(vs).len() && (#[trigger] entries(vs)[k]).name == (#[trigger] vs[i]).ident@,
        forall|k: int| 0 <= k < entries(vs).len() ==> #[trigger] from_last_variant(vs, entries(vs), k),
    decreases vs.len(),
{
    lemma_entries_distinct(vs);
    if vs.len() > 0 {
        let prev = vs.drop_last();
        law_one_arm_per_variant_name(prev);
        lemma_entries_distinct(prev);
        let es = entries(prev);
        let e = variant_entry(vs.last());
        let r = entries(vs);
        let n = vs.len() - 1;
        assert(r == insert_entry(es, e));
        assert(forall|i: int| 0 <= i < prev.len() ==> prev[i] == #[trigger] vs[i]);
        if exists|k: int| 0 <= k < es.len() && (#[trigger] es[k]).name == e.name {
            let k0 = choose|k: int| 0 <= k < es.len() && (#[trigger] es[k]).name == e.name;
            assert(r == es.update(k0, e));
            assert forall|i: int| 0 <= i < vs.len() implies exists|k: int|
                0 <= k < r.len() && (#[trigger] r[k]).name == (#[trigger] vs[i]).ident@ by {
                if i == n {
                    assert(r[k0].name == vs[i].ident@);
                } else {
                    assert(prev[i] == vs[i]);
                    let k = choose|k: int| 0 <= k < es.len() && (#[trigger] es[k]).name == (#[trigger] prev[i]).ident@;
                    assert(r[k].name == es[k].name);
                }
            }
            assert forall|k: int| 0 <= k < r.len() implies #[trigger] from_last_variant(vs, r, k) by {
                if k == k0 {
                    assert(entry_from_last(vs, r, k, n));
                } else {
                    assert(from_last_variant(prev, es, k));
                    let i = choose|i: int| #[trigger] entry_from_last(prev, es, k, i);
                    assert(r[k] == es[k]);
                    if k < k0 {
                        assert(es[k].name != es[k0].name);
                    } else {
                        assert(es[k0].name != es[k].name);
                    }
                    assert(vs[n].ident@ != vs[i].ident@);
                    assert forall|j: int| i < j < vs.len() implies (#[trigger] vs[j]).ident@ != vs[i].ident@ by {
                        if j < n {
                            assert(prev[j] == vs[j]);
                        }
                    }
                    assert(entry_from_last(vs, r, k, i));
                }
            }
        } else {
            assert(r == es.push(e));
            assert forall|i: int| 0 <= i < vs.len() implies exists|k: int|
                0 <= k < r.len() && (#[trigger] r[k]).name == (#[trigger] vs[i]).ident@ by {
                if i == n {
                    assert(r[es.len() as int].name == vs[i].ident@);
                } else {
                    assert(prev[i] == vs[i]);
                    let k = choose|k: int| 0 <= k < es.len() && (#[trigger] es[k]).name == (#[trigger] prev[i]).ident@;
                    assert(r[k] == es[k]);
                }
            }
            assert forall|k: int| 0 <= k < r.len() implies #[trigger] from_last_variant(vs, r, k) by {
                if k == es.len() {
                    assert(entry_from_last(vs, r, k, n));
                } else {
                    assert(from_last_variant(prev, es, k));
                    let i = choose|i: int| #[trigger] entry_from_last(prev, es, k, i);
                    assert(r[k] == es[k]);
                    assert(vs[n].ident@ != vs[i].ident@);
                    assert forall|j: int| i < j < vs.len() implies (#[trigger] vs[j]).ident@ != vs[i].ident@ by {
                        if j < n {
                            assert(prev[j] == vs[j]);
                        }
                    }
                    assert(entry_from_last(vs, r, k, i));
                }
            }
        }
    }
}

// ---------------------------------------------------------------------------
// Bracketing.

/// The variant's named fields, if any, are at least one and all named.
pub open spec fn variant_supported(v: ItemVariant) -> bool {
    v.fields matches ItemFields::Named(f) ==> f.named.len() > 0 && all_named(f.named@)
}

/// What an entry contributes is well-bracketed.
pub open spec fn entry_wb(e: EntryView) -> bool {
    match e.data {
        DataView::CodeData(d) => data_wb(d),
        DataView::MatchArm(b) => well_bracketed(b),
    }
}

proof fn lemma_wb_variant_entry(v: ItemVariant)
    requires
        variant_supported(v),
    ensures
        entry_wb(variant_entry(v)),
{
    broadcast use group_well_bracketed;
    match v.fields {
        ItemFields::Named(f) => {
            let names = binding_names(f.named@);
            assert forall|i: int| 0 <= i < names.len() implies well_bracketed(#[trigger] names[i]) by {
                assert(names[i] == seq![id(f.named@[i].ident.unwrap()@)]);
            }
            lemma_wb_split(names);
        },
        ItemFields::Unnamed(f) => {
            if f.count > 0 {
                let names = item_names(f.count as nat);
                assert forall|i: int| 0 <= i < names.len() implies well_bracketed(#[trigger] names[i]) by {
                    assert(names[i] == seq![id(item_name(i as nat))]);
                }
                lemma_wb_split(names);
            } else {
                assert(all_wb(Seq::<Seq<TokenView>>::empty()));
                assert(well_bracketed(error_data(VARIANT_WITHOUT_ITEMS@).first));
            }
        },
        ItemFields::Unit => {
            let name = v.ident@;
            assert(well_bracketed(self_path(name)));
            assert(well_bracketed(fat_arrow()));
            assert(well_bracketed(group(Delimiter::Parenthesis, seq![])));
            assert(well_bracketed(unit_arm(name)));
        },
    }
}

proof fn lemma_wb_comma_list(ns: Seq<Seq<TokenView>>)
    requires
        all_wb(ns),
    ensures
        well_bracketed(comma_list(ns)),
    decreases ns.len(),
{
    broadcast use group_well_bracketed;
    if ns.len() > 0 {
        assert(all_wb(ns.drop_last()));
        lemma_wb_comma_list(ns.drop_last());
        assert(well_bracketed(ns[ns.len() - 1]));
    }
}

proof fn lemma_wb_entry_arms(e: EntryView)
    requires
        entry_wb(e),
    ensures
        well_bracketed(without_final_trivia_arm(e)),
        well_bracketed(final_trivia_arm(e)),
{
    broadcast use group_well_bracketed;
    match e.data {
        DataView::CodeData(d) => {
            let ns = pattern_names(d);
            assert forall|i: int| 0 <= i < ns.len() implies well_bracketed(#[trigger] ns[i]) by {
                if i < d.middle.len() {
                    assert(ns[i] == d.middle[i]);
                } else if i == d.middle.len() {
                    assert(ns[i] == d.first);
                } else {
                    assert(ns[i] == d.last.unwrap());
                }
            }
            lemma_wb_comma_list(ns);
            lemma_wb_bodies(d);
            assert(well_bracketed(self_path(e.name)));
            assert(well_bracketed(fat_arrow()));
            assert(well_bracketed(arm_pattern(e.name, d, e.is_named)));
        },
        DataView::MatchArm(b) => {},
    }
}

proof fn lemma_wb_arms(es: Seq<EntryView>)
    requires
        forall|k: int| 0 <= k < es.len() ==> entry_wb(#[trigger] es[k]),
    ensures
        well_bracketed(without_final_trivia_arms(es)),
        well_bracketed(final_trivia_arms(es)),
    decreases es.len(),
{
    broadcast use group_well_bracketed;
    if es.len() > 0 {
        lemma_wb_arms(es.drop_last());
        assert(entry_wb(es[es.len() - 1]));
        lemma_wb_entry_arms(es.last());
    }
}

/// The two `match` expressions of a supported enum are well-bracketed.
pub proof fn lemma_wb_enum_matches(data: DataEnum)
    requires
        enum_supported(data),
    ensures
        well_bracketed(match_self(final_trivia_arms(entries(data.variants@)))),
        well_bracketed(match_self(without_final_trivia_arms(entries(data.variants@)))),
{
    broadcast use group_well_bracketed;
    let vs = data.variants@;
    let es = entries(vs);
    law_one_arm_per_variant_name(vs);
    assert forall|k: int| 0 <= k < es.len() implies entry_wb(#[trigger] es[k]) by {
        assert(from_last_variant(vs, es, k));
        let i = choose|i: int| #[trigger] entry_from_last(vs, es, k, i);
        assert(variant_supported(vs[i]));
        lemma_wb_variant_entry(vs[i]);
    }
    lemma_wb_arms(es);
}

// ---------------------------------------------------------------------------
// Print order of a variant.

/// The receivers of a variant's fields: the field names, or `item0`, `item1`, ...
pub open spec fn variant_bindings(v: ItemVariant) -> Seq<Seq<TokenView>> {
    match v.fields {
        ItemFields::Named(f) => binding_names(f.named@),
        ItemFields::Unnamed(f) => item_names(f.count as nat),
        ItemFields::Unit => seq![],
    }
}

/// For a variant with fields, its arm in `print_without_final_trivia` prints
/// the binding of every field once, in declaration order, and its arm in
/// `print_final_trivia` prints the final trivia of the last field's binding.
/// For a tuple variant with at most two fields, the pattern binds `item<i>`
/// to the field at position `i`, so the fields themselves are printed in
/// order; with three or more it does not (it lists `item0` after the middle
/// bindings), which is why the law on the bound fields stops there.
pub proof fn law_variant_prints_fields_in_order(v: ItemVariant)
    requires
        variant_supported(v),
        variant_bindings(v).len() > 0,
    ensures
        without_final_trivia_arm(variant_entry(v)) == arm_pattern(
            v.ident@,
            split_names(variant_bindings(v)),
            v.fields is Named,
        ) + fat_arrow() + group(Delimiter::Brace, print_in_order(variant_bindings(v))),
        final_trivia_arm(variant_entry(v)) == arm_pattern(
            v.ident@,
            split_names(variant_bindings(v)),
            v.fields is Named,
        ) + fat_arrow() + group(
            Delimiter::Brace,
            method_call(variant_bindings(v).last(), "print_final_trivia"@),
        ),
        (v.fields matches ItemFields::Unnamed(f) && f.count <= 2) ==> pattern_names(
            split_names(variant_bindings(v)),
        ) == variant_bindings(v),
{
    let names = variant_bindings(v);
    law_prints_every_receiver_in_order(names);
    law_final_receiver_is_last(names);
    assert(variant_data(v) == DataView::CodeData(split_names(names)));
    if v.fields matches ItemFields::Unnamed(f) && f.count <= 2 {
        let d = split_names(names);
        assert(pattern_names(d) =~= names);
    }
}

/// A unit variant's arm is the same in both methods: it prints the empty string.
pub proof fn law_unit_variant_prints_nothing(v: ItemVariant)
    requires
        v.fields is Unit,
    ensures
        without_final_trivia_arm(variant_entry(v)) == unit_arm(v.ident@),
        final_trivia_arm(variant_entry(v)) == unit_arm(v.ident@),
{
}

/// Both arms of a variant with fields start with `Self::<variant>` followed
/// by a brace group when the fields are named and by a parenthesis group when
/// they are positional: the delimiter depends only on the kind of fields.
pub proof fn law_arm_pattern_delimiter(v: ItemVariant)
    requires
        !(v.fields is Unit),
    ensures
        without_final_trivia_arm(variant_entry(v)).take(5) == seq![
            id("Self"@),
            joint(':'),
            alone(':'),
            id(v.ident@),
            TokenView::Open(if v.fields is Named { Delimiter::Brace } else { Delimiter::Parenthesis }),
        ],
        final_trivia_arm(variant_entry(v)).take(5) == seq![
            id("Self"@),
            joint(':'),
            alone(':'),
            id(v.ident@),
            TokenView::Open(if v.fields is Named { Delimiter::Brace } else { Delimiter::Parenthesis }),
        ],
{
    let e = variant_entry(v);
    assert(e.data is CodeData);
    let d = e.data->CodeData_0;
    let head = seq![
        id("Self"@),
        joint(':'),
        alone(':'),
        id(v.ident@),
        TokenView::Open(if v.fields is Named { Delimiter::Brace } else { Delimiter::Parenthesis }),
    ];
    let p = arm_pattern(e.name, d, e.is_named);
    assert(p.take(5) =~= head);
    assert(without_final_trivia_arm(e).take(5) =~= p.take(5));
    assert(final_trivia_arm(e).take(5) =~= p.take(5));
}

} // verus!
