//! `Print` for structs.
use vstd::prelude::*;
use crate::brackets::{group_well_bracketed, well_bracketed};
use crate::input::{all_named, DataStruct, Item, ItemField, ItemFields, FieldsNamed, FieldsUnnamed};
use crate::range::utils::{emit_member, member};
use crate::tokens::{
    alone, decimal, id, push_ident, push_punct, push_usize_literal,
    TokenStream, TokenView,
};
use super::utils::{
    generate_print_final_trivia, generate_print_without_final_trivia, law_final_receiver_is_last,
    law_prints_every_receiver_in_order, method_call, print_final_trivia_body, print_in_order,
    print_without_final_trivia_body, split_names, all_wb, data_wb, lemma_wb_split,
};
use super::{emit_print_impl, error_data, print_impl, CodeData, CodeDataView};

verus! {

/// The message of the error for a struct without items.
pub const STRUCT_WITHOUT_ITEMS: &'static str = "Structs passed to `#[Derive(Print)]` must have at least one item.";

/// The message of the error for a unit struct.
pub const UNIT_STRUCT: &'static str = "`#[Derive(Range)]` can't be implemented on unit structs.";

/// Named fields are at least one and all have a name.
pub open spec fn struct_supported(data: DataStruct) -> bool {
    data.fields matches ItemFields::Named(f) ==> f.named.len() > 0 && all_named(f.named@)
}

/// `self.<field>` for each named field, in order.
pub open spec fn self_members(fields: Seq<ItemField>) -> Seq<Seq<TokenView>> {
    Seq::new(fields.len(), |i: int| member("self"@, fields[i].ident.unwrap()@))
}

/// `self.<i>` for each position `i` below `count`, in order.
pub open spec fn self_indexes(count: nat) -> Seq<Seq<TokenView>> {
    Seq::new(count, |i: int| seq![id("self"@), alone('.'), TokenView::Literal(decimal(i as nat))])
}

/// The receivers printed for a struct.
pub open spec fn struct_data(data: DataStruct) -> CodeDataView {
    match data.fields {
        ItemFields::Named(f) => split_names(self_members(f.named@)),
        ItemFields::Unnamed(f) => if f.count == 0 {
            error_data(STRUCT_WITHOUT_ITEMS@)
        } else {
            split_names(self_indexes(f.count as nat))
        },
        ItemFields::Unit => error_data(UNIT_STRUCT@),
    }
}

/// The tokens of `Print` for a struct.
pub open spec fn struct_print_tokens(input: Item, data: DataStruct) -> Seq<TokenView> {
    print_impl(
        input.ident@,
        input.generics.deep_view(),
        print_final_trivia_body(struct_data(data)),
        print_without_final_trivia_body(struct_data(data)),
    )
}

/// `Print` for a struct: its fields printed in declaration order.
pub fn generate(input: &Item, data: &DataStruct) -> (r: TokenStream)
    requires
        struct_supported(*data),
    ensures
        r.deep_view() == struct_print_tokens(*input, *data),
{
    let data = match &data.fields {
        ItemFields::Named(fields) => named(fields),
        ItemFields::Unnamed(fields) => unnamed(fields),
        ItemFields::Unit => CodeData::error(UNIT_STRUCT),
    };
    let print_without_final_trivia_body = generate_print_without_final_trivia(&data);
    let print_final_trivia_body = generate_print_final_trivia(&data);
    emit_print_impl(input, print_final_trivia_body, print_without_final_trivia_body)
}

/// The receivers `self.<field>` of named fields.
pub fn named(fields: &FieldsNamed) -> (r: CodeData)
    requires
        fields.named.len() > 0,
        all_named(fields.named@),
    ensures
        r.deep_view() == split_names(self_members(fields.named@)),
{
    let ghost target = self_members(fields.named@);
    let n = fields.named.len();
    let mut names: Vec<TokenStream> = Vec::new();
    let mut i: usize = 0;
    while i < n
        invariant
            n == fields.named@.len(),
            i <= n,
            all_named(fields.named@),
            target == self_members(fields.named@),
            names.deep_view() =~= target.take(i as int),
        decreases n - i,
    {
        let field = &fields.named[i];
        assert(field.ident is Some);
        let name = field.ident.as_ref().unwrap();
        assert(*name == fields.named@[i as int].ident.unwrap());
        let recv = emit_member("self", name);
        assert(recv.deep_view() =~= target[i as int]);
        let ghost before = names.deep_view();
        let ghost rv = recv.deep_view();
        names.push(recv);
        assert(names.deep_view() =~= before.push(rv));
        i = i + 1;
    }
    assert(names.deep_view() =~= target);
    super::utils::generate(names)
}

/// The receivers `self.<i>` of positional fields, or an error when there are none.
pub fn unnamed(fields: &FieldsUnnamed) -> (r: CodeData)
    ensures
        r.deep_view() == (if fields.count == 0 {
            error_data(STRUCT_WITHOUT_ITEMS@)
        } else {
            split_names(self_indexes(fields.count as nat))
        }),
{
    if fields.count == 0 {
        return CodeData::error(STRUCT_WITHOUT_ITEMS);
    }
    let ghost target = self_indexes(fields.count as nat);
    let n = fields.count;
    let mut names: Vec<TokenStream> = Vec::new();
    let mut i: usize = 0;
    while i < n
        invariant
            n == fields.count,
            i <= n,
            target == self_indexes(n as nat),
            names.deep_view() =~= target.take(i as int),
        decreases n - i,
    {
        let mut recv: TokenStream = Vec::new();
        push_ident(&mut recv, "self");
        push_punct(&mut recv, '.', false);
        push_usize_literal(&mut recv, i, false);
        assert(recv.deep_view() =~= target[i as int]);
        let ghost before = names.deep_view();
        names.push(recv);
        assert(names.deep_view() =~= before.push(target[i as int]));
        i = i + 1;
    }
    assert(names.deep_view() =~= target);
    super::utils::generate(names)
}

/// The receivers of a struct's fields: `self.<name>` or `self.<index>`, in declaration order.
pub open spec fn struct_receivers(data: DataStruct) -> Seq<Seq<TokenView>> {
    match data.fields {
        ItemFields::Named(f) => self_members(f.named@),
        ItemFields::Unnamed(f) => self_indexes(f.count as nat),
        ItemFields::Unit => seq![],
    }
}

/// For a struct with at least one field, `print_without_final_trivia` prints
/// every field once, in declaration order, and `print_final_trivia` prints the
/// final trivia of the last field.
pub proof fn law_struct_prints_fields_in_order(input: Item, data: DataStruct)
    requires
        struct_supported(data),
        struct_receivers(data).len() > 0,
    ensures
        struct_print_tokens(input, data) == print_impl(
            input.ident@,
            input.generics.deep_view(),
            method_call(struct_receivers(data).last(), "print_final_trivia"@),
            print_in_order(struct_receivers(data)),
        ),
{
    let names = struct_receivers(data);
    law_prints_every_receiver_in_order(names);
    law_final_receiver_is_last(names);
    assert(struct_data(data) == split_names(names));
}

/// The receivers printed for a supported struct are well-bracketed.
pub proof fn lemma_wb_struct_data(data: DataStruct)
    requires
        struct_supported(data),
    ensures
        data_wb(struct_data(data)),
{
    broadcast use group_well_bracketed;
    match data.fields {
        ItemFields::Named(f) => {
            let names = self_members(f.named@);
            assert forall|i: int| 0 <= i < names.len() implies well_bracketed(#[trigger] names[i]) by {
                assert(names[i] == member("self"@, f.named@[i].ident.unwrap()@));
            }
            lemma_wb_split(names);
        },
        ItemFields::Unnamed(f) => {
            if f.count > 0 {
                let names = self_indexes(f.count as nat);
                assert forall|i: int| 0 <= i < names.len() implies well_bracketed(#[trigger] names[i]) by {
                    assert(names[i] == seq![id("self"@), alone('.'), TokenView::Literal(decimal(i as nat))]);
                }
                lemma_wb_split(names);
            } else {
                assert(all_wb(Seq::<Seq<TokenView>>::empty()));
                assert(well_bracketed(error_data(STRUCT_WITHOUT_ITEMS@).first));
            }
        },
        ItemFields::Unit => {
            assert(all_wb(Seq::<Seq<TokenView>>::empty()));
            assert(well_bracketed(error_data(UNIT_STRUCT@).first));
        },
    }
}

/// For a tuple struct with `count >= 1` fields, `print_without_final_trivia`
/// prints `self.0`, `self.1`, ..., `self.<count - 1>` once each, in order, and
/// `print_final_trivia` prints the final trivia of `self.<count - 1>`.
pub proof fn law_tuple_struct_prints_every_position(input: Item, data: DataStruct, count: nat)
    requires
        data.fields matches ItemFields::Unnamed(f) && f.count == count,
        count >= 1,
    ensures
        struct_print_tokens(input, data) == print_impl(
            input.ident@,
            input.generics.deep_view(),
            method_call(
                seq![id("self"@), alone('.'), TokenView::Literal(decimal((count - 1) as nat))],
                "print_final_trivia"@,
            ),
            print_in_order(
                Seq::new(count, |i: int| seq![id("self"@), alone('.'), TokenView::Literal(decimal(i as nat))]),
            ),
        ),
{
    let positions = Seq::new(count, |i: int| seq![id("self"@), alone('.'), TokenView::Literal(decimal(i as nat))]);
    assert(struct_receivers(data) =~= positions);
    law_struct_prints_fields_in_order(input, data);
}

/// For a struct with named fields, all named and at least one,
/// `print_without_final_trivia` prints `self.<name>` for every field once, in
/// declaration order, and `print_final_trivia` prints the final trivia of the
/// last field.
pub proof fn law_named_struct_prints_every_field(input: Item, data: DataStruct, fields: Seq<ItemField>)
    requires
        data.fields matches ItemFields::Named(f) && f.named@ == fields,
        fields.len() >= 1,
        all_named(fields),
    ensures
        struct_print_tokens(input, data) == print_impl(
            input.ident@,
            input.generics.deep_view(),
            method_call(
                seq![id("self"@), alone('.'), id(fields.last().ident.unwrap()@)],
                "print_final_trivia"@,
            ),
            print_in_order(
                Seq::new(fields.len(), |i: int| seq![id("self"@), alone('.'), id(fields[i].ident.unwrap()@)]),
            ),
        ),
{
    let members = Seq::new(fields.len(), |i: int| seq![id("self"@), alone('.'), id(fields[i].ident.unwrap()@)]);
    assert(struct_receivers(data) =~= members);
    law_struct_prints_fields_in_order(input, data);
}

} // verus!
