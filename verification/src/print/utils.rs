//! Helpers of the `Print` derive.
use vstd::prelude::*;
use crate::brackets::{group_well_bracketed, well_bracketed};
use crate::tokens::{
    alone, append, copy_stream, group, id, push_close, push_ident, push_open, push_punct,
    Delimiter, TokenStream, TokenView,
};
use super::{CodeData, CodeDataView};

verus! {

/// `names` split into its first element, the elements strictly between the
/// first and the last, and the last one when there are two or more.
pub open spec fn split_names(names: Seq<Seq<TokenView>>) -> CodeDataView {
    CodeDataView {
        first: names[0],
        middle: if names.len() >= 2 { names.subrange(1, names.len() - 1) } else { seq![] },
        last: if names.len() >= 2 { Some(names.last()) } else { None },
    }
}

/// The data for the receivers `names`, which must not be empty.
pub fn generate(names: Vec<TokenStream>) -> (r: CodeData)
    requires
        names.len() > 0,
    ensures
        r.deep_view() == split_names(names.deep_view()),
{
    let n = names.len();
    let first = copy_stream(&names[0]);
    let mut middle: Vec<TokenStream> = Vec::new();
    let ghost nv = names.deep_view();
    if n >= 2 {
        let mut i: usize = 1;
        while i < n - 1
            invariant
                n == nv.len(),
                nv == names.deep_view(),
                n >= 2,
                1 <= i <= n - 1,
                middle.deep_view() =~= nv.subrange(1, i as int),
            decreases n - 1 - i,
        {
            let item = copy_stream(&names[i]);
            let ghost before = middle.deep_view();
            middle.push(item);
            assert(middle.deep_view() =~= before.push(nv[i as int]));
            i = i + 1;
        }
        let last = copy_stream(&names[n - 1]);
        CodeData { first, middle, last: Some(last) }
    } else {
        assert(middle.deep_view() =~= Seq::<Seq<TokenView>>::empty());
        CodeData { first, middle, last: None }
    }
}

/// `<recv>.<method>()`
pub open spec fn method_call(recv: Seq<TokenView>, method: Seq<char>) -> Seq<TokenView> {
    recv + seq![alone('.'), id(method)] + group(Delimiter::Parenthesis, seq![])
}

/// `string.push_str(&<recv>.print_without_final_trivia());`
pub open spec fn push_statement(recv: Seq<TokenView>) -> Seq<TokenView> {
    seq![id("string"@), alone('.'), id("push_str"@)] + group(
        Delimiter::Parenthesis,
        seq![alone('&')] + method_call(recv, "print_without_final_trivia"@),
    ) + seq![alone(';')]
}

/// One `push_statement` per receiver, in order.
pub open spec fn push_statements(recvs: Seq<Seq<TokenView>>) -> Seq<TokenView>
    decreases recvs.len(),
{
    if recvs.len() == 0 {
        seq![]
    } else {
        push_statements(recvs.drop_last()) + push_statement(recvs.last())
    }
}

/// ```text
/// let mut string = <first>.print_without_final_trivia();
/// string.push_str(&<middle>.print_without_final_trivia());   // for each middle receiver
/// string.push_str(&<last>.print_without_final_trivia());     // when there is a last one
/// string
/// ```
pub open spec fn print_without_final_trivia_body(data: CodeDataView) -> Seq<TokenView> {
    seq![id("let"@), id("mut"@), id("string"@), alone('=')]
        + method_call(data.first, "print_without_final_trivia"@) + seq![alone(';')]
        + push_statements(data.middle)
        + match data.last {
        Some(l) => push_statement(l),
        None => seq![],
    } + seq![id("string"@)]
}

/// The receiver whose final trivia is printed: the last one, else the last
/// middle one, else the first.
pub open spec fn final_receiver(data: CodeDataView) -> Seq<TokenView> {
    match data.last {
        Some(l) => l,
        None => if data.middle.len() > 0 { data.middle.last() } else { data.first },
    }
}

/// `<final receiver>.print_final_trivia()`
pub open spec fn print_final_trivia_body(data: CodeDataView) -> Seq<TokenView> {
    method_call(final_receiver(data), "print_final_trivia"@)
}

/// The tokens of `<recv>.<method>()`.
fn emit_method_call(recv: TokenStream, method: &str) -> (r: TokenStream)
    ensures
        r.deep_view() == method_call(recv.deep_view(), method@),
{
    let ghost rv = recv.deep_view();
    let mut r = recv;
    push_punct(&mut r, '.', false);
    push_ident(&mut r, method);
    push_open(&mut r, Delimiter::Parenthesis);
    push_close(&mut r, Delimiter::Parenthesis);
    assert(r.deep_view() =~= method_call(rv, method@));
    r
}

/// The tokens of `string.push_str(&<recv>.print_without_final_trivia());`.
fn emit_push_statement(recv: &TokenStream) -> (r: TokenStream)
    ensures
        r.deep_view() == push_statement(recv.deep_view()),
{
    let mut r: TokenStream = Vec::new();
    push_ident(&mut r, "string");
    push_punct(&mut r, '.', false);
    push_ident(&mut r, "push_str");
    push_open(&mut r, Delimiter::Parenthesis);
    push_punct(&mut r, '&', false);
    append(&mut r, emit_method_call(copy_stream(recv), "print_without_final_trivia"));
    push_close(&mut r, Delimiter::Parenthesis);
    push_punct(&mut r, ';', false);
    assert(r.deep_view() =~= push_statement(recv.deep_view()));
    r
}

/// The body of `print_without_final_trivia`: every receiver printed without
/// its final trivia, first, middle ones, last, into one string.
pub fn generate_print_without_final_trivia(data: &CodeData) -> (r: TokenStream)
    ensures
        r.deep_view() == print_without_final_trivia_body(data.deep_view()),
{
    let mut r: TokenStream = Vec::new();
    push_ident(&mut r, "let");
    push_ident(&mut r, "mut");
    push_ident(&mut r, "string");
    push_punct(&mut r, '=', false);
    append(&mut r, emit_method_call(copy_stream(&data.first), "print_without_final_trivia"));
    push_punct(&mut r, ';', false);
    let ghost head = r.deep_view();
    let ghost mv = data.middle.deep_view();
    let n = data.middle.len();
    let mut i: usize = 0;
    while i < n
        invariant
            n == mv.len(),
            mv == data.middle.deep_view(),
            i <= n,
            r.deep_view() == head + push_statements(mv.take(i as int)),
        decreases n - i,
    {
        append(&mut r, emit_push_statement(&data.middle[i]));
        assert(mv.take(i + 1).drop_last() =~= mv.take(i as int));
        assert(r.deep_view() =~= head + push_statements(mv.take(i + 1)));
        i = i + 1;
    }
    assert(mv.take(n as int) =~= mv);
    match &data.last {
        Some(last) => append(&mut r, emit_push_statement(last)),
        None => {},
    }
    push_ident(&mut r, "string");
    assert(r.deep_view() =~= print_without_final_trivia_body(data.deep_view()));
    r
}

/// The body of `print_final_trivia`: the final trivia of the last receiver.
pub fn generate_print_final_trivia(data: &CodeData) -> (r: TokenStream)
    ensures
        r.deep_view() == print_final_trivia_body(data.deep_view()),
{
    let recv = match &data.last {
        Some(l) => copy_stream(l),
        None => {
            let n = data.middle.len();
            if n > 0 {
                copy_stream(&data.middle[n - 1])
            } else {
                copy_stream(&data.first)
            }
        },
    };
    emit_method_call(recv, "print_final_trivia")
}

// ---------------------------------------------------------------------------
// Laws.

/// The receivers of `d` in the order in which they were split: first, middle ones, last.
pub open spec fn rejoin(d: CodeDataView) -> Seq<Seq<TokenView>> {
    seq![d.first] + d.middle + match d.last {
        Some(l) => seq![l],
        None => seq![],
    }
}

/// `let mut string = <names[0]>.print_without_final_trivia();`, then one
/// `string.push_str(&<name>.print_without_final_trivia());` for each further
/// name in order, then `string`.
pub open spec fn print_in_order(names: Seq<Seq<TokenView>>) -> Seq<TokenView> {
    seq![id("let"@), id("mut"@), id("string"@), alone('=')]
        + method_call(names[0], "print_without_final_trivia"@) + seq![alone(';')]
        + push_statements(names.drop_first()) + seq![id("string"@)]
}

/// Splitting a non-empty list of receivers loses none of them and keeps their order.
pub proof fn law_split_rejoin(names: Seq<Seq<TokenView>>)
    requires
        names.len() > 0,
    ensures
        rejoin(split_names(names)) == names,
{
    assert(rejoin(split_names(names)) =~= names);
}

/// The final trivia printed is that of the last receiver.
pub proof fn law_final_receiver_is_last(names: Seq<Seq<TokenView>>)
    requires
        names.len() > 0,
    ensures
        final_receiver(split_names(names)) == names.last(),
{
}

/// `push_statements` of a concatenation is the concatenation of the two.
proof fn lemma_push_statements_add(a: Seq<Seq<TokenView>>, b: Seq<Seq<TokenView>>)
    ensures
        push_statements(a + b) == push_statements(a) + push_statements(b),
    decreases b.len(),
{
    if b.len() == 0 {
        assert(a + b =~= a);
        assert(push_statements(a) + push_statements(b) =~= push_statements(a));
    } else {
        lemma_push_statements_add(a, b.drop_last());
        assert((a + b).drop_last() =~= a + b.drop_last());
        assert((a + b).last() == b.last());
        assert(push_statements(a + b) =~= push_statements(a) + push_statements(b));
    }
}

/// The body of `print_without_final_trivia` built from a non-empty list of
/// receivers prints each of them exactly once, in their order.
pub proof fn law_prints_every_receiver_in_order(names: Seq<Seq<TokenView>>)
    requires
        names.len() > 0,
    ensures
        print_without_final_trivia_body(split_names(names)) == print_in_order(names),
{
    let d = split_names(names);
    if names.len() == 1 {
        assert(names.drop_first() =~= Seq::<Seq<TokenView>>::empty());
        assert(d.middle =~= Seq::<Seq<TokenView>>::empty());
        assert(print_without_final_trivia_body(d) =~= print_in_order(names));
    } else {
        let m = names.subrange(1, names.len() - 1);
        assert(names.drop_first() =~= m + seq![names.last()]);
        lemma_push_statements_add(m, seq![names.last()]);
        assert(seq![names.last()].drop_last() =~= Seq::<Seq<TokenView>>::empty());
        assert(push_statements(Seq::<Seq<TokenView>>::empty()) =~= Seq::<TokenView>::empty());
        assert(push_statements(seq![names.last()]) =~= push_statement(names.last()));
        assert(print_without_final_trivia_body(d) =~= print_in_order(names));
    }
}

// ---------------------------------------------------------------------------
// Bracketing.

/// Every receiver in `names` is well-bracketed.
pub open spec fn all_wb(names: Seq<Seq<TokenView>>) -> bool {
    forall|i: int| 0 <= i < names.len() ==> well_bracketed(#[trigger] names[i])
}

/// Every receiver of `d` is well-bracketed.
pub open spec fn data_wb(d: CodeDataView) -> bool {
    &&& well_bracketed(d.first)
    &&& all_wb(d.middle)
    &&& (d.last matches Some(l) ==> well_bracketed(l))
}

/// Splitting well-bracketed receivers gives well-bracketed parts.
pub proof fn lemma_wb_split(names: Seq<Seq<TokenView>>)
    requires
        names.len() > 0,
        all_wb(names),
    ensures
        data_wb(split_names(names)),
{
    let d = split_names(names);
    assert forall|i: int| 0 <= i < d.middle.len() implies well_bracketed(#[trigger] d.middle[i]) by {
        assert(d.middle[i] == names[i + 1]);
    }
}

proof fn lemma_wb_method_call(recv: Seq<TokenView>, m: Seq<char>)
    requires
        well_bracketed(recv),
    ensures
        well_bracketed(method_call(recv, m)),
        well_bracketed(push_statement(recv)),
{
    broadcast use group_well_bracketed;
    assert(well_bracketed(group(Delimiter::Parenthesis, seq![])));
    assert(well_bracketed(method_call(recv, "print_without_final_trivia"@)));
}

proof fn lemma_wb_push_statements(recvs: Seq<Seq<TokenView>>)
    requires
        all_wb(recvs),
    ensures
        well_bracketed(push_statements(recvs)),
    decreases recvs.len(),
{
    broadcast use group_well_bracketed;
    if recvs.len() > 0 {
        lemma_wb_push_statements(recvs.drop_last());
        assert(well_bracketed(recvs[recvs.len() - 1]));
        lemma_wb_method_call(recvs.last(), "print_final_trivia"@);
    }
}

/// Both bodies are well-bracketed when the receivers are.
pub proof fn lemma_wb_bodies(d: CodeDataView)
    requires
        data_wb(d),
    ensures
        well_bracketed(print_without_final_trivia_body(d)),
        well_bracketed(print_final_trivia_body(d)),
{
    broadcast use group_well_bracketed;
    lemma_wb_method_call(d.first, "print_without_final_trivia"@);
    lemma_wb_push_statements(d.middle);
    match d.last {
        Some(l) => lemma_wb_method_call(l, "print_final_trivia"@),
        None => {},
    }
    if d.last is None && d.middle.len() > 0 {
        assert(well_bracketed(d.middle[d.middle.len() - 1]));
    }
    lemma_wb_method_call(final_receiver(d), "print_final_trivia"@);
}

} // verus!
