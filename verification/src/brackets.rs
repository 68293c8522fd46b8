//! Well-bracketed token sequences: every group that opens is closed, by the
//! same delimiter, and nothing closes that is not open.
use vstd::prelude::*;
use crate::tokens::{group, id, impl_header, Delimiter, TokenView};

verus! {

/// The token opens or closes a group.
pub open spec fn is_delimiter(t: TokenView) -> bool {
    t is Open || t is Close
}

/// The stack of open groups after reading `s`, starting from `stack`; `None`
/// when a group closes that is not the innermost open one.
pub open spec fn scan(s: Seq<TokenView>, stack: Seq<Delimiter>) -> Option<Seq<Delimiter>>
    decreases s.len(),
{
    if s.len() == 0 {
        Some(stack)
    } else {
        match scan(s.drop_last(), stack) {
            None => None,
            Some(st) => match s.last() {
                TokenView::Open(d) => Some(st.push(d)),
                TokenView::Close(d) => if st.len() > 0 && st.last() == d {
                    Some(st.drop_last())
                } else {
                    None
                },
                _ => Some(st),
            },
        }
    }
}

/// Read from the start, `s` closes every group it opens and no other.
pub open spec fn well_bracketed(s: Seq<TokenView>) -> bool {
    scan(s, seq![]) == Some(Seq::<Delimiter>::empty())
}

/// Reading a concatenation reads the first part, then the second.
pub proof fn lemma_scan_concat(a: Seq<TokenView>, b: Seq<TokenView>, stack: Seq<Delimiter>)
    ensures
        scan(a + b, stack) == match scan(a, stack) {
            Some(m) => scan(b, m),
            None => None,
        },
    decreases b.len(),
{
    if b.len() == 0 {
        assert(a + b =~= a);
    } else {
        lemma_scan_concat(a, b.drop_last(), stack);
        assert((a + b).drop_last() =~= a + b.drop_last());
        assert((a + b).last() == b.last());
    }
}

/// What a sequence that reads from an empty stack pushes, it pushes on any stack.
pub proof fn lemma_scan_from(x: Seq<TokenView>, stack: Seq<Delimiter>)
    requires
        scan(x, seq![]) is Some,
    ensures
        scan(x, stack) == Some(stack + scan(x, seq![]).unwrap()),
    decreases x.len(),
{
    if x.len() == 0 {
        assert(stack + Seq::<Delimiter>::empty() =~= stack);
    } else {
        lemma_scan_from(x.drop_last(), stack);
        let r = scan(x.drop_last(), seq![]).unwrap();
        match x.last() {
            TokenView::Open(d) => {
                assert((stack + r).push(d) =~= stack + r.push(d));
            },
            TokenView::Close(d) => {
                assert((stack + r).drop_last() =~= stack + r.drop_last());
            },
            _ => {},
        }
    }
}

/// A sequence without delimiters leaves the stack as it is.
pub proof fn lemma_scan_plain(s: Seq<TokenView>, stack: Seq<Delimiter>)
    requires
        forall|i: int| 0 <= i < s.len() ==> !is_delimiter(#[trigger] s[i]),
    ensures
        scan(s, stack) == Some(stack),
    decreases s.len(),
{
    if s.len() > 0 {
        lemma_scan_plain(s.drop_last(), stack);
        assert(!is_delimiter(s[s.len() - 1]));
    }
}

/// A sequence without delimiters is well-bracketed.
pub broadcast proof fn lemma_wb_plain(s: Seq<TokenView>)
    requires
        forall|i: int| 0 <= i < s.len() ==> !is_delimiter(#[trigger] s[i]),
    ensures
        #[trigger] well_bracketed(s),
{
    lemma_scan_plain(s, seq![]);
}

/// Two well-bracketed sequences one after the other are well-bracketed.
pub broadcast proof fn lemma_wb_concat(a: Seq<TokenView>, b: Seq<TokenView>)
    requires
        well_bracketed(a),
        well_bracketed(b),
    ensures
        #[trigger] well_bracketed(a + b),
{
    lemma_scan_concat(a, b, seq![]);
}

/// A group around a well-bracketed sequence is well-bracketed.
pub broadcast proof fn lemma_wb_group(d: Delimiter, x: Seq<TokenView>)
    requires
        well_bracketed(x),
    ensures
        #[trigger] well_bracketed(group(d, x)),
{
    let open = seq![TokenView::Open(d)];
    let close = seq![TokenView::Close(d)];
    assert(group(d, x) == open + x + close);
    lemma_scan_concat(open + x, close, seq![]);
    lemma_scan_concat(open, x, seq![]);
    let empty = Seq::<TokenView>::empty();
    let no_stack = Seq::<Delimiter>::empty();
    assert(open.drop_last() =~= empty);
    assert(close.drop_last() =~= empty);
    assert(scan(empty, no_stack) == Some(no_stack));
    assert(no_stack.push(d) =~= seq![d]);
    assert(scan(open, no_stack) == Some(seq![d]));
    lemma_scan_from(x, seq![d]);
    assert(seq![d] + no_stack =~= seq![d]);
    assert(scan(empty, seq![d]) == Some(seq![d]));
    assert(seq![d].drop_last() =~= no_stack);
    assert(scan(close, seq![d]) == Some(no_stack));
}

/// `impl <generics> <path> for <name> <generics>` is well-bracketed when its parts are.
pub proof fn lemma_wb_impl_header(path: Seq<TokenView>, name: Seq<char>, generics: Seq<TokenView>)
    requires
        well_bracketed(path),
        well_bracketed(generics),
    ensures
        well_bracketed(impl_header(path, name, generics)),
{
    lemma_wb_plain(seq![id("impl"@)]);
    lemma_wb_plain(seq![id("for"@), id(name)]);
    lemma_wb_concat(seq![id("impl"@)], generics);
    lemma_wb_concat(seq![id("impl"@)] + generics, path);
    lemma_wb_concat(seq![id("impl"@)] + generics + path, seq![id("for"@), id(name)]);
    lemma_wb_concat(seq![id("impl"@)] + generics + path + seq![id("for"@), id(name)], generics);
}

pub broadcast group group_well_bracketed {
    lemma_wb_plain,
    lemma_wb_concat,
    lemma_wb_group,
}

} // verus!
