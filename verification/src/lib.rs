//! Code generation for the `Range` and `Print` derives.
//!
//! The item a derive is applied to is described by [`input::Item`];
//! the code a derive produces is a [`tokens::TokenStream`].
pub mod brackets;
pub mod input;
pub mod parse;
pub mod print;
pub mod range;
pub mod tokens;

use vstd::prelude::*;
use crate::input::Item;
use crate::brackets::{lemma_wb_plain, well_bracketed};
use crate::parse::parse_item;
use crate::print::law_print_well_bracketed;
use crate::range::law_range_well_bracketed;
use crate::print::{is_print_supported, print_supported, print_tokens};
use crate::range::{is_range_supported, range_supported, range_tokens};
use crate::tokens::{push_error, TokenStream, TokenView};

verus! {

/// The `Range` derive: an impl of `crate::types::GetRange` for the item.
pub fn range(input: &Item) -> (r: TokenStream)
    requires
        range_supported(*input),
    ensures
        r.deep_view() == range_tokens(*input),
{
    range::generate(input)
}

/// The `Print` derive: an impl of `crate::types::Print` for the item.
pub fn print(input: &Item) -> (r: TokenStream)
    requires
        print_supported(*input),
    ensures
        r.deep_view() == print_tokens(*input),
{
    print::generate(input)
}

/// What the `Range` derive gives for the parsed item `d`: its tokens when
/// it handles `d`, else nothing.
pub open spec fn range_outcome(d: Item, r: Option<TokenStream>) -> bool {
    if range_supported(d) {
        r matches Some(t) && t.deep_view() == range_tokens(d)
    } else {
        r is None
    }
}

/// What the `Print` derive gives for the parsed item `d`: its tokens when it
/// handles `d`, else nothing.
pub open spec fn print_outcome(d: Item, r: Option<TokenStream>) -> bool {
    if print_supported(d) {
        r matches Some(t) && t.deep_view() == print_tokens(d)
    } else {
        r is None
    }
}

/// One error token for each message, in order.
pub open spec fn errors_tokens(messages: Seq<Seq<char>>) -> Seq<TokenView> {
    Seq::new(messages.len(), |i: int| TokenView::Error(messages[i]))
}

/// The tokens of one error for each message, in order.
pub fn emit_errors(messages: &Vec<String>) -> (r: TokenStream)
    ensures
        r.deep_view() == errors_tokens(messages.deep_view()),
{
    let mut r: TokenStream = Vec::new();
    let n = messages.len();
    let mut i: usize = 0;
    while i < n
        invariant
            n == messages.len(),
            i <= n,
            r.deep_view() =~= errors_tokens(messages.deep_view()).take(i as int),
        decreases n - i,
    {
        push_error(&mut r, &messages[i]);
        assert(errors_tokens(messages.deep_view()).take(i + 1) =~= errors_tokens(messages.deep_view()).take(
            i as int,
        ).push(TokenView::Error(messages[i as int]@)));
        i = i + 1;
    }
    assert(errors_tokens(messages.deep_view()).take(n as int) =~= errors_tokens(messages.deep_view()));
    r
}

/// What the `Range` derive gives for the parse outcome `parsed`: the errors
/// of a parse error; for a parsed item, [`range_outcome`].
pub open spec fn range_parsed_outcome(parsed: Result<Item, Vec<String>>, r: Option<TokenStream>) -> bool {
    match parsed {
        Err(ms) => r matches Some(t) && t.deep_view() == errors_tokens(ms.deep_view()),
        Ok(d) => range_outcome(d, r),
    }
}

/// What the `Print` derive gives for the parse outcome `parsed`: the errors
/// of a parse error; for a parsed item, [`print_outcome`].
pub open spec fn print_parsed_outcome(parsed: Result<Item, Vec<String>>, r: Option<TokenStream>) -> bool {
    match parsed {
        Err(ms) => r matches Some(t) && t.deep_view() == errors_tokens(ms.deep_view()),
        Ok(d) => print_outcome(d, r),
    }
}

/// The `Range` derive for a parse outcome: one compile error per message of
/// a parse error; for a parsed item, its tokens, or `None` when the derive
/// does not handle the item (a tuple struct without fields).
pub fn range_parsed(parsed: &Result<Item, Vec<String>>) -> (r: Option<TokenStream>)
    ensures
        range_parsed_outcome(*parsed, r),
{
    match parsed {
        Err(ms) => Some(emit_errors(ms)),
        Ok(d) => {
            if is_range_supported(d) {
                Some(range(d))
            } else {
                None
            }
        },
    }
}

/// The `Print` derive for a parse outcome: one compile error per message of
/// a parse error; for a parsed item, its tokens, or `None` when the derive
/// does not handle the item (a set of named fields that is empty).
pub fn print_parsed(parsed: &Result<Item, Vec<String>>) -> (r: Option<TokenStream>)
    ensures
        print_parsed_outcome(*parsed, r),
{
    match parsed {
        Err(ms) => Some(emit_errors(ms)),
        Ok(d) => {
            if is_print_supported(d) {
                Some(print(d))
            } else {
                None
            }
        },
    }
}

/// The `Range` derive on the item's source text: what [`range_parsed`] gives
/// for the outcome of parsing the text with `syn`, whichever it is; the tokens
/// open and close their groups properly.
pub fn range_derive(src: &str) -> (r: Option<TokenStream>)
    ensures
        exists|parsed: Result<Item, Vec<String>>| #[trigger] range_parsed_outcome(parsed, r),
        r matches Some(t) ==> well_bracketed(t.deep_view()),
{
    let parsed = parse_item(src);
    let r = range_parsed(&parsed);
    assert(range_parsed_outcome(parsed, r));
    proof {
        match parsed {
            Err(ms) => {
                lemma_wb_plain(errors_tokens(ms.deep_view()));
            },
            Ok(d) => {
                if range_supported(d) {
                    law_range_well_bracketed(d);
                }
            },
        }
    }
    r
}

/// The `Print` derive on the item's source text: what [`print_parsed`] gives
/// for the outcome of parsing the text with `syn`, whichever it is; the tokens
/// open and close their groups properly.
pub fn print_derive(src: &str) -> (r: Option<TokenStream>)
    ensures
        exists|parsed: Result<Item, Vec<String>>| #[trigger] print_parsed_outcome(parsed, r),
        r matches Some(t) ==> well_bracketed(t.deep_view()),
{
    let parsed = parse_item(src);
    let r = print_parsed(&parsed);
    assert(print_parsed_outcome(parsed, r));
    proof {
        match parsed {
            Err(ms) => {
                lemma_wb_plain(errors_tokens(ms.deep_view()));
            },
            Ok(d) => {
                if print_supported(d) {
                    law_print_well_bracketed(d);
                }
            },
        }
    }
    r
}

} // verus!
