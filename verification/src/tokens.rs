//! A plain-value model of Rust token streams, the output of both derives.
//!
//! A stream is a flat sequence of tokens in which a delimited group is written
//! as an opening marker, its contents and a closing marker.
use vstd::prelude::*;

verus! {

/// The delimiter of a token group.
#[derive(Clone, Copy, Debug, PartialEq, Eq)]
pub enum Delimiter {
    /// `( ... )`
    Parenthesis,
    /// `{ ... }`
    Brace,
    /// `[ ... ]`
    Bracket,
    /// An invisible delimiter.
    Invisible,
}

/// One token of a stream.
#[derive(Debug, PartialEq, Eq)]
pub enum Token {
    /// An identifier or keyword, by its text.
    Ident(String),
    /// A punctuation character; `true` when it is joined to the next one.
    Punct(char, bool),
    /// A string literal, by the value it denotes.
    Str(String),
    /// Any other literal, by its source text.
    Literal(String),
    /// The start of a delimited group.
    Open(Delimiter),
    /// The end of a delimited group.
    Close(Delimiter),
    /// A compile error carrying the given message, standing where it occurs.
    Error(String),
    /// A run of tokens given by its source text.
    Verbatim(String),
}

/// The mathematical value of a [`Token`].
pub enum TokenView {
    Ident(Seq<char>),
    Punct(char, bool),
    Str(Seq<char>),
    Literal(Seq<char>),
    Open(Delimiter),
    Close(Delimiter),
    Error(Seq<char>),
    Verbatim(Seq<char>),
}

impl DeepView for Token {
    type V = TokenView;

    open spec fn deep_view(&self) -> TokenView {
        match self {
            Token::Ident(s) => TokenView::Ident(s@),
            Token::Punct(c, j) => TokenView::Punct(*c, *j),
            Token::Str(s) => TokenView::Str(s@),
            Token::Literal(s) => TokenView::Literal(s@),
            Token::Open(d) => TokenView::Open(*d),
            Token::Close(d) => TokenView::Close(*d),
            Token::Error(m) => TokenView::Error(m@),
            Token::Verbatim(s) => TokenView::Verbatim(s@),
        }
    }
}

/// A token stream.
pub type TokenStream = Vec<Token>;

// ---------------------------------------------------------------------------
// Spec-level builders.

pub open spec fn id(s: Seq<char>) -> TokenView {
    TokenView::Ident(s)
}

/// A punctuation character standing alone.
pub open spec fn alone(c: char) -> TokenView {
    TokenView::Punct(c, false)
}

/// A punctuation character joined to the next one.
pub open spec fn joint(c: char) -> TokenView {
    TokenView::Punct(c, true)
}

/// `::`
pub open spec fn colon2() -> Seq<TokenView> {
    seq![joint(':'), alone(':')]
}

/// `=>`
pub open spec fn fat_arrow() -> Seq<TokenView> {
    seq![joint('='), alone('>')]
}

/// `..`
pub open spec fn dot2() -> Seq<TokenView> {
    seq![joint('.'), alone('.')]
}

/// `->`
pub open spec fn rarrow() -> Seq<TokenView> {
    seq![joint('-'), alone('>')]
}

/// A group with delimiter `d` around `inner`.
pub open spec fn group(d: Delimiter, inner: Seq<TokenView>) -> Seq<TokenView> {
    seq![TokenView::Open(d)] + inner + seq![TokenView::Close(d)]
}

/// The tokens of a compile error carrying `msg`.
pub open spec fn error_tokens(msg: Seq<char>) -> Seq<TokenView> {
    seq![TokenView::Error(msg)]
}

/// `impl <generics> <trait_path> for <name> <generics>`
pub open spec fn impl_header(trait_path: Seq<TokenView>, name: Seq<char>, generics: Seq<TokenView>) -> Seq<TokenView> {
    seq![id("impl"@)] + generics + trait_path + seq![id("for"@), id(name)] + generics
}

/// `Self::<variant>`
pub open spec fn self_path(variant: Seq<char>) -> Seq<TokenView> {
    seq![id("Self"@)] + colon2() + seq![id(variant)]
}

// ---------------------------------------------------------------------------
// Executable builders.

/// Appends an identifier.
pub fn push_ident(out: &mut TokenStream, s: &str)
    ensures
        final(out).deep_view() == old(out).deep_view().push(id(s@)),
{
    let ghost before = out.deep_view();
    out.push(Token::Ident(s.to_owned()));
    assert(out.deep_view() =~= before.push(id(s@)));
}

/// Appends an identifier held in a `String`.
pub fn push_ident_string(out: &mut TokenStream, s: &String)
    ensures
        final(out).deep_view() == old(out).deep_view().push(id(s@)),
{
    let ghost before = out.deep_view();
    out.push(Token::Ident(s.clone()));
    assert(out.deep_view() =~= before.push(id(s@)));
}

/// Appends a punctuation character; `joined` tells whether it is joined to the next one.
pub fn push_punct(out: &mut TokenStream, c: char, joined: bool)
    ensures
        final(out).deep_view() == old(out).deep_view().push(TokenView::Punct(c, joined)),
{
    let ghost before = out.deep_view();
    out.push(Token::Punct(c, joined));
    assert(out.deep_view() =~= before.push(TokenView::Punct(c, joined)));
}

/// Appends `::`.
pub fn push_colon2(out: &mut TokenStream)
    ensures
        final(out).deep_view() == old(out).deep_view() + colon2(),
{
    let ghost before = out.deep_view();
    push_punct(out, ':', true);
    push_punct(out, ':', false);
    assert(out.deep_view() =~= before + colon2());
}

/// Appends the marker that opens a group.
pub fn push_open(out: &mut TokenStream, d: Delimiter)
    ensures
        final(out).deep_view() == old(out).deep_view().push(TokenView::Open(d)),
{
    let ghost before = out.deep_view();
    out.push(Token::Open(d));
    assert(out.deep_view() =~= before.push(TokenView::Open(d)));
}

/// Appends the marker that closes a group.
pub fn push_close(out: &mut TokenStream, d: Delimiter)
    ensures
        final(out).deep_view() == old(out).deep_view().push(TokenView::Close(d)),
{
    let ghost before = out.deep_view();
    out.push(Token::Close(d));
    assert(out.deep_view() =~= before.push(TokenView::Close(d)));
}

/// Appends a string literal denoting `s`.
pub fn push_str_literal(out: &mut TokenStream, s: &str)
    ensures
        final(out).deep_view() == old(out).deep_view().push(TokenView::Str(s@)),
{
    let ghost before = out.deep_view();
    out.push(Token::Str(s.to_owned()));
    assert(out.deep_view() =~= before.push(TokenView::Str(s@)));
}

/// Appends a literal given by its source text.
pub fn push_literal(out: &mut TokenStream, text: String)
    ensures
        final(out).deep_view() == old(out).deep_view().push(TokenView::Literal(text@)),
{
    let ghost before = out.deep_view();
    out.push(Token::Literal(text));
    assert(out.deep_view() =~= before.push(TokenView::Literal(text@)));
}

/// Appends a compile error carrying `msg`.
pub fn push_error(out: &mut TokenStream, msg: &String)
    ensures
        final(out).deep_view() == old(out).deep_view().push(TokenView::Error(msg@)),
{
    let ghost before = out.deep_view();
    out.push(Token::Error(msg.clone()));
    assert(out.deep_view() =~= before.push(TokenView::Error(msg@)));
}

/// A copy of one token.
pub fn copy_token(t: &Token) -> (r: Token)
    ensures
        r.deep_view() == t.deep_view(),
{
    match t {
        Token::Ident(s) => Token::Ident(s.clone()),
        Token::Punct(c, j) => Token::Punct(*c, *j),
        Token::Str(s) => Token::Str(s.clone()),
        Token::Literal(s) => Token::Literal(s.clone()),
        Token::Open(d) => Token::Open(*d),
        Token::Close(d) => Token::Close(*d),
        Token::Error(m) => Token::Error(m.clone()),
        Token::Verbatim(s) => Token::Verbatim(s.clone()),
    }
}

/// Appends a copy of every token of `more`, in order.
pub fn extend(out: &mut TokenStream, more: &TokenStream)
    ensures
        final(out).deep_view() == old(out).deep_view() + more.deep_view(),
{
    let ghost before = out.deep_view();
    let n = more.len();
    let mut i: usize = 0;
    while i < n
        invariant
            n == more.len(),
            i <= n,
            out.deep_view() =~= before + more.deep_view().take(i as int),
        decreases n - i,
    {
        let t = copy_token(&more[i]);
        let ghost mid = out.deep_view();
        out.push(t);
        assert(out.deep_view() =~= mid.push(more.deep_view()[i as int]));
        assert(more.deep_view().take(i + 1) =~= more.deep_view().take(i as int).push(
            more.deep_view()[i as int],
        ));
        i = i + 1;
    }
    assert(more.deep_view().take(n as int) =~= more.deep_view());
}

/// A copy of a whole stream.
pub fn copy_stream(ts: &TokenStream) -> (r: TokenStream)
    ensures
        r.deep_view() == ts.deep_view(),
{
    let mut r: TokenStream = Vec::new();
    assert(r.deep_view() =~= Seq::<TokenView>::empty());
    extend(&mut r, ts);
    assert(r.deep_view() =~= ts.deep_view());
    r
}

/// The tokens of a compile error carrying `msg`.
pub fn error(msg: &str) -> (r: TokenStream)
    ensures
        r.deep_view() == error_tokens(msg@),
{
    let mut r: TokenStream = Vec::new();
    r.push(Token::Error(msg.to_owned()));
    assert(r.deep_view() =~= error_tokens(msg@));
    r
}

/// Appends a copy of every token of `more` and consumes it.
pub fn append(out: &mut TokenStream, more: TokenStream)
    ensures
        final(out).deep_view() == old(out).deep_view() + more.deep_view(),
{
    let ghost before = out.deep_view();
    let ghost added = more.deep_view();
    let mut more = more;
    out.append(&mut more);
    assert(out.deep_view() =~= before + added);
}

/// The tokens of `impl <generics> <trait_path> for <name> <generics>`.
pub fn emit_impl_header(trait_path: TokenStream, name: &String, generics: &TokenStream) -> (r: TokenStream)
    ensures
        r.deep_view() == impl_header(trait_path.deep_view(), name@, generics.deep_view()),
{
    let ghost tv = trait_path.deep_view();
    let mut r: TokenStream = Vec::new();
    push_ident(&mut r, "impl");
    extend(&mut r, generics);
    append(&mut r, trait_path);
    push_ident(&mut r, "for");
    push_ident_string(&mut r, name);
    extend(&mut r, generics);
    assert(r.deep_view() =~= impl_header(tv, name@, generics.deep_view()));
    r
}

/// The tokens of `Self::<variant>`.
pub fn emit_self_path(variant: &String) -> (r: TokenStream)
    ensures
        r.deep_view() == self_path(variant@),
{
    let mut r: TokenStream = Vec::new();
    push_ident(&mut r, "Self");
    push_colon2(&mut r);
    push_ident_string(&mut r, variant);
    assert(r.deep_view() =~= self_path(variant@));
    r
}

// ---------------------------------------------------------------------------
// Decimal text of integers.

/// The character of a decimal digit.
pub open spec fn digit(d: nat) -> char {
    if d == 0 { '0' }
    else if d == 1 { '1' }
    else if d == 2 { '2' }
    else if d == 3 { '3' }
    else if d == 4 { '4' }
    else if d == 5 { '5' }
    else if d == 6 { '6' }
    else if d == 7 { '7' }
    else if d == 8 { '8' }
    else { '9' }
}

/// The decimal text of `n`, without leading zeros.
pub open spec fn decimal(n: nat) -> Seq<char>
    decreases n,
{
    if n < 10 {
        seq![digit(n)]
    } else {
        decimal(n / 10).push(digit(n % 10))
    }
}

/// The text of an integer literal of value `n`, suffixed with `usize` when `suffixed`.
pub open spec fn usize_literal_text(n: nat, suffixed: bool) -> Seq<char> {
    if suffixed {
        decimal(n) + "usize"@
    } else {
        decimal(n)
    }
}

fn digit_str(d: usize) -> (s: &'static str)
    requires
        d < 10,
    ensures
        s@ == seq![digit(d as nat)],
{
    if d == 0 {
        proof { reveal_strlit("0"); }
        "0"
    } else if d == 1 {
        proof { reveal_strlit("1"); }
        "1"
    } else if d == 2 {
        proof { reveal_strlit("2"); }
        "2"
    } else if d == 3 {
        proof { reveal_strlit("3"); }
        "3"
    } else if d == 4 {
        proof { reveal_strlit("4"); }
        "4"
    } else if d == 5 {
        proof { reveal_strlit("5"); }
        "5"
    } else if d == 6 {
        proof { reveal_strlit("6"); }
        "6"
    } else if d == 7 {
        proof { reveal_strlit("7"); }
        "7"
    } else if d == 8 {
        proof { reveal_strlit("8"); }
        "8"
    } else {
        proof { reveal_strlit("9"); }
        "9"
    }
}

/// The decimal text of `n`.
pub fn decimal_string(n: usize) -> (s: String)
    ensures
        s@ == decimal(n as nat),
    decreases n,
{
    if n < 10 {
        digit_str(n).to_owned()
    } else {
        let mut s = decimal_string(n / 10);
        s.append(digit_str(n % 10));
        s
    }
}

/// Appends the integer literal `n`, suffixed with `usize` when `suffixed`
/// (what `proc_macro2::Literal::usize_suffixed` and `usize_unsuffixed` denote).
pub fn push_usize_literal(out: &mut TokenStream, n: usize, suffixed: bool)
    ensures
        final(out).deep_view() == old(out).deep_view().push(
            TokenView::Literal(usize_literal_text(n as nat, suffixed)),
        ),
{
    let mut text = decimal_string(n);
    if suffixed {
        text.append("usize");
    }
    push_literal(out, text);
}

/// The decimal text has one digit below ten and at least two from ten on.
proof fn lemma_decimal_len(n: nat)
    ensures
        decimal(n).len() >= 1,
        n >= 10 ==> decimal(n).len() >= 2,
    decreases n,
{
    if n >= 10 {
        lemma_decimal_len(n / 10);
    }
}

/// Distinct numbers have distinct decimal texts.
pub proof fn law_decimal_injective(a: nat, b: nat)
    requires
        decimal(a) == decimal(b),
    ensures
        a == b,
    decreases a,
{
    lemma_decimal_len(a);
    lemma_decimal_len(b);
    if a < 10 && b < 10 {
        assert(decimal(a)[0] == digit(a));
        assert(decimal(b)[0] == digit(b));
    } else if a >= 10 && b >= 10 {
        let da = decimal(a);
        assert(da.drop_last() =~= decimal(a / 10));
        assert(decimal(b).drop_last() =~= decimal(b / 10));
        assert(da.last() == digit(a % 10));
        assert(decimal(b).last() == digit(b % 10));
        law_decimal_injective(a / 10, b / 10);
    } else {
        assert(decimal(a).len() != decimal(b).len());
    }
}

} // verus!
