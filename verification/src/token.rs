//! The token-tree data model consumed and produced by the engine.
//!
//! A tree is an ordered sequence of [`Token`]s; a [`Token`] is a literal, a
//! punctuation character, a named identifier, or a delimited group holding a
//! nested sequence. Every token carries a [`Span`], an opaque source position
//! that the engine preserves verbatim. The mathematical model of a token is
//! [`TokenView`], reached through `deep_view`.

use vstd::prelude::*;

verus! {

/// An opaque source position. The engine never inspects it; it only copies it
/// unchanged into the output.
#[derive(Clone, Copy, PartialEq, Eq, Structural, Debug)]
pub struct Span {
    pub id: u64,
}

/// The delimiter kind of a group token: parentheses, braces, brackets, or no
/// visible delimiter at all.
#[derive(Clone, Copy, PartialEq, Eq, Structural, Debug)]
pub enum Delimiter {
    Parenthesis,
    Brace,
    Bracket,
    Invisible,
}

/// Whether a punctuation character is joined to the following token or stands
/// alone.
#[derive(Clone, Copy, PartialEq, Eq, Structural, Debug)]
pub enum Spacing {
    Alone,
    Joint,
}

/// One node of a token tree.
#[derive(Debug, PartialEq, Eq)]
pub enum Token {
    /// A literal such as a number or a string, kept as its source text.
    Literal { text: String, span: Span },
    /// A single punctuation character.
    Punct { ch: char, spacing: Spacing, span: Span },
    /// A named identifier; the only kind of token that can be a placeholder.
    Ident { name: String, span: Span },
    /// A delimited group holding a nested token sequence.
    Group { delimiter: Delimiter, span: Span, tokens: Vec<Token> },
}

/// The mathematical model of a [`Token`]: the same shape with text as
/// sequences of characters and children as a `Seq`.
pub enum TokenView {
    Literal { text: Seq<char>, span: Span },
    Punct { ch: char, spacing: Spacing, span: Span },
    Ident { name: Seq<char>, span: Span },
    Group { delimiter: Delimiter, span: Span, tokens: Seq<TokenView> },
}

/// The model of one token: its text becomes a sequence of characters and the
/// children of a group become the models of the children.
pub open spec fn token_view(t: Token) -> TokenView
    decreases t,
{
    match t {
        Token::Literal { text, span } => TokenView::Literal { text: text@, span },
        Token::Punct { ch, spacing, span } => TokenView::Punct { ch, spacing, span },
        Token::Ident { name, span } => TokenView::Ident { name: name@, span },
        Token::Group { delimiter, span, tokens } => TokenView::Group {
            delimiter,
            span,
            tokens: tokens_view(tokens@),
        },
    }
}

/// The model of a token sequence: the models of its tokens, in order.
pub open spec fn tokens_view(ts: Seq<Token>) -> Seq<TokenView>
    decreases ts,
{
    if ts.len() == 0 {
        Seq::empty()
    } else {
        tokens_view(ts.subrange(0, ts.len() - 1)).push(token_view(ts[ts.len() - 1]))
    }
}

/// Each token of a sequence is modelled independently of its neighbours.
pub proof fn lemma_tokens_view_index(ts: Seq<Token>)
    ensures
        tokens_view(ts).len() == ts.len(),
        forall|i: int| 0 <= i < ts.len() ==> tokens_view(ts)[i] == token_view(ts[i]),
    decreases ts.len(),
{
    if ts.len() > 0 {
        lemma_tokens_view_index(ts.subrange(0, ts.len() - 1));
        assert forall|i: int| 0 <= i < ts.len() implies tokens_view(ts)[i] == token_view(ts[i]) by {
            if i < ts.len() - 1 {
                assert(ts.subrange(0, ts.len() - 1)[i] == ts[i]);
            }
        }
    }
}

/// Appending one token to a sequence appends its model to the sequence's model.
pub proof fn lemma_tokens_view_push(ts: Seq<Token>, t: Token)
    ensures
        tokens_view(ts.push(t)) == tokens_view(ts).push(token_view(t)),
{
    let p = ts.push(t);
    assert(p.subrange(0, p.len() - 1) =~= ts);
    assert(p[p.len() - 1] == t);
}

/// The model of a concatenation is the concatenation of the models.
pub proof fn lemma_tokens_view_concat(a: Seq<Token>, b: Seq<Token>)
    ensures
        tokens_view(a + b) == tokens_view(a) + tokens_view(b),
{
    lemma_tokens_view_index(a);
    lemma_tokens_view_index(b);
    lemma_tokens_view_index(a + b);
    assert(tokens_view(a + b) =~= tokens_view(a) + tokens_view(b));
}

/// Copy one token; the copy has the same model, position included.
pub fn clone_token(t: &Token) -> (r: Token)
    ensures
        token_view(r) == token_view(*t),
    decreases t,
{
    match t {
        Token::Literal { text, span } => Token::Literal { text: text.clone(), span: *span },
        Token::Punct { ch, spacing, span } => Token::Punct {
            ch: *ch,
            spacing: *spacing,
            span: *span,
        },
        Token::Ident { name, span } => Token::Ident { name: name.clone(), span: *span },
        Token::Group { delimiter, span, tokens } => Token::Group {
            delimiter: *delimiter,
            span: *span,
            tokens: clone_tokens(tokens),
        },
    }
}

/// Copy a token sequence; the copy has the same model, token for token.
pub fn clone_tokens(ts: &Vec<Token>) -> (r: Vec<Token>)
    ensures
        tokens_view(r@) == tokens_view(ts@),
    decreases ts,
{
    let mut r: Vec<Token> = Vec::new();
    let mut i: usize = 0;
    while i < ts.len()
        invariant
            i <= ts.len(),
            tokens_view(r@) == tokens_view(ts@.subrange(0, i as int)),
        decreases ts.len() - i,
    {
        let t = clone_token(&ts[i]);
        proof {
            lemma_tokens_view_push(r@, t);
            lemma_tokens_view_push(ts@.subrange(0, i as int), ts@[i as int]);
            assert(ts@.subrange(0, i as int).push(ts@[i as int]) =~= ts@.subrange(0, i + 1 as int));
        }
        r.push(t);
        i = i + 1;
    }
    proof {
        assert(ts@.subrange(0, ts@.len() as int) =~= ts@);
    }
    r
}

} // verus!
