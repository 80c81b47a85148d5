//! The interpolation engine: a single, depth-first, left-to-right pass over a
//! token tree that replaces every identifier bound in the mapping by its
//! fragment and copies everything else verbatim.
//!
//! The functions [`interp_token`] and [`interp_seq`] are the mathematical
//! definition of that pass; [`interpolate`] is the executable engine, proved
//! to return exactly what the definition says for every input.

use vstd::prelude::*;

use crate::mapping::Mapping;
use crate::token::Delimiter;
use crate::token::Span;
use crate::token::Token;
use crate::token::TokenView;
use crate::token::clone_tokens;
use crate::token::lemma_tokens_view_concat;
use crate::token::lemma_tokens_view_push;
use crate::token::token_view;
use crate::token::tokens_view;

verus! {

/// What one token contributes to the output: literals and punctuation are
/// copied, a group is rebuilt around its interpolated children, an identifier
/// is replaced by its fragment when its name is a key and copied otherwise.
/// Substituted fragments are inserted as they are, never walked again.
pub open spec fn interp_token(t: TokenView, m: Map<Seq<char>, Seq<TokenView>>) -> Seq<TokenView>
    decreases t,
{
    match t {
        TokenView::Literal { .. } => seq![t],
        TokenView::Punct { .. } => seq![t],
        TokenView::Ident { name, span } => if m.contains_key(name) {
            m[name]
        } else {
            seq![t]
        },
        TokenView::Group { delimiter, span, tokens } => seq![
            TokenView::Group { delimiter, span, tokens: interp_seq(tokens, m) },
        ],
    }
}

/// What a token sequence becomes: the contributions of its tokens,
/// concatenated in order.
pub open spec fn interp_seq(ts: Seq<TokenView>, m: Map<Seq<char>, Seq<TokenView>>) -> Seq<
    TokenView,
>
    decreases ts,
{
    if ts.len() == 0 {
        Seq::empty()
    } else {
        interp_seq(ts.subrange(0, ts.len() - 1), m) + interp_token(ts[ts.len() - 1], m)
    }
}

/// Extending the input by one token extends the output by that token's
/// contribution.
pub proof fn lemma_interp_seq_push(ts: Seq<TokenView>, t: TokenView, m: Map<Seq<char>, Seq<TokenView>>)
    ensures
        interp_seq(ts.push(t), m) == interp_seq(ts, m) + interp_token(t, m),
{
    let p = ts.push(t);
    assert(p.subrange(0, p.len() - 1) =~= ts);
    assert(p[p.len() - 1] == t);
}

/// Replace every identifier of `stream` that `replacements` binds by its
/// fragment; keep everything else, spans included, exactly as it was. The
/// input is only read; the result is a fresh tree.
pub fn interpolate(stream: &Vec<Token>, replacements: &Mapping) -> (out: Vec<Token>)
    ensures
        tokens_view(out@) == interp_seq(tokens_view(stream@), replacements@),
    decreases stream,
{
    let ghost m = replacements@;
    let mut out: Vec<Token> = Vec::new();
    let mut i: usize = 0;
    proof {
        crate::token::lemma_tokens_view_index(stream@);
    }
    while i < stream.len()
        invariant
            i <= stream.len(),
            tokens_view(stream@).len() == stream@.len(),
            forall|j: int|
                0 <= j < stream@.len() ==> #[trigger] tokens_view(stream@)[j] == token_view(
                    stream@[j],
                ),
            m == replacements@,
            tokens_view(out@) == interp_seq(
                tokens_view(stream@).subrange(0, i as int),
                m,
            ),
        decreases stream@.len() - i,
    {
        let ghost prefix = tokens_view(stream@).subrange(0, i as int);
        let token = &stream[i];
        match token {
            Token::Literal { text, span } => {
                let copy = Token::Literal { text: text.clone(), span: *span };
                proof {
                    lemma_tokens_view_push(out@, copy);
                }
                out.push(copy);
            },
            Token::Punct { ch, spacing, span } => {
                let copy = Token::Punct { ch: *ch, spacing: *spacing, span: *span };
                proof {
                    lemma_tokens_view_push(out@, copy);
                }
                out.push(copy);
            },
            Token::Ident { name, span } => {
                match replacements.get(name) {
                    Some(fragment) => {
                        let mut rendered = clone_tokens(fragment);
                        proof {
                            lemma_tokens_view_concat(out@, rendered@);
                        }
                        out.append(&mut rendered);
                    },
                    None => {
                        let copy = Token::Ident { name: name.clone(), span: *span };
                        proof {
                            lemma_tokens_view_push(out@, copy);
                        }
                        out.push(copy);
                    },
                }
            },
            Token::Group { delimiter, span, tokens } => {
                let inner = interpolate(tokens, replacements);
                let rebuilt = Token::Group {
                    delimiter: *delimiter,
                    span: *span,
                    tokens: inner,
                };
                proof {
                    lemma_tokens_view_push(out@, rebuilt);
                }
                out.push(rebuilt);
            },
        }
        proof {
            lemma_interp_seq_push(prefix, token_view(stream@[i as int]), m);
            assert(prefix.push(token_view(stream@[i as int])) =~= tokens_view(
                stream@,
            ).subrange(0, i + 1 as int));
        }
        i = i + 1;
    }
    proof {
        assert(tokens_view(stream@).subrange(0, stream@.len() as int) =~= tokens_view(stream@));
    }
    out
}

/// Against the empty mapping, one token contributes exactly itself.
pub proof fn lemma_identity_token(t: TokenView)
    ensures
        interp_token(t, Map::empty()) == seq![t],
    decreases t,
{
    match t {
        TokenView::Group { delimiter, span, tokens } => {
            lemma_identity_seq(tokens);
        },
        _ => {
        },
    }
}

/// Interpolating against the empty mapping returns the tree unchanged,
/// structure and positions included.
pub proof fn lemma_identity_seq(ts: Seq<TokenView>)
    ensures
        interp_seq(ts, Map::empty()) == ts,
    decreases ts,
{
    if ts.len() == 0 {
        assert(interp_seq(ts, Map::empty()) =~= ts);
    } else {
        lemma_identity_seq(ts.subrange(0, ts.len() - 1));
        lemma_identity_token(ts[ts.len() - 1]);
        assert(interp_seq(ts, Map::empty()) =~= ts);
    }
}

/// A literal or punctuation token is copied unchanged whatever the mapping
/// holds: these kinds are never match targets, and none is ever dropped.
pub proof fn lemma_non_target_invariance(t: TokenView, m: Map<Seq<char>, Seq<TokenView>>)
    requires
        t is Literal || t is Punct,
    ensures
        interp_token(t, m) == seq![t],
{
}

/// An identifier whose name is a mapping key contributes exactly that key's
/// fragment — nothing of the original identifier remains in its place.
pub proof fn lemma_match_substitution(
    name: Seq<char>,
    span: Span,
    m: Map<Seq<char>, Seq<TokenView>>,
)
    requires
        m.contains_key(name),
    ensures
        interp_token(TokenView::Ident { name, span }, m) == m[name],
{
}

/// An identifier whose name is not a mapping key is copied unchanged, name
/// and position both.
pub proof fn lemma_non_match_preservation(
    name: Seq<char>,
    span: Span,
    m: Map<Seq<char>, Seq<TokenView>>,
)
    requires
        !m.contains_key(name),
    ensures
        interp_token(TokenView::Ident { name, span }, m) == seq![
            TokenView::Ident { name, span },
        ],
{
}

/// A group becomes a group with the same delimiter and position whose
/// children are the interpolation of the original children.
pub proof fn lemma_structural_recursion(
    delimiter: Delimiter,
    span: Span,
    tokens: Seq<TokenView>,
    m: Map<Seq<char>, Seq<TokenView>>,
)
    ensures
        interp_token(TokenView::Group { delimiter, span, tokens }, m) == seq![
            TokenView::Group { delimiter, span, tokens: interp_seq(tokens, m) },
        ],
{
}

/// Substitution is single pass: the fragment inserted for a bound identifier
/// appears verbatim, so an identifier inside it stays an identifier — even
/// when its own name is also a mapping key, it is not expanded in turn.
pub proof fn lemma_single_pass(
    name: Seq<char>,
    span: Span,
    m: Map<Seq<char>, Seq<TokenView>>,
    i: int,
)
    requires
        m.contains_key(name),
        0 <= i < m[name].len(),
        m[name][i] is Ident,
        m.contains_key(m[name][i]->name),
    ensures
        interp_token(TokenView::Ident { name, span }, m)[i] == m[name][i],
{
}

} // verus!
