//! The interpolate capability and the ordered-collection combinator.
//!
//! Any type may declare that it can expand a template by implementing
//! [`Interpolate`]: it states, as the spec function `expansion`, what it turns
//! a template into — typically one engine pass against a private mapping
//! built from its own fields — and its `interpolate` method is then proved to
//! return exactly that. A vector of such items expands a shared template once
//! per item and concatenates the results in item order.

use vstd::prelude::*;

use crate::engine::interp_seq;
use crate::mapping::Mapping;
use crate::token::Token;
use crate::token::TokenView;
use crate::token::lemma_tokens_view_concat;
use crate::token::tokens_view;

verus! {

/// The capability of expanding a shared template against a value's own
/// choice of placeholder bindings.
pub trait Interpolate {
    /// What this value turns a template into.
    spec fn expansion(&self, template: Seq<TokenView>) -> Seq<TokenView>;

    /// Expand `template`; the template itself is only read and can be reused.
    fn interpolate(&self, template: &Vec<Token>) -> (out: Vec<Token>)
        ensures
            tokens_view(out@) == self.expansion(tokens_view(template@)),
    ;
}

/// A mapping expands a template by one engine pass with itself as the
/// substitution mapping.
impl Interpolate for Mapping {
    open spec fn expansion(&self, template: Seq<TokenView>) -> Seq<TokenView> {
        interp_seq(template, self@)
    }

    fn interpolate(&self, template: &Vec<Token>) -> (out: Vec<Token>) {
        crate::engine::interpolate(template, self)
    }
}

/// What a sequence of capability-bearing items turns a template into: each
/// item's own expansion of the same template, concatenated in item order.
pub open spec fn items_expansion<T: Interpolate>(
    items: Seq<T>,
    template: Seq<TokenView>,
) -> Seq<TokenView>
    decreases items,
{
    if items.len() == 0 {
        Seq::empty()
    } else {
        items_expansion(items.subrange(0, items.len() - 1), template) + items[items.len()
            - 1].expansion(template)
    }
}

/// The ordered-collection combinator: every item of the vector expands the
/// same template against its own bindings, and the results are concatenated
/// in item order — no reordering, no merging, and an empty vector yields an
/// empty output.
impl<T: Interpolate> Interpolate for Vec<T> {
    open spec fn expansion(&self, template: Seq<TokenView>) -> Seq<TokenView> {
        items_expansion(self@, template)
    }

    fn interpolate(&self, template: &Vec<Token>) -> (out: Vec<Token>) {
        let mut out: Vec<Token> = Vec::new();
        let mut i: usize = 0;
        while i < self.len()
            invariant
                i <= self.len(),
                tokens_view(out@) == items_expansion(
                    self@.subrange(0, i as int),
                    tokens_view(template@),
                ),
            decreases self@.len() - i,
        {
            let mut part = self[i].interpolate(template);
            proof {
                lemma_tokens_view_concat(out@, part@);
                let s = self@.subrange(0, i + 1 as int);
                assert(s.subrange(0, s.len() - 1) =~= self@.subrange(0, i as int));
                assert(s[s.len() - 1] == self@[i as int]);
            }
            out.append(&mut part);
            i = i + 1;
        }
        proof {
            assert(self@.subrange(0, self@.len() as int) =~= self@);
        }
        out
    }
}

/// An empty item sequence yields an empty output.
pub proof fn lemma_combinator_empty<T: Interpolate>(template: Seq<TokenView>)
    ensures
        items_expansion(Seq::<T>::empty(), template) == Seq::<TokenView>::empty(),
{
}

/// For two items, the combinator's output is the first item's expansion
/// followed by the second item's expansion of the same template.
pub proof fn lemma_combinator_pair<T: Interpolate>(
    first: T,
    second: T,
    template: Seq<TokenView>,
)
    ensures
        items_expansion(seq![first, second], template) == first.expansion(template)
            + second.expansion(template),
{
    let s = seq![first, second];
    assert(s.subrange(0, 1) =~= seq![first]);
    assert(seq![first].subrange(0, 0) =~= Seq::<T>::empty());
    assert(items_expansion(Seq::<T>::empty(), template) == Seq::<TokenView>::empty());
    assert(seq![first][0] == first);
    assert(Seq::<TokenView>::empty() + first.expansion(template) =~= first.expansion(template));
    assert(items_expansion(seq![first], template) =~= first.expansion(template));
    assert(items_expansion(s, template) =~= first.expansion(template) + second.expansion(
        template,
    ));
}

} // verus!
