//! The substitution mapping handed to the engine: an association from
//! placeholder names to the replacement fragments rendered in their place.
//!
//! A fragment is a token sequence; substituting it may therefore insert zero,
//! one, or many tokens. Entries are kept in insertion order and a later entry
//! for the same name wins, so the model of a mapping is the map obtained by
//! folding the entries left to right.

use vstd::prelude::*;

use crate::token::Token;
use crate::token::TokenView;
use crate::token::tokens_view;

verus! {

/// An association from placeholder names to replacement fragments.
pub struct Mapping {
    entries: Vec<(String, Vec<Token>)>,
}

/// The map described by a sequence of entries: fold the entries in order,
/// so a later entry for the same name overwrites an earlier one.
pub open spec fn map_of_entries(es: Seq<(String, Vec<Token>)>) -> Map<Seq<char>, Seq<TokenView>>
    decreases es,
{
    if es.len() == 0 {
        Map::empty()
    } else {
        map_of_entries(es.subrange(0, es.len() - 1)).insert(
            es[es.len() - 1].0@,
            tokens_view(es[es.len() - 1].1@),
        )
    }
}

impl View for Mapping {
    type V = Map<Seq<char>, Seq<TokenView>>;

    closed spec fn view(&self) -> Map<Seq<char>, Seq<TokenView>> {
        map_of_entries(self.entries@)
    }
}

/// Entries at or past position `i` that never mention `name` leave the map's
/// value at `name` untouched.
proof fn lemma_map_of_entries_prefix(es: Seq<(String, Vec<Token>)>, i: int, name: Seq<char>)
    requires
        0 <= i <= es.len(),
        forall|j: int| i <= j < es.len() ==> #[trigger] es[j].0@ != name,
    ensures
        map_of_entries(es).contains_key(name) == map_of_entries(
            es.subrange(0, i),
        ).contains_key(name),
        map_of_entries(es).contains_key(name) ==> map_of_entries(es)[name] == map_of_entries(
            es.subrange(0, i),
        )[name],
    decreases es.len() - i,
{
    if i == es.len() {
        assert(es.subrange(0, i) =~= es);
    } else {
        lemma_map_of_entries_prefix(es, i + 1, name);
        let s = es.subrange(0, i + 1);
        assert(s.subrange(0, s.len() - 1) =~= es.subrange(0, i));
        assert(s[s.len() - 1] == es[i]);
    }
}

impl Mapping {
    /// A mapping with no entries at all.
    pub fn new() -> (r: Mapping)
        ensures
            r@ == Map::<Seq<char>, Seq<TokenView>>::empty(),
    {
        Mapping { entries: Vec::new() }
    }

    /// Bind `name` to `fragment`, overriding any earlier binding of `name`.
    pub fn insert(&mut self, name: String, fragment: Vec<Token>)
        ensures
            final(self)@ == old(self)@.insert(name@, tokens_view(fragment@)),
    {
        proof {
            let es = self.entries@;
            let e = (name, fragment);
            assert(es.push(e).subrange(0, es.push(e).len() - 1) =~= es);
            assert(es.push(e)[es.push(e).len() - 1] == e);
        }
        self.entries.push((name, fragment));
    }

    /// Look `name` up: the bound fragment if `name` is a key, nothing
    /// otherwise.
    pub fn get(&self, name: &String) -> (r: Option<&Vec<Token>>)
        ensures
            match r {
                Some(fragment) => self@.contains_key(name@) && tokens_view(fragment@)
                    == self@[name@],
                None => !self@.contains_key(name@),
            },
    {
        let mut i: usize = self.entries.len();
        while i > 0
            invariant
                i <= self.entries@.len(),
                forall|j: int|
                    i <= j < self.entries@.len() ==> #[trigger] self.entries@[j].0@ != name@,
            decreases i,
        {
            i = i - 1;
            let entry = &self.entries[i];
            if entry.0 == *name {
                proof {
                    lemma_map_of_entries_prefix(self.entries@, i + 1, name@);
                    let s = self.entries@.subrange(0, i + 1);
                    assert(s.subrange(0, s.len() - 1) =~= self.entries@.subrange(0, i as int));
                    assert(s[s.len() - 1] == self.entries@[i as int]);
                }
                return Some(&entry.1);
            }
        }
        proof {
            lemma_map_of_entries_prefix(self.entries@, 0, name@);
            assert(self.entries@.subrange(0, 0) =~= Seq::<(String, Vec<Token>)>::empty());
        }
        None
    }
}

} // verus!
