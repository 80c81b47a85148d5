//! Run-time interpolation of placeholder identifiers in token trees.
//!
//! A template is an ordered tree of tokens in which some identifiers act as
//! placeholders. Given a mapping from placeholder names to replacement
//! fragments, the engine walks the template once, depth first and left to
//! right, and produces a new tree in which every identifier whose name is a
//! mapping key is replaced by its fragment, while every other token is kept
//! verbatim, position included. Freshly inserted fragments are never scanned
//! again, so expansion is single pass and always terminates.

pub mod combine;
pub mod engine;
pub mod mapping;
pub mod token;

pub use crate::combine::Interpolate;
pub use crate::combine::items_expansion;
pub use crate::engine::interp_seq;
pub use crate::engine::interp_token;
pub use crate::engine::interpolate;
pub use crate::mapping::Mapping;
pub use crate::mapping::map_of_entries;

pub use crate::token::Delimiter;
pub use crate::token::Spacing;
pub use crate::token::Span;
pub use crate::token::Token;
pub use crate::token::TokenView;
pub use crate::token::clone_token;
pub use crate::token::clone_tokens;
pub use crate::token::token_view;
pub use crate::token::tokens_view;
