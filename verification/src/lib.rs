//! Semantic-annotation layer of a compiler frontend: location-tagged facts
//! recorded while checking (autocomplete candidates, macro-call details,
//! missing match arms, ellipsis expansions), later rendered as diagnostics
//! or filtered by cursor position.

pub mod alias;
pub mod ide;
pub mod loc;
pub mod pattern;
pub mod render;
pub mod text;
pub mod vm_config;
