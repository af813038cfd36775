//! Minimal ordered font-family selection for Unicode text.
//!
//! Given per-codepoint font-support metadata organised into fixed codepoint
//! blocks, this crate resolves, for a piece of text, the ordered list of font
//! families needed to render it, and derives coverage reports (full listing,
//! script conflicts, missing sibling variants).

pub mod client;
pub mod filenames;
pub mod laws;
pub mod report;
pub mod script;
pub mod sortutil;
pub mod strutil;
