//! Extraction engine for a manga-hosting site: selector-driven metadata
//! extraction, reversal of the site's chapter-list obfuscation gate, and
//! deobfuscation plus sandboxed evaluation of the script fragment that
//! carries each chapter's signed image manifest.

pub mod brief;
pub mod codec;
pub mod comic;
pub mod dom;
pub mod engine;
pub mod jsonval;
pub mod pattern;
pub mod text;
pub mod types;
