//! YARA-X scanning for a binary-analysis host: rule text is gathered from the
//! configuration and from a rule directory, compiled source by source, run over the
//! contents of a document, and every match becomes a tag in the document.
//!
//! The host, the file system and the log are not reached from here. The caller
//! reads the document and the rule directory, hands them over as plain values, and
//! carries the tags and reports back.

use vstd::prelude::*;

pub mod compiler;
pub mod diagnostics;
pub mod directory;
pub mod document;
pub mod engine;
pub mod loader;
pub mod projector;
pub mod scanner;
pub mod settings;
pub mod sources;

pub use crate::loader::RuleLoader;
pub use crate::scanner::Scanner;

verus! {

/// The views of the items of a sequence.
pub open spec fn views<T: View>(items: Seq<T>) -> Seq<T::V> {
    items.map_values(|item: T| item@)
}

} // verus!
