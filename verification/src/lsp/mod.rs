//! What the editor is shown: the texts of completions and hovers, and the
//! places and levels of diagnostics.

pub mod completion;
pub mod diagnostics;
pub mod document_store;
pub mod hover;
