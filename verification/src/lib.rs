//! A build-time document transform: it scans an HTML tree for inline source
//! blocks — `script` elements of type `rust` whose text carries an embedded,
//! comment-delimited manifest fragment — extracts each block into an
//! independent compilation unit with a completed project descriptor, and
//! replaces the element, in place, by a bootstrap loader that imports the
//! unit's compiled artifact.
//!
//! The tree model, the marker protocol, the descriptor synthesis, the
//! naming contract between build output and loader, and the traversal are
//! verified; reading and writing files, the external compiler invocation
//! and the HTML parser and serializer stand outside, handing the library
//! plain values.

pub mod bootstrap;
pub mod extract;
pub mod laws;
pub mod manifest;
pub mod pipeline;
pub mod text;
pub mod tree;
