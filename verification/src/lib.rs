//! Locates a genome assembly's sequence files inside an input directory
//! tree, checks that a fixed set of metadata files is present, and converts
//! raw nucleotide text into a compact two-bit-per-base representation.
//!
//! The filesystem traversal itself is an external collaborator: callers walk
//! the input root and hand the library a plain list of [`discovery::FsEntry`]
//! values (path, base name, file flag) together with the contents of the
//! files they read. Everything the library decides or computes from those
//! values is verified.

pub mod discovery;
pub mod encoder;
pub mod pipeline;
pub mod text;
