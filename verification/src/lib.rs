//! Extraction of reading content and descriptive metadata from e-book
//! containers.
//!
//! A container is modelled as plain data: a manifest of resources, a spine
//! that fixes the reading order, and the package's descriptive fields. On that
//! model the crate resolves references between documents, inlines images,
//! assembles the reading content, derives the metadata record and computes the
//! content checksum.
//!
//! The functions carry contracts that Verus proves. Where a function calls
//! into another crate, the call stands in a small function of its own whose
//! contract is taken on trust; its documentation says what is claimed.
//!
//! - `path`, `path_laws`: resolution of references, and what holds of it
//! - `container`: manifest, spine and lookups
//! - `content`, `content_laws`: inlining of images and assembly of the content
//! - `metadata`: the record of a book and its cover
//! - `checksum`: the checksum of a file
//! - `files`: the files written beside a book
//! - `import`: the steps of taking a book into a library
//! - `auth`: hashing and verification of passwords
//! - `response`: the record of a book as handed to a caller
//! - `text`: helpers on strings

pub mod text;
pub mod path;
pub mod path_laws;
pub mod container;
pub mod checksum;
pub mod content;
pub mod content_laws;
pub mod metadata;
pub mod files;
pub mod import;
pub mod auth;
pub mod response;
