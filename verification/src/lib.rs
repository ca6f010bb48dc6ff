//! Typed, memory-safe access to the objects of a content-addressed
//! version-control store: identifiers, kind-checked object payloads,
//! commit parsing, tree-diff records and history traversal.

pub mod bytes;
pub mod commit;
pub mod commit_laws;
pub mod diff;
pub mod http;
pub mod object;
pub mod oid;
pub mod revlist;
pub mod string_list;
pub mod text;
