//! What this layer knows of the HTTP transport: its result codes and its
//! redirect policy.

use vstd::prelude::*;

verus! {

/// The request succeeded.
pub const HTTP_OK: i32 = 0;

/// The request was refused for want of credentials and is to be tried once
/// more after they have been filled in.
pub const HTTP_REAUTH: i32 = 4;

/// When the transport follows redirects.
#[allow(non_camel_case_types)]
#[derive(Clone, Copy, Debug, PartialEq, Eq, Structural)]
pub enum http_follow_config {
    HTTP_FOLLOW_NONE,
    HTTP_FOLLOW_ALWAYS,
    HTTP_FOLLOW_INITIAL,
}

} // verus!
