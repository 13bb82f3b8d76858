//! The record type a relational registry's capabilities endpoint is
//! read into.  The client that issues the request lives outside the
//! library, with the rest of the transport.

use vstd::prelude::*;

verus! {

/// One capability of a relational registry service.
#[derive(Debug)]
pub struct RegTapCapability {}

} // verus!
