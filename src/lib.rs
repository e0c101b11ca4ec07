//! Secure access to a database behind an SSH jump host, and the conversion of
//! loosely written query text into a typed query document.
use vstd::prelude::*;

pub mod descriptor;
pub mod error;
pub mod host_key;
pub mod paging;
pub mod query;
pub mod registry;
pub mod secret;
pub mod tunnel;

verus! {

} // verus!
