//! Host agent core: decodes kernel connection events, joins them with
//! process and user information, filters them, correlates opens with
//! closes, and renders the records that the sinks send out.

pub mod conn_track;
pub mod enums;
pub mod filters;
pub mod identity;
pub mod json;
pub mod net;
pub mod outputs;
pub mod parser;
pub mod pipeline;
pub mod proc;
pub mod proc_chomper;
pub mod state;
pub mod user_cache;
pub mod uuid_rep;

use vstd::prelude::*;

verus! {

/// Relies on std::path::Path::exists: whether the path names an existing
/// file or directory on this machine at the time of the call.
#[verifier::external_body]
pub fn check_directory(directory: &str) -> bool {
    std::path::Path::new(directory).exists()
}

} // verus!
