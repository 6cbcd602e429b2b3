//! Falcon: a verified domain model for an HTTP-request workbench.
//!
//! The library holds the configuration domain model (projects, environments,
//! pending requests), the variable-substitution engine, the base-URL composer
//! and the request-resolution pipeline. Network and file I/O live outside.

pub mod app_config;
pub mod db;
pub mod dispatch;
pub mod env;
pub mod events;
pub mod falcon_duration;
pub mod helpers;
pub mod http_method;
pub mod ids;
pub mod project;
pub mod request;
pub mod request_url;
pub mod rows;
pub mod select_options;
pub mod subst;
pub mod sync_sched;
pub mod tabs;
pub mod text;

use vstd::prelude::*;

verus! {

/// Ceiling of `bytes / 1024`: the size of a response body in kilobytes.
pub fn response_size_kb(bytes: usize) -> (kb: usize)
    ensures
        kb == (bytes + 1023) / 1024,
{
    let whole: usize = bytes / 1024;
    if bytes % 1024 == 0 {
        whole
    } else {
        whole + 1
    }
}

} // verus!
