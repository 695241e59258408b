//! A typed client library for a movie-catalog listing API: a validating
//! request builder that serializes filter, sort and paging choices into a
//! canonical query URL, a pure decoder from JSON text to a typed response
//! model with optional fields throughout, and the cache-or-network policy
//! that a fetching front end follows.

pub mod api;
pub mod encode;
pub mod fetch;
pub mod input;
pub mod json;
pub mod request;
pub mod text;

use vstd::prelude::*;

verus! {

/// Page size the listing endpoint defaults to when no limit is chosen.
pub const DEFAULT_LIMIT: u8 = 50;

} // verus!
