//! Typed query strings for the project-listing endpoint of a code-hosting REST API.
use vstd::prelude::*;

pub mod projects;

pub use projects::{Listing, ListingOrderBy, ListingSort, ListingView, ListingVisibility};

verus! {

/// Something that can render itself as the path and query of a request.
pub trait BuildQuery {
    fn build_query(&self) -> String;
}

} // verus!
