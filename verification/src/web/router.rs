//! Request data shared by the routes.
use vstd::prelude::*;

verus! {

/// An `id` from the query string.
pub struct IdQuery {
    pub id: i64,
}

/// A single value from the query string.
pub struct SingleQuery<T> {
    pub value: T,
}

/// A name and an age.
pub struct QueryParams {
    pub name: String,
    pub age: u32,
}

} // verus!
