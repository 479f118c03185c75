//! Rows of the server's database and query conditions.
pub mod channel_dao;
pub mod client_dao;

use vstd::prelude::*;

verus! {

/// A condition on a column in a paged query.
pub enum QueryModel<T> {
    /// No condition.
    Unconditioned,
    Equal(T),
    Like(T),
    GreaterThan(T),
    LessThan(T),
    GreaterThanOrEqual(T),
    LessThanOrEqual(T),
    In(Vec<T>),
    NotEqual(T),
    NotLike(T),
    NotIn(Vec<T>),
    Between(T, T),
    NotBetween(T, T),
}

impl<T: Default> Default for QueryModel<T> {
    /// No condition.
    fn default() -> (r: Self)
        ensures
            r is Unconditioned,
    {
        QueryModel::Unconditioned
    }
}

} // verus!
