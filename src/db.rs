pub mod face;
pub mod person;
pub mod photo;
pub mod query;

use vstd::prelude::*;

verus! {

/// The result row of a `COUNT(*)` query.
#[derive(Clone, Copy, Debug)]
pub struct Collection {
    pub total_count: i64,
}

} // verus!
