//! The API's error.
use crate::storage::StorageError;
use vstd::prelude::*;

verus! {

/// A request failed because the store failed.
#[derive(Debug)]
pub struct ApiError(pub StorageError);

} // verus!
