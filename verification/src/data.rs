//! The plain-text error a storage adapter reports when it fails for a
//! reason the caller cannot act on.

use vstd::prelude::*;

verus! {

/// A storage failure described by its text alone; surfaced as an
/// internal error and never retried by this crate.
#[derive(Debug)]
pub struct DataAccessErr {
    pub message: String,
}

impl DataAccessErr {
    pub fn new(message: &str) -> (e: DataAccessErr)
        ensures
            e.message@ == message@,
    {
        DataAccessErr { message: message.to_owned() }
    }
}

} // verus!
