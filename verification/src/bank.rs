use vstd::prelude::*;

use std::collections::HashMap;

verus! {

/// The bank: the stock of each resource, keyed by `Resource::key`.
pub struct Bank {
    pub resources: HashMap<u8, u8>,
}

} // verus!
