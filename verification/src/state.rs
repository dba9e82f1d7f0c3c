//! What the application shares between its requests.

use crate::store::Store;
use vstd::prelude::*;

verus! {

/// The shared state: the store of accounts and sessions.
pub struct State {
    pub db: Store,
}

} // verus!
