//! A cache of GitHub license data shared between its clones.

use std::collections::HashMap;
use std::sync::{Arc, Mutex};

use vstd::prelude::*;

use crate::licenses::License;

verus! {

/// A mutual-exclusion lock of std.
#[verifier::external_type_specification]
#[verifier::external_body]
#[verifier::reject_recursive_types(T)]
pub struct ExMutex<T: ?Sized>(Mutex<T>);

/// The shared, initially empty slot behind a cache.
///
/// Calls `Mutex::new(None)`; nothing is stated of the new lock.
#[verifier::external_body]
fn empty_slot() -> Mutex<Option<HashMap<String, License>>> {
    Mutex::new(None)
}

/// Stores licenses in the slot (`Mutex::lock`, then assignment); a poisoned
/// lock leaves the slot as it is.
///
/// The slot is shared by all clones of a cache and may change between calls,
/// so nothing is stated of its contents.
#[verifier::external_body]
fn store(slot: &Mutex<Option<HashMap<String, License>>>, licenses: HashMap<String, License>) {
    if let Ok(mut cache) = slot.lock() {
        *cache = Some(licenses);
    }
}

/// A copy of the slot's contents (`Mutex::lock`, with the contents cloned
/// out of the guard); a poisoned lock gives `None`.
///
/// The slot is shared by all clones of a cache and may change between calls,
/// so nothing is stated of the result.
#[verifier::external_body]
fn load(slot: &Mutex<Option<HashMap<String, License>>>) -> Option<HashMap<String, License>> {
    if let Ok(cache) = slot.lock() {
        cache.clone()
    } else {
        None
    }
}

/// Thread-safe cache for GitHub licenses; clones share the same slot.
pub struct LicenseCache {
    licenses: Arc<Mutex<Option<HashMap<String, License>>>>,
}

impl LicenseCache {
    /// Creates a new, empty license cache.
    pub fn new() -> Self {
        LicenseCache { licenses: Arc::new(empty_slot()) }
    }

    /// Sets the cached licenses, for this cache and all its clones.
    pub fn set(&self, licenses: HashMap<String, License>) {
        store(&self.licenses, licenses)
    }

    /// A copy of the cached licenses, if any.
    pub fn get(&self) -> Option<HashMap<String, License>> {
        load(&self.licenses)
    }

    /// Whether licenses are cached.
    pub fn is_cached(&self) -> bool {
        load(&self.licenses).is_some()
    }
}

impl Clone for LicenseCache {
    /// A handle on the same shared slot.
    fn clone(&self) -> Self {
        LicenseCache { licenses: self.licenses.clone() }
    }
}

impl Default for LicenseCache {
    fn default() -> Self {
        Self::new()
    }
}

} // verus!
