//! Key-value storage for scripts.
use vstd::prelude::*;

verus! {

/// A place where scripts keep text by key.
pub trait LocalStorageBridge {
    fn get_item(&self, key: &str) -> Option<String>;

    fn set_item(&mut self, key: &str, value: &str);

    fn remove_item(&mut self, key: &str);

    fn clear(&mut self);
}

} // verus!
