//! Environment variables for scripts.
use vstd::prelude::*;

verus! {

/// A source of environment variables.
pub trait EnvBridge {
    /// The value of a variable, if it is set.
    fn get(&self, name: &str) -> Option<String>;

    /// The names of all variables.
    fn keys(&self) -> Vec<String>;
}

} // verus!
