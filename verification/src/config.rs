//! Limits that scripts run under.
use vstd::prelude::*;

verus! {

#[derive(Clone, Copy, Debug, PartialEq, Eq, Structural)]
pub struct FormLogicConfig {
    pub max_instructions: Option<u64>,
    pub max_wall_time_ms: Option<u64>,
    pub await_timeout_ms: Option<u64>,
    /// Maximum number of heap objects (strings, arrays, hashes, closures, etc.).
    pub max_heap_objects: Option<usize>,
    /// Maximum heap memory in bytes, checked alongside `max_heap_objects`.
    pub max_heap_bytes: Option<usize>,
    pub enable_vm_profiling: bool,
}

/// The limits that hold where none are set.
pub open spec fn default_config() -> FormLogicConfig {
    FormLogicConfig {
        max_instructions: Some(100_000_000),
        max_wall_time_ms: Some(5_000),
        await_timeout_ms: Some(30_000),
        max_heap_objects: Some(100_000),
        max_heap_bytes: Some(67_108_864),
        enable_vm_profiling: false,
    }
}

impl Default for FormLogicConfig {
    fn default() -> (c: Self)
        ensures
            c == default_config(),
    {
        FormLogicConfig {
            max_instructions: Some(100_000_000),
            max_wall_time_ms: Some(5_000),
            await_timeout_ms: Some(30_000),
            max_heap_objects: Some(100_000),
            max_heap_bytes: Some(64 * 1024 * 1024),
            enable_vm_profiling: false,
        }
    }
}

} // verus!
