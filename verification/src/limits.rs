//! The per-invocation budget of a sandboxed call.

use vstd::prelude::*;

verus! {

/// Default cap on a guest's linear memory: 64 MiB.
pub const DEFAULT_MAX_MEMORY_BYTES: usize = 67108864;

/// Default fuel for one call of a guest's `process`.
pub const DEFAULT_FUEL_PER_CALL: u64 = 200000000;

/// Default cap on the number of modules loaded at once.
pub const DEFAULT_MAX_INSTANCES: usize = 32;

/// Per-invocation resource limits.
#[derive(Debug, Clone, Copy, PartialEq, Eq)]
pub struct ExecutionLimits {
    /// Hard cap on a single module's linear memory, in bytes.
    pub max_memory_bytes: usize,
    /// CPU fuel budget of one `process` call.
    pub fuel_per_call: u64,
    /// Maximum number of modules loaded at once.
    pub max_instances: usize,
}

impl Default for ExecutionLimits {
    /// 64 MiB of memory, 200 000 000 units of fuel, 32 modules.
    fn default() -> (r: Self)
        ensures
            r.max_memory_bytes == DEFAULT_MAX_MEMORY_BYTES,
            r.fuel_per_call == DEFAULT_FUEL_PER_CALL,
            r.max_instances == DEFAULT_MAX_INSTANCES,
    {
        ExecutionLimits {
            max_memory_bytes: DEFAULT_MAX_MEMORY_BYTES,
            fuel_per_call: DEFAULT_FUEL_PER_CALL,
            max_instances: DEFAULT_MAX_INSTANCES,
        }
    }
}

} // verus!
