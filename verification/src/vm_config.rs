//! Runtime configuration for the VM: a plain data holder with fixed
//! defaults. No behavior lives here; the VM consumes these values.

use vstd::prelude::*;

verus! {

/// Highest binary-format version the VM accepts by default.
pub const VERSION_MAX: u32 = 7;

/// Default cap on the length of a constant vector.
pub const DEFAULT_MAX_CONSTANT_VECTOR_LEN: u64 = 128 * 1024;

/// Default cap on value nesting depth for structs.
pub const DEFAULT_MAX_VALUE_NEST_DEPTH: u64 = 128;

/// Runtime limits enforced while the VM executes.
#[derive(Debug, Clone)]
pub struct VMRuntimeLimitsConfig {
    /// Maximum number of items that can be pushed into a vector.
    pub vector_len_max: u64,
    /// Maximum value nest depth for structs, when bounded.
    pub max_value_nest_depth: Option<u64>,
    /// Include hardened one-time-witness checks.
    pub hardened_otw_check: bool,
}

impl VMRuntimeLimitsConfig {
    pub open spec fn is_default(self) -> bool {
        &&& self.vector_len_max == DEFAULT_MAX_CONSTANT_VECTOR_LEN
        &&& self.max_value_nest_depth == Some(DEFAULT_MAX_VALUE_NEST_DEPTH)
        &&& self.hardened_otw_check
    }
}

impl Default for VMRuntimeLimitsConfig {
    fn default() -> (r: VMRuntimeLimitsConfig)
        ensures
            r.is_default(),
    {
        VMRuntimeLimitsConfig {
            vector_len_max: DEFAULT_MAX_CONSTANT_VECTOR_LEN,
            max_value_nest_depth: Some(DEFAULT_MAX_VALUE_NEST_DEPTH),
            hardened_otw_check: true,
        }
    }
}

/// Configuration for profiling the VM.
#[derive(Debug, Clone)]
pub struct VMProfilerConfig {
    /// User-configured full output path override.
    pub full_path: Option<String>,
    /// Whether to track bytecode instructions.
    pub track_bytecode_instructions: bool,
    /// Whether to use the long name for functions.
    pub use_long_function_name: bool,
}

impl VMProfilerConfig {
    pub open spec fn is_default(self) -> bool {
        &&& self.full_path is None
        &&& !self.track_bytecode_instructions
        &&& !self.use_long_function_name
    }

    /// The default profiler configuration when profiling is switched on, and
    /// nothing otherwise. The caller decides `profiling_enabled` (in practice
    /// from its environment); this function is total in that decision.
    pub fn get_default_config_if_enabled(profiling_enabled: bool) -> (r: Option<VMProfilerConfig>)
        ensures
            profiling_enabled ==> (r matches Some(c) && c.is_default()),
            !profiling_enabled ==> r is None,
    {
        if profiling_enabled {
            Some(VMProfilerConfig::default())
        } else {
            None
        }
    }
}

impl Default for VMProfilerConfig {
    fn default() -> (r: VMProfilerConfig)
        ensures
            r.is_default(),
    {
        VMProfilerConfig {
            full_path: None,
            track_bytecode_instructions: false,
            use_long_function_name: false,
        }
    }
}

/// Dynamic config options for the VM.
#[derive(Debug, Clone)]
pub struct VMConfig {
    pub max_binary_format_version: u32,
    pub runtime_limits_config: VMRuntimeLimitsConfig,
    /// Check invariant violations when swapping locals.
    pub enable_invariant_violation_check_in_swap_loc: bool,
    /// Require that no trailing or metadata bytes remain after
    /// deserialization.
    pub check_no_extraneous_bytes_during_deserialization: bool,
    /// Profiler configuration, when profiling is active.
    pub profiler_config: Option<VMProfilerConfig>,
    /// Augment VM errors with execution state.
    pub error_execution_state: bool,
}

impl VMConfig {
    pub open spec fn is_default(self) -> bool {
        &&& self.max_binary_format_version == VERSION_MAX
        &&& self.runtime_limits_config.is_default()
        &&& self.enable_invariant_violation_check_in_swap_loc
        &&& !self.check_no_extraneous_bytes_during_deserialization
        &&& self.profiler_config is None
        &&& self.error_execution_state
    }
}

impl Default for VMConfig {
    fn default() -> (r: VMConfig)
        ensures
            r.is_default(),
    {
        VMConfig {
            max_binary_format_version: VERSION_MAX,
            runtime_limits_config: VMRuntimeLimitsConfig::default(),
            enable_invariant_violation_check_in_swap_loc: true,
            check_no_extraneous_bytes_during_deserialization: false,
            profiler_config: None,
            error_execution_state: true,
        }
    }
}

} // verus!
