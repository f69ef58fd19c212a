//! CPU affinity for processes and threads, and data kept per logical core.

pub mod affinity;
pub mod cpu_mask;
pub mod current_logical_core;
pub mod logical_core_identifier;
pub mod logical_cores;
pub mod number_of_cpus_to_utilize;
pub mod per_logical_core_data;

pub use affinity::AffinityCall;
pub use affinity::AffinityError;
pub use affinity::Platform;
pub use cpu_mask::CpuMask;
pub use current_logical_core::current_logical_core;
pub use logical_core_identifier::LogicalCoreIdentifier;
pub use logical_core_identifier::MAXIMUM_NUMBER_OF_LOGICAL_CORES;
pub use logical_cores::LogicalCores;
pub use number_of_cpus_to_utilize::NumberOfCpusToUtilize;
pub use per_logical_core_data::PerLogicalCoreData;
