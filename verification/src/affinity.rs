use crate::cpu_mask::CpuMask;
use crate::logical_core_identifier::LogicalCoreIdentifier;
use crate::logical_core_identifier::MAXIMUM_NUMBER_OF_LOGICAL_CORES;
use vstd::prelude::*;

verus! {

/// What a platform can do about affinity.
///
/// A platform that has no way to set an affinity is no failure: on it, setting one does nothing and succeeds.
#[derive(Debug, Clone, Copy, PartialEq, Eq, Structural)]
pub struct Platform {
    /// Whether the platform has a way to attempt to set the affinity of a process.
    pub is_setting_process_affinity_supported: bool,
    /// Whether the platform has a way to attempt to set the affinity of a thread.
    pub is_setting_thread_affinity_supported: bool,
    /// The number of logical cores that the platform's affinity mask has a bit for.
    pub maximum_logical_cores: usize,
}

impl Platform {
    /// Android: processes can be pinned, threads cannot.
    pub fn android() -> (platform: Self)
        ensures
            platform == (Platform {
                is_setting_process_affinity_supported: true,
                is_setting_thread_affinity_supported: false,
                maximum_logical_cores: 1024,
            }),
    {
        Platform {
            is_setting_process_affinity_supported: true,
            is_setting_thread_affinity_supported: false,
            maximum_logical_cores: 1024,
        }
    }

    /// Linux, and the platforms that share its calls (Emscripten, Fuchsia, uclibc): processes and threads can be pinned.
    ///
    /// Emscripten and Fuchsia take the call and answer that it is not implemented.
    pub fn linux() -> (platform: Self)
        ensures
            platform == (Platform {
                is_setting_process_affinity_supported: true,
                is_setting_thread_affinity_supported: true,
                maximum_logical_cores: 1024,
            }),
    {
        Platform {
            is_setting_process_affinity_supported: true,
            is_setting_thread_affinity_supported: true,
            maximum_logical_cores: 1024,
        }
    }

    /// DragonFlyBSD: processes and threads can be pinned, to any of 256 logical cores.
    pub fn dragonfly() -> (platform: Self)
        ensures
            platform == (Platform {
                is_setting_process_affinity_supported: true,
                is_setting_thread_affinity_supported: true,
                maximum_logical_cores: 256,
            }),
    {
        Platform {
            is_setting_process_affinity_supported: true,
            is_setting_thread_affinity_supported: true,
            maximum_logical_cores: 256,
        }
    }

    /// FreeBSD: threads can be pinned, to any of 256 logical cores; processes cannot.
    pub fn freebsd() -> (platform: Self)
        ensures
            platform == (Platform {
                is_setting_process_affinity_supported: false,
                is_setting_thread_affinity_supported: true,
                maximum_logical_cores: 256,
            }),
    {
        Platform {
            is_setting_process_affinity_supported: false,
            is_setting_thread_affinity_supported: true,
            maximum_logical_cores: 256,
        }
    }

    /// iOS and MacOS: nothing can be pinned.
    pub fn ios_macos() -> (platform: Self)
        ensures
            platform == Self::unsupported(),
    {
        Self::other()
    }

    /// NetBSD: processes and threads can be pinned; the operating system says which logical cores it knows.
    pub fn netbsd() -> (platform: Self)
        ensures
            platform == (Platform {
                is_setting_process_affinity_supported: true,
                is_setting_thread_affinity_supported: true,
                maximum_logical_cores: 65536,
            }),
    {
        Platform {
            is_setting_process_affinity_supported: true,
            is_setting_thread_affinity_supported: true,
            maximum_logical_cores: MAXIMUM_NUMBER_OF_LOGICAL_CORES,
        }
    }

    /// Windows: processes and threads can be pinned, to any of 64 logical cores.
    pub fn windows() -> (platform: Self)
        ensures
            platform == (Platform {
                is_setting_process_affinity_supported: true,
                is_setting_thread_affinity_supported: true,
                maximum_logical_cores: 64,
            }),
    {
        Platform {
            is_setting_process_affinity_supported: true,
            is_setting_thread_affinity_supported: true,
            maximum_logical_cores: 64,
        }
    }

    /// Any other platform (OpenBSD and BitRig among them): nothing can be pinned.
    pub fn other() -> (platform: Self)
        ensures
            platform == Self::unsupported(),
    {
        Platform {
            is_setting_process_affinity_supported: false,
            is_setting_thread_affinity_supported: false,
            maximum_logical_cores: 0,
        }
    }

    /// The platform on which nothing can be pinned.
    pub open spec fn unsupported() -> Self {
        Platform {
            is_setting_process_affinity_supported: false,
            is_setting_thread_affinity_supported: false,
            maximum_logical_cores: 0,
        }
    }
}

/// Why a set of logical cores was turned down before the operating system was asked anything.
#[derive(Debug, Clone, Copy, PartialEq, Eq, Structural)]
pub enum AffinityError {
    /// The set holds no logical core; an affinity of no cores means nothing on any platform.
    NoLogicalCores,
    /// The set holds a logical core that the platform's affinity mask has no bit for.
    LogicalCoreOutOfRange {
        /// The smallest such logical core in the set.
        logical_core_identifier: LogicalCoreIdentifier,
        /// The number of logical cores that the platform's affinity mask has a bit for.
        maximum_logical_cores: usize,
    },
}

/// What is to be asked of the operating system to set an affinity.
#[derive(Debug, PartialEq, Eq)]
pub enum AffinityCall {
    /// Nothing: the platform has no way to set this affinity, and the affinity counts as set.
    Nothing,
    /// The platform's call that sets the affinity, with this mask.
    SetAffinity(CpuMask),
}

} // verus!
