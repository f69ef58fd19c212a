use cpu_affinity::AffinityCall;
use cpu_affinity::AffinityError;
use cpu_affinity::LogicalCores;
use cpu_affinity::Platform;
use std::collections::BTreeSet;

/// Stands in for an operating system: makes no call, and keeps the masks that it was handed.
struct RecordingPlatform {
    platform: Platform,
    process_calls: Vec<Vec<u64>>,
    thread_calls: Vec<Vec<u64>>,
}

impl RecordingPlatform {
    fn new(platform: Platform) -> Self {
        RecordingPlatform { platform, process_calls: Vec::new(), thread_calls: Vec::new() }
    }

    fn apply_process_affinity(&mut self, logical_cores: &LogicalCores) -> Result<(), AffinityError> {
        match logical_cores.set_process_affinity(&self.platform)? {
            AffinityCall::Nothing => Ok(()),
            AffinityCall::SetAffinity(mask) => {
                self.process_calls.push(mask.as_words().to_vec());
                Ok(())
            },
        }
    }

    fn apply_thread_affinity(&mut self, logical_cores: &LogicalCores) -> Result<(), AffinityError> {
        match logical_cores.set_thread_affinity(&self.platform)? {
            AffinityCall::Nothing => Ok(()),
            AffinityCall::SetAffinity(mask) => {
                self.thread_calls.push(mask.as_words().to_vec());
                Ok(())
            },
        }
    }
}

fn every_platform() -> Vec<Platform> {
    vec![
        Platform::android(),
        Platform::linux(),
        Platform::dragonfly(),
        Platform::freebsd(),
        Platform::ios_macos(),
        Platform::netbsd(),
        Platform::windows(),
        Platform::other(),
    ]
}

#[test]
fn platform_never_sees_a_call_with_no_logical_cores() {
    let empty = LogicalCores::from(BTreeSet::new());
    for platform in every_platform() {
        let mut recording = RecordingPlatform::new(platform);
        assert_eq!(recording.apply_process_affinity(&empty), Err(AffinityError::NoLogicalCores));
        assert_eq!(recording.apply_thread_affinity(&empty), Err(AffinityError::NoLogicalCores));
        assert!(recording.process_calls.is_empty());
        assert!(recording.thread_calls.is_empty());
    }
}

#[test]
fn platform_without_process_affinity_succeeds_without_a_call() {
    let stub = Platform {
        is_setting_process_affinity_supported: false,
        is_setting_thread_affinity_supported: false,
        maximum_logical_cores: 64,
    };
    let mut recording = RecordingPlatform::new(stub);
    let sets: Vec<Vec<u16>> = vec![vec![0], vec![1, 2, 3], vec![63], vec![64], vec![0, 65535]];
    for set in sets {
        let logical_cores = LogicalCores::from_identifiers(&set).unwrap();
        assert_eq!(recording.apply_process_affinity(&logical_cores), Ok(()));
        assert_eq!(recording.apply_thread_affinity(&logical_cores), Ok(()));
    }
    assert!(recording.process_calls.is_empty());
    assert!(recording.thread_calls.is_empty());
}

#[test]
fn platform_with_affinity_sees_one_call_with_the_mask() {
    let mut recording = RecordingPlatform::new(Platform::dragonfly());
    let logical_cores = LogicalCores::from_identifiers(&[1, 64, 255]).unwrap();
    assert_eq!(recording.apply_process_affinity(&logical_cores), Ok(()));
    assert_eq!(recording.process_calls, vec![vec![2u64, 1, 0, 0x8000_0000_0000_0000]]);
    assert!(recording.thread_calls.is_empty());
    assert_eq!(recording.apply_thread_affinity(&logical_cores), Ok(()));
    assert_eq!(recording.thread_calls, vec![vec![2u64, 1, 0, 0x8000_0000_0000_0000]]);
}

#[test]
fn platform_never_sees_a_logical_core_that_it_has_no_bit_for() {
    let mut recording = RecordingPlatform::new(Platform::windows());
    let logical_cores = LogicalCores::from_identifiers(&[3, 64]).unwrap();
    assert_eq!(
        recording.apply_process_affinity(&logical_cores),
        Err(AffinityError::LogicalCoreOutOfRange { logical_core_identifier: 64, maximum_logical_cores: 64 })
    );
    assert!(recording.process_calls.is_empty());
}
