use cpu_affinity::current_logical_core;

#[test]
fn failure_to_tell_the_current_logical_core_is_none() {
    assert_eq!(current_logical_core(-1), None);
}

#[test]
fn current_logical_core_is_the_number_reported() {
    assert_eq!(current_logical_core(0), Some(0));
    assert_eq!(current_logical_core(5), Some(5));
    assert_eq!(current_logical_core(1023), Some(1023));
    assert_eq!(current_logical_core(65535), Some(65535));
}

#[test]
fn current_logical_core_keeps_the_low_sixteen_bits() {
    assert_eq!(current_logical_core(65536), Some(0));
    assert_eq!(current_logical_core(65536 + 3), Some(3));
    assert_eq!(current_logical_core(i32::MAX), Some(65535));
    assert_eq!(current_logical_core(-2), Some(65534));
    assert_eq!(current_logical_core(i32::MIN), Some(0));
}
