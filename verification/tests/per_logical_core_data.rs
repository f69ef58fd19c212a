use cpu_affinity::LogicalCores;
use cpu_affinity::PerLogicalCoreData;

fn logical_cores_of(logical_core_identifiers: &[u16]) -> LogicalCores {
    LogicalCores::from_identifiers(logical_core_identifiers).unwrap()
}

#[test]
fn new_from_two_and_five_has_six_slots() {
    let data = PerLogicalCoreData::new(&logical_cores_of(&[2, 5]), |logical_core_identifier| {
        logical_core_identifier as u32 * 10
    });
    assert_eq!(data.len(), 6);
    assert_eq!(data.get(0), None);
    assert_eq!(data.get(1), None);
    assert_eq!(data.get(2), Some(&20));
    assert_eq!(data.get(3), None);
    assert_eq!(data.get(4), None);
    assert_eq!(data.get(5), Some(&50));
    assert_eq!(&*data, &[None, None, Some(20), None, None, Some(50)][..]);
}

#[test]
fn new_calls_the_constructor_once_for_each_logical_core_in_ascending_order() {
    let mut called = Vec::new();
    let data = PerLogicalCoreData::new(&logical_cores_of(&[7, 0, 3]), |logical_core_identifier| {
        called.push(logical_core_identifier);
        called.len()
    });
    assert_eq!(called, vec![0, 3, 7]);
    assert_eq!(&*data, &[Some(1), None, None, Some(2), None, None, None, Some(3)][..]);
}

#[test]
fn new_reaches_the_highest_logical_core_there_is() {
    let data = PerLogicalCoreData::new(&logical_cores_of(&[65535]), |logical_core_identifier| logical_core_identifier);
    assert_eq!(data.len(), 65536);
    assert_eq!(data.get(65535), Some(&65535));
    assert_eq!(data.get(65534), None);
    assert_eq!(data.logical_core_indices(), vec![65535]);
}

#[test]
fn new_for_logical_core_zero_has_one_slot() {
    let data = PerLogicalCoreData::new(&logical_cores_of(&[0]), |_| 'a');
    assert_eq!(&*data, &[Some('a')][..]);
}

#[test]
fn populate_per_logical_core_data_is_new() {
    let logical_cores = logical_cores_of(&[1, 2]);
    let data = logical_cores.populate_per_logical_core_data(|logical_core_identifier| logical_core_identifier + 1);
    assert_eq!(data, PerLogicalCoreData::new(&logical_cores, |logical_core_identifier| logical_core_identifier + 1));
    assert_eq!(&*data, &[None, Some(2), Some(3)][..]);
}

#[test]
fn empty_has_a_slot_for_each_logical_core_and_all_are_empty() {
    let data: PerLogicalCoreData<u8> = PerLogicalCoreData::empty(&logical_cores_of(&[0, 1, 2]));
    assert_eq!(data.len(), 3);
    assert_eq!(&*data, &[None, None, None][..]);
    assert_eq!(data.logical_core_indices(), Vec::<u16>::new());
    let sparse: PerLogicalCoreData<u8> = PerLogicalCoreData::empty(&logical_cores_of(&[2, 5]));
    assert_eq!(sparse.len(), 2);
    let by_logical_cores: PerLogicalCoreData<u8> = logical_cores_of(&[0, 1, 2]).empty_per_logical_core_data();
    assert_eq!(by_logical_cores, data);
}

#[test]
fn empty_then_set_for_every_logical_core_then_get() {
    let logical_cores = logical_cores_of(&[0, 1, 2, 3]);
    let mut data = PerLogicalCoreData::empty(&logical_cores);
    for logical_core_identifier in logical_cores.iter() {
        data.set(*logical_core_identifier, *logical_core_identifier as u64 * 100 + 1);
    }
    assert_eq!(data.get(0), Some(&1));
    assert_eq!(data.get(1), Some(&101));
    assert_eq!(data.get(2), Some(&201));
    assert_eq!(data.get(3), Some(&301));
    assert_eq!(data.get(4), None);
    assert_eq!(data.get(65535), None);
    assert_eq!(data.logical_core_indices(), vec![0, 1, 2, 3]);
}

#[test]
fn set_overwrites() {
    let mut data = PerLogicalCoreData::new(&logical_cores_of(&[1]), |_| "first");
    data.set(1, "second");
    data.set(0, "zero");
    assert_eq!(&*data, &[Some("zero"), Some("second")][..]);
}

#[test]
fn get_beyond_the_slots_is_absent() {
    let data = PerLogicalCoreData::new(&logical_cores_of(&[1]), |_| 1u8);
    assert_eq!(data.get(2), None);
    assert_eq!(data.get(65535), None);
}

#[test]
fn get_mut_changes_the_data_in_place() {
    let mut data = PerLogicalCoreData::new(&logical_cores_of(&[1, 3]), |logical_core_identifier| {
        logical_core_identifier as i32
    });
    *data.get_mut(3).unwrap() += 40;
    assert_eq!(&*data, &[None, Some(1), None, Some(43)][..]);
    assert_eq!(data.get_mut(0), None);
    assert_eq!(data.get_mut(2), None);
    assert_eq!(data.get_mut(4), None);
    assert_eq!(&*data, &[None, Some(1), None, Some(43)][..]);
}

#[test]
fn get_or_falls_back_only_when_there_is_no_data() {
    let data = PerLogicalCoreData::new(&logical_cores_of(&[1, 3]), |logical_core_identifier| {
        logical_core_identifier * 2
    });
    assert_eq!(*data.get_or(3, || panic!("there is data for 3")), 6);
    assert_eq!(*data.get_or(2, || 1), 2);
    assert_eq!(*data.get_or(0, || 3), 6);
    assert_eq!(*data.get_or(9, || 1), 2);
    assert_eq!(*data.get_or_current(3, 1), 6);
    assert_eq!(*data.get_or_current(2, 1), 2);
    assert_eq!(*data.get_or_current(65535, 3), 6);
}

#[test]
fn get_mut_or_falls_back_only_when_there_is_no_data() {
    let mut data = PerLogicalCoreData::new(&logical_cores_of(&[1, 3]), |logical_core_identifier| {
        logical_core_identifier * 2
    });
    *data.get_mut_or(3, || panic!("there is data for 3")) = 30;
    *data.get_mut_or(2, || 1) = 10;
    assert_eq!(&*data, &[None, Some(10), None, Some(30)][..]);
    *data.get_mut_or_current(1, 3) += 1;
    *data.get_mut_or_current(7, 3) += 2;
    assert_eq!(&*data, &[None, Some(11), None, Some(32)][..]);
}

#[test]
fn take_then_get_is_absent() {
    let mut data = PerLogicalCoreData::new(&logical_cores_of(&[0, 2]), |logical_core_identifier| {
        logical_core_identifier + 7
    });
    assert_eq!(data.take(2), Some(9));
    assert_eq!(data.get(2), None);
    assert_eq!(data.take(2), None);
    assert_eq!(data.get(2), None);
    assert_eq!(data.take(1), None);
    assert_eq!(data.get(1), None);
    assert_eq!(data.take(3), None);
    assert_eq!(data.get(3), None);
    assert_eq!(data.take(65535), None);
    assert_eq!(&*data, &[Some(7), None, None][..]);
}

#[test]
fn replace_after_set_returns_what_was_set() {
    let mut data: PerLogicalCoreData<&str> = PerLogicalCoreData::empty(&logical_cores_of(&[0, 1]));
    assert_eq!(data.replace(0, "zero"), None);
    data.set(1, "v1");
    assert_eq!(data.replace(1, "v2"), Some("v1"));
    assert_eq!(data.get(1), Some(&"v2"));
    assert_eq!(data.get(0), Some(&"zero"));
}

#[test]
fn logical_core_indices_are_those_with_data_in_ascending_order() {
    let mut data = PerLogicalCoreData::new(&logical_cores_of(&[6, 1, 4]), |logical_core_identifier| {
        logical_core_identifier
    });
    assert_eq!(data.logical_core_indices(), vec![1, 4, 6]);
    data.take(4);
    assert_eq!(data.logical_core_indices(), vec![1, 6]);
    data.set(0, 0);
    data.set(5, 5);
    assert_eq!(data.logical_core_indices(), vec![0, 1, 5, 6]);
    for logical_core_identifier in 0..10 {
        assert_eq!(
            data.logical_core_indices().contains(&logical_core_identifier),
            data.get(logical_core_identifier).is_some()
        );
    }
}

#[test]
fn map_keeps_the_length_and_which_slots_have_data() {
    let data = PerLogicalCoreData::new(&logical_cores_of(&[2, 5]), |logical_core_identifier| {
        logical_core_identifier as u32 * 10
    });
    let mut called = Vec::new();
    let mapped = data.map(|logical_core_identifier, value| {
        called.push((logical_core_identifier, value));
        format!("{}:{}", logical_core_identifier, value)
    });
    assert_eq!(called, vec![(2, 20), (5, 50)]);
    assert_eq!(mapped.len(), 6);
    assert_eq!(
        &*mapped,
        &[None, None, Some("2:20".to_string()), None, None, Some("5:50".to_string())][..]
    );
    assert_eq!(mapped.logical_core_indices(), vec![2, 5]);
}

#[test]
fn map_of_empty_data_is_empty() {
    let data: PerLogicalCoreData<u8> = PerLogicalCoreData::empty(&logical_cores_of(&[0, 1]));
    let mapped = data.map(|_, value| value as u16);
    assert_eq!(&*mapped, &[None, None][..]);
}

#[test]
fn index_is_the_slot() {
    let data = PerLogicalCoreData::new(&logical_cores_of(&[1]), |_| 4u8);
    assert_eq!(data[0u16], None);
    assert_eq!(data[1u16], Some(4));
}

#[test]
fn clone_of_data_is_equal_to_it() {
    let data = PerLogicalCoreData::new(&logical_cores_of(&[1, 2]), |logical_core_identifier| {
        vec![logical_core_identifier]
    });
    let clone = data.clone();
    assert_eq!(clone, data);
    assert_eq!(clone.len(), 3);
    assert_eq!(clone.get(2), Some(&vec![2]));
}
