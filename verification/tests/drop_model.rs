use drop_root_caps::bounding::apply_drop;
use drop_root_caps::bounding::remove_capability;
use drop_root_caps::catalogue::catalogue;
use drop_root_caps::set_up;
use drop_root_caps::shim::planned_requests;
use drop_root_caps::shim::Platform;

#[test]
fn catalogue_contents_and_order() {
    assert_eq!(catalogue(), vec![0, 1, 2, 3, 4, 9, 32, 27]);
}

#[test]
fn remove_capability_removes_all_occurrences() {
    let set: Vec<u64> = vec![1, 5, 1, 7];
    assert_eq!(remove_capability(&set, 1), vec![5, 7]);
}

#[test]
fn remove_capability_absent_is_noop() {
    let set: Vec<u64> = vec![5, 7];
    assert_eq!(remove_capability(&set, 3), vec![5, 7]);
}

#[test]
fn remove_capability_empty_set() {
    let set: Vec<u64> = vec![];
    assert_eq!(remove_capability(&set, 0), Vec::<u64>::new());
}

#[test]
fn drop_pass_removes_exactly_the_catalogue() {
    let set: Vec<u64> = vec![0, 1, 2, 3, 4, 5, 8, 9, 27, 32, 100];
    assert_eq!(apply_drop(&set), vec![5, 8, 100]);
}

#[test]
fn drop_pass_completeness() {
    let set: Vec<u64> = (0..64).collect();
    let after = apply_drop(&set);
    for cap in catalogue() {
        assert!(!after.contains(&cap));
    }
    for cap in 0..64u64 {
        if !catalogue().contains(&cap) {
            assert!(after.contains(&cap));
        }
    }
}

#[test]
fn drop_pass_idempotent() {
    let set: Vec<u64> = vec![0, 1, 9, 42, 27, 7];
    let once = apply_drop(&set);
    let twice = apply_drop(&once);
    let thrice = apply_drop(&twice);
    assert_eq!(twice, once);
    assert_eq!(thrice, once);
}

#[test]
fn drop_pass_on_unprivileged_set_is_noop() {
    let set: Vec<u64> = vec![5, 8, 100];
    assert_eq!(apply_drop(&set), vec![5, 8, 100]);
}

#[test]
fn drop_pass_empty_set() {
    let set: Vec<u64> = vec![];
    assert_eq!(apply_drop(&set), Vec::<u64>::new());
}

#[test]
fn drop_pass_keeps_duplicates_of_survivors() {
    let set: Vec<u64> = vec![1, 1, 5, 5];
    assert_eq!(apply_drop(&set), vec![5, 5]);
}

#[test]
fn request_order_does_not_matter() {
    let set: Vec<u64> = vec![3, 9, 4, 50];
    let first_then_second = remove_capability(&remove_capability(&set, 9), 3);
    let second_then_first = remove_capability(&remove_capability(&set, 3), 9);
    assert_eq!(first_then_second, second_then_first);
}

#[test]
fn planned_requests_on_supported_kernel() {
    assert_eq!(planned_requests(Platform::Linux), catalogue());
}

#[test]
fn planned_requests_elsewhere_are_none() {
    for _ in 0..3 {
        assert_eq!(planned_requests(Platform::Other), Vec::<u64>::new());
    }
}

#[test]
fn set_up_does_nothing_and_never_fails() {
    set_up();
    set_up();
}
