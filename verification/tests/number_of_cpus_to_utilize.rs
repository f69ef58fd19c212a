use cpu_affinity::NumberOfCpusToUtilize;

#[test]
fn machine_with_one_cpu_runs_one_worker_on_core_zero_whatever_is_requested() {
    assert_eq!(NumberOfCpusToUtilize(None).number_of_worker_threads_and_first_core_index_for(1), (1, 0));
    assert_eq!(NumberOfCpusToUtilize(Some(0)).number_of_worker_threads_and_first_core_index_for(1), (1, 0));
    assert_eq!(NumberOfCpusToUtilize(Some(1)).number_of_worker_threads_and_first_core_index_for(1), (1, 0));
    assert_eq!(NumberOfCpusToUtilize(Some(3)).number_of_worker_threads_and_first_core_index_for(1), (1, 0));
    assert_eq!(NumberOfCpusToUtilize(Some(usize::MAX)).number_of_worker_threads_and_first_core_index_for(1), (1, 0));
}

#[test]
fn machine_that_reports_no_cpu_is_treated_as_having_one() {
    assert_eq!(NumberOfCpusToUtilize(None).number_of_worker_threads_and_first_core_index_for(0), (1, 0));
    assert_eq!(NumberOfCpusToUtilize(Some(0)).number_of_worker_threads_and_first_core_index_for(0), (1, 0));
    assert_eq!(NumberOfCpusToUtilize(Some(100)).number_of_worker_threads_and_first_core_index_for(0), (1, 0));
}

#[test]
fn machine_with_eight_cpus_and_no_request_runs_seven_workers_from_core_one() {
    assert_eq!(NumberOfCpusToUtilize(None).number_of_worker_threads_and_first_core_index_for(8), (7, 1));
}

#[test]
fn machine_with_eight_cpus_and_request_of_zero_runs_one_worker_on_core_zero() {
    assert_eq!(NumberOfCpusToUtilize(Some(0)).number_of_worker_threads_and_first_core_index_for(8), (1, 0));
}

#[test]
fn machine_with_eight_cpus_and_request_of_three_runs_three_workers_from_core_one() {
    assert_eq!(NumberOfCpusToUtilize(Some(3)).number_of_worker_threads_and_first_core_index_for(8), (3, 1));
}

#[test]
fn machine_with_eight_cpus_and_request_of_one_hundred_runs_seven_workers_from_core_one() {
    assert_eq!(NumberOfCpusToUtilize(Some(100)).number_of_worker_threads_and_first_core_index_for(8), (7, 1));
}

#[test]
fn request_of_one_runs_one_worker_on_core_zero() {
    assert_eq!(NumberOfCpusToUtilize(Some(1)).number_of_worker_threads_and_first_core_index_for(8), (1, 0));
}

#[test]
fn request_of_just_the_cap_is_granted() {
    assert_eq!(NumberOfCpusToUtilize(Some(7)).number_of_worker_threads_and_first_core_index_for(8), (7, 1));
    assert_eq!(NumberOfCpusToUtilize(Some(8)).number_of_worker_threads_and_first_core_index_for(8), (7, 1));
}

#[test]
fn machine_with_two_cpus_runs_one_worker_on_core_zero() {
    assert_eq!(NumberOfCpusToUtilize(None).number_of_worker_threads_and_first_core_index_for(2), (1, 0));
    assert_eq!(NumberOfCpusToUtilize(Some(5)).number_of_worker_threads_and_first_core_index_for(2), (1, 0));
}

#[test]
fn largest_machine_does_not_overflow() {
    assert_eq!(
        NumberOfCpusToUtilize(None).number_of_worker_threads_and_first_core_index_for(usize::MAX),
        (usize::MAX - 1, 1)
    );
    assert_eq!(
        NumberOfCpusToUtilize(Some(usize::MAX)).number_of_worker_threads_and_first_core_index_for(usize::MAX),
        (usize::MAX - 1, 1)
    );
}

#[test]
fn plan_for_this_machine_is_the_plan_for_its_number_of_cpus() {
    let requests = vec![None, Some(0), Some(1), Some(2), Some(3), Some(64), Some(usize::MAX)];
    for request in requests {
        let request = NumberOfCpusToUtilize(request);
        let number_of_cpus = num_cpus::get();
        let plan = request.number_of_worker_threads_and_first_core_index();
        assert_eq!(plan, request.number_of_worker_threads_and_first_core_index_for(number_of_cpus));
        assert!(plan.0 >= 1);
        assert!(plan.1 == 0 || plan.1 == 1);
        assert_eq!(plan.0 == 1, plan.1 == 0);
    }
}

#[test]
fn default_request_asks_for_machine_maximum() {
    assert_eq!(NumberOfCpusToUtilize::default(), NumberOfCpusToUtilize(None));
}

#[test]
fn requests_are_ordered_by_what_they_ask_for() {
    assert!(NumberOfCpusToUtilize(None) < NumberOfCpusToUtilize(Some(0)));
    assert!(NumberOfCpusToUtilize(Some(1)) < NumberOfCpusToUtilize(Some(2)));
    let request = NumberOfCpusToUtilize(Some(4));
    let copy = request;
    assert_eq!(request, copy);
    assert_eq!(format!("{:?}", request), "NumberOfCpusToUtilize(Some(4))");
}
