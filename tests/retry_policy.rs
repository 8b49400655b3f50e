use placement_center::retry::{
    retry_sleep_time, retry_times, PlacementCenterInterface, PlacementCenterService, RetryAction,
    RetryState,
};

#[test]
fn retry_budget_is_three() {
    assert_eq!(retry_times(), 3);
}

#[test]
fn retry_sleep_grows_two_seconds_per_attempt() {
    assert_eq!(retry_sleep_time(0), 0);
    assert_eq!(retry_sleep_time(1), 2);
    assert_eq!(retry_sleep_time(2), 4);
    assert_eq!(retry_sleep_time(3), 6);
}

#[test]
fn retry_two_unreachable_addresses() {
    let addrs = vec!["127.0.0.1:1228".to_string(), "127.0.0.1:1229".to_string()];
    let mut state = RetryState::new(addrs.len());
    let mut tried: Vec<usize> = Vec::new();
    let mut sleeps: Vec<u64> = Vec::new();
    loop {
        tried.push(state.address_index());
        match state.on_failure() {
            RetryAction::Sleep(s) => sleeps.push(s),
            RetryAction::GiveUp => break,
        }
    }
    assert_eq!(sleeps, vec![2, 4, 6]);
    assert_eq!(tried, vec![1, 0, 1, 0]);
}

#[test]
fn retry_single_address_is_reused() {
    let mut state = RetryState::new(1);
    assert_eq!(state.address_index(), 0);
    assert_eq!(state.on_failure(), RetryAction::Sleep(2));
    assert_eq!(state.address_index(), 0);
}

#[test]
fn retry_gives_up_after_last_retry() {
    let mut state = RetryState { times: 4, addr_count: 3 };
    assert_eq!(state.on_failure(), RetryAction::GiveUp);
    assert_eq!(state.times, 4);
}

#[test]
fn service_and_interface_kinds() {
    assert_ne!(PlacementCenterService::Kv, PlacementCenterService::OpenRaft);
    assert_ne!(PlacementCenterInterface::KvSet, PlacementCenterInterface::Vote);
}
