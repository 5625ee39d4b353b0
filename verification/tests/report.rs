use http_frontend::config::ServerSocketType;
use http_frontend::connection::ConnectionTrackerState;
use http_frontend::handlers::connection_info::{
    newest_indices, ConnectionInfoDTO, ConnectionTrackerStateDTO, MAX_REPORTED_CONNECTIONS,
};
use http_frontend::time::{MonotonicTime, TimeSpan, WallTime};

fn mono(millis: u64) -> MonotonicTime {
    MonotonicTime::from_nanos(TimeSpan::from_millis(millis).as_nanos())
}

#[test]
fn newest_indices_are_the_positions_of_the_largest() {
    assert_eq!(newest_indices(&vec![], 3), Vec::<usize>::new());
    assert_eq!(newest_indices(&vec![5], 3), vec![0]);
    assert_eq!(newest_indices(&vec![5, 9, 1], 3), vec![1, 0, 2]);
    assert_eq!(newest_indices(&vec![5, 9, 1, 7, 3], 3), vec![1, 3, 0]);
    assert_eq!(newest_indices(&vec![1, 2, 3, 4, 5], 2), vec![4, 3]);
    assert_eq!(newest_indices(&vec![5, 4, 3, 2, 1], 2), vec![0, 1]);
    assert_eq!(newest_indices(&vec![5, 4, 3], 0), Vec::<usize>::new());
    assert_eq!(newest_indices(&vec![2, 8], 1), vec![1]);
}

#[test]
fn entry_describes_its_connection() {
    let mut state = ConnectionTrackerState::new(1);
    let guard = state
        .add_connection(ServerSocketType::Unix, WallTime::from_secs(1_700_000_000), mono(250))
        .unwrap();
    guard.increment_num_requests();
    let open = state.open_connections();
    let entry = ConnectionInfoDTO::from_info(&open[0], mono(4_000));
    assert_eq!(entry.id, 1);
    assert_eq!(entry.server_socket_type, ServerSocketType::Unix);
    assert_eq!(entry.creation_time, WallTime::from_secs(1_700_000_000));
    // 3750 ms, in whole seconds.
    assert_eq!(entry.age, TimeSpan::from_secs(3));
    assert_eq!(entry.num_requests, 1);
}

#[test]
fn report_copies_the_figures_in_whole_seconds() {
    let mut state = ConnectionTrackerState::new(2);
    let first = state
        .add_connection(ServerSocketType::Tcp, WallTime::from_secs(10), mono(0))
        .unwrap();
    let _second = state
        .add_connection(ServerSocketType::Tcp, WallTime::from_secs(11), mono(1_000))
        .unwrap();
    assert!(state
        .add_connection(ServerSocketType::Tcp, WallTime::from_secs(12), mono(1_100))
        .is_none());
    first.increment_num_requests();
    first.increment_num_requests();
    state.remove_connection(first.id(), mono(2_900));

    let now = mono(10_999);
    let report = ConnectionTrackerStateDTO::from_snapshot(&state.snapshot(now), now);
    assert_eq!(report.max_open_connections, 2);
    assert_eq!(report.connection_limit_hits, 1);
    assert_eq!(report.min_connection_lifetime, TimeSpan::from_secs(2));
    assert_eq!(report.max_connection_lifetime, TimeSpan::from_secs(9));
    assert_eq!(report.max_requests_per_connection, 2);
    assert_eq!(report.num_open_connections, 1);
    assert_eq!(report.open_connections.len(), 1);
    assert_eq!(report.open_connections[0].id, 2);
    assert_eq!(report.open_connections[0].age, TimeSpan::from_secs(9));
}

#[test]
fn report_lists_the_twenty_newest_connections_newest_first() {
    let mut state = ConnectionTrackerState::new(100);
    let mut guards = Vec::new();
    for round in 0..25u64 {
        guards.push(
            state
                .add_connection(ServerSocketType::Tcp, WallTime::from_secs(round), mono(round))
                .unwrap(),
        );
    }
    // Close two of the newest.
    state.remove_connection(guards[23].id(), mono(30));
    state.remove_connection(guards[20].id(), mono(30));

    let now = mono(40);
    let report = ConnectionTrackerStateDTO::from_snapshot(&state.snapshot(now), now);
    assert_eq!(report.num_open_connections, 23);
    assert_eq!(report.open_connections.len(), MAX_REPORTED_CONNECTIONS);
    let ids: Vec<usize> = report.open_connections.iter().map(|c| c.id).collect();
    assert_eq!(
        ids,
        vec![25, 23, 22, 20, 19, 18, 17, 16, 15, 14, 13, 12, 11, 10, 9, 8, 7, 6, 5, 4]
    );
}
