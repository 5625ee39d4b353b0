use http_frontend::config::{ServerConnectionConfiguration, ServerSocketType};
use http_frontend::connection::ConnectionTrackerState;
use http_frontend::request::{HttpVersion, RequestHead, RequestHeader, RequestIDFactory};
use http_frontend::server::{
    server_exit_error, ConnectionAction, ConnectionEvent, ConnectionHandler, ConnectionPhase,
    ListenerExit, ServerError,
};
use http_frontend::time::{MonotonicTime, TimeSpan, WallTime};

fn handler(max_lifetime_secs: u64, grace_secs: u64) -> ConnectionHandler<&'static str> {
    ConnectionHandler::new(
        "router",
        RequestIDFactory::new(),
        &ServerConnectionConfiguration {
            limit: 2,
            max_lifetime: TimeSpan::from_secs(max_lifetime_secs),
            graceful_shutdown_timeout: TimeSpan::from_secs(grace_secs),
        },
    )
}

fn head(path: &str) -> RequestHead {
    RequestHead {
        method: "GET".to_owned(),
        uri_path: path.to_owned(),
        version: HttpVersion::Http11,
        headers: vec![RequestHeader {
            name: "host".to_owned(),
            value: Some("example.org".to_owned()),
        }],
    }
}

#[test]
fn connection_is_served_for_its_maximum_lifetime_first() {
    let handler = handler(60, 5);
    assert_eq!(
        handler.start_connection(),
        (
            ConnectionPhase::Serving { timeouts_seen: 0 },
            ConnectionAction::Serve {
                timeout: TimeSpan::from_secs(60)
            }
        )
    );
    assert_eq!(*handler.request_handler(), "router");
}

#[test]
fn lifetime_timeout_leads_to_graceful_shutdown_and_then_to_closing() {
    let handler = handler(1, 1);
    let (phase, action) = handler.start_connection();
    assert_eq!(
        action,
        ConnectionAction::Serve {
            timeout: TimeSpan::from_secs(1)
        }
    );

    let (phase, action) = handler.next_step(phase, ConnectionEvent::TimedOut);
    assert_eq!(phase, ConnectionPhase::Serving { timeouts_seen: 1 });
    assert_eq!(
        action,
        ConnectionAction::ShutdownGracefully {
            timeout: TimeSpan::from_secs(1)
        }
    );

    let (phase, action) = handler.next_step(phase, ConnectionEvent::TimedOut);
    assert_eq!(phase, ConnectionPhase::Closed);
    assert_eq!(action, ConnectionAction::Close);
}

#[test]
fn finished_connection_is_closed_in_either_phase() {
    let handler = handler(120, 7);
    assert_eq!(
        handler.next_step(
            ConnectionPhase::Serving { timeouts_seen: 0 },
            ConnectionEvent::Finished
        ),
        (ConnectionPhase::Closed, ConnectionAction::Close)
    );
    assert_eq!(
        handler.next_step(
            ConnectionPhase::Serving { timeouts_seen: 1 },
            ConnectionEvent::Finished
        ),
        (ConnectionPhase::Closed, ConnectionAction::Close)
    );
}

#[test]
fn closed_connection_stays_closed() {
    let handler = handler(120, 7);
    for event in [ConnectionEvent::Finished, ConnectionEvent::TimedOut] {
        assert_eq!(
            handler.next_step(ConnectionPhase::Closed, event),
            (ConnectionPhase::Closed, ConnectionAction::Close)
        );
    }
    assert_eq!(
        handler.next_step(
            ConnectionPhase::Serving {
                timeouts_seen: usize::MAX
            },
            ConnectionEvent::TimedOut
        ),
        (ConnectionPhase::Closed, ConnectionAction::Close)
    );
}

#[test]
fn grace_period_is_the_second_time_limit() {
    let handler = handler(120, 7);
    assert_eq!(
        handler.next_step(
            ConnectionPhase::Serving { timeouts_seen: 0 },
            ConnectionEvent::TimedOut
        ),
        (
            ConnectionPhase::Serving { timeouts_seen: 1 },
            ConnectionAction::ShutdownGracefully {
                timeout: TimeSpan::from_secs(7)
            }
        )
    );
}

#[test]
fn each_request_is_counted_and_gets_an_identity() {
    let handler = handler(60, 5);
    let mut tracker = ConnectionTrackerState::new(2);
    let guard = tracker
        .add_connection(
            ServerSocketType::Tcp,
            WallTime::from_secs(0),
            MonotonicTime::from_nanos(0),
        )
        .unwrap();

    let first = handler.begin_request(&guard, head("/a"));
    let second = handler.begin_request(&guard, head("/b"));
    assert_eq!(first.connection_id, guard.id());
    assert_eq!(second.connection_id, guard.id());
    assert_eq!(first.head.uri_path, "/a");
    assert_eq!(second.head.uri_path, "/b");
    assert_eq!(first.request_id.as_usize(), 1);
    assert_eq!(second.request_id.as_usize(), 2);
    assert_eq!(guard.num_requests(), 2);

    // The count reported for the connection is not above what was processed.
    let snapshot = tracker.snapshot(MonotonicTime::from_nanos(1));
    assert!(snapshot.open_connections[0].num_requests() <= 2);
    assert_eq!(snapshot.open_connections[0].num_requests(), 2);
}

#[test]
fn request_identities_start_at_one() {
    let factory = RequestIDFactory::new();
    assert_eq!(factory.new_request_id().as_usize(), 1);
    assert_eq!(factory.new_request_id().as_usize(), 2);
    assert_eq!(factory.new_request_id().as_usize(), 3);
}

#[test]
fn end_of_any_listener_is_an_error() {
    assert!(matches!(
        server_exit_error(ListenerExit::NoListener),
        ServerError::NoListener
    ));
    assert!(matches!(
        server_exit_error(ListenerExit::Returned),
        ServerError::ListenerReturned
    ));
    match server_exit_error(ListenerExit::Failed {
        message: "bind".to_owned(),
    }) {
        ServerError::ListenerFailed { message } => assert_eq!(message, "bind"),
        _ => panic!("expected a listener failure"),
    }
    match server_exit_error(ListenerExit::JoinFailed {
        message: "panicked".to_owned(),
    }) {
        ServerError::JoinFailed { message } => assert_eq!(message, "panicked"),
        _ => panic!("expected a join failure"),
    }
}
