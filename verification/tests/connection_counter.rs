use connection_tracking::cells::AccessLog;
use connection_tracking::connection_counter::{ConnectionCounter, ConnectionGuard, ConnectionType};
use connection_tracking::counts::{ConnectionCounts, CountCell};

#[test]
fn test_connection_counter() {
    let counter = ConnectionCounter::new();
    assert_eq!(counter.active_count(), 0);

    counter.inc(ConnectionType::Http);
    assert_eq!(counter.active_count(), 1);
    assert_eq!(counter.http_count(), 1);

    counter.inc(ConnectionType::WebSocket);
    assert_eq!(counter.active_count(), 2);
    assert_eq!(counter.websocket_count(), 1);

    counter.dec(ConnectionType::Http);
    assert_eq!(counter.active_count(), 1);
    assert_eq!(counter.http_count(), 0);

    counter.dec(ConnectionType::WebSocket);
    assert_eq!(counter.active_count(), 0);
}

#[test]
fn test_connection_guard() {
    let counter = ConnectionCounter::new();
    {
        let _guard = ConnectionGuard::new(counter.clone(), ConnectionType::Http);
        assert_eq!(counter.active_count(), 1);
    }
    assert_eq!(counter.active_count(), 0);
}

#[test]
fn test_guard_release() {
    let counter = ConnectionCounter::new();
    {
        let mut guard = ConnectionGuard::new(counter.clone(), ConnectionType::Http);
        assert_eq!(counter.active_count(), 1);
        guard.release();
        assert_eq!(counter.active_count(), 1); // Not decremented
        assert!(!guard.is_active()); // Can still check status after release
    }
    assert_eq!(counter.active_count(), 1); // Still 1 after drop
}

#[test]
fn test_has_long_lived() {
    let counter = ConnectionCounter::new();
    assert!(!counter.has_long_lived_connections());

    counter.inc(ConnectionType::Http);
    assert!(!counter.has_long_lived_connections());

    counter.inc(ConnectionType::WebSocket);
    assert!(counter.has_long_lived_connections());

    counter.dec(ConnectionType::WebSocket);
    assert!(!counter.has_long_lived_connections());
}

#[test]
fn each_type_is_counted_in_its_cells() {
    let counter = ConnectionCounter::default();
    counter.inc(ConnectionType::GrpcStream);
    assert_eq!(
        (counter.active_count(), counter.websocket_count(), counter.streaming_count()),
        (1, 0, 1)
    );
    counter.inc(ConnectionType::ServerSentEvents);
    assert_eq!(
        (counter.active_count(), counter.websocket_count(), counter.streaming_count()),
        (2, 0, 2)
    );
    counter.inc(ConnectionType::WebSocket);
    assert_eq!(
        (counter.active_count(), counter.websocket_count(), counter.streaming_count()),
        (3, 1, 2)
    );
    counter.inc(ConnectionType::Http);
    assert_eq!(
        (counter.active_count(), counter.websocket_count(), counter.streaming_count()),
        (4, 1, 2)
    );
    assert_eq!(counter.http_count(), 1);
    counter.dec(ConnectionType::ServerSentEvents);
    counter.dec(ConnectionType::GrpcStream);
    assert_eq!(
        (counter.active_count(), counter.websocket_count(), counter.streaming_count()),
        (2, 1, 0)
    );
}

#[test]
fn streams_are_long_lived() {
    let counter = ConnectionCounter::new();
    counter.inc(ConnectionType::ServerSentEvents);
    assert!(counter.has_long_lived_connections());
    counter.dec(ConnectionType::ServerSentEvents);
    counter.inc(ConnectionType::GrpcStream);
    assert!(counter.has_long_lived_connections());
    counter.dec(ConnectionType::GrpcStream);
    assert!(!counter.has_long_lived_connections());
}

#[test]
fn clones_share_their_counts() {
    let counter = ConnectionCounter::new();
    let clone = counter.clone();
    clone.inc(ConnectionType::WebSocket);
    assert_eq!(counter.active_count(), 1);
    assert_eq!(counter.websocket_count(), 1);
    counter.dec(ConnectionType::WebSocket);
    assert_eq!(clone.active_count(), 0);
    assert_eq!(clone.websocket_count(), 0);
}

#[test]
fn separate_counters_are_separate() {
    let one = ConnectionCounter::new();
    let other = ConnectionCounter::new();
    one.inc(ConnectionType::Http);
    assert_eq!(other.active_count(), 0);
}

#[test]
fn counting_down_and_up_again_is_no_change() {
    let counter = ConnectionCounter::new();
    counter.dec(ConnectionType::WebSocket);
    assert_eq!(counter.active_count(), usize::MAX);
    assert_eq!(counter.websocket_count(), usize::MAX);
    counter.inc(ConnectionType::WebSocket);
    assert_eq!(counter.active_count(), 0);
    assert_eq!(counter.websocket_count(), 0);
}

#[test]
fn counts_do_not_depend_on_the_order() {
    let types = [
        ConnectionType::Http,
        ConnectionType::WebSocket,
        ConnectionType::GrpcStream,
        ConnectionType::ServerSentEvents,
    ];
    let counter = ConnectionCounter::new();
    for t in types {
        for _ in 0..30 {
            counter.inc(t);
        }
    }
    assert_eq!(counter.active_count(), 120);
    assert_eq!(counter.http_count(), 30);
    assert_eq!(counter.websocket_count(), 30);
    assert_eq!(counter.streaming_count(), 60);
    for _ in 0..30 {
        for t in types {
            counter.dec(t);
        }
    }
    assert_eq!(counter.active_count(), 0);
    assert_eq!(counter.websocket_count(), 0);
    assert_eq!(counter.streaming_count(), 0);
}

#[test]
fn guards_know_their_type_and_counter() {
    let counter = ConnectionCounter::new();
    let guard = ConnectionGuard::new(counter.clone(), ConnectionType::GrpcStream);
    assert_eq!(guard.connection_type(), ConnectionType::GrpcStream);
    assert!(guard.is_active());
    assert_eq!(guard.counter().streaming_count(), 1);
    guard.counter().inc(ConnectionType::Http);
    assert_eq!(counter.active_count(), 2);
    drop(guard);
    assert_eq!(counter.active_count(), 1);
    assert_eq!(counter.streaming_count(), 0);
}

#[test]
fn a_guard_counts_its_type_down() {
    let counter = ConnectionCounter::new();
    {
        let _socket = ConnectionGuard::new(counter.clone(), ConnectionType::WebSocket);
        let _events = ConnectionGuard::new(counter.clone(), ConnectionType::ServerSentEvents);
        assert_eq!(counter.active_count(), 2);
        assert_eq!(counter.websocket_count(), 1);
        assert_eq!(counter.streaming_count(), 1);
        assert_eq!(counter.http_count(), 0);
    }
    assert_eq!(counter.active_count(), 0);
    assert_eq!(counter.websocket_count(), 0);
    assert_eq!(counter.streaming_count(), 0);
}

#[test]
fn http_connections_are_the_rest() {
    let counts = ConnectionCounts { active: 45, websockets: 5, streams: 0 };
    assert_eq!(counts.http_count(), 40);
    assert!(counts.has_long_lived_connections());
    let counts = ConnectionCounts { active: 10, websockets: 2, streams: 3 };
    assert_eq!(counts.http_count(), 5);
    let counts = ConnectionCounts { active: 2, websockets: 2, streams: 1 };
    assert_eq!(counts.http_count(), 0);
    let counts = ConnectionCounts { active: 7, websockets: usize::MAX, streams: 1 };
    assert_eq!(counts.http_count(), 0);
    let counts = ConnectionCounts { active: 3, websockets: 0, streams: 0 };
    assert_eq!(counts.http_count(), 3);
    assert!(!counts.has_long_lived_connections());
    let counts = ConnectionCounts { active: 3, websockets: 0, streams: 1 };
    assert!(counts.has_long_lived_connections());
}

fn takes_shared<T: Send + Sync + Clone>(_value: &T) {}

#[test]
fn counters_can_be_shared_across_threads() {
    takes_shared(&ConnectionCounter::new());
}

fn takes_sendable<T: Send + Sync>(_value: &T) {}

#[test]
fn guards_can_be_handed_to_threads() {
    takes_sendable(&ConnectionGuard::new(ConnectionCounter::new(), ConnectionType::Http));
}

#[test]
fn overflow_is_told() {
    let counter = ConnectionCounter::new();
    assert!(!counter.inc_overflows(ConnectionType::Http));
    assert_eq!(counter.active_count(), 1);
    counter.dec(ConnectionType::Http);
    counter.dec(ConnectionType::Http);
    assert_eq!(counter.active_count(), usize::MAX);
    assert!(counter.inc_overflows(ConnectionType::WebSocket));
    assert_eq!(counter.active_count(), 0);
    assert_eq!(counter.websocket_count(), 1);
    assert!(!counter.inc_overflows(ConnectionType::Http));
}

#[test]
fn a_guard_tells_of_the_overflow() {
    let counter = ConnectionCounter::new();
    let guard = ConnectionGuard::new(counter.clone(), ConnectionType::Http);
    assert!(!guard.overflowed());
    drop(guard);
    counter.dec(ConnectionType::Http);
    let mut guard = ConnectionGuard::new(counter.clone(), ConnectionType::Http);
    assert!(guard.overflowed());
    guard.release();
    assert!(guard.overflowed());
    assert_eq!(counter.active_count(), 0);
}

#[test]
fn logged_calls_count_alike() {
    let counter = ConnectionCounter::new();
    let mut log = AccessLog::new();
    assert_eq!(counter.inc_in(ConnectionType::GrpcStream, &mut log), 0);
    assert_eq!(counter.inc_in(ConnectionType::Http, &mut log), 1);
    assert_eq!(counter.count_in(CountCell::Active, &mut log), 2);
    assert_eq!(counter.count_in(CountCell::WebSockets, &mut log), 0);
    assert_eq!(counter.count_in(CountCell::Streams, &mut log), 1);
    assert_eq!(
        counter.counts_in(&mut log),
        ConnectionCounts { active: 2, websockets: 0, streams: 1 }
    );
    counter.dec_in(ConnectionType::GrpcStream, &mut log);
    assert_eq!(
        counter.counts_in(&mut log),
        ConnectionCounts { active: 1, websockets: 0, streams: 0 }
    );
}

#[test]
fn releasing_twice_changes_nothing() {
    let counter = ConnectionCounter::new();
    {
        let mut guard = ConnectionGuard::new(counter.clone(), ConnectionType::WebSocket);
        guard.release();
        guard.release();
        assert!(!guard.is_active());
        assert_eq!(guard.connection_type(), ConnectionType::WebSocket);
        assert_eq!((counter.active_count(), counter.websocket_count()), (1, 1));
    }
    assert_eq!((counter.active_count(), counter.websocket_count()), (1, 1));
}

#[test]
fn guards_may_be_dropped_in_any_order() {
    let counter = ConnectionCounter::new();
    let first = ConnectionGuard::new(counter.clone(), ConnectionType::WebSocket);
    let second = ConnectionGuard::new(counter.clone(), ConnectionType::GrpcStream);
    let third = ConnectionGuard::new(counter.clone(), ConnectionType::Http);
    drop(second);
    assert_eq!((counter.active_count(), counter.websocket_count()), (2, 1));
    assert_eq!(counter.streaming_count(), 0);
    drop(first);
    assert_eq!((counter.active_count(), counter.websocket_count()), (1, 0));
    drop(third);
    assert_eq!(counter.active_count(), 0);
}

#[test]
fn a_new_counter_reads_zero() {
    let zero = ConnectionCounts { active: 0, websockets: 0, streams: 0 };
    let mut log = AccessLog::new();
    for counter in [ConnectionCounter::new(), ConnectionCounter::default()] {
        assert_eq!(counter.counts_in(&mut log), zero);
        assert_eq!(counter.http_count(), 0);
        assert!(!counter.has_long_lived_connections());
    }
}

#[test]
fn a_counter_made_beside_another_is_separate() {
    let one = ConnectionCounter::new();
    one.inc(ConnectionType::WebSocket);
    let mut log = AccessLog::new();
    let before = one.counts_in(&mut log);
    let other = ConnectionCounter::new_in(&log);
    assert_eq!(other.active_count(), 0);
    other.inc(ConnectionType::WebSocket);
    other.clone().inc(ConnectionType::GrpcStream);
    assert_eq!(one.counts_in(&mut log), before);
    one.dec(ConnectionType::WebSocket);
    assert_eq!(
        other.counts_in(&mut log),
        ConnectionCounts { active: 2, websockets: 1, streams: 1 }
    );
}

#[test]
fn released_guards_stay_counted_whatever_the_order() {
    let counter = ConnectionCounter::new();
    let socket = ConnectionGuard::new(counter.clone(), ConnectionType::WebSocket);
    let mut events = ConnectionGuard::new(counter.clone(), ConnectionType::ServerSentEvents);
    let mut plain = ConnectionGuard::new(counter.clone(), ConnectionType::Http);
    let stream = ConnectionGuard::new(counter.clone(), ConnectionType::GrpcStream);
    plain.release();
    events.release();
    drop(plain);
    drop(stream);
    drop(events);
    drop(socket);
    assert_eq!(counter.active_count(), 2);
    assert_eq!(counter.websocket_count(), 0);
    assert_eq!(counter.streaming_count(), 1);
    assert_eq!(counter.http_count(), 1);
}

#[test]
fn calls_that_do_not_cancel_add_up() {
    let counter = ConnectionCounter::new();
    let other = counter.clone();
    for _ in 0..7 {
        counter.inc(ConnectionType::Http);
        other.inc(ConnectionType::WebSocket);
        assert!(counter.has_long_lived_connections());
        other.inc(ConnectionType::GrpcStream);
        counter.inc(ConnectionType::ServerSentEvents);
    }
    for _ in 0..3 {
        counter.dec(ConnectionType::WebSocket);
        other.dec(ConnectionType::GrpcStream);
    }
    assert_eq!(counter.active_count(), 22);
    assert_eq!(other.websocket_count(), 4);
    assert_eq!(counter.streaming_count(), 11);
    assert_eq!(other.http_count(), 7);
}
