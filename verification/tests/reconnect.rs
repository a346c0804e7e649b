use momentum_bot::reconnect::{next_connect_backoff_ms, Reconnect};

#[test]
fn backoff_doubles_up_to_five_seconds() {
    assert_eq!(next_connect_backoff_ms(0), 250);
    assert_eq!(next_connect_backoff_ms(250), 500);
    assert_eq!(next_connect_backoff_ms(500), 1_000);
    assert_eq!(next_connect_backoff_ms(1_000), 2_000);
    assert_eq!(next_connect_backoff_ms(2_000), 4_000);
    assert_eq!(next_connect_backoff_ms(4_000), 5_000);
    assert_eq!(next_connect_backoff_ms(5_000), 5_000);
    assert_eq!(next_connect_backoff_ms(3), 6);
}

#[test]
fn failures_wait_longer_and_longer() {
    let mut connection = Reconnect::new();
    let waits: Vec<u64> = (0..8).map(|_| connection.on_failure()).collect();
    assert_eq!(waits, vec![0, 250, 500, 1_000, 2_000, 4_000, 5_000, 5_000]);
}

#[test]
fn a_clean_disconnect_starts_the_ladder_anew() {
    let mut connection = Reconnect::new();
    connection.on_failure();
    connection.on_failure();
    connection.on_disconnect();
    assert_eq!(connection.on_failure(), 0);
    assert_eq!(connection.on_failure(), 250);
}
