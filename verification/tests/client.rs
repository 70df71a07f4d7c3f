use taskpool::client::{Config, ESP};
use taskpool::timestamp::{protobuf_timestamp_to_naive_date_time, Timestamp};

#[test]
fn config_keeps_its_settings() {
    let config = Config::build(42, 5, "127.0.0.1".to_string(), "7878".to_string());
    assert_eq!(config.device_id(), 42);
    assert_eq!(config.timer_sec(), 5);
    assert_eq!(config.address(), "127.0.0.1");
    assert_eq!(config.port(), "7878");
}

#[test]
fn event_ids_count_up_from_zero() {
    let config = Config::build(1, 1, "h".to_string(), "p".to_string());
    let mut esp = ESP::build(config);
    assert_eq!(esp.next_event_id(), 0);
    assert_eq!(esp.next_event_id(), 1);
    assert_eq!(esp.next_event_id(), 2);
    assert_eq!(esp.config().device_id(), 1);
}

#[test]
fn timestamp_conversion_matches_chrono() {
    let ts = Timestamp { seconds: 1431648000, nanos: 500 };
    let dt = protobuf_timestamp_to_naive_date_time(ts);
    let expected = chrono::DateTime::from_timestamp(1431648000, 500).unwrap().naive_utc();
    assert_eq!(dt, expected);
    assert_eq!(dt.to_string(), "2015-05-15 00:00:00.000000500");
}
