use esp_sensor::bus::{Topic, WaitOutcome};
use esp_sensor::config::Config;
use esp_sensor::decimal::Decimal;
use esp_sensor::display::{show, Shown};
use esp_sensor::http_compat::{
    endpoint, first_address, query_type, AddrType, DnsError, DnsQueryType, SocketAddr,
};
use esp_sensor::producer::{judge, produce, Sample, Verdict, SENSOR_RETRY_SECS};
use esp_sensor::reading::Reading;
use esp_sensor::wifi::{
    check_credentials, plan_link, select_channel, AccessPoint, LinkPlan, Started, WifiError,
    JOIN_RETRY_SECS, REJOIN_SECS,
};

fn reading(temperature: i32, humidity: i32) -> Reading {
    Reading {
        temperature: Decimal::from_tenths(temperature),
        humidity: Decimal::from_tenths(humidity),
    }
}

#[test]
fn samples_are_judged() {
    assert_eq!(judge(Sample::Read(reading(213, 555))), Verdict::Publish(reading(213, 555)));
    assert_eq!(judge(Sample::Read(reading(900, 555))), Verdict::Discard(reading(900, 555)));
    assert_eq!(judge(Sample::Read(reading(213, 0))), Verdict::Discard(reading(213, 0)));
    assert_eq!(judge(Sample::Failed), Verdict::Retry);
}

#[test]
fn good_sample_is_published() {
    let mut topic = Topic::new(4);
    let sub = topic.subscribe();
    let done = produce(&mut topic, Sample::Read(reading(213, 555)), 30);
    assert_eq!(done, (Verdict::Publish(reading(213, 555)), 30));
    assert_eq!(topic.next(&sub), Some(WaitOutcome::Delivered(reading(213, 555))));
    assert_eq!(topic.next(&sub), None);
}

#[test]
fn bad_sample_is_not_published() {
    let mut topic = Topic::new(4);
    let sub = topic.subscribe();
    let done = produce(&mut topic, Sample::Read(reading(213, 1000)), 30);
    assert_eq!(done, (Verdict::Discard(reading(213, 1000)), 30));
    assert_eq!(topic.next(&sub), None);
    let done = produce(&mut topic, Sample::Failed, 30);
    assert_eq!(done, (Verdict::Retry, SENSOR_RETRY_SECS));
    assert_eq!(SENSOR_RETRY_SECS, 10);
    assert_eq!(topic.next(&sub), None);
}

#[test]
fn producer_does_not_wait_for_subscribers() {
    let mut topic = Topic::new(2);
    let sub = topic.subscribe();
    for t in 0..100 {
        let done = produce(&mut topic, Sample::Read(reading(t, 500)), 2);
        assert_eq!(done, (Verdict::Publish(reading(t, 500)), 2));
    }
    assert_eq!(topic.next(&sub), Some(WaitOutcome::Lagged(98)));
    assert_eq!(topic.next(&sub), Some(WaitOutcome::Delivered(reading(98, 500))));
}

#[test]
fn display_shows_delivered_readings() {
    assert_eq!(show(WaitOutcome::Delivered(reading(213, 555))), Shown::Digits([2, 1, 5, 5]));
    assert_eq!(show(WaitOutcome::Delivered(reading(-50, 70))), Shown::Digits([0, 0, 0, 7]));
    assert_eq!(show(WaitOutcome::Lagged(4)), Shown::Lost(4));
}

#[test]
fn default_settings() {
    let config = Config::default();
    assert_eq!(config.ssid, "<CHANGEME>");
    assert_eq!(config.password, "<CHANGEME>");
    assert_eq!(config.addr, "<CHANGEME>");
    assert_eq!(config.influx_token, "<CHANGEME>");
    assert_eq!(config.influx_org, "<CHANGEME>");
    assert_eq!(config.influx_bucket, "<CHANGEME>");
    assert_eq!(config.read_sensor_interval_secs, 30);
}

#[test]
fn credentials_must_be_set() {
    assert_eq!(check_credentials("home", "secret"), Ok(()));
    assert_eq!(check_credentials("", "secret"), Err(WifiError::MissingName));
    assert_eq!(check_credentials("home", ""), Err(WifiError::MissingPassword));
    assert_eq!(check_credentials("", ""), Err(WifiError::MissingName));
}

fn ap(ssid: &str, channel: u8) -> AccessPoint {
    AccessPoint { ssid: ssid.to_string(), channel, signal_strength: -60 }
}

#[test]
fn channel_of_the_first_match() {
    let found = [ap("other", 1), ap("home", 6), ap("home", 11)];
    assert_eq!(select_channel(&found, "home"), Some(6));
    assert_eq!(select_channel(&found, "other"), Some(1));
    assert_eq!(select_channel(&found, "Home"), None);
    assert_eq!(select_channel(&found, "hom"), None);
    assert_eq!(select_channel(&[], "home"), None);
}

#[test]
fn link_plans() {
    assert_eq!(plan_link(Started::No), LinkPlan::StartThenJoin);
    assert_eq!(plan_link(Started::Yes), LinkPlan::StopThenAskAgain);
    assert_eq!(plan_link(Started::Unknown), LinkPlan::Join);
    assert_eq!(REJOIN_SECS, 5);
    assert_eq!(JOIN_RETRY_SECS, 10);
}

#[test]
fn name_queries() {
    assert_eq!(query_type(AddrType::IPv4), DnsQueryType::A);
    assert_eq!(query_type(AddrType::Either), DnsQueryType::A);
    assert_eq!(query_type(AddrType::IPv6), DnsQueryType::Aaaa);
    assert_eq!(first_address(&[]), Err(DnsError::Failed));
    assert_eq!(first_address(&[[10, 0, 0, 1]]), Ok([10, 0, 0, 1]));
    assert_eq!(first_address(&[[10, 0, 0, 1], [10, 0, 0, 2]]), Ok([10, 0, 0, 1]));
}

#[test]
fn endpoint_of_an_address() {
    let remote = SocketAddr::V4 { octets: [192, 168, 1, 10], port: 8086 };
    assert_eq!(endpoint(remote), ([192, 168, 1, 10], 8086));
}
