use pylon::config_manager::RemotePylonConfig;
use pylon::endpoint::{decimal_text, metrics_url, next_port, peer_label};

fn target(ip: &str, port: u16) -> RemotePylonConfig {
    RemotePylonConfig {
        ip: ip.to_string(),
        port,
        token: "secret".to_string(),
        name: None,
        location: None,
        description: None,
    }
}

#[test]
fn decimal_text_writes_ports() {
    assert_eq!(decimal_text(0), "0");
    assert_eq!(decimal_text(7), "7");
    assert_eq!(decimal_text(10), "10");
    assert_eq!(decimal_text(99), "99");
    assert_eq!(decimal_text(100), "100");
    assert_eq!(decimal_text(6989), "6989");
    assert_eq!(decimal_text(9000), "9000");
    assert_eq!(decimal_text(12345), "12345");
    assert_eq!(decimal_text(65535), "65535");
}

#[test]
fn decimal_text_agrees_with_std_for_every_port() {
    for port in 0..=u16::MAX {
        assert_eq!(decimal_text(port), port.to_string());
    }
}

#[test]
fn label_is_host_colon_port() {
    assert_eq!(peer_label(&target("10.0.0.1", 9000)), "10.0.0.1:9000");
    assert_eq!(peer_label(&target("pylon.example", 80)), "pylon.example:80");
    assert_eq!(peer_label(&target("", 0)), ":0");
}

#[test]
fn url_points_at_the_metrics_endpoint() {
    assert_eq!(metrics_url(&target("10.0.0.1", 9000)), "http://10.0.0.1:9000/api/metrics");
    assert_eq!(metrics_url(&target("localhost", 6989)), "http://localhost:6989/api/metrics");
}

#[test]
fn next_port_counts_up_to_the_last() {
    assert_eq!(next_port(6989), Some(6990));
    assert_eq!(next_port(0), Some(1));
    assert_eq!(next_port(65534), Some(65535));
    assert_eq!(next_port(65535), None);
}
