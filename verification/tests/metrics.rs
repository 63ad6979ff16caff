use websockproxy_relay::metrics::{
    escape_prometheus_label_value, format_traffic_prometheus, write_direction_metric_family,
    write_metric, PROMETHEUS_CONTENT_TYPE,
};
use websockproxy_relay::traffic::TrafficStats;

#[test]
fn traffic_snapshot_renders_prometheus_text() {
    let mut stats = TrafficStats::new();

    stats.record_websocket_rx(100);
    stats.record_websocket_tx_batch(2, 40);
    stats.record_tap_rx(10);
    stats.sample_at(1);

    stats.record_websocket_rx(50);
    stats.record_tap_tx(25);
    stats.sample_at(6);

    let snapshot = stats.snapshot_at(6, 3);
    let body = format_traffic_prometheus(&snapshot);

    assert!(body.contains("# HELP websockproxy_uptime_seconds Process uptime in seconds."));
    assert!(body.contains("# TYPE websockproxy_uptime_seconds gauge"));
    assert!(body.contains("websockproxy_connected_clients 3"));
    assert!(body.contains("websockproxy_current_bytes_per_second 15"));
    assert!(body.contains(
        "websockproxy_traffic_direction_bytes_total{direction=\"websocket_rx\"} 150"
    ));
    assert!(
        body.contains("websockproxy_traffic_direction_recent_bytes{direction=\"tap_tx\"} 25")
    );
    assert!(body.contains(
        "websockproxy_traffic_direction_recent_bytes_per_second{direction=\"websocket_rx\"} 10"
    ));
    assert!(body.ends_with('\n'));
}

#[test]
fn the_whole_page_reads_line_by_line() {
    let mut stats = TrafficStats::new();
    stats.record_websocket_rx(1000);
    stats.record_tap_tx(60);

    let body = format_traffic_prometheus(&stats.snapshot_at(2, 1));
    let lines: Vec<&str> = body.lines().collect();

    assert_eq!(lines.len(), 4 * 3 + 5 * 6);
    assert_eq!(
        lines[..12],
        [
            "# HELP websockproxy_uptime_seconds Process uptime in seconds.",
            "# TYPE websockproxy_uptime_seconds gauge",
            "websockproxy_uptime_seconds 2",
            "# HELP websockproxy_recent_window_seconds Recent sampling window in seconds.",
            "# TYPE websockproxy_recent_window_seconds gauge",
            "websockproxy_recent_window_seconds 2",
            "# HELP websockproxy_connected_clients Connected websocket clients.",
            "# TYPE websockproxy_connected_clients gauge",
            "websockproxy_connected_clients 1",
            "# HELP websockproxy_current_bytes_per_second Recent aggregate traffic rate in bytes per second.",
            "# TYPE websockproxy_current_bytes_per_second gauge",
            "websockproxy_current_bytes_per_second 530",
        ]
    );
    assert_eq!(
        lines[12..18],
        [
            "# HELP websockproxy_traffic_direction_frames_total Total frames observed per traffic direction.",
            "# TYPE websockproxy_traffic_direction_frames_total counter",
            "websockproxy_traffic_direction_frames_total{direction=\"websocket_rx\"} 1",
            "websockproxy_traffic_direction_frames_total{direction=\"websocket_tx\"} 0",
            "websockproxy_traffic_direction_frames_total{direction=\"tap_rx\"} 0",
            "websockproxy_traffic_direction_frames_total{direction=\"tap_tx\"} 1",
        ]
    );
    assert_eq!(
        lines[18],
        "# HELP websockproxy_traffic_direction_bytes_total Total bytes observed per traffic direction."
    );
    assert_eq!(
        lines[24..26],
        [
            "# HELP websockproxy_traffic_direction_recent_frames Frames observed per traffic direction over the recent window.",
            "# TYPE websockproxy_traffic_direction_recent_frames gauge",
        ]
    );
    assert_eq!(
        lines[30],
        "# HELP websockproxy_traffic_direction_recent_bytes Bytes observed per traffic direction over the recent window."
    );
    assert_eq!(
        lines[36],
        "# HELP websockproxy_traffic_direction_recent_bytes_per_second Recent bytes per second observed per traffic direction."
    );
    assert_eq!(
        lines[41],
        "websockproxy_traffic_direction_recent_bytes_per_second{direction=\"tap_tx\"} 30"
    );
}

#[test]
fn a_label_value_is_escaped() {
    assert_eq!(escape_prometheus_label_value("tap_rx"), "tap_rx");
    assert_eq!(escape_prometheus_label_value("a\"b"), "a\\\"b");
    assert_eq!(escape_prometheus_label_value("a\\b"), "a\\\\b");
    assert_eq!(escape_prometheus_label_value("a\nb"), "a\\nb");
    assert_eq!(escape_prometheus_label_value(""), "");
}

#[test]
fn escaping_keeps_values_apart() {
    let newline = escape_prometheus_label_value("\n");
    let spelled = escape_prometheus_label_value("\\n");

    assert_eq!(newline, "\\n");
    assert_eq!(spelled, "\\\\n");
    assert_ne!(newline, spelled);
}

#[test]
fn a_metric_is_three_lines() {
    let mut output = String::from("before\n");
    write_metric(&mut output, "up", "Whether it runs.", "gauge", 18_446_744_073_709_551_615);

    assert_eq!(
        output,
        "before\n# HELP up Whether it runs.\n# TYPE up gauge\nup 18446744073709551615\n"
    );
}

#[test]
fn a_family_has_a_line_for_each_direction() {
    let mut output = String::new();
    write_direction_metric_family(
        &mut output,
        "n",
        "H.",
        "counter",
        [("a", 0), ("b\"", 10), ("c", 205), ("d", 7)],
    );

    assert_eq!(
        output,
        "# HELP n H.\n# TYPE n counter\nn{direction=\"a\"} 0\nn{direction=\"b\\\"\"} 10\nn{direction=\"c\"} 205\nn{direction=\"d\"} 7\n"
    );
}

#[test]
fn the_content_type_names_the_text_format() {
    assert_eq!(PROMETHEUS_CONTENT_TYPE, "text/plain; version=0.0.4; charset=utf-8");
}
