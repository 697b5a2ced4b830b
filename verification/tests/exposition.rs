use tarssh::clock::Moment;
use tarssh::exposition::push_decimal;
use tarssh::exposition::render;
use tarssh::metrics::Metrics;
use tarssh::stats::ClientMetrics;
use tarssh::stats::Snapshot;

const FRESH: &str = "# HELP uptime_seconds Number of seconds since startup.\n\
# TYPE uptime_seconds gauge\n\
uptime_seconds 0\n\
\n\
# HELP connections_count Number of current connections.\n\
# TYPE connections_count counter\n\
connections_count 0\n\
\n\
# HELP connections_total Total number of connections.\n\
# TYPE connections_total counter\n\
connections_total 0\n\
\n\
# HELP client_maximum_connection_time_seconds Length in seconds of longest connection by current clients.\n\
# TYPE client_maximum_connection_time_seconds counter\n\
client_maximum_connection_time_seconds 0\n\
\n\
# HELP client_minimum_connection_time_seconds Length in seconds of shortest connection by current clients.\n\
# TYPE client_minimum_connection_time_seconds counter\n\
client_minimum_connection_time_seconds 18446744073709551615\n\
\n\
# HELP client_sent_chunks_sum Sum of sent chunks by current clients.\n\
# TYPE client_sent_chunks_sum counter\n\
client_sent_chunks_sum 0\n\
\n\
# HELP client_sent_eastereggs_sum Sum of sent sent_eastereggs by current clients.\n\
# TYPE client_sent_eastereggs_sum counter\n\
client_sent_eastereggs_sum 0\n\
\n\
# HELP client_sent_banners_sum Sum of sent banners by current clients.\n\
# TYPE client_sent_banners_sum counter\n\
client_sent_banners_sum 0\n\
\n\
# HELP client_connection_time_seconds_sum Sum of connection time of current clients.\n\
# TYPE client_connection_time_seconds_sum counter\n\
client_connection_time_seconds_sum 0\n\
\n\
# HELP client_connection_time_seconds_bucket A histogram of the connection time of current clients.\n\
# TYPE client_connection_time_seconds_bucket histogram\n\
client_connection_time_seconds_bucket{le=\"0\"} 0\n\
client_connection_time_seconds_bucket{le=\"1\"} 0\n\
client_connection_time_seconds_bucket{le=\"3\"} 0\n\
client_connection_time_seconds_bucket{le=\"7\"} 0\n\
client_connection_time_seconds_bucket{le=\"15\"} 0\n\
client_connection_time_seconds_bucket{le=\"31\"} 0\n\
client_connection_time_seconds_bucket{le=\"63\"} 0\n\
client_connection_time_seconds_bucket{le=\"127\"} 0\n\
client_connection_time_seconds_bucket{le=\"255\"} 0\n\
client_connection_time_seconds_bucket{le=\"511\"} 0\n\
client_connection_time_seconds_bucket{le=\"1023\"} 0\n\
client_connection_time_seconds_bucket{le=\"2047\"} 0\n\
client_connection_time_seconds_bucket{le=\"4095\"} 0\n\
client_connection_time_seconds_bucket{le=\"8191\"} 0\n\
client_connection_time_seconds_bucket{le=\"16383\"} 0\n\
client_connection_time_seconds_bucket{le=\"32767\"} 0\n\
client_connection_time_seconds_bucket{le=\"65535\"} 0\n\
client_connection_time_seconds_bucket{le=\"131071\"} 0\n\
client_connection_time_seconds_bucket{le=\"262143\"} 0\n\
client_connection_time_seconds_bucket{le=\"524287\"} 0\n\
client_connection_time_seconds_bucket{le=\"1048575\"} 0\n\
client_connection_time_seconds_bucket{le=\"2097151\"} 0\n\
client_connection_time_seconds_bucket{le=\"4194303\"} 0\n\
client_connection_time_seconds_bucket{le=\"8388607\"} 0\n\
client_connection_time_seconds_bucket{le=\"16777215\"} 0\n\
client_connection_time_seconds_bucket{le=\"33554431\"} 0\n\
client_connection_time_seconds_bucket{le=\"67108863\"} 0\n\
client_connection_time_seconds_bucket{le=\"134217727\"} 0\n\
client_connection_time_seconds_bucket{le=\"268435455\"} 0\n\
client_connection_time_seconds_bucket{le=\"536870911\"} 0\n\
client_connection_time_seconds_bucket{le=\"1073741823\"} 0\n\
client_connection_time_seconds_bucket{le=\"+Inf\"} 0\n\
\n\
# HELP former_maximum_connection_time_seconds Length in seconds of longest connection by former clients.\n\
# TYPE former_maximum_connection_time_seconds counter\n\
former_maximum_connection_time_seconds 0\n\
\n\
# HELP former_minimum_connection_time_seconds Length in seconds of shortest connection by former clients.\n\
# TYPE former_minimum_connection_time_seconds counter\n\
former_minimum_connection_time_seconds 18446744073709551615\n\
\n\
# HELP former_sent_chunks_sum Sum of sent chunks by former clients.\n\
# TYPE former_sent_chunks_sum counter\n\
former_sent_chunks_sum 0\n\
\n\
# HELP former_sent_eastereggs_sum Sum of sent sent_eastereggs by former clients.\n\
# TYPE former_sent_eastereggs_sum counter\n\
former_sent_eastereggs_sum 0\n\
\n\
# HELP former_sent_banners_sum Sum of sent banners by former clients.\n\
# TYPE former_sent_banners_sum counter\n\
former_sent_banners_sum 0\n\
\n\
# HELP former_connection_time_seconds_sum Sum of connection time of former clients.\n\
# TYPE former_connection_time_seconds_sum counter\n\
former_connection_time_seconds_sum 0\n\
\n\
# HELP former_connection_time_seconds_bucket A histogram of the connection time of former clients.\n\
# TYPE former_connection_time_seconds_bucket histogram\n\
former_connection_time_seconds_bucket{le=\"0\"} 0\n\
former_connection_time_seconds_bucket{le=\"1\"} 0\n\
former_connection_time_seconds_bucket{le=\"3\"} 0\n\
former_connection_time_seconds_bucket{le=\"7\"} 0\n\
former_connection_time_seconds_bucket{le=\"15\"} 0\n\
former_connection_time_seconds_bucket{le=\"31\"} 0\n\
former_connection_time_seconds_bucket{le=\"63\"} 0\n\
former_connection_time_seconds_bucket{le=\"127\"} 0\n\
former_connection_time_seconds_bucket{le=\"255\"} 0\n\
former_connection_time_seconds_bucket{le=\"511\"} 0\n\
former_connection_time_seconds_bucket{le=\"1023\"} 0\n\
former_connection_time_seconds_bucket{le=\"2047\"} 0\n\
former_connection_time_seconds_bucket{le=\"4095\"} 0\n\
former_connection_time_seconds_bucket{le=\"8191\"} 0\n\
former_connection_time_seconds_bucket{le=\"16383\"} 0\n\
former_connection_time_seconds_bucket{le=\"32767\"} 0\n\
former_connection_time_seconds_bucket{le=\"65535\"} 0\n\
former_connection_time_seconds_bucket{le=\"131071\"} 0\n\
former_connection_time_seconds_bucket{le=\"262143\"} 0\n\
former_connection_time_seconds_bucket{le=\"524287\"} 0\n\
former_connection_time_seconds_bucket{le=\"1048575\"} 0\n\
former_connection_time_seconds_bucket{le=\"2097151\"} 0\n\
former_connection_time_seconds_bucket{le=\"4194303\"} 0\n\
former_connection_time_seconds_bucket{le=\"8388607\"} 0\n\
former_connection_time_seconds_bucket{le=\"16777215\"} 0\n\
former_connection_time_seconds_bucket{le=\"33554431\"} 0\n\
former_connection_time_seconds_bucket{le=\"67108863\"} 0\n\
former_connection_time_seconds_bucket{le=\"134217727\"} 0\n\
former_connection_time_seconds_bucket{le=\"268435455\"} 0\n\
former_connection_time_seconds_bucket{le=\"536870911\"} 0\n\
former_connection_time_seconds_bucket{le=\"1073741823\"} 0\n\
former_connection_time_seconds_bucket{le=\"+Inf\"} 0\n\
\n\
# HELP total_maximum_connection_time_seconds Length in seconds of longest connection overall.\n\
# TYPE total_maximum_connection_time_seconds counter\n\
total_maximum_connection_time_seconds 0\n\
\n\
# HELP total_minimum_connection_time_seconds Length in seconds of shortest connection overall.\n\
# TYPE total_minimum_connection_time_seconds counter\n\
total_minimum_connection_time_seconds 18446744073709551615\n\
\n\
# HELP total_sent_chunks_sum Sum of sent chunks overall.\n\
# TYPE total_sent_chunks_sum counter\n\
total_sent_chunks_sum 0\n\
\n\
# HELP total_sent_eastereggs_sum Sum of sent sent_eastereggs overall.\n\
# TYPE total_sent_eastereggs_sum counter\n\
total_sent_eastereggs_sum 0\n\
\n\
# HELP total_sent_banners_sum Sum of sent banners overall.\n\
# TYPE total_sent_banners_sum counter\n\
total_sent_banners_sum 0\n\
\n\
# HELP total_connection_time_seconds_sum Sum of connection time overall.\n\
# TYPE total_connection_time_seconds_sum counter\n\
total_connection_time_seconds_sum 0\n\
\n\
# HELP total_connection_time_seconds_bucket A histogram of the connection time overall.\n\
# TYPE total_connection_time_seconds_bucket histogram\n\
total_connection_time_seconds_bucket{le=\"0\"} 0\n\
total_connection_time_seconds_bucket{le=\"1\"} 0\n\
total_connection_time_seconds_bucket{le=\"3\"} 0\n\
total_connection_time_seconds_bucket{le=\"7\"} 0\n\
total_connection_time_seconds_bucket{le=\"15\"} 0\n\
total_connection_time_seconds_bucket{le=\"31\"} 0\n\
total_connection_time_seconds_bucket{le=\"63\"} 0\n\
total_connection_time_seconds_bucket{le=\"127\"} 0\n\
total_connection_time_seconds_bucket{le=\"255\"} 0\n\
total_connection_time_seconds_bucket{le=\"511\"} 0\n\
total_connection_time_seconds_bucket{le=\"1023\"} 0\n\
total_connection_time_seconds_bucket{le=\"2047\"} 0\n\
total_connection_time_seconds_bucket{le=\"4095\"} 0\n\
total_connection_time_seconds_bucket{le=\"8191\"} 0\n\
total_connection_time_seconds_bucket{le=\"16383\"} 0\n\
total_connection_time_seconds_bucket{le=\"32767\"} 0\n\
total_connection_time_seconds_bucket{le=\"65535\"} 0\n\
total_connection_time_seconds_bucket{le=\"131071\"} 0\n\
total_connection_time_seconds_bucket{le=\"262143\"} 0\n\
total_connection_time_seconds_bucket{le=\"524287\"} 0\n\
total_connection_time_seconds_bucket{le=\"1048575\"} 0\n\
total_connection_time_seconds_bucket{le=\"2097151\"} 0\n\
total_connection_time_seconds_bucket{le=\"4194303\"} 0\n\
total_connection_time_seconds_bucket{le=\"8388607\"} 0\n\
total_connection_time_seconds_bucket{le=\"16777215\"} 0\n\
total_connection_time_seconds_bucket{le=\"33554431\"} 0\n\
total_connection_time_seconds_bucket{le=\"67108863\"} 0\n\
total_connection_time_seconds_bucket{le=\"134217727\"} 0\n\
total_connection_time_seconds_bucket{le=\"268435455\"} 0\n\
total_connection_time_seconds_bucket{le=\"536870911\"} 0\n\
total_connection_time_seconds_bucket{le=\"1073741823\"} 0\n\
total_connection_time_seconds_bucket{le=\"+Inf\"} 0\n\
";

const BUSY: &str = "# HELP uptime_seconds Number of seconds since startup.\n\
# TYPE uptime_seconds gauge\n\
uptime_seconds 2000\n\
\n\
# HELP connections_count Number of current connections.\n\
# TYPE connections_count counter\n\
connections_count 1\n\
\n\
# HELP connections_total Total number of connections.\n\
# TYPE connections_total counter\n\
connections_total 2\n\
\n\
# HELP client_maximum_connection_time_seconds Length in seconds of longest connection by current clients.\n\
# TYPE client_maximum_connection_time_seconds counter\n\
client_maximum_connection_time_seconds 1990\n\
\n\
# HELP client_minimum_connection_time_seconds Length in seconds of shortest connection by current clients.\n\
# TYPE client_minimum_connection_time_seconds counter\n\
client_minimum_connection_time_seconds 1990\n\
\n\
# HELP client_sent_chunks_sum Sum of sent chunks by current clients.\n\
# TYPE client_sent_chunks_sum counter\n\
client_sent_chunks_sum 0\n\
\n\
# HELP client_sent_eastereggs_sum Sum of sent sent_eastereggs by current clients.\n\
# TYPE client_sent_eastereggs_sum counter\n\
client_sent_eastereggs_sum 0\n\
\n\
# HELP client_sent_banners_sum Sum of sent banners by current clients.\n\
# TYPE client_sent_banners_sum counter\n\
client_sent_banners_sum 0\n\
\n\
# HELP client_connection_time_seconds_sum Sum of connection time of current clients.\n\
# TYPE client_connection_time_seconds_sum counter\n\
client_connection_time_seconds_sum 1990\n\
\n\
# HELP client_connection_time_seconds_bucket A histogram of the connection time of current clients.\n\
# TYPE client_connection_time_seconds_bucket histogram\n\
client_connection_time_seconds_bucket{le=\"0\"} 0\n\
client_connection_time_seconds_bucket{le=\"1\"} 0\n\
client_connection_time_seconds_bucket{le=\"3\"} 0\n\
client_connection_time_seconds_bucket{le=\"7\"} 0\n\
client_connection_time_seconds_bucket{le=\"15\"} 0\n\
client_connection_time_seconds_bucket{le=\"31\"} 0\n\
client_connection_time_seconds_bucket{le=\"63\"} 0\n\
client_connection_time_seconds_bucket{le=\"127\"} 0\n\
client_connection_time_seconds_bucket{le=\"255\"} 0\n\
client_connection_time_seconds_bucket{le=\"511\"} 0\n\
client_connection_time_seconds_bucket{le=\"1023\"} 0\n\
client_connection_time_seconds_bucket{le=\"2047\"} 1\n\
client_connection_time_seconds_bucket{le=\"4095\"} 1\n\
client_connection_time_seconds_bucket{le=\"8191\"} 1\n\
client_connection_time_seconds_bucket{le=\"16383\"} 1\n\
client_connection_time_seconds_bucket{le=\"32767\"} 1\n\
client_connection_time_seconds_bucket{le=\"65535\"} 1\n\
client_connection_time_seconds_bucket{le=\"131071\"} 1\n\
client_connection_time_seconds_bucket{le=\"262143\"} 1\n\
client_connection_time_seconds_bucket{le=\"524287\"} 1\n\
client_connection_time_seconds_bucket{le=\"1048575\"} 1\n\
client_connection_time_seconds_bucket{le=\"2097151\"} 1\n\
client_connection_time_seconds_bucket{le=\"4194303\"} 1\n\
client_connection_time_seconds_bucket{le=\"8388607\"} 1\n\
client_connection_time_seconds_bucket{le=\"16777215\"} 1\n\
client_connection_time_seconds_bucket{le=\"33554431\"} 1\n\
client_connection_time_seconds_bucket{le=\"67108863\"} 1\n\
client_connection_time_seconds_bucket{le=\"134217727\"} 1\n\
client_connection_time_seconds_bucket{le=\"268435455\"} 1\n\
client_connection_time_seconds_bucket{le=\"536870911\"} 1\n\
client_connection_time_seconds_bucket{le=\"1073741823\"} 1\n\
client_connection_time_seconds_bucket{le=\"+Inf\"} 1\n\
\n\
# HELP former_maximum_connection_time_seconds Length in seconds of longest connection by former clients.\n\
# TYPE former_maximum_connection_time_seconds counter\n\
former_maximum_connection_time_seconds 1024\n\
\n\
# HELP former_minimum_connection_time_seconds Length in seconds of shortest connection by former clients.\n\
# TYPE former_minimum_connection_time_seconds counter\n\
former_minimum_connection_time_seconds 1024\n\
\n\
# HELP former_sent_chunks_sum Sum of sent chunks by former clients.\n\
# TYPE former_sent_chunks_sum counter\n\
former_sent_chunks_sum 3\n\
\n\
# HELP former_sent_eastereggs_sum Sum of sent sent_eastereggs by former clients.\n\
# TYPE former_sent_eastereggs_sum counter\n\
former_sent_eastereggs_sum 1\n\
\n\
# HELP former_sent_banners_sum Sum of sent banners by former clients.\n\
# TYPE former_sent_banners_sum counter\n\
former_sent_banners_sum 1\n\
\n\
# HELP former_connection_time_seconds_sum Sum of connection time of former clients.\n\
# TYPE former_connection_time_seconds_sum counter\n\
former_connection_time_seconds_sum 1024\n\
\n\
# HELP former_connection_time_seconds_bucket A histogram of the connection time of former clients.\n\
# TYPE former_connection_time_seconds_bucket histogram\n\
former_connection_time_seconds_bucket{le=\"0\"} 0\n\
former_connection_time_seconds_bucket{le=\"1\"} 0\n\
former_connection_time_seconds_bucket{le=\"3\"} 0\n\
former_connection_time_seconds_bucket{le=\"7\"} 0\n\
former_connection_time_seconds_bucket{le=\"15\"} 0\n\
former_connection_time_seconds_bucket{le=\"31\"} 0\n\
former_connection_time_seconds_bucket{le=\"63\"} 0\n\
former_connection_time_seconds_bucket{le=\"127\"} 0\n\
former_connection_time_seconds_bucket{le=\"255\"} 0\n\
former_connection_time_seconds_bucket{le=\"511\"} 0\n\
former_connection_time_seconds_bucket{le=\"1023\"} 0\n\
former_connection_time_seconds_bucket{le=\"2047\"} 1\n\
former_connection_time_seconds_bucket{le=\"4095\"} 1\n\
former_connection_time_seconds_bucket{le=\"8191\"} 1\n\
former_connection_time_seconds_bucket{le=\"16383\"} 1\n\
former_connection_time_seconds_bucket{le=\"32767\"} 1\n\
former_connection_time_seconds_bucket{le=\"65535\"} 1\n\
former_connection_time_seconds_bucket{le=\"131071\"} 1\n\
former_connection_time_seconds_bucket{le=\"262143\"} 1\n\
former_connection_time_seconds_bucket{le=\"524287\"} 1\n\
former_connection_time_seconds_bucket{le=\"1048575\"} 1\n\
former_connection_time_seconds_bucket{le=\"2097151\"} 1\n\
former_connection_time_seconds_bucket{le=\"4194303\"} 1\n\
former_connection_time_seconds_bucket{le=\"8388607\"} 1\n\
former_connection_time_seconds_bucket{le=\"16777215\"} 1\n\
former_connection_time_seconds_bucket{le=\"33554431\"} 1\n\
former_connection_time_seconds_bucket{le=\"67108863\"} 1\n\
former_connection_time_seconds_bucket{le=\"134217727\"} 1\n\
former_connection_time_seconds_bucket{le=\"268435455\"} 1\n\
former_connection_time_seconds_bucket{le=\"536870911\"} 1\n\
former_connection_time_seconds_bucket{le=\"1073741823\"} 1\n\
former_connection_time_seconds_bucket{le=\"+Inf\"} 1\n\
\n\
# HELP total_maximum_connection_time_seconds Length in seconds of longest connection overall.\n\
# TYPE total_maximum_connection_time_seconds counter\n\
total_maximum_connection_time_seconds 1990\n\
\n\
# HELP total_minimum_connection_time_seconds Length in seconds of shortest connection overall.\n\
# TYPE total_minimum_connection_time_seconds counter\n\
total_minimum_connection_time_seconds 1024\n\
\n\
# HELP total_sent_chunks_sum Sum of sent chunks overall.\n\
# TYPE total_sent_chunks_sum counter\n\
total_sent_chunks_sum 3\n\
\n\
# HELP total_sent_eastereggs_sum Sum of sent sent_eastereggs overall.\n\
# TYPE total_sent_eastereggs_sum counter\n\
total_sent_eastereggs_sum 1\n\
\n\
# HELP total_sent_banners_sum Sum of sent banners overall.\n\
# TYPE total_sent_banners_sum counter\n\
total_sent_banners_sum 1\n\
\n\
# HELP total_connection_time_seconds_sum Sum of connection time overall.\n\
# TYPE total_connection_time_seconds_sum counter\n\
total_connection_time_seconds_sum 3014\n\
\n\
# HELP total_connection_time_seconds_bucket A histogram of the connection time overall.\n\
# TYPE total_connection_time_seconds_bucket histogram\n\
total_connection_time_seconds_bucket{le=\"0\"} 0\n\
total_connection_time_seconds_bucket{le=\"1\"} 0\n\
total_connection_time_seconds_bucket{le=\"3\"} 0\n\
total_connection_time_seconds_bucket{le=\"7\"} 0\n\
total_connection_time_seconds_bucket{le=\"15\"} 0\n\
total_connection_time_seconds_bucket{le=\"31\"} 0\n\
total_connection_time_seconds_bucket{le=\"63\"} 0\n\
total_connection_time_seconds_bucket{le=\"127\"} 0\n\
total_connection_time_seconds_bucket{le=\"255\"} 0\n\
total_connection_time_seconds_bucket{le=\"511\"} 0\n\
total_connection_time_seconds_bucket{le=\"1023\"} 0\n\
total_connection_time_seconds_bucket{le=\"2047\"} 2\n\
total_connection_time_seconds_bucket{le=\"4095\"} 2\n\
total_connection_time_seconds_bucket{le=\"8191\"} 2\n\
total_connection_time_seconds_bucket{le=\"16383\"} 2\n\
total_connection_time_seconds_bucket{le=\"32767\"} 2\n\
total_connection_time_seconds_bucket{le=\"65535\"} 2\n\
total_connection_time_seconds_bucket{le=\"131071\"} 2\n\
total_connection_time_seconds_bucket{le=\"262143\"} 2\n\
total_connection_time_seconds_bucket{le=\"524287\"} 2\n\
total_connection_time_seconds_bucket{le=\"1048575\"} 2\n\
total_connection_time_seconds_bucket{le=\"2097151\"} 2\n\
total_connection_time_seconds_bucket{le=\"4194303\"} 2\n\
total_connection_time_seconds_bucket{le=\"8388607\"} 2\n\
total_connection_time_seconds_bucket{le=\"16777215\"} 2\n\
total_connection_time_seconds_bucket{le=\"33554431\"} 2\n\
total_connection_time_seconds_bucket{le=\"67108863\"} 2\n\
total_connection_time_seconds_bucket{le=\"134217727\"} 2\n\
total_connection_time_seconds_bucket{le=\"268435455\"} 2\n\
total_connection_time_seconds_bucket{le=\"536870911\"} 2\n\
total_connection_time_seconds_bucket{le=\"1073741823\"} 2\n\
total_connection_time_seconds_bucket{le=\"+Inf\"} 2\n\
";

fn busy_registry() -> Metrics {
    let mut registry = Metrics::new(Moment::from_secs(0));
    let (_, _a) = registry.connect(8, Moment::from_secs(10)).unwrap();
    let (_, b) = registry.connect(8, Moment::from_secs(20)).unwrap();
    for _ in 0..3 {
        registry.sent_chunk(&b).unwrap();
    }
    registry.sent_easteregg(&b).unwrap();
    registry.sent_banner(&b).unwrap();
    assert_eq!(registry.disconnect(b, Moment::from_secs(1044)), Ok((1, 1024)));
    registry
}

#[test]
fn the_report_of_a_new_registry() {
    let registry = Metrics::new(Moment::from_secs(3));
    assert_eq!(registry.export(Moment::from_secs(3)), FRESH);
}

#[test]
fn the_report_of_a_registry_at_work() {
    assert_eq!(busy_registry().export(Moment::from_secs(2000)), BUSY);
}

#[test]
fn the_report_is_the_snapshot_as_text() {
    let registry = busy_registry();
    let now = Moment { secs: 2000, nanos: 17 };
    assert_eq!(registry.export(now), render(&registry.snapshot(now)));
}

#[test]
fn a_report_can_be_asked_for_again() {
    let registry = busy_registry();
    let now = Moment::from_secs(2000);
    let first = registry.export(now);
    let second = registry.export(now);
    assert_eq!(first, second);
    assert_eq!(registry.snapshot(now), registry.snapshot(now));
    assert_eq!(registry.connections(), 1);
}

#[test]
fn the_report_shows_what_the_snapshot_holds() {
    let mut former = ClientMetrics::new();
    former.record(7, 11, 13, 17);
    let snapshot = Snapshot {
        uptime_seconds: 18446744073709551615,
        connections_count: 23,
        connections_total: 29,
        current: ClientMetrics::new(),
        former,
        total: ClientMetrics::new(),
    };
    let text = render(&snapshot);
    assert!(text.starts_with(
        "# HELP uptime_seconds Number of seconds since startup.\n\
         # TYPE uptime_seconds gauge\n\
         uptime_seconds 18446744073709551615\n\n"
    ));
    assert!(text.contains("\nconnections_count 23\n\n"));
    assert!(text.contains("\nconnections_total 29\n\n"));
    assert!(text.contains("\nclient_minimum_connection_time_seconds 18446744073709551615\n\n"));
    assert!(text.contains("\nformer_maximum_connection_time_seconds 7\n\n"));
    assert!(text.contains("\nformer_minimum_connection_time_seconds 7\n\n"));
    assert!(text.contains("\nformer_sent_chunks_sum 11\n\n"));
    assert!(text.contains("\nformer_sent_eastereggs_sum 13\n\n"));
    assert!(text.contains("\nformer_sent_banners_sum 17\n\n"));
    assert!(text.contains("\nformer_connection_time_seconds_sum 7\n\n"));
    assert!(text.contains("\nformer_connection_time_seconds_bucket{le=\"3\"} 0\n"));
    assert!(text.contains("\nformer_connection_time_seconds_bucket{le=\"7\"} 1\n"));
    assert!(text.contains("\nformer_connection_time_seconds_bucket{le=\"+Inf\"} 1\n"));
    assert!(text.contains("\ntotal_maximum_connection_time_seconds 0\n\n"));
    assert!(text.ends_with("total_connection_time_seconds_bucket{le=\"+Inf\"} 0\n"));
}

#[test]
fn the_shortest_connection_of_all_is_reported() {
    let mut registry = Metrics::new(Moment::from_secs(0));
    let (_, a) = registry.connect(9, Moment::from_secs(0)).unwrap();
    let (_, b) = registry.connect(9, Moment::from_secs(0)).unwrap();
    assert_eq!(registry.disconnect(a, Moment::from_secs(2)), Ok((1, 2)));
    assert_eq!(registry.disconnect(b, Moment::from_secs(8)), Ok((0, 8)));
    let text = registry.export(Moment::from_secs(8));
    assert!(text.contains("\nformer_minimum_connection_time_seconds 2\n\n"));
    assert!(text.contains("\nformer_maximum_connection_time_seconds 8\n\n"));
    assert!(text.contains("\ntotal_minimum_connection_time_seconds 2\n\n"));
    assert!(text.contains("\ntotal_maximum_connection_time_seconds 8\n\n"));
    let (_, _c) = registry.connect(9, Moment::from_secs(8)).unwrap();
    let text = registry.export(Moment::from_secs(108));
    assert!(text.contains("\nclient_minimum_connection_time_seconds 100\n\n"));
    assert!(text.contains("\ntotal_minimum_connection_time_seconds 2\n\n"));
    assert!(text.contains("\ntotal_maximum_connection_time_seconds 100\n\n"));
}

#[test]
fn the_last_line_counts_the_longest_connections_too() {
    let mut registry = Metrics::new(Moment::from_secs(0));
    let (_, a) = registry.connect(9, Moment::from_secs(0)).unwrap();
    assert_eq!(registry.disconnect(a, Moment::from_secs(1 << 31)), Ok((0, 1 << 31)));
    let text = registry.export(Moment::from_secs(1 << 31));
    assert!(text.contains("\nformer_connection_time_seconds_bucket{le=\"1073741823\"} 0\n"));
    assert!(text.contains("\nformer_connection_time_seconds_bucket{le=\"+Inf\"} 1\n"));
    assert!(text.ends_with("total_connection_time_seconds_bucket{le=\"+Inf\"} 1\n"));
    assert!(text.contains("\nclient_connection_time_seconds_bucket{le=\"+Inf\"} 0\n"));
}

#[test]
fn numbers_are_written_in_decimal() {
    for (number, numeral) in [
        (0u64, "0"),
        (7, "7"),
        (9, "9"),
        (10, "10"),
        (42, "42"),
        (100, "100"),
        (1234567890, "1234567890"),
        (9007199254740993, "9007199254740993"),
        (u64::MAX, "18446744073709551615"),
    ] {
        let mut text = String::from("n=");
        push_decimal(&mut text, number);
        assert_eq!(text, format!("n={}", numeral));
    }
}
