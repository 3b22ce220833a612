use nanobot_supervisor::network::{get_network_stats_impl, split_words, NetworkMonitor, NetworkStats};

const TABLE: &str = "Inter-|   Receive                                                |  Transmit
 face |bytes    packets errs drop fifo frame compressed multicast|bytes    packets errs drop fifo colls carrier compressed
    lo: 5000      50    0    0    0     0          0         0     5000      50    0    0    0     0       0          0
  eth0: 1000      10    0    0    0     0          0         0     2000      20    0    0    0     0       0          0
 wlan0: 300       3    0    0    0     0          0         0      400       4    0    0    0     0       0          0
";

#[test]
fn words_split_on_whitespace() {
    assert_eq!(split_words(b"  a \tbc\n d "), vec![b"a".to_vec(), b"bc".to_vec(), b"d".to_vec()]);
    assert!(split_words(b"   ").is_empty());
}

#[test]
fn table_totals_skip_headers_and_loopback() {
    assert_eq!(get_network_stats_impl(TABLE.as_bytes()), (1300, 2400));
}

#[test]
fn short_table_gives_zero() {
    assert_eq!(get_network_stats_impl(b"header\nheader\n"), (0, 0));
    assert_eq!(get_network_stats_impl(b""), (0, 0));
}

#[test]
fn unreadable_counters_count_as_zero() {
    let t = "h\nh\n eth0: x 0 0 0 0 0 0 0 7 0\n";
    assert_eq!(get_network_stats_impl(t.as_bytes()), (0, 7));
}

#[test]
fn speeds_are_growth_between_readings() {
    let mut m = NetworkMonitor::new((1_000, 2_000), 0);
    let early = m.get_stats(500, (9_999, 9_999));
    assert_eq!(early, NetworkStats { upload_speed: 0, download_speed: 0, total_upload: 2_000, total_download: 1_000 });
    assert!(!m.should_update(999));
    assert!(m.should_update(1_000));
    let s = m.get_stats(1_000, (1_500, 2_100));
    assert_eq!(s, NetworkStats { upload_speed: 100, download_speed: 500, total_upload: 2_100, total_download: 1_500 });
    let fell = m.get_stats(2_000, (10, 2_100));
    assert_eq!(fell.download_speed, 0);
    assert_eq!(fell.upload_speed, 0);
    assert_eq!(m.last_received, 10);
}
