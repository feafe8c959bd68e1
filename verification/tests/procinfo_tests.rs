use openclaw_manager::procinfo::{wmic_date_in_range, wmic_value_of};
use openclaw_manager::procinfo::{
    wmic_creation_timestamp, etime_in_range, parse_etime, parse_wmic_date, pid_from_lsof, pid_from_netstat,
    pids_from_lsof, pids_from_netstat, ps_uptime_in_range, ps_uptime_seconds,
    uptime_since_reading, wmic_date_fields, wmic_uptime,
};

fn etime(s: &str) -> Option<u64> {
    assert!(etime_in_range(s));
    parse_etime(s)
}

#[test]
fn parse_etime_minutes_seconds() {
    assert_eq!(etime("05:30"), Some(330));
    assert_eq!(etime("00:00"), Some(0));
}

#[test]
fn parse_etime_hours_minutes_seconds() {
    assert_eq!(etime("01:02:03"), Some(3723));
}

#[test]
fn parse_etime_days() {
    assert_eq!(etime("2-01:02:03"), Some(2 * 86400 + 3723));
    assert_eq!(etime("1-00:10"), Some(86400 + 10));
}

#[test]
fn parse_etime_trims_whitespace() {
    assert_eq!(etime("   10:00 \n"), Some(600));
}

#[test]
fn parse_etime_rejects_wrong_shapes() {
    assert_eq!(etime("abc"), None);
    assert_eq!(etime(""), None);
    assert_eq!(etime("1:2:3:4"), None);
    assert_eq!(etime("3-"), None);
}

#[test]
fn parse_etime_unreadable_fields_count_as_zero() {
    assert_eq!(etime("x-10:00"), Some(600));
    assert_eq!(etime("aa:10"), Some(10));
    assert_eq!(etime("1:bb:5"), Some(3605));
}

#[test]
fn etime_overflow_is_detected() {
    assert!(!etime_in_range("18446744073709551615-00:00"));
    // a day count that is no u64 reads as 0, as `unwrap_or(0)` does
    assert_eq!(etime("99999999999999999999-00:07"), Some(7));
    assert!(!etime_in_range("18446744073709551615:00"));
    assert!(etime_in_range("18446744073709551615"));
}

#[test]
fn ps_output_uptime_is_second_field() {
    let out = "  51234  1-02:03:04\n";
    assert!(ps_uptime_in_range(out));
    assert_eq!(ps_uptime_seconds(out), Some(86400 + 7384));
    assert_eq!(ps_uptime_seconds("51234"), None);
    assert_eq!(ps_uptime_seconds(""), None);
    assert_eq!(ps_uptime_seconds("100 nonsense"), None);
}

#[test]
fn lsof_first_line_is_the_pid() {
    assert_eq!(pid_from_lsof("1234\n5678\n"), Some(1234));
    assert_eq!(pid_from_lsof("  42  \n"), Some(42));
    assert_eq!(pid_from_lsof(""), None);
    assert_eq!(pid_from_lsof("abc\n12\n"), None);
}

#[test]
fn lsof_all_numeric_lines_are_pids() {
    assert_eq!(pids_from_lsof("1234\n5678\n"), vec![1234, 5678]);
    assert_eq!(pids_from_lsof("abc\n12\r\n\n 13 \n"), vec![12, 13]);
    assert_eq!(pids_from_lsof(""), Vec::<u32>::new());
}

#[test]
fn lsof_first_pid_is_first_listed() {
    let out = "777\n888\n";
    assert_eq!(pid_from_lsof(out), Some(pids_from_lsof(out)[0]));
}

const NETSTAT: &str = "\
Active Connections\r\n\
\r\n\
  Proto  Local Address          Foreign Address        State           PID\r\n\
  TCP    0.0.0.0:135            0.0.0.0:0              LISTENING       1000\r\n\
  TCP    127.0.0.1:18789        0.0.0.0:0              LISTENING       4321\r\n\
  TCP    127.0.0.1:18789        127.0.0.1:50000        ESTABLISHED     4321\r\n\
  TCP    [::1]:18789            [::]:0                 LISTENING       4322\r\n";

#[test]
fn netstat_first_listening_line_names_the_pid() {
    assert_eq!(pid_from_netstat(NETSTAT, 18789), Some(4321));
    assert_eq!(pid_from_netstat(NETSTAT, 135), Some(1000));
    assert_eq!(pid_from_netstat(NETSTAT, 8080), None);
}

#[test]
fn netstat_all_listening_lines() {
    assert_eq!(pids_from_netstat(NETSTAT, 18789), vec![4321, 4322]);
    assert_eq!(pids_from_netstat(NETSTAT, 8080), Vec::<u32>::new());
}

#[test]
fn netstat_port_match_is_a_substring_match() {
    // ":1878" occurs in ":18789", as it does for `str::contains`.
    assert_eq!(pid_from_netstat(NETSTAT, 1878), Some(4321));
}

#[test]
fn netstat_line_without_number_is_skipped() {
    let out = "TCP 0.0.0.0:9000 0.0.0.0:0 LISTENING x\nTCP 0.0.0.0:9000 0.0.0.0:0 LISTENING 77\n";
    assert_eq!(pid_from_netstat(out, 9000), Some(77));
    assert_eq!(pids_from_netstat(out, 9000), vec![77]);
}

#[test]
fn wmic_fields_are_read() {
    assert_eq!(
        wmic_date_fields("20240101120000.000000+000"),
        Some((2024, 1, 1, 12, 0, 0))
    );
    assert_eq!(wmic_date_fields("2024010112"), None);
    assert_eq!(wmic_date_fields("2024ab01120000.000000+000"), None);
}

#[test]
fn wmic_date_gives_uptime_since_creation() {
    let u = parse_wmic_date("20240101120000.000000+000").unwrap();
    // 2024-01-01T12:00:00Z is 1704110400; the test runs later than that.
    assert!(u > 0);
    let later = parse_wmic_date("20240101120100.000000+000").unwrap();
    assert!(u >= later + 59 && u <= later + 61);
}

#[test]
fn wmic_date_in_the_future_gives_zero() {
    assert_eq!(parse_wmic_date("29990101000000.000000+000"), Some(0));
}

#[test]
fn wmic_date_rejects_invalid_calendar_values() {
    assert_eq!(parse_wmic_date("20241301120000.000000+000"), None);
    assert_eq!(parse_wmic_date("20230229120000.000000+000"), None);
    assert_eq!(parse_wmic_date("20240101246000.000000+000"), None);
    assert_eq!(parse_wmic_date("short"), None);
    assert!(parse_wmic_date("20240229235959.000000+000").is_some());
}

#[test]
fn uptime_from_timestamps() {
    assert_eq!(wmic_uptime(100, 160), 60);
    assert_eq!(wmic_uptime(160, 100), 0);
    assert_eq!(wmic_uptime(i64::MIN, i64::MAX), u64::MAX);
}

#[test]
fn wmic_values_are_found_by_key() {
    let out = "\r\n\r\nCreationDate=20240101120000.000000+000\r\n\r\n";
    assert_eq!(wmic_value_of(out, "CreationDate="), Some("20240101120000.000000+000".to_string()));
    assert_eq!(wmic_value_of("WorkingSetSize= 123456 \n", "WorkingSetSize="), Some("123456".to_string()));
    // every leading copy of the key goes, as with `trim_start_matches`
    assert_eq!(wmic_value_of("K=K=v\n", "K="), Some("v".to_string()));
    // only the first line with the key counts
    assert_eq!(wmic_value_of("K=\nK=5\n", "K="), Some(String::new()));
    assert_eq!(wmic_value_of("Other=1\n", "K="), None);
    assert_eq!(wmic_value_of("", "K="), None);
    assert!(wmic_date_in_range("20240101120000.000000+000"));
    assert!(wmic_date_in_range("short"));
    assert!(wmic_date_in_range("2024é101120000"));
    assert!(!wmic_date_in_range("20240é11200000"));
    // an earlier field that is no number ends the reading before the cut
    assert!(wmic_date_in_range("abcd0é11200000"));
    assert_eq!(parse_wmic_date("abcd0é11200000"), None);
    assert!(wmic_date_in_range("20240101120000é"));
}

#[test]
fn wmic_creation_times_are_unix_timestamps() {
    assert_eq!(wmic_creation_timestamp("20240101120000.000000+000"), Some(1704110400));
    assert_eq!(wmic_creation_timestamp("19700101000000.000000+000"), Some(0));
    assert_eq!(wmic_creation_timestamp("19691231235959.000000+000"), Some(-1));
    assert_eq!(wmic_creation_timestamp("20000229000000"), Some(951782400));
    assert_eq!(wmic_creation_timestamp("00000101000000"), Some(-62167219200));
    assert_eq!(wmic_creation_timestamp("21000229000000"), None);
    assert_eq!(wmic_creation_timestamp("2024010112"), None);
}

#[test]
fn uptime_from_a_clock_reading() {
    assert_eq!(uptime_since_reading(100, 160), Some(60));
    assert_eq!(uptime_since_reading(160, 100), Some(0));
    assert_eq!(uptime_since_reading(-5, 0), Some(5));
    assert_eq!(uptime_since_reading(0, i64::MAX as u64), Some(i64::MAX as u64));
    assert_eq!(uptime_since_reading(0, i64::MAX as u64 + 1), None);
}
