use reliquary_archiver_mac::args::{
    capture_start_hints, waits_for_enter, Args, CaptureMode, DEFAULT_TIMEOUT,
    DEFAULT_WEBSOCKET_PORT,
};
use reliquary_archiver_mac::export::{archive_file_name, plan_export, LocalTime};

fn time(year: i32, month: u32, day: u32, hour: u32, minute: u32, second: u32) -> LocalTime {
    LocalTime { year, month, day, hour, minute, second, nanosecond: 0 }
}

fn name(time: LocalTime) -> Option<String> {
    archive_file_name(&time)
}

#[test]
fn the_name_holds_date_and_time() {
    assert_eq!(
        name(time(2024, 3, 9, 7, 5, 4)).as_deref(),
        Some("archive_output-2024-03-09T07-05-04.json")
    );
    assert_eq!(
        name(time(1999, 12, 31, 23, 59, 58)).as_deref(),
        Some("archive_output-1999-12-31T23-59-58.json")
    );
    assert_eq!(
        name(LocalTime { nanosecond: 999_999_999, ..time(7, 1, 1, 0, 0, 0) }).as_deref(),
        Some("archive_output-0007-01-01T00-00-00.json")
    );
}

#[test]
fn years_of_other_lengths_have_a_sign() {
    assert_eq!(
        name(time(-1, 1, 2, 3, 4, 5)).as_deref(),
        Some("archive_output--0001-01-02T03-04-05.json")
    );
    assert_eq!(
        name(time(10000, 1, 2, 3, 4, 5)).as_deref(),
        Some("archive_output-+10000-01-02T03-04-05.json")
    );
    assert_eq!(
        name(time(262142, 12, 31, 0, 0, 0)).as_deref(),
        Some("archive_output-+262142-12-31T00-00-00.json")
    );
    assert_eq!(
        name(time(-262143, 1, 1, 0, 0, 0)).as_deref(),
        Some("archive_output--262143-01-01T00-00-00.json")
    );
}

#[test]
fn a_leap_second_is_second_sixty() {
    let leap = LocalTime { nanosecond: 1_500_000_000, ..time(2016, 12, 31, 23, 59, 59) };
    assert_eq!(name(leap).as_deref(), Some("archive_output-2016-12-31T23-59-60.json"));
}

#[test]
fn times_that_there_are_not_have_no_name() {
    assert_eq!(name(time(2023, 2, 29, 0, 0, 0)), None);
    assert!(name(time(2024, 2, 29, 0, 0, 0)).is_some());
    assert_eq!(name(time(1900, 2, 29, 0, 0, 0)), None);
    assert!(name(time(2000, 2, 29, 0, 0, 0)).is_some());
    assert!(name(time(-4, 2, 29, 0, 0, 0)).is_some());
    assert_eq!(name(time(2024, 4, 31, 0, 0, 0)), None);
    assert_eq!(name(time(2024, 0, 1, 0, 0, 0)), None);
    assert_eq!(name(time(2024, 13, 1, 0, 0, 0)), None);
    assert_eq!(name(time(2024, 1, 0, 0, 0, 0)), None);
    assert_eq!(name(time(2024, 1, 32, 0, 0, 0)), None);
    assert_eq!(name(time(2024, 1, 1, 24, 0, 0)), None);
    assert_eq!(name(time(2024, 1, 1, 0, 60, 0)), None);
    assert_eq!(name(time(2024, 1, 1, 0, 0, 60)), None);
    assert_eq!(name(LocalTime { nanosecond: 1_000_000_000, ..time(2024, 1, 1, 0, 0, 58) }), None);
    assert_eq!(name(LocalTime { nanosecond: 2_000_000_000, ..time(2024, 1, 1, 0, 0, 59) }), None);
    assert_eq!(name(time(262143, 1, 1, 0, 0, 0)), None);
    assert_eq!(name(time(-262144, 12, 31, 0, 0, 0)), None);
}

#[test]
fn every_month_has_its_days() {
    let days = [31, 28, 31, 30, 31, 30, 31, 31, 30, 31, 30, 31];
    for month in 1..=12u32 {
        let last = days[month as usize - 1];
        assert!(name(time(2023, month, last, 0, 0, 0)).is_some());
        assert!(name(time(2023, month, last + 1, 0, 0, 0)).is_none());
    }
}

#[test]
fn the_export_goes_where_the_user_said() {
    assert_eq!(plan_export(Some(1), Some("out"), "default"), Some((1, "out")));
    assert_eq!(plan_export(Some(1), None, "default"), Some((1, "default")));
    assert_eq!(plan_export::<i32, _>(None, Some("out"), "default"), None);
}

fn args(pcap: Option<&str>) -> Args<String> {
    Args {
        output: None,
        pcap: pcap.map(|path| path.to_string()),
        udid: None,
        timeout: DEFAULT_TIMEOUT,
        stream: false,
        websocket_port: DEFAULT_WEBSOCKET_PORT,
        verbose: 0,
        log_path: None,
        exit_after_capture: false,
    }
}

#[test]
fn a_named_file_is_read() {
    assert_eq!((DEFAULT_TIMEOUT, DEFAULT_WEBSOCKET_PORT), (120, 23313));
    let with_file = args(Some("capture.pcapng"));
    match CaptureMode::from_args(&with_file) {
        CaptureMode::Pcap(path) => assert_eq!(path, "capture.pcapng"),
        other => panic!("{:?}", other),
    }
    assert!(matches!(CaptureMode::from_args(&args(None)), CaptureMode::Live));
}

#[test]
fn enter_is_waited_for_unless_told_otherwise() {
    assert!(waits_for_enter(args(None).exit_after_capture));
    assert!(!waits_for_enter(true));
}

#[test]
fn hints_are_for_live_captures() {
    assert_eq!(capture_start_hints(&CaptureMode::Pcap("x")).len(), 0);
    assert_eq!(
        capture_start_hints::<String>(&CaptureMode::Live),
        vec![
            "macOS live capture uses libpcap/BPF and may need sudo",
            "connect the iPhone over USB before tapping \"Click to Start\""
        ]
    );
}
