use reliquary_archiver_mac::log::{
    crash_log, default_directive, level_directive, LogLevel, VecWriter, LOG_LIMIT,
};

#[test]
fn writing_adds_lines() {
    let mut log = VecWriter::new();
    assert_eq!(log.lines().len(), 0);
    assert_eq!(log.write(b"one\ntwo\r\n"), 9);
    assert_eq!(log.write(b""), 0);
    assert_eq!(log.write(b"th\xffree"), 6);
    assert_eq!(log.lines(), &vec!["one", "two", "th\u{fffd}ree"]);
    log.append("four\n\n");
    assert_eq!(log.lines().len(), 5);
    assert_eq!(log.lines()[4], "");
}

#[test]
fn old_lines_are_dropped_above_the_limit() {
    assert_eq!(LOG_LIMIT, 100000);
    let mut log = VecWriter::new();
    for batch in 0..1000 {
        let mut text = String::new();
        for i in 0..100 {
            text.push_str(&format!("{}\n", batch * 100 + i));
        }
        log.append(&text);
    }
    assert_eq!(log.lines().len(), 100000);
    assert_eq!(log.lines()[0], "0");
    log.append("next");
    assert_eq!(log.lines().len(), 100000);
    assert_eq!(log.lines()[0], "1");
    assert_eq!(log.lines()[99999], "next");
    assert_eq!(log.write(b"a\nb\nc"), 5);
    assert_eq!(log.lines().len(), 100000);
    assert_eq!(log.lines()[0], "4");
    assert_eq!(log.lines()[99999], "c");
}

#[test]
fn the_crash_report_holds_the_log_and_the_message() {
    let mut log = VecWriter::new();
    log.append("one\ntwo");
    assert_eq!(crash_log(Some(&log), Some("boom")), "one\ntwo\n\nboom");
    assert_eq!(crash_log(None, Some("boom")), "failed to lock log buffer\n\nboom");
    assert_eq!(crash_log(Some(&VecWriter::new()), None), "\n\npanic: unknown payload type");
}

#[test]
fn directives_follow_verbosity_and_level() {
    assert_eq!(default_directive(0), "reliquary_archiver=info");
    assert_eq!(default_directive(1), "info");
    assert_eq!(default_directive(2), "debug");
    assert_eq!(default_directive(3), "trace");
    assert_eq!(default_directive(255), "trace");
    assert_eq!(level_directive(LogLevel::Trace), "trace");
    assert_eq!(level_directive(LogLevel::Debug), "debug");
    assert_eq!(level_directive(LogLevel::Info), "info");
    assert_eq!(level_directive(LogLevel::Warn), "warn");
    assert_eq!(level_directive(LogLevel::Error), "error");
    assert_eq!(level_directive(LogLevel::Off), "off");
}
