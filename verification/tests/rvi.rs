use reliquary_archiver_mac::command::{CommandOutput, CommandText};
use reliquary_archiver_mac::rvi::{
    after_bootstrap, after_start, bootstrap_arguments, ensure_rvi_daemon_loaded, probe_arguments,
    rvictl_path, setup_iphone_capture, start_arguments, stop_arguments, DaemonAction, DaemonEvent,
    SetupAction, SetupEvent, SetupFailure, SETUP_FAILURE,
};

fn output(success: bool, stdout: &str, stderr: &str) -> Result<CommandOutput, String> {
    Ok(CommandOutput {
        success,
        stdout: stdout.as_bytes().to_vec(),
        stderr: stderr.as_bytes().to_vec(),
    })
}

#[test]
fn the_commands_and_their_arguments() {
    assert_eq!(rvictl_path(true), "/Library/Apple/usr/bin/rvictl");
    assert_eq!(rvictl_path(false), "rvictl");
    assert_eq!(start_arguments("U"), vec!["-s", "U"]);
    assert_eq!(stop_arguments("U"), vec!["-x", "U"]);
    assert_eq!(probe_arguments(), vec!["print", "system/com.apple.rpmuxd"]);
    assert_eq!(
        bootstrap_arguments(),
        vec![
            "bootstrap",
            "system",
            "/Library/Apple/System/Library/LaunchDaemons/com.apple.rpmuxd.plist"
        ]
    );
    assert_eq!(SETUP_FAILURE, 2);
}

#[test]
fn a_file_needs_no_interface() {
    assert!(matches!(
        setup_iphone_capture(SetupEvent::Begin { reads_file: true }),
        SetupAction::NotNeeded
    ));
    assert!(matches!(
        setup_iphone_capture(SetupEvent::Begin { reads_file: false }),
        SetupAction::SeeToDaemon
    ));
}

#[test]
fn a_given_udid_is_used() {
    match setup_iphone_capture(SetupEvent::DaemonSeenTo { given: Some("U".to_string()) }) {
        SetupAction::Start { udid } => assert_eq!(udid, "U"),
        other => panic!("{:?}", other),
    }
    assert!(matches!(
        setup_iphone_capture(SetupEvent::DaemonSeenTo { given: None }),
        SetupAction::Detect
    ));
}

#[test]
fn a_detected_udid_is_used() {
    match setup_iphone_capture(SetupEvent::Detected(Ok("V".to_string()))) {
        SetupAction::Start { udid } => assert_eq!(udid, "V"),
        other => panic!("{:?}", other),
    }
    match setup_iphone_capture(SetupEvent::Detected(Err("none".to_string()))) {
        SetupAction::Fail(SetupFailure::NoDevice { error }) => assert_eq!(error, "none"),
        other => panic!("{:?}", other),
    }
}

#[test]
fn the_interface_comes_from_either_output() {
    let started = |run| SetupEvent::Started { udid: "U".to_string(), run };
    for (stdout, stderr) in [("with interface rvi0", ""), ("note", "with interface rvi0\n")] {
        match setup_iphone_capture(started(output(true, stdout, stderr))) {
            SetupAction::Ready { interface, udid } => {
                assert_eq!(interface, "rvi0");
                assert_eq!(udid, "U");
            }
            other => panic!("{:?}", other),
        }
    }
    match setup_iphone_capture(started(output(true, "with interface ", "rvi0"))) {
        SetupAction::Remove { udid, failure: SetupFailure::NoInterface { output } } => {
            assert_eq!(udid, "U");
            assert_eq!(output, "with interface \nrvi0");
        }
        other => panic!("{:?}", other),
    }
    match setup_iphone_capture(started(output(false, "with interface rvi0", "denied"))) {
        SetupAction::Fail(SetupFailure::Refused { stdout, stderr }) => {
            assert_eq!(stdout, "with interface rvi0");
            assert_eq!(stderr, "denied");
        }
        other => panic!("{:?}", other),
    }
    match setup_iphone_capture(started(Err("missing".to_string()))) {
        SetupAction::Fail(SetupFailure::NotRun { error }) => assert_eq!(error, "missing"),
        other => panic!("{:?}", other),
    }
}

#[test]
fn started_on_text() {
    let run = Ok(CommandText {
        success: true,
        stdout: "[SUCCEEDED] with interface rvi7 now".to_string(),
        stderr: String::new(),
    });
    match after_start("W".to_string(), run) {
        SetupAction::Ready { interface, udid } => {
            assert_eq!(interface, "rvi7");
            assert_eq!(udid, "W");
        }
        other => panic!("{:?}", other),
    }
}

#[test]
fn the_daemon_is_loaded_once() {
    assert!(matches!(
        ensure_rvi_daemon_loaded(DaemonEvent::Probed(output(true, "", ""))),
        DaemonAction::AlreadyLoaded
    ));
    assert!(matches!(
        ensure_rvi_daemon_loaded(DaemonEvent::Probed(output(false, "", ""))),
        DaemonAction::LookForPlist
    ));
    assert!(matches!(
        ensure_rvi_daemon_loaded(DaemonEvent::Probed(Err("no".to_string()))),
        DaemonAction::LookForPlist
    ));
    assert!(matches!(
        ensure_rvi_daemon_loaded(DaemonEvent::LookedForPlist { exists: false }),
        DaemonAction::PlistMissing
    ));
    assert!(matches!(
        ensure_rvi_daemon_loaded(DaemonEvent::LookedForPlist { exists: true }),
        DaemonAction::Bootstrap
    ));
    assert!(matches!(
        ensure_rvi_daemon_loaded(DaemonEvent::Bootstrapped(output(true, "", ""))),
        DaemonAction::Loaded
    ));
    match ensure_rvi_daemon_loaded(DaemonEvent::Bootstrapped(output(false, "", "denied"))) {
        DaemonAction::Refused { stderr } => assert_eq!(stderr, "denied"),
        other => panic!("{:?}", other),
    }
    match after_bootstrap(Err("missing".to_string())) {
        DaemonAction::NotRun { error } => assert_eq!(error, "missing"),
        other => panic!("{:?}", other),
    }
}
