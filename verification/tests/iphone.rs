use reliquary_archiver_mac::command::{read_run, CommandOutput, CommandText};
use reliquary_archiver_mac::iphone::{
    after_step, detect_connected_iphone_udid, detect_with_devicectl, detect_with_xctrace,
    extract_last_parenthesized, looks_like_coredevice_identifier, looks_like_udid,
    parse_device_details, parse_devicectl_devices, parse_rvictl_interface, parse_xctrace_devices,
    udid_for_coredevice_identifier, DetectNext, DetectStep,
};

const UDID: &str = "00008110-001A2B3C4D5E6F70";
const OTHER_UDID: &str = "0123456789abcdef0123456789ABCDEF01234567";
const IDENTIFIER: &str = "8C8A1D6E-1B2C-4D3E-9F00-0123456789AB";
const OTHER_IDENTIFIER: &str = "00000000-1111-2222-3333-444444444444";

fn printed(stdout: &str) -> Result<CommandText, String> {
    Ok(CommandText { success: true, stdout: stdout.to_string(), stderr: String::new() })
}

fn refused(stderr: &str) -> Result<CommandText, String> {
    Ok(CommandText { success: false, stdout: String::new(), stderr: stderr.to_string() })
}

fn raw(stdout: &[u8]) -> Result<CommandOutput, String> {
    Ok(CommandOutput { success: true, stdout: stdout.to_vec(), stderr: Vec::new() })
}

fn xctrace_list(devices: &[String]) -> String {
    format!(
        "== Devices ==\nMac (11111111-2222-3333-4444-555555555555)\n{}\n\n== Simulators ==\n\
         iPhone 15 Simulator (17.0) (AAAAAAAA-BBBB-CCCC-DDDD-EEEEEEEEEEEE)\n",
        devices.join("\n")
    )
}

#[test]
fn udids_are_long_enough_and_hexadecimal() {
    assert!(looks_like_udid(UDID));
    assert!(looks_like_udid(OTHER_UDID));
    assert!(looks_like_udid("------------------------"));
    assert!(!looks_like_udid("0123456789abcdef0123456"));
    assert!(!looks_like_udid("0123456789abcdef0123456g"));
    assert!(!looks_like_udid("\u{e9}\u{e9}\u{e9}\u{e9}\u{e9}\u{e9}\u{e9}\u{e9}\u{e9}\u{e9}\u{e9}\u{e9}"));
    assert!(!looks_like_udid(""));
}

#[test]
fn coredevice_identifiers_have_four_dashes() {
    assert!(looks_like_coredevice_identifier(IDENTIFIER));
    assert!(!looks_like_coredevice_identifier(UDID));
    assert!(!looks_like_coredevice_identifier("8C8A1D6E-1B2C-4D3E-9F00-0123456789A"));
    assert!(!looks_like_coredevice_identifier("8C8A1D6E-1B2C-4D3E-9F00-01234567-9AB"));
    assert!(!looks_like_coredevice_identifier("8C8A1D6E01B2C-4D3E-9F00-0123456789AB"));
    assert!(!looks_like_coredevice_identifier("8C8A1D6E-1B2C-4D3E-9F00-0123456789AG"));
}

#[test]
fn the_last_parentheses_count() {
    assert_eq!(extract_last_parenthesized("iPhone (17.0) (abc)"), Some("abc"));
    assert_eq!(extract_last_parenthesized("a (b) c)"), Some("b) c"));
    assert_eq!(extract_last_parenthesized("(a (b"), None);
    assert_eq!(extract_last_parenthesized(") ("), None);
    assert_eq!(extract_last_parenthesized("()"), Some(""));
    assert_eq!(extract_last_parenthesized("\u{e9} (\u{fc})!"), Some("\u{fc}"));
    assert_eq!(extract_last_parenthesized("(a) (b"), Some("a"));
}

#[test]
fn the_interface_is_the_word_behind_the_phrase() {
    assert_eq!(
        parse_rvictl_interface(&format!("\nStarting device {} [SUCCEEDED] with interface rvi0\n", UDID)),
        Some("rvi0".to_string())
    );
    assert_eq!(
        parse_rvictl_interface("with interface \nx with interface  rvi1 more\nwith interface rvi2"),
        Some("rvi1".to_string())
    );
    assert_eq!(parse_rvictl_interface("with interface"), None);
    assert_eq!(parse_rvictl_interface(""), None);
    assert_eq!(
        parse_rvictl_interface("with interface with interface rvi3"),
        Some("with".to_string())
    );
}

#[test]
fn only_physical_iphones_are_taken_from_xctrace() {
    let list = xctrace_list(&[format!("My iPhone (17.5.1) ({})", UDID)]);
    assert_eq!(parse_xctrace_devices(&list), vec![UDID.to_string()]);
    assert_eq!(
        parse_xctrace_devices(&format!("My iPhone (17.5.1) ({})\n", UDID)),
        Vec::<String>::new()
    );
    let again = format!(
        "== Devices ==\r\n== Devices Offline ==\r\niPhone ({})\r\n  == Devices ==  \r\n iPhone ({}) \r\niPad ({})\r\niPhone (short)\r\n",
        UDID, OTHER_UDID, UDID
    );
    assert_eq!(parse_xctrace_devices(&again), vec![OTHER_UDID.to_string()]);
}

#[test]
fn available_iphones_are_taken_from_devicectl() {
    let list = format!(
        "Name      Hostname   Identifier   State   Model\n\
         ----      ----       ----         ----    ----\n\
         Phone     p.local    {}   available (paired)   iPhone 15 (iPhone15,4)\n\
         Old       o.local    {}   offline              iPhone 8 (iPhone10,1)\n\
         Tablet    t.local    {}   available (paired)   iPad\n\
         Nameless  n.local    none available            iPhone\n",
        IDENTIFIER, OTHER_IDENTIFIER, OTHER_IDENTIFIER
    );
    assert_eq!(parse_devicectl_devices(&list), vec![IDENTIFIER.to_string()]);
}

#[test]
fn the_udid_is_labelled_in_the_details() {
    let details = format!("Device:\n  \u{2022} name: Phone\n  \u{2022} udid: {}  \n  \u{2022} udid: x\n", UDID);
    assert_eq!(parse_device_details(&details), Some(UDID.to_string()));
    assert_eq!(parse_device_details(&format!("udid: {}", UDID)), None);
    assert_eq!(parse_device_details("\u{2022} udid: "), None);
    assert_eq!(parse_device_details("\u{2022} udid: \u{2022}"), Some("\u{2022}".to_string()));
}

#[test]
fn xctrace_results_and_messages() {
    let one = xctrace_list(&[format!("My iPhone (17.5.1) ({})", UDID)]);
    assert_eq!(detect_with_xctrace(printed(&one)), Ok(UDID.to_string()));
    assert_eq!(
        detect_with_xctrace(printed(&xctrace_list(&[]))),
        Err("no connected iPhone found in xctrace device list".to_string())
    );
    let two = xctrace_list(&[format!("iPhone ({})", UDID), format!("iPhone ({})", OTHER_UDID)]);
    assert_eq!(
        detect_with_xctrace(printed(&two)),
        Err(format!(
            "multiple connected iPhones found; pass --udid with one of: {}, {}",
            UDID, OTHER_UDID
        ))
    );
    assert_eq!(
        detect_with_xctrace(refused("no Xcode")),
        Err("xcrun xctrace list devices failed: no Xcode".to_string())
    );
    assert_eq!(
        detect_with_xctrace(Err("not found".to_string())),
        Err("failed to run xcrun xctrace list devices: not found".to_string())
    );
}

#[test]
fn devicectl_results_and_messages() {
    let line = |identifier: &str| format!("Phone {} available iPhone\n", identifier);
    assert_eq!(detect_with_devicectl(printed(&line(IDENTIFIER))), Ok(IDENTIFIER.to_string()));
    assert_eq!(
        detect_with_devicectl(printed("")),
        Err("no available iPhone found in devicectl device list".to_string())
    );
    assert_eq!(
        detect_with_devicectl(printed(&(line(IDENTIFIER) + &line(OTHER_IDENTIFIER)))),
        Err(format!(
            "multiple connected iPhones found; pass --udid with one of these CoreDevice identifiers: {}, {}",
            IDENTIFIER, OTHER_IDENTIFIER
        ))
    );
    assert_eq!(
        detect_with_devicectl(refused("denied")),
        Err("xcrun devicectl list devices failed: denied".to_string())
    );
    assert_eq!(
        detect_with_devicectl(Err("missing".to_string())),
        Err("failed to run xcrun devicectl list devices: missing".to_string())
    );
}

#[test]
fn details_results_and_messages() {
    let details = format!("\u{2022} udid: {}", UDID);
    assert_eq!(udid_for_coredevice_identifier(IDENTIFIER, printed(&details)), Ok(UDID.to_string()));
    assert_eq!(
        udid_for_coredevice_identifier(IDENTIFIER, printed("")),
        Err(format!("devicectl did not report a UDID for {}", IDENTIFIER))
    );
    assert_eq!(
        udid_for_coredevice_identifier(IDENTIFIER, refused("locked")),
        Err("xcrun devicectl device info details failed: locked".to_string())
    );
    assert_eq!(
        udid_for_coredevice_identifier(IDENTIFIER, Err("gone".to_string())),
        Err("failed to run xcrun devicectl device info details: gone".to_string())
    );
}

#[test]
fn detection_asks_devicectl_first() {
    let step = DetectStep::first();
    assert_eq!(step.arguments(), vec!["devicectl", "list", "devices"]);
    let list = format!("Phone {} available iPhone", IDENTIFIER);
    let step = match detect_connected_iphone_udid(step, raw(list.as_bytes())) {
        DetectNext::Run(step) => step,
        other => panic!("{:?}", other),
    };
    assert_eq!(
        step.arguments(),
        vec!["devicectl", "device", "info", "details", "--device", IDENTIFIER]
    );
    let details = format!("\u{2022} udid: {}", UDID);
    match detect_connected_iphone_udid(step, raw(details.as_bytes())) {
        DetectNext::Done(result) => assert_eq!(result, Ok(UDID.to_string())),
        other => panic!("{:?}", other),
    }
}

#[test]
fn detection_falls_back_to_xctrace() {
    match detect_connected_iphone_udid(DetectStep::first(), Err("missing".to_string())) {
        DetectNext::FallBack { error } => {
            assert_eq!(error, "failed to run xcrun devicectl list devices: missing")
        }
        other => panic!("{:?}", other),
    }
    let step = DetectStep::Details { identifier: IDENTIFIER.to_string() };
    match after_step(step, printed("nothing")) {
        DetectNext::FallBack { error } => {
            assert_eq!(error, format!("devicectl did not report a UDID for {}", IDENTIFIER))
        }
        other => panic!("{:?}", other),
    }
    let step = DetectStep::ListWithXctrace;
    assert_eq!(step.arguments(), vec!["xctrace", "list", "devices"]);
    let list = xctrace_list(&[format!("iPhone ({})", UDID)]);
    match detect_connected_iphone_udid(step, raw(list.as_bytes())) {
        DetectNext::Done(result) => assert_eq!(result, Ok(UDID.to_string())),
        other => panic!("{:?}", other),
    }
}

#[test]
fn output_is_read_as_lossy_utf8() {
    let output = CommandOutput {
        success: false,
        stdout: b"caf\xc3\xa9".to_vec(),
        stderr: b"a\xffb\xe2\x80".to_vec(),
    };
    let text = output.text();
    assert!(!text.success);
    assert_eq!(text.stdout, "caf\u{e9}");
    assert_eq!(text.stderr, "a\u{fffd}b\u{fffd}");
    assert_eq!(read_run(Err("x".to_string())).unwrap_err(), "x");
}
