use std::collections::hash_map::DefaultHasher;
use std::hash::{Hash, Hasher};

use reliquary_archiver_mac::capture::device::{CaptureError, ConnectionStatus, PcapDevice};
use reliquary_archiver_mac::capture::link::{Linktype, Packet, PKTAP};
use reliquary_archiver_mac::capture::pcap::{
    capture_settings, source_id, CaptureStream, ReadError, SetupStep,
};

fn device(name: &str) -> PcapDevice {
    PcapDevice {
        name: name.to_string(),
        desc: None,
        addresses: 0,
        loopback: false,
        connection_status: ConnectionStatus::Unknown,
    }
}

fn packet(byte: u8) -> Packet {
    Packet { source_id: 1, data: vec![byte] }
}

#[test]
fn the_settings_of_a_live_capture() {
    let settings = capture_settings();
    assert!(settings.immediate_mode);
    assert_eq!(settings.timeout, 1000);
    assert_eq!(settings.buffer_size, 16777216);
}

#[test]
fn opening_goes_through_four_steps() {
    let mut step = SetupStep::first();
    let mut seen = vec![step];
    while let Some(next) = step.after::<()>(Ok(())).unwrap() {
        step = next;
        seen.push(step);
    }
    assert_eq!(
        seen,
        vec![
            SetupStep::SelectDevice,
            SetupStep::Open,
            SetupStep::SetNonblocking,
            SetupStep::SetFilter
        ]
    );
}

#[test]
fn each_step_fails_in_its_own_way() {
    assert!(matches!(SetupStep::SelectDevice.after(Err(1)), Err(CaptureError::DeviceError(1))));
    assert!(matches!(
        SetupStep::Open.after(Err(2)),
        Err(CaptureError::CaptureError { has_captured: false, error: 2 })
    ));
    assert!(matches!(
        SetupStep::SetNonblocking.after(Err(3)),
        Err(CaptureError::CaptureError { has_captured: false, error: 3 })
    ));
    assert!(matches!(SetupStep::SetFilter.after(Err(4)), Err(CaptureError::FilterError(4))));
}

#[test]
fn the_source_is_the_hash_of_the_name() {
    for name in ["", "en0", "rvi0", "utun3", "caf\u{e9}", "a rather long interface name"] {
        let mut hasher = DefaultHasher::new();
        name.to_string().hash(&mut hasher);
        assert_eq!(source_id(name), hasher.finish());
    }
}

#[test]
fn a_capture_knows_its_device_source_and_link() {
    let capture = device("rvi0").create_capture(Linktype(PKTAP));
    assert_eq!(capture.device.name, "rvi0");
    assert_eq!(capture.id, source_id("rvi0"));
    assert_eq!(capture.linktype, Linktype(PKTAP));
    let codec = capture.codec();
    assert_eq!(codec.source_id, capture.id);
    assert_eq!(codec.linktype, Linktype(PKTAP));
}

#[test]
fn a_stream_that_does_not_start_has_captured_nothing() {
    assert!(matches!(
        CaptureStream::start(Err("no")),
        Err(CaptureError::CaptureError { has_captured: false, error: "no" })
    ));
    assert!(!CaptureStream::start::<()>(Ok(())).unwrap().has_captured);
}

#[test]
fn errors_tell_whether_a_packet_came_before() {
    let mut stream = CaptureStream::start::<()>(Ok(())).unwrap();
    assert!(matches!(
        stream.on_item(Err(ReadError::Other(1))),
        Some(Err(CaptureError::CaptureError { has_captured: false, error: ReadError::Other(1) }))
    ));
    match stream.on_item::<i32>(Ok(packet(7))) {
        Some(Ok(delivered)) => assert_eq!(delivered.data, vec![7]),
        other => panic!("{:?}", other),
    }
    assert!(matches!(
        stream.on_item(Err(ReadError::Other(2))),
        Some(Err(CaptureError::CaptureError { has_captured: true, error: ReadError::Other(2) }))
    ));
    match stream.on_item::<i32>(Err(ReadError::PcapError("device busy".to_string()))) {
        Some(Err(CaptureError::CaptureError {
            has_captured: true,
            error: ReadError::PcapError(message),
        })) => assert_eq!(message, "device busy"),
        other => panic!("{:?}", other),
    }
}

#[test]
fn a_removed_device_ends_the_stream() {
    let mut stream = CaptureStream::start::<()>(Ok(())).unwrap();
    let gone = "read: ERROR_DEVICE_REMOVED (1617)".to_string();
    assert!(stream.on_item::<i32>(Err(ReadError::PcapError(gone))).is_none());
    assert!(!stream.has_captured);
}
