use reliquary_archiver_mac::capture::device::{
    connected_capture_devices, CaptureError, ConnectionStatus, FilteredPcapBackend, PcapBackend,
    PcapDevice, PcapDeviceFilter,
};

fn device(name: &str, desc: Option<&str>) -> PcapDevice {
    PcapDevice {
        name: name.to_string(),
        desc: desc.map(|desc| desc.to_string()),
        addresses: 1,
        loopback: false,
        connection_status: ConnectionStatus::Connected,
    }
}

fn names(devices: &[PcapDevice]) -> Vec<String> {
    devices.iter().map(|device| device.name().to_string()).collect()
}

fn machine() -> Vec<PcapDevice> {
    vec![
        device("en0", Some("Wi-Fi")),
        PcapDevice { loopback: true, ..device("lo0", None) },
        PcapDevice { addresses: 0, ..device("en1", None) },
        PcapDevice {
            addresses: 0,
            connection_status: ConnectionStatus::Unknown,
            ..device("rvi0", Some("Remote Virtual Interface"))
        },
        PcapDevice { connection_status: ConnectionStatus::Disconnected, ..device("en2", None) },
        PcapDevice { connection_status: ConnectionStatus::NotApplicable, ..device("gif0", None) },
        PcapDevice { loopback: true, ..device("rvi9", None) },
        device("en3", Some("Thunderbolt")),
    ]
}

#[test]
fn connected_devices_and_remote_interfaces_are_listed() {
    let kept = connected_capture_devices::<()>(Ok(machine())).unwrap();
    assert_eq!(names(&kept), vec!["en0", "rvi0", "en3"]);
    let kept = PcapBackend::new().list_devices::<()>(Ok(machine())).unwrap();
    assert_eq!(names(&kept), vec!["en0", "rvi0", "en3"]);
}

#[test]
fn a_listing_error_is_a_device_error() {
    assert!(matches!(
        connected_capture_devices(Err("gone")),
        Err(CaptureError::DeviceError("gone"))
    ));
    assert!(matches!(
        FilteredPcapBackend::new(Vec::new()).list_devices(Err(3)),
        Err(CaptureError::DeviceError(3))
    ));
    assert!(matches!(PcapBackend::new().list_devices(Err(4)), Err(CaptureError::DeviceError(4))));
}

#[test]
fn a_filter_goes_by_name_and_description() {
    let filter = PcapDeviceFilter::new(vec!["rvi0".to_string(), "wi-fi".to_string()]);
    assert!(filter.matches(&device("rvi0", None)));
    assert!(!filter.matches(&device("rvi00", None)));
    assert!(!filter.matches(&device("RVI0", None)));
    assert!(filter.matches(&device("en0", Some("Wi-Fi"))));
    assert!(!filter.matches(&device("en0", Some("my Wi-Fi"))));
    assert!(filter.matches(&device("en0", Some("my wi-fi card"))));
    assert!(!filter.matches(&device("en0", None)));
    assert!(!filter.matches(&device("en5", Some("rvi0"))));
    assert!(!filter.matches(&device("en5", Some("tap of rvi0"))));
    assert!(filter.matches(&device("rvi0", Some("rvi0"))));
}

#[test]
fn no_names_match_everything() {
    let filter = PcapDeviceFilter::new(Vec::new());
    assert!(filter.matches(&device("anything", None)));
    let kept = FilteredPcapBackend::new(Vec::new()).list_devices::<()>(Ok(machine())).unwrap();
    assert_eq!(names(&kept), vec!["en0", "rvi0", "en3"]);
}

#[test]
fn only_the_asked_for_interface_is_listed() {
    let backend = FilteredPcapBackend::new(vec!["rvi0".to_string()]);
    let mut devices = machine();
    devices.push(device("en5", Some("rvi0")));
    let kept = backend.list_devices::<()>(Ok(devices)).unwrap();
    assert_eq!(names(&kept), vec!["rvi0"]);
    let backend = FilteredPcapBackend::new(vec!["lo0".to_string(), "rvi9".to_string()]);
    assert_eq!(backend.list_devices::<()>(Ok(machine())).unwrap().len(), 0);
}

#[test]
fn cloning_keeps_a_device() {
    let original = device("en0", Some("Wi-Fi"));
    let copy = original.clone();
    assert_eq!(copy.name, "en0");
    assert_eq!(copy.desc.as_deref(), Some("Wi-Fi"));
    assert_eq!(copy.connection_status, ConnectionStatus::Connected);
}
