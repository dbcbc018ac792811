use reliquary_archiver_mac::capture::link::{
    looks_like_pktap_payload, normalize_link_payload, normalize_raw_ip_payload, pktap_header_len,
    strip_pktap_payload, Codec, Linktype, PKTAP,
};

const ETHERNET: Linktype = Linktype(1);

fn pktap_record(header_len: u32, kind: u32, payload: &[u8]) -> Vec<u8> {
    let mut data: Vec<u8> = header_len.to_le_bytes().to_vec();
    data.extend_from_slice(&kind.to_le_bytes());
    while data.len() < header_len as usize {
        data.push(0xaa);
    }
    data.extend_from_slice(payload);
    data
}

fn frame(ethertype: [u8; 2], payload: &[u8]) -> Vec<u8> {
    let mut data: Vec<u8> = vec![0; 12];
    data.extend_from_slice(&ethertype);
    data.extend_from_slice(payload);
    data
}

#[test]
fn header_length_is_little_endian_and_at_least_32() {
    assert_eq!(pktap_header_len(&[]), None);
    assert_eq!(pktap_header_len(&[108, 0, 0]), None);
    assert_eq!(pktap_header_len(&[31, 0, 0, 0]), None);
    assert_eq!(pktap_header_len(&[32, 0, 0, 0]), Some(32));
    assert_eq!(pktap_header_len(&[108, 0, 0, 0, 9]), Some(108));
    assert_eq!(pktap_header_len(&[1, 2, 3, 4]), Some(0x04030201));
    assert_eq!(pktap_header_len(&[0xff, 0xff, 0xff, 0xff]), Some(0xffff_ffff));
}

#[test]
fn a_record_needs_type_one_and_a_payload() {
    assert!(looks_like_pktap_payload(&pktap_record(108, 1, &[0x45])));
    assert!(!looks_like_pktap_payload(&pktap_record(108, 1, &[])));
    assert!(!looks_like_pktap_payload(&pktap_record(108, 2, &[0x45])));
    assert!(!looks_like_pktap_payload(&[1, 0, 0, 0, 1, 0, 0, 0]));
    assert!(!looks_like_pktap_payload(&[]));
}

#[test]
fn stripping_leaves_what_has_no_header() {
    assert_eq!(strip_pktap_payload(&pktap_record(32, 7, &[1, 2, 3])), &[1, 2, 3]);
    let bare = pktap_record(32, 1, &[]);
    assert_eq!(strip_pktap_payload(&bare), bare.as_slice());
    assert_eq!(strip_pktap_payload(&[0x45, 0]), &[0x45, 0]);
}

#[test]
fn ip_packets_get_an_ethernet_header() {
    assert_eq!(normalize_raw_ip_payload(&[]), Vec::<u8>::new());
    assert_eq!(normalize_raw_ip_payload(&[0x45, 1, 2]), frame([0x08, 0x00], &[0x45, 1, 2]));
    assert_eq!(normalize_raw_ip_payload(&[0x60, 9]), frame([0x86, 0xdd], &[0x60, 9]));
    assert_eq!(normalize_raw_ip_payload(&[0x35, 0x45]), vec![0x35, 0x45]);
    assert_eq!(normalize_raw_ip_payload(&[0x00, 0x45]), vec![0x00, 0x45]);
}

#[test]
fn link_types_are_brought_to_one_shape() {
    let packet = [0x45, 0, 0, 20];
    let expected = frame([0x08, 0x00], &packet);
    let record = pktap_record(108, 1, &packet);
    assert_eq!(normalize_link_payload(&packet, ETHERNET), expected);
    assert_eq!(normalize_link_payload(&record, Linktype(PKTAP)), expected);
    assert_eq!(normalize_link_payload(&record, ETHERNET), expected);
    let other_kind = pktap_record(108, 2, &packet);
    assert_eq!(normalize_link_payload(&other_kind, Linktype(PKTAP)), expected);
    assert_eq!(normalize_link_payload(&other_kind, ETHERNET), frame([0x86, 0xdd], &other_kind));
}

#[test]
fn the_pktap_number_is_the_capture_library_s() {
    assert_eq!(PKTAP, 258);
}

#[test]
fn frames_pass_unchanged() {
    let once = normalize_raw_ip_payload(&[0x60, 1, 2, 3]);
    assert_eq!(normalize_raw_ip_payload(&once), once);
    assert_eq!(normalize_link_payload(&once, ETHERNET), once);
    assert_eq!(normalize_link_payload(&once, Linktype(PKTAP)), once);
}

#[test]
fn decoding_marks_the_source() {
    let codec = Codec { source_id: 42, linktype: Linktype(PKTAP) };
    let packet = codec.decode(&pktap_record(32, 1, &[0x45, 7]));
    assert_eq!(packet.source_id, 42);
    assert_eq!(packet.data, frame([0x08, 0x00], &[0x45, 7]));
}
