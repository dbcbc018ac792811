//! Bringing the payloads of different link types to one shape.
//!
//! A packet reaches the sniffer as an Ethernet frame. An iPhone's remote
//! interface delivers PKTAP records or bare IP packets instead: the PKTAP header
//! is cut off, and an Ethernet header is put in front of a bare IP packet.

use vstd::prelude::*;
use vstd::slice::{slice_subrange, slice_to_vec};

verus! {

/// A datalink type, by its number in the list of link types of libpcap.
#[derive(Debug, Clone, Copy, PartialEq, Eq, Structural)]
pub struct Linktype(pub i32);

/// The link type of Apple's PKTAP records.
pub const PKTAP: i32 = 258;

/// The shortest header length that a PKTAP record can announce.
pub const PKTAP_MIN_HEADER: u32 = 32;

/// A packet, with the capture that it came from.
#[derive(Debug)]
pub struct Packet {
    pub source_id: u64,
    pub data: Vec<u8>,
}

// ---------------------------------------------------------------------------
// What the functions compute
// ---------------------------------------------------------------------------

/// The number that the first four bytes of `data` hold, least significant first.
pub open spec fn le32(data: Seq<u8>) -> int {
    data[0] + 0x100 * data[1] + 0x1_0000 * data[2] + 0x100_0000 * data[3]
}

/// The header length that `data` announces as a PKTAP record.
pub open spec fn announced_header(data: Seq<u8>) -> Option<int> {
    if data.len() >= 4 && le32(data) >= PKTAP_MIN_HEADER {
        Some(le32(data))
    } else {
        None
    }
}

/// Whether `data` reads as a PKTAP record with a payload: a header length that
/// leaves something over, and record type 1.
pub open spec fn is_pktap_record(data: Seq<u8>) -> bool {
    &&& announced_header(data) matches Some(n) && n < data.len()
    &&& data.subrange(4, 8) == seq![1u8, 0u8, 0u8, 0u8]
}

/// `data` without the PKTAP header that it announces, where one with a payload
/// behind it is there.
pub open spec fn without_pktap(data: Seq<u8>) -> Seq<u8> {
    match announced_header(data) {
        Some(n) if n < data.len() => data.skip(n),
        _ => data,
    }
}

/// The IP version that the first byte of `data` announces.
pub open spec fn ip_version(data: Seq<u8>) -> int {
    data[0] as int / 16
}

/// Whether `data` starts as an IP packet of version 4 or 6 does.
pub open spec fn is_raw_ip(data: Seq<u8>) -> bool {
    data.len() > 0 && (ip_version(data) == 4 || ip_version(data) == 6)
}

/// The Ethernet header that is put in front of an IP packet: no addresses, and
/// the type of the packet's IP version.
pub open spec fn ethernet_header(version: int) -> Seq<u8> {
    Seq::new(12, |i: int| 0u8) + if version == 4 {
        seq![0x08u8, 0x00u8]
    } else {
        seq![0x86u8, 0xddu8]
    }
}

/// `data` as an Ethernet frame, where it is an IP packet; else `data` itself.
pub open spec fn framed(data: Seq<u8>) -> Seq<u8> {
    if is_raw_ip(data) {
        ethernet_header(ip_version(data)) + data
    } else {
        data
    }
}

/// What is handed on of a packet `data` that came over a link of type `linktype`.
pub open spec fn normalized(data: Seq<u8>, linktype: Linktype) -> Seq<u8> {
    if linktype.0 == PKTAP || is_pktap_record(data) {
        framed(without_pktap(data))
    } else {
        framed(data)
    }
}

// ---------------------------------------------------------------------------
// The functions
// ---------------------------------------------------------------------------

/// The header length that `data` announces as a PKTAP record, if it can be one.
pub fn pktap_header_len(data: &[u8]) -> (r: Option<usize>)
    ensures
        match r {
            Some(n) => announced_header(data@) == Some(n as int),
            None => announced_header(data@) is None,
        },
{
    if data.len() < 4 {
        return None;
    }
    let header_len: u32 = data[0] as u32 + 0x100 * data[1] as u32 + 0x1_0000 * data[2] as u32
        + 0x100_0000 * data[3] as u32;
    if header_len < PKTAP_MIN_HEADER {
        return None;
    }
    Some(header_len as usize)
}

/// Whether `data` reads as a PKTAP record with a payload.
pub fn looks_like_pktap_payload(data: &[u8]) -> (r: bool)
    ensures
        r == is_pktap_record(data@),
{
    match pktap_header_len(data) {
        Some(header_len) => {
            if header_len < data.len() {
                let r: bool = data[4] == 1 && data[5] == 0 && data[6] == 0 && data[7] == 0;
                proof {
                    let kind = data@.subrange(4, 8);
                    assert(kind[0] == data@[4] && kind[1] == data@[5] && kind[2] == data@[6]
                        && kind[3] == data@[7]);
                    if r {
                        assert(kind =~= seq![1u8, 0u8, 0u8, 0u8]);
                    }
                }
                r
            } else {
                false
            }
        },
        None => false,
    }
}

/// `data` without its PKTAP header, or as it is where it has none.
pub fn strip_pktap_payload(data: &[u8]) -> (r: &[u8])
    ensures
        r@ == without_pktap(data@),
{
    match pktap_header_len(data) {
        Some(header_len) => {
            if header_len >= data.len() {
                data
            } else {
                slice_subrange(data, header_len, data.len())
            }
        },
        None => data,
    }
}

/// `data` behind an Ethernet header where it is a bare IP packet, else a copy.
pub fn normalize_raw_ip_payload(data: &[u8]) -> (r: Vec<u8>)
    ensures
        r@ == framed(data@),
{
    if data.len() == 0 {
        return Vec::new();
    }
    let first: u8 = data[0];
    assert(first >> 4 == first / 16) by (bit_vector);
    let ethertype: [u8; 2] = match first >> 4 {
        4 => [0x08, 0x00],
        6 => [0x86, 0xdd],
        _ => return slice_to_vec(data),
    };
    let mut ethernet: Vec<u8> = Vec::new();
    ethernet.extend_from_slice(&[0u8; 12]);
    ethernet.extend_from_slice(&ethertype);
    ethernet.extend_from_slice(data);
    ethernet
}

/// The Ethernet frame to hand on for a packet `data` of a link of type `linktype`.
pub fn normalize_link_payload(data: &[u8], linktype: Linktype) -> (r: Vec<u8>)
    ensures
        r@ == normalized(data@, linktype),
{
    let payload: &[u8] = if linktype.0 == PKTAP || looks_like_pktap_payload(data) {
        strip_pktap_payload(data)
    } else {
        data
    };
    normalize_raw_ip_payload(payload)
}

/// Turns what one capture delivers into packets.
#[derive(Debug, Clone, Copy)]
pub struct Codec {
    pub source_id: u64,
    pub linktype: Linktype,
}

impl Codec {
    /// The packet for `data`, marked with the capture that it came from.
    pub fn decode(&self, data: &[u8]) -> (r: Packet)
        ensures
            r.source_id == self.source_id,
            r.data@ == normalized(data@, self.linktype),
    {
        Packet { source_id: self.source_id, data: normalize_link_payload(data, self.linktype) }
    }
}

// ---------------------------------------------------------------------------
// Laws
// ---------------------------------------------------------------------------

/// A PKTAP record gives back the payload behind its header: a header of at least
/// 32 bytes that begins with its own length disappears, whatever it holds
/// besides.
pub proof fn law_pktap_header_is_cut(header: Seq<u8>, payload: Seq<u8>)
    requires
        header.len() >= PKTAP_MIN_HEADER,
        le32(header) == header.len(),
        payload.len() > 0,
    ensures
        without_pktap(header + payload) == payload,
        normalized(header + payload, Linktype(PKTAP)) == framed(payload),
{
    let data = header + payload;
    assert(le32(data) == le32(header));
    assert(data.skip(header.len() as int) =~= payload);
}

/// A record of type 1 is recognised on every link type, so its payload comes out
/// the same whether or not the link says that it carries PKTAP.
pub proof fn law_pktap_is_recognised(data: Seq<u8>, linktype: Linktype)
    requires
        is_pktap_record(data),
    ensures
        normalized(data, linktype) == normalized(data, Linktype(PKTAP)),
{
}

/// An IP packet is handed on whole, behind fourteen bytes that end in the
/// Ethernet type of its version.
pub proof fn law_ip_is_kept_whole(data: Seq<u8>)
    requires
        is_raw_ip(data),
    ensures
        framed(data).len() == data.len() + 14,
        framed(data).skip(14) == data,
        forall|i: int| 0 <= i < 12 ==> framed(data)[i] == 0,
        ip_version(data) == 4 ==> framed(data)[12] == 0x08 && framed(data)[13] == 0x00,
        ip_version(data) == 6 ==> framed(data)[12] == 0x86 && framed(data)[13] == 0xdd,
{
    assert(framed(data).skip(14) =~= data);
}

/// Framing is done once: framing a second time changes nothing.
pub proof fn law_framing_is_idempotent(data: Seq<u8>)
    ensures
        framed(framed(data)) == framed(data),
{
    if is_raw_ip(data) {
        assert(framed(data)[0] == 0);
    }
}

/// A frame that was made from an IP packet passes through every link type
/// unchanged.
pub proof fn law_frames_pass_unchanged(data: Seq<u8>, linktype: Linktype)
    requires
        is_raw_ip(data),
    ensures
        normalized(framed(data), linktype) == framed(data),
{
    let frame = framed(data);
    assert(frame[0] == 0 && frame[1] == 0 && frame[2] == 0 && frame[3] == 0);
    law_framing_is_idempotent(data);
}

/// What is handed on ends in the packet's payload: bytes are cut off or put in
/// only in front of it, and at most fourteen are put in.
pub proof fn law_payload_is_kept(data: Seq<u8>, linktype: Linktype)
    ensures
        without_pktap(data).is_suffix_of(normalized(data, linktype)),
        normalized(data, linktype).len() <= data.len() + 14,
{
    let payload = without_pktap(data);
    let whole = normalized(data, linktype);
    assert(whole.subrange(whole.len() - payload.len(), whole.len() as int) =~= payload);
}

/// Data that does not begin with 4 or 6 in the upper half of its first byte is
/// handed on byte for byte: an Ethernet frame gets no second header.
pub proof fn law_frames_get_no_second_header(data: &[u8], frame: Vec<u8>)
    requires
        call_ensures(normalize_raw_ip_payload, (data,), frame),
        data@.len() > 0 ==> !(0x40 <= data@[0] <= 0x4f) && !(0x60 <= data@[0] <= 0x6f),
    ensures
        frame@ == data@,
{
}

/// A bare IP packet is found whole behind fourteen bytes: twelve zeros for the
/// addresses, then 08 00 for version 4 and 86 dd for version 6.
pub proof fn law_bare_ip_gets_a_header(data: &[u8], frame: Vec<u8>)
    requires
        call_ensures(normalize_raw_ip_payload, (data,), frame),
        data@.len() > 0,
        0x40 <= data@[0] <= 0x4f || 0x60 <= data@[0] <= 0x6f,
    ensures
        frame@.len() == data@.len() + 14,
        frame@.skip(14) == data@,
        forall|i: int| 0 <= i < 12 ==> #[trigger] frame@[i] == 0,
        data@[0] <= 0x4f ==> frame@[12] == 0x08 && frame@[13] == 0x00,
        data@[0] >= 0x60 ==> frame@[12] == 0x86 && frame@[13] == 0xdd,
{
    assert(frame@.skip(14) =~= data@);
}

/// The number with which `data` begins, in four bytes of which the last counts
/// most.
pub open spec fn leading_number(data: Seq<u8>) -> int {
    data[0] + 256 * (data[1] + 256 * (data[2] + 256 * data[3]))
}

/// Whether `data` consists of a header, of at least 32 bytes and as long as the
/// number with which it begins, and of something behind it.
pub open spec fn has_header_and_payload(data: Seq<u8>) -> bool {
    data.len() >= 4 && 32 <= leading_number(data) < data.len()
}

/// A packet without a PKTAP header comes out as its bytes do when they are
/// framed, whatever the link says that it carries. A header counts only where a
/// payload follows it, and, on other links than PKTAP, only on a record of type
/// 1.
pub proof fn law_packets_without_pktap_header(
    data: &[u8],
    linktype: Linktype,
    packet: Vec<u8>,
    frame: Vec<u8>,
)
    requires
        call_ensures(normalize_link_payload, (data, linktype), packet),
        call_ensures(normalize_raw_ip_payload, (data,), frame),
        !has_header_and_payload(data@) || (linktype.0 != 258 && data@.subrange(4, 8) != seq![
            1u8,
            0u8,
            0u8,
            0u8,
        ]),
    ensures
        packet@ == frame@,
{
}

/// A packet with a PKTAP header comes out as its payload does when that is
/// framed: on a PKTAP link whatever its type, on other links where its type is 1.
pub proof fn law_packets_with_pktap_header(
    data: &[u8],
    linktype: Linktype,
    payload: &[u8],
    packet: Vec<u8>,
    frame: Vec<u8>,
)
    requires
        call_ensures(normalize_link_payload, (data, linktype), packet),
        call_ensures(normalize_raw_ip_payload, (payload,), frame),
        has_header_and_payload(data@),
        payload@ == data@.skip(leading_number(data@)),
        linktype.0 == 258 || data@.subrange(4, 8) == seq![1u8, 0u8, 0u8, 0u8],
    ensures
        packet@ == frame@,
{
}

/// A packet that is no PKTAP record, on a link that is not PKTAP, comes out
/// unchanged unless it begins as an IP packet does.
pub proof fn law_ordinary_frames_come_out_unchanged(
    data: &[u8],
    linktype: Linktype,
    packet: Vec<u8>,
)
    requires
        call_ensures(normalize_link_payload, (data, linktype), packet),
        linktype.0 != 258,
        !has_header_and_payload(data@) || data@.subrange(4, 8) != seq![1u8, 0u8, 0u8, 0u8],
        data@.len() > 0 ==> !(0x40 <= data@[0] <= 0x4f) && !(0x60 <= data@[0] <= 0x6f),
    ensures
        packet@ == data@,
{
}

/// Cutting a PKTAP header off leaves what stands behind it, and everything where
/// there is no header with a payload.
pub proof fn law_stripping_leaves_the_payload(data: &[u8], stripped: &[u8])
    requires
        call_ensures(strip_pktap_payload, (data,), stripped),
    ensures
        has_header_and_payload(data@) ==> stripped@ == data@.skip(leading_number(data@)),
        !has_header_and_payload(data@) ==> stripped@ == data@,
{
}

/// A header length is announced exactly by a leading number of 32 or more, which
/// it then is; a record with a payload is recognised exactly where that length
/// leaves something over and the type is 1.
pub proof fn law_announced_header(data: &[u8], announced: Option<usize>, recognised: bool)
    requires
        call_ensures(pktap_header_len, (data,), announced),
        call_ensures(looks_like_pktap_payload, (data,), recognised),
    ensures
        announced is Some <==> data@.len() >= 4 && leading_number(data@) >= 32,
        announced matches Some(n) ==> n == leading_number(data@),
        recognised <==> has_header_and_payload(data@) && data@[4] == 1 && data@[5] == 0
            && data@[6] == 0 && data@[7] == 0,
{
    if has_header_and_payload(data@) {
        let kind = data@.subrange(4, 8);
        assert(kind[0] == data@[4] && kind[1] == data@[5] && kind[2] == data@[6] && kind[3]
            == data@[7]);
        if data@[4] == 1 && data@[5] == 0 && data@[6] == 0 && data@[7] == 0 {
            assert(kind =~= seq![1u8, 0u8, 0u8, 0u8]);
        }
    }
}

/// A codec marks every packet with its capture, and changes its data as its link
/// type asks for.
pub proof fn law_codec_marks_packets(
    codec: Codec,
    data: &[u8],
    decoded: Packet,
    packet: Vec<u8>,
)
    requires
        call_ensures(Codec::decode, (&codec, data), decoded),
        call_ensures(normalize_link_payload, (data, codec.linktype), packet),
    ensures
        decoded.source_id == codec.source_id,
        decoded.data@ == packet@,
{
}

} // verus!
