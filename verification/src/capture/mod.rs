//! Packet capture: which devices to listen on, how a capture is opened, what is
//! handed on of each packet and when a capture ends.

pub mod device;
pub mod link;
pub mod pcap;
