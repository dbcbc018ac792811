use std::collections::VecDeque;

use reliquary_archiver_mac::file::{
    capture_from_pcap, file_process_packet, FileAction, FileCapture, FileEvent, PacketStep,
    ProcessResult,
};
use reliquary_archiver_mac::game::{
    ConnectionPacket, ConnectionPacketError, GameCommand, GameCommandError, GamePacket, KcpError,
    NetworkError,
};
use reliquary_archiver_mac::live::{
    capture_timeout, Afterwards, CommandIds, Flow, LiveAction, LiveCapture, ReceiveAction, Received,
};

const IDS: CommandIds = CommandIds { get_token: 10, login_finish: 20 };

fn command(command_id: u16, token_uid: Option<u32>, body: char) -> GamePacket<char> {
    GamePacket::Commands { conv_id: 5, result: Ok(GameCommand { command_id, token_uid, body }) }
}

fn unreadable(error: GameCommandError) -> GamePacket<char> {
    GamePacket::Commands { conv_id: 5, result: Err(error) }
}

fn connection() -> GamePacket<char> {
    GamePacket::Connection(ConnectionPacket::Disconnected)
}

fn describe(actions: &[LiveAction<char>]) -> Vec<String> {
    actions
        .iter()
        .map(|action| match action {
            LiveAction::RegisterUid { conv_id, uid } => format!("register {} {}", conv_id, uid),
            LiveAction::SelectAccount { uid } => format!("select {}", uid),
            LiveAction::Route { conv_id, command } => format!("route {} {}", conv_id, command.body),
        })
        .collect()
}

#[test]
fn a_capture_stops_when_nothing_comes_any_more() {
    let live = LiveCapture::new(IDS, false, false);
    assert_eq!(live.on_received(Received::Packet { source_id: 1 }), ReceiveAction::Sniff);
    assert_eq!(live.on_received(Received::Ended), ReceiveAction::Stop);
    assert_eq!(live.on_received(Received::TimedOut), ReceiveAction::Stop);
    assert_eq!(live.on_received(Received::Failed), ReceiveAction::Stop);
    assert_eq!(live.exported_account(), None);
}

#[test]
fn connection_errors_poison_their_source() {
    let mut live = LiveCapture::new(IDS, true, true);
    let missing = NetworkError::ConnectionPacket(ConnectionPacketError::TransportLayerNotPresent);
    let other = NetworkError::ConnectionPacket(ConnectionPacketError::Other);
    assert_eq!(live.on_network_error(1, missing), Flow::Continue);
    assert_eq!(live.on_received(Received::Packet { source_id: 1 }), ReceiveAction::Sniff);
    assert_eq!(live.on_network_error(1, other), Flow::Continue);
    assert_eq!(live.on_received(Received::Packet { source_id: 1 }), ReceiveAction::Skip);
    assert_eq!(live.on_received(Received::Packet { source_id: 2 }), ReceiveAction::Sniff);
    live.on_packets(vec![command(1, None, 'a')]);
    live.on_network_error(1, missing);
    assert_eq!(live.on_received(Received::Packet { source_id: 1 }), ReceiveAction::Skip);
}

#[test]
fn some_network_errors_are_fatal() {
    let kcp = [
        (KcpError::HeaderTooShort, Flow::Continue),
        (KcpError::SegmentTooShort, Flow::Continue),
        (KcpError::ContentLengthExceedsData, Flow::Continue),
        (KcpError::InvalidSegmentHeader, Flow::Continue),
        (KcpError::ClientNotConstructed, Flow::Continue),
        (KcpError::PacketDoesNotBelongToConversation, Flow::Stop),
        (KcpError::InnerKcpError, Flow::Stop),
    ];
    let game = [
        (GameCommandError::DecryptionKeyMissing, Flow::Stop),
        (GameCommandError::HeaderTooShort, Flow::Continue),
        (GameCommandError::CommandTooShort, Flow::Continue),
        (GameCommandError::VersionMismatch, Flow::Continue),
    ];
    let mut live = LiveCapture::new(IDS, false, false);
    for (error, flow) in kcp {
        assert_eq!(live.on_network_error(1, NetworkError::Kcp(error)), flow);
    }
    for (error, flow) in game {
        assert_eq!(live.on_network_error(1, NetworkError::GameCommand(error)), flow);
    }
    assert_eq!(live.on_received(Received::Packet { source_id: 1 }), ReceiveAction::Sniff);
}

#[test]
fn commands_are_routed_until_the_login_ends() {
    let mut live = LiveCapture::new(IDS, false, false);
    let (actions, afterwards) = live.on_packets(vec![
        connection(),
        command(1, Some(99), 'a'),
        command(10, Some(7), 'b'),
        unreadable(GameCommandError::VersionMismatch),
        command(10, None, 'c'),
    ]);
    assert_eq!(describe(&actions), vec!["route 5 a", "register 5 7", "route 5 b", "route 5 c"]);
    assert_eq!(afterwards, Afterwards::CheckInitialized { uid: 7 });
    assert_eq!(live.exported_account(), Some(7));
    assert_eq!(live.on_checked(false), Flow::Continue);
    assert_eq!(live.on_checked(true), Flow::Stop);
    let (actions, afterwards) =
        live.on_packets(vec![command(1, None, 'd'), command(20, None, 'e'), command(10, Some(8), 'f')]);
    assert_eq!(describe(&actions), vec!["route 5 d"]);
    assert_eq!(afterwards, Afterwards::Stop);
    assert_eq!(live.exported_account(), Some(7));
}

#[test]
fn streaming_follows_the_account_and_goes_on() {
    let mut live = LiveCapture::new(IDS, true, true);
    let (actions, afterwards) =
        live.on_packets(vec![command(10, Some(7), 'a'), command(20, None, 'b'), command(10, Some(8), 'c')]);
    assert_eq!(
        describe(&actions),
        vec!["register 5 7", "select 7", "route 5 a", "route 5 b", "register 5 8", "select 8", "route 5 c"]
    );
    assert_eq!(afterwards, Afterwards::Continue);
    assert_eq!(live.exported_account(), Some(8));
}

#[test]
fn a_missing_key_stops_every_capture() {
    for streaming in [false, true] {
        let mut live = LiveCapture::new(IDS, streaming, streaming);
        let (actions, afterwards) = live.on_packets(vec![
            command(1, None, 'a'),
            unreadable(GameCommandError::DecryptionKeyMissing),
            command(1, None, 'b'),
        ]);
        assert_eq!(describe(&actions), vec!["route 5 a"]);
        assert_eq!(afterwards, Afterwards::Stop);
    }
}

#[test]
fn the_packets_that_stop_a_capture() {
    let live = LiveCapture::new(IDS, false, false);
    let stream = LiveCapture::new(IDS, true, true);
    assert!(live.stops_at(&command(20, None, 'a')));
    assert!(!stream.stops_at(&command(20, None, 'a')));
    for capture in [&live, &stream] {
        assert!(!capture.stops_at(&command(10, Some(7), 'a')));
        assert!(!capture.stops_at(&connection()));
        assert!(!capture.stops_at(&unreadable(GameCommandError::VersionMismatch)));
        assert!(capture.stops_at(&unreadable(GameCommandError::DecryptionKeyMissing)));
    }
}

#[test]
fn nothing_is_checked_before_an_account_is_known() {
    let mut live = LiveCapture::new(IDS, false, false);
    let (_, afterwards) = live.on_packets(vec![command(1, None, 'a')]);
    assert_eq!(afterwards, Afterwards::Continue);
}

#[test]
fn streaming_has_no_timeout() {
    assert_eq!(capture_timeout(true, 120), None);
    assert_eq!(capture_timeout(false, 120), Some(120));
}

#[test]
fn game_packets_of_a_file_are_taken_one_by_one() {
    let mut pending: VecDeque<GamePacket<char>> = VecDeque::new();
    assert!(matches!(
        file_process_packet(&mut pending),
        PacketStep::Done(ProcessResult::Continue)
    ));
    pending.push_back(connection());
    pending.push_back(command(1, None, 'a'));
    pending.push_back(connection());
    pending.push_back(command(2, None, 'b'));
    match file_process_packet(&mut pending) {
        PacketStep::Deliver(command) => assert_eq!(command.body, 'a'),
        other => panic!("{:?}", other),
    }
    assert_eq!(pending.len(), 2);
    match file_process_packet(&mut pending) {
        PacketStep::Deliver(command) => assert_eq!(command.body, 'b'),
        other => panic!("{:?}", other),
    }
    assert!(matches!(
        file_process_packet(&mut pending),
        PacketStep::Done(ProcessResult::Continue)
    ));
}

#[test]
fn an_unreadable_command_ends_its_packet() {
    for (error, expected) in [
        (GameCommandError::VersionMismatch, ProcessResult::Continue),
        (GameCommandError::DecryptionKeyMissing, ProcessResult::Stop),
        (GameCommandError::HeaderTooShort, ProcessResult::Stop),
        (GameCommandError::CommandTooShort, ProcessResult::Stop),
    ] {
        let mut pending: VecDeque<GamePacket<char>> = VecDeque::new();
        pending.push_back(unreadable(error));
        pending.push_back(command(1, None, 'a'));
        match file_process_packet(&mut pending) {
            PacketStep::Done(result) => assert_eq!(result, expected),
            other => panic!("{:?}", other),
        }
        assert!(pending.is_empty());
    }
}

#[test]
fn a_file_is_read_to_its_end() {
    let mut capture: FileCapture<char> = FileCapture::new();
    let nothing = NetworkError::ConnectionPacket(ConnectionPacketError::Other);
    assert!(matches!(
        capture_from_pcap(&mut capture, FileEvent::Sniffed(Err(nothing))),
        FileAction::ReadNext
    ));
    let packets = vec![command(1, None, 'a'), command(2, None, 'b')];
    match capture_from_pcap(&mut capture, FileEvent::Sniffed(Ok(packets))) {
        FileAction::Deliver(command) => assert_eq!(command.body, 'a'),
        other => panic!("{:?}", other),
    }
    match capture_from_pcap(&mut capture, FileEvent::Delivered { initialized: false }) {
        FileAction::Deliver(command) => assert_eq!(command.body, 'b'),
        other => panic!("{:?}", other),
    }
    assert!(matches!(
        capture_from_pcap(&mut capture, FileEvent::Delivered { initialized: false }),
        FileAction::ReadNext
    ));
    assert!(matches!(capture_from_pcap(&mut capture, FileEvent::EndOfFile), FileAction::Export));
}

#[test]
fn a_file_is_read_until_the_exporter_is_complete() {
    let mut capture: FileCapture<char> = FileCapture::new();
    let packets = vec![command(1, None, 'a'), command(2, None, 'b')];
    match capture_from_pcap(&mut capture, FileEvent::Sniffed(Ok(packets))) {
        FileAction::Deliver(command) => assert_eq!(command.body, 'a'),
        other => panic!("{:?}", other),
    }
    assert!(matches!(
        capture_from_pcap(&mut capture, FileEvent::Delivered { initialized: true }),
        FileAction::Export
    ));
    let broken = vec![unreadable(GameCommandError::CommandTooShort), command(2, None, 'b')];
    assert!(matches!(
        capture_from_pcap(&mut capture, FileEvent::Sniffed(Ok(broken))),
        FileAction::Export
    ));
}
