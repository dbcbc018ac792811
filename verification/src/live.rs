//! A live capture: what to do with each packet, and when to stop.
//!
//! Packets are received, sniffed and handed to exporters elsewhere; here is what
//! becomes of each of them.

use std::collections::HashSet;

use vstd::prelude::*;

use crate::game::{
    ConnectionPacketError, GameCommand, GameCommandError, GamePacket, KcpError, NetworkError,
};

verus! {

broadcast use vstd::std_specs::hash::group_hash_axioms;

/// The numbers of the commands that a capture goes by.
#[derive(Debug, Clone, Copy, PartialEq, Eq, Structural)]
pub struct CommandIds {
    /// The response that tells the account number.
    pub get_token: u16,
    /// The response that ends a login.
    pub login_finish: u16,
}

/// What the capture delivered.
#[derive(Debug, Clone, Copy, PartialEq, Eq, Structural)]
pub enum Received {
    /// A packet of the capture `source_id`.
    Packet { source_id: u64 },
    /// No more packets.
    Ended,
    /// The time is up.
    TimedOut,
    /// An error.
    Failed,
}

/// What to do with what the capture delivered.
#[derive(Debug, Clone, Copy, PartialEq, Eq, Structural)]
pub enum ReceiveAction {
    /// Hand the packet to the sniffer.
    Sniff,
    /// Go on with the next packet.
    Skip,
    /// Stop capturing.
    Stop,
}

/// What to do for a game packet.
#[derive(Debug)]
pub enum LiveAction<C> {
    /// The conversation belongs to this account.
    RegisterUid { conv_id: u32, uid: u32 },
    /// Stream this account.
    SelectAccount { uid: u32 },
    /// Hand the command to the exporter of the conversation.
    Route { conv_id: u32, command: GameCommand<C> },
}

/// What to do once the game packets have been dealt with.
#[derive(Debug, Clone, Copy, PartialEq, Eq, Structural)]
pub enum Afterwards {
    /// Go on with the next packet.
    Continue,
    /// Find out whether the exporter of this account has all it needs.
    CheckInitialized { uid: u32 },
    /// Stop capturing.
    Stop,
}

/// Whether to go on capturing.
#[derive(Debug, Clone, Copy, PartialEq, Eq, Structural)]
pub enum Flow {
    Continue,
    Stop,
}

// ---------------------------------------------------------------------------
// The model
// ---------------------------------------------------------------------------

/// What a live capture knows.
pub struct LiveModel {
    pub ids: CommandIds,
    /// Whether the capture goes on after the login.
    pub streaming: bool,
    /// Whether somebody follows the account that is streamed.
    pub announces: bool,
    /// The captures whose packets are skipped.
    pub poisoned: Set<u64>,
    /// The account that logged in last.
    pub latest_uid: Option<u32>,
}

/// The outcome of a sequence of game packets: what to do, the account that
/// logged in last, and whether capturing stops.
pub struct Outcome<C> {
    pub actions: Seq<LiveAction<C>>,
    pub latest_uid: Option<u32>,
    pub stop: bool,
}

/// The account number that `command` tells.
pub open spec fn told_uid<C>(ids: CommandIds, command: GameCommand<C>) -> Option<u32> {
    if command.command_id == ids.get_token {
        command.token_uid
    } else {
        None
    }
}

impl LiveModel {
    /// What to do on learning that a conversation belongs to the account `uid`.
    pub open spec fn introduction<C>(self, conv_id: u32, uid: u32) -> Seq<LiveAction<C>> {
        if self.announces {
            seq![LiveAction::RegisterUid { conv_id, uid }, LiveAction::SelectAccount { uid }]
        } else {
            seq![LiveAction::RegisterUid { conv_id, uid }]
        }
    }

    /// Whether `command` ends the capture: the end of a login, unless streaming.
    pub open spec fn ends_with<C>(self, command: GameCommand<C>) -> bool {
        !self.streaming && command.command_id == self.ids.login_finish
    }

    /// Whether `packet` stops the capture.
    pub open spec fn stops_at<C>(self, packet: GamePacket<C>) -> bool {
        match packet {
            GamePacket::Connection(_) => false,
            GamePacket::Commands { conv_id, result: Ok(command) } => self.ends_with(command),
            GamePacket::Commands { conv_id, result: Err(error) } => error
                == GameCommandError::DecryptionKeyMissing,
        }
    }

    /// `before`, extended by one more game packet, with which the capture has not
    /// stopped yet.
    pub open spec fn extended<C>(self, before: Outcome<C>, packet: GamePacket<C>) -> Outcome<C> {
        match packet {
            GamePacket::Connection(_) => before,
            GamePacket::Commands { conv_id, result: Err(error) } => Outcome {
                stop: error == GameCommandError::DecryptionKeyMissing,
                ..before
            },
            GamePacket::Commands { conv_id, result: Ok(command) } => {
                let uid = told_uid(self.ids, command);
                let introduced = match uid {
                    Some(uid) => before.actions + self.introduction(conv_id, uid),
                    None => before.actions,
                };
                Outcome {
                    actions: if self.ends_with(command) {
                        introduced
                    } else {
                        introduced.push(LiveAction::Route { conv_id, command })
                    },
                    latest_uid: if uid is Some {
                        uid
                    } else {
                        before.latest_uid
                    },
                    stop: self.ends_with(command),
                }
            },
        }
    }

    /// The outcome of `packets`: they are dealt with in order until one of them
    /// stops the capture.
    pub open spec fn outcome<C>(self, packets: Seq<GamePacket<C>>) -> Outcome<C>
        decreases packets.len(),
    {
        if packets.len() == 0 {
            Outcome { actions: seq![], latest_uid: self.latest_uid, stop: false }
        } else {
            let before = self.outcome(packets.drop_last());
            if before.stop {
                before
            } else {
                self.extended(before, packets.last())
            }
        }
    }

    /// What to do once `packets` have been dealt with: outside of streaming, see
    /// whether the account that logged in last is complete.
    pub open spec fn afterwards<C>(self, packets: Seq<GamePacket<C>>) -> Afterwards {
        let outcome = self.outcome(packets);
        if outcome.stop {
            Afterwards::Stop
        } else {
            match outcome.latest_uid {
                Some(uid) => if self.streaming {
                    Afterwards::Continue
                } else {
                    Afterwards::CheckInitialized { uid }
                },
                None => Afterwards::Continue,
            }
        }
    }

    /// The capture once `packets` have been dealt with.
    pub open spec fn after_packets<C>(self, packets: Seq<GamePacket<C>>) -> LiveModel {
        LiveModel { latest_uid: self.outcome(packets).latest_uid, ..self }
    }

    /// The capture once the sniffer has failed on a packet of `source_id`.
    pub open spec fn after_error(self, source_id: u64, error: NetworkError) -> LiveModel {
        LiveModel {
            poisoned: if poisons(error) {
                self.poisoned.insert(source_id)
            } else {
                self.poisoned
            },
            ..self
        }
    }
}

/// Whether `error` shows that a capture delivers no packets of the game: errors
/// of the connection do, other than the lack of a transport layer.
pub open spec fn poisons(error: NetworkError) -> bool {
    error matches NetworkError::ConnectionPacket(error) && error
        != ConnectionPacketError::TransportLayerNotPresent
}

/// Whether `error` makes it pointless to go on.
pub open spec fn is_fatal(error: NetworkError) -> bool {
    match error {
        NetworkError::ConnectionPacket(_) => false,
        NetworkError::Kcp(error) => error == KcpError::PacketDoesNotBelongToConversation || error
            == KcpError::InnerKcpError,
        NetworkError::GameCommand(error) => error == GameCommandError::DecryptionKeyMissing,
    }
}

// ---------------------------------------------------------------------------
// The capture
// ---------------------------------------------------------------------------

/// A live capture.
#[derive(Debug)]
pub struct LiveCapture {
    ids: CommandIds,
    streaming: bool,
    announces: bool,
    poisoned: HashSet<u64>,
    latest_uid: Option<u32>,
}

/// How long a live capture lasts, in seconds: it has no end while streaming.
pub fn capture_timeout(streaming: bool, timeout: u64) -> (r: Option<u64>)
    ensures
        r == if streaming {
            None
        } else {
            Some(timeout)
        },
{
    if streaming {
        None
    } else {
        Some(timeout)
    }
}

impl View for LiveCapture {
    type V = LiveModel;

    closed spec fn view(&self) -> LiveModel {
        LiveModel {
            ids: self.ids,
            streaming: self.streaming,
            announces: self.announces,
            poisoned: self.poisoned@,
            latest_uid: self.latest_uid,
        }
    }
}

impl LiveCapture {
    /// A capture at its start.
    pub fn new(ids: CommandIds, streaming: bool, announces: bool) -> (r: LiveCapture)
        ensures
            r@ == (LiveModel {
                ids,
                streaming,
                announces,
                poisoned: Set::empty(),
                latest_uid: None,
            }),
    {
        LiveCapture { ids, streaming, announces, poisoned: HashSet::new(), latest_uid: None }
    }

    /// What to do with what the capture delivered: packets of a poisoned capture
    /// are skipped, and everything but a packet stops the capture.
    pub fn on_received(&self, received: Received) -> (r: ReceiveAction)
        ensures
            r == match received {
                Received::Packet { source_id } => if self@.poisoned.contains(source_id) {
                    ReceiveAction::Skip
                } else {
                    ReceiveAction::Sniff
                },
                _ => ReceiveAction::Stop,
            },
    {
        match received {
            Received::Packet { source_id } => if self.poisoned.contains(&source_id) {
                ReceiveAction::Skip
            } else {
                ReceiveAction::Sniff
            },
            Received::Ended => ReceiveAction::Stop,
            Received::TimedOut => ReceiveAction::Stop,
            Received::Failed => ReceiveAction::Stop,
        }
    }

    /// What to do when the sniffer has failed with `error` on a packet of
    /// `source_id`.
    pub fn on_network_error(&mut self, source_id: u64, error: NetworkError) -> (r: Flow)
        ensures
            final(self)@ == old(self)@.after_error(source_id, error),
            r == if is_fatal(error) {
                Flow::Stop
            } else {
                Flow::Continue
            },
    {
        match error {
            NetworkError::ConnectionPacket(error) => {
                if error == ConnectionPacketError::TransportLayerNotPresent {
                    return Flow::Continue;
                }
                self.poisoned.insert(source_id);
                Flow::Continue
            },
            NetworkError::Kcp(error) => match error {
                KcpError::HeaderTooShort => Flow::Continue,
                KcpError::SegmentTooShort => Flow::Continue,
                KcpError::ContentLengthExceedsData => Flow::Continue,
                KcpError::InvalidSegmentHeader => Flow::Continue,
                KcpError::ClientNotConstructed => Flow::Continue,
                KcpError::PacketDoesNotBelongToConversation => Flow::Stop,
                KcpError::InnerKcpError => Flow::Stop,
            },
            NetworkError::GameCommand(error) => match error {
                GameCommandError::DecryptionKeyMissing => Flow::Stop,
                GameCommandError::HeaderTooShort => Flow::Continue,
                GameCommandError::CommandTooShort => Flow::Continue,
                GameCommandError::VersionMismatch => Flow::Continue,
            },
        }
    }

    /// Whether `packet` stops the capture.
    pub fn stops_at<C>(&self, packet: &GamePacket<C>) -> (r: bool)
        ensures
            r == self@.stops_at(*packet),
    {
        match packet {
            GamePacket::Connection(_) => false,
            GamePacket::Commands { conv_id: _, result } => match result {
                Ok(command) => !self.streaming && command.command_id == self.ids.login_finish,
                Err(error) => *error == GameCommandError::DecryptionKeyMissing,
            },
        }
    }

    /// What to do with the game packets that the sniffer made of a packet, and
    /// what to do then.
    pub fn on_packets<C>(&mut self, packets: Vec<GamePacket<C>>) -> (r: (
        Vec<LiveAction<C>>,
        Afterwards,
    ))
        ensures
            r.0@ == old(self)@.outcome(packets@).actions,
            r.1 == old(self)@.afterwards(packets@),
            final(self)@ == old(self)@.after_packets(packets@),
    {
        let ghost model = self@;
        let ghost all = packets@;
        let mut actions: Vec<LiveAction<C>> = Vec::new();
        let mut stop: bool = false;
        for packet in it: packets
            invariant
                it.seq() == all,
                self@ == (LiveModel {
                    latest_uid: model.outcome(all.take(it.index() as int)).latest_uid,
                    ..model
                }),
                actions@ == model.outcome(all.take(it.index() as int)).actions,
                stop == model.outcome(all.take(it.index() as int)).stop,
        {
            proof {
                let i = it.index() as int;
                assert(all.take(i + 1).drop_last() == all.take(i));
                assert(all.take(i + 1).last() == packet);
            }
            if !stop {
                stop = self.stops_at(&packet);
                match packet {
                    GamePacket::Connection(_) => {},
                    GamePacket::Commands { conv_id, result } => match result {
                        Err(_) => {},
                        Ok(command) => {
                            if command.command_id == self.ids.get_token {
                                if let Some(uid) = command.token_uid {
                                    actions.push(LiveAction::RegisterUid { conv_id, uid });
                                    self.latest_uid = Some(uid);
                                    if self.announces {
                                        actions.push(LiveAction::SelectAccount { uid });
                                    }
                                }
                            }
                            if !stop {
                                actions.push(LiveAction::Route { conv_id, command });
                            }
                        },
                    },
                }
            }
        }
        assert(all.take(all.len() as int) == all);
        let then: Afterwards = if stop {
            Afterwards::Stop
        } else {
            match self.latest_uid {
                Some(uid) => if self.streaming {
                    Afterwards::Continue
                } else {
                    Afterwards::CheckInitialized { uid }
                },
                None => Afterwards::Continue,
            }
        };
        (actions, then)
    }

    /// What to do once it is known whether the exporter that was asked about has
    /// all it needs.
    pub fn on_checked(&self, initialized: bool) -> (r: Flow)
        ensures
            r == if initialized {
                Flow::Stop
            } else {
                Flow::Continue
            },
    {
        if initialized {
            Flow::Stop
        } else {
            Flow::Continue
        }
    }

    /// The account to export when the capture has stopped: the one that logged in
    /// last.
    pub fn exported_account(&self) -> (r: Option<u32>)
        ensures
            r == self@.latest_uid,
    {
        self.latest_uid
    }
}

// ---------------------------------------------------------------------------
// Laws
// ---------------------------------------------------------------------------

/// What the sniffer makes of one packet.
pub enum Sniffed<C> {
    Packets(Seq<GamePacket<C>>),
    Error { source_id: u64, error: NetworkError },
}

impl LiveModel {
    /// The capture after one packet.
    pub open spec fn step<C>(self, sniffed: Sniffed<C>) -> LiveModel {
        match sniffed {
            Sniffed::Packets(packets) => self.after_packets(packets),
            Sniffed::Error { source_id, error } => self.after_error(source_id, error),
        }
    }

    /// The capture after a sequence of packets.
    pub open spec fn run<C>(self, history: Seq<Sniffed<C>>) -> LiveModel
        decreases history.len(),
    {
        if history.len() == 0 {
            self
        } else {
            self.run(history.drop_last()).step(history.last())
        }
    }
}

/// Whether `sniffed` poisons the capture `source_id`.
pub open spec fn poisons_source<C>(sniffed: Sniffed<C>, source_id: u64) -> bool {
    sniffed matches Sniffed::Error { source_id: source, error } && source == source_id && poisons(
        error,
    )
}

/// A capture is skipped exactly if it was skipped before or an error of its
/// connection has shown that it delivers no packets of the game. So a poisoned
/// capture stays poisoned, and no capture is poisoned by what happens on another.
pub proof fn law_poisoning<C>(model: LiveModel, history: Seq<Sniffed<C>>, source_id: u64)
    ensures
        model.run(history).poisoned.contains(source_id) <==> model.poisoned.contains(source_id)
            || exists|i: int|
            0 <= i < history.len() && poisons_source(#[trigger] history[i], source_id),
    decreases history.len(),
{
    if history.len() > 0 {
        let before = history.drop_last();
        law_poisoning(model, before, source_id);
        if exists|i: int|
            0 <= i < history.len() && poisons_source(#[trigger] history[i], source_id) {
            let i = choose|i: int|
                0 <= i < history.len() && poisons_source(#[trigger] history[i], source_id);
            if i < before.len() {
                assert(poisons_source(before[i], source_id));
            }
        }
        if exists|i: int|
            0 <= i < before.len() && poisons_source(#[trigger] before[i], source_id) {
            let i = choose|i: int|
                0 <= i < before.len() && poisons_source(#[trigger] before[i], source_id);
            assert(poisons_source(history[i], source_id));
        }
        if poisons_source(history.last(), source_id) {
            assert(poisons_source(history[history.len() - 1], source_id));
        }
    }
}

/// Game packets stop the capture exactly if one of them does: a command for which
/// there is no key or, outside of streaming, the end of a login.
pub proof fn law_stops_iff_a_packet_stops<C>(model: LiveModel, packets: Seq<GamePacket<C>>)
    ensures
        model.outcome(packets).stop <==> exists|i: int|
            0 <= i < packets.len() && model.stops_at(#[trigger] packets[i]),
    decreases packets.len(),
{
    if packets.len() > 0 {
        let before = packets.drop_last();
        law_stops_iff_a_packet_stops(model, before);
        if model.outcome(before).stop {
            let i = choose|i: int|
                0 <= i < before.len() && model.stops_at(#[trigger] before[i]);
            assert(model.stops_at(packets[i]));
        } else {
            assert(model.outcome(packets).stop == model.stops_at(packets.last()));
            if model.stops_at(packets.last()) {
                assert(model.stops_at(packets[packets.len() - 1]));
            }
            if exists|i: int| 0 <= i < packets.len() && model.stops_at(#[trigger] packets[i]) {
                let i = choose|i: int|
                    0 <= i < packets.len() && model.stops_at(#[trigger] packets[i]);
                if i < before.len() {
                    assert(model.stops_at(before[i]));
                }
            }
        }
    }
}

/// While streaming, neither the end of a login nor a complete exporter ends the
/// capture: of all game packets only one for which there is no key does.
pub proof fn law_streaming_goes_on<C>(model: LiveModel, packets: Seq<GamePacket<C>>)
    requires
        model.streaming,
        forall|i: int|
            0 <= i < packets.len() ==> !(#[trigger] packets[i] matches GamePacket::Commands {
                result: Err(error),
                ..
            } && error == GameCommandError::DecryptionKeyMissing),
    ensures
        model.afterwards(packets) == Afterwards::Continue,
{
    law_stops_iff_a_packet_stops(model, packets);
}

/// The commands that `packets` hold, each with its conversation.
pub open spec fn commands<C>(packets: Seq<GamePacket<C>>) -> Seq<(u32, GameCommand<C>)>
    decreases packets.len(),
{
    if packets.len() == 0 {
        seq![]
    } else {
        let before = commands(packets.drop_last());
        match packets.last() {
            GamePacket::Commands { conv_id, result: Ok(command) } => before.push(
                (conv_id, command),
            ),
            _ => before,
        }
    }
}

/// The commands that `actions` hand to exporters, each with its conversation.
pub open spec fn routed<C>(actions: Seq<LiveAction<C>>) -> Seq<(u32, GameCommand<C>)>
    decreases actions.len(),
{
    if actions.len() == 0 {
        seq![]
    } else {
        let before = routed(actions.drop_last());
        match actions.last() {
            LiveAction::Route { conv_id, command } => before.push((conv_id, command)),
            _ => before,
        }
    }
}

/// Handing on one command more.
proof fn lemma_routed_push<C>(actions: Seq<LiveAction<C>>, action: LiveAction<C>)
    ensures
        routed(actions.push(action)) == match action {
            LiveAction::Route { conv_id, command } => routed(actions).push((conv_id, command)),
            _ => routed(actions),
        },
{
    assert(actions.push(action).drop_last() =~= actions);
}

/// Introducing an account hands on no command.
proof fn lemma_routed_introduction<C>(
    model: LiveModel,
    actions: Seq<LiveAction<C>>,
    conv_id: u32,
    uid: u32,
)
    ensures
        routed(actions + model.introduction(conv_id, uid)) == routed(actions),
{
    let first = LiveAction::<C>::RegisterUid { conv_id, uid };
    let second = LiveAction::<C>::SelectAccount { uid };
    lemma_routed_push(actions, first);
    lemma_routed_push(actions.push(first), second);
    if model.announces {
        assert(actions + model.introduction(conv_id, uid) =~= actions.push(first).push(second));
    } else {
        assert(actions + model.introduction(conv_id, uid) =~= actions.push(first));
    }
}

/// Every command up to the packet that stops the capture is handed to the
/// exporter of its conversation, once and in order; that packet and those behind
/// it are not.
pub proof fn law_commands_are_routed<C>(model: LiveModel, packets: Seq<GamePacket<C>>, end: int)
    requires
        0 <= end <= packets.len(),
        forall|i: int| 0 <= i < end ==> !model.stops_at(#[trigger] packets[i]),
        end < packets.len() ==> model.stops_at(packets[end]),
    ensures
        routed(model.outcome(packets).actions) == commands(packets.take(end)),
    decreases packets.len(),
{
    if packets.len() == 0 {
        assert(packets.take(end) =~= packets);
    } else {
        let before = packets.drop_last();
        let earlier = model.outcome(before);
        law_stops_iff_a_packet_stops(model, before);
        if end < before.len() {
            assert(before[end] == packets[end]);
            assert(before.take(end) =~= packets.take(end));
            law_commands_are_routed(model, before, end);
        } else {
            assert forall|i: int| 0 <= i < before.len() implies !model.stops_at(
                #[trigger] before[i],
            ) by {
                assert(before[i] == packets[i]);
            }
            law_commands_are_routed(model, before, before.len() as int);
            assert(before.take(before.len() as int) =~= before);
            assert(!earlier.stop);
            match packets.last() {
                GamePacket::Commands { conv_id, result: Ok(command) } => {
                    let introduced = match told_uid(model.ids, command) {
                        Some(uid) => earlier.actions + model.introduction(conv_id, uid),
                        None => earlier.actions,
                    };
                    if let Some(uid) = told_uid(model.ids, command) {
                        lemma_routed_introduction(model, earlier.actions, conv_id, uid);
                    }
                    lemma_routed_push(introduced, LiveAction::Route { conv_id, command });
                },
                _ => {},
            }
            if end == packets.len() {
                assert(packets.take(end) =~= packets);
            } else {
                assert(packets.take(end) =~= before);
            }
        }
    }
}

/// The account numbers that the commands in `packets` tell.
pub open spec fn told_uids<C>(ids: CommandIds, packets: Seq<GamePacket<C>>) -> Seq<u32>
    decreases packets.len(),
{
    if packets.len() == 0 {
        seq![]
    } else {
        let before = told_uids(ids, packets.drop_last());
        match packets.last() {
            GamePacket::Commands { conv_id, result: Ok(command) } => match told_uid(ids, command) {
                Some(uid) => before.push(uid),
                None => before,
            },
            _ => before,
        }
    }
}

/// The account that is exported is the one that was told last, up to and with the
/// packet that stops the capture; where none was told, it stays what it was.
pub proof fn law_last_account_counts<C>(model: LiveModel, packets: Seq<GamePacket<C>>, end: int)
    requires
        0 <= end <= packets.len(),
        forall|i: int| 0 <= i < end - 1 ==> !model.stops_at(#[trigger] packets[i]),
        end < packets.len() ==> end > 0 && model.stops_at(packets[end - 1]),
    ensures
        model.after_packets(packets).latest_uid == {
            let told = told_uids(model.ids, packets.take(end));
            if told.len() > 0 {
                Some(told.last())
            } else {
                model.latest_uid
            }
        },
    decreases packets.len(),
{
    if packets.len() == 0 {
        assert(packets.take(end) =~= packets);
    } else {
        let before = packets.drop_last();
        law_stops_iff_a_packet_stops(model, before);
        if end < packets.len() {
            assert(before[end - 1] == packets[end - 1]);
            assert(before.take(end) =~= packets.take(end));
            assert forall|i: int| 0 <= i < end - 1 implies !model.stops_at(#[trigger] before[i]) by {
                assert(before[i] == packets[i]);
            }
            law_last_account_counts(model, before, end);
        } else {
            assert forall|i: int| 0 <= i < before.len() implies !model.stops_at(
                #[trigger] before[i],
            ) by {
                assert(before[i] == packets[i]);
            }
            law_last_account_counts(model, before, before.len() as int);
            assert(before.take(before.len() as int) =~= before);
            assert(packets.take(end) =~= packets);
        }
    }
}

/// Whether `packet` holds a command with the number `id`.
pub open spec fn is_command<C>(packet: GamePacket<C>, id: u16) -> bool {
    packet matches GamePacket::Commands { result: Ok(command), .. } && command.command_id == id
}

/// Whether `packet` is a command for which there is no key.
pub open spec fn lacks_key<C>(packet: GamePacket<C>) -> bool {
    packet matches GamePacket::Commands { result: Err(error), .. } && error is DecryptionKeyMissing
}

/// Whether `packet` tells that the account is `uid`.
pub open spec fn tells<C>(ids: CommandIds, packet: GamePacket<C>, uid: u32) -> bool {
    packet matches GamePacket::Commands { result: Ok(command), .. } && command.command_id
        == ids.get_token && command.token_uid == Some(uid)
}

/// A live capture stops at a batch of game packets exactly if the batch holds a
/// command for which there is no key or, unless streaming, the end of a login.
pub proof fn law_what_stops_a_capture<C>(
    capture: &mut LiveCapture,
    packets: Vec<GamePacket<C>>,
    r: (Vec<LiveAction<C>>, Afterwards),
)
    requires
        call_ensures(LiveCapture::on_packets::<C>, (capture, packets), r),
    ensures
        r.1 is Stop <==> exists|i: int|
            0 <= i < packets@.len() && (lacks_key(#[trigger] packets@[i]) || (!old(capture)@.streaming && is_command(packets@[i], old(capture)@.ids.login_finish))),
{
    let model = old(capture)@;
    law_stops_iff_a_packet_stops(model, packets@);
    if exists|i: int| 0 <= i < packets@.len() && model.stops_at(#[trigger] packets@[i]) {
        let i = choose|i: int| 0 <= i < packets@.len() && model.stops_at(#[trigger] packets@[i]);
        assert(lacks_key(packets@[i]) || is_command(packets@[i], model.ids.login_finish));
    }
    if exists|i: int|
        0 <= i < packets@.len() && (lacks_key(#[trigger] packets@[i]) || (!model.streaming
            && is_command(packets@[i], model.ids.login_finish))) {
        let i = choose|i: int|
            0 <= i < packets@.len() && (lacks_key(#[trigger] packets@[i]) || (!model.streaming
                && is_command(packets@[i], model.ids.login_finish)));
        assert(model.stops_at(packets@[i]));
    }
}

/// Whether one game packet stops a capture is told by what it holds alone.
pub proof fn law_what_packet_stops_a_capture<C>(
    capture: LiveCapture,
    packet: GamePacket<C>,
    stops: bool,
)
    requires
        call_ensures(LiveCapture::stops_at::<C>, (&capture, &packet), stops),
    ensures
        stops <==> lacks_key(packet) || (!capture@.streaming && is_command(
            packet,
            capture@.ids.login_finish,
        )),
{
}

/// Outside of streaming, the exporter of the account is asked after every batch
/// that does not stop the capture, as soon as and as long as an account is known:
/// whether it was told in this batch or in any earlier one. Where none is known,
/// and while streaming, capturing goes on without asking.
pub proof fn law_exporter_is_asked_after_every_batch<C>(
    capture: &mut LiveCapture,
    packets: Vec<GamePacket<C>>,
    r: (Vec<LiveAction<C>>, Afterwards),
)
    requires
        call_ensures(LiveCapture::on_packets::<C>, (capture, packets), r),
        forall|i: int|
            0 <= i < packets@.len() ==> !lacks_key(#[trigger] packets@[i]) && (old(capture)@.streaming || !is_command(packets@[i], old(capture)@.ids.login_finish)),
    ensures
        !old(capture)@.streaming ==> match final(capture)@.latest_uid {
            Some(known) => r.1 matches Afterwards::CheckInitialized { uid } && uid == known,
            None => r.1 is Continue,
        },
        old(capture)@.streaming ==> r.1 is Continue,
{
    law_what_stops_a_capture(capture, packets, r);
}

/// Where a batch tells no account, the one that was known before stays known; so
/// outside of streaming its exporter is asked again after that batch.
pub proof fn law_known_account_is_asked_again<C>(
    capture: &mut LiveCapture,
    packets: Vec<GamePacket<C>>,
    r: (Vec<LiveAction<C>>, Afterwards),
)
    requires
        call_ensures(LiveCapture::on_packets::<C>, (capture, packets), r),
        forall|i: int, uid: u32|
            0 <= i < packets@.len() ==> !#[trigger] tells(
                old(capture)@.ids,
                packets@[i],
                uid,
            ),
    ensures
        final(capture)@.latest_uid == old(capture)@.latest_uid,
        !(r.1 is Stop) && !old(capture)@.streaming && old(capture)@.latest_uid is Some ==> (
        r.1 matches Afterwards::CheckInitialized { uid } && Some(uid) == old(capture)@.latest_uid),
{
    lemma_nothing_told(old(capture)@, packets@);
}

/// Packets that tell no account leave the one that is known.
proof fn lemma_nothing_told<C>(model: LiveModel, packets: Seq<GamePacket<C>>)
    requires
        forall|i: int, uid: u32|
            0 <= i < packets.len() ==> !#[trigger] tells(model.ids, packets[i], uid),
    ensures
        model.outcome(packets).latest_uid == model.latest_uid,
    decreases packets.len(),
{
    if packets.len() > 0 {
        let before = packets.drop_last();
        assert forall|i: int, uid: u32| 0 <= i < before.len() implies !#[trigger] tells(
            model.ids,
            before[i],
            uid,
        ) by {
            assert(!tells(model.ids, packets[i], uid));
        }
        lemma_nothing_told(model, before);
        match packets.last() {
            GamePacket::Commands { conv_id, result: Ok(command) } => {
                if let Some(uid) = told_uid(model.ids, command) {
                    assert(tells(model.ids, packets[packets.len() - 1], uid));
                }
            },
            _ => {},
        }
    }
}

/// The account that a batch tells last is the one that is known afterwards, and
/// outside of streaming its exporter is the one that is asked. A packet counts up
/// to and with the one that stops the capture.
pub proof fn law_account_told_last_is_known<C>(
    capture: &mut LiveCapture,
    packets: Vec<GamePacket<C>>,
    r: (Vec<LiveAction<C>>, Afterwards),
    i: int,
    uid: u32,
)
    requires
        call_ensures(LiveCapture::on_packets::<C>, (capture, packets), r),
        0 <= i < packets@.len(),
        tells(old(capture)@.ids, packets@[i], uid),
        forall|j: int|
            0 <= j < i ==> !lacks_key(#[trigger] packets@[j]) && (old(capture)@.streaming
                || !is_command(packets@[j], old(capture)@.ids.login_finish)),
        forall|j: int, other: u32|
            i < j < packets@.len() ==> !#[trigger] tells(old(capture)@.ids, packets@[j], other),
    ensures
        final(capture)@.latest_uid == Some(uid),
        !(r.1 is Stop) && !old(capture)@.streaming ==> (r.1 matches Afterwards::CheckInitialized {
            uid: asked,
        } && asked == uid),
{
    lemma_told_last(old(capture)@, packets@, i, uid);
}

/// The account that is told last is known then.
proof fn lemma_told_last<C>(model: LiveModel, packets: Seq<GamePacket<C>>, i: int, uid: u32)
    requires
        0 <= i < packets.len(),
        tells(model.ids, packets[i], uid),
        forall|j: int|
            0 <= j < i ==> !lacks_key(#[trigger] packets[j]) && (model.streaming || !is_command(
                packets[j],
                model.ids.login_finish,
            )),
        forall|j: int, other: u32|
            i < j < packets.len() ==> !#[trigger] tells(model.ids, packets[j], other),
    ensures
        model.outcome(packets).latest_uid == Some(uid),
    decreases packets.len(),
{
    let before = packets.drop_last();
    if i < before.len() {
        assert(before[i] == packets[i]);
        assert forall|j: int| 0 <= j < i implies !lacks_key(#[trigger] before[j]) && (
        model.streaming || !is_command(before[j], model.ids.login_finish)) by {
            assert(before[j] == packets[j]);
        }
        assert forall|j: int, other: u32| i < j < before.len() implies !#[trigger] tells(
            model.ids,
            before[j],
            other,
        ) by {
            assert(!tells(model.ids, packets[j], other));
        }
        lemma_told_last(model, before, i, uid);
        match packets.last() {
            GamePacket::Commands { conv_id, result: Ok(command) } => {
                if let Some(other) = told_uid(model.ids, command) {
                    assert(tells(model.ids, packets[packets.len() - 1], other));
                }
            },
            _ => {},
        }
    } else {
        law_stops_iff_a_packet_stops(model, before);
        if model.outcome(before).stop {
            let j = choose|j: int|
                0 <= j < before.len() && model.stops_at(#[trigger] before[j]);
            assert(before[j] == packets[j]);
        }
    }
}

/// One game packet gives these actions, in this order: the account that it tells
/// is registered for the conversation and, where somebody follows it, selected;
/// then the command is handed to the exporter of its conversation, unless it stops
/// the capture. Packets without a command give none.
pub proof fn law_actions_of_one_packet<C>(
    capture: &mut LiveCapture,
    packets: Vec<GamePacket<C>>,
    r: (Vec<LiveAction<C>>, Afterwards),
)
    requires
        call_ensures(LiveCapture::on_packets::<C>, (capture, packets), r),
        packets@.len() == 1,
    ensures
        packets@[0] is Connection ==> r.0@.len() == 0,
        packets@[0] is Commands && packets@[0]->result is Err ==> r.0@.len() == 0,
        packets@[0] is Commands && packets@[0]->result is Ok ==> {
            let conv = packets@[0]->conv_id;
            let sent = packets@[0]->result->Ok_0;
            let told = sent.command_id == old(capture)@.ids.get_token && sent.token_uid is Some;
            let ends = !old(capture)@.streaming && sent.command_id == old(capture)@.ids.login_finish;
            let shown = told && old(capture)@.announces;
            let before = (if told {
                1int
            } else {
                0
            }) + (if shown {
                1int
            } else {
                0
            });
            &&& r.0@.len() == before + (if ends {
                0int
            } else {
                1
            })
            &&& told ==> (r.0@[0] matches LiveAction::RegisterUid { conv_id, uid } && conv_id
                == conv && Some(uid) == sent.token_uid)
            &&& shown ==> (r.0@[1] matches LiveAction::SelectAccount { uid } && Some(uid)
                == sent.token_uid)
            &&& !ends ==> (r.0@[before] matches LiveAction::Route { conv_id, command } && conv_id
                == conv && command == sent)
        },
{
    reveal_with_fuel(LiveModel::outcome, 2);
    assert(packets@.drop_last().len() == 0);
}

/// No game packets change nothing and give no action.
pub proof fn law_no_packets<C>(
    capture: &mut LiveCapture,
    packets: Vec<GamePacket<C>>,
    r: (Vec<LiveAction<C>>, Afterwards),
)
    requires
        call_ensures(LiveCapture::on_packets::<C>, (capture, packets), r),
        packets@.len() == 0,
    ensures
        r.0@.len() == 0,
        !(r.1 is Stop),
        final(capture)@ == old(capture)@,
{
}

/// It makes no difference how game packets are batched: dealing with two batches
/// one after the other gives the actions, the state and the end that dealing with
/// both at once gives. Where the first batch stops the capture, the second is of
/// no account.
pub proof fn law_batches_do_not_matter<C>(
    first: &mut LiveCapture,
    second: &mut LiveCapture,
    whole: &mut LiveCapture,
    a: Vec<GamePacket<C>>,
    b: Vec<GamePacket<C>>,
    both: Vec<GamePacket<C>>,
    r1: (Vec<LiveAction<C>>, Afterwards),
    r2: (Vec<LiveAction<C>>, Afterwards),
    r: (Vec<LiveAction<C>>, Afterwards),
)
    requires
        both@ == a@ + b@,
        old(whole)@ == old(first)@,
        old(second)@ == final(first)@,
        call_ensures(LiveCapture::on_packets::<C>, (first, a), r1),
        call_ensures(LiveCapture::on_packets::<C>, (second, b), r2),
        call_ensures(LiveCapture::on_packets::<C>, (whole, both), r),
    ensures
        r1.1 is Stop ==> r.0@ == r1.0@ && r.1 is Stop && final(whole)@ == final(first)@,
        !(r1.1 is Stop) ==> r.0@ == r1.0@ + r2.0@ && r.1 == r2.1 && final(whole)@ == final(second)@,
{
    lemma_outcome_of_two(old(first)@, a@, b@);
}

/// The outcome of two batches, by the outcome of each.
proof fn lemma_outcome_of_two<C>(
    model: LiveModel,
    a: Seq<GamePacket<C>>,
    b: Seq<GamePacket<C>>,
)
    ensures
        model.outcome(a).stop ==> model.outcome(a + b) == model.outcome(a),
        !model.outcome(a).stop ==> {
            let next = model.after_packets(a).outcome(b);
            model.outcome(a + b) == (Outcome {
                actions: model.outcome(a).actions + next.actions,
                latest_uid: next.latest_uid,
                stop: next.stop,
            })
        },
    decreases b.len(),
{
    let first = model.outcome(a);
    let after = model.after_packets(a);
    if b.len() == 0 {
        assert(a + b =~= a);
        assert(first.actions + after.outcome(b).actions =~= first.actions);
    } else {
        let shorter = b.drop_last();
        lemma_outcome_of_two(model, a, shorter);
        assert((a + b).drop_last() =~= a + shorter);
        assert((a + b).last() == b.last());
        if !first.stop {
            let next = after.outcome(shorter);
            let before = model.outcome(a + shorter);
            if !next.stop {
                match b.last() {
                    GamePacket::Commands { conv_id, result: Ok(command) } => {
                        if let Some(uid) = told_uid(model.ids, command) {
                            let news = model.introduction::<C>(conv_id, uid);
                            assert(news == after.introduction::<C>(conv_id, uid));
                            assert(before.actions + news =~= first.actions + (next.actions + news));
                        }
                        assert(model.extended(before, b.last()).actions =~= first.actions
                            + after.extended(next, b.last()).actions);
                    },
                    _ => {},
                }
            }
        }
    }
}

/// Game packets change nothing but the account that is known.
pub proof fn law_packets_change_only_the_account<C>(
    capture: &mut LiveCapture,
    packets: Vec<GamePacket<C>>,
    r: (Vec<LiveAction<C>>, Afterwards),
)
    requires
        call_ensures(LiveCapture::on_packets::<C>, (capture, packets), r),
    ensures
        final(capture)@.poisoned == old(capture)@.poisoned,
        final(capture)@.ids == old(capture)@.ids,
        final(capture)@.streaming == old(capture)@.streaming,
        final(capture)@.announces == old(capture)@.announces,
{
}

/// An error of the connection never stops the capture: it poisons the capture
/// that the packet came from, and no other one, unless the packet only lacked a
/// transport layer. Other errors poison nothing, and stop the capture exactly
/// where a packet does not belong to its conversation, where the protocol itself
/// fails and where there is no key. Nothing else changes.
pub proof fn law_errors_poison_or_stop(
    capture: &mut LiveCapture,
    source_id: u64,
    error: NetworkError,
    flow: Flow,
    other: u64,
)
    requires
        call_ensures(LiveCapture::on_network_error, (capture, source_id, error), flow),
    ensures
        final(capture)@.poisoned.contains(other) <==> old(capture)@.poisoned.contains(other) || (
        other == source_id && error is ConnectionPacket
            && !(error->ConnectionPacket_0 is TransportLayerNotPresent)),
        error is ConnectionPacket ==> flow is Continue,
        error is Kcp ==> (flow is Stop <==> error->Kcp_0 is PacketDoesNotBelongToConversation
            || error->Kcp_0 is InnerKcpError),
        error is GameCommand ==> (flow is Stop <==> error->GameCommand_0 is DecryptionKeyMissing),
        final(capture)@.latest_uid == old(capture)@.latest_uid,
        final(capture)@.ids == old(capture)@.ids,
        final(capture)@.streaming == old(capture)@.streaming,
        final(capture)@.announces == old(capture)@.announces,
{
}

/// A packet is sniffed unless its capture is poisoned, in which case it is
/// skipped; everything that is no packet stops the capture.
pub proof fn law_what_is_sniffed(capture: LiveCapture, received: Received, action: ReceiveAction)
    requires
        call_ensures(LiveCapture::on_received, (&capture, received), action),
    ensures
        received matches Received::Packet { source_id } ==> if capture@.poisoned.contains(
            source_id,
        ) {
            action is Skip
        } else {
            action is Sniff
        },
        !(received is Packet) ==> action is Stop,
{
}

/// A capture starts with nothing poisoned and no account known, and ends with the
/// account that was known last; a complete exporter ends it.
pub proof fn law_start_and_end_of_a_capture(
    ids: CommandIds,
    streaming: bool,
    announces: bool,
    start: LiveCapture,
    any: LiveCapture,
    exported: Option<u32>,
    initialized: bool,
    flow: Flow,
)
    requires
        call_ensures(LiveCapture::new, (ids, streaming, announces), start),
        call_ensures(LiveCapture::exported_account, (&any,), exported),
        call_ensures(LiveCapture::on_checked, (&any, initialized), flow),
    ensures
        start@.ids == ids && start@.streaming == streaming && start@.announces == announces,
        start@.latest_uid is None,
        forall|source_id: u64| !start@.poisoned.contains(source_id),
        exported == any@.latest_uid,
        flow is Stop <==> initialized,
{
}

/// Streaming has no timeout, and other captures have the one that was asked for.
pub proof fn law_streaming_has_no_timeout(timeout: u64, streamed: Option<u64>, other: Option<u64>)
    requires
        call_ensures(capture_timeout, (true, timeout), streamed),
        call_ensures(capture_timeout, (false, timeout), other),
    ensures
        streamed is None,
        other == Some(timeout),
{
}

} // verus!
