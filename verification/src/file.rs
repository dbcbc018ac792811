//! Reading packets from a file instead of capturing them.
//!
//! Packets are read, sniffed and handed to the exporter elsewhere; here is what
//! to do next after each of these.

use std::collections::VecDeque;

use vstd::prelude::*;

use crate::game::{GameCommand, GameCommandError, GamePacket, NetworkError};

verus! {

/// Whether to go on reading once the game packets of a packet are done with.
#[derive(Debug, Clone, Copy, PartialEq, Eq, Structural)]
pub enum ProcessResult {
    Continue,
    Stop,
}

/// What to do with the game packets of a packet.
#[derive(Debug)]
pub enum PacketStep<C> {
    /// Hand this command to the exporter, and see whether it has all it needs.
    Deliver(GameCommand<C>),
    /// They are done with.
    Done(ProcessResult),
}

/// What to do with the game packets `pending`, and those that are pending then:
/// commands are handed to the exporter one after the other, until one could not
/// be read. Of such a one, the rest is passed over where it only came before its
/// session's key; else reading stops.
pub open spec fn advance<C>(pending: Seq<GamePacket<C>>) -> (PacketStep<C>, Seq<GamePacket<C>>)
    decreases pending.len(),
{
    if pending.len() == 0 {
        (PacketStep::Done(ProcessResult::Continue), seq![])
    } else {
        match pending[0] {
            GamePacket::Connection(_) => advance(pending.skip(1)),
            GamePacket::Commands { conv_id, result: Ok(command) } => (
                PacketStep::Deliver(command),
                pending.skip(1),
            ),
            GamePacket::Commands { conv_id, result: Err(error) } => if error
                == GameCommandError::VersionMismatch {
                (PacketStep::Done(ProcessResult::Continue), seq![])
            } else {
                (PacketStep::Done(ProcessResult::Stop), seq![])
            },
        }
    }
}

/// What to do next with the game packets `pending`, which keeps those that are
/// pending then.
pub fn file_process_packet<C>(pending: &mut VecDeque<GamePacket<C>>) -> (r: PacketStep<C>)
    ensures
        (r, final(pending)@) == advance(old(pending)@),
{
    let ghost all = pending@;
    loop
        invariant
            all == old(pending)@,
            advance(pending@) == advance(all),
        decreases pending@.len(),
    {
        let ghost before = pending@;
        let packet: GamePacket<C> = match pending.pop_front() {
            Some(packet) => packet,
            None => {
                assert(pending@ =~= seq![]);
                return PacketStep::Done(ProcessResult::Continue);
            },
        };
        assert(pending@ =~= before.skip(1));
        if let GamePacket::Commands { conv_id: _, result } = packet {
            match result {
                Ok(command) => {
                    return PacketStep::Deliver(command);
                },
                Err(error) => {
                    pending.clear();
                    assert(pending@ =~= seq![]);
                    if error == GameCommandError::VersionMismatch {
                        return PacketStep::Done(ProcessResult::Continue);
                    }
                    return PacketStep::Done(ProcessResult::Stop);
                },
            }
        }
    }
}

// ---------------------------------------------------------------------------
// The capture
// ---------------------------------------------------------------------------

/// What happens while a file is read.
#[derive(Debug)]
pub enum FileEvent<C> {
    /// A packet was read, and the sniffer made this of it.
    Sniffed(Result<Vec<GamePacket<C>>, NetworkError>),
    /// No further packet could be read.
    EndOfFile,
    /// The exporter has read the command, and has all it needs or not.
    Delivered { initialized: bool },
}

/// What to do next.
#[derive(Debug)]
pub enum FileAction<C> {
    /// Read the next packet and sniff it.
    ReadNext,
    /// Hand this command to the exporter, and see whether it has all it needs.
    Deliver(GameCommand<C>),
    /// Export what there is.
    Export,
}

/// What to do next with the game packets `pending`, and those that are pending
/// then.
pub open spec fn next_action<C>(pending: Seq<GamePacket<C>>) -> (
    FileAction<C>,
    Seq<GamePacket<C>>,
) {
    let (step, rest) = advance(pending);
    (
        match step {
            PacketStep::Deliver(command) => FileAction::Deliver(command),
            PacketStep::Done(ProcessResult::Continue) => FileAction::ReadNext,
            PacketStep::Done(ProcessResult::Stop) => FileAction::Export,
        },
        rest,
    )
}

/// What to do after `event`, and the game packets that are pending then: what the
/// sniffer makes nothing of is passed over, and the export follows on the end of
/// the file, on a complete exporter and on a command that cannot be read.
pub open spec fn after_event<C>(pending: Seq<GamePacket<C>>, event: FileEvent<C>) -> (
    FileAction<C>,
    Seq<GamePacket<C>>,
) {
    match event {
        FileEvent::Sniffed(Ok(packets)) => next_action(packets@),
        FileEvent::Sniffed(Err(_)) => (FileAction::ReadNext, seq![]),
        FileEvent::EndOfFile => (FileAction::Export, seq![]),
        FileEvent::Delivered { initialized } => if initialized {
            (FileAction::Export, seq![])
        } else {
            next_action(pending)
        },
    }
}

/// A file that is being read: the game packets of the last packet that are still
/// to be dealt with.
#[derive(Debug)]
pub struct FileCapture<C> {
    pending: VecDeque<GamePacket<C>>,
}

impl<C> View for FileCapture<C> {
    type V = Seq<GamePacket<C>>;

    /// The game packets that are still to be dealt with.
    closed spec fn view(&self) -> Seq<GamePacket<C>> {
        self.pending@
    }
}

impl<C> FileCapture<C> {
    /// A file of which nothing has been read yet; its first packet is to be read
    /// and sniffed.
    pub fn new() -> (r: FileCapture<C>)
        ensures
            r@ == Seq::<GamePacket<C>>::empty(),
    {
        FileCapture { pending: VecDeque::new() }
    }

    /// What to do next with the pending game packets.
    fn go_on(&mut self) -> (r: FileAction<C>)
        ensures
            (r, final(self)@) == next_action(old(self)@),
    {
        match file_process_packet(&mut self.pending) {
            PacketStep::Deliver(command) => FileAction::Deliver(command),
            PacketStep::Done(ProcessResult::Continue) => FileAction::ReadNext,
            PacketStep::Done(ProcessResult::Stop) => FileAction::Export,
        }
    }
}

/// What to do next in reading a file, after `event`.
pub fn capture_from_pcap<C>(capture: &mut FileCapture<C>, event: FileEvent<C>) -> (r: FileAction<C>)
    ensures
        (r, final(capture)@) == after_event(old(capture)@, event),
{
    match event {
        FileEvent::Sniffed(sniffed) => {
            let mut pending: VecDeque<GamePacket<C>> = VecDeque::new();
            match sniffed {
                Ok(packets) => {
                    let ghost all = packets@;
                    for packet in it: packets
                        invariant
                            it.seq() == all,
                            pending@ == all.take(it.index() as int),
                    {
                        pending.push_back(packet);
                    }
                    assert(pending@ =~= all);
                    capture.pending = pending;
                    capture.go_on()
                },
                Err(_) => {
                    capture.pending = pending;
                    assert(capture@ =~= seq![]);
                    FileAction::ReadNext
                },
            }
        },
        FileEvent::EndOfFile => {
            capture.pending.clear();
            assert(capture@ =~= seq![]);
            FileAction::Export
        },
        FileEvent::Delivered { initialized } => {
            if initialized {
                capture.pending.clear();
                assert(capture@ =~= seq![]);
                return FileAction::Export;
            }
            capture.go_on()
        },
    }
}

// ---------------------------------------------------------------------------
// Laws
// ---------------------------------------------------------------------------

/// The exporter's commands so far and what becomes of the capture, when `pending`
/// is followed step by step. `complete` tells of which commands an exporter has
/// all it needs.
pub open spec fn followed<C>(
    pending: Seq<GamePacket<C>>,
    delivered: Seq<GameCommand<C>>,
    complete: spec_fn(Seq<GameCommand<C>>) -> bool,
) -> (Seq<GameCommand<C>>, ProcessResult)
    decreases pending.len(),
{
    match advance(pending) {
        (PacketStep::Done(result), _) => (delivered, result),
        (PacketStep::Deliver(command), rest) => {
            let now = delivered.push(command);
            if complete(now) {
                (now, ProcessResult::Stop)
            } else {
                proof {
                    lemma_rest_is_shorter(pending);
                }
                followed(rest, now, complete)
            }
        },
    }
}

/// The commands that `packets` hold.
pub open spec fn commands_in<C>(packets: Seq<GamePacket<C>>) -> Seq<GameCommand<C>>
    decreases packets.len(),
{
    if packets.len() == 0 {
        seq![]
    } else {
        match packets[0] {
            GamePacket::Commands { conv_id, result: Ok(command) } => seq![command] + commands_in(
                packets.skip(1),
            ),
            _ => commands_in(packets.skip(1)),
        }
    }
}

/// The error with which `packet` could not be read.
pub open spec fn read_error<C>(packet: GamePacket<C>) -> Option<GameCommandError> {
    match packet {
        GamePacket::Commands { conv_id, result: Err(error) } => Some(error),
        _ => None,
    }
}

/// Where every command can be read and the exporter is not complete after any of
/// them, all of them are delivered in order, and reading goes on.
pub proof fn law_all_commands_are_delivered<C>(
    pending: Seq<GamePacket<C>>,
    delivered: Seq<GameCommand<C>>,
    complete: spec_fn(Seq<GameCommand<C>>) -> bool,
)
    requires
        forall|i: int| 0 <= i < pending.len() ==> read_error(#[trigger] pending[i]) is None,
        forall|n: int|
            0 < n <= commands_in(pending).len() ==> !(#[trigger] complete(
                delivered + commands_in(pending).take(n),
            )),
    ensures
        followed(pending, delivered, complete) == (
            delivered + commands_in(pending),
            ProcessResult::Continue,
        ),
    decreases pending.len(),
{
    if pending.len() == 0 {
        assert(delivered + commands_in(pending) =~= delivered);
    } else {
        let rest = pending.skip(1);
        let all = commands_in(pending);
        assert(read_error(pending[0]) is None);
        assert forall|i: int| 0 <= i < rest.len() implies read_error(#[trigger] rest[i]) is None by {
            assert(rest[i] == pending[i + 1]);
        }
        match pending[0] {
            GamePacket::Commands { conv_id, result: Ok(command) } => {
                let now = delivered.push(command);
                assert(all =~= seq![command] + commands_in(rest));
                assert(delivered + all.take(1) =~= now);
                assert(!complete(delivered + all.take(1)));
                assert forall|n: int| 0 < n <= commands_in(rest).len() implies !(
                #[trigger] complete(now + commands_in(rest).take(n))) by {
                    assert(now + commands_in(rest).take(n) =~= delivered + all.take(n + 1));
                    assert(!complete(delivered + all.take(n + 1)));
                }
                law_all_commands_are_delivered(rest, now, complete);
                assert(now + commands_in(rest) =~= delivered + all);
            },
            _ => {
                law_all_commands_are_delivered(rest, delivered, complete);
                assert(advance(pending) == advance(rest));
                assert(followed(pending, delivered, complete) == followed(
                    rest,
                    delivered,
                    complete,
                )) by {
                    lemma_rest_is_shorter(rest);
                }
            },
        }
    }
}

/// What is pending after a delivery is less than before.
pub proof fn lemma_rest_is_shorter<C>(pending: Seq<GamePacket<C>>)
    ensures
        advance(pending).0 is Deliver ==> advance(pending).1.len() < pending.len(),
    decreases pending.len(),
{
    if pending.len() > 0 {
        lemma_rest_is_shorter(pending.skip(1));
    }
}

/// Reading stops on the first command after which the exporter is complete, and
/// nothing is delivered after it.
pub proof fn law_stops_when_complete<C>(
    before: Seq<GamePacket<C>>,
    conv_id: u32,
    command: GameCommand<C>,
    after: Seq<GamePacket<C>>,
    delivered: Seq<GameCommand<C>>,
    complete: spec_fn(Seq<GameCommand<C>>) -> bool,
)
    requires
        forall|i: int| 0 <= i < before.len() ==> read_error(#[trigger] before[i]) is None,
        forall|n: int|
            0 < n <= commands_in(before).len() ==> !(#[trigger] complete(
                delivered + commands_in(before).take(n),
            )),
        complete((delivered + commands_in(before)).push(command)),
    ensures
        followed(
            before + seq![GamePacket::Commands { conv_id, result: Ok(command) }] + after,
            delivered,
            complete,
        ) == ((delivered + commands_in(before)).push(command), ProcessResult::Stop),
    decreases before.len(),
{
    let this = GamePacket::Commands { conv_id, result: Ok(command) };
    let pending = before + seq![this] + after;
    if before.len() == 0 {
        assert(pending[0] == this);
        assert(delivered + commands_in(before) =~= delivered);
    } else {
        lemma_followed_first(before, seq![this] + after, delivered, complete);
        let rest = before.skip(1);
        assert(pending =~= before + (seq![this] + after));
        assert(rest + (seq![this] + after) =~= rest + seq![this] + after);
        match before[0] {
            GamePacket::Commands { conv_id: _, result: Ok(first) } => {
                lemma_delivered_first(before, first, delivered, complete);
                assert(delivered.push(first) + commands_in(rest) =~= delivered + commands_in(
                    before,
                ));
                law_stops_when_complete(
                    rest,
                    conv_id,
                    command,
                    after,
                    delivered.push(first),
                    complete,
                );
            },
            _ => {
                assert(commands_in(before) == commands_in(rest));
                law_stops_when_complete(rest, conv_id, command, after, delivered, complete);
            },
        }
    }
}

/// On a command that cannot be read, the game packets behind it are passed over;
/// reading goes on only where the command came before its session's key.
pub proof fn law_unreadable_command_ends_the_packet<C>(
    before: Seq<GamePacket<C>>,
    conv_id: u32,
    error: GameCommandError,
    after: Seq<GamePacket<C>>,
    delivered: Seq<GameCommand<C>>,
    complete: spec_fn(Seq<GameCommand<C>>) -> bool,
)
    requires
        forall|i: int| 0 <= i < before.len() ==> read_error(#[trigger] before[i]) is None,
        forall|n: int|
            0 < n <= commands_in(before).len() ==> !(#[trigger] complete(
                delivered + commands_in(before).take(n),
            )),
    ensures
        followed(
            before + seq![GamePacket::Commands { conv_id, result: Err(error) }] + after,
            delivered,
            complete,
        ) == (
            delivered + commands_in(before),
            if error == GameCommandError::VersionMismatch {
                ProcessResult::Continue
            } else {
                ProcessResult::Stop
            },
        ),
    decreases before.len(),
{
    let this = GamePacket::<C>::Commands { conv_id, result: Err(error) };
    let pending = before + seq![this] + after;
    if before.len() == 0 {
        assert(pending[0] == this);
        assert(delivered + commands_in(before) =~= delivered);
    } else {
        lemma_followed_first(before, seq![this] + after, delivered, complete);
        let rest = before.skip(1);
        assert(pending =~= before + (seq![this] + after));
        assert(rest + (seq![this] + after) =~= rest + seq![this] + after);
        match before[0] {
            GamePacket::Commands { conv_id: _, result: Ok(first) } => {
                lemma_delivered_first(before, first, delivered, complete);
                law_unreadable_command_ends_the_packet(
                    rest,
                    conv_id,
                    error,
                    after,
                    delivered.push(first),
                    complete,
                );
                assert(delivered.push(first) + commands_in(rest) =~= delivered + commands_in(
                    before,
                ));
            },
            _ => {
                assert(commands_in(before) == commands_in(rest));
                law_unreadable_command_ends_the_packet(
                    rest,
                    conv_id,
                    error,
                    after,
                    delivered,
                    complete,
                );
            },
        }
    }
}

/// Following game packets, by the first of them.
proof fn lemma_followed_first<C>(
    before: Seq<GamePacket<C>>,
    others: Seq<GamePacket<C>>,
    delivered: Seq<GameCommand<C>>,
    complete: spec_fn(Seq<GameCommand<C>>) -> bool,
)
    requires
        before.len() > 0,
        read_error(before[0]) is None,
    ensures
        match before[0] {
            GamePacket::Commands { conv_id: _, result: Ok(first) } => !complete(
                delivered.push(first),
            ) ==> followed(before + others, delivered, complete) == followed(
                before.skip(1) + others,
                delivered.push(first),
                complete,
            ),
            _ => followed(before + others, delivered, complete) == followed(
                before.skip(1) + others,
                delivered,
                complete,
            ),
        },
{
    let pending = before + others;
    let rest = before.skip(1) + others;
    assert(pending.skip(1) =~= rest);
    assert(pending[0] == before[0]);
    lemma_rest_is_shorter(rest);
}

/// The premises of the laws above, seen from one command further on.
proof fn lemma_delivered_first<C>(
    before: Seq<GamePacket<C>>,
    first: GameCommand<C>,
    delivered: Seq<GameCommand<C>>,
    complete: spec_fn(Seq<GameCommand<C>>) -> bool,
)
    requires
        before.len() > 0,
        before[0] matches GamePacket::Commands { result: Ok(command), .. } && command == first,
        forall|n: int|
            0 < n <= commands_in(before).len() ==> !(#[trigger] complete(
                delivered + commands_in(before).take(n),
            )),
    ensures
        !complete(delivered.push(first)),
        forall|n: int|
            0 < n <= commands_in(before.skip(1)).len() ==> !(#[trigger] complete(
                delivered.push(first) + commands_in(before.skip(1)).take(n),
            )),
        commands_in(before) == seq![first] + commands_in(before.skip(1)),
{
    let all = commands_in(before);
    let rest = commands_in(before.skip(1));
    let now = delivered.push(first);
    assert(all =~= seq![first] + rest);
    assert(delivered + all.take(1) =~= now);
    assert(!complete(delivered + all.take(1)));
    assert forall|n: int| 0 < n <= rest.len() implies !(#[trigger] complete(
        now + rest.take(n),
    )) by {
        assert(now + rest.take(n) =~= delivered + all.take(n + 1));
        assert(!complete(delivered + all.take(n + 1)));
    }
}

/// Connection packets are passed over.
proof fn lemma_connections_are_skipped<C>(pending: Seq<GamePacket<C>>, i: int)
    requires
        0 <= i <= pending.len(),
        forall|j: int| 0 <= j < i ==> (#[trigger] pending[j]) is Connection,
    ensures
        advance(pending) == advance(pending.skip(i)),
    decreases i,
{
    if i == 0 {
        assert(pending.skip(0) =~= pending);
    } else {
        let rest = pending.skip(1);
        assert(pending[0] is Connection);
        assert forall|j: int| 0 <= j < i - 1 implies (#[trigger] rest[j]) is Connection by {
            assert(rest[j] == pending[j + 1]);
        }
        lemma_connections_are_skipped(rest, i - 1);
        assert(rest.skip(i - 1) =~= pending.skip(i));
    }
}

/// A packet on which the sniffer failed is passed over, whatever the error was
/// and whatever was still pending: the next packet is read.
pub proof fn law_failed_packets_are_passed_over<C>(
    capture: &mut FileCapture<C>,
    error: NetworkError,
    action: FileAction<C>,
)
    requires
        call_ensures(capture_from_pcap::<C>, (capture, FileEvent::Sniffed(Err(error))), action),
    ensures
        action is ReadNext,
        final(capture)@.len() == 0,
{
}

/// The end of the file and a complete exporter lead to the export, whatever was
/// still pending, and nothing is pending then.
pub proof fn law_end_and_completeness_lead_to_the_export<C>(
    capture: &mut FileCapture<C>,
    event: FileEvent<C>,
    action: FileAction<C>,
)
    requires
        call_ensures(capture_from_pcap::<C>, (capture, event), action),
        event is EndOfFile || (event matches FileEvent::Delivered { initialized } && initialized),
    ensures
        action is Export,
        final(capture)@.len() == 0,
{
}

/// Whether `event` leaves `queue` to be dealt with: the game packets of a packet
/// that was sniffed, or those that were pending when a command was delivered and
/// the exporter was not complete.
pub open spec fn leaves<C>(
    pending: Seq<GamePacket<C>>,
    event: FileEvent<C>,
    queue: Seq<GamePacket<C>>,
) -> bool {
    ||| event matches FileEvent::Sniffed(Ok(packets)) && packets@ == queue
    ||| event matches FileEvent::Delivered { initialized } && !initialized && pending == queue
}

/// The first game packet that does not concern the connection decides what is
/// next. A command is delivered, with what stands behind it left pending. One
/// that could not be read ends its packet: on a version mismatch the next packet
/// is read, else the export follows. Where there is no such game packet, the next
/// packet is read.
pub proof fn law_first_command_decides<C>(
    capture: &mut FileCapture<C>,
    event: FileEvent<C>,
    action: FileAction<C>,
    queue: Seq<GamePacket<C>>,
    i: int,
)
    requires
        call_ensures(capture_from_pcap::<C>, (capture, event), action),
        leaves(old(capture)@, event, queue),
        0 <= i <= queue.len(),
        forall|j: int| 0 <= j < i ==> (#[trigger] queue[j]) is Connection,
        i < queue.len() ==> queue[i] is Commands,
    ensures
        i == queue.len() ==> action is ReadNext && final(capture)@.len() == 0,
        i < queue.len() && queue[i]->result is Ok ==> (action matches FileAction::Deliver(command)
            && command == queue[i]->result->Ok_0 && final(capture)@ == queue.skip(i + 1)),
        i < queue.len() && queue[i]->result is Err ==> final(capture)@.len() == 0 && if queue[i]->result->Err_0 is VersionMismatch {
            action is ReadNext
        } else {
            action is Export
        },
{
    lemma_connections_are_skipped(queue, i);
    let rest = queue.skip(i);
    if i < queue.len() {
        assert(rest[0] == queue[i]);
        assert(rest.skip(1) =~= queue.skip(i + 1));
    }
}

/// The export follows only on the end of the file, on a complete exporter, and on
/// a command that could not be read for another reason than a version mismatch.
pub proof fn law_nothing_else_leads_to_the_export<C>(
    capture: &mut FileCapture<C>,
    event: FileEvent<C>,
    action: FileAction<C>,
)
    requires
        call_ensures(capture_from_pcap::<C>, (capture, event), action),
        action is Export,
    ensures
        event is EndOfFile || (event matches FileEvent::Delivered { initialized } && initialized)
            || exists|queue: Seq<GamePacket<C>>, i: int|
            leaves(old(capture)@, event, queue) && 0 <= i < queue.len() && (
            #[trigger] queue[i]) is Commands && queue[i]->result is Err && !(
            queue[i]->result->Err_0 is VersionMismatch),
{
    let queue = match event {
        FileEvent::Sniffed(Ok(packets)) => packets@,
        _ => old(capture)@,
    };
    if leaves(old(capture)@, event, queue) {
        lemma_stop_has_a_reason(queue);
        let i = choose|i: int|
            0 <= i < queue.len() && (#[trigger] queue[i]) is Commands && queue[i]->result is Err
                && !(queue[i]->result->Err_0 is VersionMismatch);
        assert(leaves(old(capture)@, event, queue) && queue[i] is Commands);
    }
}

/// Reading stops only because of a command that could not be read.
proof fn lemma_stop_has_a_reason<C>(queue: Seq<GamePacket<C>>)
    requires
        advance(queue).0 == PacketStep::<C>::Done(ProcessResult::Stop),
    ensures
        exists|i: int|
            0 <= i < queue.len() && (#[trigger] queue[i]) is Commands && queue[i]->result is Err
                && !(queue[i]->result->Err_0 is VersionMismatch),
    decreases queue.len(),
{
    if queue.len() > 0 {
        if queue[0] is Connection {
            let rest = queue.skip(1);
            lemma_stop_has_a_reason(rest);
            let i = choose|i: int|
                0 <= i < rest.len() && (#[trigger] rest[i]) is Commands && rest[i]->result is Err
                    && !(rest[i]->result->Err_0 is VersionMismatch);
            assert(queue[i + 1] == rest[i]);
        } else {
            assert(queue[0] is Commands);
        }
    }
}

/// The game packets of one packet are dealt with in order: up to the first that
/// does not concern the connection they are passed over, and that one is a
/// command to be delivered, or ends the packet.
pub proof fn law_game_packets_in_order<C>(
    pending: &mut VecDeque<GamePacket<C>>,
    step: PacketStep<C>,
    i: int,
)
    requires
        call_ensures(file_process_packet::<C>, (pending,), step),
        0 <= i <= old(pending)@.len(),
        forall|j: int| 0 <= j < i ==> (#[trigger] old(pending)@[j]) is Connection,
        i < old(pending)@.len() ==> old(pending)@[i] is Commands,
    ensures
        i == old(pending)@.len() ==> final(pending)@.len() == 0 && (step matches PacketStep::Done(
            result,
        ) && result is Continue),
        i < old(pending)@.len() && old(pending)@[i]->result is Ok ==> final(pending)@ == old(pending)@.skip(i + 1) && (step matches PacketStep::Deliver(command) && command == old(pending)@[i]->result->Ok_0),
        i < old(pending)@.len() && old(pending)@[i]->result is Err ==> final(pending)@.len() == 0
            && (step matches PacketStep::Done(result) && (result is Continue <==> old(pending)@[i]->result->Err_0 is VersionMismatch)),
{
    let queue = old(pending)@;
    lemma_connections_are_skipped(queue, i);
    let rest = queue.skip(i);
    if i < queue.len() {
        assert(rest[0] == queue[i]);
        assert(rest.skip(1) =~= queue.skip(i + 1));
    }
}

/// Reading a file begins with nothing pending.
pub proof fn law_nothing_is_pending_at_first<C>(capture: FileCapture<C>)
    requires
        call_ensures(FileCapture::<C>::new, (), capture),
    ensures
        capture@.len() == 0,
{
}

} // verus!
