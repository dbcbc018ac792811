//! Opening a capture on a device, and the stream of packets that it delivers.

use std::collections::hash_map::DefaultHasher;
use std::hash::Hasher;

use vstd::prelude::*;
use vstd::std_specs::hash::DefaultHasherAdditionalSpecFns;

use crate::capture::device::{CaptureError, PcapDevice};
use crate::capture::link::{Codec, Linktype, Packet};
use crate::text::contains;

verus! {

// ---------------------------------------------------------------------------
// Opening a capture
// ---------------------------------------------------------------------------

/// How a capture handle is configured before it is opened.
#[derive(Debug, Clone, Copy, PartialEq, Eq, Structural)]
pub struct CaptureSettings {
    /// Whether packets are delivered as soon as they arrive.
    pub immediate_mode: bool,
    /// The read timeout in milliseconds.
    pub timeout: i32,
    /// The size of the packet buffer in bytes.
    pub buffer_size: i32,
}

/// The settings of every live capture: packets at once, a timeout of one second
/// and a buffer of 16 MiB.
pub fn capture_settings() -> (r: CaptureSettings)
    ensures
        r.immediate_mode,
        r.timeout == 1000,
        r.buffer_size == 16 * 1024 * 1024,
{
    CaptureSettings { immediate_mode: true, timeout: 1000, buffer_size: 1024 * 1024 * 16 }
}

/// The steps in which a capture is opened, in their order.
#[derive(Debug, Clone, Copy, PartialEq, Eq, Structural)]
pub enum SetupStep {
    /// Make a capture handle for the device.
    SelectDevice,
    /// Configure the handle and open it.
    Open,
    /// Put the open capture into non-blocking mode.
    SetNonblocking,
    /// Install the packet filter.
    SetFilter,
}

/// What to do once a step had `outcome`: the next step, none after the last one,
/// or the error with which opening the capture fails.
pub open spec fn step_after<E>(step: SetupStep, outcome: Result<(), E>) -> Result<
    Option<SetupStep>,
    CaptureError<E>,
> {
    match (step, outcome) {
        (SetupStep::SelectDevice, Ok(_)) => Ok(Some(SetupStep::Open)),
        (SetupStep::Open, Ok(_)) => Ok(Some(SetupStep::SetNonblocking)),
        (SetupStep::SetNonblocking, Ok(_)) => Ok(Some(SetupStep::SetFilter)),
        (SetupStep::SetFilter, Ok(_)) => Ok(None),
        (step, Err(error)) => Err(setup_error(step, error)),
    }
}

/// The error with which opening a capture fails where `step` failed with `error`.
pub open spec fn setup_error<E>(step: SetupStep, error: E) -> CaptureError<E> {
    match step {
        SetupStep::SelectDevice => CaptureError::DeviceError(error),
        SetupStep::Open => CaptureError::CaptureError { has_captured: false, error },
        SetupStep::SetNonblocking => CaptureError::CaptureError { has_captured: false, error },
        SetupStep::SetFilter => CaptureError::FilterError(error),
    }
}

impl SetupStep {
    /// The step that opening a capture begins with.
    pub fn first() -> (r: SetupStep)
        ensures
            r == SetupStep::SelectDevice,
    {
        SetupStep::SelectDevice
    }

    /// What to do once this step had `outcome`.
    pub fn after<E>(self, outcome: Result<(), E>) -> (r: Result<Option<SetupStep>, CaptureError<E>>)
        ensures
            r == step_after(self, outcome),
    {
        match outcome {
            Ok(_) => match self {
                SetupStep::SelectDevice => Ok(Some(SetupStep::Open)),
                SetupStep::Open => Ok(Some(SetupStep::SetNonblocking)),
                SetupStep::SetNonblocking => Ok(Some(SetupStep::SetFilter)),
                SetupStep::SetFilter => Ok(None),
            },
            Err(error) => match self {
                SetupStep::SelectDevice => Err(CaptureError::DeviceError(error)),
                SetupStep::Open => Err(CaptureError::CaptureError { has_captured: false, error }),
                SetupStep::SetNonblocking => Err(
                    CaptureError::CaptureError { has_captured: false, error },
                ),
                SetupStep::SetFilter => Err(CaptureError::FilterError(error)),
            },
        }
    }
}

/// The identity of the captures on the interface `name`.
pub open spec fn source_id_of(name: Seq<char>) -> u64 {
    DefaultHasher::spec_finish(seq![vstd::utf8::encode_utf8(name), seq![0xffu8]])
}

/// The identity of the captures on the interface `name`: the hash of the name as
/// the standard library hashes a string, its bytes and then one byte 0xff.
pub fn source_id(name: &str) -> (r: u64)
    ensures
        r == source_id_of(name@),
{
    let mut hasher: DefaultHasher = DefaultHasher::new();
    hasher.write(name.as_bytes());
    let end: [u8; 1] = [0xff];
    hasher.write(&end);
    assert(end@ =~= seq![0xffu8]);
    assert(hasher@ =~= seq![vstd::utf8::encode_utf8(name@), seq![0xffu8]]);
    hasher.finish()
}

/// An open capture: the device, the identity that its packets are marked with,
/// and the type of its link.
#[derive(Debug)]
pub struct PcapCapture {
    pub device: PcapDevice,
    pub id: u64,
    pub linktype: Linktype,
}

impl PcapDevice {
    /// The capture on this device, opened on a link of type `linktype`.
    pub fn create_capture(&self, linktype: Linktype) -> (r: PcapCapture)
        ensures
            r.device == *self,
            r.id == source_id_of(self.name@),
            r.linktype == linktype,
    {
        PcapCapture { device: self.clone(), id: source_id(self.name.as_str()), linktype }
    }
}

impl PcapCapture {
    /// What turns the bytes of this capture into packets.
    pub fn codec(&self) -> (r: Codec)
        ensures
            r.source_id == self.id,
            r.linktype == self.linktype,
    {
        Codec { source_id: self.id, linktype: self.linktype }
    }
}

// ---------------------------------------------------------------------------
// The stream of packets
// ---------------------------------------------------------------------------

/// Why reading from a capture failed.
#[derive(Debug)]
pub enum ReadError<E> {
    /// The capture library reported an error in words.
    PcapError(String),
    Other(E),
}

/// Whether `item` reports that the device is gone.
pub open spec fn reports_removal<E>(item: Result<Packet, ReadError<E>>) -> bool {
    item matches Err(ReadError::PcapError(message)) && crate::text::occurs(
        message@,
        "ERROR_DEVICE_REMOVED"@,
    )
}

/// The stream of a capture: whether it has delivered a packet yet.
#[derive(Debug)]
pub struct CaptureStream {
    pub has_captured: bool,
}

impl CaptureStream {
    /// The stream of a capture, where the capture library could start one.
    pub fn start<E>(started: Result<(), E>) -> (r: Result<CaptureStream, CaptureError<E>>)
        ensures
            match started {
                Ok(_) => r matches Ok(stream) && !stream.has_captured,
                Err(error) => r == Err::<CaptureStream, CaptureError<E>>(
                    CaptureError::CaptureError { has_captured: false, error },
                ),
            },
    {
        match started {
            Ok(_) => Ok(CaptureStream { has_captured: false }),
            Err(error) => Err(CaptureError::CaptureError { has_captured: false, error }),
        }
    }

    /// What to deliver for the next `item` that was read: nothing any more once
    /// the device is gone, else the packet, or the error together with whether a
    /// packet was delivered before it.
    pub fn on_item<E>(&mut self, item: Result<Packet, ReadError<E>>) -> (r: Option<
        Result<Packet, CaptureError<ReadError<E>>>,
    >)
        ensures
            r == delivery(old(self).has_captured, item),
            final(self).has_captured == (old(self).has_captured || item is Ok),
    {
        match item {
            Ok(packet) => {
                self.has_captured = true;
                Some(Ok(packet))
            },
            Err(error) => {
                let removed: bool = match &error {
                    ReadError::PcapError(message) => contains(
                        message.as_str(),
                        "ERROR_DEVICE_REMOVED",
                    ),
                    ReadError::Other(_) => false,
                };
                if removed {
                    None
                } else {
                    Some(
                        Err(
                            CaptureError::CaptureError { has_captured: self.has_captured, error },
                        ),
                    )
                }
            },
        }
    }
}

/// What a stream delivers for `item`, given whether it has delivered a packet.
pub open spec fn delivery<E>(has_captured: bool, item: Result<Packet, ReadError<E>>) -> Option<
    Result<Packet, CaptureError<ReadError<E>>>,
> {
    if reports_removal(item) {
        None
    } else {
        Some(
            match item {
                Ok(packet) => Ok(packet),
                Err(error) => Err(CaptureError::CaptureError { has_captured, error }),
            },
        )
    }
}

/// All that a stream delivers of `items`, up to the first one for which it
/// delivers nothing.
pub open spec fn deliveries<E>(
    has_captured: bool,
    items: Seq<Result<Packet, ReadError<E>>>,
) -> Seq<Result<Packet, CaptureError<ReadError<E>>>>
    decreases items.len(),
{
    if items.len() == 0 {
        seq![]
    } else {
        match delivery(has_captured, items[0]) {
            None => seq![],
            Some(delivered) => seq![delivered] + deliveries(
                has_captured || items[0] is Ok,
                items.drop_first(),
            ),
        }
    }
}

// ---------------------------------------------------------------------------
// Laws
// ---------------------------------------------------------------------------

/// The state in which opening a capture is after the steps, beginning with
/// `step`, had the given outcomes.
pub open spec fn setup_after<E>(step: Option<SetupStep>, outcomes: Seq<Result<(), E>>) -> Result<
    Option<SetupStep>,
    CaptureError<E>,
>
    decreases outcomes.len(),
{
    if outcomes.len() == 0 || step is None {
        Ok(step)
    } else {
        match step_after(step->0, outcomes[0]) {
            Ok(next) => setup_after(next, outcomes.drop_first()),
            Err(error) => Err(error),
        }
    }
}

/// The `k`th step of opening a capture.
pub open spec fn nth_step(k: int) -> SetupStep {
    if k == 0 {
        SetupStep::SelectDevice
    } else if k == 1 {
        SetupStep::Open
    } else if k == 2 {
        SetupStep::SetNonblocking
    } else {
        SetupStep::SetFilter
    }
}

/// A capture is open once all four steps have succeeded.
pub proof fn law_setup_succeeds<E>(outcomes: Seq<Result<(), E>>)
    requires
        outcomes.len() == 4,
        forall|i: int| 0 <= i < 4 ==> outcomes[i] is Ok,
    ensures
        setup_after(Some(SetupStep::SelectDevice), outcomes) == Ok::<
            Option<SetupStep>,
            CaptureError<E>,
        >(None),
{
    reveal_with_fuel(setup_after, 5);
    let rest1 = outcomes.drop_first();
    let rest2 = rest1.drop_first();
    let rest3 = rest2.drop_first();
    assert(rest1[0] == outcomes[1] && rest2[0] == outcomes[2] && rest3[0] == outcomes[3]);
}

/// Opening a capture fails with the error of the first step that fails, in the
/// form that belongs to that step; later outcomes are of no account.
pub proof fn law_setup_fails_at_first_failure<E>(outcomes: Seq<Result<(), E>>, k: int)
    requires
        0 <= k < 4,
        k < outcomes.len(),
        forall|i: int| 0 <= i < k ==> outcomes[i] is Ok,
        outcomes[k] is Err,
    ensures
        setup_after(Some(SetupStep::SelectDevice), outcomes) == Err::<
            Option<SetupStep>,
            CaptureError<E>,
        >(setup_error(nth_step(k), outcomes[k]->Err_0)),
{
    reveal_with_fuel(setup_after, 5);
    let rest1 = outcomes.drop_first();
    if k > 0 {
        assert(outcomes[0] is Ok);
        assert(rest1[0] == outcomes[1]);
    }
    if k > 1 {
        assert(outcomes[1] is Ok);
        assert(rest1.drop_first()[0] == outcomes[2]);
    }
    if k > 2 {
        assert(outcomes[2] is Ok);
        assert(rest1.drop_first().drop_first()[0] == outcomes[3]);
    }
}

/// A stream delivers one result for each item, in order, until the device is
/// gone, and nothing from there on. A packet is delivered as it is; an error says
/// whether a packet was delivered before it.
pub proof fn law_stream_follows_the_capture<E>(
    has_captured: bool,
    items: Seq<Result<Packet, ReadError<E>>>,
    end: int,
)
    requires
        0 <= end <= items.len(),
        forall|i: int| 0 <= i < end ==> !reports_removal(#[trigger] items[i]),
        end < items.len() ==> reports_removal(items[end]),
    ensures
        deliveries(has_captured, items).len() == end,
        forall|i: int|
            0 <= i < end ==> Some(#[trigger] deliveries(has_captured, items)[i]) == delivery(
                has_captured || exists|j: int| 0 <= j < i && items[j] is Ok,
                items[i],
            ),
    decreases items.len(),
{
    if items.len() > 0 && end > 0 {
        let rest = items.drop_first();
        let flag = has_captured || items[0] is Ok;
        assert(!reports_removal(items[0]));
        assert forall|i: int| 0 <= i < end - 1 implies !reports_removal(#[trigger] rest[i]) by {
            assert(rest[i] == items[i + 1]);
        }
        law_stream_follows_the_capture(flag, rest, end - 1);
        assert forall|i: int| 0 <= i < end implies Some(
            #[trigger] deliveries(has_captured, items)[i],
        ) == delivery(
            has_captured || exists|j: int| 0 <= j < i && items[j] is Ok,
            items[i],
        ) by {
            if i > 0 {
                assert(deliveries(has_captured, items)[i] == deliveries(flag, rest)[i - 1]);
                assert(rest[i - 1] == items[i]);
                if exists|j: int| 0 <= j < i - 1 && rest[j] is Ok {
                    let j = choose|j: int| 0 <= j < i - 1 && rest[j] is Ok;
                    assert(items[j + 1] is Ok);
                }
                if exists|j: int| 0 <= j < i && items[j] is Ok {
                    let j = choose|j: int| 0 <= j < i && items[j] is Ok;
                    if j > 0 {
                        assert(rest[j - 1] is Ok);
                    }
                }
            }
        }
    }
}

/// A capture opens step by step: the device is selected, the capture opened, made
/// non-blocking and filtered, and then it is ready.
pub proof fn law_order_of_the_steps<E>(
    first: SetupStep,
    second: Result<Option<SetupStep>, CaptureError<E>>,
    third: Result<Option<SetupStep>, CaptureError<E>>,
    fourth: Result<Option<SetupStep>, CaptureError<E>>,
    end: Result<Option<SetupStep>, CaptureError<E>>,
)
    requires
        call_ensures(SetupStep::first, (), first),
        call_ensures(SetupStep::after::<E>, (first, Ok(())), second),
        second matches Ok(Some(step)) ==> call_ensures(
            SetupStep::after::<E>,
            (step, Ok(())),
            third,
        ),
        third matches Ok(Some(step)) ==> call_ensures(
            SetupStep::after::<E>,
            (step, Ok(())),
            fourth,
        ),
        fourth matches Ok(Some(step)) ==> call_ensures(SetupStep::after::<E>, (step, Ok(())), end),
    ensures
        first is SelectDevice,
        second matches Ok(Some(step)) && step is Open,
        third matches Ok(Some(step)) && step is SetNonblocking,
        fourth matches Ok(Some(step)) && step is SetFilter,
        end matches Ok(None),
{
}

/// A step that fails ends the opening with its own error: a device error where
/// the device could not be selected, a filter error where the filter was not
/// accepted, and in between an error of a capture that has delivered nothing.
pub proof fn law_error_of_a_step<E>(
    step: SetupStep,
    reason: E,
    r: Result<Option<SetupStep>, CaptureError<E>>,
)
    requires
        call_ensures(SetupStep::after::<E>, (step, Err(reason)), r),
    ensures
        step is SelectDevice ==> (r matches Err(CaptureError::DeviceError(error)) && error
            == reason),
        step is Open || step is SetNonblocking ==> (r matches Err(
            CaptureError::CaptureError { has_captured, error },
        ) && !has_captured && error == reason),
        step is SetFilter ==> (r matches Err(CaptureError::FilterError(error)) && error == reason),
{
}

/// Captures are marked by the name of their interface alone: with its hash, which
/// is that of the name's bytes and of one byte 0xff behind them.
pub proof fn law_captures_are_marked_by_name(
    device: PcapDevice,
    linktype: Linktype,
    capture: PcapCapture,
    codec: Codec,
    id: u64,
    name: &str,
)
    requires
        call_ensures(PcapDevice::create_capture, (&device, linktype), capture),
        call_ensures(PcapCapture::codec, (&capture,), codec),
        call_ensures(source_id, (name,), id),
        name@ == device.name@,
    ensures
        capture.device == device,
        capture.id == id && codec.source_id == id,
        capture.linktype == linktype && codec.linktype == linktype,
        id == DefaultHasher::spec_finish(
            seq![vstd::utf8::encode_utf8(device.name@), seq![255u8]],
        ),
{
}

/// A packet is delivered as it is, whatever came before it, and from then on the
/// stream has delivered one.
pub proof fn law_packets_are_delivered<E>(
    stream: &mut CaptureStream,
    packet: Packet,
    r: Option<Result<Packet, CaptureError<ReadError<E>>>>,
)
    requires
        call_ensures(CaptureStream::on_item::<E>, (stream, Ok(packet)), r),
    ensures
        r matches Some(Ok(delivered)) && delivered == packet,
        final(stream).has_captured,
{
}

/// An error is delivered with the word on whether a packet was delivered before
/// it, and does not change that; only the message that the device is gone, whose
/// text holds `ERROR_DEVICE_REMOVED`, is not delivered, and ends the stream.
pub proof fn law_errors_are_delivered_until_removal<E>(
    stream: &mut CaptureStream,
    reason: ReadError<E>,
    r: Option<Result<Packet, CaptureError<ReadError<E>>>>,
)
    requires
        call_ensures(CaptureStream::on_item::<E>, (stream, Err(reason)), r),
    ensures
        r is None <==> (reason matches ReadError::PcapError(message) && exists|
            front: Seq<char>,
            back: Seq<char>,
        |
            message@ == #[trigger] (front + "ERROR_DEVICE_REMOVED"@ + back)),
        r is Some ==> (r->0 matches Err(CaptureError::CaptureError { has_captured, error })
            && has_captured == old(stream).has_captured && error == reason),
        final(stream).has_captured == old(stream).has_captured,
{
    if let ReadError::PcapError(message) = reason {
        crate::text::law_occurrence(message@, "ERROR_DEVICE_REMOVED"@);
    }
}

/// A stream starts with nothing delivered; where the capture library could not
/// start one, the error says so too.
pub proof fn law_streams_start_empty<E>(
    reason: E,
    started: Result<CaptureStream, CaptureError<E>>,
    failed: Result<CaptureStream, CaptureError<E>>,
)
    requires
        call_ensures(CaptureStream::start::<E>, (Ok(()),), started),
        call_ensures(CaptureStream::start::<E>, (Err(reason),), failed),
    ensures
        started matches Ok(stream) && !stream.has_captured,
        failed matches Err(CaptureError::CaptureError { has_captured, error }) && !has_captured
            && error == reason,
{
}

} // verus!
