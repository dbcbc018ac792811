//! The arguments of the program and what follows from them.

use vstd::prelude::*;

verus! {

/// How many seconds a live capture lasts where no other number is given.
pub const DEFAULT_TIMEOUT: u64 = 120;

/// The port of the websocket server where no other one is given.
pub const DEFAULT_WEBSOCKET_PORT: u16 = 23313;

/// The arguments of the program, with paths of type `P`.
#[derive(Debug)]
pub struct Args<P> {
    /// Where to write the export.
    pub output: Option<P>,
    /// The file to read packets from instead of capturing them.
    pub pcap: Option<P>,
    /// The device to use when more than one iPhone is connected.
    pub udid: Option<String>,
    /// How many seconds a live capture lasts.
    pub timeout: u64,
    /// Whether to stream updates over a websocket, which disables the timeout.
    pub stream: bool,
    /// The port of the websocket server.
    pub websocket_port: u16,
    /// How often verbose output was asked for.
    pub verbose: u8,
    /// Where to write the log.
    pub log_path: Option<P>,
    /// Whether to exit without waiting once the capture is over.
    pub exit_after_capture: bool,
}

/// Where packets come from.
#[derive(Debug, Clone)]
pub enum CaptureMode<P> {
    Live,
    Pcap(P),
}

impl<'a, P> CaptureMode<&'a P> {
    /// The mode that `args` ask for: a file where they name one.
    pub fn from_args(args: &'a Args<P>) -> (r: CaptureMode<&'a P>)
        ensures
            r == match args.pcap {
                Some(path) => CaptureMode::Pcap(&path),
                None => CaptureMode::Live,
            },
    {
        match &args.pcap {
            Some(path) => CaptureMode::Pcap(path),
            None => CaptureMode::Live,
        }
    }
}

/// Whether to wait for enter to be pressed once the capture is over.
pub fn waits_for_enter(exit_after_capture: bool) -> (r: bool)
    ensures
        r == !exit_after_capture,
{
    !exit_after_capture
}

/// What to tell the user before capturing starts: nothing where packets are read
/// from a file.
pub fn capture_start_hints<P>(mode: &CaptureMode<P>) -> (r: Vec<&'static str>)
    ensures
        crate::text::strs(r@) == match *mode {
            CaptureMode::Live => seq![
                "macOS live capture uses libpcap/BPF and may need sudo"@,
                "connect the iPhone over USB before tapping \"Click to Start\""@,
            ],
            CaptureMode::Pcap(_) => seq![],
        },
{
    let mut hints: Vec<&'static str> = Vec::new();
    match mode {
        CaptureMode::Live => {
            hints.push("macOS live capture uses libpcap/BPF and may need sudo");
            hints.push("connect the iPhone over USB before tapping \"Click to Start\"");
        },
        CaptureMode::Pcap(_) => {},
    }
    hints
}

// ---------------------------------------------------------------------------
// Laws
// ---------------------------------------------------------------------------

/// Packets come from a file exactly where one is named, whatever else is asked
/// for, and it is that file.
pub proof fn law_named_file_is_read<P>(args: Args<P>, mode: CaptureMode<&P>)
    requires
        call_ensures(CaptureMode::<&P>::from_args, (&args,), mode),
    ensures
        args.pcap is None ==> mode is Live,
        args.pcap is Some ==> (mode matches CaptureMode::Pcap(path) && *path == args.pcap->0),
{
}

/// Reading a file needs no hints, and a live capture always has the same two.
pub proof fn law_hints_are_for_live_captures<P>(
    path: P,
    for_file: Vec<&'static str>,
    for_live: Vec<&'static str>,
)
    requires
        call_ensures(capture_start_hints::<P>, (&CaptureMode::Pcap(path),), for_file),
        call_ensures(capture_start_hints::<P>, (&CaptureMode::Live,), for_live),
    ensures
        for_file@.len() == 0,
        for_live@.len() == 2,
{
    assert(crate::text::strs(for_file@).len() == for_file@.len());
    assert(crate::text::strs(for_live@).len() == for_live@.len());
}

/// Enter is waited for exactly where the user did not ask to exit.
pub proof fn law_waiting_for_enter(waits: bool, otherwise: bool)
    requires
        call_ensures(waits_for_enter, (false,), waits),
        call_ensures(waits_for_enter, (true,), otherwise),
    ensures
        waits,
        !otherwise,
{
}

} // verus!
