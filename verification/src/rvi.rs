//! Setting up the remote virtual interface of an iPhone, and taking it down.
//!
//! The commands are run elsewhere; here is which ones, with which arguments, and
//! what their results lead to.

use vstd::prelude::*;

use crate::command::{read_run, CommandOutput, CommandText};
#[allow(unused_imports)]
use crate::command::{decoded_report_of, is_utf8, raw_report_of, report_of, Report};
use crate::iphone::parse_rvictl_interface;
#[allow(unused_imports)]
use crate::iphone::first_interface;
use crate::text::chain;
#[allow(unused_imports)]
use crate::text::{lines_of, texts};

verus! {

/// The exit code of the program where the interface cannot be set up.
pub const SETUP_FAILURE: i32 = 2;

/// The place of `rvictl` in an installation of Xcode.
pub const INSTALLED_RVICTL: &'static str = "/Library/Apple/usr/bin/rvictl";

/// The description of Apple's daemon for remote virtual interfaces.
pub const DAEMON_PLIST: &'static str =
    "/Library/Apple/System/Library/LaunchDaemons/com.apple.rpmuxd.plist";

/// The command to run as `rvictl`: the installed one by its path where it exists,
/// else whichever is on the search path.
pub fn rvictl_path(installed: bool) -> (r: &'static str)
    ensures
        r@ == if installed {
            INSTALLED_RVICTL@
        } else {
            "rvictl"@
        },
{
    if installed {
        INSTALLED_RVICTL
    } else {
        "rvictl"
    }
}

/// The arguments with which `rvictl` creates the interface of the device `udid`.
pub fn start_arguments(udid: &str) -> (r: Vec<String>)
    ensures
        texts(r@) == seq!["-s"@, udid@],
{
    let mut arguments: Vec<String> = Vec::new();
    arguments.push("-s".to_owned());
    arguments.push(udid.to_owned());
    arguments
}

/// The arguments with which `rvictl` removes the interface of the device `udid`.
pub fn stop_arguments(udid: &str) -> (r: Vec<String>)
    ensures
        texts(r@) == seq!["-x"@, udid@],
{
    let mut arguments: Vec<String> = Vec::new();
    arguments.push("-x".to_owned());
    arguments.push(udid.to_owned());
    arguments
}

// ---------------------------------------------------------------------------
// The interface
// ---------------------------------------------------------------------------

/// Why the interface could not be set up.
#[derive(Debug)]
pub enum SetupFailure {
    /// No UDID was given and none could be detected, for this reason.
    NoDevice { error: String },
    /// `rvictl` could not be run, for this reason.
    NotRun { error: String },
    /// `rvictl` reported failure.
    Refused { stdout: String, stderr: String },
    /// `rvictl` reported success and named no interface.
    NoInterface { output: String },
}

/// What happens on the way to the interface.
#[derive(Debug)]
pub enum SetupEvent {
    /// The program starts, to read packets from a file or to capture them.
    Begin { reads_file: bool },
    /// The daemon has been seen to; the program was given this UDID, or none.
    DaemonSeenTo { given: Option<String> },
    /// The detection of the connected iPhone has ended.
    Detected(Result<String, String>),
    /// `rvictl` was run for the device `udid`.
    Started { udid: String, run: Result<CommandOutput, String> },
}

/// What to do next.
#[derive(Debug)]
pub enum SetupAction {
    /// Go on without an interface.
    NotNeeded,
    /// See to it that the daemon is loaded.
    SeeToDaemon,
    /// Detect the connected iPhone.
    Detect,
    /// Run `rvictl` for this device.
    Start { udid: String },
    /// Capture on this interface, and remove it in the end.
    Ready { interface: String, udid: String },
    /// Remove the interface that was created for this device, then give up.
    Remove { udid: String, failure: SetupFailure },
    /// Give up.
    Fail(SetupFailure),
}

/// What `rvictl` printed: its output and its error output, on separate lines.
pub open spec fn printed(report: Report) -> Seq<char> {
    report.stdout + "\n"@ + report.stderr
}

/// What to do once `rvictl` was run for `device`: where it succeeds, capture on
/// the interface that it names, or remove the interface where it names none.
pub open spec fn started_leads_to(
    device: Seq<char>,
    run: Result<Report, Seq<char>>,
    action: SetupAction,
) -> bool {
    match run {
        Err(reason) => action matches SetupAction::Fail(SetupFailure::NotRun { error }) && error@
            == reason,
        Ok(report) => if !report.success {
            action matches SetupAction::Fail(SetupFailure::Refused { stdout, stderr }) && stdout@
                == report.stdout && stderr@ == report.stderr
        } else {
            match first_interface(lines_of(printed(report))) {
                Some(name) => action matches SetupAction::Ready { interface, udid } && interface@
                    == name && udid@ == device,
                None => action matches SetupAction::Remove {
                    udid,
                    failure: SetupFailure::NoInterface { output },
                } && udid@ == device && output@ == printed(report),
            }
        },
    }
}

/// What to do next after `event`.
pub open spec fn leads_to(event: SetupEvent, action: SetupAction) -> bool {
    match event {
        SetupEvent::Begin { reads_file } => if reads_file {
            action is NotNeeded
        } else {
            action is SeeToDaemon
        },
        SetupEvent::DaemonSeenTo { given: Some(given) } => action matches SetupAction::Start {
            udid,
        } && udid@ == given@,
        SetupEvent::DaemonSeenTo { given: None } => action is Detect,
        SetupEvent::Detected(Ok(found)) => action matches SetupAction::Start { udid } && udid@
            == found@,
        SetupEvent::Detected(Err(reason)) => action matches SetupAction::Fail(
            SetupFailure::NoDevice { error },
        ) && error@ == reason@,
        SetupEvent::Started { udid, run } => started_leads_to(udid@, raw_report_of(run), action),
    }
}

/// What to do once `rvictl` was run for the device `udid`.
pub fn after_start(udid: String, run: Result<CommandText, String>) -> (r: SetupAction)
    ensures
        started_leads_to(udid@, report_of(run), r),
{
    match run {
        Err(error) => SetupAction::Fail(SetupFailure::NotRun { error }),
        Ok(output) => {
            if !output.success {
                return SetupAction::Fail(
                    SetupFailure::Refused { stdout: output.stdout, stderr: output.stderr },
                );
            }
            let first: String = chain(output.stdout.as_str(), "\n");
            let text: String = chain(first.as_str(), output.stderr.as_str());
            match parse_rvictl_interface(text.as_str()) {
                Some(interface) => SetupAction::Ready { interface, udid },
                None => SetupAction::Remove {
                    udid,
                    failure: SetupFailure::NoInterface { output: text },
                },
            }
        },
    }
}

/// What to do next in setting up the capture interface of an iPhone.
pub fn setup_iphone_capture(event: SetupEvent) -> (r: SetupAction)
    ensures
        leads_to(event, r),
        event matches SetupEvent::Started { udid, run } ==> is_utf8(run) ==> started_leads_to(
            udid@,
            decoded_report_of(run),
            r,
        ),
{
    match event {
        SetupEvent::Begin { reads_file } => if reads_file {
            SetupAction::NotNeeded
        } else {
            SetupAction::SeeToDaemon
        },
        SetupEvent::DaemonSeenTo { given } => match given {
            Some(udid) => SetupAction::Start { udid },
            None => SetupAction::Detect,
        },
        SetupEvent::Detected(result) => match result {
            Ok(udid) => SetupAction::Start { udid },
            Err(error) => SetupAction::Fail(SetupFailure::NoDevice { error }),
        },
        SetupEvent::Started { udid, run } => after_start(udid, read_run(run)),
    }
}

// ---------------------------------------------------------------------------
// The daemon
// ---------------------------------------------------------------------------

/// The arguments with which `launchctl` tells whether the daemon is loaded.
pub fn probe_arguments() -> (r: Vec<String>)
    ensures
        texts(r@) == seq!["print"@, "system/com.apple.rpmuxd"@],
{
    let mut arguments: Vec<String> = Vec::new();
    arguments.push("print".to_owned());
    arguments.push("system/com.apple.rpmuxd".to_owned());
    arguments
}

/// The arguments with which `launchctl` loads the daemon.
pub fn bootstrap_arguments() -> (r: Vec<String>)
    ensures
        texts(r@) == seq!["bootstrap"@, "system"@, DAEMON_PLIST@],
{
    let mut arguments: Vec<String> = Vec::new();
    arguments.push("bootstrap".to_owned());
    arguments.push("system".to_owned());
    arguments.push(DAEMON_PLIST.to_owned());
    arguments
}

/// What happens on the way to a loaded daemon.
#[derive(Debug)]
pub enum DaemonEvent {
    /// `launchctl` was asked whether the daemon is loaded.
    Probed(Result<CommandOutput, String>),
    /// The daemon's description was looked for.
    LookedForPlist { exists: bool },
    /// `launchctl` was told to load the daemon.
    Bootstrapped(Result<CommandOutput, String>),
}

/// What to do next, or how it ended.
#[derive(Debug)]
pub enum DaemonAction {
    /// The daemon was loaded already.
    AlreadyLoaded,
    /// Look for the daemon's description.
    LookForPlist,
    /// There is no description to load the daemon from.
    PlistMissing,
    /// Load the daemon.
    Bootstrap,
    /// The daemon has been loaded.
    Loaded,
    /// `launchctl` reported failure, with this error output.
    Refused { stderr: String },
    /// `launchctl` could not be run, for this reason.
    NotRun { error: String },
}

/// What to do next after `event`.
pub open spec fn daemon_leads_to(event: DaemonEvent, action: DaemonAction) -> bool {
    match event {
        DaemonEvent::Probed(run) => if run matches Ok(output) && output.success {
            action is AlreadyLoaded
        } else {
            action is LookForPlist
        },
        DaemonEvent::LookedForPlist { exists } => if exists {
            action is Bootstrap
        } else {
            action is PlistMissing
        },
        DaemonEvent::Bootstrapped(run) => bootstrap_leads_to(raw_report_of(run), action),
    }
}

/// How an attempt to load the daemon ended.
pub open spec fn bootstrap_leads_to(run: Result<Report, Seq<char>>, action: DaemonAction) -> bool {
    match run {
        Ok(report) => if report.success {
            action is Loaded
        } else {
            action matches DaemonAction::Refused { stderr } && stderr@ == report.stderr
        },
        Err(reason) => action matches DaemonAction::NotRun { error } && error@ == reason,
    }
}

/// How an attempt to load the daemon ended.
pub fn after_bootstrap(run: Result<CommandText, String>) -> (r: DaemonAction)
    ensures
        bootstrap_leads_to(report_of(run), r),
{
    match run {
        Ok(output) => if output.success {
            DaemonAction::Loaded
        } else {
            DaemonAction::Refused { stderr: output.stderr }
        },
        Err(error) => DaemonAction::NotRun { error },
    }
}

/// What to do next to have the daemon for remote virtual interfaces loaded.
pub fn ensure_rvi_daemon_loaded(event: DaemonEvent) -> (r: DaemonAction)
    ensures
        daemon_leads_to(event, r),
        event matches DaemonEvent::Bootstrapped(run) ==> is_utf8(run) ==> bootstrap_leads_to(
            decoded_report_of(run),
            r,
        ),
{
    match event {
        DaemonEvent::Probed(run) => match run {
            Ok(output) => if output.success {
                DaemonAction::AlreadyLoaded
            } else {
                DaemonAction::LookForPlist
            },
            Err(_) => DaemonAction::LookForPlist,
        },
        DaemonEvent::LookedForPlist { exists } => if exists {
            DaemonAction::Bootstrap
        } else {
            DaemonAction::PlistMissing
        },
        DaemonEvent::Bootstrapped(run) => after_bootstrap(read_run(run)),
    }
}

// ---------------------------------------------------------------------------
// Laws
// ---------------------------------------------------------------------------

/// A UDID that was given is used as it is: the interface is started for it, and
/// no device is looked for.
pub proof fn law_given_udid_is_used(given: String, action: SetupAction)
    requires
        leads_to(SetupEvent::DaemonSeenTo { given: Some(given) }, action),
    ensures
        action matches SetupAction::Start { udid } && udid@ == given@,
{
}

/// An interface that was created is not left behind: once `rvictl` has succeeded
/// for a device, the next action names that device as the one whose interface is
/// removed, in the end or at once.
pub proof fn law_created_interface_is_removed(
    device: String,
    output: CommandOutput,
    action: SetupAction,
)
    requires
        output.success,
        leads_to(SetupEvent::Started { udid: device, run: Ok(output) }, action),
    ensures
        match action {
            SetupAction::Ready { udid, .. } => udid@ == device@,
            SetupAction::Remove { udid, .. } => udid@ == device@,
            _ => false,
        },
{
}

/// An interface is captured on only after `rvictl` succeeded and named it; it
/// belongs to the device that `rvictl` was run for, and its name is a word.
pub proof fn law_ready_was_named(event: SetupEvent, action: SetupAction)
    requires
        leads_to(event, action),
        action is Ready,
    ensures
        event matches SetupEvent::Started { udid, run: Ok(output) } && output.success
            && action->Ready_udid@ == udid@ && first_interface(lines_of(printed(output@)))
            == Some(action->Ready_interface@),
        action->Ready_interface@.len() > 0,
        forall|i: int|
            0 <= i < action->Ready_interface@.len() ==> !crate::text::white_space(
                #[trigger] action->Ready_interface@[i],
            ),
{
    if let SetupEvent::Started { udid, run: Ok(output) } = event {
        crate::iphone::law_interface_is_a_word(lines_of(printed(output@)));
    }
}

/// A file needs no interface, and a live capture begins with the daemon. Then a
/// device that was given is started, and where none was given one is detected.
pub proof fn law_course_of_the_setup(
    given: String,
    found: String,
    reason: String,
    for_file: SetupAction,
    for_live: SetupAction,
    with_given: SetupAction,
    without: SetupAction,
    detected: SetupAction,
    undetected: SetupAction,
)
    requires
        call_ensures(setup_iphone_capture, (SetupEvent::Begin { reads_file: true },), for_file),
        call_ensures(setup_iphone_capture, (SetupEvent::Begin { reads_file: false },), for_live),
        call_ensures(
            setup_iphone_capture,
            (SetupEvent::DaemonSeenTo { given: Some(given) },),
            with_given,
        ),
        call_ensures(
            setup_iphone_capture,
            (SetupEvent::DaemonSeenTo { given: None },),
            without,
        ),
        call_ensures(setup_iphone_capture, (SetupEvent::Detected(Ok(found)),), detected),
        call_ensures(setup_iphone_capture, (SetupEvent::Detected(Err(reason)),), undetected),
    ensures
        for_file is NotNeeded,
        for_live is SeeToDaemon,
        with_given matches SetupAction::Start { udid } && udid@ == given@,
        without is Detect,
        detected matches SetupAction::Start { udid } && udid@ == found@,
        undetected matches SetupAction::Fail(SetupFailure::NoDevice { error }) && error@
            == reason@,
{
}

/// The interface that `rvictl` names, on either of its streams, is the one that is
/// captured on, for the device that it was run for. Where it succeeds and names
/// none, the interface of that device is removed. Where it fails, what it printed
/// is told, and where it could not be run, the reason is.
pub proof fn law_what_rvictl_leads_to(
    device: String,
    output: CommandText,
    reason: String,
    text: &str,
    named: Option<String>,
    action: SetupAction,
    missing: SetupAction,
)
    requires
        text@ == output.stdout@ + seq!['\n'] + output.stderr@,
        call_ensures(parse_rvictl_interface, (text,), named),
        call_ensures(after_start, (device, Ok(output)), action),
        call_ensures(after_start, (device, Err(reason)), missing),
    ensures
        output.success && named is Some ==> (action matches SetupAction::Ready { interface, udid }
            && interface@ == named->0@ && udid@ == device@),
        output.success && named is None ==> (action matches SetupAction::Remove {
            udid,
            failure: SetupFailure::NoInterface { output: shown },
        } && udid@ == device@ && shown@ == text@),
        !output.success ==> (action matches SetupAction::Fail(
            SetupFailure::Refused { stdout, stderr },
        ) && stdout@ == output.stdout@ && stderr@ == output.stderr@),
        missing matches SetupAction::Fail(SetupFailure::NotRun { error }) && error@ == reason@,
{
    reveal_strlit("\n");
    assert("\n"@ =~= seq!['\n']);
}

/// An interface that the output of `rvictl` names is found there before the error
/// output is looked at, and one that only the error output names is found too.
pub proof fn law_either_stream_can_name_the_interface(stdout: Seq<char>, stderr: Seq<char>)
    ensures
        first_interface(lines_of(stdout + seq!['\n'] + stderr)) == match first_interface(
            lines_of(stdout + seq!['\n']),
        ) {
            Some(name) => Some(name),
            None => first_interface(lines_of(stderr)),
        },
{
    crate::text::law_line_feed_parts_lines(stdout, stderr);
    lemma_first_of_two(lines_of(stdout + seq!['\n']), lines_of(stderr));
}

/// The first interface of two groups of lines.
proof fn lemma_first_of_two(a: Seq<Seq<char>>, b: Seq<Seq<char>>)
    ensures
        first_interface(a + b) == match first_interface(a) {
            Some(name) => Some(name),
            None => first_interface(b),
        },
    decreases a.len(),
{
    if a.len() == 0 {
        assert(a + b =~= b);
    } else {
        assert((a + b).drop_first() =~= a.drop_first() + b);
        assert((a + b)[0] == a[0]);
        lemma_first_of_two(a.drop_first(), b);
    }
}

/// What is read of a run of `rvictl` in bytes leads to what its text leads to.
pub proof fn law_rvictl_output_is_read(
    device: String,
    run: Result<CommandOutput, String>,
    text: Result<CommandText, String>,
    action: SetupAction,
    by_text: SetupAction,
)
    requires
        call_ensures(read_run, (run,), text),
        call_ensures(setup_iphone_capture, (SetupEvent::Started { udid: device, run },), action),
        call_ensures(after_start, (device, text), by_text),
    ensures
        match by_text {
            SetupAction::Ready { interface, udid } => action matches SetupAction::Ready {
                interface: other,
                udid: device,
            } && other@ == interface@ && device@ == udid@,
            SetupAction::Remove { udid, failure: SetupFailure::NoInterface { output } } => action
                matches SetupAction::Remove {
                udid: device,
                failure: SetupFailure::NoInterface { output: other },
            } && device@ == udid@ && other@ == output@,
            SetupAction::Fail(SetupFailure::Refused { stdout, stderr }) => action
                matches SetupAction::Fail(
                SetupFailure::Refused { stdout: other, stderr: another },
            ) && other@ == stdout@ && another@ == stderr@,
            SetupAction::Fail(SetupFailure::NotRun { error }) => action matches SetupAction::Fail(
                SetupFailure::NotRun { error: other },
            ) && other@ == error@,
            _ => false,
        },
{
}

/// The commands that create and remove an interface name the device, and it
/// alone.
pub proof fn law_rvictl_is_run_for_the_device(
    udid: &str,
    start: Vec<String>,
    stop: Vec<String>,
)
    requires
        call_ensures(start_arguments, (udid,), start),
        call_ensures(stop_arguments, (udid,), stop),
    ensures
        texts(start@) == seq!["-s"@, udid@],
        texts(stop@) == seq!["-x"@, udid@],
{
}

/// A daemon that runs is left alone. Else it is loaded from its description, if
/// that exists, and the attempt ends in success, in the error output of
/// `launchctl`, or in the reason why that could not be run.
pub proof fn law_course_of_the_daemon(
    probe: CommandOutput,
    unprobed: String,
    output: CommandText,
    reason: String,
    after_probe: DaemonAction,
    after_none: DaemonAction,
    with_plist: DaemonAction,
    without: DaemonAction,
    ended: DaemonAction,
    missing: DaemonAction,
)
    requires
        call_ensures(ensure_rvi_daemon_loaded, (DaemonEvent::Probed(Ok(probe)),), after_probe),
        call_ensures(ensure_rvi_daemon_loaded, (DaemonEvent::Probed(Err(unprobed)),), after_none),
        call_ensures(
            ensure_rvi_daemon_loaded,
            (DaemonEvent::LookedForPlist { exists: true },),
            with_plist,
        ),
        call_ensures(
            ensure_rvi_daemon_loaded,
            (DaemonEvent::LookedForPlist { exists: false },),
            without,
        ),
        call_ensures(after_bootstrap, (Ok(output),), ended),
        call_ensures(after_bootstrap, (Err(reason),), missing),
    ensures
        probe.success ==> after_probe is AlreadyLoaded,
        !probe.success ==> after_probe is LookForPlist,
        after_none is LookForPlist,
        with_plist is Bootstrap,
        without is PlistMissing,
        output.success ==> ended is Loaded,
        !output.success ==> (ended matches DaemonAction::Refused { stderr } && stderr@
            == output.stderr@),
        missing matches DaemonAction::NotRun { error } && error@ == reason@,
{
}

/// What is read of a run of `launchctl` in bytes is what its text says.
pub proof fn law_launchctl_output_is_read(
    run: Result<CommandOutput, String>,
    text: Result<CommandText, String>,
    ended: DaemonAction,
    by_text: DaemonAction,
)
    requires
        call_ensures(read_run, (run,), text),
        call_ensures(ensure_rvi_daemon_loaded, (DaemonEvent::Bootstrapped(run),), ended),
        call_ensures(after_bootstrap, (text,), by_text),
    ensures
        by_text is Loaded <==> ended is Loaded,
        by_text matches DaemonAction::Refused { stderr } ==> (ended matches DaemonAction::Refused {
            stderr: other,
        } && other@ == stderr@),
        by_text matches DaemonAction::NotRun { error } ==> (ended matches DaemonAction::NotRun {
            error: other,
        } && other@ == error@),
{
}

} // verus!
