//! Finding the connected iPhone and its capture interface.
//!
//! The tools that know about devices are run elsewhere; here is what their output
//! means and what to run next.

use vstd::prelude::*;

use crate::command::{output_text, read_run, CommandOutput, CommandText};
#[allow(unused_imports)]
use crate::command::{
    decoded_report_of, is_utf8, outcome, output_or_message, raw_report_of, report_of, Report,
};
use crate::text::{
    chain, chars_of, contains, is_ascii_hexdigit, join, lines, rest_after, same, split_whitespace,
    starts_with, strip_prefix, trim,
};
#[allow(unused_imports)]
use crate::text::{
    after_first, hex_digit, joined, lines_of, occurs, strs, texts, trimmed, without_prefix,
    words_of,
};

verus! {

// ---------------------------------------------------------------------------
// Identifiers
// ---------------------------------------------------------------------------

/// Whether `s` consists of hexadecimal digits and dashes.
pub open spec fn hex_and_dashes(s: Seq<char>) -> bool {
    forall|i: int| 0 <= i < s.len() ==> hex_digit(#[trigger] s[i]) || s[i] == '-'
}

/// How many dashes `s` holds.
pub open spec fn dashes(s: Seq<char>) -> nat
    decreases s.len(),
{
    if s.len() == 0 {
        0
    } else {
        dashes(s.drop_last()) + if s.last() == '-' {
            1nat
        } else {
            0nat
        }
    }
}

/// Whether `s` has the form of a device's UDID.
pub open spec fn is_udid(s: Seq<char>) -> bool {
    s.len() >= 24 && hex_and_dashes(s)
}

/// Whether `s` has the form of a CoreDevice identifier.
pub open spec fn is_coredevice_identifier(s: Seq<char>) -> bool {
    s.len() == 36 && hex_and_dashes(s) && dashes(s) == 4
}

/// Whether `chars` are hexadecimal digits and dashes, and how many are dashes.
fn count_dashes(chars: &Vec<char>) -> (r: Option<usize>)
    ensures
        match r {
            Some(n) => hex_and_dashes(chars@) && n == dashes(chars@),
            None => !hex_and_dashes(chars@),
        },
{
    let mut n: usize = 0;
    let mut i: usize = 0;
    while i < chars.len()
        invariant
            i <= chars@.len(),
            n <= i,
            n == dashes(chars@.take(i as int)),
            hex_and_dashes(chars@.take(i as int)),
        decreases chars@.len() - i,
    {
        let c: char = chars[i];
        assert(chars@.take(i + 1).drop_last() == chars@.take(i as int));
        if c == '-' {
            n += 1;
        } else if !is_ascii_hexdigit(c) {
            return None;
        }
        i += 1;
        assert forall|j: int| 0 <= j < i implies hex_digit(#[trigger] chars@.take(i as int)[j])
            || chars@.take(i as int)[j] == '-' by {
            if j < i - 1 {
                assert(chars@.take(i - 1)[j] == chars@[j]);
            }
        }
    }
    assert(chars@.take(i as int) == chars@);
    Some(n)
}

/// Whether `value` has the form of a device's UDID.
pub fn looks_like_udid(value: &str) -> (r: bool)
    ensures
        r == is_udid(value@),
{
    let chars: Vec<char> = chars_of(value);
    chars.len() >= 24 && count_dashes(&chars).is_some()
}

/// Whether `value` has the form of a CoreDevice identifier.
pub fn looks_like_coredevice_identifier(value: &str) -> (r: bool)
    ensures
        r == is_coredevice_identifier(value@),
{
    let chars: Vec<char> = chars_of(value);
    match count_dashes(&chars) {
        Some(n) => chars.len() == 36 && n == 4,
        None => false,
    }
}

/// Where `c` last stands in `s`.
pub open spec fn last_index(s: Seq<char>, c: char) -> Option<int>
    decreases s.len(),
{
    if s.len() == 0 {
        None
    } else if s.last() == c {
        Some(s.len() - 1)
    } else {
        last_index(s.drop_last(), c)
    }
}

/// What stands in `s` between its last closing parenthesis and the last opening
/// one before that.
pub open spec fn last_parenthesized(s: Seq<char>) -> Option<Seq<char>> {
    match last_index(s, ')') {
        None => None,
        Some(end) => match last_index(s.take(end), '(') {
            None => None,
            Some(start) => Some(s.subrange(start + 1, end)),
        },
    }
}

/// Where `c` last stands in the first `len` of `chars`.
fn find_last(chars: &Vec<char>, len: usize, c: char) -> (r: Option<usize>)
    requires
        len <= chars@.len(),
    ensures
        match r {
            Some(at) => at < len && last_index(chars@.take(len as int), c) == Some(at as int),
            None => last_index(chars@.take(len as int), c) is None,
        },
{
    let mut end: usize = len;
    while end > 0
        invariant
            end <= len <= chars@.len(),
            last_index(chars@.take(len as int), c) == last_index(chars@.take(end as int), c),
        decreases end,
    {
        assert(chars@.take(end as int).drop_last() == chars@.take(end - 1));
        assert(chars@.take(end as int).last() == chars@[end - 1]);
        if chars[end - 1] == c {
            return Some(end - 1);
        }
        end -= 1;
    }
    None
}

/// What stands in the last pair of parentheses of `value`.
pub fn extract_last_parenthesized(value: &str) -> (r: Option<&str>)
    ensures
        match r {
            Some(inner) => last_parenthesized(value@) == Some(inner@),
            None => last_parenthesized(value@) is None,
        },
{
    let chars: Vec<char> = chars_of(value);
    assert(chars@.take(chars@.len() as int) == chars@);
    let end: usize = match find_last(&chars, chars.len(), ')') {
        Some(end) => end,
        None => return None,
    };
    match find_last(&chars, end, '(') {
        Some(start) => Some(value.substring_char(start + 1, end)),
        None => None,
    }
}

// ---------------------------------------------------------------------------
// What the tools print
// ---------------------------------------------------------------------------

/// The interface that a line of `rvictl` names.
pub open spec fn interface_on_line(line: Seq<char>) -> Option<Seq<char>> {
    match after_first(line, "with interface "@) {
        None => None,
        Some(rest) => if words_of(rest).len() > 0 {
            Some(words_of(rest)[0])
        } else {
            None
        },
    }
}

/// The interface on the first of `lines` that names one.
pub open spec fn first_interface(lines: Seq<Seq<char>>) -> Option<Seq<char>>
    decreases lines.len(),
{
    if lines.len() == 0 {
        None
    } else if interface_on_line(lines[0]) is Some {
        interface_on_line(lines[0])
    } else {
        first_interface(lines.drop_first())
    }
}

/// The capture interface that the output of `rvictl` names.
pub fn parse_rvictl_interface(output: &str) -> (r: Option<String>)
    ensures
        match r {
            Some(interface) => first_interface(lines_of(output@)) == Some(interface@),
            None => first_interface(lines_of(output@)) is None,
        },
{
    let all: Vec<&str> = lines(output);
    let mut i: usize = 0;
    assert(strs(all@).skip(0) == strs(all@));
    while i < all.len()
        invariant
            i <= all@.len(),
            strs(all@) == lines_of(output@),
            first_interface(lines_of(output@)) == first_interface(strs(all@).skip(i as int)),
        decreases all@.len() - i,
    {
        let line: &str = all[i];
        proof {
            assert(strs(all@).skip(i as int)[0] == line@);
            assert(strs(all@).skip(i as int).drop_first() == strs(all@).skip(i + 1));
        }
        if let Some(rest) = rest_after(line, "with interface ") {
            let words: Vec<&str> = split_whitespace(rest);
            if words.len() > 0 {
                let interface: &str = words[0];
                assert(strs(words@)[0] == interface@);
                return Some(interface.to_owned());
            }
        }
        i += 1;
    }
    None
}

/// The UDID that a trimmed line of the device list of `xctrace` gives for an
/// iPhone.
pub open spec fn udid_on_line(line: Seq<char>) -> Option<Seq<char>> {
    match last_parenthesized(line) {
        Some(value) => if occurs(line, "iPhone"@) && is_udid(value) {
            Some(value)
        } else {
            None
        },
        None => None,
    }
}

/// The UDIDs of the iPhones in the device list of `xctrace`: those on the lines
/// under the heading of physical devices, of which `in_devices` says whether the
/// first line stands under it.
pub open spec fn listed_udids(lines: Seq<Seq<char>>, in_devices: bool) -> Seq<Seq<char>>
    decreases lines.len(),
{
    if lines.len() == 0 {
        seq![]
    } else {
        let line = trimmed(lines[0]);
        let rest = lines.drop_first();
        if line == "== Devices =="@ {
            listed_udids(rest, true)
        } else if "== "@.is_prefix_of(line) || !in_devices {
            listed_udids(rest, false)
        } else {
            match udid_on_line(line) {
                Some(udid) => seq![udid] + listed_udids(rest, true),
                None => listed_udids(rest, true),
            }
        }
    }
}

/// The UDIDs of the physical iPhones in the device list that `xctrace` printed.
pub fn parse_xctrace_devices(output: &str) -> (r: Vec<String>)
    ensures
        texts(r@) == listed_udids(lines_of(output@), false),
{
    let all: Vec<&str> = lines(output);
    let mut in_physical_devices: bool = false;
    let mut udids: Vec<String> = Vec::new();
    let mut i: usize = 0;
    proof {
        assert(strs(all@).skip(0) == strs(all@));
        assert(texts(udids@) + listed_udids(strs(all@), false) == listed_udids(strs(all@), false));
    }
    while i < all.len()
        invariant
            i <= all@.len(),
            strs(all@) == lines_of(output@),
            texts(udids@) + listed_udids(strs(all@).skip(i as int), in_physical_devices)
                == listed_udids(lines_of(output@), false),
        decreases all@.len() - i,
    {
        let line: &str = trim(all[i]);
        let ghost rest = strs(all@).skip(i as int);
        let ghost before = udids@;
        proof {
            assert(trimmed(rest[0]) == line@);
            assert(rest.drop_first() == strs(all@).skip(i + 1));
        }
        i += 1;
        if same(line, "== Devices ==") {
            in_physical_devices = true;
            continue;
        }
        if starts_with(line, "== ") {
            in_physical_devices = false;
        }
        if !in_physical_devices || !contains(line, "iPhone") {
            continue;
        }
        if let Some(udid) = extract_last_parenthesized(line) {
            if looks_like_udid(udid) {
                udids.push(udid.to_owned());
                proof {
                    let tail = listed_udids(rest.drop_first(), true);
                    assert(texts(udids@) == texts(before) + seq![udid@]);
                    assert(texts(udids@) + tail == texts(before) + (seq![udid@] + tail));
                }
            }
        }
    }
    assert(listed_udids(strs(all@).skip(i as int), in_physical_devices) =~= seq![]);
    udids
}

/// The first of `words` that has the form of a CoreDevice identifier.
pub open spec fn first_identifier(words: Seq<Seq<char>>) -> Option<Seq<char>>
    decreases words.len(),
{
    if words.len() == 0 {
        None
    } else if is_coredevice_identifier(words[0]) {
        Some(words[0])
    } else {
        first_identifier(words.drop_first())
    }
}

/// The identifier that a line of the device list of `devicectl` gives for an
/// available iPhone.
pub open spec fn identifier_on_line(line: Seq<char>) -> Option<Seq<char>> {
    if occurs(line, "iPhone"@) && occurs(line, "available"@) {
        first_identifier(words_of(line))
    } else {
        None
    }
}

/// The identifiers of the available iPhones in the device list of `devicectl`.
pub open spec fn listed_identifiers(lines: Seq<Seq<char>>) -> Seq<Seq<char>>
    decreases lines.len(),
{
    if lines.len() == 0 {
        seq![]
    } else {
        match identifier_on_line(lines[0]) {
            Some(identifier) => seq![identifier] + listed_identifiers(lines.drop_first()),
            None => listed_identifiers(lines.drop_first()),
        }
    }
}

/// The first word of `line` that has the form of a CoreDevice identifier.
fn find_identifier(line: &str) -> (r: Option<&str>)
    ensures
        match r {
            Some(identifier) => first_identifier(words_of(line@)) == Some(identifier@),
            None => first_identifier(words_of(line@)) is None,
        },
{
    let words: Vec<&str> = split_whitespace(line);
    let mut i: usize = 0;
    assert(strs(words@).skip(0) == strs(words@));
    while i < words.len()
        invariant
            i <= words@.len(),
            strs(words@) == words_of(line@),
            first_identifier(words_of(line@)) == first_identifier(strs(words@).skip(i as int)),
        decreases words@.len() - i,
    {
        let word: &str = words[i];
        proof {
            assert(strs(words@).skip(i as int)[0] == word@);
            assert(strs(words@).skip(i as int).drop_first() == strs(words@).skip(i + 1));
        }
        if looks_like_coredevice_identifier(word) {
            return Some(word);
        }
        i += 1;
    }
    None
}

/// The identifiers of the available iPhones in the device list that `devicectl`
/// printed.
pub fn parse_devicectl_devices(output: &str) -> (r: Vec<String>)
    ensures
        texts(r@) == listed_identifiers(lines_of(output@)),
{
    let all: Vec<&str> = lines(output);
    let mut identifiers: Vec<String> = Vec::new();
    let mut i: usize = 0;
    proof {
        assert(strs(all@).skip(0) == strs(all@));
        assert(texts(identifiers@) + listed_identifiers(strs(all@)) == listed_identifiers(
            strs(all@),
        ));
    }
    while i < all.len()
        invariant
            i <= all@.len(),
            strs(all@) == lines_of(output@),
            texts(identifiers@) + listed_identifiers(strs(all@).skip(i as int))
                == listed_identifiers(lines_of(output@)),
        decreases all@.len() - i,
    {
        let line: &str = all[i];
        let ghost rest = strs(all@).skip(i as int);
        let ghost before = identifiers@;
        proof {
            assert(rest[0] == line@);
            assert(rest.drop_first() == strs(all@).skip(i + 1));
        }
        if contains(line, "iPhone") && contains(line, "available") {
            if let Some(identifier) = find_identifier(line) {
                identifiers.push(identifier.to_owned());
                proof {
                    let tail = listed_identifiers(rest.drop_first());
                    assert(texts(identifiers@) == texts(before) + seq![identifier@]);
                    assert(texts(identifiers@) + tail == texts(before) + (seq![identifier@]
                        + tail));
                }
            }
        }
        i += 1;
    }
    assert(listed_identifiers(strs(all@).skip(i as int)) =~= seq![]);
    identifiers
}

/// The UDID on the first of `lines` that is labelled as one.
pub open spec fn labelled_udid(lines: Seq<Seq<char>>) -> Option<Seq<char>>
    decreases lines.len(),
{
    if lines.len() == 0 {
        None
    } else if without_prefix(trimmed(lines[0]), "\u{2022} udid: "@) is Some {
        without_prefix(trimmed(lines[0]), "\u{2022} udid: "@)
    } else {
        labelled_udid(lines.drop_first())
    }
}

/// The UDID in the details of a device that `devicectl` printed.
pub fn parse_device_details(output: &str) -> (r: Option<String>)
    ensures
        match r {
            Some(udid) => labelled_udid(lines_of(output@)) == Some(udid@),
            None => labelled_udid(lines_of(output@)) is None,
        },
{
    let all: Vec<&str> = lines(output);
    let mut i: usize = 0;
    assert(strs(all@).skip(0) == strs(all@));
    while i < all.len()
        invariant
            i <= all@.len(),
            strs(all@) == lines_of(output@),
            labelled_udid(lines_of(output@)) == labelled_udid(strs(all@).skip(i as int)),
        decreases all@.len() - i,
    {
        let line: &str = trim(all[i]);
        proof {
            assert(trimmed(strs(all@).skip(i as int)[0]) == line@);
            assert(strs(all@).skip(i as int).drop_first() == strs(all@).skip(i + 1));
        }
        if let Some(udid) = strip_prefix(line, "\u{2022} udid: ") {
            return Some(udid.to_owned());
        }
        i += 1;
    }
    None
}

// ---------------------------------------------------------------------------
// Choosing the device
// ---------------------------------------------------------------------------

/// The only one of `found`; `none` where there is none, `many` and the list
/// where there are several.
pub open spec fn only_one(found: Seq<Seq<char>>, none: Seq<char>, many: Seq<char>) -> Result<
    Seq<char>,
    Seq<char>,
> {
    if found.len() == 0 {
        Err(none)
    } else if found.len() == 1 {
        Ok(found[0])
    } else {
        Err(many + joined(found, ", "@))
    }
}

/// The only one of `found`, or a message that says why there is no such one.
fn take_only(found: Vec<String>, none: &str, many: &str) -> (r: Result<String, String>)
    ensures
        outcome(r) == only_one(texts(found@), none@, many@),
{
    if found.len() == 0 {
        Err(none.to_owned())
    } else if found.len() == 1 {
        assert(texts(found@)[0] == found@[0]@);
        Ok(found[0].clone())
    } else {
        let list: String = join(&found, ", ");
        Err(chain(many, list.as_str()))
    }
}

/// The UDID of the connected iPhone by the device list of `xctrace`.
pub open spec fn xctrace_choice(run: Result<Report, Seq<char>>) -> Result<Seq<char>, Seq<char>> {
    match output_or_message(
        run,
        "failed to run xcrun xctrace list devices: "@,
        "xcrun xctrace list devices failed: "@,
    ) {
        Ok(list) => only_one(
            listed_udids(lines_of(list), false),
            "no connected iPhone found in xctrace device list"@,
            "multiple connected iPhones found; pass --udid with one of: "@,
        ),
        Err(message) => Err(message),
    }
}

/// The UDID of the connected iPhone, from a run of `xcrun xctrace list devices`.
pub fn detect_with_xctrace(run: Result<CommandText, String>) -> (r: Result<String, String>)
    ensures
        outcome(r) == xctrace_choice(report_of(run)),
{
    let list: String = match output_text(
        run,
        "failed to run xcrun xctrace list devices: ",
        "xcrun xctrace list devices failed: ",
    ) {
        Ok(list) => list,
        Err(message) => return Err(message),
    };
    take_only(
        parse_xctrace_devices(list.as_str()),
        "no connected iPhone found in xctrace device list",
        "multiple connected iPhones found; pass --udid with one of: ",
    )
}

/// The CoreDevice identifier of the available iPhone by the device list of
/// `devicectl`.
pub open spec fn devicectl_choice(run: Result<Report, Seq<char>>) -> Result<Seq<char>, Seq<char>> {
    match output_or_message(
        run,
        "failed to run xcrun devicectl list devices: "@,
        "xcrun devicectl list devices failed: "@,
    ) {
        Ok(list) => only_one(
            listed_identifiers(lines_of(list)),
            "no available iPhone found in devicectl device list"@,
            "multiple connected iPhones found; pass --udid with one of these CoreDevice identifiers: "@,
        ),
        Err(message) => Err(message),
    }
}

/// The CoreDevice identifier of the available iPhone, from a run of
/// `xcrun devicectl list devices`.
pub fn detect_with_devicectl(run: Result<CommandText, String>) -> (r: Result<String, String>)
    ensures
        outcome(r) == devicectl_choice(report_of(run)),
{
    let list: String = match output_text(
        run,
        "failed to run xcrun devicectl list devices: ",
        "xcrun devicectl list devices failed: ",
    ) {
        Ok(list) => list,
        Err(message) => return Err(message),
    };
    take_only(
        parse_devicectl_devices(list.as_str()),
        "no available iPhone found in devicectl device list",
        "multiple connected iPhones found; pass --udid with one of these CoreDevice identifiers: ",
    )
}

/// The UDID of the device `identifier` by the details that `devicectl` gives.
pub open spec fn details_choice(
    identifier: Seq<char>,
    run: Result<Report, Seq<char>>,
) -> Result<Seq<char>, Seq<char>> {
    match output_or_message(
        run,
        "failed to run xcrun devicectl device info details: "@,
        "xcrun devicectl device info details failed: "@,
    ) {
        Ok(details) => match labelled_udid(lines_of(details)) {
            Some(udid) => Ok(udid),
            None => Err("devicectl did not report a UDID for "@ + identifier),
        },
        Err(message) => Err(message),
    }
}

/// The UDID of the device `identifier`, from a run of
/// `xcrun devicectl device info details`.
pub fn udid_for_coredevice_identifier(
    identifier: &str,
    run: Result<CommandText, String>,
) -> (r: Result<String, String>)
    ensures
        outcome(r) == details_choice(identifier@, report_of(run)),
{
    let details: String = match output_text(
        run,
        "failed to run xcrun devicectl device info details: ",
        "xcrun devicectl device info details failed: ",
    ) {
        Ok(details) => details,
        Err(message) => return Err(message),
    };
    match parse_device_details(details.as_str()) {
        Some(udid) => Ok(udid),
        None => Err(chain("devicectl did not report a UDID for ", identifier)),
    }
}

// ---------------------------------------------------------------------------
// The detection, run by run
// ---------------------------------------------------------------------------

/// A run of `xcrun` on the way to the UDID of the connected iPhone.
#[derive(Debug)]
pub enum DetectStep {
    /// List the devices with `devicectl`.
    ListWithDevicectl,
    /// Ask `devicectl` for the details of one device.
    Details { identifier: String },
    /// List the devices with `xctrace`.
    ListWithXctrace,
}

/// What follows a run.
#[derive(Debug)]
pub enum DetectNext {
    /// Run the next step.
    Run(DetectStep),
    /// `devicectl` gave no UDID, for the reason in `error`: run `xctrace`.
    FallBack { error: String },
    /// The detection ends with this result.
    Done(Result<String, String>),
}

/// What follows `step` once it was run with result `run`.
pub open spec fn follows(
    step: DetectStep,
    run: Result<Report, Seq<char>>,
    next: DetectNext,
) -> bool {
    match step {
        DetectStep::ListWithDevicectl => match devicectl_choice(run) {
            Ok(found) => next matches DetectNext::Run(DetectStep::Details { identifier })
                && identifier@ == found,
            Err(message) => next matches DetectNext::FallBack { error } && error@ == message,
        },
        DetectStep::Details { identifier } => match details_choice(identifier@, run) {
            Ok(udid) => next matches DetectNext::Done(Ok(found)) && found@ == udid,
            Err(message) => next matches DetectNext::FallBack { error } && error@ == message,
        },
        DetectStep::ListWithXctrace => next matches DetectNext::Done(result) && outcome(result)
            == xctrace_choice(run),
    }
}

impl DetectStep {
    /// The step that a detection begins with.
    pub fn first() -> (r: DetectStep)
        ensures
            r is ListWithDevicectl,
    {
        DetectStep::ListWithDevicectl
    }

    /// The arguments with which this step runs `xcrun`.
    pub fn arguments(&self) -> (r: Vec<String>)
        ensures
            texts(r@) == match *self {
                DetectStep::ListWithDevicectl => seq!["devicectl"@, "list"@, "devices"@],
                DetectStep::Details { identifier } => seq![
                    "devicectl"@,
                    "device"@,
                    "info"@,
                    "details"@,
                    "--device"@,
                    identifier@,
                ],
                DetectStep::ListWithXctrace => seq!["xctrace"@, "list"@, "devices"@],
            },
    {
        let mut arguments: Vec<String> = Vec::new();
        match self {
            DetectStep::ListWithDevicectl => {
                arguments.push("devicectl".to_owned());
                arguments.push("list".to_owned());
                arguments.push("devices".to_owned());
            },
            DetectStep::Details { identifier } => {
                arguments.push("devicectl".to_owned());
                arguments.push("device".to_owned());
                arguments.push("info".to_owned());
                arguments.push("details".to_owned());
                arguments.push("--device".to_owned());
                arguments.push(identifier.clone());
            },
            DetectStep::ListWithXctrace => {
                arguments.push("xctrace".to_owned());
                arguments.push("list".to_owned());
                arguments.push("devices".to_owned());
            },
        }
        arguments
    }
}

/// What follows `step` once it was run with result `run`.
pub fn after_step(step: DetectStep, run: Result<CommandText, String>) -> (r: DetectNext)
    ensures
        follows(step, report_of(run), r),
{
    match step {
        DetectStep::ListWithDevicectl => match detect_with_devicectl(run) {
            Ok(identifier) => DetectNext::Run(DetectStep::Details { identifier }),
            Err(error) => DetectNext::FallBack { error },
        },
        DetectStep::Details { identifier } => match udid_for_coredevice_identifier(
            identifier.as_str(),
            run,
        ) {
            Ok(udid) => DetectNext::Done(Ok(udid)),
            Err(error) => DetectNext::FallBack { error },
        },
        DetectStep::ListWithXctrace => DetectNext::Done(detect_with_xctrace(run)),
    }
}

/// What follows `step` in the detection of the connected iPhone, once it was run
/// with result `run`: `devicectl` is asked first, and `xctrace` where that gave
/// no UDID.
pub fn detect_connected_iphone_udid(step: DetectStep, run: Result<CommandOutput, String>) -> (r:
    DetectNext)
    ensures
        follows(step, raw_report_of(run), r),
        is_utf8(run) ==> follows(step, decoded_report_of(run), r),
{
    after_step(step, read_run(run))
}

// ---------------------------------------------------------------------------
// Laws
// ---------------------------------------------------------------------------

/// Whether `line`, trimmed, is a heading of the device list of `xctrace`.
pub open spec fn is_heading(line: Seq<char>) -> bool {
    trimmed(line) == "== Devices =="@ || "== "@.is_prefix_of(trimmed(line))
}

/// Whether the last heading at or above line `i` is that of physical devices and
/// line `i` is none itself; `in_devices` stands for a heading above the first
/// line.
pub open spec fn under_devices(lines: Seq<Seq<char>>, in_devices: bool, i: int) -> bool {
    ||| in_devices && forall|k: int| 0 <= k <= i ==> !is_heading(#[trigger] lines[k])
    ||| exists|j: int|
        {
            &&& 0 <= j < i
            &&& trimmed(#[trigger] lines[j]) == "== Devices =="@
            &&& forall|k: int| j < k <= i ==> !is_heading(#[trigger] lines[k])
        }
}

/// A UDID is listed exactly if an iPhone has it on a line under the heading of
/// physical devices: simulators and other sections never contribute.
pub proof fn law_only_physical_devices(lines: Seq<Seq<char>>, in_devices: bool, udid: Seq<char>)
    ensures
        listed_udids(lines, in_devices).contains(udid) <==> exists|i: int|
            0 <= i < lines.len() && under_devices(lines, in_devices, i) && udid_on_line(
                trimmed(#[trigger] lines[i]),
            ) == Some(udid),
    decreases lines.len(),
{
    if lines.len() > 0 {
        let rest = lines.drop_first();
        let line = trimmed(lines[0]);
        let inside = line == "== Devices =="@ || (in_devices && !is_heading(lines[0]));
        law_only_physical_devices(rest, inside, udid);
        assert forall|i: int| 0 < i < lines.len() implies under_devices(lines, in_devices, i)
            == #[trigger] under_devices(rest, inside, i - 1) by {
            lemma_under_devices_step(lines, in_devices, i);
        }
        let tail = listed_udids(rest, inside);
        if !is_heading(lines[0]) && in_devices && udid_on_line(line) is Some {
            assert(listed_udids(lines, in_devices) == seq![udid_on_line(line)->0] + tail);
            let all = listed_udids(lines, in_devices);
            if all.contains(udid) {
                let k = choose|k: int| 0 <= k < all.len() && all[k] == udid;
                if k > 0 {
                    assert(tail[k - 1] == udid);
                    assert(tail.contains(udid));
                } else {
                    assert(under_devices(lines, in_devices, 0));
                    assert(udid_on_line(trimmed(lines[0])) == Some(udid));
                }
            }
            if udid_on_line(line) == Some(udid) {
                assert(all[0] == udid);
            }
            if tail.contains(udid) {
                let k = choose|k: int| 0 <= k < tail.len() && tail[k] == udid;
                assert(all[k + 1] == udid);
            }
        } else {
            assert(listed_udids(lines, in_devices) == tail);
        }
        if tail.contains(udid) {
            let i = choose|i: int|
                0 <= i < rest.len() && under_devices(rest, inside, i) && udid_on_line(
                    trimmed(#[trigger] rest[i]),
                ) == Some(udid);
            assert(lines[i + 1] == rest[i]);
            assert(under_devices(rest, inside, (i + 1) - 1));
        }
        if exists|i: int|
            0 <= i < lines.len() && under_devices(lines, in_devices, i) && udid_on_line(
                trimmed(#[trigger] lines[i]),
            ) == Some(udid) {
            let i = choose|i: int|
                0 <= i < lines.len() && under_devices(lines, in_devices, i) && udid_on_line(
                    trimmed(#[trigger] lines[i]),
                ) == Some(udid);
            if i > 0 {
                assert(under_devices(rest, inside, i - 1));
                assert(rest[i - 1] == lines[i]);
            } else {
                assert(!is_heading(lines[0]) && in_devices);
            }
        }
    }
}

/// Standing under the heading of physical devices, seen from one line further
/// down.
proof fn lemma_under_devices_step(lines: Seq<Seq<char>>, in_devices: bool, i: int)
    requires
        0 < i < lines.len(),
    ensures
        under_devices(lines, in_devices, i) == under_devices(
            lines.drop_first(),
            trimmed(lines[0]) == "== Devices =="@ || (in_devices && !is_heading(lines[0])),
            i - 1,
        ),
{
    let rest = lines.drop_first();
    let inside = trimmed(lines[0]) == "== Devices =="@ || (in_devices && !is_heading(lines[0]));
    if under_devices(lines, in_devices, i) {
        if in_devices && forall|k: int| 0 <= k <= i ==> !is_heading(#[trigger] lines[k]) {
            assert(!is_heading(lines[0]));
            assert forall|k: int| 0 <= k <= i - 1 implies !is_heading(#[trigger] rest[k]) by {
                assert(rest[k] == lines[k + 1]);
            }
        } else {
            let j = choose|j: int|
                {
                    &&& 0 <= j < i
                    &&& trimmed(#[trigger] lines[j]) == "== Devices =="@
                    &&& forall|k: int| j < k <= i ==> !is_heading(#[trigger] lines[k])
                };
            assert forall|k: int| j - 1 < k <= i - 1 && 0 <= k implies !is_heading(
                #[trigger] rest[k],
            ) by {
                assert(rest[k] == lines[k + 1]);
            }
            if j > 0 {
                assert(rest[j - 1] == lines[j]);
            }
        }
    }
    if under_devices(rest, inside, i - 1) {
        if inside && forall|k: int| 0 <= k <= i - 1 ==> !is_heading(#[trigger] rest[k]) {
            assert forall|k: int| 0 < k <= i implies !is_heading(#[trigger] lines[k]) by {
                assert(rest[k - 1] == lines[k]);
            }
            if trimmed(lines[0]) != "== Devices =="@ {
                assert(!is_heading(lines[0]));
            }
        } else {
            let j = choose|j: int|
                {
                    &&& 0 <= j < i - 1
                    &&& trimmed(#[trigger] rest[j]) == "== Devices =="@
                    &&& forall|k: int| j < k <= i - 1 ==> !is_heading(#[trigger] rest[k])
                };
            assert(lines[j + 1] == rest[j]);
            assert forall|k: int| j + 1 < k <= i implies !is_heading(#[trigger] lines[k]) by {
                assert(rest[k - 1] == lines[k]);
            }
        }
    }
}

/// No device is chosen among several: a UDID is detected only where exactly one
/// was listed, and then it is that one.
pub proof fn law_no_choice_among_several(found: Seq<Seq<char>>, none: Seq<char>, many: Seq<char>)
    ensures
        only_one(found, none, many) is Ok <==> found.len() == 1,
        forall|one: Seq<char>|
            only_one(found, none, many) == Ok::<Seq<char>, Seq<char>>(one) ==> found == seq![one],
{
    assert forall|one: Seq<char>|
        only_one(found, none, many) == Ok::<Seq<char>, Seq<char>>(one) implies found == seq![
        one,
    ] by {
        assert(found =~= seq![one]);
    }
}

/// What a detection finds, by what its three runs give: the UDID that `devicectl`
/// reports, or, where it reports none, whatever `xctrace` gives.
pub open spec fn detected(
    list: Result<Report, Seq<char>>,
    details: Result<Report, Seq<char>>,
    fallback: Result<Report, Seq<char>>,
) -> Result<Seq<char>, Seq<char>> {
    match devicectl_choice(list) {
        Ok(identifier) => match details_choice(identifier, details) {
            Ok(udid) => Ok(udid),
            Err(_) => xctrace_choice(fallback),
        },
        Err(_) => xctrace_choice(fallback),
    }
}

/// The step that is run next, if one is.
pub open spec fn next_step(next: DetectNext) -> Option<DetectStep> {
    match next {
        DetectNext::Run(step) => Some(step),
        DetectNext::FallBack { .. } => Some(DetectStep::ListWithXctrace),
        DetectNext::Done(_) => None,
    }
}

/// Whether the detection ends here, with `value`.
pub open spec fn ends_with(next: DetectNext, value: Result<Seq<char>, Seq<char>>) -> bool {
    next matches DetectNext::Done(result) && outcome(result) == value
}

/// A detection that is followed from its first step to its end gives what
/// `detected` says, and ends after three runs at most.
pub proof fn law_detection_ends(
    list: Result<Report, Seq<char>>,
    after_list: DetectNext,
    details: Result<Report, Seq<char>>,
    after_details: DetectNext,
    fallback: Result<Report, Seq<char>>,
    after_fallback: DetectNext,
)
    requires
        follows(DetectStep::ListWithDevicectl, list, after_list),
        next_step(after_list) matches Some(DetectStep::Details { identifier }) ==> follows(
            DetectStep::Details { identifier },
            details,
            after_details,
        ),
        follows(DetectStep::ListWithXctrace, fallback, after_fallback),
    ensures
        match next_step(after_list) {
            Some(DetectStep::Details { .. }) => ends_with(
                after_details,
                detected(list, details, fallback),
            ) || (next_step(after_details) == Some(DetectStep::ListWithXctrace) && ends_with(
                after_fallback,
                detected(list, details, fallback),
            )),
            Some(DetectStep::ListWithXctrace) => ends_with(
                after_fallback,
                detected(list, details, fallback),
            ),
            _ => false,
        },
{
}

/// The interface that `rvictl` names is read back: of a line that ends in
/// `with interface ` and one word, the word is what is found, where the phrase
/// stands nowhere earlier on the line.
pub proof fn law_interface_is_read_back(before: Seq<char>, interface: Seq<char>)
    requires
        interface.len() > 0,
        forall|i: int|
            0 <= i < interface.len() ==> !crate::text::white_space(#[trigger] interface[i]),
        forall|at: int|
            0 <= at < before.len() ==> !crate::text::occurs_at(
                before + "with interface "@ + interface,
                "with interface "@,
                at,
            ),
    ensures
        interface_on_line(before + "with interface "@ + interface) == Some(interface),
{
    let phrase = "with interface "@;
    let line = before + phrase + interface;
    let at = before.len() as int;
    assert(line.subrange(at, at + phrase.len()) =~= phrase);
    assert(line.skip(at + phrase.len()) =~= interface);
    crate::text::lemma_after_first_at(line, phrase, at);
    crate::text::lemma_one_word(interface);
}

/// A capture interface that is found is a word: not empty, and without white
/// space.
pub proof fn law_interface_is_a_word(lines: Seq<Seq<char>>)
    ensures
        first_interface(lines) matches Some(interface) ==> interface.len() > 0 && forall|i: int|
            0 <= i < interface.len() ==> !crate::text::white_space(#[trigger] interface[i]),
    decreases lines.len(),
{
    if lines.len() > 0 {
        law_interface_is_a_word(lines.drop_first());
        if let Some(rest) = after_first(lines[0], "with interface "@) {
            crate::text::law_words_are_ink(rest);
        }
    }
}

/// Whether `s` is written with hexadecimal digits and dashes alone.
pub open spec fn written_in_hex(s: Seq<char>) -> bool {
    forall|i: int| 0 <= i < s.len() ==> "0123456789abcdefABCDEF-"@.contains(#[trigger] s[i])
}

/// A dash, as a predicate for `filter`.
pub open spec fn is_dash() -> spec_fn(char) -> bool {
    |c: char| c == '-'
}

/// Whether `s` has 36 characters, hexadecimal digits but for four dashes.
pub open spec fn has_identifier_form(s: Seq<char>) -> bool {
    s.len() == 36 && written_in_hex(s) && s.filter(is_dash()).len() == 4
}

/// The two ways to say which characters identifiers are written with.
proof fn lemma_written_in_hex(s: Seq<char>)
    ensures
        hex_and_dashes(s) <==> written_in_hex(s),
{
    reveal_strlit("0123456789abcdefABCDEF-");
    reveal_strlit("0123456789abcdefABCDEF");
    let digits = "0123456789abcdefABCDEF"@;
    let all = "0123456789abcdefABCDEF-"@;
    assert(all =~= digits.push('-'));
    assert forall|c: char| #[trigger] all.contains(c) <==> hex_digit(c) || c == '-' by {
        crate::text::law_hexadecimal_digits(c);
        if all.contains(c) {
            let i = choose|i: int| 0 <= i < all.len() && all[i] == c;
            if i < digits.len() {
                assert(digits[i] == c);
            }
        }
        if digits.contains(c) {
            let i = choose|i: int| 0 <= i < digits.len() && digits[i] == c;
            assert(all[i] == c);
        }
        if c == '-' {
            assert(all[digits.len() as int] == c);
        }
    }
    if hex_and_dashes(s) {
        assert forall|i: int| 0 <= i < s.len() implies all.contains(#[trigger] s[i]) by {
            assert(hex_digit(s[i]) || s[i] == '-');
        }
    }
    if written_in_hex(s) {
        assert forall|i: int| 0 <= i < s.len() implies hex_digit(#[trigger] s[i]) || s[i]
            == '-' by {
            assert(all.contains(s[i]));
        }
    }
}

/// Dashes, counted and picked out.
proof fn lemma_dashes(s: Seq<char>)
    ensures
        dashes(s) == s.filter(is_dash()).len(),
    decreases s.len(),
{
    reveal(Seq::filter);
    if s.len() > 0 {
        lemma_dashes(s.drop_last());
    }
}

/// The two ways to say what a CoreDevice identifier looks like.
proof fn lemma_identifier_form(s: Seq<char>)
    ensures
        is_coredevice_identifier(s) <==> has_identifier_form(s),
{
    lemma_written_in_hex(s);
    lemma_dashes(s);
}

/// A UDID has 24 characters or more, all of them hexadecimal digits or dashes,
/// and everything of that kind is taken for one; a CoreDevice identifier has 36,
/// four of them dashes.
pub proof fn law_forms_of_identifiers(value: &str, udid: bool, identifier: bool)
    requires
        call_ensures(looks_like_udid, (value,), udid),
        call_ensures(looks_like_coredevice_identifier, (value,), identifier),
    ensures
        udid <==> value@.len() >= 24 && written_in_hex(value@),
        identifier <==> has_identifier_form(value@),
{
    lemma_written_in_hex(value@);
    lemma_identifier_form(value@);
}

/// Where a character last stands.
proof fn lemma_last_index(front: Seq<char>, c: char, back: Seq<char>)
    requires
        forall|i: int| 0 <= i < back.len() ==> #[trigger] back[i] != c,
    ensures
        last_index(front + seq![c] + back, c) == Some(front.len() as int),
    decreases back.len(),
{
    let s = front + seq![c] + back;
    if back.len() == 0 {
        assert(s.last() == c);
    } else {
        assert(s.last() == back.last());
        assert(s.drop_last() =~= front + seq![c] + back.drop_last());
        lemma_last_index(front, c, back.drop_last());
    }
}

/// What the index of a character means.
proof fn lemma_index_found(s: Seq<char>, c: char)
    ensures
        last_index(s, c) matches Some(at) ==> 0 <= at < s.len() && s[at] == c && forall|i: int|
            at < i < s.len() ==> #[trigger] s[i] != c,
    decreases s.len(),
{
    if s.len() > 0 && s.last() != c {
        lemma_index_found(s.drop_last(), c);
        if let Some(at) = last_index(s.drop_last(), c) {
            assert forall|i: int| at < i < s.len() implies #[trigger] s[i] != c by {
                if i < s.len() - 1 {
                    assert(s.drop_last()[i] == s[i]);
                }
            }
        }
    }
}

/// Whether `value` stands in the last parentheses of `s`: behind an opening
/// parenthesis, without another one, and before the last closing one.
pub open spec fn in_last_parentheses(
    s: Seq<char>,
    front: Seq<char>,
    value: Seq<char>,
    back: Seq<char>,
) -> bool {
    &&& s == front + seq!['('] + value + seq![')'] + back
    &&& forall|i: int| 0 <= i < value.len() ==> #[trigger] value[i] != '('
    &&& forall|i: int| 0 <= i < back.len() ==> #[trigger] back[i] != ')'
}

/// What stands in the last parentheses is found.
proof fn lemma_parenthesized(s: Seq<char>, front: Seq<char>, value: Seq<char>, back: Seq<char>)
    requires
        in_last_parentheses(s, front, value, back),
    ensures
        last_parenthesized(s) == Some(value),
{
    let head = front + seq!['('] + value;
    assert(s =~= head + seq![')'] + back);
    lemma_last_index(head, ')', back);
    let end = head.len() as int;
    assert(s.take(end) =~= head);
    lemma_last_index(front, '(', value);
    assert(s.subrange(front.len() as int + 1, end) =~= value);
}

/// What is found stands in the last parentheses.
proof fn lemma_parenthesized_only(s: Seq<char>)
    ensures
        last_parenthesized(s) matches Some(value) ==> exists|front: Seq<char>, back: Seq<char>|
            in_last_parentheses(s, front, value, back),
{
    if let Some(value) = last_parenthesized(s) {
        lemma_index_found(s, ')');
        let end = last_index(s, ')')->0;
        lemma_index_found(s.take(end), '(');
        let start = last_index(s.take(end), '(')->0;
        let front = s.take(start);
        let back = s.skip(end + 1);
        assert(s.take(end)[start] == s[start]);
        assert(s =~= front + seq!['('] + value + seq![')'] + back);
        assert forall|i: int| 0 <= i < value.len() implies #[trigger] value[i] != '(' by {
            assert(s.take(end)[start + 1 + i] == value[i]);
        }
        assert forall|i: int| 0 <= i < back.len() implies #[trigger] back[i] != ')' by {
            assert(s[end + 1 + i] == back[i]);
        }
        assert(in_last_parentheses(s, front, value, back));
    }
}

/// The text in the last parentheses is given back as it is, and nothing else is.
pub proof fn law_last_parentheses(value: &str, inner: Option<&str>)
    requires
        call_ensures(extract_last_parenthesized, (value,), inner),
    ensures
        forall|front: Seq<char>, text: Seq<char>, back: Seq<char>|
            in_last_parentheses(value@, front, text, back) ==> (inner matches Some(found)
                && found@ == text),
        inner matches Some(found) ==> exists|front: Seq<char>, back: Seq<char>|
            in_last_parentheses(value@, front, found@, back),
{
    assert forall|front: Seq<char>, text: Seq<char>, back: Seq<char>|
        in_last_parentheses(value@, front, text, back) implies (inner matches Some(found) && found@
        == text) by {
        lemma_parenthesized(value@, front, text, back);
    }
    lemma_parenthesized_only(value@);
}

/// Whether `line` names no interface: behind the phrase, wherever it stands, is
/// nothing but white space.
pub open spec fn names_nothing(line: Seq<char>) -> bool {
    forall|front: Seq<char>, rest: Seq<char>, i: int|
        line == #[trigger] (front + "with interface "@ + rest) && 0 <= i < rest.len()
            ==> crate::text::white_space(#[trigger] rest[i])
}

/// Whether `line` names `word` as the interface: as the first word behind the
/// first place of the phrase.
pub open spec fn names(
    line: Seq<char>,
    front: Seq<char>,
    gap: Seq<char>,
    word: Seq<char>,
    tail: Seq<char>,
) -> bool {
    &&& line == front + "with interface "@ + (gap + word + tail)
    &&& forall|i: int|
        0 <= i < front.len() ==> #[trigger] line.subrange(i, i + "with interface "@.len())
            != "with interface "@
    &&& forall|i: int| 0 <= i < gap.len() ==> crate::text::white_space(#[trigger] gap[i])
    &&& word.len() > 0
    &&& forall|i: int| 0 <= i < word.len() ==> !crate::text::white_space(#[trigger] word[i])
    &&& tail.len() > 0 ==> crate::text::white_space(tail[0])
}

/// The interface that a line names is found.
proof fn lemma_named(
    line: Seq<char>,
    front: Seq<char>,
    gap: Seq<char>,
    word: Seq<char>,
    tail: Seq<char>,
)
    requires
        names(line, front, gap, word, tail),
    ensures
        interface_on_line(line) == Some(word),
{
    crate::text::law_rest_behind_the_first(front, "with interface "@, gap + word + tail);
    crate::text::law_first_word(gap, word, tail);
}

/// On a line that names none, none is found.
proof fn lemma_not_named(line: Seq<char>)
    requires
        names_nothing(line),
    ensures
        interface_on_line(line) is None,
{
    if let Some(rest) = after_first(line, "with interface "@) {
        crate::text::law_rest_stands_behind_the_needle(line, "with interface "@);
        let front = line.take(line.len() - "with interface "@.len() - rest.len());
        assert forall|i: int| 0 <= i < rest.len() implies crate::text::white_space(
            #[trigger] rest[i],
        ) by {
            assert(line == front + "with interface "@ + rest);
        }
        crate::text::law_blank_text_has_no_words(rest);
    }
}

/// The first line that names an interface decides.
proof fn lemma_first_interface(lines: Seq<Seq<char>>, i: int)
    requires
        0 <= i <= lines.len(),
        forall|j: int| 0 <= j < i ==> interface_on_line(#[trigger] lines[j]) is None,
        i < lines.len() ==> interface_on_line(lines[i]) is Some,
    ensures
        first_interface(lines) == if i < lines.len() {
            interface_on_line(lines[i])
        } else {
            None
        },
    decreases lines.len(),
{
    if i > 0 {
        let rest = lines.drop_first();
        assert(interface_on_line(lines[0]) is None);
        assert forall|j: int| 0 <= j < i - 1 implies interface_on_line(
            #[trigger] rest[j],
        ) is None by {
            assert(rest[j] == lines[j + 1]);
        }
        lemma_first_interface(rest, i - 1);
    }
}

/// The interface is the one that the first line that names any names: the first
/// word behind `with interface `, wherever that line and that word stand.
pub proof fn law_first_named_interface(
    output: &str,
    interface: Option<String>,
    i: int,
    front: Seq<char>,
    gap: Seq<char>,
    word: Seq<char>,
    tail: Seq<char>,
)
    requires
        call_ensures(parse_rvictl_interface, (output,), interface),
        0 <= i < lines_of(output@).len(),
        names(lines_of(output@)[i], front, gap, word, tail),
        forall|j: int| 0 <= j < i ==> names_nothing(#[trigger] lines_of(output@)[j]),
    ensures
        interface matches Some(found) && found@ == word,
{
    let lines = lines_of(output@);
    lemma_named(lines[i], front, gap, word, tail);
    assert forall|j: int| 0 <= j < i implies interface_on_line(#[trigger] lines[j]) is None by {
        lemma_not_named(lines[j]);
    }
    lemma_first_interface(lines, i);
}

/// Where no line names an interface, none is found.
pub proof fn law_no_named_interface(output: &str, interface: Option<String>)
    requires
        call_ensures(parse_rvictl_interface, (output,), interface),
        forall|j: int|
            0 <= j < lines_of(output@).len() ==> names_nothing(#[trigger] lines_of(output@)[j]),
    ensures
        interface is None,
{
    let lines = lines_of(output@);
    assert forall|j: int| 0 <= j < lines.len() implies interface_on_line(
        #[trigger] lines[j],
    ) is None by {
        lemma_not_named(lines[j]);
    }
    lemma_first_interface(lines, lines.len() as int);
}

/// Whether `line` speaks of `word`.
pub open spec fn mentions(line: Seq<char>, word: Seq<char>) -> bool {
    exists|front: Seq<char>, back: Seq<char>| line == #[trigger] (front + word + back)
}

/// The list of `devicectl`, one line longer.
proof fn lemma_identifiers_push(lines: Seq<Seq<char>>, line: Seq<char>)
    ensures
        listed_identifiers(lines.push(line)) == match identifier_on_line(line) {
            Some(identifier) => listed_identifiers(lines).push(identifier),
            None => listed_identifiers(lines),
        },
    decreases lines.len(),
{
    let longer = lines.push(line);
    if lines.len() == 0 {
        assert(longer.drop_first() =~= lines);
        assert(listed_identifiers(lines) =~= seq![]);
        assert(listed_identifiers(longer) =~= match identifier_on_line(line) {
            Some(identifier) => listed_identifiers(lines).push(identifier),
            None => listed_identifiers(lines),
        });
    } else {
        let rest = lines.drop_first();
        assert(longer.drop_first() =~= rest.push(line));
        assert(longer[0] == lines[0]);
        lemma_identifiers_push(rest, line);
        assert(listed_identifiers(longer) =~= match identifier_on_line(line) {
            Some(identifier) => listed_identifiers(lines).push(identifier),
            None => listed_identifiers(lines),
        });
    }
}

/// The first word of the right form is the identifier.
proof fn lemma_first_identifier(words: Seq<Seq<char>>, k: int)
    requires
        0 <= k <= words.len(),
        forall|j: int| 0 <= j < k ==> !has_identifier_form(#[trigger] words[j]),
        k < words.len() ==> has_identifier_form(words[k]),
    ensures
        first_identifier(words) == if k < words.len() {
            Some(words[k])
        } else {
            None
        },
    decreases words.len(),
{
    if words.len() > 0 {
        lemma_identifier_form(words[0]);
        if k > 0 {
            let rest = words.drop_first();
            assert(!has_identifier_form(words[0]));
            assert forall|j: int| 0 <= j < k - 1 implies !has_identifier_form(
                #[trigger] rest[j],
            ) by {
                assert(rest[j] == words[j + 1]);
            }
            lemma_first_identifier(rest, k - 1);
        }
    }
}

/// A line of `devicectl` that speaks of an iPhone and of something available adds
/// one identifier to the list: its first word of the form of one, in whatever
/// column that stands. Other identifiers stay as they were.
pub proof fn law_available_iphone_is_listed(
    output: &str,
    longer: &str,
    listed: Vec<String>,
    listed_then: Vec<String>,
    line: Seq<char>,
    k: int,
)
    requires
        call_ensures(parse_devicectl_devices, (output,), listed),
        call_ensures(parse_devicectl_devices, (longer,), listed_then),
        lines_of(longer@) == lines_of(output@).push(line),
        mentions(line, "iPhone"@),
        mentions(line, "available"@),
        0 <= k < words_of(line).len(),
        has_identifier_form(words_of(line)[k]),
        forall|j: int| 0 <= j < k ==> !has_identifier_form(#[trigger] words_of(line)[j]),
    ensures
        texts(listed_then@) == texts(listed@).push(words_of(line)[k]),
{
    crate::text::law_occurrence(line, "iPhone"@);
    crate::text::law_occurrence(line, "available"@);
    lemma_first_identifier(words_of(line), k);
    lemma_identifiers_push(lines_of(output@), line);
}

/// A line of `devicectl` adds nothing to the list where it speaks of no iPhone or
/// of nothing available, or where no word of it has the form of an identifier.
pub proof fn law_other_lines_list_no_identifier(
    output: &str,
    longer: &str,
    listed: Vec<String>,
    listed_then: Vec<String>,
    line: Seq<char>,
)
    requires
        call_ensures(parse_devicectl_devices, (output,), listed),
        call_ensures(parse_devicectl_devices, (longer,), listed_then),
        lines_of(longer@) == lines_of(output@).push(line),
        !mentions(line, "iPhone"@) || !mentions(line, "available"@) || forall|k: int|
            0 <= k < words_of(line).len() ==> !has_identifier_form(#[trigger] words_of(line)[k]),
    ensures
        texts(listed_then@) == texts(listed@),
{
    crate::text::law_occurrence(line, "iPhone"@);
    crate::text::law_occurrence(line, "available"@);
    lemma_identifiers_push(lines_of(output@), line);
    if mentions(line, "iPhone"@) && mentions(line, "available"@) {
        lemma_first_identifier(words_of(line), words_of(line).len() as int);
    }
}

/// An output without lines lists no device, in either list.
pub proof fn law_empty_lists(output: &str, identifiers: Vec<String>, udids: Vec<String>)
    requires
        call_ensures(parse_devicectl_devices, (output,), identifiers),
        call_ensures(parse_xctrace_devices, (output,), udids),
        lines_of(output@).len() == 0,
    ensures
        identifiers@.len() == 0,
        udids@.len() == 0,
{
    assert(texts(identifiers@).len() == identifiers@.len());
    assert(texts(udids@).len() == udids@.len());
}

/// The list of `xctrace`, one line longer.
proof fn lemma_udids_push(lines: Seq<Seq<char>>, in_devices: bool, line: Seq<char>)
    ensures
        listed_udids(lines.push(line), in_devices) == if under_devices(
            lines.push(line),
            in_devices,
            lines.len() as int,
        ) && udid_on_line(trimmed(line)) is Some {
            listed_udids(lines, in_devices).push(udid_on_line(trimmed(line))->0)
        } else {
            listed_udids(lines, in_devices)
        },
    decreases lines.len(),
{
    let longer = lines.push(line);
    let udid = udid_on_line(trimmed(line));
    if lines.len() == 0 {
        assert(longer.drop_first() =~= lines);
        assert(listed_udids(lines, true) =~= seq![] && listed_udids(lines, false) =~= seq![]);
        assert(longer[0] == line);
        assert(under_devices(longer, in_devices, 0) == (in_devices && !is_heading(line)));
        assert(listed_udids(longer, in_devices) =~= if under_devices(longer, in_devices, 0)
            && udid is Some {
            seq![udid->0]
        } else {
            seq![]
        });
        assert(listed_udids(lines, in_devices).push(udid->0) =~= seq![udid->0]);
    } else {
        let rest = lines.drop_first();
        let inside = trimmed(lines[0]) == "== Devices =="@ || (in_devices && !is_heading(
            lines[0],
        ));
        assert(longer.drop_first() =~= rest.push(line));
        assert(longer[0] == lines[0]);
        lemma_udids_push(rest, inside, line);
        lemma_under_devices_step(longer, in_devices, lines.len() as int);
        let under = under_devices(longer, in_devices, lines.len() as int);
        assert(under == under_devices(rest.push(line), inside, rest.len() as int));
        if !is_heading(lines[0]) && in_devices && udid_on_line(trimmed(lines[0])) is Some {
            let own = seq![udid_on_line(trimmed(lines[0]))->0];
            assert(listed_udids(lines, in_devices) == own + listed_udids(rest, inside));
            assert(listed_udids(longer, in_devices) == own + listed_udids(
                rest.push(line),
                inside,
            ));
            if under && udid is Some {
                assert(own + listed_udids(rest, inside).push(udid->0) =~= (own + listed_udids(
                    rest,
                    inside,
                )).push(udid->0));
            }
        } else {
            assert(listed_udids(lines, in_devices) == listed_udids(rest, inside));
            assert(listed_udids(longer, in_devices) == listed_udids(rest.push(line), inside));
        }
    }
}

/// Whether a line behind `lines` stands under the heading of physical devices:
/// that heading stands above it, and no other one in between. Headings begin with
/// two equals signs and a space.
pub open spec fn heads_devices(lines: Seq<Seq<char>>, j: int) -> bool {
    &&& 0 <= j < lines.len()
    &&& trimmed(lines[j]) == "== Devices =="@
    &&& forall|k: int|
        j < k < lines.len() ==> !"== "@.is_prefix_of(trimmed(#[trigger] lines[k]))
}

/// Being a heading, without a word on which.
proof fn lemma_heading(line: Seq<char>)
    ensures
        is_heading(line) <==> "== "@.is_prefix_of(trimmed(line)),
{
    reveal_strlit("== Devices ==");
    reveal_strlit("== ");
    assert("== Devices =="@.subrange(0, 3) =~= "== "@);
}

/// A line of `xctrace` under the heading of physical devices that speaks of an
/// iPhone, with a UDID in its last parentheses, adds that UDID to the list. Other
/// UDIDs stay as they were.
pub proof fn law_physical_iphone_is_listed(
    output: &str,
    longer: &str,
    listed: Vec<String>,
    listed_then: Vec<String>,
    line: Seq<char>,
    j: int,
    front: Seq<char>,
    udid: Seq<char>,
    back: Seq<char>,
)
    requires
        call_ensures(parse_xctrace_devices, (output,), listed),
        call_ensures(parse_xctrace_devices, (longer,), listed_then),
        lines_of(longer@) == lines_of(output@).push(line),
        heads_devices(lines_of(output@), j),
        !"== "@.is_prefix_of(trimmed(line)),
        mentions(trimmed(line), "iPhone"@),
        in_last_parentheses(trimmed(line), front, udid, back),
        udid.len() >= 24,
        written_in_hex(udid),
    ensures
        texts(listed_then@) == texts(listed@).push(udid),
{
    let lines = lines_of(output@);
    let all = lines.push(line);
    crate::text::law_occurrence(trimmed(line), "iPhone"@);
    lemma_parenthesized(trimmed(line), front, udid, back);
    lemma_written_in_hex(udid);
    lemma_udids_push(lines, false, line);
    assert(all[j] == lines[j]);
    assert forall|k: int| j < k <= lines.len() implies !is_heading(#[trigger] all[k]) by {
        lemma_heading(all[k]);
        if k < lines.len() {
            assert(all[k] == lines[k]);
        }
    }
    assert(under_devices(all, false, lines.len() as int));
}

/// A line of `xctrace` adds nothing to the list where it is a heading or stands
/// under none of physical devices, where it speaks of no iPhone, or where what
/// stands in its last parentheses is no UDID.
pub proof fn law_other_lines_list_no_udid(
    output: &str,
    longer: &str,
    listed: Vec<String>,
    listed_then: Vec<String>,
    line: Seq<char>,
)
    requires
        call_ensures(parse_xctrace_devices, (output,), listed),
        call_ensures(parse_xctrace_devices, (longer,), listed_then),
        lines_of(longer@) == lines_of(output@).push(line),
        "== "@.is_prefix_of(trimmed(line)) || (forall|j: int|
            !#[trigger] heads_devices(lines_of(output@), j)) || !mentions(trimmed(line), "iPhone"@)
            || (forall|front: Seq<char>, value: Seq<char>, back: Seq<char>|
            in_last_parentheses(trimmed(line), front, value, back) ==> !(value.len() >= 24
                && written_in_hex(value))),
    ensures
        texts(listed_then@) == texts(listed@),
{
    let lines = lines_of(output@);
    let all = lines.push(line);
    crate::text::law_occurrence(trimmed(line), "iPhone"@);
    lemma_parenthesized_only(trimmed(line));
    lemma_udids_push(lines, false, line);
    lemma_heading(line);
    if under_devices(all, false, lines.len() as int) {
        let j = choose|j: int|
            {
                &&& 0 <= j < lines.len()
                &&& trimmed(#[trigger] all[j]) == "== Devices =="@
                &&& forall|k: int| j < k <= lines.len() ==> !is_heading(#[trigger] all[k])
            };
        assert(all[lines.len() as int] == line);
        assert(all[j] == lines[j]);
        assert forall|k: int| j < k < lines.len() implies !"== "@.is_prefix_of(
            trimmed(#[trigger] lines[k]),
        ) by {
            assert(all[k] == lines[k]);
            lemma_heading(all[k]);
        }
        assert(heads_devices(lines, j));
        if let Some(udid) = udid_on_line(trimmed(line)) {
            lemma_written_in_hex(udid);
            let (front, back) = choose|front: Seq<char>, back: Seq<char>|
                in_last_parentheses(trimmed(line), front, udid, back);
            assert(in_last_parentheses(trimmed(line), front, udid, back));
        }
    }
}

/// The UDID of a device is what follows the label on the first line that, without
/// the white space around it, begins with the label.
pub proof fn law_labelled_udid_is_found(
    output: &str,
    found: Option<String>,
    i: int,
    udid: Seq<char>,
)
    requires
        call_ensures(parse_device_details, (output,), found),
        0 <= i < lines_of(output@).len(),
        trimmed(lines_of(output@)[i]) == "\u{2022} udid: "@ + udid,
        forall|j: int|
            0 <= j < i ==> !"\u{2022} udid: "@.is_prefix_of(
                trimmed(#[trigger] lines_of(output@)[j]),
            ),
    ensures
        found matches Some(text) && text@ == udid,
{
    crate::text::law_prefix_is_taken_off("\u{2022} udid: "@, udid, udid);
    lemma_labelled_udid(lines_of(output@), i);
}

/// Where no line begins with the label, no UDID is found.
pub proof fn law_no_label_no_udid(output: &str, found: Option<String>)
    requires
        call_ensures(parse_device_details, (output,), found),
        forall|j: int|
            0 <= j < lines_of(output@).len() ==> !"\u{2022} udid: "@.is_prefix_of(
                trimmed(#[trigger] lines_of(output@)[j]),
            ),
    ensures
        found is None,
{
    lemma_labelled_udid(lines_of(output@), lines_of(output@).len() as int);
}

/// The first labelled line decides.
proof fn lemma_labelled_udid(lines: Seq<Seq<char>>, i: int)
    requires
        0 <= i <= lines.len(),
        forall|j: int|
            0 <= j < i ==> !"\u{2022} udid: "@.is_prefix_of(trimmed(#[trigger] lines[j])),
        i < lines.len() ==> without_prefix(trimmed(lines[i]), "\u{2022} udid: "@) is Some,
    ensures
        labelled_udid(lines) == if i < lines.len() {
            without_prefix(trimmed(lines[i]), "\u{2022} udid: "@)
        } else {
            None
        },
    decreases lines.len(),
{
    if i > 0 {
        let rest = lines.drop_first();
        assert(!"\u{2022} udid: "@.is_prefix_of(trimmed(lines[0])));
        assert forall|j: int| 0 <= j < i - 1 implies !"\u{2022} udid: "@.is_prefix_of(
            trimmed(#[trigger] rest[j]),
        ) by {
            assert(rest[j] == lines[j + 1]);
        }
        lemma_labelled_udid(rest, i - 1);
    }
}

/// The one device in the list of `xctrace` is detected; with none in it or with
/// several, detection fails with a message that, for several, names them all.
pub proof fn law_detection_with_xctrace(
    output: CommandText,
    reason: String,
    list: &str,
    listed: Vec<String>,
    detected: Result<String, String>,
    missing: Result<String, String>,
)
    requires
        list@ == output.stdout@,
        call_ensures(parse_xctrace_devices, (list,), listed),
        call_ensures(detect_with_xctrace, (Ok(output),), detected),
        call_ensures(detect_with_xctrace, (Err(reason),), missing),
    ensures
        output.success && listed@.len() == 1 ==> (detected matches Ok(udid) && udid@
            == listed@[0]@),
        output.success && listed@.len() == 0 ==> (detected matches Err(message) && message@
            == "no connected iPhone found in xctrace device list"@),
        output.success && listed@.len() > 1 ==> (detected matches Err(message) && message@
            == "multiple connected iPhones found; pass --udid with one of: "@ + joined(
            texts(listed@),
            ", "@,
        )),
        !output.success ==> (detected matches Err(message) && message@
            == "xcrun xctrace list devices failed: "@ + output.stderr@),
        missing matches Err(message) && message@ == "failed to run xcrun xctrace list devices: "@
            + reason@,
{
    assert(texts(listed@).len() == listed@.len());
    if listed@.len() == 1 {
        assert(texts(listed@)[0] == listed@[0]@);
    }
}

/// The one device in the list of `devicectl` is chosen; with none in it or with
/// several, the choice fails with a message that, for several, names them all.
pub proof fn law_detection_with_devicectl(
    output: CommandText,
    reason: String,
    list: &str,
    listed: Vec<String>,
    chosen: Result<String, String>,
    missing: Result<String, String>,
)
    requires
        list@ == output.stdout@,
        call_ensures(parse_devicectl_devices, (list,), listed),
        call_ensures(detect_with_devicectl, (Ok(output),), chosen),
        call_ensures(detect_with_devicectl, (Err(reason),), missing),
    ensures
        output.success && listed@.len() == 1 ==> (chosen matches Ok(identifier) && identifier@
            == listed@[0]@),
        output.success && listed@.len() == 0 ==> (chosen matches Err(message) && message@
            == "no available iPhone found in devicectl device list"@),
        output.success && listed@.len() > 1 ==> (chosen matches Err(message) && message@
            == "multiple connected iPhones found; pass --udid with one of these CoreDevice identifiers: "@
            + joined(texts(listed@), ", "@)),
        !output.success ==> (chosen matches Err(message) && message@
            == "xcrun devicectl list devices failed: "@ + output.stderr@),
        missing matches Err(message) && message@ == "failed to run xcrun devicectl list devices: "@
            + reason@,
{
    assert(texts(listed@).len() == listed@.len());
    if listed@.len() == 1 {
        assert(texts(listed@)[0] == listed@[0]@);
    }
}

/// The details of a device give its UDID, or a message that names the device.
pub proof fn law_detection_by_details(
    identifier: &str,
    output: CommandText,
    reason: String,
    details: &str,
    labelled: Option<String>,
    found: Result<String, String>,
    missing: Result<String, String>,
)
    requires
        details@ == output.stdout@,
        call_ensures(parse_device_details, (details,), labelled),
        call_ensures(udid_for_coredevice_identifier, (identifier, Ok(output)), found),
        call_ensures(udid_for_coredevice_identifier, (identifier, Err(reason)), missing),
    ensures
        output.success && labelled is Some ==> (found matches Ok(udid) && udid@
            == labelled->0@),
        output.success && labelled is None ==> (found matches Err(message) && message@
            == "devicectl did not report a UDID for "@ + identifier@),
        !output.success ==> (found matches Err(message) && message@
            == "xcrun devicectl device info details failed: "@ + output.stderr@),
        missing matches Err(message) && message@
            == "failed to run xcrun devicectl device info details: "@ + reason@,
{
}

/// Detection begins with the list of `devicectl`. The device that it gives is the
/// one whose details are asked for, and the UDID in these ends the detection; each
/// failure of `devicectl` leads to `xctrace`, with its message, and whatever
/// `xctrace` gives ends the detection.
pub proof fn law_course_of_the_detection(
    first: DetectStep,
    run: Result<CommandOutput, String>,
    text: Result<CommandText, String>,
    asked: String,
    identifier: &str,
    by_devicectl: Result<String, String>,
    by_details: Result<String, String>,
    by_xctrace: Result<String, String>,
    after_list: DetectNext,
    after_details: DetectNext,
    after_xctrace: DetectNext,
)
    requires
        identifier@ == asked@,
        call_ensures(DetectStep::first, (), first),
        call_ensures(read_run, (run,), text),
        call_ensures(detect_with_devicectl, (text,), by_devicectl),
        call_ensures(udid_for_coredevice_identifier, (identifier, text), by_details),
        call_ensures(detect_with_xctrace, (text,), by_xctrace),
        call_ensures(
            detect_connected_iphone_udid,
            (DetectStep::ListWithDevicectl, run),
            after_list,
        ),
        call_ensures(
            detect_connected_iphone_udid,
            (DetectStep::Details { identifier: asked }, run),
            after_details,
        ),
        call_ensures(
            detect_connected_iphone_udid,
            (DetectStep::ListWithXctrace, run),
            after_xctrace,
        ),
    ensures
        first is ListWithDevicectl,
        by_devicectl matches Ok(found) ==> (after_list matches DetectNext::Run(
            DetectStep::Details { identifier },
        ) && identifier@ == found@),
        by_devicectl matches Err(message) ==> (after_list matches DetectNext::FallBack { error }
            && error@ == message@),
        by_details matches Ok(found) ==> (after_details matches DetectNext::Done(Ok(udid)) && udid@
            == found@),
        by_details matches Err(message) ==> (after_details matches DetectNext::FallBack { error }
            && error@ == message@),
        by_xctrace matches Ok(found) ==> (after_xctrace matches DetectNext::Done(Ok(udid)) && udid@
            == found@),
        by_xctrace matches Err(message) ==> (after_xctrace matches DetectNext::Done(Err(error))
            && error@ == message@),
{
    assert(outcome(by_devicectl) == devicectl_choice(raw_report_of(run)));
    assert(outcome(by_details) == details_choice(asked@, raw_report_of(run)));
    assert(outcome(by_xctrace) == xctrace_choice(raw_report_of(run)));
}

/// The details are asked for with the identifier as the last of the arguments.
pub proof fn law_details_name_the_device(
    asked: String,
    arguments: Vec<String>,
    with_devicectl: Vec<String>,
    with_xctrace: Vec<String>,
)
    requires
        call_ensures(
            DetectStep::arguments,
            (&DetectStep::Details { identifier: asked },),
            arguments,
        ),
        call_ensures(DetectStep::arguments, (&DetectStep::ListWithDevicectl,), with_devicectl),
        call_ensures(DetectStep::arguments, (&DetectStep::ListWithXctrace,), with_xctrace),
    ensures
        texts(arguments@) == seq![
            "devicectl"@,
            "device"@,
            "info"@,
            "details"@,
            "--device"@,
            asked@,
        ],
        texts(with_devicectl@) == seq!["devicectl"@, "list"@, "devices"@],
        texts(with_xctrace@) == seq!["xctrace"@, "list"@, "devices"@],
{
}

} // verus!
