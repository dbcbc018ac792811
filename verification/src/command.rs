//! What a command left behind when it ended.

use vstd::prelude::*;
#[allow(unused_imports)]
use vstd::utf8::{decode_utf8, valid_utf8};

use crate::text::{chain, from_utf8_lossy};
#[allow(unused_imports)]
use crate::text::lossy_text;

verus! {

/// The output of a command that was run, in bytes.
#[derive(Debug)]
pub struct CommandOutput {
    /// Whether the command reported success.
    pub success: bool,
    pub stdout: Vec<u8>,
    pub stderr: Vec<u8>,
}

/// The output of a command that was run, as text.
#[derive(Debug)]
pub struct CommandText {
    /// Whether the command reported success.
    pub success: bool,
    pub stdout: String,
    pub stderr: String,
}

/// What a command reported and printed.
pub struct Report {
    pub success: bool,
    pub stdout: Seq<char>,
    pub stderr: Seq<char>,
}

impl View for CommandText {
    type V = Report;

    open spec fn view(&self) -> Report {
        Report { success: self.success, stdout: self.stdout@, stderr: self.stderr@ }
    }
}

impl View for CommandOutput {
    type V = Report;

    open spec fn view(&self) -> Report {
        Report {
            success: self.success,
            stdout: lossy_text(self.stdout@),
            stderr: lossy_text(self.stderr@),
        }
    }
}

impl CommandOutput {
    /// The output, read as UTF-8.
    pub fn text(&self) -> (r: CommandText)
        ensures
            r@ == self@,
            r.success == self.success,
            valid_utf8(self.stdout@) ==> r.stdout@ == decode_utf8(self.stdout@),
            valid_utf8(self.stderr@) ==> r.stderr@ == decode_utf8(self.stderr@),
    {
        CommandText {
            success: self.success,
            stdout: from_utf8_lossy(self.stdout.as_slice()),
            stderr: from_utf8_lossy(self.stderr.as_slice()),
        }
    }
}

/// The report of a command, or why it could not be run.
pub open spec fn report_of(run: Result<CommandText, String>) -> Result<Report, Seq<char>> {
    match run {
        Ok(output) => Ok(output@),
        Err(reason) => Err(reason@),
    }
}

/// The report of a command whose output is in bytes, or why it could not be run.
pub open spec fn raw_report_of(run: Result<CommandOutput, String>) -> Result<Report, Seq<char>> {
    match run {
        Ok(output) => Ok(output@),
        Err(reason) => Err(reason@),
    }
}

/// Whether all that a command printed is valid UTF-8.
pub open spec fn is_utf8(run: Result<CommandOutput, String>) -> bool {
    match run {
        Ok(output) => valid_utf8(output.stdout@) && valid_utf8(output.stderr@),
        Err(_) => true,
    }
}

/// The report of a command that printed valid UTF-8, or why it could not be run.
pub open spec fn decoded_report_of(run: Result<CommandOutput, String>) -> Result<Report, Seq<char>> {
    match run {
        Ok(output) => Ok(
            Report {
                success: output.success,
                stdout: decode_utf8(output.stdout@),
                stderr: decode_utf8(output.stderr@),
            },
        ),
        Err(reason) => Err(reason@),
    }
}

/// The output of a run, read as UTF-8.
pub fn read_run(run: Result<CommandOutput, String>) -> (r: Result<CommandText, String>)
    ensures
        report_of(r) == raw_report_of(run),
        is_utf8(run) ==> report_of(r) == decoded_report_of(run),
{
    match run {
        Ok(output) => Ok(output.text()),
        Err(reason) => Err(reason),
    }
}

/// The views of a result made of strings.
pub open spec fn outcome(r: Result<String, String>) -> Result<Seq<char>, Seq<char>> {
    match r {
        Ok(value) => Ok(value@),
        Err(message) => Err(message@),
    }
}

/// The standard output of a command that succeeded; else a message: `not_run` and
/// the reason where the command could not be run, `failed` and the command's
/// error output where it was run in vain.
pub open spec fn output_or_message(
    run: Result<Report, Seq<char>>,
    not_run: Seq<char>,
    failed: Seq<char>,
) -> Result<Seq<char>, Seq<char>> {
    match run {
        Err(reason) => Err(not_run + reason),
        Ok(report) => if report.success {
            Ok(report.stdout)
        } else {
            Err(failed + report.stderr)
        },
    }
}

/// The standard output of a command that succeeded, or a message that says why
/// there is none.
pub fn output_text(run: Result<CommandText, String>, not_run: &str, failed: &str) -> (r: Result<
    String,
    String,
>)
    ensures
        outcome(r) == output_or_message(report_of(run), not_run@, failed@),
{
    match run {
        Err(reason) => Err(chain(not_run, reason.as_str())),
        Ok(output) => if output.success {
            Ok(output.stdout)
        } else {
            Err(chain(failed, output.stderr.as_str()))
        },
    }
}

// ---------------------------------------------------------------------------
// Laws
// ---------------------------------------------------------------------------

/// A command that succeeded gives its output, whatever it wrote besides; one that
/// failed gives the message for that and its error output; one that could not be
/// run gives the message for that and the reason.
pub proof fn law_output_or_message(
    output: CommandText,
    reason: String,
    not_run: &str,
    failed: &str,
    ended: Result<String, String>,
    missing: Result<String, String>,
)
    requires
        call_ensures(output_text, (Ok(output), not_run, failed), ended),
        call_ensures(output_text, (Err(reason), not_run, failed), missing),
    ensures
        output.success ==> (ended matches Ok(text) && text@ == output.stdout@),
        !output.success ==> (ended matches Err(message) && message@ == failed@ + output.stderr@),
        missing matches Err(message) && message@ == not_run@ + reason@,
{
}

/// Reading a run keeps whether it succeeded, which stream is which, and the
/// reason where it could not be run; text in UTF-8 is read as it was written.
pub proof fn law_reading_keeps_the_run(
    output: CommandOutput,
    reason: String,
    ended: Result<CommandText, String>,
    missing: Result<CommandText, String>,
)
    requires
        call_ensures(read_run, (Ok(output),), ended),
        call_ensures(read_run, (Err(reason),), missing),
    ensures
        ended matches Ok(text) && text.success == output.success,
        valid_utf8(output.stdout@) && valid_utf8(output.stderr@) ==> ended->Ok_0.stdout@
            == decode_utf8(output.stdout@) && ended->Ok_0.stderr@ == decode_utf8(output.stderr@),
        missing matches Err(text) && text@ == reason@,
{
    assert(report_of(ended)->Ok_0.success == output.success);
    assert(report_of(missing)->Err_0 == reason@);
}

} // verus!
