//! The log lines that are kept in memory, and what is made of them.

use vstd::prelude::*;
#[allow(unused_imports)]
use vstd::utf8::{decode_utf8, valid_utf8};

use crate::text::{from_utf8_lossy, join, lines};
#[allow(unused_imports)]
use crate::text::{joined, lines_of, lossy_text, strs, texts};

verus! {

/// The number of lines that are kept; older ones are dropped.
pub const LOG_LIMIT: usize = 100000;

/// What is kept of the lines of a log: all of them up to the limit, and the most
/// recent ones, as many as the limit allows, above it.
pub open spec fn retained(lines: Seq<Seq<char>>) -> Seq<Seq<char>> {
    if lines.len() > LOG_LIMIT {
        lines.skip(lines.len() - LOG_LIMIT)
    } else {
        lines
    }
}

/// The most recent lines of the log, as many as the limit allows.
#[derive(Debug)]
pub struct VecWriter {
    lines: Vec<String>,
}

impl View for VecWriter {
    type V = Seq<Seq<char>>;

    /// The lines, oldest first.
    closed spec fn view(&self) -> Seq<Seq<char>> {
        texts(self.lines@)
    }
}

impl VecWriter {
    #[verifier::type_invariant]
    spec fn within_limit(self) -> bool {
        self.lines@.len() <= LOG_LIMIT
    }

    /// An empty log.
    pub fn new() -> (r: VecWriter)
        ensures
            r@ == Seq::<Seq<char>>::empty(),
    {
        let r: VecWriter = VecWriter { lines: Vec::new() };
        assert(r@ =~= Seq::<Seq<char>>::empty());
        r
    }

    /// The lines, oldest first.
    pub fn lines(&self) -> (r: &Vec<String>)
        ensures
            texts(r@) == self@,
            r@.len() <= LOG_LIMIT,
    {
        proof {
            use_type_invariant(self);
        }
        &self.lines
    }

    /// Adds the lines of `text`, and drops old lines where there are too many.
    pub fn append(&mut self, text: &str)
        ensures
            final(self)@ == retained(old(self)@ + lines_of(text@)),
            final(self)@.len() <= LOG_LIMIT,
    {
        let mut kept: Vec<String> = Vec::new();
        core::mem::swap(&mut self.lines, &mut kept);
        let ghost before = texts(kept@);
        let added: Vec<&str> = lines(text);
        let mut i: usize = 0;
        assert(before + strs(added@).take(0) =~= before);
        while i < added.len()
            invariant
                i <= added@.len(),
                texts(kept@) == before + strs(added@).take(i as int),
            decreases added@.len() - i,
        {
            let line: &str = added[i];
            let ghost so_far = kept@;
            kept.push(line.to_owned());
            proof {
                assert(texts(kept@) =~= texts(so_far).push(line@));
                assert(strs(added@).take(i + 1) =~= strs(added@).take(i as int).push(line@));
                assert(texts(kept@) =~= before + strs(added@).take(i + 1));
            }
            i += 1;
        }
        assert(strs(added@).take(i as int) == strs(added@));
        if kept.len() > LOG_LIMIT {
            let ghost all = kept@;
            let cut: usize = kept.len() - LOG_LIMIT;
            let recent: Vec<String> = kept.split_off(cut);
            assert(texts(recent@) =~= texts(all).skip(cut as int));
            self.lines = recent;
        } else {
            self.lines = kept;
        }
    }

    /// Adds the lines of the text in `buf`, and returns how many bytes were taken,
    /// which is all of them.
    pub fn write(&mut self, buf: &[u8]) -> (r: usize)
        ensures
            final(self)@ == retained(old(self)@ + lines_of(lossy_text(buf@))),
            valid_utf8(buf@) ==> final(self)@ == retained(
                old(self)@ + lines_of(decode_utf8(buf@)),
            ),
            final(self)@.len() <= LOG_LIMIT,
            r == buf@.len(),
    {
        let text: String = from_utf8_lossy(buf);
        self.append(text.as_str());
        buf.len()
    }
}

/// The report of a crash: the log, or a note that it could not be had, and what
/// the panic said, with an empty line between them.
pub open spec fn crash_report(log: Option<Seq<Seq<char>>>, message: Option<Seq<char>>) -> Seq<
    char,
> {
    let first = match log {
        Some(lines) => joined(lines, "\n"@),
        None => "failed to lock log buffer"@,
    };
    let last = match message {
        Some(text) => text,
        None => "panic: unknown payload type"@,
    };
    first + "\n\n"@ + last
}

/// The report to write when the program has panicked: `log` is the log where it
/// is at hand, `message` what the panic said where that is text.
pub fn crash_log(log: Option<&VecWriter>, message: Option<&str>) -> (r: String)
    ensures
        r@ == crash_report(
            match log {
                Some(log) => Some(log@),
                None => None,
            },
            match message {
                Some(message) => Some(message@),
                None => None,
            },
        ),
{
    let mut report: String = match log {
        Some(log) => join(log.lines(), "\n"),
        None => "failed to lock log buffer".to_owned(),
    };
    report.append("\n\n");
    match message {
        Some(message) => report.append(message),
        None => report.append("panic: unknown payload type"),
    }
    report
}

// ---------------------------------------------------------------------------
// What is logged
// ---------------------------------------------------------------------------

/// The filter for the console where none is set in the environment, by how often
/// verbose output was asked for.
pub fn default_directive(verbose: u8) -> (r: &'static str)
    ensures
        r@ == if verbose == 0 {
            "reliquary_archiver=info"@
        } else if verbose == 1 {
            "info"@
        } else if verbose == 2 {
            "debug"@
        } else {
            "trace"@
        },
{
    match verbose {
        0 => "reliquary_archiver=info",
        1 => "info",
        2 => "debug",
        _ => "trace",
    }
}

/// How much is logged.
#[derive(Debug, Clone, Copy, PartialEq, Eq, Structural)]
pub enum LogLevel {
    Trace,
    Debug,
    Info,
    Warn,
    Error,
    Off,
}

/// The filter that lets everything through up to `level`.
pub fn level_directive(level: LogLevel) -> (r: &'static str)
    ensures
        r@ == match level {
            LogLevel::Trace => "trace"@,
            LogLevel::Debug => "debug"@,
            LogLevel::Info => "info"@,
            LogLevel::Warn => "warn"@,
            LogLevel::Error => "error"@,
            LogLevel::Off => "off"@,
        },
{
    match level {
        LogLevel::Trace => "trace",
        LogLevel::Debug => "debug",
        LogLevel::Info => "info",
        LogLevel::Warn => "warn",
        LogLevel::Error => "error",
        LogLevel::Off => "off",
    }
}

// ---------------------------------------------------------------------------
// Laws
// ---------------------------------------------------------------------------

/// The log never grows beyond its limit, and what is dropped is always the
/// oldest: what stays is the end of what was there, all of it up to the limit.
pub proof fn law_recent_lines_stay(lines: Seq<Seq<char>>)
    ensures
        retained(lines).is_suffix_of(lines),
        lines.len() <= LOG_LIMIT ==> retained(lines) == lines,
        lines.len() >= LOG_LIMIT ==> retained(lines).len() == LOG_LIMIT,
{
    assert(lines.skip(0) =~= lines);
}

/// Dropping lines along the way loses nothing: the log holds what it would hold
/// if all lines had been added at once.
pub proof fn law_retaining_in_steps(before: Seq<Seq<char>>, added: Seq<Seq<char>>)
    ensures
        retained(retained(before) + added) == retained(before + added),
{
    assert(retained(retained(before) + added) =~= retained(before + added));
}

/// Adding text keeps the end of the log and of the lines added, all of it up to
/// one hundred thousand lines, and adding bytes adds the text that they are.
pub proof fn law_log_keeps_its_end(
    log: &mut VecWriter,
    same: &mut VecWriter,
    text: &str,
    bytes: &[u8],
    taken: usize,
)
    requires
        call_ensures(VecWriter::append, (log, text), ()),
        call_ensures(VecWriter::write, (same, bytes), taken),
        old(same)@ == old(log)@,
        valid_utf8(bytes@),
        decode_utf8(bytes@) == text@,
    ensures
        final(log)@.is_suffix_of(old(log)@ + lines_of(text@)),
        old(log)@.len() + lines_of(text@).len() <= 100000 ==> final(log)@.len() == old(log)@.len()
            + lines_of(text@).len(),
        old(log)@.len() + lines_of(text@).len() > 100000 ==> final(log)@.len() == 100000,
        final(same)@ == final(log)@,
        taken == bytes@.len(),
{
    law_recent_lines_stay(old(log)@ + lines_of(text@));
}

/// What the log shows is what was added, and it begins with nothing.
pub proof fn law_log_shows_its_lines(start: VecWriter, log: VecWriter, shown: &Vec<String>)
    requires
        call_ensures(VecWriter::new, (), start),
        call_ensures(VecWriter::lines, (&log,), shown),
    ensures
        start@.len() == 0,
        shown@.len() == log@.len(),
        forall|i: int| 0 <= i < shown@.len() ==> #[trigger] shown@[i]@ == log@[i],
{
    assert(texts(shown@).len() == shown@.len());
    assert forall|i: int| 0 <= i < shown@.len() implies #[trigger] shown@[i]@ == log@[i] by {
        assert(texts(shown@)[i] == shown@[i]@);
    }
}

/// A crash report is the log, line by line, an empty line and what the panic said;
/// a note stands for each of the two where it cannot be had.
pub proof fn law_crash_report(
    log: VecWriter,
    message: &str,
    full: String,
    unlogged: String,
    unsaid: String,
)
    requires
        call_ensures(crash_log, (Some(&log), Some(message)), full),
        call_ensures(crash_log, (None, Some(message)), unlogged),
        call_ensures(crash_log, (Some(&log), None), unsaid),
    ensures
        full@ == joined(log@, "\n"@) + "\n\n"@ + message@,
        unlogged@ == "failed to lock log buffer"@ + "\n\n"@ + message@,
        unsaid@ == joined(log@, "\n"@) + "\n\n"@ + "panic: unknown payload type"@,
{
}

/// The more often verbose output is asked for, the more is logged, up to
/// everything at three times and more.
pub proof fn law_verbosity(verbose: u8, directive: &'static str)
    requires
        call_ensures(default_directive, (verbose,), directive),
    ensures
        verbose == 0 ==> directive@ == "reliquary_archiver=info"@,
        verbose == 1 ==> directive@ == "info"@,
        verbose == 2 ==> directive@ == "debug"@,
        verbose >= 3 ==> directive@ == "trace"@,
{
}

} // verus!
