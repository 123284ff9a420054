use vstd::prelude::*;
use crate::errors::{Error, ErrorSpec};

verus! {

/// Severity of a log line the engine emits.
#[derive(Clone, Copy, PartialEq, Eq, Structural, Debug)]
pub enum LogLevel {
    Info,
    Warn,
}

/// What a log line says. The shell renders the wording; the engine
/// only picks the note.
#[derive(Debug)]
pub enum LogNote {
    /// The firmware image is loaded, with its byte count.
    FirmwareLoaded(u64),
    /// The autobaud handshake is starting.
    Connecting,
    /// The supported command set is being queried.
    Querying,
    /// Mass erase is starting.
    Erasing,
    /// The write loop is starting.
    Writing,
    /// The launch command is about to be sent.
    StartingProgram,
    /// The launch command failed; falling back to a hardware reset.
    GoFailed(Error),
    /// No launch command is supported; resetting to run instead.
    ResettingToRun,
    /// The freshly written program is running.
    ProgramStarted,
    /// Read-back verification was requested but is reserved.
    VerifySkipped,
}

/// The mathematical shape of a log note.
pub enum LogNoteSpec {
    FirmwareLoaded(u64),
    Connecting,
    Querying,
    Erasing,
    Writing,
    StartingProgram,
    GoFailed(ErrorSpec),
    ResettingToRun,
    ProgramStarted,
    VerifySkipped,
}

impl View for LogNote {
    type V = LogNoteSpec;

    open spec fn view(&self) -> LogNoteSpec {
        match self {
            LogNote::FirmwareLoaded(n) => LogNoteSpec::FirmwareLoaded(*n),
            LogNote::Connecting => LogNoteSpec::Connecting,
            LogNote::Querying => LogNoteSpec::Querying,
            LogNote::Erasing => LogNoteSpec::Erasing,
            LogNote::Writing => LogNoteSpec::Writing,
            LogNote::StartingProgram => LogNoteSpec::StartingProgram,
            LogNote::GoFailed(e) => LogNoteSpec::GoFailed(e@),
            LogNote::ResettingToRun => LogNoteSpec::ResettingToRun,
            LogNote::ProgramStarted => LogNoteSpec::ProgramStarted,
            LogNote::VerifySkipped => LogNoteSpec::VerifySkipped,
        }
    }
}

/// One instruction the engine hands the serial shell. The shell runs
/// them in order and reports one event back when the list ends with a
/// read, fails, or completes.
#[derive(Debug)]
pub enum Action {
    /// Write these bytes to the port, then flush.
    Write(Vec<u8>),
    /// Read one byte, giving up after this many milliseconds.
    Read(u64),
    /// Read exactly this many bytes, waiting out quiet spells; only a
    /// hard I/O failure gives up.
    ReadExact(usize),
    /// Discard pending input.
    ClearInput,
    /// Wait this many milliseconds.
    Sleep(u64),
    /// Set the data-terminal-ready line.
    SetDtr(bool),
    /// Set the request-to-send line.
    SetRts(bool),
    /// Hand a log line to the sink.
    Note(LogLevel, LogNote),
    /// Report write progress: bytes written so far, of the total.
    Progress(u64, u64),
}

/// The mathematical shape of an action.
pub enum ActionSpec {
    Write(Seq<u8>),
    Read(u64),
    ReadExact(usize),
    ClearInput,
    Sleep(u64),
    SetDtr(bool),
    SetRts(bool),
    Note(LogLevel, LogNoteSpec),
    Progress(u64, u64),
}

impl View for Action {
    type V = ActionSpec;

    open spec fn view(&self) -> ActionSpec {
        match self {
            Action::Write(v) => ActionSpec::Write(v@),
            Action::Read(d) => ActionSpec::Read(*d),
            Action::ReadExact(n) => ActionSpec::ReadExact(*n),
            Action::ClearInput => ActionSpec::ClearInput,
            Action::Sleep(d) => ActionSpec::Sleep(*d),
            Action::SetDtr(level) => ActionSpec::SetDtr(*level),
            Action::SetRts(level) => ActionSpec::SetRts(*level),
            Action::Note(lvl, n) => ActionSpec::Note(*lvl, n@),
            Action::Progress(done, total) => ActionSpec::Progress(*done, *total),
        }
    }
}

/// What the serial shell reports back to the engine.
#[derive(Debug)]
pub enum Event {
    /// A read delivered this byte within its deadline.
    Byte(u8),
    /// A read's deadline expired.
    TimedOut,
    /// An exact read delivered these bytes.
    Bytes(Vec<u8>),
    /// Every action ran and none awaited data.
    Completed,
    /// An action failed with this error.
    Failed(Error),
}

/// The mathematical shape of an event.
pub enum EventSpec {
    Byte(u8),
    TimedOut,
    Bytes(Seq<u8>),
    Completed,
    Failed(ErrorSpec),
}

impl View for Event {
    type V = EventSpec;

    open spec fn view(&self) -> EventSpec {
        match self {
            Event::Byte(b) => EventSpec::Byte(*b),
            Event::TimedOut => EventSpec::TimedOut,
            Event::Bytes(v) => EventSpec::Bytes(v@),
            Event::Completed => EventSpec::Completed,
            Event::Failed(e) => EventSpec::Failed(e@),
        }
    }
}

/// The views of an action list.
pub open spec fn acts(v: Seq<Action>) -> Seq<ActionSpec> {
    v.map_values(|a: Action| a@)
}

/// Appends an action, extending the list's view by its view.
pub fn push_act(v: &mut Vec<Action>, a: Action)
    ensures
        acts(final(v)@) == acts(old(v)@).push(a@),
{
    let ghost a_view = a@;
    v.push(a);
    proof {
        assert(acts(v@) =~= acts(old(v)@).push(a_view));
    }
}

} // verus!
