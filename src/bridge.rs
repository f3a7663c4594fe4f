//! The decisions of one invocation: spawning, streaming lines to the sink,
//! reaping the child, and how the invocation ends.
//!
//! A [`Bridge`] performs no I/O. Its owner does what each [`Directive`] asks
//! (spawns the process, reads the next chunk of its output, waits for it to
//! exit, kills it), delivers the lines of each [`Reaction`] to the sink, and
//! reports every outcome back as an [`Event`].
use vstd::prelude::*;
use vstd::utf8::{valid_utf8, decode_utf8};
use crate::framing::{LineFramer, frame_from, byte_views};
use crate::invocation::{BridgeConfig, InvocationSpec, string_views};

verus! {

/// Why reading the child's output failed.
#[derive(Debug)]
pub enum ReadFault {
    /// The pipe reported an I/O error, with its message.
    Io(String),
    /// A line was not valid UTF-8.
    InvalidUtf8,
}

/// Why an invocation failed.
#[derive(Debug)]
pub enum ProcessError {
    /// The process could not be created, with the system's message.
    SpawnFailed(String),
    /// The process started but its standard output could not be captured.
    StreamUnavailable,
    /// Reading its output failed after the spawn.
    ReadError(ReadFault),
    /// Exit statuses are checked and the child did not exit with status
    /// zero (`None`: it was ended by a signal).
    ExitStatus(Option<i32>),
    /// The invocation was cancelled before it ended.
    Cancelled,
}

/// A [`ProcessError`] as the contracts see it.
pub enum ErrorView {
    SpawnFailed(Seq<char>),
    StreamUnavailable,
    ReadIo(Seq<char>),
    InvalidUtf8,
    ExitStatus(Option<i32>),
    Cancelled,
}

impl View for ProcessError {
    type V = ErrorView;

    open spec fn view(&self) -> ErrorView {
        match self {
            ProcessError::SpawnFailed(m) => ErrorView::SpawnFailed(m@),
            ProcessError::StreamUnavailable => ErrorView::StreamUnavailable,
            ProcessError::ReadError(ReadFault::Io(m)) => ErrorView::ReadIo(m@),
            ProcessError::ReadError(ReadFault::InvalidUtf8) => ErrorView::InvalidUtf8,
            ProcessError::ExitStatus(c) => ErrorView::ExitStatus(*c),
            ProcessError::Cancelled => ErrorView::Cancelled,
        }
    }
}

/// Where an invocation stands.
#[derive(Debug)]
pub enum Phase {
    /// Not started.
    Idle,
    /// The process is being created.
    Spawning,
    /// Output is being read and forwarded.
    Streaming,
    /// The output has ended; the child is being waited for.
    Reaping,
    /// Ended well.
    Completed,
    /// Ended with an error.
    Failed(ProcessError),
}

/// A [`Phase`] as the contracts see it.
pub enum PhaseView {
    Idle,
    Spawning,
    Streaming,
    Reaping,
    Completed,
    Failed(ErrorView),
}

impl View for Phase {
    type V = PhaseView;

    open spec fn view(&self) -> PhaseView {
        match self {
            Phase::Idle => PhaseView::Idle,
            Phase::Spawning => PhaseView::Spawning,
            Phase::Streaming => PhaseView::Streaming,
            Phase::Reaping => PhaseView::Reaping,
            Phase::Completed => PhaseView::Completed,
            Phase::Failed(e) => PhaseView::Failed(e@),
        }
    }
}

/// Whether an invocation in this phase has ended; nothing leads out of it.
pub open spec fn is_terminal(p: PhaseView) -> bool {
    p is Completed || p is Failed
}

/// Whether a child process exists in this phase.
pub open spec fn has_child(p: PhaseView) -> bool {
    p is Streaming || p is Reaping
}

/// What the owner of a bridge reports.
#[derive(Debug)]
pub enum Event {
    /// Begin the invocation.
    Start,
    /// Spawning failed, with the system's message.
    SpawnFailed(String),
    /// The process was spawned; whether its standard output was captured.
    Spawned { stdout_captured: bool },
    /// The next bytes of the child's standard output.
    Chunk(Vec<u8>),
    /// The child's standard output has ended.
    EndOfStream,
    /// Reading the output failed, with the error's message.
    ReadFailed(String),
    /// The sink could not take a line. This is logged by the owner and does
    /// not stop the invocation.
    DeliveryFailed,
    /// The child exited, with its status code (`None`: ended by a signal).
    Exited(Option<i32>),
    /// The caller gave up on the invocation.
    Cancel,
}

/// An [`Event`] as the contracts see it.
pub enum EventView {
    Start,
    SpawnFailed(Seq<char>),
    Spawned(bool),
    Chunk(Seq<u8>),
    EndOfStream,
    ReadFailed(Seq<char>),
    DeliveryFailed,
    Exited(Option<i32>),
    Cancel,
}

impl View for Event {
    type V = EventView;

    open spec fn view(&self) -> EventView {
        match self {
            Event::Start => EventView::Start,
            Event::SpawnFailed(m) => EventView::SpawnFailed(m@),
            Event::Spawned { stdout_captured } => EventView::Spawned(*stdout_captured),
            Event::Chunk(b) => EventView::Chunk(b@),
            Event::EndOfStream => EventView::EndOfStream,
            Event::ReadFailed(m) => EventView::ReadFailed(m@),
            Event::DeliveryFailed => EventView::DeliveryFailed,
            Event::Exited(c) => EventView::Exited(*c),
            Event::Cancel => EventView::Cancel,
        }
    }
}

/// What the owner of a bridge is to do next.
#[derive(Clone, Copy, PartialEq, Eq, Debug, Structural)]
pub enum Directive {
    /// Spawn the process of the bridge's invocation.
    Spawn,
    /// Read the next chunk of the child's standard output.
    ReadNext,
    /// Wait for the child to exit.
    AwaitExit,
    /// The invocation has ended: kill the child first if asked, then take
    /// the outcome.
    Finish { kill_child: bool },
    /// Nothing new: go on as before.
    Nothing,
}

/// The answer to one event: lines to deliver to the sink, in order, then
/// what to do next.
#[derive(Debug)]
pub struct Reaction {
    pub lines: Vec<String>,
    pub directive: Directive,
}

/// The state of a bridge as the contracts see it.
pub struct BridgeView {
    pub phase: PhaseView,
    /// Output bytes received since the last newline.
    pub pending: Seq<u8>,
    pub check_exit_status: bool,
    /// How many deliveries to the sink have failed so far.
    pub failed_deliveries: nat,
}

/// The largest count of failed deliveries that a bridge keeps.
pub const MAX_FAILED_DELIVERIES: u64 = 0xffff_ffff_ffff_ffff;

/// The lines of `lines` that are decoded before the first one that is not
/// UTF-8, and whether there was no such line.
pub open spec fn decode_lines(lines: Seq<Seq<u8>>) -> (Seq<Seq<char>>, bool)
    decreases lines.len(),
{
    if lines.len() == 0 {
        (Seq::empty(), true)
    } else {
        let (done, ok) = decode_lines(lines.drop_last());
        if ok && valid_utf8(lines.last()) {
            (done.push(decode_utf8(lines.last())), true)
        } else {
            (done, false)
        }
    }
}

impl BridgeView {
    pub open spec fn with_phase(self, phase: PhaseView) -> BridgeView {
        BridgeView { phase, ..self }
    }

    /// A bridge that has not started.
    pub open spec fn initial(check_exit_status: bool) -> BridgeView {
        BridgeView {
            phase: PhaseView::Idle,
            pending: Seq::empty(),
            check_exit_status,
            failed_deliveries: 0,
        }
    }
}

/// Leaving a bridge as it is.
pub open spec fn unchanged(b: BridgeView) -> (BridgeView, Seq<Seq<char>>, Directive) {
    (b, Seq::empty(), Directive::Nothing)
}

/// Ending the invocation in phase `phase`.
pub open spec fn finish(b: BridgeView, phase: PhaseView, kill_child: bool) -> (
    BridgeView,
    Seq<Seq<char>>,
    Directive,
) {
    (b.with_phase(phase), Seq::empty(), Directive::Finish { kill_child })
}

/// One event: the bridge after it, the lines to forward, and the directive.
pub open spec fn next(b: BridgeView, e: EventView) -> (BridgeView, Seq<Seq<char>>, Directive) {
    match e {
        EventView::DeliveryFailed => {
            let n = if b.failed_deliveries < MAX_FAILED_DELIVERIES {
                b.failed_deliveries + 1
            } else {
                b.failed_deliveries
            };
            (BridgeView { failed_deliveries: n, ..b }, Seq::empty(), Directive::Nothing)
        },
        EventView::Cancel => {
            if is_terminal(b.phase) {
                unchanged(b)
            } else {
                finish(b, PhaseView::Failed(ErrorView::Cancelled), has_child(b.phase))
            }
        },
        EventView::Start => {
            if b.phase is Idle {
                (b.with_phase(PhaseView::Spawning), Seq::empty(), Directive::Spawn)
            } else {
                unchanged(b)
            }
        },
        EventView::SpawnFailed(m) => {
            if b.phase is Spawning {
                finish(b, PhaseView::Failed(ErrorView::SpawnFailed(m)), false)
            } else {
                unchanged(b)
            }
        },
        EventView::Spawned(captured) => {
            if !(b.phase is Spawning) {
                unchanged(b)
            } else if captured {
                (b.with_phase(PhaseView::Streaming), Seq::empty(), Directive::ReadNext)
            } else {
                finish(b, PhaseView::Failed(ErrorView::StreamUnavailable), true)
            }
        },
        EventView::Chunk(bytes) => {
            if b.phase is Streaming {
                let (lines, rest) = frame_from(b.pending, bytes);
                let (text, ok) = decode_lines(lines);
                let b2 = BridgeView { pending: rest, ..b };
                if ok {
                    (b2, text, Directive::ReadNext)
                } else {
                    (
                        b2.with_phase(PhaseView::Failed(ErrorView::InvalidUtf8)),
                        text,
                        Directive::Finish { kill_child: true },
                    )
                }
            } else {
                unchanged(b)
            }
        },
        EventView::EndOfStream => {
            if b.phase is Streaming {
                let b2 = BridgeView { pending: Seq::empty(), ..b };
                if b.pending.len() == 0 {
                    (b2.with_phase(PhaseView::Reaping), Seq::empty(), Directive::AwaitExit)
                } else if valid_utf8(b.pending) {
                    (
                        b2.with_phase(PhaseView::Reaping),
                        seq![decode_utf8(b.pending)],
                        Directive::AwaitExit,
                    )
                } else {
                    finish(b2, PhaseView::Failed(ErrorView::InvalidUtf8), true)
                }
            } else {
                unchanged(b)
            }
        },
        EventView::ReadFailed(m) => {
            if b.phase is Streaming {
                finish(b, PhaseView::Failed(ErrorView::ReadIo(m)), true)
            } else {
                unchanged(b)
            }
        },
        EventView::Exited(code) => {
            if !(b.phase is Reaping) {
                unchanged(b)
            } else if !b.check_exit_status || code == Some(0i32) {
                finish(b, PhaseView::Completed, false)
            } else {
                finish(b, PhaseView::Failed(ErrorView::ExitStatus(code)), false)
            }
        },
    }
}

/// Relies on `std::str::from_utf8`: it accepts exactly the valid UTF-8
/// byte sequences, and the text is what they encode.
#[verifier::external_body]
fn utf8_text(bytes: &[u8]) -> (r: Option<String>)
    ensures
        (r is Some) <==> valid_utf8(bytes@),
        (r is Some) ==> r->0@ == decode_utf8(bytes@),
{
    std::str::from_utf8(bytes).ok().map(String::from)
}

/// One invocation of a child process whose output lines go to a sink.
pub struct Bridge {
    invocation: InvocationSpec,
    config: BridgeConfig,
    phase: Phase,
    framer: LineFramer,
    failed_deliveries: u64,
}

impl View for Bridge {
    type V = BridgeView;

    closed spec fn view(&self) -> BridgeView {
        BridgeView {
            phase: self.phase@,
            pending: self.framer@,
            check_exit_status: self.config.check_exit_status,
            failed_deliveries: self.failed_deliveries as nat,
        }
    }
}

impl Bridge {
    /// The invocation that the bridge runs.
    pub closed spec fn invocation_view(&self) -> InvocationSpec {
        self.invocation
    }

    /// The configuration it runs with.
    pub closed spec fn config_view(&self) -> BridgeConfig {
        self.config
    }

    /// A bridge that has not started.
    pub fn new(invocation: InvocationSpec, config: BridgeConfig) -> (r: Bridge)
        ensures
            r@ == BridgeView::initial(config.check_exit_status),
            r.invocation_view() == invocation,
            r.config_view() == config,
    {
        Bridge {
            invocation,
            config,
            phase: Phase::Idle,
            framer: LineFramer::new(),
            failed_deliveries: 0,
        }
    }

    /// The invocation that the bridge runs.
    pub fn invocation(&self) -> (r: &InvocationSpec)
        ensures
            *r == self.invocation_view(),
    {
        &self.invocation
    }

    /// The configuration it runs with.
    pub fn config(&self) -> (r: BridgeConfig)
        ensures
            r == self.config_view(),
    {
        self.config
    }

    /// Where the invocation stands.
    pub fn phase(&self) -> (r: &Phase)
        ensures
            r@ == self@.phase,
    {
        &self.phase
    }

    /// How many deliveries to the sink have failed so far.
    pub fn failed_deliveries(&self) -> (r: u64)
        ensures
            r == self@.failed_deliveries,
    {
        self.failed_deliveries
    }

    /// Decodes the completed lines in order, up to the first that is not
    /// UTF-8.
    fn decode_all(lines: &Vec<Vec<u8>>) -> (r: (Vec<String>, bool))
        ensures
            (string_views(r.0@), r.1) == decode_lines(byte_views(lines@)),
    {
        let mut text: Vec<String> = Vec::new();
        let mut ok = true;
        let mut i: usize = 0;
        while i < lines.len()
            invariant
                i <= lines@.len(),
                (string_views(text@), ok) == decode_lines(byte_views(lines@).take(i as int)),
            decreases lines@.len() - i,
        {
            assert(byte_views(lines@).take(i + 1).drop_last() =~= byte_views(lines@).take(
                i as int,
            ));
            if ok {
                match utf8_text(lines[i].as_slice()) {
                    Some(s) => {
                        text.push(s);
                        assert(string_views(text@) =~= string_views(text@.drop_last()).push(
                            text@.last()@,
                        ));
                    },
                    None => {
                        ok = false;
                    },
                }
            }
            i = i + 1;
        }
        assert(byte_views(lines@).take(i as int) =~= byte_views(lines@));
        (text, ok)
    }

    fn no_lines(directive: Directive) -> (r: Reaction)
        ensures
            r.lines@.len() == 0,
            r.directive == directive,
    {
        Reaction { lines: Vec::new(), directive }
    }

    /// Takes in one event and answers it.
    pub fn step(&mut self, event: Event) -> (r: Reaction)
        ensures
            (final(self)@, string_views(r.lines@), r.directive) == next(old(self)@, event@),
            final(self).invocation_view() == old(self).invocation_view(),
            final(self).config_view() == old(self).config_view(),
    {
        let ghost old_view = self@;
        let r = match event {
            Event::DeliveryFailed => {
                if self.failed_deliveries < MAX_FAILED_DELIVERIES {
                    self.failed_deliveries = self.failed_deliveries + 1;
                }
                Self::no_lines(Directive::Nothing)
            },
            Event::Cancel => {
                if matches!(self.phase, Phase::Completed) || matches!(self.phase, Phase::Failed(_)) {
                    Self::no_lines(Directive::Nothing)
                } else {
                    let kill_child = matches!(self.phase, Phase::Streaming) || matches!(
                        self.phase,
                        Phase::Reaping
                    );
                    self.phase = Phase::Failed(ProcessError::Cancelled);
                    Self::no_lines(Directive::Finish { kill_child })
                }
            },
            Event::Start => {
                if matches!(self.phase, Phase::Idle) {
                    self.phase = Phase::Spawning;
                    Self::no_lines(Directive::Spawn)
                } else {
                    Self::no_lines(Directive::Nothing)
                }
            },
            Event::SpawnFailed(m) => {
                if matches!(self.phase, Phase::Spawning) {
                    self.phase = Phase::Failed(ProcessError::SpawnFailed(m));
                    Self::no_lines(Directive::Finish { kill_child: false })
                } else {
                    Self::no_lines(Directive::Nothing)
                }
            },
            Event::Spawned { stdout_captured } => {
                if !matches!(self.phase, Phase::Spawning) {
                    Self::no_lines(Directive::Nothing)
                } else if stdout_captured {
                    self.phase = Phase::Streaming;
                    Self::no_lines(Directive::ReadNext)
                } else {
                    self.phase = Phase::Failed(ProcessError::StreamUnavailable);
                    Self::no_lines(Directive::Finish { kill_child: true })
                }
            },
            Event::Chunk(bytes) => {
                if matches!(self.phase, Phase::Streaming) {
                    let lines = self.framer.push(bytes.as_slice());
                    let (text, ok) = Self::decode_all(&lines);
                    if ok {
                        Reaction { lines: text, directive: Directive::ReadNext }
                    } else {
                        self.phase = Phase::Failed(ProcessError::ReadError(ReadFault::InvalidUtf8));
                        Reaction { lines: text, directive: Directive::Finish { kill_child: true } }
                    }
                } else {
                    Self::no_lines(Directive::Nothing)
                }
            },
            Event::EndOfStream => {
                if matches!(self.phase, Phase::Streaming) {
                    match self.framer.finish() {
                        None => {
                            self.phase = Phase::Reaping;
                            Self::no_lines(Directive::AwaitExit)
                        },
                        Some(tail) => {
                            match utf8_text(tail.as_slice()) {
                                Some(s) => {
                                    self.phase = Phase::Reaping;
                                    let mut text: Vec<String> = Vec::new();
                                    text.push(s);
                                    assert(string_views(text@) =~= seq![s@]);
                                    Reaction { lines: text, directive: Directive::AwaitExit }
                                },
                                None => {
                                    self.phase = Phase::Failed(
                                        ProcessError::ReadError(ReadFault::InvalidUtf8),
                                    );
                                    Self::no_lines(Directive::Finish { kill_child: true })
                                },
                            }
                        },
                    }
                } else {
                    Self::no_lines(Directive::Nothing)
                }
            },
            Event::ReadFailed(m) => {
                if matches!(self.phase, Phase::Streaming) {
                    self.phase = Phase::Failed(ProcessError::ReadError(ReadFault::Io(m)));
                    Self::no_lines(Directive::Finish { kill_child: true })
                } else {
                    Self::no_lines(Directive::Nothing)
                }
            },
            Event::Exited(code) => {
                if !matches!(self.phase, Phase::Reaping) {
                    Self::no_lines(Directive::Nothing)
                } else if !self.config.check_exit_status || code == Some(0i32) {
                    self.phase = Phase::Completed;
                    Self::no_lines(Directive::Finish { kill_child: false })
                } else {
                    self.phase = Phase::Failed(ProcessError::ExitStatus(code));
                    Self::no_lines(Directive::Finish { kill_child: false })
                }
            },
        };
        assert(string_views(r.lines@) =~= next(old_view, event@).1);
        r
    }

    /// The outcome of an invocation that has ended: `Ok` once completed,
    /// the error once failed, `None` before the end.
    pub fn into_outcome(self) -> (r: Option<Result<(), ProcessError>>)
        ensures
            (r is None) <==> !is_terminal(self@.phase),
            (r == Some(Ok::<(), ProcessError>(()))) <==> (self@.phase is Completed),
            (r matches Some(Err(e)) ==> self@.phase == PhaseView::Failed(e@)),
    {
        match self.phase {
            Phase::Completed => Some(Ok(())),
            Phase::Failed(e) => Some(Err(e)),
            _ => None,
        }
    }
}

} // verus!
