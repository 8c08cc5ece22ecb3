//! The TCP listener state machine: what one service-loop turn does with a
//! connection, given the listener's configuration and the observed
//! readiness.

use vstd::prelude::*;

use crate::config::{CloseConnectionWhen, TcpListenerData};
use crate::text::clone_opt_string;

verus! {

/// One TCP listener, holding its own copy of the configuration.
#[derive(Debug)]
pub struct AppListener {
    /// The listener configuration.
    pub tcp_listener: TcpListenerData,
}

impl AppListener {
    /// Capture a copy of the listener configuration.
    pub fn new(tcp_listener: &TcpListenerData) -> (r: AppListener)
        ensures
            r.tcp_listener.eqv(tcp_listener),
    {
        AppListener { tcp_listener: tcp_listener.clone() }
    }
}

/// The readiness one poll of the connection observed.
#[derive(Debug, Clone, Copy, PartialEq, Eq, Structural)]
pub struct Readiness {
    /// Bytes can be read.
    pub readable: bool,
    /// Bytes can be written.
    pub writable: bool,
    /// The peer closed its writing half.
    pub read_closed: bool,
    /// The peer closed its reading half.
    pub write_closed: bool,
}

/// Where the payload bytes come from.
#[derive(Debug, PartialEq)]
pub enum PayloadSource {
    /// The literal data of the configuration.
    Literal(String),
    /// The contents of the configured file, read per response.
    FromFile(String),
    /// Nothing is configured; the write phase sends nothing.
    NoPayload,
}

/// The write phase of one turn: sleep, then send the payload.
#[derive(Debug, PartialEq)]
pub struct WriteCommand {
    /// Sleep this many milliseconds first.
    pub delay_ms: Option<u64>,
    /// What to send.
    pub source: PayloadSource,
}

/// Everything one service-loop turn decides.
#[derive(Debug, PartialEq)]
pub struct StepOutcome {
    /// Drain the readable bytes until an empty read.
    pub drain: bool,
    /// Perform the write phase.
    pub write: Option<WriteCommand>,
    /// Close the connection after this turn.
    pub close: bool,
    /// The `written` flag the next turn starts from.
    pub next_written: bool,
}

/// The payload the configuration selects: literal data wins over the file.
pub open spec fn payload_spec(cfg: TcpListenerData) -> PayloadSource {
    match cfg.data {
        Option::Some(d) => PayloadSource::Literal(d),
        Option::None => match cfg.file {
            Option::Some(f) => PayloadSource::FromFile(f),
            Option::None => PayloadSource::NoPayload,
        },
    }
}

/// What one turn of the service loop does.  With either half closed the
/// connection just closes.  `BeforeRead` closes before anything else.
/// Readable bytes are drained, clearing the `written` flag; `AfterRead`
/// closes after the drain.  When writable and not yet written, the payload
/// is sent after the configured delay; `AfterResponse` closes right after,
/// otherwise the `written` flag is set.
pub open spec fn step_spec(cfg: TcpListenerData, written: bool, ready: Readiness) -> StepOutcome {
    if ready.read_closed || ready.write_closed {
        StepOutcome { drain: false, write: Option::None, close: true, next_written: written }
    } else if cfg.close_connection == CloseConnectionWhen::BeforeRead {
        StepOutcome { drain: false, write: Option::None, close: true, next_written: written }
    } else {
        let w1 = if ready.readable {
            false
        } else {
            written
        };
        if cfg.close_connection == CloseConnectionWhen::AfterRead {
            StepOutcome { drain: ready.readable, write: Option::None, close: true, next_written: w1 }
        } else if ready.writable && !w1 {
            StepOutcome {
                drain: ready.readable,
                write: Option::Some(
                    WriteCommand { delay_ms: cfg.delay_write_ms, source: payload_spec(cfg) },
                ),
                close: cfg.close_connection == CloseConnectionWhen::AfterResponse,
                next_written: true,
            }
        } else {
            StepOutcome { drain: ready.readable, write: Option::None, close: false, next_written: w1 }
        }
    }
}

/// Decide one turn of the service loop.
pub fn connection_step(cfg: &TcpListenerData, written: bool, ready: Readiness) -> (r: StepOutcome)
    ensures
        r == step_spec(*cfg, written, ready),
{
    if ready.read_closed || ready.write_closed {
        return StepOutcome { drain: false, write: Option::None, close: true, next_written: written };
    }
    if cfg.close_connection == CloseConnectionWhen::BeforeRead {
        return StepOutcome { drain: false, write: Option::None, close: true, next_written: written };
    }
    let w1 = if ready.readable {
        false
    } else {
        written
    };
    if cfg.close_connection == CloseConnectionWhen::AfterRead {
        return StepOutcome {
            drain: ready.readable,
            write: Option::None,
            close: true,
            next_written: w1,
        };
    }
    if ready.writable && !w1 {
        let source = match &cfg.data {
            Option::Some(d) => PayloadSource::Literal(d.clone()),
            Option::None => match &cfg.file {
                Option::Some(f) => PayloadSource::FromFile(f.clone()),
                Option::None => PayloadSource::NoPayload,
            },
        };
        return StepOutcome {
            drain: ready.readable,
            write: Option::Some(WriteCommand { delay_ms: cfg.delay_write_ms, source }),
            close: cfg.close_connection == CloseConnectionWhen::AfterResponse,
            next_written: true,
        };
    }
    StepOutcome { drain: ready.readable, write: Option::None, close: false, next_written: w1 }
}

/// How many writes a run of the service loop performs over the given
/// readiness observations, stopping at the first closing turn.
pub open spec fn trace_writes(cfg: TcpListenerData, written: bool, trace: Seq<Readiness>) -> int
    decreases trace.len(),
{
    if trace.len() == 0 {
        0
    } else {
        let o = step_spec(cfg, written, trace[0]);
        let here: int = if o.write is Some {
            1
        } else {
            0
        };
        if o.close {
            here
        } else {
            here + trace_writes(cfg, o.next_written, trace.drop_first())
        }
    }
}

/// State-machine progress, write side: a turn of an `AfterResponse` listener
/// that finds the connection open, bytes to read and room to write sends the
/// configured payload exactly once and closes the connection.
pub proof fn lemma_after_response_writes_and_closes(cfg: TcpListenerData, written: bool, ready: Readiness)
    requires
        cfg.close_connection == CloseConnectionWhen::AfterResponse,
        ready.readable,
        ready.writable,
        !ready.read_closed,
        !ready.write_closed,
    ensures
        step_spec(cfg, written, ready).write == Option::Some(
            WriteCommand { delay_ms: cfg.delay_write_ms, source: payload_spec(cfg) },
        ),
        step_spec(cfg, written, ready).close,
{
}

/// State-machine progress, count side: an `AfterResponse` listener never
/// writes twice on one connection, whatever readiness the poll reports.
pub proof fn lemma_after_response_single_write(
    cfg: TcpListenerData,
    written: bool,
    trace: Seq<Readiness>,
)
    requires
        cfg.close_connection == CloseConnectionWhen::AfterResponse,
    ensures
        trace_writes(cfg, written, trace) <= 1,
    decreases trace.len(),
{
    if trace.len() > 0 {
        let o = step_spec(cfg, written, trace[0]);
        if !o.close {
            lemma_after_response_single_write(cfg, o.next_written, trace.drop_first());
        }
    }
}

} // verus!
