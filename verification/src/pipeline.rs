//! The acquisition pipeline as a machine: it takes what happened (a line
//! arrived, the source closed, the consumer is done) and says what to do
//! next. Whoever drives it reads the lines and writes the points.

use vstd::prelude::*;
use crate::error::DsmrError;
use crate::framer::{framer_step, Framer, FramerState};
use crate::telegram::{
    decode_telegram, dropped_fields, lemma_snapshot_complete, snapshot_of, FieldFailure,
    UsageData, UsageDataView,
};

verus! {

/// Where the pipeline stands.
#[derive(Clone, Copy, Debug, PartialEq, Eq, Structural)]
pub enum Phase {
    /// The producer reads lines; no snapshot is with the consumer.
    Reading,
    /// One snapshot is with the consumer; the producer waits.
    InFlight,
    /// The line source has closed.
    Stopped,
}

/// What happened outside.
#[derive(Clone, Debug, PartialEq, Eq)]
pub enum Event {
    /// The source gave a line.
    Line(String),
    /// The source has closed.
    SourceClosed,
    /// The consumer is done with the snapshot it was handed; `true` where
    /// the sink took its points.
    Delivered(bool),
}

/// What to do next.
#[derive(Clone, Debug, PartialEq, Eq)]
pub enum Action {
    /// Read the next line.
    ReadLine,
    /// Hand this snapshot to the consumer, and read no line before the
    /// consumer is done with it.
    HandOff(UsageData),
    /// Report this failure, then read the next line.
    Report(DsmrError),
    /// A snapshot is with the consumer: the line was not taken. Wait for
    /// the consumer.
    AwaitDelivery,
    /// Stop: nothing more can arrive.
    Stop(DsmrError),
}

/// An event as a mathematical value.
pub enum EventView {
    Line(Seq<char>),
    SourceClosed,
    Delivered(bool),
}

/// An action as a mathematical value.
pub enum ActionView {
    ReadLine,
    HandOff(UsageDataView),
    Report(DsmrError),
    AwaitDelivery,
    Stop(DsmrError),
}

impl View for Event {
    type V = EventView;

    open spec fn view(&self) -> EventView {
        match self {
            Event::Line(line) => EventView::Line(line@),
            Event::SourceClosed => EventView::SourceClosed,
            Event::Delivered(written) => EventView::Delivered(*written),
        }
    }
}

impl View for Action {
    type V = ActionView;

    open spec fn view(&self) -> ActionView {
        match self {
            Action::ReadLine => ActionView::ReadLine,
            Action::HandOff(usage) => ActionView::HandOff(usage@),
            Action::Report(e) => ActionView::Report(*e),
            Action::AwaitDelivery => ActionView::AwaitDelivery,
            Action::Stop(e) => ActionView::Stop(*e),
        }
    }
}

/// The state of the pipeline: its phase, and what the framer holds.
pub struct PipelineState {
    pub phase: Phase,
    pub framer: FramerState,
}

/// What the producer does with a line while it reads: the framer takes the
/// line; a telegram that the line completes is decoded, and is handed off
/// where it decodes and reported where it does not.
pub open spec fn take_line(state: PipelineState, line: Seq<char>) -> (PipelineState, ActionView) {
    let (framer, telegram) = framer_step(state.framer, line);
    match telegram {
        None => (PipelineState { phase: Phase::Reading, framer }, ActionView::ReadLine),
        Some(lines) => match snapshot_of(lines) {
            Ok(usage) => (
                PipelineState { phase: Phase::InFlight, framer },
                ActionView::HandOff(usage),
            ),
            Err(e) => (PipelineState { phase: Phase::Reading, framer }, ActionView::Report(e)),
        },
    }
}

/// The step of the pipeline.
/// - Once the source has closed, every event stops the pipeline.
/// - While a snapshot is with the consumer no line is taken; the consumer's
///   word that it is done sets the producer reading again, with a report
///   where the sink refused the points.
/// - While the producer reads, a line goes to the framer and on to the
///   decoder, a word from the consumer changes nothing.
pub open spec fn pipeline_step(state: PipelineState, event: EventView) -> (
    PipelineState,
    ActionView,
) {
    let stopped = (
        PipelineState { phase: Phase::Stopped, framer: state.framer },
        ActionView::Stop(DsmrError::SourceExhausted),
    );
    match (state.phase, event) {
        (Phase::Stopped, _) => stopped,
        (_, EventView::SourceClosed) => stopped,
        (Phase::Reading, EventView::Line(line)) => take_line(state, line),
        (Phase::Reading, EventView::Delivered(_)) => (state, ActionView::ReadLine),
        (Phase::InFlight, EventView::Line(_)) => (state, ActionView::AwaitDelivery),
        (Phase::InFlight, EventView::Delivered(written)) => (
            PipelineState { phase: Phase::Reading, framer: state.framer },
            if written {
                ActionView::ReadLine
            } else {
                ActionView::Report(DsmrError::SinkWriteFailed)
            },
        ),
    }
}

/// The fields that the step drops as malformed: those of the telegram that
/// the line completes, where the producer reads and the line completes one.
pub open spec fn dropped_by(state: PipelineState, event: EventView) -> Seq<FieldFailure> {
    match (state.phase, event) {
        (Phase::Reading, EventView::Line(line)) => match framer_step(state.framer, line).1 {
            Some(lines) => dropped_fields(lines),
            None => Seq::empty(),
        },
        _ => Seq::empty(),
    }
}

/// The answer of the pipeline to one event.
#[derive(Debug, PartialEq, Eq)]
pub struct Step {
    /// What to do next.
    pub action: Action,
    /// The malformed fields to report, whatever the action.
    pub dropped: Vec<FieldFailure>,
}

/// The acquisition pipeline.
pub struct Pipeline {
    phase: Phase,
    framer: Framer,
}

impl Pipeline {
    /// The state of the pipeline.
    pub closed spec fn state(&self) -> PipelineState {
        PipelineState { phase: self.phase, framer: self.framer.state() }
    }

    /// A pipeline whose producer waits for the start line of a telegram.
    pub fn new() -> (r: Pipeline)
        ensures
            r.state() == (PipelineState { phase: Phase::Reading, framer: None }),
    {
        Pipeline { phase: Phase::Reading, framer: Framer::new() }
    }

    /// Where the pipeline stands.
    pub fn phase(&self) -> (r: Phase)
        ensures
            r == self.state().phase,
    {
        self.phase
    }

    /// Takes an event and says what to do next.
    pub fn step(&mut self, event: Event) -> (r: Step)
        ensures
            (final(self).state(), r.action@) == pipeline_step(old(self).state(), event@),
            r.dropped@ == dropped_by(old(self).state(), event@),
    {
        let mut dropped: Vec<FieldFailure> = Vec::new();
        let action = match self.phase {
            Phase::Stopped => Action::Stop(DsmrError::SourceExhausted),
            Phase::Reading => match event {
                Event::SourceClosed => {
                    self.phase = Phase::Stopped;
                    Action::Stop(DsmrError::SourceExhausted)
                },
                Event::Delivered(_) => Action::ReadLine,
                Event::Line(line) => match self.framer.push_line(line) {
                    None => Action::ReadLine,
                    Some(telegram) => {
                        let decoded = decode_telegram(&telegram);
                        dropped = decoded.dropped;
                        match decoded.snapshot {
                            Ok(usage) => {
                                self.phase = Phase::InFlight;
                                Action::HandOff(usage)
                            },
                            Err(e) => Action::Report(e),
                        }
                    },
                },
            },
            Phase::InFlight => match event {
                Event::SourceClosed => {
                    self.phase = Phase::Stopped;
                    Action::Stop(DsmrError::SourceExhausted)
                },
                Event::Delivered(written) => {
                    self.phase = Phase::Reading;
                    if written {
                        Action::ReadLine
                    } else {
                        Action::Report(DsmrError::SinkWriteFailed)
                    }
                },
                Event::Line(_) => Action::AwaitDelivery,
            },
        };
        Step { action, dropped }
    }
}

/// The state of a pipeline that started in `start`, after the first `n` of
/// `events`.
pub open spec fn state_after(start: PipelineState, events: Seq<EventView>, n: int) -> PipelineState
    decreases n,
{
    if n <= 0 {
        start
    } else {
        pipeline_step(state_after(start, events, n - 1), events[n - 1]).0
    }
}

/// The action with which the pipeline answers the event at index `i`.
pub open spec fn action_at(start: PipelineState, events: Seq<EventView>, i: int) -> ActionView {
    pipeline_step(state_after(start, events, i), events[i]).1
}

/// A pipeline that has a snapshot in flight reads again only after the
/// consumer has said that it is done.
proof fn lemma_reading_resumes(start: PipelineState, events: Seq<EventView>, m: int, n: int)
    requires
        0 <= m <= n <= events.len(),
        state_after(start, events, m).phase == Phase::InFlight,
        state_after(start, events, n).phase == Phase::Reading,
    ensures
        exists|k: int| m <= k < n && (#[trigger] events[k]) is Delivered,
    decreases n - m,
{
    if m < n {
        let before = state_after(start, events, n - 1);
        if before.phase == Phase::Reading {
            lemma_reading_resumes(start, events, m, n - 1);
        } else {
            assert(events[n - 1] is Delivered);
        }
    }
}

/// Pacing: at most one snapshot is in flight. Between any two snapshots that
/// the pipeline hands off, the consumer has said that it is done with the
/// first.
pub proof fn lemma_one_in_flight(start: PipelineState, events: Seq<EventView>, i: int, j: int)
    requires
        0 <= i < j < events.len(),
        action_at(start, events, i) is HandOff,
        action_at(start, events, j) is HandOff,
    ensures
        exists|k: int| i < k < j && (#[trigger] events[k]) is Delivered,
{
    assert(state_after(start, events, i + 1).phase == Phase::InFlight);
    assert(state_after(start, events, j).phase == Phase::Reading);
    lemma_reading_resumes(start, events, i + 1, j);
}

/// One bad telegram does not stop the stream, and neither does a failed
/// write: only the end of the source stops the pipeline. What the pipeline
/// reports is recoverable, and it reads on after the report; what it stops
/// with is not.
pub proof fn lemma_failures_do_not_stop(state: PipelineState, event: EventView)
    requires
        state.phase != Phase::Stopped,
    ensures
        pipeline_step(state, event).0.phase == Phase::Stopped <==> event is SourceClosed,
        pipeline_step(state, event).1 is Stop <==> event is SourceClosed,
        pipeline_step(state, event).1 matches ActionView::Stop(e) ==> !e.recoverable(),
        pipeline_step(state, event).1 matches ActionView::Report(e) ==> e.recoverable()
            && pipeline_step(state, event).0.phase == Phase::Reading,
{
    if let EventView::Line(line) = event {
        if let Some(lines) = framer_step(state.framer, line).1 {
            lemma_snapshot_complete(lines);
        }
    }
}

} // verus!
