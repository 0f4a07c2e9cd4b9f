//! The run from a source string to a summary: find the identifier, fetch the
//! transcript, summarize it. The first failure ends the run.
//!
//! Fetching the transcript and talking to the endpoint are left to the
//! caller: each step names what to do next and takes the outcome back.

use vstd::prelude::*;
use crate::error::{ErrorView, SummarizerError};
use crate::summarizer::{
    first_step, next_step, ChunkReply, HuggingFaceSummarizer, ReplyView, RequestView, StepView,
    Summarization, SummarizationView, SummarizeStep, SummarizerView, SummaryRequest,
};
use crate::video_id::{holds_video_id, video_id_in};

verus! {

/// The record of a run.
#[derive(Clone, Debug, PartialEq, Eq)]
pub struct Summary {
    pub video_id: Option<String>,
    pub transcript: Option<String>,
    pub summary: Option<String>,
}

/// The mathematical value of a [`Summary`].
pub struct SummaryView {
    pub video_id: Option<Seq<char>>,
    pub transcript: Option<Seq<char>>,
    pub summary: Option<Seq<char>>,
}

impl View for Summary {
    type V = SummaryView;

    open spec fn view(&self) -> SummaryView {
        SummaryView {
            video_id: self.video_id.deep_view(),
            transcript: self.transcript.deep_view(),
            summary: self.summary.deep_view(),
        }
    }
}

/// A run that has its identifier and awaits the transcript.
#[derive(Debug)]
pub struct TranscriptPending {
    client: HuggingFaceSummarizer,
    video_id: String,
}

/// The mathematical value of a [`TranscriptPending`].
pub struct TranscriptPendingView {
    pub client: SummarizerView,
    pub video_id: Seq<char>,
}

impl View for TranscriptPending {
    type V = TranscriptPendingView;

    closed spec fn view(&self) -> TranscriptPendingView {
        TranscriptPendingView { client: self.client@, video_id: self.video_id@ }
    }
}

/// A run that has its transcript and awaits the reply for a chunk.
#[derive(Debug)]
pub struct SummaryPending {
    video_id: String,
    transcript: String,
    summarization: Summarization,
}

/// The mathematical value of a [`SummaryPending`].
pub struct SummaryPendingView {
    pub video_id: Seq<char>,
    pub transcript: Seq<char>,
    pub summarization: SummarizationView,
}

impl View for SummaryPending {
    type V = SummaryPendingView;

    closed spec fn view(&self) -> SummaryPendingView {
        SummaryPendingView {
            video_id: self.video_id@,
            transcript: self.transcript@,
            summarization: self.summarization@,
        }
    }
}

/// Where a run stands, and with it what the caller does next. A run moves
/// forward only: from the identifier to the transcript, from the transcript
/// through its chunks to the summary. From everywhere it can fail, and a
/// failed run cannot be taken up again.
#[derive(Debug)]
pub enum ProcessStep {
    /// The identifier is extracted. Fetch the transcript for the identifier
    /// of `awaiting` and hand the outcome to `awaiting`.
    FetchTranscript { awaiting: TranscriptPending },
    /// The transcript is fetched. Send `request` and hand the reply to
    /// `state`.
    Send { state: SummaryPending, request: SummaryRequest },
    /// The transcript is summarized: the run is complete, and every field of
    /// the record is filled.
    Done(Summary),
    /// The run failed; nothing of it is kept.
    Failed(SummarizerError),
}

/// The mathematical value of a [`ProcessStep`].
pub enum ProcessView {
    FetchTranscript { awaiting: TranscriptPendingView },
    Send { state: SummaryPendingView, request: RequestView },
    Done(SummaryView),
    Failed(ErrorView),
}

impl View for ProcessStep {
    type V = ProcessView;

    open spec fn view(&self) -> ProcessView {
        match self {
            ProcessStep::FetchTranscript { awaiting } => ProcessView::FetchTranscript {
                awaiting: awaiting@,
            },
            ProcessStep::Send { state, request } => ProcessView::Send {
                state: state@,
                request: request@,
            },
            ProcessStep::Done(summary) => ProcessView::Done(summary@),
            ProcessStep::Failed(error) => ProcessView::Failed(error@),
        }
    }
}

/// The mathematical value of the outcome of a fetch: the transcript, or the
/// description of the cause of the failure.
pub open spec fn fetch_view(fetched: Result<String, String>) -> Result<Seq<char>, Seq<char>> {
    match fetched {
        Ok(transcript) => Ok(transcript@),
        Err(cause) => Err(cause@),
    }
}

/// How a run begins once the search for the identifier is over: without an
/// identifier it fails before anything is fetched; with one, the transcript
/// is asked for.
pub open spec fn start_with(client: SummarizerView, video_id: Option<Seq<char>>) -> ProcessView {
    match video_id {
        None => ProcessView::Failed(ErrorView::IdentifierNotFound),
        Some(video_id) => ProcessView::FetchTranscript {
            awaiting: TranscriptPendingView { client, video_id },
        },
    }
}

/// How a run on `source` begins.
pub open spec fn start(client: SummarizerView, source: Seq<char>) -> ProcessView {
    start_with(client, video_id_in(source))
}

/// A step of the summarization as a step of the run for `video_id` and
/// `transcript`: the finished summary completes the record.
pub open spec fn in_run(video_id: Seq<char>, transcript: Seq<char>, step: StepView)
    -> ProcessView {
    match step {
        StepView::Send { state, request } => ProcessView::Send {
            state: SummaryPendingView { video_id, transcript, summarization: state },
            request,
        },
        StepView::Finished(summary) => ProcessView::Done(
            SummaryView {
                video_id: Some(video_id),
                transcript: Some(transcript),
                summary: Some(summary),
            },
        ),
        StepView::Failed(error) => ProcessView::Failed(error),
    }
}

/// How a run goes on when the fetch ends: a failure ends the run with its
/// cause; a transcript is summarized from its first chunk on.
pub open spec fn after_transcript(
    state: TranscriptPendingView,
    fetched: Result<Seq<char>, Seq<char>>,
) -> ProcessView {
    match fetched {
        Err(cause) => ProcessView::Failed(ErrorView::TranscriptFetch(cause)),
        Ok(transcript) => in_run(state.video_id, transcript, first_step(state.client, transcript)),
    }
}

/// How a run goes on when the reply for the awaited chunk comes in.
pub open spec fn after_reply(state: SummaryPendingView, reply: ReplyView) -> ProcessView {
    in_run(state.video_id, state.transcript, next_step(state.summarization, reply))
}

/// Carries a step of the summarization over into the run.
fn continue_run(video_id: String, transcript: String, step: SummarizeStep) -> (next: ProcessStep)
    ensures
        next@ == in_run(video_id@, transcript@, step@),
{
    match step {
        SummarizeStep::Send { state, request } => ProcessStep::Send {
            state: SummaryPending { video_id, transcript, summarization: state },
            request,
        },
        SummarizeStep::Finished(summary) => ProcessStep::Done(
            Summary {
                video_id: Some(video_id),
                transcript: Some(transcript),
                summary: Some(summary),
            },
        ),
        SummarizeStep::Failed(error) => ProcessStep::Failed(error),
    }
}

impl HuggingFaceSummarizer {
    /// Begins a run on `youtube_url`. A string that holds no identifier
    /// behind a marker ends the run at once, before anything is fetched or
    /// sent; the identifier that a run goes on with stands in the string.
    pub fn process_video(&self, youtube_url: &str) -> (step: ProcessStep)
        ensures
            step@ == start(self@, youtube_url@),
            (forall|any: Seq<char>| !holds_video_id(youtube_url@, any)) ==> step@
                == ProcessView::Failed(ErrorView::IdentifierNotFound),
            step@ matches ProcessView::FetchTranscript { awaiting } ==> awaiting.client == self@
                && holds_video_id(youtube_url@, awaiting.video_id),
    {
        self.process_identifier(Self::extract_video_id(youtube_url))
    }

    /// Begins a run with what the search for the identifier gave.
    pub fn process_identifier(&self, video_id: Option<String>) -> (step: ProcessStep)
        ensures
            step@ == start_with(self@, video_id.deep_view()),
    {
        match video_id {
            None => ProcessStep::Failed(SummarizerError::IdentifierNotFound),
            Some(video_id) => ProcessStep::FetchTranscript {
                awaiting: TranscriptPending { client: self.clone(), video_id },
            },
        }
    }
}

impl TranscriptPending {
    /// The identifier to fetch the transcript for.
    pub fn video_id(&self) -> (video_id: &String)
        ensures
            video_id@ == self@.video_id,
    {
        &self.video_id
    }

    /// Takes the outcome of the fetch, `Err` with a description of the cause
    /// where it failed, and says what to do next.
    pub fn on_transcript(self, fetched: Result<String, String>) -> (step: ProcessStep)
        ensures
            step@ == after_transcript(self@, fetch_view(fetched)),
    {
        let TranscriptPending { client, video_id } = self;
        match fetched {
            Err(cause) => ProcessStep::Failed(SummarizerError::TranscriptFetch(cause)),
            Ok(transcript) => {
                let first = client.summarize_text(transcript.as_str());
                continue_run(video_id, transcript, first)
            },
        }
    }
}

impl SummaryPending {
    /// The summarization that the run is in.
    pub fn summarization(&self) -> (summarization: &Summarization)
        ensures
            summarization@ == self@.summarization,
    {
        &self.summarization
    }

    /// Takes the reply for the awaited chunk and says what to do next.
    pub fn on_reply(self, reply: ChunkReply) -> (step: ProcessStep)
        ensures
            step@ == after_reply(self@, reply@),
    {
        let SummaryPending { video_id, transcript, summarization } = self;
        let next = summarization.on_reply(reply);
        continue_run(video_id, transcript, next)
    }
}

} // verus!
