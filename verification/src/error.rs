//! The failures of a run, by the stage at which they occur.

use vstd::prelude::*;
use vstd::string::StringExecFns;

verus! {

/// The stage of a run at which a failure occurs.
#[derive(Clone, Copy, Debug, PartialEq, Eq, Structural)]
pub enum Stage {
    /// Loading the credential, before anything is fetched.
    Configuration,
    /// Finding the video identifier in the source string.
    IdentifierExtraction,
    /// Obtaining the transcript for the identifier.
    TranscriptFetch,
    /// Summarizing the chunks of the transcript.
    Summarization,
}

/// Why a run failed.
#[derive(Clone, Debug, PartialEq, Eq)]
pub enum SummarizerError {
    /// The credential could not be loaded.
    Config(String),
    /// The source string holds no video identifier.
    IdentifierNotFound,
    /// The transcript could not be obtained.
    TranscriptFetch(String),
    /// The request for the chunk at index `chunk` did not get an answer.
    SummarizationTransport { chunk: usize, cause: String },
    /// The answer for the chunk at index `chunk` did not have the expected shape.
    SummarizationParse { chunk: usize, cause: String },
    /// Every chunk was answered, yet no answer held a summary.
    NoSummaryProduced,
}

/// The mathematical value of a [`SummarizerError`].
pub enum ErrorView {
    Config(Seq<char>),
    IdentifierNotFound,
    TranscriptFetch(Seq<char>),
    SummarizationTransport { chunk: nat, cause: Seq<char> },
    SummarizationParse { chunk: nat, cause: Seq<char> },
    NoSummaryProduced,
}

impl View for SummarizerError {
    type V = ErrorView;

    open spec fn view(&self) -> ErrorView {
        match self {
            SummarizerError::Config(cause) => ErrorView::Config(cause@),
            SummarizerError::IdentifierNotFound => ErrorView::IdentifierNotFound,
            SummarizerError::TranscriptFetch(cause) => ErrorView::TranscriptFetch(cause@),
            SummarizerError::SummarizationTransport { chunk, cause } => {
                ErrorView::SummarizationTransport { chunk: *chunk as nat, cause: cause@ }
            },
            SummarizerError::SummarizationParse { chunk, cause } => {
                ErrorView::SummarizationParse { chunk: *chunk as nat, cause: cause@ }
            },
            SummarizerError::NoSummaryProduced => ErrorView::NoSummaryProduced,
        }
    }
}

impl ErrorView {
    /// The stage that the failure belongs to.
    pub open spec fn stage(self) -> Stage {
        match self {
            ErrorView::Config(_) => Stage::Configuration,
            ErrorView::IdentifierNotFound => Stage::IdentifierExtraction,
            ErrorView::TranscriptFetch(_) => Stage::TranscriptFetch,
            ErrorView::SummarizationTransport { .. } => Stage::Summarization,
            ErrorView::SummarizationParse { .. } => Stage::Summarization,
            ErrorView::NoSummaryProduced => Stage::Summarization,
        }
    }

    /// The sentence that names the stage, followed by the cause where there is one.
    pub open spec fn description(self) -> Seq<char> {
        match self {
            ErrorView::Config(cause) => "Failed to read API token from config: "@ + cause,
            ErrorView::IdentifierNotFound => "Failed to extract video ID from URL"@,
            ErrorView::TranscriptFetch(cause) => "Failed to get transcript: "@ + cause,
            ErrorView::SummarizationTransport { cause, .. } => "Failed to send request to API: "@
                + cause,
            ErrorView::SummarizationParse { cause, .. } => "Failed to parse API response: "@
                + cause,
            ErrorView::NoSummaryProduced => "No summaries were generated"@,
        }
    }
}

impl SummarizerError {
    /// The stage at which this failure occurred.
    pub fn stage(&self) -> (stage: Stage)
        ensures
            stage == self@.stage(),
    {
        match self {
            SummarizerError::Config(_) => Stage::Configuration,
            SummarizerError::IdentifierNotFound => Stage::IdentifierExtraction,
            SummarizerError::TranscriptFetch(_) => Stage::TranscriptFetch,
            SummarizerError::SummarizationTransport { .. } => Stage::Summarization,
            SummarizerError::SummarizationParse { .. } => Stage::Summarization,
            SummarizerError::NoSummaryProduced => Stage::Summarization,
        }
    }

    /// A line for the user: the stage that failed and the underlying cause.
    pub fn describe(&self) -> (line: String)
        ensures
            line@ == self@.description(),
    {
        match self {
            SummarizerError::Config(cause) => {
                String::from_str("Failed to read API token from config: ").concat(cause.as_str())
            },
            SummarizerError::IdentifierNotFound => {
                String::from_str("Failed to extract video ID from URL")
            },
            SummarizerError::TranscriptFetch(cause) => {
                String::from_str("Failed to get transcript: ").concat(cause.as_str())
            },
            SummarizerError::SummarizationTransport { cause, .. } => {
                String::from_str("Failed to send request to API: ").concat(cause.as_str())
            },
            SummarizerError::SummarizationParse { cause, .. } => {
                String::from_str("Failed to parse API response: ").concat(cause.as_str())
            },
            SummarizerError::NoSummaryProduced => String::from_str("No summaries were generated"),
        }
    }
}

} // verus!
