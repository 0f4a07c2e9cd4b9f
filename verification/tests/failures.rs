use video_summarizer::error::{Stage, SummarizerError};

fn all() -> Vec<SummarizerError> {
    vec![
        SummarizerError::Config("no such file".to_string()),
        SummarizerError::IdentifierNotFound,
        SummarizerError::TranscriptFetch("exit status 1".to_string()),
        SummarizerError::SummarizationTransport { chunk: 3, cause: "refused".to_string() },
        SummarizerError::SummarizationParse { chunk: 4, cause: "not a list".to_string() },
        SummarizerError::NoSummaryProduced,
    ]
}

#[test]
fn each_failure_names_its_stage_and_cause() {
    let lines: Vec<String> = all().iter().map(SummarizerError::describe).collect();
    assert_eq!(
        lines,
        vec![
            "Failed to read API token from config: no such file",
            "Failed to extract video ID from URL",
            "Failed to get transcript: exit status 1",
            "Failed to send request to API: refused",
            "Failed to parse API response: not a list",
            "No summaries were generated",
        ]
    );
}

#[test]
fn each_failure_belongs_to_a_stage() {
    let stages: Vec<Stage> = all().iter().map(SummarizerError::stage).collect();
    assert_eq!(
        stages,
        vec![
            Stage::Configuration,
            Stage::IdentifierExtraction,
            Stage::TranscriptFetch,
            Stage::Summarization,
            Stage::Summarization,
            Stage::Summarization,
        ]
    );
}

#[test]
fn an_empty_cause_leaves_the_stage() {
    assert_eq!(
        SummarizerError::TranscriptFetch(String::new()).describe(),
        "Failed to get transcript: "
    );
}

#[test]
fn failures_differ_by_chunk_and_cause() {
    let at = |chunk: usize, cause: &str| SummarizerError::SummarizationTransport {
        chunk,
        cause: cause.to_string(),
    };
    assert_eq!(at(1, "x"), at(1, "x"));
    assert_ne!(at(1, "x"), at(2, "x"));
    assert_ne!(at(1, "x"), at(1, "y"));
    assert_ne!(
        at(1, "x"),
        SummarizerError::SummarizationParse { chunk: 1, cause: "x".to_string() }
    );
}
