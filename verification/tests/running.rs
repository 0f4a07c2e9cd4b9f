use video_summarizer::error::{Stage, SummarizerError};
use video_summarizer::pipeline::{ProcessStep, Summary};
use video_summarizer::summarizer::{ApiResponse, ChunkReply, HuggingFaceSummarizer};

const URL: &str = "http://localhost:9/summarize";
const SOURCE: &str = "https://www.youtube.com/watch?v=dQw4w9WgXcQ";

fn client(max_chunk_length: usize) -> HuggingFaceSummarizer {
    HuggingFaceSummarizer::with_endpoint("secret".to_string(), URL.to_string(), max_chunk_length)
}

fn answer(summary: &str) -> ChunkReply {
    ChunkReply::Parsed(vec![ApiResponse { summary_text: summary.to_string() }])
}

/// What was asked of the outside during a run.
#[derive(Debug, Default, PartialEq)]
struct Asked {
    fetched: Vec<String>,
    sent: Vec<String>,
}

/// Runs `source` through the steps, with `fetched` as the outcome of the
/// fetch and `replies` as the replies of the endpoint.
fn run(
    client: &HuggingFaceSummarizer,
    source: &str,
    fetched: Result<&str, &str>,
    replies: Vec<ChunkReply>,
) -> (Asked, Result<Summary, SummarizerError>) {
    let mut asked = Asked::default();
    let mut replies = replies.into_iter();
    let mut step = client.process_video(source);
    loop {
        match step {
            ProcessStep::FetchTranscript { awaiting } => {
                asked.fetched.push(awaiting.video_id().clone());
                step = awaiting
                    .on_transcript(fetched.map(String::from).map_err(String::from));
            }
            ProcessStep::Send { state, request } => {
                assert_eq!(state.summarization().position(), asked.sent.len());
                asked.sent.push(request.inputs);
                step = state.on_reply(replies.next().expect("a reply for every request"));
            }
            ProcessStep::Done(summary) => return (asked, Ok(summary)),
            ProcessStep::Failed(error) => return (asked, Err(error)),
        }
    }
}

#[test]
fn a_source_without_identifier_fails_before_anything_is_asked() {
    let (asked, outcome) = run(&client(1024), "no identifier in here", Ok("unused"), Vec::new());
    assert_eq!(asked, Asked::default());
    assert_eq!(outcome, Err(SummarizerError::IdentifierNotFound));
}

#[test]
fn the_first_step_without_identifier_is_the_failure() {
    match client(1024).process_video("https://example.com/") {
        ProcessStep::Failed(error) => {
            assert_eq!(error, SummarizerError::IdentifierNotFound);
            assert_eq!(error.stage(), Stage::IdentifierExtraction);
        }
        other => panic!("unexpected step {:?}", other),
    }
}

#[test]
fn the_first_step_with_identifier_asks_for_the_transcript() {
    match client(1024).process_video(SOURCE) {
        ProcessStep::FetchTranscript { awaiting } => {
            assert_eq!(awaiting.video_id(), "dQw4w9WgXcQ");
        }
        other => panic!("unexpected step {:?}", other),
    }
}

#[test]
fn a_run_fills_the_whole_record() {
    let (asked, outcome) = run(
        &client(11),
        SOURCE,
        Ok("hello world foo"),
        vec![answer("A"), answer("B")],
    );
    assert_eq!(asked.fetched, vec!["dQw4w9WgXcQ"]);
    assert_eq!(asked.sent, vec!["hello", "world foo"]);
    assert_eq!(
        outcome,
        Ok(Summary {
            video_id: Some("dQw4w9WgXcQ".to_string()),
            transcript: Some("hello world foo".to_string()),
            summary: Some("A\n\nB".to_string()),
        })
    );
}

#[test]
fn the_record_keeps_the_transcript_as_it_came() {
    let transcript = "  spaced \n out\ttranscript ";
    let (_, outcome) = run(&client(1024), SOURCE, Ok(transcript), vec![answer("S")]);
    let summary = outcome.unwrap();
    assert_eq!(summary.transcript.as_deref(), Some(transcript));
    assert_eq!(summary.summary.as_deref(), Some("S"));
}

#[test]
fn a_failed_fetch_ends_the_run_with_its_cause() {
    let (asked, outcome) = run(
        &client(1024),
        SOURCE,
        Err("transcripts are disabled"),
        Vec::new(),
    );
    assert_eq!(asked.fetched, vec!["dQw4w9WgXcQ"]);
    assert!(asked.sent.is_empty());
    assert_eq!(
        outcome,
        Err(SummarizerError::TranscriptFetch("transcripts are disabled".to_string()))
    );
}

#[test]
fn a_transcript_without_words_gives_no_summary() {
    let (asked, outcome) = run(&client(1024), SOURCE, Ok("\n"), Vec::new());
    assert!(asked.sent.is_empty());
    assert_eq!(outcome, Err(SummarizerError::NoSummaryProduced));
}

#[test]
fn a_failed_request_ends_the_run() {
    let (asked, outcome) = run(
        &client(11),
        SOURCE,
        Ok("hello world foo"),
        vec![answer("A"), ChunkReply::RequestFailed("timed out".to_string())],
    );
    assert_eq!(asked.sent.len(), 2);
    assert_eq!(
        outcome,
        Err(SummarizerError::SummarizationTransport { chunk: 1, cause: "timed out".to_string() })
    );
}

#[test]
fn an_unreadable_answer_ends_the_run() {
    let (asked, outcome) = run(
        &client(11),
        SOURCE,
        Ok("hello world foo"),
        vec![ChunkReply::Unparseable("not a sequence".to_string())],
    );
    assert_eq!(asked.sent.len(), 1);
    assert_eq!(
        outcome,
        Err(SummarizerError::SummarizationParse { chunk: 0, cause: "not a sequence".to_string() })
    );
}

#[test]
fn a_run_with_a_given_identifier() {
    let client = client(1024);
    match client.process_identifier(Some("abcdefghijk".to_string())) {
        ProcessStep::FetchTranscript { awaiting } => assert_eq!(awaiting.video_id(), "abcdefghijk"),
        other => panic!("unexpected step {:?}", other),
    }
    match client.process_identifier(None) {
        ProcessStep::Failed(error) => assert_eq!(error, SummarizerError::IdentifierNotFound),
        other => panic!("unexpected step {:?}", other),
    }
}

#[test]
fn two_runs_do_not_share_anything() {
    let client = client(11);
    let first = run(&client, SOURCE, Ok("hello world foo"), vec![answer("A"), answer("B")]);
    let failed = run(&client, SOURCE, Err("gone"), Vec::new());
    let second = run(&client, SOURCE, Ok("hello world foo"), vec![answer("A"), answer("B")]);
    assert!(failed.1.is_err());
    assert_eq!(first, second);
}
