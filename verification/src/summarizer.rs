//! The summarization client: what is sent for each chunk of a text, what is
//! read from each reply, and how the summaries are put together.
//!
//! Talking to the endpoint is left to the caller. The client says which
//! request to send next; the caller sends it and hands the reply back.

use vstd::prelude::*;
use vstd::string::StringExecFns;
use crate::chunker::chunk_text_spec;
use crate::error::{ErrorView, SummarizerError};
use crate::text::{join, join_strings};

verus! {

/// The model endpoint that summaries are requested from by default.
pub const DEFAULT_API_URL: &'static str =
    "https://api-inference.huggingface.co/models/facebook/bart-large-cnn";

/// The most characters that a chunk of the text holds by default.
pub const DEFAULT_CHUNK_LENGTH: usize = 1024;

/// The longest summary that the endpoint is asked for.
pub const SUMMARY_MAX_LENGTH: u32 = 150;

/// The shortest summary that the endpoint is asked for.
pub const SUMMARY_MIN_LENGTH: u32 = 30;

/// Whether the endpoint samples while decoding.
pub const SUMMARY_DO_SAMPLE: bool = false;

/// What stands in front of the token in the `Authorization` header.
pub const BEARER_PREFIX: &'static str = "Bearer ";

/// What stands between the summaries of neighbouring chunks.
pub const SUMMARY_SEPARATOR: &'static str = "\n\n";

/// A client for one summarization endpoint.
#[derive(Debug)]
pub struct HuggingFaceSummarizer {
    api_token: String,
    api_url: String,
    max_chunk_length: usize,
}

/// The mathematical value of a [`HuggingFaceSummarizer`].
pub struct SummarizerView {
    pub api_token: Seq<char>,
    pub api_url: Seq<char>,
    pub max_chunk_length: nat,
}

impl View for HuggingFaceSummarizer {
    type V = SummarizerView;

    closed spec fn view(&self) -> SummarizerView {
        SummarizerView {
            api_token: self.api_token@,
            api_url: self.api_url@,
            max_chunk_length: self.max_chunk_length as nat,
        }
    }
}

impl Clone for HuggingFaceSummarizer {
    fn clone(&self) -> (copy: Self)
        ensures
            copy@ == self@,
    {
        HuggingFaceSummarizer {
            api_token: self.api_token.clone(),
            api_url: self.api_url.clone(),
            max_chunk_length: self.max_chunk_length,
        }
    }
}

/// The fixed settings that go with every chunk.
#[derive(Clone, Copy, Debug, PartialEq, Eq, Structural)]
pub struct GenerationParameters {
    pub max_length: u32,
    pub min_length: u32,
    pub do_sample: bool,
}

/// One request to the endpoint: where it goes, the credential, and the body.
#[derive(Clone, Debug, PartialEq, Eq)]
pub struct SummaryRequest {
    /// The address that the request is posted to.
    pub url: String,
    /// The value of the `Authorization` header.
    pub authorization: String,
    /// The chunk to summarize: the field `inputs` of the body.
    pub inputs: String,
    /// The field `parameters` of the body.
    pub parameters: GenerationParameters,
}

/// The mathematical value of a [`SummaryRequest`].
pub struct RequestView {
    pub url: Seq<char>,
    pub authorization: Seq<char>,
    pub inputs: Seq<char>,
    pub parameters: GenerationParameters,
}

impl View for SummaryRequest {
    type V = RequestView;

    open spec fn view(&self) -> RequestView {
        RequestView {
            url: self.url@,
            authorization: self.authorization@,
            inputs: self.inputs@,
            parameters: self.parameters,
        }
    }
}

/// One result object of a reply.
#[derive(Clone, Debug, PartialEq, Eq)]
pub struct ApiResponse {
    pub summary_text: String,
}

impl View for ApiResponse {
    type V = Seq<char>;

    open spec fn view(&self) -> Seq<char> {
        self.summary_text@
    }
}

impl DeepView for ApiResponse {
    type V = Seq<char>;

    open spec fn deep_view(&self) -> Seq<char> {
        self.summary_text@
    }
}

/// What came back for one request.
#[derive(Clone, Debug, PartialEq, Eq)]
pub enum ChunkReply {
    /// The endpoint answered with these result objects, in order.
    Parsed(Vec<ApiResponse>),
    /// The request failed before an answer could be read.
    RequestFailed(String),
    /// An answer came, but not as a sequence of result objects.
    Unparseable(String),
}

/// The mathematical value of a [`ChunkReply`]: a result object is its
/// summary text.
pub enum ReplyView {
    Parsed(Seq<Seq<char>>),
    RequestFailed(Seq<char>),
    Unparseable(Seq<char>),
}

impl View for ChunkReply {
    type V = ReplyView;

    open spec fn view(&self) -> ReplyView {
        match self {
            ChunkReply::Parsed(results) => ReplyView::Parsed(results.deep_view()),
            ChunkReply::RequestFailed(cause) => ReplyView::RequestFailed(cause@),
            ChunkReply::Unparseable(cause) => ReplyView::Unparseable(cause@),
        }
    }
}

/// A summarization under way: the chunk at `position` has been sent and its
/// reply is awaited.
#[derive(Debug)]
pub struct Summarization {
    url: String,
    authorization: String,
    chunks: Vec<String>,
    position: usize,
    summaries: Vec<String>,
}

/// The mathematical value of a [`Summarization`].
pub struct SummarizationView {
    pub url: Seq<char>,
    pub authorization: Seq<char>,
    /// The chunks of the text, in document order.
    pub chunks: Seq<Seq<char>>,
    /// The index of the chunk whose reply is awaited.
    pub position: nat,
    /// The summaries read from the replies so far, in document order.
    pub summaries: Seq<Seq<char>>,
}

impl SummarizationView {
    /// A reply is awaited for a chunk that exists, and no more summaries
    /// were read than replies came in.
    pub open spec fn wf(self) -> bool {
        &&& self.position < self.chunks.len()
        &&& self.summaries.len() <= self.position
    }
}

impl Summarization {
    #[verifier::type_invariant]
    spec fn well_formed(self) -> bool {
        &&& self.position < self.chunks.len()
        &&& self.summaries.len() <= self.position
    }
}

impl View for Summarization {
    type V = SummarizationView;

    closed spec fn view(&self) -> SummarizationView {
        SummarizationView {
            url: self.url@,
            authorization: self.authorization@,
            chunks: self.chunks.deep_view(),
            position: self.position as nat,
            summaries: self.summaries.deep_view(),
        }
    }
}

/// What the caller does next.
#[derive(Debug)]
pub enum SummarizeStep {
    /// Send `request` and hand the reply to `state`.
    Send { state: Summarization, request: SummaryRequest },
    /// Every chunk is summarized: this is the summary of the text.
    Finished(String),
    /// The summarization failed; nothing of it is kept.
    Failed(SummarizerError),
}

/// The mathematical value of a [`SummarizeStep`].
pub enum StepView {
    Send { state: SummarizationView, request: RequestView },
    Finished(Seq<char>),
    Failed(ErrorView),
}

impl View for SummarizeStep {
    type V = StepView;

    open spec fn view(&self) -> StepView {
        match self {
            SummarizeStep::Send { state, request } => StepView::Send {
                state: state@,
                request: request@,
            },
            SummarizeStep::Finished(summary) => StepView::Finished(summary@),
            SummarizeStep::Failed(error) => StepView::Failed(error@),
        }
    }
}

/// The value of the `Authorization` header for `token`.
pub open spec fn authorization_of(token: Seq<char>) -> Seq<char> {
    BEARER_PREFIX@ + token
}

/// The settings that go with every chunk.
pub open spec fn standard_parameters() -> GenerationParameters {
    GenerationParameters {
        max_length: SUMMARY_MAX_LENGTH,
        min_length: SUMMARY_MIN_LENGTH,
        do_sample: SUMMARY_DO_SAMPLE,
    }
}

/// The request that asks for the summary of `chunk`.
pub open spec fn request_for(url: Seq<char>, authorization: Seq<char>, chunk: Seq<char>)
    -> RequestView {
    RequestView { url, authorization, inputs: chunk, parameters: standard_parameters() }
}

/// The summaries of the chunks put together: in order, a blank line between
/// neighbours.
pub open spec fn join_summaries(summaries: Seq<Seq<char>>) -> Seq<char> {
    join(summaries, SUMMARY_SEPARATOR@)
}

/// What a reply adds to the summaries: the summary text of its first result
/// object, or nothing where it holds no result object.
pub open spec fn with_first_result(summaries: Seq<Seq<char>>, results: Seq<Seq<char>>) -> Seq<
    Seq<char>,
> {
    if results.len() > 0 {
        summaries.push(results[0])
    } else {
        summaries
    }
}

/// How a summarization of `text` begins: with the request for the first
/// chunk, or, where the text has no words, with the failure to produce any
/// summary.
pub open spec fn first_step(client: SummarizerView, text: Seq<char>) -> StepView {
    let chunks = chunk_text_spec(text, client.max_chunk_length as int);
    let authorization = authorization_of(client.api_token);
    if chunks.len() == 0 {
        StepView::Failed(ErrorView::NoSummaryProduced)
    } else {
        StepView::Send {
            state: SummarizationView {
                url: client.api_url,
                authorization,
                chunks,
                position: 0,
                summaries: Seq::empty(),
            },
            request: request_for(client.api_url, authorization, chunks[0]),
        }
    }
}

/// How a summarization goes on when `reply` comes in for the chunk at
/// `state.position`. A failed request or an unreadable answer ends it with
/// the failure and the position of the chunk. Otherwise the first result is
/// kept and the next chunk is requested; after the last chunk the summaries
/// are joined, or the run fails where there is none.
pub open spec fn next_step(state: SummarizationView, reply: ReplyView) -> StepView {
    match reply {
        ReplyView::RequestFailed(cause) => StepView::Failed(
            ErrorView::SummarizationTransport { chunk: state.position, cause },
        ),
        ReplyView::Unparseable(cause) => StepView::Failed(
            ErrorView::SummarizationParse { chunk: state.position, cause },
        ),
        ReplyView::Parsed(results) => {
            let summaries = with_first_result(state.summaries, results);
            if state.position + 1 < state.chunks.len() {
                StepView::Send {
                    state: SummarizationView {
                        position: state.position + 1,
                        summaries,
                        ..state
                    },
                    request: request_for(
                        state.url,
                        state.authorization,
                        state.chunks[state.position as int + 1],
                    ),
                }
            } else if summaries.len() == 0 {
                StepView::Failed(ErrorView::NoSummaryProduced)
            } else {
                StepView::Finished(join_summaries(summaries))
            }
        },
    }
}

/// The step that is reached from `step` when `replies` come in, in order,
/// one for each request. Replies that come after the end are not looked at.
pub open spec fn after_replies(step: StepView, replies: Seq<ReplyView>) -> StepView
    decreases replies.len(),
{
    if replies.len() == 0 {
        step
    } else {
        match step {
            StepView::Send { state, .. } => after_replies(
                next_step(state, replies[0]),
                replies.skip(1),
            ),
            _ => step,
        }
    }
}

/// The summaries that are held after `replies`, all of them answers, came
/// in on top of `summaries`: each answer adds the text of its first result,
/// an answer without results adds nothing.
pub open spec fn collected(summaries: Seq<Seq<char>>, replies: Seq<ReplyView>) -> Seq<Seq<char>>
    decreases replies.len(),
{
    if replies.len() == 0 {
        summaries
    } else {
        collected(with_first_result(summaries, replies[0]->Parsed_0), replies.skip(1))
    }
}

/// The failure that `reply` means for the chunk at index `chunk`, if it is
/// one.
pub open spec fn failure_of(reply: ReplyView, chunk: nat) -> Option<ErrorView> {
    match reply {
        ReplyView::RequestFailed(cause) => Some(ErrorView::SummarizationTransport { chunk, cause }),
        ReplyView::Unparseable(cause) => Some(ErrorView::SummarizationParse { chunk, cause }),
        ReplyView::Parsed(_) => None,
    }
}

/// How a summarization ends that has gathered `summaries` from all its chunks.
pub open spec fn conclusion(summaries: Seq<Seq<char>>) -> StepView {
    if summaries.len() == 0 {
        StepView::Failed(ErrorView::NoSummaryProduced)
    } else {
        StepView::Finished(join_summaries(summaries))
    }
}

impl HuggingFaceSummarizer {
    /// A client for the default endpoint, with the default chunk length.
    pub fn new(api_token: String) -> (client: Self)
        ensures
            client@ == (SummarizerView {
                api_token: api_token@,
                api_url: DEFAULT_API_URL@,
                max_chunk_length: DEFAULT_CHUNK_LENGTH as nat,
            }),
    {
        HuggingFaceSummarizer {
            api_token,
            api_url: String::from_str(DEFAULT_API_URL),
            max_chunk_length: DEFAULT_CHUNK_LENGTH,
        }
    }

    /// A client for the endpoint at `api_url` that cuts texts into chunks of
    /// at most `max_chunk_length` characters.
    pub fn with_endpoint(api_token: String, api_url: String, max_chunk_length: usize) -> (client:
        Self)
        ensures
            client@ == (SummarizerView {
                api_token: api_token@,
                api_url: api_url@,
                max_chunk_length: max_chunk_length as nat,
            }),
    {
        HuggingFaceSummarizer { api_token, api_url, max_chunk_length }
    }

    /// The value of the `Authorization` header: the bearer prefix, then the token.
    pub fn authorization(&self) -> (header: String)
        ensures
            header@ == authorization_of(self@.api_token),
    {
        String::from_str(BEARER_PREFIX).concat(self.api_token.as_str())
    }

    /// The request that asks this client's endpoint for the summary of
    /// `chunk`.
    pub fn chunk_request(&self, chunk: &str) -> (request: SummaryRequest)
        ensures
            request@ == request_for(self@.api_url, authorization_of(self@.api_token), chunk@),
    {
        SummaryRequest {
            url: self.api_url.clone(),
            authorization: self.authorization(),
            inputs: String::from_str(chunk),
            parameters: GenerationParameters {
                max_length: SUMMARY_MAX_LENGTH,
                min_length: SUMMARY_MIN_LENGTH,
                do_sample: SUMMARY_DO_SAMPLE,
            },
        }
    }

    /// Begins the summarization of `text`: cuts it into chunks and asks for
    /// the summary of the first one.
    pub fn summarize_text(&self, text: &str) -> (step: SummarizeStep)
        ensures
            step@ == first_step(self@, text@),
    {
        let chunks = Self::chunk_text(text, self.max_chunk_length);
        if chunks.len() == 0 {
            return SummarizeStep::Failed(SummarizerError::NoSummaryProduced);
        }
        let request = self.chunk_request(chunks[0].as_str());
        let state = Summarization {
            url: self.api_url.clone(),
            authorization: self.authorization(),
            chunks,
            position: 0,
            summaries: Vec::new(),
        };
        assert(state.summaries.deep_view() =~= Seq::<Seq<char>>::empty());
        SummarizeStep::Send { state, request }
    }
}

/// Builds the request that asks for the summary of `chunk`.
fn build_request(url: &String, authorization: &String, chunk: &String) -> (request: SummaryRequest)
    ensures
        request@ == request_for(url@, authorization@, chunk@),
{
    SummaryRequest {
        url: url.clone(),
        authorization: authorization.clone(),
        inputs: chunk.clone(),
        parameters: GenerationParameters {
            max_length: SUMMARY_MAX_LENGTH,
            min_length: SUMMARY_MIN_LENGTH,
            do_sample: SUMMARY_DO_SAMPLE,
        },
    }
}

impl Summarization {
    /// The index of the chunk whose reply is awaited.
    pub fn position(&self) -> (position: usize)
        ensures
            position == self@.position,
            self@.wf(),
    {
        proof {
            use_type_invariant(self);
        }
        self.position
    }

    /// The number of chunks that the text was cut into.
    pub fn chunk_count(&self) -> (count: usize)
        ensures
            count == self@.chunks.len(),
            self@.wf(),
    {
        proof {
            use_type_invariant(self);
        }
        self.chunks.len()
    }

    /// Takes the reply for the awaited chunk and says what to do next.
    pub fn on_reply(self, reply: ChunkReply) -> (step: SummarizeStep)
        ensures
            self@.wf(),
            step@ == next_step(self@, reply@),
    {
        proof {
            use_type_invariant(&self);
        }
        let ghost before = self@;
        let Summarization { url, authorization, chunks, position, summaries } = self;
        let mut summaries = summaries;
        match reply {
            ChunkReply::RequestFailed(cause) => SummarizeStep::Failed(
                SummarizerError::SummarizationTransport { chunk: position, cause },
            ),
            ChunkReply::Unparseable(cause) => SummarizeStep::Failed(
                SummarizerError::SummarizationParse { chunk: position, cause },
            ),
            ChunkReply::Parsed(results) => {
                if results.len() > 0 {
                    summaries.push(results[0].summary_text.clone());
                    assert(summaries.deep_view() =~= before.summaries.push(
                        results.deep_view()[0],
                    ));
                }
                let next = position + 1;
                if next < chunks.len() {
                    let request = build_request(&url, &authorization, &chunks[next]);
                    let state = Summarization {
                        url,
                        authorization,
                        chunks,
                        position: next,
                        summaries,
                    };
                    SummarizeStep::Send { state, request }
                } else if summaries.len() == 0 {
                    SummarizeStep::Failed(SummarizerError::NoSummaryProduced)
                } else {
                    SummarizeStep::Finished(join_strings(&summaries, SUMMARY_SEPARATOR))
                }
            },
        }
    }
}

/// While answers come in and chunks are left, the chunks are requested one
/// after the other in document order, and the summaries are kept in the
/// order of their chunks.
pub proof fn lemma_requests_follow_chunks(
    state: SummarizationView,
    request: RequestView,
    replies: Seq<ReplyView>,
)
    requires
        state.wf(),
        state.position + replies.len() < state.chunks.len(),
        forall|i: int| 0 <= i < replies.len() ==> #[trigger] replies[i] is Parsed,
    ensures
        after_replies(StepView::Send { state, request }, replies) == (StepView::Send {
            state: SummarizationView {
                position: state.position + replies.len(),
                summaries: collected(state.summaries, replies),
                ..state
            },
            request: if replies.len() == 0 {
                request
            } else {
                request_for(
                    state.url,
                    state.authorization,
                    state.chunks[state.position as int + replies.len()],
                )
            },
        }),
        collected(state.summaries, replies).len() <= state.position + replies.len(),
    decreases replies.len(),
{
    if replies.len() > 0 {
        let rest = replies.skip(1);
        let next = next_step(state, replies[0]);
        assert forall|i: int| 0 <= i < rest.len() implies #[trigger] rest[i] is Parsed by {
            assert(rest[i] == replies[i + 1]);
        }
        lemma_requests_follow_chunks(next->state, next->request, rest);
    }
}

/// When every chunk of a text is answered, the summarization ends with the
/// summaries that the answers hold, in the order of their chunks, a blank
/// line between neighbours; it fails where no answer holds a summary.
pub proof fn lemma_answered_run_concludes(
    client: SummarizerView,
    text: Seq<char>,
    replies: Seq<ReplyView>,
)
    requires
        replies.len() == chunk_text_spec(text, client.max_chunk_length as int).len(),
        forall|i: int| 0 <= i < replies.len() ==> #[trigger] replies[i] is Parsed,
    ensures
        after_replies(first_step(client, text), replies) == conclusion(
            collected(Seq::empty(), replies),
        ),
{
    let first = first_step(client, text);
    if replies.len() > 0 {
        let front = replies.drop_last();
        let only = seq![replies.last()];
        assert forall|i: int| 0 <= i < front.len() implies #[trigger] front[i] is Parsed by {
            assert(front[i] == replies[i]);
        }
        lemma_requests_follow_chunks(first->state, first->request, front);
        lemma_after_replies_split(first, front, only);
        lemma_collected_split(Seq::empty(), front, only);
        assert(front + only =~= replies);
        let last = after_replies(first, front);
        let ended = next_step(last->state, replies.last());
        assert(after_replies(ended, only.skip(1)) == ended);
        lemma_collected_one(last->state.summaries, replies.last());
    }
}

/// When the reply for the chunk at index `failed` is the first that is not
/// an answer, the summarization ends with the failure for that chunk:
/// whatever summaries came before are dropped, and the replies after it are
/// not looked at.
pub proof fn lemma_first_failure_ends_run(
    client: SummarizerView,
    text: Seq<char>,
    replies: Seq<ReplyView>,
    failed: int,
)
    requires
        0 <= failed < replies.len(),
        failed < chunk_text_spec(text, client.max_chunk_length as int).len(),
        forall|i: int| 0 <= i < failed ==> #[trigger] replies[i] is Parsed,
        !(replies[failed] is Parsed),
    ensures
        failure_of(replies[failed], failed as nat) is Some,
        after_replies(first_step(client, text), replies) == StepView::Failed(
            failure_of(replies[failed], failed as nat)->Some_0,
        ),
{
    let first = first_step(client, text);
    let front = replies.take(failed);
    let back = replies.skip(failed);
    assert forall|i: int| 0 <= i < front.len() implies #[trigger] front[i] is Parsed by {
        assert(front[i] == replies[i]);
    }
    lemma_requests_follow_chunks(first->state, first->request, front);
    lemma_after_replies_split(first, front, back);
    assert(front + back =~= replies);
    let reached = after_replies(first, front);
    let ended = next_step(reached->state, back[0]);
    lemma_ended_stays(ended, back.skip(1));
}

/// Where every answer holds a result, the summaries that are gathered are
/// the first results of the answers, one for each chunk.
pub proof fn lemma_collected_first_results(replies: Seq<ReplyView>)
    requires
        forall|i: int|
            0 <= i < replies.len() ==> (#[trigger] replies[i]) is Parsed
                && replies[i]->Parsed_0.len() > 0,
    ensures
        collected(Seq::empty(), replies) == Seq::new(
            replies.len(),
            |i: int| replies[i]->Parsed_0[0],
        ),
    decreases replies.len(),
{
    if replies.len() > 0 {
        let front = replies.drop_last();
        let only = seq![replies.last()];
        assert forall|i: int| 0 <= i < front.len() implies (#[trigger] front[i]) is Parsed
            && front[i]->Parsed_0.len() > 0 by {
            assert(front[i] == replies[i]);
        }
        lemma_collected_first_results(front);
        lemma_collected_split(Seq::empty(), front, only);
        assert(front + only =~= replies);
        let before = collected(Seq::empty(), front);
        lemma_collected_one(before, replies.last());
    }
}

/// One answer adds its first result, if it has one.
pub proof fn lemma_collected_one(summaries: Seq<Seq<char>>, reply: ReplyView)
    ensures
        collected(summaries, seq![reply]) == with_first_result(summaries, reply->Parsed_0),
{
    let only = seq![reply];
    let grown = with_first_result(summaries, reply->Parsed_0);
    assert(collected(grown, only.skip(1)) == grown);
}

/// Answers that come in two batches leave the summaries that they leave in
/// one.
pub proof fn lemma_collected_split(
    summaries: Seq<Seq<char>>,
    front: Seq<ReplyView>,
    back: Seq<ReplyView>,
)
    ensures
        collected(summaries, front + back) == collected(collected(summaries, front), back),
    decreases front.len(),
{
    if front.len() > 0 {
        assert((front + back).skip(1) =~= front.skip(1) + back);
        lemma_collected_split(
            with_first_result(summaries, front[0]->Parsed_0),
            front.skip(1),
            back,
        );
    }
}

/// Replies that come in two batches lead where they lead in one.
pub proof fn lemma_after_replies_split(step: StepView, front: Seq<ReplyView>, back: Seq<ReplyView>)
    ensures
        after_replies(step, front + back) == after_replies(after_replies(step, front), back),
    decreases front.len(),
{
    if front.len() > 0 {
        assert((front + back).skip(1) =~= front.skip(1) + back);
        match step {
            StepView::Send { state, .. } => {
                lemma_after_replies_split(next_step(state, front[0]), front.skip(1), back);
            },
            _ => {
                lemma_ended_stays(step, back);
            },
        }
    }
}

/// A summarization that has ended stays as it is.
pub proof fn lemma_ended_stays(step: StepView, replies: Seq<ReplyView>)
    requires
        !(step is Send),
    ensures
        after_replies(step, replies) == step,
{
}

} // verus!
