//! Requests to a model server and its answers.
use vstd::prelude::*;
use vstd::string::*;

use crate::json::JsonNumber;

verus! {

/// How the next token is chosen.
#[derive(Debug)]
pub struct RouterSamplingParams {
    pub max_new_tokens: Option<i32>,
    pub temperature: Option<JsonNumber>,
    pub top_p: Option<JsonNumber>,
    pub top_k: Option<i32>,
    pub min_p: Option<JsonNumber>,
    pub frequency_penalty: Option<JsonNumber>,
    pub presence_penalty: Option<JsonNumber>,
    pub repetition_penalty: Option<JsonNumber>,
    pub stop_token_id: Option<i32>,
    pub stop_token_ids: Vec<i32>,
    pub ignore_eos: Option<bool>,
    pub n: Option<i32>,
    pub best_of: Option<i32>,
}

/// What a [`RouterSamplingParams`] says.
pub struct Sampling {
    pub max_new_tokens: Option<i32>,
    pub temperature: Option<JsonNumber>,
    pub top_p: Option<JsonNumber>,
    pub top_k: Option<i32>,
    pub min_p: Option<JsonNumber>,
    pub frequency_penalty: Option<JsonNumber>,
    pub presence_penalty: Option<JsonNumber>,
    pub repetition_penalty: Option<JsonNumber>,
    pub stop_token_id: Option<i32>,
    pub stop_token_ids: Seq<i32>,
    pub ignore_eos: Option<bool>,
    pub n: Option<i32>,
    pub best_of: Option<i32>,
}

impl View for RouterSamplingParams {
    type V = Sampling;

    open spec fn view(&self) -> Sampling {
        Sampling {
            max_new_tokens: self.max_new_tokens,
            temperature: self.temperature,
            top_p: self.top_p,
            top_k: self.top_k,
            min_p: self.min_p,
            frequency_penalty: self.frequency_penalty,
            presence_penalty: self.presence_penalty,
            repetition_penalty: self.repetition_penalty,
            stop_token_id: self.stop_token_id,
            stop_token_ids: self.stop_token_ids@,
            ignore_eos: self.ignore_eos,
            n: self.n,
            best_of: self.best_of,
        }
    }
}

/// Sampling of which nothing was said.
pub open spec fn default_sampling() -> Sampling {
    Sampling {
        max_new_tokens: None,
        temperature: None,
        top_p: None,
        top_k: None,
        min_p: None,
        frequency_penalty: None,
        presence_penalty: None,
        repetition_penalty: None,
        stop_token_id: None,
        stop_token_ids: Seq::empty(),
        ignore_eos: None,
        n: None,
        best_of: None,
    }
}

impl Default for RouterSamplingParams {
    fn default() -> (sampling: Self)
        ensures
            sampling@ == default_sampling(),
    {
        RouterSamplingParams {
            max_new_tokens: None,
            temperature: None,
            top_p: None,
            top_k: None,
            min_p: None,
            frequency_penalty: None,
            presence_penalty: None,
            repetition_penalty: None,
            stop_token_id: None,
            stop_token_ids: Vec::new(),
            ignore_eos: None,
            n: None,
            best_of: None,
        }
    }
}

impl Clone for RouterSamplingParams {
    fn clone(&self) -> (copy: Self)
        ensures
            copy@ == self@,
    {
        RouterSamplingParams {
            max_new_tokens: self.max_new_tokens,
            temperature: self.temperature,
            top_p: self.top_p,
            top_k: self.top_k,
            min_p: self.min_p,
            frequency_penalty: self.frequency_penalty,
            presence_penalty: self.presence_penalty,
            repetition_penalty: self.repetition_penalty,
            stop_token_id: self.stop_token_id,
            stop_token_ids: self.stop_token_ids.clone(),
            ignore_eos: self.ignore_eos,
            n: self.n,
            best_of: self.best_of,
        }
    }
}

/// Sampling that may not be given.
pub open spec fn optional_sampling(sampling: Option<RouterSamplingParams>) -> Option<Sampling> {
    match sampling {
        Some(params) => Some(params@),
        None => None,
    }
}

/// A copy of sampling that may not be given.
pub fn copy_sampling(sampling: &Option<RouterSamplingParams>) -> (copy: Option<
    RouterSamplingParams,
>)
    ensures
        optional_sampling(copy) == optional_sampling(*sampling),
{
    match sampling {
        Some(params) => Some(params.clone()),
        None => None,
    }
}

/// Where the two servers of a split request meet.
#[derive(Debug)]
pub struct RouterDisaggregatedParams {
    pub bootstrap_host: String,
    pub bootstrap_port: u16,
    pub bootstrap_room: u64,
}

/// What a [`RouterDisaggregatedParams`] says.
pub struct Meeting {
    pub bootstrap_host: Seq<char>,
    pub bootstrap_port: u16,
    pub bootstrap_room: u64,
}

impl View for RouterDisaggregatedParams {
    type V = Meeting;

    open spec fn view(&self) -> Meeting {
        Meeting {
            bootstrap_host: self.bootstrap_host@,
            bootstrap_port: self.bootstrap_port,
            bootstrap_room: self.bootstrap_room,
        }
    }
}

impl Clone for RouterDisaggregatedParams {
    fn clone(&self) -> (copy: Self)
        ensures
            copy@ == self@,
    {
        RouterDisaggregatedParams {
            bootstrap_host: self.bootstrap_host.clone(),
            bootstrap_port: self.bootstrap_port,
            bootstrap_room: self.bootstrap_room,
        }
    }
}

/// A meeting that may not be given.
pub open spec fn optional_meeting(params: Option<RouterDisaggregatedParams>) -> Option<Meeting> {
    match params {
        Some(meeting) => Some(meeting@),
        None => None,
    }
}

/// What several meetings say.
pub open spec fn meetings(list: Seq<Option<RouterDisaggregatedParams>>) -> Seq<Option<Meeting>> {
    list.map_values(|params: Option<RouterDisaggregatedParams>| optional_meeting(params))
}

/// A copy of a meeting that may not be given.
pub fn copy_meeting(params: &Option<RouterDisaggregatedParams>) -> (copy: Option<
    RouterDisaggregatedParams,
>)
    ensures
        optional_meeting(copy) == optional_meeting(*params),
{
    match params {
        Some(meeting) => Some(meeting.clone()),
        None => None,
    }
}

/// A request to continue a text.
#[derive(Debug)]
pub struct RouterTextGenerateRequest {
    pub request_id: String,
    pub text: String,
    pub sampling_params: Option<RouterSamplingParams>,
    pub disaggregated_params: Option<RouterDisaggregatedParams>,
    pub stream: bool,
    pub data_parallel_rank: i32,
}

/// What a [`RouterTextGenerateRequest`] says.
pub struct TextRequest {
    pub request_id: Seq<char>,
    pub text: Seq<char>,
    pub sampling: Option<Sampling>,
    pub meeting: Option<Meeting>,
    pub stream: bool,
    pub data_parallel_rank: i32,
}

impl View for RouterTextGenerateRequest {
    type V = TextRequest;

    open spec fn view(&self) -> TextRequest {
        TextRequest {
            request_id: self.request_id@,
            text: self.text@,
            sampling: optional_sampling(self.sampling_params),
            meeting: optional_meeting(self.disaggregated_params),
            stream: self.stream,
            data_parallel_rank: self.data_parallel_rank,
        }
    }
}

/// What several requests say.
pub open spec fn text_requests(list: Seq<RouterTextGenerateRequest>) -> Seq<TextRequest> {
    list.map_values(|request: RouterTextGenerateRequest| request@)
}

/// A text and its tokens.
#[derive(Debug)]
pub struct RouterTokenizedInput {
    pub original_text: String,
    pub input_ids: Vec<u32>,
}

/// A request to continue tokens.
#[derive(Debug)]
pub struct RouterGenerateRequest {
    pub request_id: String,
    pub tokenized: Option<RouterTokenizedInput>,
    pub sampling_params: Option<RouterSamplingParams>,
    pub disaggregated_params: Option<RouterDisaggregatedParams>,
    pub stream: bool,
    pub data_parallel_rank: i32,
}

/// What a [`RouterGenerateRequest`] says.
pub struct TokenRequest {
    pub request_id: Seq<char>,
    pub tokenized: Option<(Seq<char>, Seq<u32>)>,
    pub sampling: Option<Sampling>,
    pub meeting: Option<Meeting>,
    pub stream: bool,
    pub data_parallel_rank: i32,
}

impl View for RouterGenerateRequest {
    type V = TokenRequest;

    open spec fn view(&self) -> TokenRequest {
        TokenRequest {
            request_id: self.request_id@,
            tokenized: match self.tokenized {
                Some(input) => Some((input.original_text@, input.input_ids@)),
                None => None,
            },
            sampling: optional_sampling(self.sampling_params),
            meeting: optional_meeting(self.disaggregated_params),
            stream: self.stream,
            data_parallel_rank: self.data_parallel_rank,
        }
    }
}

/// What several requests say.
pub open spec fn token_requests(list: Seq<RouterGenerateRequest>) -> Seq<TokenRequest> {
    list.map_values(|request: RouterGenerateRequest| request@)
}

/// A piece of a running answer.
#[derive(Debug)]
pub struct RouterGenerateChunk {
    pub text: String,
    pub token_ids: Vec<u32>,
    pub index: i32,
    pub prompt_tokens: i32,
    pub completion_tokens: i32,
    pub cached_tokens: i32,
}

/// A complete answer.
#[derive(Debug)]
pub struct RouterGenerateComplete {
    pub text: String,
    pub output_ids: Vec<u32>,
    pub finish_reason: String,
    pub index: i32,
    pub prompt_tokens: i32,
    pub completion_tokens: i32,
    pub cached_tokens: i32,
}

/// Why there is no answer.
#[derive(Debug)]
pub struct RouterGenerateError {
    pub message: String,
}

/// What an answer holds.
#[derive(Debug)]
pub enum RouterGenerateResponseBody {
    Chunk(RouterGenerateChunk),
    Complete(RouterGenerateComplete),
    Error(RouterGenerateError),
}

/// An answer to a request.
#[derive(Debug)]
pub struct RouterGenerateResponse {
    pub request_id: String,
    pub body: RouterGenerateResponseBody,
}

/// Why a request was turned down.
#[derive(Clone, Copy, Debug, PartialEq, Eq, Structural)]
pub enum RouterStatusCode {
    InvalidArgument,
    ResourceExhausted,
    FailedPrecondition,
}

/// Why a request could not be served.
#[derive(Debug)]
pub enum RouterRuntimeError {
    /// The request was turned down.
    Protocol { status_code: RouterStatusCode, message: String },
    /// The runtime failed.
    Runtime { message: String },
}

/// What a server tells of its model.
#[derive(Clone, Debug)]
pub struct RouterGetModelInfoResponse {
    pub model_path: String,
    pub tokenizer_path: String,
    pub is_generation: bool,
    pub preferred_sampling_params: String,
    pub weight_version: String,
    pub served_model_name: String,
    pub max_context_length: i32,
    pub vocab_size: i32,
    pub supports_vision: bool,
    pub model_type: String,
    pub architectures: Vec<String>,
    pub eos_token_ids: Vec<i32>,
    pub pad_token_id: i32,
    pub bos_token_id: i32,
    pub max_req_input_len: i32,
}

} // verus!
