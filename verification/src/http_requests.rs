//! The requests that HTTP payloads make.
use vstd::prelude::*;
use vstd::string::*;

use crate::json::{integer_view, views, Json, JsonView};
use crate::payload::{
    apply_openai_sampling_params, batches_are_complete, collected, collected_step, either, failed,
    flag_in, i32_in, json_to_disaggregated_params, json_to_disaggregated_params_values, meeting_in,
    meetings_in, openai_sampling, optional_bool, optional_i32, optional_routed_dp_rank,
    optional_routed_dp_rank_values, optional_sampling_params, optional_string_values,
    optional_texts_in, rank_in, ranks_in, read_texts, read_u32s, repeated, sampling_in,
    string_or_empty, text_or, text_or_empty, u32_or,
};
use crate::router::{
    copy_meeting, copy_sampling, default_sampling, meetings, optional_sampling, text_requests,
    token_requests, Meeting, RouterDisaggregatedParams, RouterGenerateRequest, RouterSamplingParams,
    RouterTextGenerateRequest, RouterTokenizedInput, Sampling, TextRequest, TokenRequest,
};
use crate::text::{bounded_i32, cat3, cat5, parse_i32, same_text, signed_value, texts};

verus! {

/// One request or a batch of them.
#[derive(Debug)]
pub enum HttpTextGenerateRequests {
    Single(Box<RouterTextGenerateRequest>),
    Batch(Vec<RouterTextGenerateRequest>),
}

/// One request or a batch of them.
#[derive(Debug)]
pub enum HttpTokenGenerateRequests {
    Single(Box<RouterGenerateRequest>),
    Batch(Vec<RouterGenerateRequest>),
}

/// What a `/generate` payload asks for.
#[derive(Debug)]
pub enum HttpGenerateRequest {
    Text(RouterTextGenerateRequest),
    BatchText(Vec<RouterTextGenerateRequest>),
    Tokenized(RouterGenerateRequest),
    BatchTokenized(Vec<RouterGenerateRequest>),
}

/// What a chat payload asks for.
#[derive(Debug)]
pub enum HttpChatRequest {
    Single(Box<RouterTextGenerateRequest>),
    Batch(Vec<RouterTextGenerateRequest>),
}

/// What a completion payload asks for.
#[derive(Debug)]
pub enum HttpCompletionRequest {
    Single(Box<RouterTextGenerateRequest>),
    Batch(Vec<RouterTextGenerateRequest>),
}

/// What a responses payload asks for.
#[derive(Debug)]
pub struct HttpResponsesRequest {
    pub model: String,
    pub request: RouterTextGenerateRequest,
}

/// One text request or a batch of them.
pub enum TextAsk {
    Single(TextRequest),
    Batch(Seq<TextRequest>),
}

/// One token request or a batch of them.
pub enum TokenAsk {
    Single(TokenRequest),
    Batch(Seq<TokenRequest>),
}

/// What a `/generate` payload asks for.
pub enum GenerateAsk {
    Text(TextAsk),
    Tokens(TokenAsk),
}

impl View for HttpTextGenerateRequests {
    type V = TextAsk;

    open spec fn view(&self) -> TextAsk {
        match *self {
            HttpTextGenerateRequests::Single(request) => TextAsk::Single(request@),
            HttpTextGenerateRequests::Batch(requests) => TextAsk::Batch(text_requests(requests@)),
        }
    }
}

impl View for HttpTokenGenerateRequests {
    type V = TokenAsk;

    open spec fn view(&self) -> TokenAsk {
        match *self {
            HttpTokenGenerateRequests::Single(request) => TokenAsk::Single(request@),
            HttpTokenGenerateRequests::Batch(requests) => TokenAsk::Batch(
                token_requests(requests@),
            ),
        }
    }
}

impl View for HttpGenerateRequest {
    type V = GenerateAsk;

    open spec fn view(&self) -> GenerateAsk {
        match *self {
            HttpGenerateRequest::Text(request) => GenerateAsk::Text(TextAsk::Single(request@)),
            HttpGenerateRequest::BatchText(requests) => GenerateAsk::Text(
                TextAsk::Batch(text_requests(requests@)),
            ),
            HttpGenerateRequest::Tokenized(request) => GenerateAsk::Tokens(
                TokenAsk::Single(request@),
            ),
            HttpGenerateRequest::BatchTokenized(requests) => GenerateAsk::Tokens(
                TokenAsk::Batch(token_requests(requests@)),
            ),
        }
    }
}

impl View for HttpChatRequest {
    type V = TextAsk;

    open spec fn view(&self) -> TextAsk {
        match *self {
            HttpChatRequest::Single(request) => TextAsk::Single(request@),
            HttpChatRequest::Batch(requests) => TextAsk::Batch(text_requests(requests@)),
        }
    }
}

impl View for HttpCompletionRequest {
    type V = TextAsk;

    open spec fn view(&self) -> TextAsk {
        match *self {
            HttpCompletionRequest::Single(request) => TextAsk::Single(request@),
            HttpCompletionRequest::Batch(requests) => TextAsk::Batch(text_requests(requests@)),
        }
    }
}

/// `value`, or `default` where it is missing.
pub open spec fn or_default<T>(value: Option<T>, default: T) -> T {
    match value {
        Some(v) => v,
        None => default,
    }
}

/// The requests of a batch.
pub open spec fn text_batch(
    ids: Seq<Seq<char>>,
    inputs: Seq<Seq<char>>,
    sampling: Option<Sampling>,
    meeting_list: Seq<Option<Meeting>>,
    stream: bool,
    ranks: Seq<i32>,
) -> Seq<TextRequest> {
    Seq::new(
        inputs.len(),
        |i: int|
            TextRequest {
                request_id: ids[i],
                text: inputs[i],
                sampling,
                meeting: meeting_list[i],
                stream,
                data_parallel_rank: ranks[i],
            },
    )
}

/// The requests of a batch, or what keeps the payload from telling them.
pub open spec fn text_batch_in(
    payload: JsonView,
    inputs: Seq<Seq<char>>,
    sampling: Option<Sampling>,
    stream: bool,
) -> Result<TextAsk, Seq<char>> {
    let n = inputs.len();
    let ids = optional_texts_in(payload, "request_id"@, n);
    let ranks = ranks_in(payload, n);
    let meeting_list = meetings_in(payload, n);
    match either(failed(ids), either(failed(ranks), failed(meeting_list))) {
        Some(message) => Err(message),
        None => Ok(
            TextAsk::Batch(
                text_batch(
                    ids->Ok_0,
                    inputs,
                    sampling,
                    meeting_list->Ok_0,
                    stream,
                    ranks->Ok_0,
                ),
            ),
        ),
    }
}

/// A single request, or what keeps the payload from telling it.
pub open spec fn single_text_in(
    payload: JsonView,
    text: Seq<char>,
    sampling: Option<Sampling>,
    stream: bool,
) -> Result<TextAsk, Seq<char>> {
    let meeting = meeting_in(payload);
    let rank = rank_in(payload);
    match either(failed(meeting), failed(rank)) {
        Some(message) => Err(message),
        None => Ok(
            TextAsk::Single(
                TextRequest {
                    request_id: text_or_empty(payload, "request_id"@),
                    text,
                    sampling,
                    meeting: meeting->Ok_0,
                    stream,
                    data_parallel_rank: or_default(rank->Ok_0, 0),
                },
            ),
        ),
    }
}

/// What a `/generate` payload with texts asks for.
pub open spec fn text_ask_in(payload: JsonView) -> Result<TextAsk, Seq<char>> {
    match payload.get("text"@) {
        None => Err("missing text"@),
        Some(value) => match either(
            failed(sampling_in(payload)),
            failed(flag_in(payload, "stream"@)),
        ) {
            Some(message) => Err(message),
            None => {
                let sampling = sampling_in(payload)->Ok_0;
                let stream = or_default(flag_in(payload, "stream"@)->Ok_0, false);
                match value.as_items() {
                    Some(items) => match collected(
                        items,
                        |item: JsonView| text_or(item, "text entries must be strings"@),
                    ) {
                        Err(message) => Err(message),
                        Ok(inputs) => text_batch_in(payload, inputs, sampling, stream),
                    },
                    None => match value.as_text() {
                        None => Err("text must be a string or array of strings"@),
                        Some(text) => single_text_in(payload, text, sampling, stream),
                    },
                }
            },
        },
    }
}

/// The tokens of a JSON array.
pub open spec fn tokens_of(value: JsonView) -> Result<Seq<u32>, Seq<char>> {
    match value.as_items() {
        None => Err("input_ids must be an array"@),
        Some(items) => collected(
            items,
            |item: JsonView|
                u32_or(
                    item,
                    "input_ids entries must be unsigned integers"@,
                    "input_ids entry is out of u32 range"@,
                ),
        ),
    }
}

/// What a `/generate` payload with tokens asks for.
pub open spec fn token_ask_in(payload: JsonView) -> Result<TokenAsk, Seq<char>> {
    let value = payload.get("input_ids"@);
    if value is None || value->0.as_items() is None {
        Err("input_ids must be an array"@)
    } else {
        let items = value->0.as_items()->0;
        match either(failed(sampling_in(payload)), failed(flag_in(payload, "stream"@))) {
            Some(message) => Err(message),
            None => {
                let sampling = sampling_in(payload)->Ok_0;
                let stream = or_default(flag_in(payload, "stream"@)->Ok_0, false);
                if items.len() > 0 && items[0] is Array {
                    match collected(items, |item: JsonView| tokens_of(item)) {
                        Err(message) => Err(message),
                        Ok(inputs) => {
                            let n = inputs.len();
                            let ids = optional_texts_in(payload, "request_id"@, n);
                            let originals = optional_texts_in(payload, "original_text"@, n);
                            let ranks = ranks_in(payload, n);
                            let meeting_list = meetings_in(payload, n);
                            match either(
                                failed(ids),
                                either(
                                    failed(originals),
                                    either(failed(ranks), failed(meeting_list)),
                                ),
                            ) {
                                Some(message) => Err(message),
                                None => Ok(
                                    TokenAsk::Batch(
                                        Seq::new(
                                            n,
                                            |i: int|
                                                TokenRequest {
                                                    request_id: ids->Ok_0[i],
                                                    tokenized: Some(
                                                        (originals->Ok_0[i], inputs[i]),
                                                    ),
                                                    sampling,
                                                    meeting: meeting_list->Ok_0[i],
                                                    stream,
                                                    data_parallel_rank: ranks->Ok_0[i],
                                                },
                                        ),
                                    ),
                                ),
                            }
                        },
                    }
                } else {
                    let tokens = tokens_of(value->0);
                    let meeting = meeting_in(payload);
                    let rank = rank_in(payload);
                    match either(failed(tokens), either(failed(meeting), failed(rank))) {
                        Some(message) => Err(message),
                        None => Ok(
                            TokenAsk::Single(
                                TokenRequest {
                                    request_id: text_or_empty(payload, "request_id"@),
                                    tokenized: Some(
                                        (
                                            text_or_empty(payload, "original_text"@),
                                            tokens->Ok_0,
                                        ),
                                    ),
                                    sampling,
                                    meeting: meeting->Ok_0,
                                    stream,
                                    data_parallel_rank: or_default(rank->Ok_0, 0),
                                },
                            ),
                        ),
                    }
                }
            },
        }
    }
}

/// What a `/generate` payload asks for. Tokens count before texts.
pub open spec fn generate_ask_in(payload: JsonView) -> Result<GenerateAsk, Seq<char>> {
    if payload.get("input_ids"@) is Some {
        match token_ask_in(payload) {
            Ok(ask) => Ok(GenerateAsk::Tokens(ask)),
            Err(message) => Err(message),
        }
    } else {
        match text_ask_in(payload) {
            Ok(ask) => Ok(GenerateAsk::Text(ask)),
            Err(message) => Err(message),
        }
    }
}

/// What is said of a model that is not served.
pub open spec fn wrong_model(model: Seq<char>, served: Seq<char>) -> Seq<char> {
    "model "@ + model + " is not served by this worker ("@ + served + ")"@
}

/// What keeps the model of a payload from being served.
pub open spec fn model_failure(payload: JsonView, served: Seq<char>) -> Option<Seq<char>> {
    let model = payload.get("model"@);
    if model is None || model->0.as_text() is None {
        Some("missing model"@)
    } else if model->0.as_text()->0 != served {
        Some(wrong_model(model->0.as_text()->0, served))
    } else {
        None
    }
}

/// The sampling of an OpenAI payload.
pub open spec fn openai_sampling_in(payload: JsonView) -> Result<Sampling, Seq<char>> {
    match sampling_in(payload) {
        Err(message) => Err(message),
        Ok(sampling) => openai_sampling(payload, or_default(sampling, default_sampling())),
    }
}

/// Sampling with the number of new tokens set, where it is given.
pub open spec fn with_limit(sampling: Sampling, limit: Option<i32>) -> Sampling {
    match limit {
        Some(n) => Sampling { max_new_tokens: Some(n), ..sampling },
        None => sampling,
    }
}

/// What a completion payload has for a prompt.
pub open spec fn prompt_in(payload: JsonView) -> Result<(bool, Seq<Seq<char>>), Seq<char>> {
    match payload.get("prompt"@) {
        None => Err("missing prompt"@),
        Some(value) => match value.as_text() {
            Some(text) => Ok((false, seq![text])),
            None => match value.as_items() {
                None => Err("prompt must be a string or array of strings"@),
                Some(items) => match collected(
                    items,
                    |item: JsonView| text_or(item, "prompt array entries must be strings"@),
                ) {
                    Err(message) => Err(message),
                    Ok(list) => Ok((true, list)),
                },
            },
        },
    }
}

/// What a completion payload asks for.
pub open spec fn completion_ask_in(payload: JsonView, served: Seq<char>) -> Result<
    TextAsk,
    Seq<char>,
> {
    let sampling = openai_sampling_in(payload);
    let limit = i32_in(payload, "max_tokens"@);
    let stream = flag_in(payload, "stream"@);
    let prompt = prompt_in(payload);
    match either(
        model_failure(payload, served),
        either(
            failed(sampling),
            either(failed(limit), either(failed(stream), failed(prompt))),
        ),
    ) {
        Some(message) => Err(message),
        None => {
            let params = Some(with_limit(sampling->Ok_0, limit->Ok_0));
            let streaming = or_default(stream->Ok_0, false);
            let (batch, inputs) = prompt->Ok_0;
            if !batch {
                single_text_in(payload, inputs[0], params, streaming)
            } else if inputs.len() == 0 {
                Err("prompt array must not be empty"@)
            } else {
                text_batch_in(payload, inputs, params, streaming)
            }
        },
    }
}

/// What a chat payload asks for, once its messages are rendered to a prompt.
pub open spec fn chat_ask_in(payload: JsonView, served: Seq<char>, prompt: Seq<char>) -> Result<
    TextAsk,
    Seq<char>,
> {
    let sampling = openai_sampling_in(payload);
    let limit = i32_in(payload, "max_completion_tokens"@);
    let older_limit = i32_in(payload, "max_tokens"@);
    let stream = flag_in(payload, "stream"@);
    let count = i32_in(payload, "n"@);
    match either(
        model_failure(payload, served),
        either(
            failed(sampling),
            either(
                failed(limit),
                either(failed(older_limit), either(failed(stream), failed(count))),
            ),
        ),
    ) {
        Some(message) => Err(message),
        None => {
            let params = Some(
                with_limit(
                    sampling->Ok_0,
                    if limit->Ok_0 is Some {
                        limit->Ok_0
                    } else {
                        older_limit->Ok_0
                    },
                ),
            );
            let streaming = or_default(stream->Ok_0, false);
            let n = or_default(count->Ok_0, 1);
            if n < 1 {
                Err("n must be at least 1"@)
            } else if n == 1 {
                single_text_in(payload, prompt, params, streaming)
            } else {
                text_batch_in(payload, repeated(prompt, n as nat), params, streaming)
            }
        },
    }
}

/// The characters of an HTTP header value that are text.
pub open spec fn is_header_text(bytes: Seq<u8>) -> bool {
    forall|i: int|
        0 <= i < bytes.len() ==> (32 <= #[trigger] bytes[i] && bytes[i] < 127) || bytes[i] == 9
}

/// The text of an HTTP header value.
pub open spec fn header_text(bytes: Seq<u8>) -> Seq<char> {
    bytes.map_values(|byte: u8| byte as char)
}

/// The data parallel rank that a header tells.
pub open spec fn header_rank(header: Option<Seq<u8>>) -> Result<Option<i32>, Seq<char>> {
    match header {
        None => Ok(None),
        Some(bytes) => if !is_header_text(bytes) {
            Err("Invalid X-Data-Parallel-Rank header: must be an integer"@)
        } else {
            match bounded_i32(signed_value(header_text(bytes))) {
                Some(rank) => Ok(Some(rank as i32)),
                None => Err(
                    "Invalid X-Data-Parallel-Rank header: must be an integer, got '"@ + header_text(
                        bytes,
                    ) + "'"@,
                ),
            }
        },
    }
}

/// The payload with the data parallel rank of the header, which counts before its own.
pub open spec fn payload_with_header(payload: JsonView, header: Option<Seq<u8>>) -> Result<
    JsonView,
    Seq<char>,
> {
    match header_rank(header) {
        Err(message) => Err(message),
        Ok(None) => Ok(payload),
        Ok(Some(rank)) => if payload is Object {
            Ok(payload.with("routed_dp_rank"@, integer_view(rank as int)))
        } else {
            Err("request body must be a JSON object"@)
        },
    }
}

/// The bytes of a header that may be missing.
pub open spec fn header_bytes(header: Option<&Vec<u8>>) -> Option<Seq<u8>> {
    match header {
        Some(bytes) => Some(bytes@),
        None => None,
    }
}

fn build_text_batch(
    ids: &Vec<String>,
    inputs: &Vec<String>,
    sampling: &Option<RouterSamplingParams>,
    meeting_list: &Vec<Option<RouterDisaggregatedParams>>,
    stream: bool,
    ranks: &Vec<i32>,
) -> (requests: Vec<RouterTextGenerateRequest>)
    requires
        ids@.len() == inputs@.len(),
        meeting_list@.len() == inputs@.len(),
        ranks@.len() == inputs@.len(),
    ensures
        text_requests(requests@) == text_batch(
            texts(ids@),
            texts(inputs@),
            optional_sampling(*sampling),
            meetings(meeting_list@),
            stream,
            ranks@,
        ),
{
    let ghost wanted = text_batch(
        texts(ids@),
        texts(inputs@),
        optional_sampling(*sampling),
        meetings(meeting_list@),
        stream,
        ranks@,
    );
    let mut requests: Vec<RouterTextGenerateRequest> = Vec::new();
    let mut i: usize = 0;
    while i < inputs.len()
        invariant
            i <= inputs@.len(),
            ids@.len() == inputs@.len(),
            meeting_list@.len() == inputs@.len(),
            ranks@.len() == inputs@.len(),
            wanted == text_batch(
                texts(ids@),
                texts(inputs@),
                optional_sampling(*sampling),
                meetings(meeting_list@),
                stream,
                ranks@,
            ),
            requests@.len() == i,
            forall|j: int| 0 <= j < i ==> (#[trigger] requests@[j])@ == wanted[j],
        decreases inputs@.len() - i,
    {
        let request = RouterTextGenerateRequest {
            request_id: ids[i].clone(),
            text: inputs[i].clone(),
            sampling_params: copy_sampling(sampling),
            disaggregated_params: copy_meeting(&meeting_list[i]),
            stream,
            data_parallel_rank: ranks[i],
        };
        proof {
            assert(request@ == wanted[i as int]);
        }
        requests.push(request);
        i = i + 1;
    }
    proof {
        assert(text_requests(requests@) =~= wanted);
    }
    requests
}

fn read_text_batch(
    payload: &Json,
    inputs: &Vec<String>,
    sampling: &Option<RouterSamplingParams>,
    stream: bool,
) -> (requests: Result<Vec<RouterTextGenerateRequest>, String>)
    ensures
        match requests {
            Ok(list) => text_batch_in(
                payload@,
                texts(inputs@),
                optional_sampling(*sampling),
                stream,
            ) == Ok::<TextAsk, Seq<char>>(TextAsk::Batch(text_requests(list@))),
            Err(message) => text_batch_in(
                payload@,
                texts(inputs@),
                optional_sampling(*sampling),
                stream,
            ) == Err::<TextAsk, Seq<char>>(message@),
        },
{
    let batch_size: usize = inputs.len();
    let ids = optional_string_values(payload, "request_id", batch_size)?;
    let ranks = optional_routed_dp_rank_values(payload, batch_size)?;
    let meeting_list = json_to_disaggregated_params_values(payload, batch_size)?;
    proof {
        batches_are_complete(payload@, "request_id"@, batch_size as nat);
        assert(texts(ids@).len() == batch_size);
        assert(meetings(meeting_list@).len() == batch_size);
    }
    Ok(build_text_batch(&ids, inputs, sampling, &meeting_list, stream, &ranks))
}

fn read_single_text(
    payload: &Json,
    text: String,
    sampling: Option<RouterSamplingParams>,
    stream: bool,
) -> (request: Result<RouterTextGenerateRequest, String>)
    ensures
        match request {
            Ok(made) => single_text_in(payload@, text@, optional_sampling(sampling), stream)
                == Ok::<TextAsk, Seq<char>>(TextAsk::Single(made@)),
            Err(message) => single_text_in(payload@, text@, optional_sampling(sampling), stream)
                == Err::<TextAsk, Seq<char>>(message@),
        },
{
    let request_id = string_or_empty(payload, "request_id");
    let disaggregated_params = json_to_disaggregated_params(payload)?;
    let data_parallel_rank: i32 = match optional_routed_dp_rank(payload)? {
        Some(rank) => rank,
        None => 0,
    };
    Ok(
        RouterTextGenerateRequest {
            request_id,
            text,
            sampling_params: sampling,
            disaggregated_params,
            stream,
            data_parallel_rank,
        },
    )
}

/// What a `/generate` payload with texts asks for.
pub fn http_generate_payload_to_router_text_requests(payload: &Json) -> (requests: Result<
    HttpTextGenerateRequests,
    String,
>)
    ensures
        match requests {
            Ok(ask) => text_ask_in(payload@) == Ok::<TextAsk, Seq<char>>(ask@),
            Err(message) => text_ask_in(payload@) == Err::<TextAsk, Seq<char>>(message@),
        },
{
    let text_value = match payload.get("text") {
        Some(value) => value,
        None => {
            return Err("missing text".to_owned());
        },
    };
    let sampling_params = optional_sampling_params(payload)?;
    let stream = match optional_bool(payload, "stream")? {
        Some(flag) => flag,
        None => false,
    };
    if let Some(text_values) = text_value.as_array() {
        let inputs = read_texts(text_values, "text entries must be strings")?;
        let requests = read_text_batch(payload, &inputs, &sampling_params, stream)?;
        return Ok(HttpTextGenerateRequests::Batch(requests));
    }
    let text = match text_value.as_str() {
        Some(text) => text.to_owned(),
        None => {
            return Err("text must be a string or array of strings".to_owned());
        },
    };
    let request = read_single_text(payload, text, sampling_params, stream)?;
    Ok(HttpTextGenerateRequests::Single(Box::new(request)))
}

/// The tokens of a JSON array.
pub fn token_id_array(value: &Json) -> (tokens: Result<Vec<u32>, String>)
    ensures
        match tokens {
            Ok(list) => tokens_of(value@) == Ok::<Seq<u32>, Seq<char>>(list@),
            Err(message) => tokens_of(value@) == Err::<Seq<u32>, Seq<char>>(message@),
        },
{
    match value.as_array() {
        None => Err("input_ids must be an array".to_owned()),
        Some(items) => read_u32s(
            items,
            "input_ids entries must be unsigned integers",
            "input_ids entry is out of u32 range",
        ),
    }
}

/// The token lists of a batch.
pub open spec fn token_lists(lists: Seq<Vec<u32>>) -> Seq<Seq<u32>> {
    lists.map_values(|list: Vec<u32>| list@)
}

fn read_token_batches(items: &Vec<Json>) -> (batches: Result<Vec<Vec<u32>>, String>)
    ensures
        match batches {
            Ok(list) => collected(views(items@), |item: JsonView| tokens_of(item)) == Ok::<
                Seq<Seq<u32>>,
                Seq<char>,
            >(token_lists(list@)),
            Err(message) => collected(views(items@), |item: JsonView| tokens_of(item)) == Err::<
                Seq<Seq<u32>>,
                Seq<char>,
            >(message@),
        },
{
    let ghost all = views(items@);
    let ghost read = |item: JsonView| tokens_of(item);
    let mut list: Vec<Vec<u32>> = Vec::new();
    let mut i: usize = 0;
    proof {
        assert(all.take(0) =~= Seq::empty());
        assert(token_lists(list@) =~= Seq::empty());
    }
    while i < items.len()
        invariant
            i <= items@.len(),
            all == views(items@),
            read == (|item: JsonView| tokens_of(item)),
            collected(all.take(i as int), read) == Ok::<Seq<Seq<u32>>, Seq<char>>(
                token_lists(list@),
            ),
        decreases items@.len() - i,
    {
        proof {
            collected_step(all, read, i as int);
        }
        let tokens = token_id_array(&items[i])?;
        let ghost before = token_lists(list@);
        list.push(tokens);
        proof {
            assert(token_lists(list@) =~= before.push(tokens@));
        }
        i = i + 1;
    }
    proof {
        assert(all.take(i as int) =~= all);
    }
    Ok(list)
}

/// What a `/generate` payload with tokens asks for.
pub fn http_generate_payload_to_router_token_requests(payload: &Json) -> (requests: Result<
    HttpTokenGenerateRequests,
    String,
>)
    ensures
        match requests {
            Ok(ask) => token_ask_in(payload@) == Ok::<TokenAsk, Seq<char>>(ask@),
            Err(message) => token_ask_in(payload@) == Err::<TokenAsk, Seq<char>>(message@),
        },
{
    let input_ids_value = match payload.get("input_ids") {
        Some(value) => value,
        None => {
            return Err("input_ids must be an array".to_owned());
        },
    };
    let items = match input_ids_value.as_array() {
        Some(items) => items,
        None => {
            return Err("input_ids must be an array".to_owned());
        },
    };
    let sampling_params = optional_sampling_params(payload)?;
    let stream = match optional_bool(payload, "stream")? {
        Some(flag) => flag,
        None => false,
    };
    proof {
        assert(items@.len() > 0 ==> views(items@)[0] == items@[0]@);
    }
    if items.len() > 0 && items[0].is_array() {
        let input_batches = read_token_batches(items)?;
        let batch_size: usize = input_batches.len();
        let ids = optional_string_values(payload, "request_id", batch_size)?;
        let originals = optional_string_values(payload, "original_text", batch_size)?;
        let ranks = optional_routed_dp_rank_values(payload, batch_size)?;
        let meeting_list = json_to_disaggregated_params_values(payload, batch_size)?;
        proof {
            batches_are_complete(payload@, "request_id"@, batch_size as nat);
            batches_are_complete(payload@, "original_text"@, batch_size as nat);
            assert(texts(ids@).len() == batch_size);
            assert(texts(originals@).len() == batch_size);
            assert(meetings(meeting_list@).len() == batch_size);
        }
        let ghost wanted = token_ask_in(payload@)->Ok_0->Batch_0;
        let mut requests: Vec<RouterGenerateRequest> = Vec::new();
        let mut i: usize = 0;
        while i < batch_size
            invariant
                i <= batch_size,
                input_batches@.len() == batch_size,
                ids@.len() == batch_size,
                originals@.len() == batch_size,
                ranks@.len() == batch_size,
                meeting_list@.len() == batch_size,
                wanted.len() == batch_size,
                forall|j: int|
                    0 <= j < batch_size ==> #[trigger] wanted[j] == (TokenRequest {
                        request_id: texts(ids@)[j],
                        tokenized: Some((texts(originals@)[j], token_lists(input_batches@)[j])),
                        sampling: optional_sampling(sampling_params),
                        meeting: meetings(meeting_list@)[j],
                        stream,
                        data_parallel_rank: ranks@[j],
                    }),
                requests@.len() == i,
                forall|j: int| 0 <= j < i ==> (#[trigger] requests@[j])@ == wanted[j],
            decreases batch_size - i,
        {
            let request = RouterGenerateRequest {
                request_id: ids[i].clone(),
                tokenized: Some(
                    RouterTokenizedInput {
                        original_text: originals[i].clone(),
                        input_ids: input_batches[i].clone(),
                    },
                ),
                sampling_params: copy_sampling(&sampling_params),
                disaggregated_params: copy_meeting(&meeting_list[i]),
                stream,
                data_parallel_rank: ranks[i],
            };
            proof {
                assert(request@ == wanted[i as int]);
            }
            requests.push(request);
            i = i + 1;
        }
        proof {
            assert(token_requests(requests@) =~= wanted);
        }
        return Ok(HttpTokenGenerateRequests::Batch(requests));
    }
    let input_ids = token_id_array(input_ids_value)?;
    let request_id = string_or_empty(payload, "request_id");
    let original_text = string_or_empty(payload, "original_text");
    let disaggregated_params = json_to_disaggregated_params(payload)?;
    let data_parallel_rank: i32 = match optional_routed_dp_rank(payload)? {
        Some(rank) => rank,
        None => 0,
    };
    Ok(
        HttpTokenGenerateRequests::Single(
            Box::new(
                RouterGenerateRequest {
                    request_id,
                    tokenized: Some(RouterTokenizedInput { original_text, input_ids }),
                    sampling_params,
                    disaggregated_params,
                    stream,
                    data_parallel_rank,
                },
            ),
        ),
    )
}

/// What a `/generate` payload asks for.
pub fn http_generate_payload_to_router_request(payload: &Json) -> (request: Result<
    HttpGenerateRequest,
    String,
>)
    ensures
        match request {
            Ok(ask) => generate_ask_in(payload@) == Ok::<GenerateAsk, Seq<char>>(ask@),
            Err(message) => generate_ask_in(payload@) == Err::<GenerateAsk, Seq<char>>(message@),
        },
{
    if payload.has("input_ids") {
        return match http_generate_payload_to_router_token_requests(payload)? {
            HttpTokenGenerateRequests::Single(request) => Ok(
                HttpGenerateRequest::Tokenized(*request),
            ),
            HttpTokenGenerateRequests::Batch(requests) => Ok(
                HttpGenerateRequest::BatchTokenized(requests),
            ),
        };
    }
    match http_generate_payload_to_router_text_requests(payload)? {
        HttpTextGenerateRequests::Single(request) => Ok(HttpGenerateRequest::Text(*request)),
        HttpTextGenerateRequests::Batch(requests) => Ok(HttpGenerateRequest::BatchText(requests)),
    }
}

/// Checks that the model of a payload is the one that is served.
pub fn check_model(payload: &Json, served_model_name: &str) -> (checked: Result<(), String>)
    ensures
        match checked {
            Ok(_) => model_failure(payload@, served_model_name@) is None,
            Err(message) => model_failure(payload@, served_model_name@) == Some(message@),
        },
{
    let model = match payload.get("model") {
        Some(value) => match value.as_str() {
            Some(model) => model,
            None => {
                return Err("missing model".to_owned());
            },
        },
        None => {
            return Err("missing model".to_owned());
        },
    };
    if !same_text(model, served_model_name) {
        return Err(
            cat5("model ", model, " is not served by this worker (", served_model_name, ")"),
        );
    }
    Ok(())
}

/// The sampling of an OpenAI payload.
pub fn read_openai_sampling(payload: &Json) -> (sampling: Result<RouterSamplingParams, String>)
    ensures
        match sampling {
            Ok(params) => openai_sampling_in(payload@) == Ok::<Sampling, Seq<char>>(params@),
            Err(message) => openai_sampling_in(payload@) == Err::<Sampling, Seq<char>>(message@),
        },
{
    let sampling = match optional_sampling_params(payload)? {
        Some(params) => params,
        None => RouterSamplingParams::default(),
    };
    apply_openai_sampling_params(payload, sampling)
}

/// The prompts of a completion payload.
#[derive(Debug)]
pub enum CompletionPrompts {
    Single(String),
    Batch(Vec<String>),
}

/// The prompts of a completion payload.
pub fn completion_prompt_to_texts(payload: &Json) -> (prompts: Result<CompletionPrompts, String>)
    ensures
        match prompts {
            Ok(CompletionPrompts::Single(text)) => prompt_in(payload@) == Ok::<
                (bool, Seq<Seq<char>>),
                Seq<char>,
            >((false, seq![text@])),
            Ok(CompletionPrompts::Batch(list)) => prompt_in(payload@) == Ok::<
                (bool, Seq<Seq<char>>),
                Seq<char>,
            >((true, texts(list@))),
            Err(message) => prompt_in(payload@) == Err::<(bool, Seq<Seq<char>>), Seq<char>>(
                message@,
            ),
        },
{
    let prompt = match payload.get("prompt") {
        Some(value) => value,
        None => {
            return Err("missing prompt".to_owned());
        },
    };
    if let Some(text) = prompt.as_str() {
        return Ok(CompletionPrompts::Single(text.to_owned()));
    }
    if let Some(prompts) = prompt.as_array() {
        let list = read_texts(prompts, "prompt array entries must be strings")?;
        return Ok(CompletionPrompts::Batch(list));
    }
    Err("prompt must be a string or array of strings".to_owned())
}

/// What a completion payload asks for.
pub fn http_completion_payload_to_router_request(payload: &Json, served_model_name: &str) -> (
    request: Result<HttpCompletionRequest, String>)
    ensures
        match request {
            Ok(ask) => completion_ask_in(payload@, served_model_name@) == Ok::<TextAsk, Seq<char>>(
                ask@,
            ),
            Err(message) => completion_ask_in(payload@, served_model_name@) == Err::<
                TextAsk,
                Seq<char>,
            >(message@),
        },
{
    check_model(payload, served_model_name)?;
    let mut sampling_params = read_openai_sampling(payload)?;
    if let Some(max_tokens) = optional_i32(payload, "max_tokens")? {
        sampling_params.max_new_tokens = Some(max_tokens);
    }
    let stream = match optional_bool(payload, "stream")? {
        Some(flag) => flag,
        None => false,
    };
    match completion_prompt_to_texts(payload)? {
        CompletionPrompts::Single(text) => {
            let request = read_single_text(payload, text, Some(sampling_params), stream)?;
            Ok(HttpCompletionRequest::Single(Box::new(request)))
        },
        CompletionPrompts::Batch(inputs) => {
            if inputs.len() == 0 {
                return Err("prompt array must not be empty".to_owned());
            }
            let params = Some(sampling_params);
            let requests = read_text_batch(payload, &inputs, &params, stream)?;
            Ok(HttpCompletionRequest::Batch(requests))
        },
    }
}

/// What a chat payload asks for, once its messages are rendered to a prompt.
pub fn http_chat_payload_to_router_request(
    payload: &Json,
    served_model_name: &str,
    prompt: String,
) -> (request: Result<HttpChatRequest, String>)
    ensures
        match request {
            Ok(ask) => chat_ask_in(payload@, served_model_name@, prompt@) == Ok::<
                TextAsk,
                Seq<char>,
            >(ask@),
            Err(message) => chat_ask_in(payload@, served_model_name@, prompt@) == Err::<
                TextAsk,
                Seq<char>,
            >(message@),
        },
{
    check_model(payload, served_model_name)?;
    let mut sampling_params = read_openai_sampling(payload)?;
    let limit = optional_i32(payload, "max_completion_tokens")?;
    let older_limit = optional_i32(payload, "max_tokens")?;
    let max_tokens = if limit.is_some() {
        limit
    } else {
        older_limit
    };
    if let Some(n) = max_tokens {
        sampling_params.max_new_tokens = Some(n);
    }
    let stream = match optional_bool(payload, "stream")? {
        Some(flag) => flag,
        None => false,
    };
    let n: i32 = match optional_i32(payload, "n")? {
        Some(n) => n,
        None => 1,
    };
    if n < 1 {
        return Err("n must be at least 1".to_owned());
    }
    if n == 1 {
        let request = read_single_text(payload, prompt, Some(sampling_params), stream)?;
        return Ok(HttpChatRequest::Single(Box::new(request)));
    }
    let batch_size: usize = n as usize;
    let mut inputs: Vec<String> = Vec::new();
    let mut i: usize = 0;
    while i < batch_size
        invariant
            i <= batch_size,
            inputs@.len() == i,
            forall|j: int| 0 <= j < i ==> (#[trigger] inputs@[j])@ == prompt@,
        decreases batch_size - i,
    {
        inputs.push(prompt.clone());
        i = i + 1;
    }
    proof {
        assert(texts(inputs@) =~= repeated(prompt@, n as nat));
    }
    let params = Some(sampling_params);
    let requests = read_text_batch(payload, &inputs, &params, stream)?;
    Ok(HttpChatRequest::Batch(requests))
}

/// The data parallel rank that a header tells.
pub fn routed_dp_rank_header(header: Option<&Vec<u8>>) -> (rank: Result<Option<i32>, String>)
    ensures
        crate::payload::reads(rank, header_rank(header_bytes(header))),
{
    let bytes = match header {
        Some(bytes) => bytes,
        None => {
            return Ok(None);
        },
    };
    let mut value = String::new();
    let mut i: usize = 0;
    proof {
        assert(value@ =~= header_text(bytes@).take(0));
    }
    while i < bytes.len()
        invariant
            i <= bytes@.len(),
            header_bytes(header) == Some(bytes@),
            forall|j: int|
                0 <= j < i ==> (32 <= #[trigger] bytes@[j] && bytes@[j] < 127) || bytes@[j] == 9,
            value@ == header_text(bytes@).take(i as int),
        decreases bytes@.len() - i,
    {
        let byte: u8 = bytes[i];
        if !((32 <= byte && byte < 127) || byte == 9) {
            proof {
                assert(!is_header_text(bytes@));
            }
            return Err("Invalid X-Data-Parallel-Rank header: must be an integer".to_owned());
        }
        value.push(byte as char);
        proof {
            assert(header_text(bytes@).take(i + 1) =~= header_text(bytes@).take(i as int).push(
                byte as char,
            ));
        }
        i = i + 1;
    }
    proof {
        assert(header_text(bytes@).take(i as int) =~= header_text(bytes@));
    }
    match parse_i32(value.as_str()) {
        Some(rank) => Ok(Some(rank)),
        None => Err(
            cat3(
                "Invalid X-Data-Parallel-Rank header: must be an integer, got '",
                value.as_str(),
                "'",
            ),
        ),
    }
}

/// The payload with the data parallel rank of the header, which counts before its own.
pub fn payload_with_routed_dp_rank_header(payload: Json, header: Option<&Vec<u8>>) -> (merged:
    Result<Json, String>)
    ensures
        match merged {
            Ok(json) => payload_with_header(payload@, header_bytes(header)) == Ok::<
                JsonView,
                Seq<char>,
            >(json@),
            Err(message) => payload_with_header(payload@, header_bytes(header)) == Err::<
                JsonView,
                Seq<char>,
            >(message@),
        },
{
    match routed_dp_rank_header(header)? {
        None => Ok(payload),
        Some(rank) => {
            if !payload.is_object() {
                return Err("request body must be a JSON object".to_owned());
            }
            Ok(payload.with("routed_dp_rank", Json::integer(rank as i64)))
        },
    }
}

/// What a `/generate` payload with a header asks for.
pub fn http_generate_payload_to_router_request_with_headers(
    payload: Json,
    header: Option<&Vec<u8>>,
) -> (request: Result<HttpGenerateRequest, String>)
    ensures
        match payload_with_header(payload@, header_bytes(header)) {
            Err(failure) => request is Err && request->Err_0@ == failure,
            Ok(merged) => match request {
                Ok(ask) => generate_ask_in(merged) == Ok::<GenerateAsk, Seq<char>>(ask@),
                Err(message) => generate_ask_in(merged) == Err::<GenerateAsk, Seq<char>>(message@),
            },
        },
{
    let merged = payload_with_routed_dp_rank_header(payload, header)?;
    http_generate_payload_to_router_request(&merged)
}

/// What a completion payload with a header asks for.
pub fn http_completion_payload_to_router_request_with_headers(
    payload: Json,
    served_model_name: &str,
    header: Option<&Vec<u8>>,
) -> (request: Result<HttpCompletionRequest, String>)
    ensures
        match payload_with_header(payload@, header_bytes(header)) {
            Err(failure) => request is Err && request->Err_0@ == failure,
            Ok(merged) => match request {
                Ok(ask) => completion_ask_in(merged, served_model_name@) == Ok::<
                    TextAsk,
                    Seq<char>,
                >(ask@),
                Err(message) => completion_ask_in(merged, served_model_name@) == Err::<
                    TextAsk,
                    Seq<char>,
                >(message@),
            },
        },
{
    let merged = payload_with_routed_dp_rank_header(payload, header)?;
    http_completion_payload_to_router_request(&merged, served_model_name)
}

/// What a chat payload with a header asks for, once its messages are rendered to a prompt.
pub fn http_chat_payload_to_router_request_with_headers(
    payload: Json,
    served_model_name: &str,
    header: Option<&Vec<u8>>,
    prompt: String,
) -> (request: Result<HttpChatRequest, String>)
    ensures
        match payload_with_header(payload@, header_bytes(header)) {
            Err(failure) => request is Err && request->Err_0@ == failure,
            Ok(merged) => match request {
                Ok(ask) => chat_ask_in(merged, served_model_name@, prompt@) == Ok::<
                    TextAsk,
                    Seq<char>,
                >(ask@),
                Err(message) => chat_ask_in(merged, served_model_name@, prompt@) == Err::<
                    TextAsk,
                    Seq<char>,
                >(message@),
            },
        },
{
    let merged = payload_with_routed_dp_rank_header(payload, header)?;
    http_chat_payload_to_router_request(&merged, served_model_name, prompt)
}

} // verus!
