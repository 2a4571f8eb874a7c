//! What the HTTP server holds, and the endpoints that tell of it.
use std::sync::Arc;
use std::sync::Mutex;

use vstd::prelude::*;
use vstd::string::*;

use crate::http_replies::{bad_request_json, error_answer, integer_of, Answered, Reply};
use crate::json::{empty_object, views, Json, JsonNumber, JsonView};
use crate::router::{
    default_sampling, RouterGenerateRequest, RouterGetModelInfoResponse, RouterSamplingParams,
    RouterTokenizedInput, Sampling, TokenRequest,
};
use crate::text::{cat2, decimal_i64, signed_decimal};

verus! {

/// What the server tells of the events of its cache.
#[derive(Clone, Debug, PartialEq, Eq)]
pub struct HttpKvEventsInfo {
    pub publisher: String,
    pub endpoint_host: String,
    pub endpoint_port_base: u16,
    pub topic: String,
    pub block_size: u32,
    pub dp_size: u32,
}

/// What the server tells of its cache.
#[derive(Clone, Debug, PartialEq, Eq)]
pub struct HttpKvCacheInfo {
    pub dtype: String,
    pub page_size: u64,
    pub num_layers: u64,
    pub kv_heads: u64,
    pub head_dim: u64,
    pub kv_tensors_per_token: u64,
    pub bytes_per_token: u64,
    pub page_size_bytes: u64,
}

/// What the server tells of itself.
#[derive(Clone, Debug, PartialEq, Eq)]
pub struct HttpServerInfo {
    pub tp_size: usize,
    pub dp_size: usize,
    pub load_balance_method: String,
    pub max_running_requests: Option<usize>,
    pub max_prefill_tokens: Option<usize>,
    pub max_total_tokens: Option<usize>,
    pub disaggregation_mode: String,
    pub disaggregation_bootstrap_port: Option<u16>,
    pub enable_metrics: bool,
    pub kv_events: Option<HttpKvEventsInfo>,
    pub kv_cache: Option<HttpKvCacheInfo>,
}

impl Default for HttpServerInfo {
    fn default() -> (info: Self)
        ensures
            info.tp_size == 1,
            info.dp_size == 1,
            info.load_balance_method@ == "round_robin"@,
            info.max_running_requests is None,
            info.max_prefill_tokens is None,
            info.max_total_tokens is None,
            info.disaggregation_mode@ == "null"@,
            info.disaggregation_bootstrap_port is None,
            !info.enable_metrics,
            info.kv_events is None,
            info.kv_cache is None,
    {
        HttpServerInfo {
            tp_size: 1,
            dp_size: 1,
            load_balance_method: "round_robin".to_owned(),
            max_running_requests: None,
            max_prefill_tokens: None,
            max_total_tokens: None,
            disaggregation_mode: "null".to_owned(),
            disaggregation_bootstrap_port: None,
            enable_metrics: false,
            kv_events: None,
            kv_cache: None,
        }
    }
}

/// Why the HTTP server stopped.
#[derive(Clone, Debug)]
pub enum HttpServeError {
    Io(String),
}

impl HttpServeError {
    /// The message that the error is reported with.
    pub fn to_string(&self) -> (message: String)
        ensures
            self matches HttpServeError::Io(error) && message@ == "http server error: "@ + error@,
    {
        match self {
            HttpServeError::Io(error) => cat2("http server error: ", error.as_str()),
        }
    }
}

/// What the HTTP server holds: a runtime, what is told of its model, and how it serves.
#[derive(Debug)]
#[verifier::reject_recursive_types(R)]
pub struct HttpRouterService<R, E> {
    runtime: Arc<Mutex<R>>,
    model_info: Arc<Mutex<RouterGetModelInfoResponse>>,
    server_info: HttpServerInfo,
    engine_info_bootstrap: Option<E>,
    allow_disaggregated_requests: bool,
    max_transfer_polls: usize,
}

/// What an [`HttpRouterService`] holds.
#[verifier::reject_recursive_types(R)]
pub struct Service<R, E> {
    pub runtime: Arc<Mutex<R>>,
    pub model_info: Arc<Mutex<RouterGetModelInfoResponse>>,
    pub server_info: HttpServerInfo,
    pub engine_info_bootstrap: Option<E>,
    pub allow_disaggregated_requests: bool,
    pub max_transfer_polls: nat,
}

impl<R, E> View for HttpRouterService<R, E> {
    type V = Service<R, E>;

    closed spec fn view(&self) -> Service<R, E> {
        Service {
            runtime: self.runtime,
            model_info: self.model_info,
            server_info: self.server_info,
            engine_info_bootstrap: self.engine_info_bootstrap,
            allow_disaggregated_requests: self.allow_disaggregated_requests,
            max_transfer_polls: self.max_transfer_polls as nat,
        }
    }
}

impl<R, E> HttpRouterService<R, E> {
    /// A service that serves whole requests only and polls for no transfers.
    pub fn new(runtime: Arc<Mutex<R>>, model_info: Arc<Mutex<RouterGetModelInfoResponse>>) -> (
        service: Self)
        ensures
            service@.runtime == runtime,
            service@.model_info == model_info,
            service@.server_info.tp_size == 1,
            service@.server_info.dp_size == 1,
            service@.server_info.load_balance_method@ == "round_robin"@,
            service@.server_info.max_running_requests is None,
            service@.server_info.max_prefill_tokens is None,
            service@.server_info.max_total_tokens is None,
            service@.server_info.disaggregation_mode@ == "null"@,
            service@.server_info.disaggregation_bootstrap_port is None,
            !service@.server_info.enable_metrics,
            service@.server_info.kv_events is None,
            service@.server_info.kv_cache is None,
            service@.engine_info_bootstrap is None,
            !service@.allow_disaggregated_requests,
            service@.max_transfer_polls == 0,
    {
        HttpRouterService {
            runtime,
            model_info,
            server_info: HttpServerInfo::default(),
            engine_info_bootstrap: None,
            allow_disaggregated_requests: false,
            max_transfer_polls: 0,
        }
    }

    /// The runtime.
    pub fn runtime(&self) -> (runtime: &Arc<Mutex<R>>)
        ensures
            *runtime == self@.runtime,
    {
        &self.runtime
    }

    /// What is told of the model.
    pub fn model_info(&self) -> (model_info: &Arc<Mutex<RouterGetModelInfoResponse>>)
        ensures
            *model_info == self@.model_info,
    {
        &self.model_info
    }

    /// What the server tells of itself.
    pub fn server_info(&self) -> (info: &HttpServerInfo)
        ensures
            *info == self@.server_info,
    {
        &self.server_info
    }

    /// Where the ranks tell how their memory is reached.
    pub fn engine_info_bootstrap(&self) -> (service: &Option<E>)
        ensures
            *service == self@.engine_info_bootstrap,
    {
        &self.engine_info_bootstrap
    }

    /// Whether requests may be split over two servers.
    pub fn allows_disaggregated_requests(&self) -> (allowed: bool)
        ensures
            allowed == self@.allow_disaggregated_requests,
    {
        self.allow_disaggregated_requests
    }

    /// How often the runtime polls for transfers at most.
    pub fn max_transfer_polls(&self) -> (polls: usize)
        ensures
            polls == self@.max_transfer_polls,
    {
        self.max_transfer_polls
    }

    /// Allows requests that are split over two servers.
    pub fn with_disaggregated_requests(self) -> (service: Self)
        ensures
            service@ == (Service { allow_disaggregated_requests: true, ..self@ }),
    {
        let mut service = self;
        service.allow_disaggregated_requests = true;
        service
    }

    /// Sets what the server tells of itself.
    pub fn with_server_info(self, server_info: HttpServerInfo) -> (service: Self)
        ensures
            service@ == (Service { server_info, ..self@ }),
    {
        let mut service = self;
        service.server_info = server_info;
        service
    }

    /// Sets where the ranks tell how their memory is reached.
    pub fn with_engine_info_bootstrap_service(self, engine_info_bootstrap: E) -> (service: Self)
        ensures
            service@ == (Service { engine_info_bootstrap: Some(engine_info_bootstrap), ..self@ }),
    {
        let mut service = self;
        service.engine_info_bootstrap = Some(engine_info_bootstrap);
        service
    }

    /// Sets how often the runtime polls for transfers at most.
    pub fn with_max_transfer_polls(self, max_transfer_polls: usize) -> (service: Self)
        ensures
            service@ == (Service { max_transfer_polls: max_transfer_polls as nat, ..self@ }),
    {
        let mut service = self;
        service.max_transfer_polls = max_transfer_polls;
        service
    }
}

/// The JSON number `n`.
pub open spec fn number(n: int) -> JsonView {
    JsonView::Number(JsonNumber::Unsigned(n as u64))
}

/// A JSON string.
pub open spec fn text(s: Seq<char>) -> JsonView {
    JsonView::Text(s)
}

/// A list of texts.
pub open spec fn text_list(list: Seq<String>) -> JsonView {
    JsonView::Array(list.map_values(|s: String| JsonView::Text(s@)))
}

fn text_list_json(list: &Vec<String>) -> (json: Json)
    ensures
        json@ == text_list(list@),
{
    let mut items: Vec<Json> = Vec::new();
    let mut i: usize = 0;
    while i < list.len()
        invariant
            i <= list@.len(),
            items@.len() == i,
            forall|j: int| 0 <= j < i ==> (#[trigger] items@[j])@ == JsonView::Text(list@[j]@),
        decreases list@.len() - i,
    {
        items.push(Json::text(list[i].as_str()));
        i = i + 1;
    }
    proof {
        assert(views(items@) =~= text_list(list@)->Array_0);
    }
    Json::array(items)
}

/// A list of integers.
pub open spec fn integer_list(list: Seq<i32>) -> JsonView {
    JsonView::Array(list.map_values(|n: i32| integer_of(n)))
}

fn integer_list_json(list: &Vec<i32>) -> (json: Json)
    ensures
        json@ == integer_list(list@),
{
    let mut items: Vec<Json> = Vec::new();
    let mut i: usize = 0;
    while i < list.len()
        invariant
            i <= list@.len(),
            items@.len() == i,
            forall|j: int| 0 <= j < i ==> (#[trigger] items@[j])@ == integer_of(list@[j]),
        decreases list@.len() - i,
    {
        items.push(Json::integer(list[i] as i64));
        i = i + 1;
    }
    proof {
        assert(views(items@) =~= integer_list(list@)->Array_0);
    }
    Json::array(items)
}

/// What `/health` answers.
pub open spec fn health_body(healthy: bool, message: Seq<char>) -> JsonView {
    empty_object().with("healthy"@, JsonView::Bool(healthy)).with("message"@, text(message))
}

fn health_json(healthy: bool, message: &str) -> (json: Json)
    ensures
        json@ == health_body(healthy, message@),
{
    Json::object().with("healthy", Json::boolean(healthy)).with("message", Json::text(message))
}

/// What `/health` answers.
pub fn health() -> (reply: Reply)
    ensures
        reply@ == (Answered { status: 200, body: health_body(true, "ready"@) }),
{
    Reply { status: 200, body: health_json(true, "ready") }
}

/// How much the runtime has to do.
#[derive(Clone, Copy, Debug)]
pub struct RuntimeLoad {
    pub waiting_queue_depth: usize,
    pub decode_queue_depth: usize,
    pub available_cache_pages: usize,
}

/// What was found when the runtime was asked whether it can generate.
#[derive(Debug)]
pub enum RuntimeHealth {
    /// It is serving a request.
    Busy,
    /// A thread has failed while it held the runtime.
    Poisoned,
    /// It serves split requests, and has this much to do.
    ControlPlane(RuntimeLoad),
    /// It has generated a token.
    Generated,
    /// It could not generate a token.
    Failed(String),
}

/// The request by which the health of the runtime is tried: one token after token zero, greedily.
pub open spec fn probe() -> TokenRequest {
    TokenRequest {
        request_id: Seq::empty(),
        tokenized: Some((Seq::empty(), seq![0u32])),
        sampling: Some(
            Sampling {
                max_new_tokens: Some(1),
                temperature: Some(JsonNumber::Float(0)),
                ..default_sampling()
            },
        ),
        meeting: None,
        stream: false,
        data_parallel_rank: 0,
    }
}

/// The request by which the health of the runtime is tried.
pub fn health_probe() -> (request: RouterGenerateRequest)
    ensures
        request@ == probe(),
{
    let mut input_ids: Vec<u32> = Vec::new();
    input_ids.push(0);
    let mut sampling = RouterSamplingParams::default();
    sampling.max_new_tokens = Some(1);
    sampling.temperature = Some(JsonNumber::Float(0));
    let request = RouterGenerateRequest {
        request_id: String::new(),
        tokenized: Some(RouterTokenizedInput { original_text: String::new(), input_ids }),
        sampling_params: Some(sampling),
        disaggregated_params: None,
        stream: false,
        data_parallel_rank: 0,
    };
    proof {
        let (text, tokens) = request@.tokenized->0;
        assert(text =~= Seq::<char>::empty());
        assert(tokens =~= seq![0u32]);
        assert(request@.request_id =~= Seq::<char>::empty());
    }
    request
}

/// What `/health_generate` answers.
pub open spec fn health_generate_answer(found: RuntimeHealth) -> Answered {
    match found {
        RuntimeHealth::Busy => Answered {
            status: 200,
            body: health_body(true, "runtime is actively serving a request"@),
        },
        RuntimeHealth::Poisoned => Answered {
            status: 503,
            body: health_body(false, "router runtime mutex poisoned"@),
        },
        RuntimeHealth::ControlPlane(load) => Answered {
            status: 200,
            body: health_body(true, "PD runtime control plane is ready"@).with(
                "waiting_queue_depth"@,
                number(load.waiting_queue_depth as int),
            ).with("decode_queue_depth"@, number(load.decode_queue_depth as int)),
        },
        RuntimeHealth::Generated => Answered { status: 200, body: health_body(true, "ready"@) },
        RuntimeHealth::Failed(message) => Answered {
            status: 503,
            body: health_body(false, message@),
        },
    }
}

/// What `/health_generate` answers.
pub fn health_generate(found: RuntimeHealth) -> (reply: Reply)
    ensures
        reply@ == health_generate_answer(found),
{
    match found {
        RuntimeHealth::Busy => Reply {
            status: 200,
            body: health_json(true, "runtime is actively serving a request"),
        },
        RuntimeHealth::Poisoned => Reply {
            status: 503,
            body: health_json(false, "router runtime mutex poisoned"),
        },
        RuntimeHealth::ControlPlane(load) => Reply {
            status: 200,
            body: health_json(true, "PD runtime control plane is ready").with(
                "waiting_queue_depth",
                Json::natural(load.waiting_queue_depth as u64),
            ).with("decode_queue_depth", Json::natural(load.decode_queue_depth as u64)),
        },
        RuntimeHealth::Generated => Reply { status: 200, body: health_json(true, "ready") },
        RuntimeHealth::Failed(message) => Reply {
            status: 503,
            body: health_json(false, message.as_str()),
        },
    }
}

/// What `/v1/models` answers.
pub fn list_models(info: &RouterGetModelInfoResponse) -> (reply: Reply)
    ensures
        reply@ == (Answered {
            status: 200,
            body: empty_object().with("object"@, text("list"@)).with(
                "data"@,
                JsonView::Array(
                    seq![
                        empty_object().with("id"@, text(info.served_model_name@)).with(
                            "object"@,
                            text("model"@),
                        ).with("owned_by"@, text("sglang-rs"@)).with(
                            "root"@,
                            text(info.model_path@),
                        ),
                    ],
                ),
            ),
        }),
{
    let entry = Json::object().with("id", Json::text(info.served_model_name.as_str())).with(
        "object",
        Json::text("model"),
    ).with("owned_by", Json::text("sglang-rs")).with("root", Json::text(info.model_path.as_str()));
    Reply {
        status: 200,
        body: Json::object().with("object", Json::text("list")).with(
            "data",
            Json::array_of_one(entry),
        ),
    }
}

/// What is told of a model.
pub open spec fn model_info_body(info: RouterGetModelInfoResponse) -> JsonView {
    empty_object().with("model_path"@, text(info.model_path@)).with(
        "tokenizer_path"@,
        text(info.tokenizer_path@),
    ).with("is_generation"@, JsonView::Bool(info.is_generation)).with(
        "preferred_sampling_params"@,
        text(info.preferred_sampling_params@),
    ).with("weight_version"@, text(info.weight_version@)).with(
        "has_image_understanding"@,
        JsonView::Bool(info.supports_vision),
    ).with("has_audio_understanding"@, JsonView::Bool(false)).with(
        "model_type"@,
        text(info.model_type@),
    ).with("architectures"@, text_list(info.architectures@)).with(
        "max_context_length"@,
        integer_of(info.max_context_length),
    ).with("vocab_size"@, integer_of(info.vocab_size)).with(
        "eos_token_ids"@,
        integer_list(info.eos_token_ids@),
    ).with("pad_token_id"@, integer_of(info.pad_token_id)).with(
        "bos_token_id"@,
        integer_of(info.bos_token_id),
    ).with("max_req_input_len"@, integer_of(info.max_req_input_len))
}

/// What is told of a model.
pub fn model_info_json(info: &RouterGetModelInfoResponse) -> (json: Json)
    ensures
        json@ == model_info_body(*info),
{
    Json::object().with("model_path", Json::text(info.model_path.as_str())).with(
        "tokenizer_path",
        Json::text(info.tokenizer_path.as_str()),
    ).with("is_generation", Json::boolean(info.is_generation)).with(
        "preferred_sampling_params",
        Json::text(info.preferred_sampling_params.as_str()),
    ).with("weight_version", Json::text(info.weight_version.as_str())).with(
        "has_image_understanding",
        Json::boolean(info.supports_vision),
    ).with("has_audio_understanding", Json::boolean(false)).with(
        "model_type",
        Json::text(info.model_type.as_str()),
    ).with("architectures", text_list_json(&info.architectures)).with(
        "max_context_length",
        Json::integer(info.max_context_length as i64),
    ).with("vocab_size", Json::integer(info.vocab_size as i64)).with(
        "eos_token_ids",
        integer_list_json(&info.eos_token_ids),
    ).with("pad_token_id", Json::integer(info.pad_token_id as i64)).with(
        "bos_token_id",
        Json::integer(info.bos_token_id as i64),
    ).with("max_req_input_len", Json::integer(info.max_req_input_len as i64))
}

/// A document with a member more, where its value is given.
pub open spec fn with_given(document: JsonView, key: Seq<char>, value: Option<usize>) -> JsonView {
    match value {
        Some(n) => document.with(key, number(n as int)),
        None => document,
    }
}

fn with_given_json(document: Json, key: &str, value: Option<usize>) -> (json: Json)
    ensures
        json@ == with_given(document@, key@, value),
{
    match value {
        Some(n) => document.with(key, Json::natural(n as u64)),
        None => document,
    }
}

/// What is told of the events of a cache.
pub open spec fn kv_events_body(info: HttpKvEventsInfo) -> JsonView {
    empty_object().with("publisher"@, text(info.publisher@)).with(
        "endpoint_host"@,
        text(info.endpoint_host@),
    ).with("endpoint_port_base"@, number(info.endpoint_port_base as int)).with(
        "topic"@,
        text(info.topic@),
    ).with("block_size"@, number(info.block_size as int)).with(
        "dp_size"@,
        number(info.dp_size as int),
    )
}

/// What is told of a cache.
pub open spec fn kv_cache_body(info: HttpKvCacheInfo) -> JsonView {
    empty_object().with("dtype"@, text(info.dtype@)).with(
        "page_size"@,
        number(info.page_size as int),
    ).with("num_layers"@, number(info.num_layers as int)).with(
        "kv_heads"@,
        number(info.kv_heads as int),
    ).with("head_dim"@, number(info.head_dim as int)).with(
        "kv_tensors_per_token"@,
        number(info.kv_tensors_per_token as int),
    ).with("bytes_per_token"@, number(info.bytes_per_token as int)).with(
        "page_size_bytes"@,
        number(info.page_size_bytes as int),
    )
}

/// What is told of a server.
pub open spec fn server_info_body(info: RouterGetModelInfoResponse, server: HttpServerInfo) -> JsonView {
    let head = empty_object().with("served_model_name"@, text(info.served_model_name@)).with(
        "model_path"@,
        text(info.model_path@),
    ).with("tp_size"@, number(server.tp_size as int)).with(
        "dp_size"@,
        number(server.dp_size as int),
    ).with("load_balance_method"@, text(server.load_balance_method@)).with(
        "disaggregation_mode"@,
        text(server.disaggregation_mode@),
    ).with("enable_metrics"@, JsonView::Bool(server.enable_metrics));
    let running = with_given(
        with_given(head, "max_running_requests"@, server.max_running_requests),
        "max_num_reqs"@,
        server.max_running_requests,
    );
    let limits = with_given(
        with_given(running, "max_prefill_tokens"@, server.max_prefill_tokens),
        "max_total_tokens"@,
        server.max_total_tokens,
    );
    let port = match server.disaggregation_bootstrap_port {
        Some(n) => limits.with("disaggregation_bootstrap_port"@, number(n as int)),
        None => limits,
    };
    let events = match server.kv_events {
        Some(kv_events) => port.with("kv_events"@, kv_events_body(kv_events)),
        None => port,
    };
    match server.kv_cache {
        Some(kv_cache) => events.with("kv_cache"@, kv_cache_body(kv_cache)),
        None => events,
    }
}

/// What `/server_info` answers.
pub fn server_info(info: &RouterGetModelInfoResponse, server: &HttpServerInfo) -> (reply: Reply)
    ensures
        reply@ == (Answered { status: 200, body: server_info_body(*info, *server) }),
{
    let head = Json::object().with(
        "served_model_name",
        Json::text(info.served_model_name.as_str()),
    ).with("model_path", Json::text(info.model_path.as_str())).with(
        "tp_size",
        Json::natural(server.tp_size as u64),
    ).with("dp_size", Json::natural(server.dp_size as u64)).with(
        "load_balance_method",
        Json::text(server.load_balance_method.as_str()),
    ).with("disaggregation_mode", Json::text(server.disaggregation_mode.as_str())).with(
        "enable_metrics",
        Json::boolean(server.enable_metrics),
    );
    let mut body = with_given_json(head, "max_running_requests", server.max_running_requests);
    body = with_given_json(body, "max_num_reqs", server.max_running_requests);
    body = with_given_json(body, "max_prefill_tokens", server.max_prefill_tokens);
    body = with_given_json(body, "max_total_tokens", server.max_total_tokens);
    if let Some(port) = server.disaggregation_bootstrap_port {
        body = body.with("disaggregation_bootstrap_port", Json::natural(port as u64));
    }
    if let Some(kv_events) = &server.kv_events {
        body =
        body.with(
            "kv_events",
            Json::object().with("publisher", Json::text(kv_events.publisher.as_str())).with(
                "endpoint_host",
                Json::text(kv_events.endpoint_host.as_str()),
            ).with("endpoint_port_base", Json::natural(kv_events.endpoint_port_base as u64)).with(
                "topic",
                Json::text(kv_events.topic.as_str()),
            ).with("block_size", Json::natural(kv_events.block_size as u64)).with(
                "dp_size",
                Json::natural(kv_events.dp_size as u64),
            ),
        );
    }
    if let Some(kv_cache) = &server.kv_cache {
        body =
        body.with(
            "kv_cache",
            Json::object().with("dtype", Json::text(kv_cache.dtype.as_str())).with(
                "page_size",
                Json::natural(kv_cache.page_size),
            ).with("num_layers", Json::natural(kv_cache.num_layers)).with(
                "kv_heads",
                Json::natural(kv_cache.kv_heads),
            ).with("head_dim", Json::natural(kv_cache.head_dim)).with(
                "kv_tensors_per_token",
                Json::natural(kv_cache.kv_tensors_per_token),
            ).with("bytes_per_token", Json::natural(kv_cache.bytes_per_token)).with(
                "page_size_bytes",
                Json::natural(kv_cache.page_size_bytes),
            ),
        );
    }
    Reply { status: 200, body }
}

/// The rank whose memory is asked for.
pub open spec fn asked_rank(rank: Option<i32>) -> Result<i32, Answered> {
    match rank {
        Some(n) => if n >= 0 {
            Ok(n)
        } else {
            Err(error_answer(400, "Missing or invalid rank parameter"@))
        },
        None => Err(error_answer(400, "Missing or invalid rank parameter"@)),
    }
}

/// The rank whose memory is asked for, or the answer to a query that names none.
pub fn transfer_engine_rank(rank: Option<i32>) -> (asked: Result<i32, Reply>)
    ensures
        match asked {
            Ok(n) => asked_rank(rank) == Ok::<i32, Answered>(n),
            Err(reply) => asked_rank(rank) == Err::<i32, Answered>(reply@),
        },
{
    match rank {
        Some(n) => if n >= 0 {
            Ok(n)
        } else {
            Err(bad_request_json("Missing or invalid rank parameter"))
        },
        None => Err(bad_request_json("Missing or invalid rank parameter")),
    }
}

/// The answer where it is not known how the memory of a rank is reached.
pub fn failed_transfer_engine_info_response(rank: i32) -> (reply: Reply)
    ensures
        reply@ == error_answer(
            400,
            "Failed to get transfer engine info for rank "@ + signed_decimal(rank as int),
        ),
{
    bad_request_json(
        cat2(
            "Failed to get transfer engine info for rank ",
            decimal_i64(rank as i64).as_str(),
        ).as_str(),
    )
}

/// The answer that tells how the memory of a rank is reached.
pub fn transfer_engine_info_response(rank: i32, session_id: &str, weights_info_dict: Json) -> (reply:
    Reply)
    ensures
        reply@ == (Answered {
            status: 200,
            body: empty_object().with("rank"@, integer_of(rank)).with(
                "remote_instance_transfer_engine_info"@,
                JsonView::Array(seq![text(session_id@), weights_info_dict@]),
            ),
        }),
{
    let mut items: Vec<Json> = Vec::new();
    items.push(Json::text(session_id));
    items.push(weights_info_dict);
    proof {
        assert(views(items@) =~= seq![text(session_id@), weights_info_dict@]);
    }
    Reply {
        status: 200,
        body: Json::object().with("rank", Json::integer(rank as i64)).with(
            "remote_instance_transfer_engine_info",
            Json::array(items),
        ),
    }
}

/// What `/v1/loads` answers.
pub fn loads(load: RuntimeLoad, timestamp_secs: u64, version: &str) -> (reply: Reply)
    requires
        load.decode_queue_depth + load.waiting_queue_depth <= usize::MAX,
    ensures
        reply@ == (Answered {
            status: 200,
            body: empty_object().with("timestamp"@, number(timestamp_secs as int)).with(
                "version"@,
                text(version@),
            ).with(
                "aggregate"@,
                empty_object().with(
                    "total_tokens"@,
                    number(load.decode_queue_depth + load.waiting_queue_depth),
                ),
            ).with(
                "loads"@,
                JsonView::Array(
                    seq![
                        empty_object().with("dp_rank"@, number(0)).with(
                            "num_running_reqs"@,
                            number(load.decode_queue_depth as int),
                        ).with(
                            "num_waiting_reqs"@,
                            number(load.waiting_queue_depth as int),
                        ).with(
                            "num_reqs"@,
                            number(load.decode_queue_depth + load.waiting_queue_depth),
                        ).with(
                            "waiting_queue_depth"@,
                            number(load.waiting_queue_depth as int),
                        ).with(
                            "decode_queue_depth"@,
                            number(load.decode_queue_depth as int),
                        ).with(
                            "available_cache_pages"@,
                            number(load.available_cache_pages as int),
                        ),
                    ],
                ),
            ),
        }),
{
    let total: usize = load.decode_queue_depth + load.waiting_queue_depth;
    let entry = Json::object().with("dp_rank", Json::natural(0)).with(
        "num_running_reqs",
        Json::natural(load.decode_queue_depth as u64),
    ).with("num_waiting_reqs", Json::natural(load.waiting_queue_depth as u64)).with(
        "num_reqs",
        Json::natural(total as u64),
    ).with("waiting_queue_depth", Json::natural(load.waiting_queue_depth as u64)).with(
        "decode_queue_depth",
        Json::natural(load.decode_queue_depth as u64),
    ).with("available_cache_pages", Json::natural(load.available_cache_pages as u64));
    Reply {
        status: 200,
        body: Json::object().with("timestamp", Json::natural(timestamp_secs)).with(
            "version",
            Json::text(version),
        ).with(
            "aggregate",
            Json::object().with("total_tokens", Json::natural(total as u64)),
        ).with("loads", Json::array_of_one(entry)),
    }
}

/// What `/get_load` answers.
pub fn legacy_load(load: RuntimeLoad) -> (reply: Reply)
    requires
        load.decode_queue_depth + load.waiting_queue_depth <= usize::MAX,
    ensures
        reply@ == (Answered {
            status: 200,
            body: JsonView::Array(
                seq![
                    empty_object().with("dp_rank"@, number(0)).with(
                        "num_reqs"@,
                        number(load.decode_queue_depth + load.waiting_queue_depth),
                    ).with("num_waiting_reqs"@, number(load.waiting_queue_depth as int)).with(
                        "num_tokens"@,
                        number(0),
                    ).with("num_pending_tokens"@, number(0)),
                ],
            ),
        }),
{
    let total: usize = load.decode_queue_depth + load.waiting_queue_depth;
    let entry = Json::object().with("dp_rank", Json::natural(0)).with(
        "num_reqs",
        Json::natural(total as u64),
    ).with("num_waiting_reqs", Json::natural(load.waiting_queue_depth as u64)).with(
        "num_tokens",
        Json::natural(0),
    ).with("num_pending_tokens", Json::natural(0));
    Reply { status: 200, body: Json::array_of_one(entry) }
}

/// What the runtime tells of the transfers that it polled.
#[derive(Clone, Debug)]
pub struct PolledTransfers {
    pub completed_batches: usize,
    pub pending_batches: usize,
    pub completed_descriptor_checksums: Vec<u64>,
    pub pending_descriptor_checksums: Vec<u64>,
}

/// A list of checksums.
pub open spec fn checksum_list(checksums: Seq<u64>) -> JsonView {
    JsonView::Array(checksums.map_values(|checksum: u64| number(checksum as int)))
}

fn checksum_list_json(checksums: &Vec<u64>) -> (json: Json)
    ensures
        json@ == checksum_list(checksums@),
{
    let mut items: Vec<Json> = Vec::new();
    let mut i: usize = 0;
    while i < checksums.len()
        invariant
            i <= checksums@.len(),
            items@.len() == i,
            forall|j: int|
                0 <= j < i ==> (#[trigger] items@[j])@ == number(checksums@[j] as int),
        decreases checksums@.len() - i,
    {
        items.push(Json::natural(checksums[i]));
        i = i + 1;
    }
    proof {
        assert(views(items@) =~= checksum_list(checksums@)->Array_0);
    }
    Json::array(items)
}

/// What `/poll_transfers` answers.
pub fn poll_transfers(polled: &PolledTransfers) -> (reply: Reply)
    ensures
        reply@ == (Answered {
            status: 200,
            body: empty_object().with(
                "completed_batches"@,
                number(polled.completed_batches as int),
            ).with("pending_batches"@, number(polled.pending_batches as int)).with(
                "completed_descriptor_checksums"@,
                checksum_list(polled.completed_descriptor_checksums@),
            ).with(
                "pending_descriptor_checksums"@,
                checksum_list(polled.pending_descriptor_checksums@),
            ),
        }),
{
    Reply {
        status: 200,
        body: Json::object().with(
            "completed_batches",
            Json::natural(polled.completed_batches as u64),
        ).with("pending_batches", Json::natural(polled.pending_batches as u64)).with(
            "completed_descriptor_checksums",
            checksum_list_json(&polled.completed_descriptor_checksums),
        ).with(
            "pending_descriptor_checksums",
            checksum_list_json(&polled.pending_descriptor_checksums),
        ),
    }
}

/// What a command to the runtime answers: whether it succeeded, and a message.
pub fn outcome_reply(success: bool, message: &str) -> (reply: Reply)
    ensures
        reply@ == (Answered {
            status: 200,
            body: empty_object().with("success"@, JsonView::Bool(success)).with(
                "message"@,
                text(message@),
            ),
        }),
{
    Reply {
        status: 200,
        body: Json::object().with("success", Json::boolean(success)).with(
            "message",
            Json::text(message),
        ),
    }
}

/// The status and text that `/flush_cache` answers.
pub fn flush_cache(success: bool, message: &str) -> (answer: (u16, String))
    ensures
        success ==> answer.0 == 200 && answer.1@
            == "Cache flushed.\nPlease check backend logs for more details. (When there are running or waiting requests, the operation will not be performed.)\n"@,
        !success ==> answer.0 == 400 && answer.1@ == (if message@.len() == 0 {
            "Flush cache failed.\n"@
        } else {
            message@
        }),
{
    if success {
        (
            200,
            "Cache flushed.\nPlease check backend logs for more details. (When there are running or waiting requests, the operation will not be performed.)\n".to_owned(),
        )
    } else if message.is_empty() {
        (400, "Flush cache failed.\n".to_owned())
    } else {
        (400, message.to_owned())
    }
}

} // verus!
