//! The endpoints that abort requests, change weights, profile, and turn text into tokens.
use vstd::prelude::*;
use vstd::string::*;

use crate::http_inputs::{get_text, text_member};
use crate::http_replies::{
    bad_request_json, error_answer, error_reply, integer_of, token_array, token_array_json,
    Answered, Reply,
};
use crate::http_service::{number, text};
use crate::json::{empty_object, views, Json, JsonView};
use crate::text::{cat2, cat3, chars_of, is_space, is_white_space};

verus! {

/// Which requests are to be aborted.
#[derive(Debug)]
pub enum AbortPlan {
    All,
    One(String),
}

/// Which requests are to be aborted.
pub enum Abort {
    All,
    One(Seq<char>),
}

impl View for AbortPlan {
    type V = Abort;

    open spec fn view(&self) -> Abort {
        match *self {
            AbortPlan::All => Abort::All,
            AbortPlan::One(request_id) => Abort::One(request_id@),
        }
    }
}

/// A flag, where the member `field` is one.
pub open spec fn flag_or(payload: JsonView, field: Seq<char>, default: bool) -> bool {
    match payload.get(field) {
        Some(value) => match value.as_flag() {
            Some(flag) => flag,
            None => default,
        },
        None => default,
    }
}

fn get_flag(payload: &Json, field: &str, default: bool) -> (flag: bool)
    ensures
        flag == flag_or(payload@, field@, default),
{
    match payload.get(field) {
        Some(value) => match value.as_bool() {
            Some(flag) => flag,
            None => default,
        },
        None => default,
    }
}

/// Which requests a payload asks to abort. The newer name of the request counts where it is given.
pub open spec fn abort_in(payload: JsonView) -> Abort {
    if flag_or(payload, "abort_all"@, false) {
        Abort::All
    } else {
        let name = if payload.get("rid"@) is Some {
            text_member(payload, "rid"@)
        } else {
            text_member(payload, "request_id"@)
        };
        Abort::One(
            match name {
                Some(request_id) => request_id,
                None => Seq::empty(),
            },
        )
    }
}

/// Which requests a payload asks to abort.
pub fn plan_abort(payload: &Json) -> (plan: AbortPlan)
    ensures
        plan@ == abort_in(payload@),
{
    if get_flag(payload, "abort_all", false) {
        return AbortPlan::All;
    }
    let name = if payload.has("rid") {
        get_text(payload, "rid")
    } else {
        get_text(payload, "request_id")
    };
    match name {
        Some(request_id) => AbortPlan::One(request_id.to_owned()),
        None => {
            let empty = String::new();
            proof {
                assert(empty@ =~= Seq::empty());
            }
            AbortPlan::One(empty)
        },
    }
}

/// Whether a text holds nothing but white space.
pub open spec fn is_blank(s: Seq<char>) -> bool {
    forall|i: int| 0 <= i < s.len() ==> is_space(#[trigger] s[i])
}

/// Whether a text holds nothing but white space.
pub fn blank(s: &str) -> (is: bool)
    ensures
        is == is_blank(s@),
{
    let chars = chars_of(s);
    let mut i: usize = 0;
    while i < chars.len()
        invariant
            chars@ == s@,
            i <= chars@.len(),
            forall|j: int| 0 <= j < i ==> is_space(#[trigger] chars@[j]),
        decreases chars@.len() - i,
    {
        if !is_white_space(chars[i]) {
            proof {
                assert(!is_space(s@[i as int]));
            }
            return false;
        }
        i = i + 1;
    }
    true
}

/// Why a profile cannot be taken.
#[derive(Debug)]
pub enum ProfileError {
    InvalidArgument(String),
    Internal(String),
}

/// The directory of a profile: it must have a name.
pub fn profile_output_dir(output_dir: String) -> (checked: Result<String, ProfileError>)
    ensures
        match checked {
            Ok(dir) => !is_blank(output_dir@) && dir == output_dir,
            Err(ProfileError::InvalidArgument(message)) => is_blank(output_dir@) && message@
                == "profile output_dir cannot be empty or whitespace only"@,
            Err(_) => false,
        },
{
    if blank(output_dir.as_str()) {
        return Err(
            ProfileError::InvalidArgument(
                "profile output_dir cannot be empty or whitespace only".to_owned(),
            ),
        );
    }
    Ok(output_dir)
}

/// The answer that tells why a profile cannot be taken.
pub fn profile_error_json(error: &ProfileError) -> (reply: Reply)
    ensures
        reply@ == (match *error {
            ProfileError::InvalidArgument(message) => error_answer(400, message@),
            ProfileError::Internal(message) => error_answer(500, message@),
        }),
{
    match error {
        ProfileError::InvalidArgument(message) => error_reply(400, message.as_str()),
        ProfileError::Internal(message) => error_reply(500, message.as_str()),
    }
}

/// What starting a profile answers. One profile runs at a time.
pub fn start_profile(running: bool, output_dir: &str) -> (reply: Reply)
    ensures
        reply@ == (if running {
            error_answer(409, "profile is already running"@)
        } else {
            Answered {
                status: 200,
                body: empty_object().with("success"@, JsonView::Bool(true)).with(
                    "message"@,
                    text("profile started: "@ + output_dir@),
                ),
            }
        }),
{
    if running {
        error_reply(409, "profile is already running")
    } else {
        Reply {
            status: 200,
            body: Json::object().with("success", Json::boolean(true)).with(
                "message",
                Json::text(cat2("profile started: ", output_dir).as_str()),
            ),
        }
    }
}

/// What stopping a profile answers: the file that it was written to, where one was running.
pub fn stop_profile(profile_path: Option<&str>) -> (reply: Reply)
    ensures
        reply@ == (match profile_path {
            None => error_answer(412, "profile is not running"@),
            Some(path) => Answered {
                status: 200,
                body: empty_object().with("success"@, JsonView::Bool(true)).with(
                    "message"@,
                    text("profile stopped: "@ + path@),
                ),
            },
        }),
{
    match profile_path {
        None => error_reply(412, "profile is not running"),
        Some(path) => Reply {
            status: 200,
            body: Json::object().with("success", Json::boolean(true)).with(
                "message",
                Json::text(cat2("profile stopped: ", path).as_str()),
            ),
        },
    }
}

/// The answer to a bad request for new weights.
pub open spec fn weights_bad_request(message: Seq<char>) -> Answered {
    Answered {
        status: 400,
        body: empty_object().with("success"@, JsonView::Bool(false)).with(
            "message"@,
            text(message),
        ).with("num_paused_requests"@, number(0)),
    }
}

/// The answer to a bad request for new weights.
pub fn update_weights_bad_request(message: &str) -> (reply: Reply)
    ensures
        reply@ == weights_bad_request(message@),
{
    Reply {
        status: 400,
        body: Json::object().with("success", Json::boolean(false)).with(
            "message",
            Json::text(message),
        ).with("num_paused_requests", Json::natural(0)),
    }
}

/// The answer once new weights are in place.
pub fn weights_updated(message: &str) -> (reply: Reply)
    ensures
        reply@ == (Answered {
            status: 200,
            body: empty_object().with("success"@, JsonView::Bool(true)).with(
                "message"@,
                text(message@),
            ).with("num_paused_requests"@, number(0)),
        }),
{
    Reply {
        status: 200,
        body: Json::object().with("success", Json::boolean(true)).with(
            "message",
            Json::text(message),
        ).with("num_paused_requests", Json::natural(0)),
    }
}

/// Which weights are to be loaded, and in which format.
#[derive(Debug)]
pub struct WeightsRequest {
    pub model_path: String,
    pub load_format: Option<String>,
}

/// Which weights a payload asks for.
pub open spec fn weights_in(payload: JsonView) -> Result<(Seq<char>, Option<Seq<char>>), Seq<char>> {
    match text_member(payload, "model_path"@) {
        None => Err("model_path is required and must be a string"@),
        Some(model_path) => match payload.get("load_format"@) {
            None => Ok((model_path, None)),
            Some(JsonView::Null) => Ok((model_path, None)),
            Some(JsonView::Text(format)) => Ok((model_path, Some(format))),
            Some(_) => Err("load_format must be a string when provided"@),
        },
    }
}

/// Which weights a payload asks for, or the answer to a payload that asks for none.
pub fn parse_weights_request(payload: &Json) -> (request: Result<WeightsRequest, Reply>)
    ensures
        match request {
            Ok(made) => weights_in(payload@) == Ok::<(Seq<char>, Option<Seq<char>>), Seq<char>>(
                (made.model_path@, crate::http_inputs::optional_text(made.load_format)),
            ),
            Err(reply) => weights_in(payload@) is Err && reply@ == weights_bad_request(
                weights_in(payload@)->Err_0,
            ),
        },
{
    let model_path = match get_text(payload, "model_path") {
        Some(path) => path.to_owned(),
        None => {
            return Err(update_weights_bad_request("model_path is required and must be a string"));
        },
    };
    let load_format = match payload.get("load_format") {
        None => None,
        Some(value) => if value.is_null() {
            None
        } else {
            match value.as_str() {
                Some(format) => Some(format.to_owned()),
                None => {
                    return Err(
                        update_weights_bad_request("load_format must be a string when provided"),
                    );
                },
            }
        },
    };
    Ok(WeightsRequest { model_path, load_format })
}

/// A new name for the weights, and whether all requests are to be aborted.
#[derive(Debug)]
pub struct WeightVersionRequest {
    pub new_version: String,
    pub abort_all_requests: bool,
}

/// A new name for the weights, as a payload gives it.
pub fn parse_weight_version_request(payload: &Json) -> (request: Result<
    WeightVersionRequest,
    Reply,
>)
    ensures
        ({
            let given = text_member(payload@, "new_version"@);
            match request {
                Ok(made) => given == Some(made.new_version@) && made.new_version@.len() > 0
                    && made.abort_all_requests == flag_or(payload@, "abort_all_requests"@, true),
                Err(reply) => (given is None || given->0.len() == 0) && reply@ == (Answered {
                    status: 400,
                    body: empty_object().with("success"@, JsonView::Bool(false)).with(
                        "message"@,
                        text("new_version is required and must be a non-empty string"@),
                    ),
                }),
            }
        }),
{
    if let Some(version) = get_text(payload, "new_version") {
        if !version.is_empty() {
            return Ok(
                WeightVersionRequest {
                    new_version: version.to_owned(),
                    abort_all_requests: get_flag(payload, "abort_all_requests", true),
                },
            );
        }
    }
    Err(
        Reply {
            status: 400,
            body: Json::object().with("success", Json::boolean(false)).with(
                "message",
                Json::text("new_version is required and must be a non-empty string"),
            ),
        },
    )
}

/// The answer once the weights have a new name.
pub fn weight_version_updated(new_version: &str) -> (reply: Reply)
    ensures
        reply@ == (Answered {
            status: 200,
            body: empty_object().with("success"@, JsonView::Bool(true)).with(
                "message"@,
                text("Weight version updated to "@ + new_version@),
            ).with("new_version"@, text(new_version@)),
        }),
{
    Reply {
        status: 200,
        body: Json::object().with("success", Json::boolean(true)).with(
            "message",
            Json::text(cat2("Weight version updated to ", new_version).as_str()),
        ).with("new_version", Json::text(new_version)),
    }
}

/// Which weights are to be shown, and how many values of them.
#[derive(Debug)]
pub struct WeightsByNameRequest {
    pub name: String,
    pub truncate_size: Option<usize>,
}

/// Which weights a payload asks to see.
pub open spec fn weights_by_name_in(payload: JsonView) -> Result<
    (Seq<char>, Option<usize>),
    Seq<char>,
> {
    match text_member(payload, "name"@) {
        None => Err("name is required and must be a string"@),
        Some(name) => match payload.get("truncate_size"@) {
            None => Ok((name, None)),
            Some(JsonView::Null) => Ok((name, None)),
            Some(value) => if value.as_natural() is Some && value.as_natural()->0 <= usize::MAX {
                Ok((name, Some(value.as_natural()->0 as usize)))
            } else {
                Err("truncate_size must be a non-negative integer"@)
            },
        },
    }
}

/// Which weights a payload asks to see, or the answer to a payload that asks for none.
pub fn parse_weights_by_name_request(payload: &Json) -> (request: Result<
    WeightsByNameRequest,
    Reply,
>)
    ensures
        match request {
            Ok(made) => weights_by_name_in(payload@) == Ok::<(Seq<char>, Option<usize>), Seq<char>>(
                (made.name@, made.truncate_size),
            ),
            Err(reply) => weights_by_name_in(payload@) is Err && reply@ == error_answer(
                400,
                weights_by_name_in(payload@)->Err_0,
            ),
        },
{
    let name = match get_text(payload, "name") {
        Some(name) => name.to_owned(),
        None => {
            return Err(bad_request_json("name is required and must be a string"));
        },
    };
    let truncate_size: Option<usize> = match payload.get("truncate_size") {
        None => None,
        Some(value) => if value.is_null() {
            None
        } else {
            match value.as_u64() {
                Some(n) => if n <= usize::MAX as u64 {
                    Some(n as usize)
                } else {
                    return Err(
                        bad_request_json("truncate_size must be a non-negative integer"),
                    );
                },
                None => {
                    return Err(
                        bad_request_json("truncate_size must be a non-negative integer"),
                    );
                },
            }
        },
    };
    Ok(WeightsByNameRequest { name, truncate_size })
}

/// The context length that is told with tokens: -1 where it is not known.
pub open spec fn told_context_length(max_context_length: i32) -> i32 {
    if max_context_length > 0 {
        max_context_length
    } else {
        (-1) as i32
    }
}

/// The answer that tells the tokens of a text.
pub fn tokenized_reply(tokens: &Vec<u32>, max_context_length: i32) -> (reply: Reply)
    ensures
        reply@ == (Answered {
            status: 200,
            body: empty_object().with("tokens"@, token_array(tokens@)).with(
                "count"@,
                number(tokens@.len() as int),
            ).with("max_model_len"@, integer_of(told_context_length(max_context_length))),
        }),
{
    let length: i32 = if max_context_length > 0 {
        max_context_length
    } else {
        -1
    };
    Reply {
        status: 200,
        body: Json::object().with("tokens", token_array_json(tokens)).with(
            "count",
            Json::natural(tokens.len() as u64),
        ).with("max_model_len", Json::integer(length as i64)),
    }
}

/// The answer that tells the tokens of several texts.
pub fn tokenized_batch_reply(batches: &Vec<Vec<u32>>, max_context_length: i32) -> (reply: Reply)
    ensures
        reply@ == (Answered {
            status: 200,
            body: empty_object().with(
                "tokens"@,
                JsonView::Array(
                    Seq::new(batches@.len(), |i: int| token_array(batches@[i]@)),
                ),
            ).with(
                "count"@,
                JsonView::Array(
                    Seq::new(batches@.len(), |i: int| number(batches@[i]@.len() as int)),
                ),
            ).with("max_model_len"@, integer_of(told_context_length(max_context_length))),
        }),
{
    let mut tokens: Vec<Json> = Vec::new();
    let mut counts: Vec<Json> = Vec::new();
    let mut i: usize = 0;
    while i < batches.len()
        invariant
            i <= batches@.len(),
            tokens@.len() == i,
            counts@.len() == i,
            forall|j: int| 0 <= j < i ==> (#[trigger] tokens@[j])@ == token_array(batches@[j]@),
            forall|j: int|
                0 <= j < i ==> (#[trigger] counts@[j])@ == number(batches@[j]@.len() as int),
        decreases batches@.len() - i,
    {
        tokens.push(token_array_json(&batches[i]));
        counts.push(Json::natural(batches[i].len() as u64));
        i = i + 1;
    }
    proof {
        assert(views(tokens@) =~= Seq::new(batches@.len(), |i: int| token_array(batches@[i]@)));
        assert(views(counts@) =~= Seq::new(
            batches@.len(),
            |i: int| number(batches@[i]@.len() as int),
        ));
    }
    let length: i32 = if max_context_length > 0 {
        max_context_length
    } else {
        -1
    };
    Reply {
        status: 200,
        body: Json::object().with("tokens", Json::array(tokens)).with(
            "count",
            Json::array(counts),
        ).with("max_model_len", Json::integer(length as i64)),
    }
}

/// The answer that tells the text of tokens.
pub fn detokenized_reply(decoded: Result<&str, &str>) -> (reply: Reply)
    ensures
        reply@ == (match decoded {
            Ok(s) => Answered { status: 200, body: empty_object().with("text"@, text(s@)) },
            Err(error) => error_answer(
                400,
                "Error decoding tokens: "@ + error@
                    + ". Input tokens might be invalid for the model."@,
            ),
        }),
{
    match decoded {
        Ok(s) => Reply { status: 200, body: Json::object().with("text", Json::text(s)) },
        Err(error) => bad_request_json(
            cat3(
                "Error decoding tokens: ",
                error,
                ". Input tokens might be invalid for the model.",
            ).as_str(),
        ),
    }
}

/// The answer that tells the texts of several token lists.
pub fn detokenized_batch_reply(decoded: &Vec<String>) -> (reply: Reply)
    ensures
        reply@ == (Answered {
            status: 200,
            body: empty_object().with(
                "text"@,
                JsonView::Array(Seq::new(decoded@.len(), |i: int| text(decoded@[i]@))),
            ),
        }),
{
    let mut items: Vec<Json> = Vec::new();
    let mut i: usize = 0;
    while i < decoded.len()
        invariant
            i <= decoded@.len(),
            items@.len() == i,
            forall|j: int| 0 <= j < i ==> (#[trigger] items@[j])@ == text(decoded@[j]@),
        decreases decoded@.len() - i,
    {
        items.push(Json::text(decoded[i].as_str()));
        i = i + 1;
    }
    proof {
        assert(views(items@) =~= Seq::new(decoded@.len(), |i: int| text(decoded@[i]@)));
    }
    Reply { status: 200, body: Json::object().with("text", Json::array(items)) }
}

} // verus!
