//! The inputs that chat, responses, tokenizer and maintenance payloads carry.
use vstd::prelude::*;
use vstd::string::*;

use crate::http_requests::{
    header_bytes, model_failure, openai_sampling_in, or_default, payload_with_header, with_limit,
    HttpChatRequest, HttpCompletionRequest, HttpGenerateRequest, HttpResponsesRequest,
    GenerateAsk, TextAsk, TokenAsk,
};
use crate::json::{empty_object, views, Json, JsonView};
use crate::json_text::{parse_json, parsed};
use crate::payload::{
    collected, collected_step, either, failed, flag_in, i32_in, json_to_disaggregated_params,
    meeting_in, optional_bool, optional_i32, optional_routed_dp_rank, optional_string, rank_in,
    read_texts, read_u32s, string_or_empty, text_in, text_or, text_or_empty, u32_or,
};
use crate::router::{
    optional_meeting, text_requests, token_requests, Meeting, RouterDisaggregatedParams,
    RouterTextGenerateRequest, TextRequest, TokenRequest,
};
use crate::text::{cat2, cat3, same_text, texts};

verus! {

/// The member `field` of an object, where it is a text.
pub open spec fn text_member(value: JsonView, field: Seq<char>) -> Option<Seq<char>> {
    match value.get(field) {
        Some(member) => member.as_text(),
        None => None,
    }
}

/// The member `field` of an object, where it is a text.
pub fn get_text<'a>(value: &'a Json, field: &str) -> (text: Option<&'a str>)
    ensures
        match text {
            Some(s) => text_member(value@, field@) == Some(s@),
            None => text_member(value@, field@) is None,
        },
{
    match value.get(field) {
        Some(member) => member.as_str(),
        None => None,
    }
}

/// Whether a part of a message's content is a text.
pub open spec fn is_text_part(part: JsonView) -> bool {
    text_member(part, "type"@) == Some("text"@)
}

/// The text of the parts of a message's content, which must all be texts.
pub open spec fn chat_parts_text(parts: Seq<JsonView>) -> Result<Seq<char>, Seq<char>>
    decreases parts.len(),
{
    if parts.len() == 0 {
        Ok(Seq::empty())
    } else {
        match chat_parts_text(parts.drop_last()) {
            Err(message) => Err(message),
            Ok(front) => if !is_text_part(parts.last()) {
                Err("multimodal chat content is not supported by this text runtime"@)
            } else {
                match text_member(parts.last(), "text"@) {
                    None => Err("chat text content part requires text"@),
                    Some(text) => Ok(front + text),
                }
            },
        }
    }
}

/// Whether a role is one of a chat.
pub open spec fn is_chat_role(role: Seq<char>) -> bool {
    role == "system"@ || role == "developer"@ || role == "user"@ || role == "assistant"@ || role
        == "tool"@
}

/// A chat message with its content as one text.
pub open spec fn normalized_message(message: JsonView) -> Result<JsonView, Seq<char>> {
    if !(message is Object) {
        Err("chat message entries must be objects"@)
    } else {
        match text_member(message, "role"@) {
            None => Err("chat message role is required"@),
            Some(role) => if !is_chat_role(role) {
                Err("unsupported chat message role: "@ + role)
            } else {
                match message.get("content"@) {
                    None => if role == "assistant"@ && message.get("tool_calls"@) is Some {
                        Ok(message.with("content"@, JsonView::Null))
                    } else {
                        Err("chat message content is required"@)
                    },
                    Some(content) => match content {
                        JsonView::Text(text) => Ok(message.with("content"@, JsonView::Text(text))),
                        JsonView::Array(parts) => match chat_parts_text(parts) {
                            Ok(text) => Ok(message.with("content"@, JsonView::Text(text))),
                            Err(failure) => Err(failure),
                        },
                        JsonView::Null => if role == "assistant"@ {
                            Ok(message)
                        } else {
                            Err("chat message content must be a string or array"@)
                        },
                        _ => Err("chat message content must be a string or array"@),
                    },
                }
            },
        }
    }
}

proof fn lemma_chat_parts_stay(parts: Seq<JsonView>, i: int)
    requires
        0 <= i <= parts.len(),
    ensures
        chat_parts_text(parts.take(i)) is Err ==> chat_parts_text(parts) == chat_parts_text(
            parts.take(i),
        ),
    decreases parts.len() - i,
{
    if i < parts.len() {
        assert(parts.take(i + 1).drop_last() =~= parts.take(i));
        lemma_chat_parts_stay(parts, i + 1);
    } else {
        assert(parts.take(i) =~= parts);
    }
}

fn join_chat_parts(parts: &Vec<Json>) -> (text: Result<String, String>)
    ensures
        match text {
            Ok(s) => chat_parts_text(views(parts@)) == Ok::<Seq<char>, Seq<char>>(s@),
            Err(message) => chat_parts_text(views(parts@)) == Err::<Seq<char>, Seq<char>>(message@),
        },
{
    let ghost all = views(parts@);
    let mut text = String::new();
    let mut i: usize = 0;
    proof {
        assert(text@ =~= Seq::empty());
        assert(all.take(0) =~= Seq::empty());
    }
    while i < parts.len()
        invariant
            i <= parts@.len(),
            all == views(parts@),
            chat_parts_text(all.take(i as int)) == Ok::<Seq<char>, Seq<char>>(text@),
        decreases parts@.len() - i,
    {
        let part = &parts[i];
        proof {
            assert(all.take(i + 1).drop_last() =~= all.take(i as int));
            assert(all.take(i + 1).last() == part@);
            lemma_chat_parts_stay(all, i + 1);
        }
        let is_text = match get_text(part, "type") {
            Some(kind) => same_text(kind, "text"),
            None => false,
        };
        if !is_text {
            return Err(
                "multimodal chat content is not supported by this text runtime".to_owned(),
            );
        }
        match get_text(part, "text") {
            Some(part_text) => {
                text.append(part_text);
            },
            None => {
                return Err("chat text content part requires text".to_owned());
            },
        }
        i = i + 1;
    }
    proof {
        assert(all.take(i as int) =~= all);
    }
    Ok(text)
}

/// A chat message with its content as one text.
pub fn normalize_chat_message(message: &Json) -> (normalized: Result<Json, String>)
    ensures
        match normalized {
            Ok(json) => normalized_message(message@) == Ok::<JsonView, Seq<char>>(json@),
            Err(failure) => normalized_message(message@) == Err::<JsonView, Seq<char>>(failure@),
        },
{
    if !message.is_object() {
        return Err("chat message entries must be objects".to_owned());
    }
    let role = match get_text(message, "role") {
        Some(role) => role,
        None => {
            return Err("chat message role is required".to_owned());
        },
    };
    if !(same_text(role, "system") || same_text(role, "developer") || same_text(role, "user")
        || same_text(role, "assistant") || same_text(role, "tool")) {
        return Err(cat2("unsupported chat message role: ", role));
    }
    let content = match message.get("content") {
        Some(content) => content,
        None => {
            if same_text(role, "assistant") && message.has("tool_calls") {
                return Ok(message.copy().with("content", Json::null()));
            }
            return Err("chat message content is required".to_owned());
        },
    };
    if let Some(text) = content.as_str() {
        return Ok(message.copy().with("content", Json::text(text)));
    }
    if content.is_null() && same_text(role, "assistant") {
        return Ok(message.copy());
    }
    match content.as_array() {
        Some(parts) => {
            let text = join_chat_parts(parts)?;
            Ok(message.copy().with("content", Json::Text(text)))
        },
        None => Err("chat message content must be a string or array".to_owned()),
    }
}

/// What a chat template is rendered from.
#[derive(Debug)]
pub struct ChatTemplateInput {
    pub messages: Vec<Json>,
    pub tools: Option<Vec<Json>>,
    pub template_kwargs: Json,
}

/// What a [`ChatTemplateInput`] says.
pub struct ChatInput {
    pub messages: Seq<JsonView>,
    pub tools: Option<Seq<JsonView>>,
    pub template_kwargs: JsonView,
}

impl View for ChatTemplateInput {
    type V = ChatInput;

    open spec fn view(&self) -> ChatInput {
        ChatInput {
            messages: views(self.messages@),
            tools: match self.tools {
                Some(tools) => Some(views(tools@)),
                None => None,
            },
            template_kwargs: self.template_kwargs@,
        }
    }
}

/// The messages of a chat payload.
pub open spec fn chat_messages_in(payload: JsonView) -> Result<Seq<JsonView>, Seq<char>> {
    let value = payload.get("messages"@);
    if value is None || value->0.as_items() is None {
        Err("messages must be an array"@)
    } else if value->0.as_items()->0.len() == 0 {
        Err("messages must not be empty"@)
    } else {
        collected(
            value->0.as_items()->0,
            |message: JsonView| normalized_message(message),
        )
    }
}

/// The tools of a chat payload.
pub open spec fn tools_in(payload: JsonView) -> Result<Option<Seq<JsonView>>, Seq<char>> {
    match payload.get("tools"@) {
        None => Ok(None),
        Some(JsonView::Null) => Ok(None),
        Some(JsonView::Array(tools)) => Ok(Some(tools)),
        Some(_) => Err("tools must be an array"@),
    }
}

/// What is said of a template argument that the server sets itself.
pub open spec fn reserved_message(name: Seq<char>) -> Seq<char> {
    "chat_template_kwargs."@ + name + " is controlled by the serving runtime"@
}

/// The template arguments of a chat payload.
pub open spec fn template_kwargs_in(payload: JsonView) -> Result<JsonView, Seq<char>> {
    let kwargs = match payload.get("chat_template_kwargs"@) {
        None => Ok(empty_object()),
        Some(JsonView::Null) => Ok(empty_object()),
        Some(JsonView::Object(members)) => Ok(JsonView::Object(members)),
        Some(_) => Err("chat_template_kwargs must be an object"@),
    };
    match kwargs {
        Err(message) => Err(message),
        Ok(value) => if value.get("messages"@) is Some {
            Err(reserved_message("messages"@))
        } else if value.get("tools"@) is Some {
            Err(reserved_message("tools"@))
        } else if value.get("add_generation_prompt"@) is Some {
            Err(reserved_message("add_generation_prompt"@))
        } else {
            Ok(value)
        },
    }
}

/// What the chat template of a payload is rendered from.
pub open spec fn chat_input_in(payload: JsonView) -> Result<ChatInput, Seq<char>> {
    match either(
        failed(chat_messages_in(payload)),
        either(failed(tools_in(payload)), failed(template_kwargs_in(payload))),
    ) {
        Some(message) => Err(message),
        None => Ok(
            ChatInput {
                messages: chat_messages_in(payload)->Ok_0,
                tools: tools_in(payload)->Ok_0,
                template_kwargs: template_kwargs_in(payload)->Ok_0,
            },
        ),
    }
}

fn normalize_all(items: &Vec<Json>) -> (list: Result<Vec<Json>, String>)
    ensures
        match list {
            Ok(v) => collected(
                views(items@),
                |message: JsonView| normalized_message(message),
            ) == Ok::<Seq<JsonView>, Seq<char>>(views(v@)),
            Err(failure) => collected(
                views(items@),
                |message: JsonView| normalized_message(message),
            ) == Err::<Seq<JsonView>, Seq<char>>(failure@),
        },
{
    let ghost all = views(items@);
    let ghost read = |message: JsonView| normalized_message(message);
    let mut list: Vec<Json> = Vec::new();
    let mut i: usize = 0;
    proof {
        assert(all.take(0) =~= Seq::empty());
        assert(views(list@) =~= Seq::empty());
    }
    while i < items.len()
        invariant
            i <= items@.len(),
            all == views(items@),
            read == (|message: JsonView| normalized_message(message)),
            collected(all.take(i as int), read) == Ok::<Seq<JsonView>, Seq<char>>(views(list@)),
        decreases items@.len() - i,
    {
        proof {
            collected_step(all, read, i as int);
        }
        let message = normalize_chat_message(&items[i])?;
        let ghost before = views(list@);
        list.push(message);
        proof {
            assert(views(list@) =~= before.push(message@));
        }
        i = i + 1;
    }
    proof {
        assert(all.take(i as int) =~= all);
    }
    Ok(list)
}

/// What the chat template of a payload is rendered from.
pub fn chat_template_input_from_payload(payload: &Json) -> (input: Result<
    ChatTemplateInput,
    String,
>)
    ensures
        match input {
            Ok(made) => chat_input_in(payload@) == Ok::<ChatInput, Seq<char>>(made@),
            Err(message) => chat_input_in(payload@) == Err::<ChatInput, Seq<char>>(message@),
        },
{
    let items = match payload.get("messages") {
        Some(value) => match value.as_array() {
            Some(items) => items,
            None => {
                return Err("messages must be an array".to_owned());
            },
        },
        None => {
            return Err("messages must be an array".to_owned());
        },
    };
    if items.len() == 0 {
        return Err("messages must not be empty".to_owned());
    }
    let messages = normalize_all(items)?;
    let tools = match payload.get("tools") {
        None => None,
        Some(value) => if value.is_null() {
            None
        } else {
            match value.as_array() {
                Some(tools) => Some(Json::copy_all(tools)),
                None => {
                    return Err("tools must be an array".to_owned());
                },
            }
        },
    };
    let template_kwargs = match payload.get("chat_template_kwargs") {
        None => Json::object(),
        Some(value) => if value.is_null() {
            Json::object()
        } else if value.is_object() {
            value.copy()
        } else {
            return Err("chat_template_kwargs must be an object".to_owned());
        },
    };
    if template_kwargs.has("messages") {
        return Err(
            cat3("chat_template_kwargs.", "messages", " is controlled by the serving runtime"),
        );
    }
    if template_kwargs.has("tools") {
        return Err(
            cat3("chat_template_kwargs.", "tools", " is controlled by the serving runtime"),
        );
    }
    if template_kwargs.has("add_generation_prompt") {
        return Err(
            cat3(
                "chat_template_kwargs.",
                "add_generation_prompt",
                " is controlled by the serving runtime",
            ),
        );
    }
    Ok(ChatTemplateInput { messages, tools, template_kwargs })
}

/// The text of the text parts of a content; other parts are passed over.
pub open spec fn responses_parts_text(parts: Seq<JsonView>) -> Result<Seq<char>, Seq<char>>
    decreases parts.len(),
{
    if parts.len() == 0 {
        Ok(Seq::empty())
    } else {
        match responses_parts_text(parts.drop_last()) {
            Err(message) => Err(message),
            Ok(front) => {
                let kind = text_member(parts.last(), "type"@);
                if kind == Some("input_text"@) || kind == Some("text"@) {
                    match text_member(parts.last(), "text"@) {
                        None => Err("responses text content part requires text"@),
                        Some(text) => Ok(front + text),
                    }
                } else {
                    Ok(front)
                }
            },
        }
    }
}

/// The text of a content.
pub open spec fn responses_content_text(value: JsonView) -> Result<Seq<char>, Seq<char>> {
    match value {
        JsonView::Text(text) => Ok(text),
        JsonView::Array(parts) => responses_parts_text(parts),
        _ => Err("responses content must be a string or array"@),
    }
}

/// The text of an input item.
pub open spec fn responses_item_text(value: JsonView) -> Result<Seq<char>, Seq<char>> {
    match value.as_text() {
        Some(text) => Ok(text),
        None => match value.get("content"@) {
            None => Err("responses input item content is required"@),
            Some(content) => responses_content_text(content),
        },
    }
}

/// The texts, one per line.
pub open spec fn lines_of(list: Seq<Seq<char>>) -> Seq<char>
    decreases list.len(),
{
    if list.len() == 0 {
        Seq::empty()
    } else if list.len() == 1 {
        list[0]
    } else {
        lines_of(list.drop_last()) + "\n"@ + list.last()
    }
}

/// The text of a responses input.
pub open spec fn responses_input_text(payload: JsonView) -> Result<Seq<char>, Seq<char>> {
    match payload.get("input"@) {
        None => Err("missing input"@),
        Some(value) => match value {
            JsonView::Text(text) => Ok(text),
            JsonView::Array(items) => if items.len() == 0 {
                Err("input array must not be empty"@)
            } else {
                match collected(items, |item: JsonView| responses_item_text(item)) {
                    Ok(list) => Ok(lines_of(list)),
                    Err(message) => Err(message),
                }
            },
            _ => Err("input must be a string or array"@),
        },
    }
}

proof fn lemma_responses_parts_stay(parts: Seq<JsonView>, i: int)
    requires
        0 <= i <= parts.len(),
    ensures
        responses_parts_text(parts.take(i)) is Err ==> responses_parts_text(parts)
            == responses_parts_text(parts.take(i)),
    decreases parts.len() - i,
{
    if i < parts.len() {
        assert(parts.take(i + 1).drop_last() =~= parts.take(i));
        lemma_responses_parts_stay(parts, i + 1);
    } else {
        assert(parts.take(i) =~= parts);
    }
}

/// The text of a content.
pub fn responses_content_to_text(value: &Json) -> (text: Result<String, String>)
    ensures
        match text {
            Ok(s) => responses_content_text(value@) == Ok::<Seq<char>, Seq<char>>(s@),
            Err(message) => responses_content_text(value@) == Err::<Seq<char>, Seq<char>>(message@),
        },
{
    if let Some(text) = value.as_str() {
        return Ok(text.to_owned());
    }
    let parts = match value.as_array() {
        Some(parts) => parts,
        None => {
            return Err("responses content must be a string or array".to_owned());
        },
    };
    let ghost all = views(parts@);
    let mut text = String::new();
    let mut i: usize = 0;
    proof {
        assert(text@ =~= Seq::empty());
        assert(all.take(0) =~= Seq::empty());
    }
    while i < parts.len()
        invariant
            i <= parts@.len(),
            all == views(parts@),
            value@ == JsonView::Array(all),
            responses_parts_text(all.take(i as int)) == Ok::<Seq<char>, Seq<char>>(text@),
        decreases parts@.len() - i,
    {
        let part = &parts[i];
        proof {
            assert(all.take(i + 1).drop_last() =~= all.take(i as int));
            assert(all.take(i + 1).last() == part@);
            lemma_responses_parts_stay(all, i + 1);
        }
        let is_text = match get_text(part, "type") {
            Some(kind) => same_text(kind, "input_text") || same_text(kind, "text"),
            None => false,
        };
        if is_text {
            match get_text(part, "text") {
                Some(part_text) => {
                    text.append(part_text);
                },
                None => {
                    return Err("responses text content part requires text".to_owned());
                },
            }
        }
        i = i + 1;
    }
    proof {
        assert(all.take(i as int) =~= all);
    }
    Ok(text)
}

/// The text of an input item.
pub fn responses_input_item_to_text(value: &Json) -> (text: Result<String, String>)
    ensures
        match text {
            Ok(s) => responses_item_text(value@) == Ok::<Seq<char>, Seq<char>>(s@),
            Err(message) => responses_item_text(value@) == Err::<Seq<char>, Seq<char>>(message@),
        },
{
    if let Some(text) = value.as_str() {
        return Ok(text.to_owned());
    }
    match value.get("content") {
        Some(content) => responses_content_to_text(content),
        None => Err("responses input item content is required".to_owned()),
    }
}

/// The text of a responses input.
pub fn responses_input_to_text(payload: &Json) -> (text: Result<String, String>)
    ensures
        match text {
            Ok(s) => responses_input_text(payload@) == Ok::<Seq<char>, Seq<char>>(s@),
            Err(message) => responses_input_text(payload@) == Err::<Seq<char>, Seq<char>>(message@),
        },
{
    let value = match payload.get("input") {
        Some(value) => value,
        None => {
            return Err("missing input".to_owned());
        },
    };
    if let Some(text) = value.as_str() {
        return Ok(text.to_owned());
    }
    let items = match value.as_array() {
        Some(items) => items,
        None => {
            return Err("input must be a string or array".to_owned());
        },
    };
    if items.len() == 0 {
        return Err("input array must not be empty".to_owned());
    }
    let ghost all = views(items@);
    let ghost read = |item: JsonView| responses_item_text(item);
    let ghost mut list: Seq<Seq<char>> = Seq::empty();
    let mut joined = String::new();
    let mut i: usize = 0;
    proof {
        assert(all.take(0) =~= Seq::empty());
        assert(joined@ =~= Seq::empty());
    }
    while i < items.len()
        invariant
            i <= items@.len(),
            items@.len() > 0,
            all == views(items@),
            payload@.get("input"@) == Some(JsonView::Array(all)),
            read == (|item: JsonView| responses_item_text(item)),
            collected(all.take(i as int), read) == Ok::<Seq<Seq<char>>, Seq<char>>(list),
            list.len() == i,
            joined@ == lines_of(list),
        decreases items@.len() - i,
    {
        proof {
            collected_step(all, read, i as int);
        }
        let text = responses_input_item_to_text(&items[i])?;
        if i == 0 {
            joined = text.clone();
        } else {
            joined.append("\n");
            joined.append(text.as_str());
        }
        proof {
            let after = list.push(text@);
            assert(after.drop_last() =~= list);
            list = after;
        }
        i = i + 1;
    }
    proof {
        assert(all.take(i as int) =~= all);
    }
    Ok(joined)
}

/// The text of a responses payload: its instructions, then its input.
pub open spec fn responses_text(instructions: Option<Seq<char>>, input: Seq<char>) -> Seq<char> {
    match instructions {
        None => input,
        Some(text) => if input.len() == 0 {
            text
        } else {
            text + "\n"@ + input
        },
    }
}

/// What a responses payload asks for.
pub open spec fn responses_ask_in(payload: JsonView, served: Seq<char>) -> Result<
    TextRequest,
    Seq<char>,
> {
    let sampling = openai_sampling_in(payload);
    let limit = i32_in(payload, "max_output_tokens"@);
    let input = responses_input_text(payload);
    let instructions = text_in(payload, "instructions"@);
    let meeting = meeting_in(payload);
    let stream = flag_in(payload, "stream"@);
    let rank = rank_in(payload);
    match either(
        model_failure(payload, served),
        either(
            failed(sampling),
            either(
                failed(limit),
                either(
                    failed(input),
                    either(
                        failed(instructions),
                        either(failed(meeting), either(failed(stream), failed(rank))),
                    ),
                ),
            ),
        ),
    ) {
        Some(message) => Err(message),
        None => Ok(
            TextRequest {
                request_id: text_or_empty(payload, "request_id"@),
                text: responses_text(instructions->Ok_0, input->Ok_0),
                sampling: Some(with_limit(sampling->Ok_0, limit->Ok_0)),
                meeting: meeting->Ok_0,
                stream: or_default(stream->Ok_0, false),
                data_parallel_rank: or_default(rank->Ok_0, 0),
            },
        ),
    }
}

/// What a responses payload asks for.
pub fn http_responses_payload_to_router_request(payload: &Json, served_model_name: &str) -> (
    request: Result<HttpResponsesRequest, String>)
    ensures
        match request {
            Ok(made) => responses_ask_in(payload@, served_model_name@) == Ok::<
                TextRequest,
                Seq<char>,
            >(made.request@) && made.model@ == served_model_name@,
            Err(message) => responses_ask_in(payload@, served_model_name@) == Err::<
                TextRequest,
                Seq<char>,
            >(message@),
        },
{
    crate::http_requests::check_model(payload, served_model_name)?;
    let mut sampling_params = crate::http_requests::read_openai_sampling(payload)?;
    if let Some(max_output_tokens) = optional_i32(payload, "max_output_tokens")? {
        sampling_params.max_new_tokens = Some(max_output_tokens);
    }
    let mut text = responses_input_to_text(payload)?;
    if let Some(instructions) = optional_string(payload, "instructions")? {
        text =
        if text.as_str().is_empty() {
            instructions.to_owned()
        } else {
            cat3(instructions, "\n", text.as_str())
        };
    }
    let request_id = string_or_empty(payload, "request_id");
    let disaggregated_params = json_to_disaggregated_params(payload)?;
    let stream = match optional_bool(payload, "stream")? {
        Some(flag) => flag,
        None => false,
    };
    let data_parallel_rank: i32 = match optional_routed_dp_rank(payload)? {
        Some(rank) => rank,
        None => 0,
    };
    Ok(
        HttpResponsesRequest {
            model: served_model_name.to_owned(),
            request: RouterTextGenerateRequest {
                request_id,
                text,
                sampling_params: Some(sampling_params),
                disaggregated_params,
                stream,
                data_parallel_rank,
            },
        },
    )
}

/// What a responses payload with a header asks for.
pub fn http_responses_payload_to_router_request_with_headers(
    payload: Json,
    served_model_name: &str,
    header: Option<&Vec<u8>>,
) -> (request: Result<HttpResponsesRequest, String>)
    ensures
        match payload_with_header(payload@, header_bytes(header)) {
            Err(failure) => request is Err && request->Err_0@ == failure,
            Ok(merged) => match request {
                Ok(made) => responses_ask_in(merged, served_model_name@) == Ok::<
                    TextRequest,
                    Seq<char>,
                >(made.request@) && made.model@ == served_model_name@,
                Err(message) => responses_ask_in(merged, served_model_name@) == Err::<
                    TextRequest,
                    Seq<char>,
                >(message@),
            },
        },
{
    let merged = crate::http_requests::payload_with_routed_dp_rank_header(payload, header)?;
    http_responses_payload_to_router_request(&merged, served_model_name)
}

/// What is to be tokenized.
#[derive(Debug)]
pub enum TokenizePrompt {
    Single(String),
    Batch(Vec<String>),
}

/// What is to be tokenized: one text, or a list of them.
pub open spec fn tokenize_prompt_in(payload: JsonView) -> Result<(bool, Seq<Seq<char>>), Seq<char>> {
    let has_prompt = payload.get("prompt"@) is Some;
    let has_messages = payload.get("messages"@) is Some;
    if has_prompt == has_messages {
        Err("Exactly one of 'prompt' or 'messages' must be provided."@)
    } else if has_messages {
        Err("messages tokenization requires chat template support"@)
    } else {
        match payload.get("prompt"@)->0 {
            JsonView::Text(prompt) => Ok((false, seq![prompt])),
            JsonView::Array(prompts) => match collected(
                prompts,
                |item: JsonView|
                    text_or(item, "Invalid prompt type: expected string or list of strings."@),
            ) {
                Ok(list) => Ok((true, list)),
                Err(message) => Err(message),
            },
            _ => Err("Invalid prompt type: expected string or list of strings."@),
        }
    }
}

/// What is to be tokenized.
pub fn parse_tokenize_prompt(payload: &Json) -> (prompt: Result<TokenizePrompt, String>)
    ensures
        match prompt {
            Ok(TokenizePrompt::Single(text)) => tokenize_prompt_in(payload@) == Ok::<
                (bool, Seq<Seq<char>>),
                Seq<char>,
            >((false, seq![text@])),
            Ok(TokenizePrompt::Batch(list)) => tokenize_prompt_in(payload@) == Ok::<
                (bool, Seq<Seq<char>>),
                Seq<char>,
            >((true, texts(list@))),
            Err(message) => tokenize_prompt_in(payload@) == Err::<
                (bool, Seq<Seq<char>>),
                Seq<char>,
            >(message@),
        },
{
    let has_prompt = payload.has("prompt");
    let has_messages = payload.has("messages");
    if has_prompt == has_messages {
        return Err("Exactly one of 'prompt' or 'messages' must be provided.".to_owned());
    }
    if has_messages {
        return Err("messages tokenization requires chat template support".to_owned());
    }
    if let Some(value) = payload.get("prompt") {
        if let Some(text) = value.as_str() {
            return Ok(TokenizePrompt::Single(text.to_owned()));
        }
        if let Some(prompts) = value.as_array() {
            let list = read_texts(
                prompts,
                "Invalid prompt type: expected string or list of strings.",
            )?;
            return Ok(TokenizePrompt::Batch(list));
        }
    }
    Err("Invalid prompt type: expected string or list of strings.".to_owned())
}

/// What is to be turned back to text.
#[derive(Debug)]
pub enum DetokenizeTokens {
    Single(Vec<u32>),
    Batch(Vec<Vec<u32>>),
}

/// What is to be turned back to text: one token list, or several.
pub enum Detokenize {
    Single(Seq<u32>),
    Batch(Seq<Seq<u32>>),
}

/// The tokens of a list.
pub open spec fn token_list_of(items: Seq<JsonView>) -> Result<Seq<u32>, Seq<char>> {
    collected(
        items,
        |item: JsonView|
            u32_or(
                item,
                "Invalid input: 'tokens' must be a list of integers."@,
                "Invalid input: token id exceeds u32 range."@,
            ),
    )
}

/// The tokens of an item that must be a list.
pub open spec fn token_item_of(item: JsonView) -> Result<Seq<u32>, Seq<char>> {
    match item.as_items() {
        Some(items) => token_list_of(items),
        None => Err("Invalid tokens type: expected list of integers or list of lists."@),
    }
}

/// What is to be turned back to text.
pub open spec fn detokenize_in(payload: JsonView) -> Result<Detokenize, Seq<char>> {
    match payload.get("tokens"@) {
        None => Err("missing `tokens` field"@),
        Some(value) => match value.as_items() {
            None => Err("Invalid tokens type: expected list of integers or list of lists."@),
            Some(items) => if items.len() == 0 {
                Ok(Detokenize::Single(Seq::empty()))
            } else if items[0] is Array {
                match collected(items, |item: JsonView| token_item_of(item)) {
                    Ok(lists) => Ok(Detokenize::Batch(lists)),
                    Err(message) => Err(message),
                }
            } else {
                match token_list_of(items) {
                    Ok(list) => Ok(Detokenize::Single(list)),
                    Err(message) => Err(message),
                }
            },
        },
    }
}

/// The tokens of a list.
pub fn parse_token_id_list(items: &Vec<Json>) -> (tokens: Result<Vec<u32>, String>)
    ensures
        match tokens {
            Ok(list) => token_list_of(views(items@)) == Ok::<Seq<u32>, Seq<char>>(list@),
            Err(message) => token_list_of(views(items@)) == Err::<Seq<u32>, Seq<char>>(message@),
        },
{
    read_u32s(
        items,
        "Invalid input: 'tokens' must be a list of integers.",
        "Invalid input: token id exceeds u32 range.",
    )
}

/// What is to be turned back to text.
pub fn parse_detokenize_tokens(payload: &Json) -> (tokens: Result<DetokenizeTokens, String>)
    ensures
        match tokens {
            Ok(DetokenizeTokens::Single(list)) => detokenize_in(payload@) == Ok::<
                Detokenize,
                Seq<char>,
            >(Detokenize::Single(list@)),
            Ok(DetokenizeTokens::Batch(lists)) => detokenize_in(payload@) == Ok::<
                Detokenize,
                Seq<char>,
            >(Detokenize::Batch(crate::http_requests::token_lists(lists@))),
            Err(message) => detokenize_in(payload@) == Err::<Detokenize, Seq<char>>(message@),
        },
{
    let value = match payload.get("tokens") {
        Some(value) => value,
        None => {
            return Err("missing `tokens` field".to_owned());
        },
    };
    let items = match value.as_array() {
        Some(items) => items,
        None => {
            return Err(
                "Invalid tokens type: expected list of integers or list of lists.".to_owned(),
            );
        },
    };
    if items.len() == 0 {
        let empty: Vec<u32> = Vec::new();
        proof {
            assert(empty@ =~= Seq::empty());
        }
        return Ok(DetokenizeTokens::Single(empty));
    }
    proof {
        assert(views(items@)[0] == items@[0]@);
    }
    if items[0].is_array() {
        let ghost all = views(items@);
        let ghost read = |item: JsonView| token_item_of(item);
        let mut lists: Vec<Vec<u32>> = Vec::new();
        let mut i: usize = 0;
        proof {
            assert(all.take(0) =~= Seq::empty());
            assert(crate::http_requests::token_lists(lists@) =~= Seq::empty());
        }
        while i < items.len()
            invariant
                i <= items@.len(),
                items@.len() > 0,
                all == views(items@),
                all[0] is Array,
                payload@.get("tokens"@) is Some,
                payload@.get("tokens"@)->0.as_items() == Some(all),
                read == (|item: JsonView| token_item_of(item)),
                collected(all.take(i as int), read) == Ok::<Seq<Seq<u32>>, Seq<char>>(
                    crate::http_requests::token_lists(lists@),
                ),
            decreases items@.len() - i,
        {
            proof {
                collected_step(all, read, i as int);
            }
            match items[i].as_array() {
                None => {
                    return Err(
                        "Invalid tokens type: expected list of integers or list of lists.".to_owned(),
                    );
                },
                Some(token_list) => {
                    let tokens = parse_token_id_list(token_list)?;
                    let ghost before = crate::http_requests::token_lists(lists@);
                    lists.push(tokens);
                    proof {
                        assert(crate::http_requests::token_lists(lists@) =~= before.push(tokens@));
                    }
                },
            }
            i = i + 1;
        }
        proof {
            assert(all.take(i as int) =~= all);
        }
        return Ok(DetokenizeTokens::Batch(lists));
    }
    let tokens = parse_token_id_list(items)?;
    Ok(DetokenizeTokens::Single(tokens))
}

/// The directory that a profile is to be written to.
pub open spec fn output_dir_of(document: JsonView) -> Result<Option<Seq<char>>, Seq<char>> {
    if !(document is Object) {
        Err("request body must be a JSON object"@)
    } else {
        match document.get("output_dir"@) {
            None => Ok(None),
            Some(JsonView::Null) => Ok(None),
            Some(JsonView::Text(output_dir)) => Ok(Some(output_dir)),
            Some(_) => Err("output_dir must be a string when provided"@),
        }
    }
}

/// A directory that may not be given.
pub open spec fn optional_text(text: Option<String>) -> Option<Seq<char>> {
    match text {
        Some(s) => Some(s@),
        None => None,
    }
}

/// The directory that a profile is to be written to, as a document tells it.
pub fn profile_output_dir_from_document(document: &Json) -> (output_dir: Result<
    Option<String>,
    &'static str,
>)
    ensures
        match output_dir {
            Ok(dir) => output_dir_of(document@) == Ok::<Option<Seq<char>>, Seq<char>>(
                optional_text(dir),
            ),
            Err(message) => output_dir_of(document@) == Err::<Option<Seq<char>>, Seq<char>>(
                message@,
            ),
        },
{
    if !document.is_object() {
        return Err("request body must be a JSON object");
    }
    match document.get("output_dir") {
        None => Ok(None),
        Some(value) => {
            if value.is_null() {
                return Ok(None);
            }
            match value.as_str() {
                Some(output_dir) => Ok(Some(output_dir.to_owned())),
                None => Err("output_dir must be a string when provided"),
            }
        },
    }
}

/// The directory that a profile is to be written to, as a request body tells it. An empty body
/// tells none.
pub fn profile_output_dir_from_body(body: &[u8]) -> (output_dir: Result<
    Option<String>,
    &'static str,
>)
    ensures
        body@.len() == 0 ==> output_dir == Ok::<Option<String>, &'static str>(None),
        body@.len() > 0 ==> match parsed(body@) {
            Err(_) => output_dir is Err && output_dir->Err_0@
                == "request body must be a JSON object"@,
            Ok(document) => match output_dir {
                Ok(dir) => output_dir_of(document) == Ok::<Option<Seq<char>>, Seq<char>>(
                    optional_text(dir),
                ),
                Err(message) => output_dir_of(document) == Err::<Option<Seq<char>>, Seq<char>>(
                    message@,
                ),
            },
        },
{
    if body.len() == 0 {
        return Ok(None);
    }
    match parse_json(body) {
        Err(_) => Err("request body must be a JSON object"),
        Ok(document) => profile_output_dir_from_document(&document),
    }
}

/// The first meeting that is given.
pub open spec fn first_meeting(list: Seq<Option<Meeting>>) -> Option<Meeting>
    decreases list.len(),
{
    if list.len() == 0 {
        None
    } else if list[0] is Some {
        list[0]
    } else {
        first_meeting(list.skip(1))
    }
}

/// Whether the answers are to be streamed: the first request decides for all.
pub open spec fn text_streams(ask: TextAsk) -> bool {
    match ask {
        TextAsk::Single(request) => request.stream,
        TextAsk::Batch(requests) => requests.len() > 0 && requests[0].stream,
    }
}

/// Where servers meet over one of the requests.
pub open spec fn text_meeting(ask: TextAsk) -> Option<Meeting> {
    match ask {
        TextAsk::Single(request) => request.meeting,
        TextAsk::Batch(requests) => first_meeting(
            requests.map_values(|request: TextRequest| request.meeting),
        ),
    }
}

/// Whether the answers are to be streamed: the first request decides for all.
pub open spec fn ask_streams(ask: GenerateAsk) -> bool {
    match ask {
        GenerateAsk::Text(text) => text_streams(text),
        GenerateAsk::Tokens(TokenAsk::Single(request)) => request.stream,
        GenerateAsk::Tokens(TokenAsk::Batch(requests)) => requests.len() > 0 && requests[0].stream,
    }
}

/// Where servers meet over one of the requests.
pub open spec fn ask_meeting(ask: GenerateAsk) -> Option<Meeting> {
    match ask {
        GenerateAsk::Text(text) => text_meeting(text),
        GenerateAsk::Tokens(TokenAsk::Single(request)) => request.meeting,
        GenerateAsk::Tokens(TokenAsk::Batch(requests)) => first_meeting(
            requests.map_values(|request: TokenRequest| request.meeting),
        ),
    }
}

fn batch_streams(requests: &Vec<RouterTextGenerateRequest>) -> (stream: bool)
    ensures
        stream == text_streams(TextAsk::Batch(text_requests(requests@))),
{
    requests.len() > 0 && requests[0].stream
}

fn batch_meeting(requests: &Vec<RouterTextGenerateRequest>) -> (meeting: Option<
    &RouterDisaggregatedParams,
>)
    ensures
        match meeting {
            Some(params) => text_meeting(TextAsk::Batch(text_requests(requests@))) == Some(params@),
            None => text_meeting(TextAsk::Batch(text_requests(requests@))) is None,
        },
{
    let ghost list = text_requests(requests@).map_values(|request: TextRequest| request.meeting);
    let mut i: usize = 0;
    proof {
        assert(list.skip(0) =~= list);
    }
    while i < requests.len()
        invariant
            i <= requests@.len(),
            list == text_requests(requests@).map_values(|request: TextRequest| request.meeting),
            first_meeting(list) == first_meeting(list.skip(i as int)),
        decreases requests@.len() - i,
    {
        proof {
            assert(list.skip(i as int)[0] == optional_meeting(
                requests@[i as int].disaggregated_params,
            ));
            assert(list.skip(i as int).skip(1) =~= list.skip(i + 1));
        }
        if let Some(params) = &requests[i].disaggregated_params {
            return Some(params);
        }
        i = i + 1;
    }
    None
}

impl HttpChatRequest {
    /// Whether the answers are to be streamed.
    pub fn stream(&self) -> (stream: bool)
        ensures
            stream == text_streams(self@),
    {
        match self {
            HttpChatRequest::Single(request) => request.stream,
            HttpChatRequest::Batch(requests) => batch_streams(requests),
        }
    }

    /// Where servers meet over one of the requests.
    pub fn disaggregated_params(&self) -> (params: Option<&RouterDisaggregatedParams>)
        ensures
            match params {
                Some(meeting) => text_meeting(self@) == Some(meeting@),
                None => text_meeting(self@) is None,
            },
    {
        match self {
            HttpChatRequest::Single(request) => request.disaggregated_params.as_ref(),
            HttpChatRequest::Batch(requests) => batch_meeting(requests),
        }
    }
}

impl HttpCompletionRequest {
    /// Whether the answers are to be streamed.
    pub fn stream(&self) -> (stream: bool)
        ensures
            stream == text_streams(self@),
    {
        match self {
            HttpCompletionRequest::Single(request) => request.stream,
            HttpCompletionRequest::Batch(requests) => batch_streams(requests),
        }
    }

    /// Where servers meet over one of the requests.
    pub fn disaggregated_params(&self) -> (params: Option<&RouterDisaggregatedParams>)
        ensures
            match params {
                Some(meeting) => text_meeting(self@) == Some(meeting@),
                None => text_meeting(self@) is None,
            },
    {
        match self {
            HttpCompletionRequest::Single(request) => request.disaggregated_params.as_ref(),
            HttpCompletionRequest::Batch(requests) => batch_meeting(requests),
        }
    }
}

impl HttpGenerateRequest {
    /// Whether the answers are to be streamed.
    pub fn stream(&self) -> (stream: bool)
        ensures
            stream == ask_streams(self@),
    {
        match self {
            HttpGenerateRequest::Text(request) => request.stream,
            HttpGenerateRequest::BatchText(requests) => batch_streams(requests),
            HttpGenerateRequest::Tokenized(request) => request.stream,
            HttpGenerateRequest::BatchTokenized(requests) => requests.len() > 0
                && requests[0].stream,
        }
    }

    /// Where servers meet over one of the requests.
    pub fn disaggregated_params(&self) -> (params: Option<&RouterDisaggregatedParams>)
        ensures
            match params {
                Some(meeting) => ask_meeting(self@) == Some(meeting@),
                None => ask_meeting(self@) is None,
            },
    {
        match self {
            HttpGenerateRequest::Text(request) => request.disaggregated_params.as_ref(),
            HttpGenerateRequest::BatchText(requests) => batch_meeting(requests),
            HttpGenerateRequest::Tokenized(request) => request.disaggregated_params.as_ref(),
            HttpGenerateRequest::BatchTokenized(requests) => {
                let ghost list = token_requests(requests@).map_values(
                    |request: TokenRequest| request.meeting,
                );
                let mut i: usize = 0;
                proof {
                    assert(list.skip(0) =~= list);
                }
                while i < requests.len()
                    invariant
                        i <= requests@.len(),
                        *self == HttpGenerateRequest::BatchTokenized(*requests),
                        list == token_requests(requests@).map_values(
                            |request: TokenRequest| request.meeting,
                        ),
                        first_meeting(list) == first_meeting(list.skip(i as int)),
                    decreases requests@.len() - i,
                {
                    proof {
                        assert(list.skip(i as int)[0] == optional_meeting(
                            requests@[i as int].disaggregated_params,
                        ));
                        assert(list.skip(i as int).skip(1) =~= list.skip(i + 1));
                    }
                    if let Some(params) = &requests[i].disaggregated_params {
                        return Some(params);
                    }
                    i = i + 1;
                }
                None
            },
        }
    }
}

} // verus!
