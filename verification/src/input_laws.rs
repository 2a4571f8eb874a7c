//! What the inputs of the HTTP endpoints are read as, and what is done with a request.
use vstd::prelude::*;

use crate::answer_laws::{holds_text, is_failure};
use crate::http_inputs::{
    chat_parts_text, chat_template_input_from_payload, first_meeting, normalize_chat_message,
    parse_detokenize_tokens, parse_tokenize_prompt, profile_output_dir_from_document,
    responses_content_to_text, responses_input_item_to_text, responses_input_to_text, token_list_of,
    ChatTemplateInput, DetokenizeTokens, TokenizePrompt,
};
use crate::http_plans::{
    plan_chat, plan_completion, plan_generate, plan_responses, transfer_polls, ChatPlan,
    CompletionPlan, GeneratePlan, ResponsesPlan,
};
use crate::http_requests::{
    http_chat_payload_to_router_request_with_headers,
    http_completion_payload_to_router_request_with_headers,
    http_generate_payload_to_router_request_with_headers, HttpChatRequest, HttpCompletionRequest,
    HttpGenerateRequest, HttpResponsesRequest, TextAsk,
};
use crate::http_inputs::http_responses_payload_to_router_request_with_headers;
use crate::json::{Json, JsonView};
use crate::payload::collected;
use crate::payload_laws::items_are_read_in_order;
use crate::router::{Meeting, TextRequest, TokenRequest};
use crate::scoring_laws::{are_tokens, lists_tokens};

verus! {

/// The members have different names.
pub proof fn lemma_input_names()
    ensures
        "role"@.len() == 4,
        "error"@.len() == 5,
        "content"@.len() == 7 && "content"@[0] == 'c',
        "message"@.len() == 7 && "message"@[0] == 'm',
{
    reveal_strlit("role");
    reveal_strlit("error");
    reveal_strlit("content");
    reveal_strlit("message");
}

/// Whether a member has this text.
pub open spec fn is_kind(part: JsonView, kind: Seq<char>) -> bool {
    holds_text(part, "type"@, kind)
}

/// Whether a part of a message holds text.
pub open spec fn is_part(part: JsonView) -> bool {
    is_kind(part, "text"@) && part.get("text"@) is Some && part.get("text"@)->0 is Text
}

/// The parts of a message are its texts, one behind the other.
pub proof fn lemma_chat_parts(parts: Seq<JsonView>)
    ensures
        chat_parts_text(parts) is Ok <==> forall|i: int|
            0 <= i < parts.len() ==> is_part(#[trigger] parts[i]),
        parts.len() == 0 ==> chat_parts_text(parts) == Ok::<Seq<char>, Seq<char>>(Seq::empty()),
        parts.len() > 0 && chat_parts_text(parts) is Ok ==> chat_parts_text(parts.drop_last()) is Ok
            && chat_parts_text(parts)->Ok_0 == chat_parts_text(parts.drop_last())->Ok_0
            + parts.last().get("text"@)->0->Text_0,
    decreases parts.len(),
{
    if parts.len() > 0 {
        let front = parts.drop_last();
        lemma_chat_parts(front);
        assert(parts.last() == parts[parts.len() - 1]);
        if forall|i: int| 0 <= i < parts.len() ==> is_part(#[trigger] parts[i]) {
            assert forall|i: int| 0 <= i < front.len() implies is_part(#[trigger] front[i]) by {
                assert(front[i] == parts[i]);
            }
            assert(is_part(parts[parts.len() - 1]));
        }
        if chat_parts_text(parts) is Ok {
            assert forall|i: int| 0 <= i < parts.len() implies is_part(#[trigger] parts[i]) by {
                if i < front.len() {
                    assert(front[i] == parts[i]);
                }
            }
        }
    }
}

/// The role of a message is one of five.
pub open spec fn has_role(message: JsonView) -> bool {
    ||| holds_text(message, "role"@, "system"@)
    ||| holds_text(message, "role"@, "developer"@)
    ||| holds_text(message, "role"@, "user"@)
    ||| holds_text(message, "role"@, "assistant"@)
    ||| holds_text(message, "role"@, "tool"@)
}

/// A message of the assistant.
pub open spec fn is_assistant(message: JsonView) -> bool {
    holds_text(message, "role"@, "assistant"@)
}

/// A message can be given to a model.
pub open spec fn is_chat_message(message: JsonView) -> bool {
    &&& message is Object
    &&& has_role(message)
    &&& match message.get("content"@) {
        None => is_assistant(message) && message.get("tool_calls"@) is Some,
        Some(JsonView::Text(_)) => true,
        Some(JsonView::Array(parts)) => forall|i: int|
            0 <= i < parts.len() ==> is_part(#[trigger] parts[i]),
        Some(JsonView::Null) => is_assistant(message),
        Some(_) => false,
    }
}

/// A message keeps its members. Its content is a text; only the assistant may leave it open.
pub open spec fn is_same_message(message: JsonView, json: JsonView) -> bool {
    &&& json is Object
    &&& forall|key: Seq<char>| key != "content"@ ==> #[trigger] json.get(key) == message.get(key)
    &&& message.get("content"@) matches Some(JsonView::Text(text)) ==> holds_text(
        json,
        "content"@,
        text,
    )
    &&& message.get("content"@) matches Some(JsonView::Array(_)) ==> json.get("content"@) is Some
        && json.get("content"@)->0 is Text
    &&& message.get("content"@) is None || message.get("content"@) == Some(JsonView::Null)
        ==> json.get("content"@) == Some(JsonView::Null)
}

/// Every message with a known role and a content of text is accepted, and keeps its members; a
/// content in parts becomes one text.
pub proof fn messages_keep_their_members(message: Json, normalized: Result<Json, String>)
    requires
        call_ensures(normalize_chat_message, (&message,), normalized),
    ensures
        normalized is Ok <==> is_chat_message(message@),
        normalized matches Ok(json) ==> is_same_message(message@, json@),
{
    lemma_message(message@);
}

/// What becomes of a message.
pub proof fn lemma_message(message: JsonView)
    ensures
        crate::http_inputs::normalized_message(message) is Ok <==> is_chat_message(message),
        crate::http_inputs::normalized_message(message) matches Ok(json) ==> is_same_message(
            message,
            json,
        ),
{
    lemma_input_names();
    if let Some(JsonView::Array(parts)) = message.get("content"@) {
        lemma_chat_parts(parts);
    }
}

/// The texts of the parts of a message stand one behind the other: a content of no parts is empty,
/// and one more part adds its text at the end.
pub proof fn parts_follow_each_other(
    message: Json,
    shorter: Json,
    normalized: Result<Json, String>,
    before: Result<Json, String>,
    parts: Seq<JsonView>,
)
    requires
        call_ensures(normalize_chat_message, (&message,), normalized),
        call_ensures(normalize_chat_message, (&shorter,), before),
        message@ is Object && has_role(message@),
        message@.get("content"@) == Some(JsonView::Array(parts)),
        shorter@ == message@.with("content"@, JsonView::Array(parts.drop_last())),
        normalized is Ok,
    ensures
        parts.len() == 0 ==> holds_text(normalized->Ok_0@, "content"@, Seq::empty()),
        parts.len() > 0 ==> before is Ok && normalized->Ok_0@.get("content"@)->0->Text_0
            == before->Ok_0@.get("content"@)->0->Text_0 + parts.last().get("text"@)->0->Text_0,
{
    lemma_input_names();
    lemma_chat_parts(parts);
    lemma_message(message@);
    lemma_message(shorter@);
    assert(shorter@.get("role"@) == message@.get("role"@));
}

/// A chat is the messages of the payload in their order, each as it is normalized, the tools of the
/// payload and the settings of the template, of which three belong to the service.
pub proof fn chats_hold_their_messages(payload: Json, input: Result<ChatTemplateInput, String>)
    requires
        call_ensures(chat_template_input_from_payload, (&payload,), input),
    ensures
        input matches Ok(made) ==> {
            &&& payload@.get("messages"@) is Some && payload@.get("messages"@)->0 is Array
            &&& made.messages@.len() > 0
            &&& made.messages@.len() == payload@.get("messages"@)->0->Array_0.len()
            &&& forall|i: int|
                0 <= i < made.messages@.len() ==> is_same_message(
                    payload@.get("messages"@)->0->Array_0[i],
                    (#[trigger] made.messages@[i])@,
                )
            &&& payload@.get("tools"@) is None || payload@.get("tools"@) == Some(JsonView::Null)
                ==> made.tools is None
            &&& payload@.get("tools"@) matches Some(JsonView::Array(tools)) ==> made.tools is Some
                && made.tools->0@.len() == tools.len() && forall|i: int|
                0 <= i < tools.len() ==> (#[trigger] made.tools->0@[i])@ == tools[i]
            &&& payload@.get("chat_template_kwargs"@) matches Some(JsonView::Object(members))
                ==> made.template_kwargs@ == JsonView::Object(members)
            &&& payload@.get("chat_template_kwargs"@) is None ==> made.template_kwargs@
                == JsonView::Object(Map::empty())
            &&& made.template_kwargs@.get("messages"@) is None
            &&& made.template_kwargs@.get("tools"@) is None
            &&& made.template_kwargs@.get("add_generation_prompt"@) is None
        },
{
    if let Ok(made) = input {
        let items = payload@.get("messages"@)->0->Array_0;
        let read = |message: JsonView| crate::http_inputs::normalized_message(message);
        items_are_read_in_order(items, read);
        let list = collected(items, read)->Ok_0;
        assert(made@.messages == list);
        assert(made@.messages.len() == made.messages@.len());
        assert forall|i: int| 0 <= i < made.messages@.len() implies is_same_message(
            items[i],
            (#[trigger] made.messages@[i])@,
        ) by {
            assert(made@.messages[i] == made.messages@[i]@);
            assert(read(items[i]) == Ok::<JsonView, Seq<char>>(list[i]));
            lemma_message(items[i]);
        }
        if let Some(JsonView::Array(tools)) = payload@.get("tools"@) {
            assert(made@.tools == Some(tools));
            assert(made@.tools->0.len() == made.tools->0@.len());
            assert forall|i: int| 0 <= i < tools.len() implies (
            #[trigger] made.tools->0@[i])@ == tools[i] by {
                assert(made@.tools->0[i] == made.tools->0@[i]@);
            }
        }
    }
}

/// A chat whose messages can all be given to a model is accepted.
pub proof fn plain_chats_are_accepted(payload: Json, input: Result<ChatTemplateInput, String>)
    requires
        call_ensures(chat_template_input_from_payload, (&payload,), input),
        payload@.get("messages"@) is Some && payload@.get("messages"@)->0 is Array,
        payload@.get("messages"@)->0->Array_0.len() > 0,
        forall|i: int|
            0 <= i < payload@.get("messages"@)->0->Array_0.len() ==> is_chat_message(
                #[trigger] payload@.get("messages"@)->0->Array_0[i],
            ),
        payload@.get("tools"@) is None,
        payload@.get("chat_template_kwargs"@) is None,
    ensures
        input is Ok,
{
    let items = payload@.get("messages"@)->0->Array_0;
    let read = |message: JsonView| crate::http_inputs::normalized_message(message);
    items_are_read_in_order(items, read);
    assert forall|i: int| 0 <= i < items.len() implies read(#[trigger] items[i]) is Ok by {
        lemma_message(items[i]);
    }
}

/// The content of an item of a response is its text, or the texts of its parts; parts of other kinds
/// add nothing.
pub proof fn contents_add_the_texts_of_their_parts(
    value: Json,
    shorter: Json,
    text: Result<String, String>,
    before: Result<String, String>,
)
    requires
        call_ensures(responses_content_to_text, (&value,), text),
        call_ensures(responses_content_to_text, (&shorter,), before),
    ensures
        value@ matches JsonView::Text(content) ==> text is Ok && text->Ok_0@ == content,
        !(value@ is Text) && !(value@ is Array) ==> text is Err,
        value@ matches JsonView::Array(parts) ==> parts.len() == 0 ==> text is Ok
            && text->Ok_0@.len() == 0,
        value@ is Array && value@->Array_0.len() > 0 && shorter@ == JsonView::Array(
            value@->Array_0.drop_last(),
        ) && before is Ok ==> {
            let last = value@->Array_0.last();
            if is_kind(last, "input_text"@) || is_kind(last, "text"@) {
                match last.get("text"@) {
                    Some(JsonView::Text(added)) => text is Ok && text->Ok_0@ == before->Ok_0@
                        + added,
                    _ => text is Err,
                }
            } else {
                text is Ok && text->Ok_0@ == before->Ok_0@
            }
        },
{
}

/// An item of a response is a text, or has a content.
pub proof fn items_are_texts_or_have_a_content(
    item: Json,
    content: Json,
    text: Result<String, String>,
    inner: Result<String, String>,
)
    requires
        call_ensures(responses_input_item_to_text, (&item,), text),
        call_ensures(responses_content_to_text, (&content,), inner),
    ensures
        item@ matches JsonView::Text(own) ==> text is Ok && text->Ok_0@ == own,
        !(item@ is Text) && item@.get("content"@) is None ==> text is Err,
        !(item@ is Text) && item@.get("content"@) == Some(content@) ==> (text is Ok <==> inner is Ok)
            && (text is Ok ==> text->Ok_0@ == inner->Ok_0@),
{
}

/// The input of a response is a text, or the texts of its items on lines of their own.
pub proof fn inputs_stand_on_lines(
    payload: Json,
    shorter: Json,
    last: Json,
    text: Result<String, String>,
    before: Result<String, String>,
    added: Result<String, String>,
)
    requires
        call_ensures(responses_input_to_text, (&payload,), text),
        call_ensures(responses_input_to_text, (&shorter,), before),
        call_ensures(responses_input_item_to_text, (&last,), added),
    ensures
        payload@.get("input"@) is None ==> text is Err,
        payload@.get("input"@) matches Some(JsonView::Text(input)) ==> text is Ok && text->Ok_0@
            == input,
        payload@.get("input"@) matches Some(JsonView::Array(items)) ==> {
            &&& items.len() == 0 ==> text is Err
            &&& items.len() == 1 && items[0] == last@ ==> (text is Ok <==> added is Ok) && (
            text is Ok ==> text->Ok_0@ == added->Ok_0@)
            &&& items.len() > 1 && items.last() == last@ && shorter@.get("input"@) == Some(
                JsonView::Array(items.drop_last()),
            ) && before is Ok && added is Ok ==> text is Ok && text->Ok_0@ == before->Ok_0@ + "\n"@
                + added->Ok_0@
        },
{
    if let Some(JsonView::Array(items)) = payload@.get("input"@) {
        let read = |item: JsonView| crate::http_inputs::responses_item_text(item);
        if items.len() == 1 {
            reveal_with_fuel(collected, 2);
            assert(items.drop_last().len() == 0);
            assert(items.last() == items[0]);
        }
        if items.len() > 1 && items.last() == last@ && shorter@.get("input"@) == Some(
            JsonView::Array(items.drop_last()),
        ) && before is Ok && added is Ok {
            let first = collected(items.drop_last(), read)->Ok_0;
            items_are_read_in_order(items.drop_last(), read);
            assert(collected(items, read) == Ok::<Seq<Seq<char>>, Seq<char>>(
                first.push(added->Ok_0@),
            ));
            assert(first.push(added->Ok_0@).drop_last() =~= first);
        }
    }
}

/// Text to be cut into tokens is the one `prompt` of the payload, or the list of them.
pub proof fn prompts_are_read_in_order(payload: Json, prompt: Result<TokenizePrompt, String>)
    requires
        call_ensures(parse_tokenize_prompt, (&payload,), prompt),
    ensures
        prompt is Ok <==> payload@.get("messages"@) is None && match payload@.get("prompt"@) {
            Some(JsonView::Text(_)) => true,
            Some(JsonView::Array(items)) => forall|i: int|
                0 <= i < items.len() ==> #[trigger] items[i] is Text,
            _ => false,
        },
        prompt matches Ok(TokenizePrompt::Single(text)) ==> holds_text(
            payload@,
            "prompt"@,
            text@,
        ),
        prompt matches Ok(TokenizePrompt::Batch(list)) ==> payload@.get("prompt"@) is Some
            && payload@.get("prompt"@)->0 is Array && payload@.get("prompt"@)->0->Array_0.len()
            == list@.len() && forall|i: int|
            0 <= i < list@.len() ==> payload@.get("prompt"@)->0->Array_0[i] == JsonView::Text(
                (#[trigger] list@[i])@,
            ),
{
    if let Some(JsonView::Array(items)) = payload@.get("prompt"@) {
        let read = |item: JsonView|
            crate::payload::text_or(
                item,
                "Invalid prompt type: expected string or list of strings."@,
            );
        items_are_read_in_order(items, read);
        assert(forall|i: int| 0 <= i < items.len() ==> (read(#[trigger] items[i]) is Ok <==> items[i] is Text));
        if let Ok(TokenizePrompt::Batch(list)) = prompt {
            let told = crate::text::texts(list@);
            assert(told.len() == list@.len());
            assert forall|i: int| 0 <= i < list@.len() implies items[i] == JsonView::Text(
                (#[trigger] list@[i])@,
            ) by {
                assert(told[i] == list@[i]@);
                assert(read(items[i]) == Ok::<Seq<char>, Seq<char>>(told[i]));
            }
        }
    }
    if let Ok(TokenizePrompt::Single(text)) = prompt {
        if let Some(JsonView::Text(own)) = payload@.get("prompt"@) {
            assert(seq![own][0] == seq![text@][0]);
        }
    }
}

/// The tokens of a list.
pub proof fn lemma_token_list(items: Seq<JsonView>)
    ensures
        token_list_of(items) is Ok <==> are_tokens(items),
        token_list_of(items) matches Ok(tokens) ==> lists_tokens(items, tokens),
{
    let read = |item: JsonView|
        crate::payload::u32_or(
            item,
            "Invalid input: 'tokens' must be a list of integers."@,
            "Invalid input: token id exceeds u32 range."@,
        );
    items_are_read_in_order(items, read);
    if token_list_of(items) is Ok {
        let tokens = token_list_of(items)->Ok_0;
        assert forall|i: int| 0 <= i < items.len() implies #[trigger] items[i] == JsonView::Number(
            crate::json::JsonNumber::Unsigned(tokens[i] as u64),
        ) by {
            assert(read(items[i]) == Ok::<u32, Seq<char>>(tokens[i]));
        }
    }
}

/// Tokens to be turned into text are the `tokens` of the payload, or a list of such lists.
pub proof fn tokens_are_read_in_order(payload: Json, tokens: Result<DetokenizeTokens, String>)
    requires
        call_ensures(parse_detokenize_tokens, (&payload,), tokens),
    ensures
        payload@.get("tokens"@) is None ==> tokens is Err,
        payload@.get("tokens"@) matches Some(value) ==> !(value is Array) ==> tokens is Err,
        payload@.get("tokens"@) matches Some(JsonView::Array(items)) ==> are_tokens(items)
            ==> tokens is Ok && tokens->Ok_0 is Single,
        tokens matches Ok(DetokenizeTokens::Single(list)) ==> payload@.get("tokens"@) is Some
            && payload@.get("tokens"@)->0 is Array && lists_tokens(
            payload@.get("tokens"@)->0->Array_0,
            list@,
        ),
        tokens matches Ok(DetokenizeTokens::Batch(lists)) ==> payload@.get("tokens"@) is Some
            && payload@.get("tokens"@)->0 is Array && payload@.get("tokens"@)->0->Array_0.len()
            == lists@.len() && forall|i: int|
            0 <= i < lists@.len() ==> payload@.get("tokens"@)->0->Array_0[i] is Array
                && lists_tokens(
                payload@.get("tokens"@)->0->Array_0[i]->Array_0,
                (#[trigger] lists@[i])@,
            ),
{
    if let Some(JsonView::Array(items)) = payload@.get("tokens"@) {
        lemma_token_list(items);
        if items.len() > 0 {
            let first = items[0];
            assert(are_tokens(items) ==> crate::scoring_laws::is_token(items[0]));
        }
        if let Ok(DetokenizeTokens::Batch(lists)) = tokens {
            let read = |item: JsonView| crate::http_inputs::token_item_of(item);
            items_are_read_in_order(items, read);
            let told = crate::http_requests::token_lists(lists@);
            assert(told.len() == lists@.len());
            assert forall|i: int| 0 <= i < lists@.len() implies items[i] is Array && lists_tokens(
                items[i]->Array_0,
                (#[trigger] lists@[i])@,
            ) by {
                assert(told[i] == lists@[i]@);
                assert(read(items[i]) == Ok::<Seq<u32>, Seq<char>>(told[i]));
                lemma_token_list(items[i]->Array_0);
            }
        }
    }
}

/// A profile goes to the `output_dir` of the document, if it names one.
pub proof fn profiles_go_where_the_document_says(
    document: Json,
    output_dir: Result<Option<String>, &'static str>,
)
    requires
        call_ensures(profile_output_dir_from_document, (&document,), output_dir),
    ensures
        output_dir is Ok <==> document@ is Object && (document@.get("output_dir"@) matches Some(value)
            ==> value is Null || value is Text),
        output_dir matches Ok(Some(dir)) ==> holds_text(document@, "output_dir"@, dir@),
        output_dir matches Ok(None) ==> !(document@.get("output_dir"@) matches Some(
            JsonView::Text(_),
        )),
{
}

/// The first meeting of a list is one exactly where the list holds one, and is that of the first
/// request that has one.
pub proof fn lemma_first_meeting(list: Seq<Option<Meeting>>)
    ensures
        first_meeting(list) is Some <==> exists|i: int|
            0 <= i < list.len() && #[trigger] list[i] is Some,
    decreases list.len(),
{
    if list.len() > 0 {
        let rest = list.skip(1);
        lemma_first_meeting(rest);
        if list[0] is None {
            if exists|i: int| 0 <= i < list.len() && #[trigger] list[i] is Some {
                let i = choose|i: int| 0 <= i < list.len() && #[trigger] list[i] is Some;
                assert(rest[i - 1] is Some);
            }
            if exists|i: int| 0 <= i < rest.len() && #[trigger] rest[i] is Some {
                let i = choose|i: int| 0 <= i < rest.len() && #[trigger] rest[i] is Some;
                assert(list[i + 1] is Some);
            }
        }
    }
}

/// A request of a batch meets another server.
pub open spec fn some_text_meets(requests: Seq<TextRequest>) -> bool {
    exists|i: int| 0 <= i < requests.len() && (#[trigger] requests[i]).meeting is Some
}

/// A request of a batch meets another server.
pub open spec fn some_tokens_meet(requests: Seq<TokenRequest>) -> bool {
    exists|i: int| 0 <= i < requests.len() && (#[trigger] requests[i]).meeting is Some
}

/// The meeting of a batch of texts.
pub proof fn lemma_text_meeting(requests: Seq<TextRequest>)
    ensures
        crate::http_inputs::text_meeting(TextAsk::Batch(requests)) is Some <==> some_text_meets(
            requests,
        ),
{
    let list = requests.map_values(|request: TextRequest| request.meeting);
    lemma_first_meeting(list);
    if some_text_meets(requests) {
        let i = choose|i: int|
            0 <= i < requests.len() && (#[trigger] requests[i]).meeting is Some;
        assert(list[i] is Some);
    }
    if exists|i: int| 0 <= i < list.len() && #[trigger] list[i] is Some {
        let i = choose|i: int| 0 <= i < list.len() && #[trigger] list[i] is Some;
        assert(requests[i].meeting is Some);
    }
}

/// The meeting of a batch of tokens.
pub proof fn lemma_token_meeting(requests: Seq<TokenRequest>)
    ensures
        first_meeting(requests.map_values(|request: TokenRequest| request.meeting)) is Some
            <==> some_tokens_meet(requests),
{
    let list = requests.map_values(|request: TokenRequest| request.meeting);
    lemma_first_meeting(list);
    if some_tokens_meet(requests) {
        let i = choose|i: int|
            0 <= i < requests.len() && (#[trigger] requests[i]).meeting is Some;
        assert(list[i] is Some);
    }
    if exists|i: int| 0 <= i < list.len() && #[trigger] list[i] is Some {
        let i = choose|i: int| 0 <= i < list.len() && #[trigger] list[i] is Some;
        assert(requests[i].meeting is Some);
    }
}

/// A request for text meets another server.
pub open spec fn text_meets(ask: TextAsk) -> bool {
    match ask {
        TextAsk::Single(request) => request.meeting is Some,
        TextAsk::Batch(requests) => some_text_meets(requests),
    }
}

/// A chat that cannot be read is refused. One that meets another server needs a service that can;
/// one that streams must be alone; every other is run as it was read.
pub proof fn chats_are_planned(
    payload: Json,
    served: &str,
    header: Option<&Vec<u8>>,
    prompt: String,
    allowed: bool,
    asked: Result<HttpChatRequest, String>,
    plan: ChatPlan,
)
    requires
        call_ensures(
            http_chat_payload_to_router_request_with_headers,
            (payload, served, header, prompt),
            asked,
        ),
        call_ensures(plan_chat, (payload, served, header, prompt, allowed), plan),
    ensures
        asked matches Err(message) ==> (plan matches ChatPlan::Reply(reply) && is_failure(
            reply,
            400,
            message@,
        )),
        asked matches Ok(ask) ==> {
            if text_meets(ask@) && !allowed {
                plan matches ChatPlan::Reply(reply) && is_failure(
                    reply,
                    501,
                    "disaggregated HTTP chat completions require a PD transfer-enabled runtime"@,
                )
            } else {
                match ask@ {
                    TextAsk::Single(request) => if request.stream {
                        plan matches ChatPlan::Stream(made) && made@ == request
                    } else {
                        plan matches ChatPlan::Run(made) && made@ == ask@
                    },
                    TextAsk::Batch(requests) => if requests.len() > 0 && requests[0].stream {
                        plan matches ChatPlan::Reply(reply) && is_failure(
                            reply,
                            400,
                            "streaming batched /v1/chat/completions is not supported yet"@,
                        )
                    } else {
                        plan matches ChatPlan::Run(made) && made@ == ask@
                    },
                }
            }
        },
{
    lemma_input_names();
    if let Ok(ask) = asked {
        if let TextAsk::Batch(requests) = ask@ {
            lemma_text_meeting(requests);
        }
    }
    if let ChatPlan::Reply(reply) = plan {
        assert(reply@.status == reply.status);
    }
}

/// A completion that cannot be read is refused. One that meets another server needs a service that
/// can; one that streams must be alone; every other is run as it was read.
pub proof fn completions_are_planned(
    payload: Json,
    served: &str,
    header: Option<&Vec<u8>>,
    allowed: bool,
    asked: Result<HttpCompletionRequest, String>,
    plan: CompletionPlan,
)
    requires
        call_ensures(
            http_completion_payload_to_router_request_with_headers,
            (payload, served, header),
            asked,
        ),
        call_ensures(plan_completion, (payload, served, header, allowed), plan),
    ensures
        asked matches Err(message) ==> (plan matches CompletionPlan::Reply(reply) && is_failure(
            reply,
            400,
            message@,
        )),
        asked matches Ok(ask) ==> {
            if text_meets(ask@) && !allowed {
                plan matches CompletionPlan::Reply(reply) && is_failure(
                    reply,
                    501,
                    "disaggregated HTTP completions require a PD transfer-enabled runtime"@,
                )
            } else {
                match ask@ {
                    TextAsk::Single(request) => if request.stream {
                        plan matches CompletionPlan::Stream(made) && made@ == request
                    } else {
                        plan matches CompletionPlan::Run(made) && made@ == ask@
                    },
                    TextAsk::Batch(requests) => if requests.len() > 0 && requests[0].stream {
                        plan matches CompletionPlan::Reply(reply) && is_failure(
                            reply,
                            400,
                            "streaming batched /v1/completions is not supported yet"@,
                        )
                    } else {
                        plan matches CompletionPlan::Run(made) && made@ == ask@
                    },
                }
            }
        },
{
    lemma_input_names();
    if let Ok(ask) = asked {
        if let TextAsk::Batch(requests) = ask@ {
            lemma_text_meeting(requests);
        }
    }
    if let CompletionPlan::Reply(reply) = plan {
        assert(reply@.status == reply.status);
    }
}

/// A response that cannot be read is refused. One that meets another server needs a service that
/// can; every other is streamed or run as it was read.
pub proof fn responses_are_planned(
    payload: Json,
    served: &str,
    header: Option<&Vec<u8>>,
    allowed: bool,
    asked: Result<HttpResponsesRequest, String>,
    plan: ResponsesPlan,
)
    requires
        call_ensures(
            http_responses_payload_to_router_request_with_headers,
            (payload, served, header),
            asked,
        ),
        call_ensures(plan_responses, (payload, served, header, allowed), plan),
    ensures
        asked matches Err(message) ==> (plan matches ResponsesPlan::Reply(reply) && is_failure(
            reply,
            400,
            message@,
        )),
        asked matches Ok(ask) ==> {
            if ask.request@.meeting is Some && !allowed {
                plan matches ResponsesPlan::Reply(reply) && is_failure(
                    reply,
                    501,
                    "disaggregated HTTP responses require a PD transfer-enabled runtime"@,
                )
            } else if ask.request@.stream {
                plan matches ResponsesPlan::Stream(made) && made.request@ == ask.request@
                    && made.model@ == served@
            } else {
                plan matches ResponsesPlan::Run(made) && made.request@ == ask.request@
                    && made.model@ == served@
            }
        },
{
    lemma_input_names();
    if let ResponsesPlan::Reply(reply) = plan {
        assert(reply@.status == reply.status);
    }
}

/// A generation that cannot be read is refused. One that meets another server needs a service that
/// can; one that streams must be alone; every other is run as it was read.
pub proof fn generations_are_planned(
    payload: Json,
    header: Option<&Vec<u8>>,
    allowed: bool,
    asked: Result<HttpGenerateRequest, String>,
    plan: GeneratePlan,
)
    requires
        call_ensures(
            http_generate_payload_to_router_request_with_headers,
            (payload, header),
            asked,
        ),
        call_ensures(plan_generate, (payload, header, allowed), plan),
    ensures
        asked matches Err(message) ==> (plan matches GeneratePlan::Reply(reply) && is_failure(
            reply,
            400,
            message@,
        )),
        asked matches Ok(ask) ==> ({
            let meets = match ask {
                HttpGenerateRequest::Text(request) => request@.meeting is Some,
                HttpGenerateRequest::Tokenized(request) => request@.meeting is Some,
                HttpGenerateRequest::BatchText(requests) => exists|i: int|
                    0 <= i < requests@.len() && (#[trigger] requests@[i])@.meeting is Some,
                HttpGenerateRequest::BatchTokenized(requests) => exists|i: int|
                    0 <= i < requests@.len() && (#[trigger] requests@[i])@.meeting is Some,
            };
            if meets && !allowed {
                plan matches GeneratePlan::Reply(reply) && is_failure(
                    reply,
                    501,
                    "disaggregated HTTP generate requires a PD transfer-enabled runtime"@,
                )
            } else {
                match ask {
                    HttpGenerateRequest::Text(request) => if request@.stream {
                        plan matches GeneratePlan::StreamText(made) && made@ == request@
                    } else {
                        plan matches GeneratePlan::Run(made) && made@ == ask@
                    },
                    HttpGenerateRequest::Tokenized(request) => if request@.stream {
                        plan matches GeneratePlan::StreamTokens(made) && made@ == request@
                    } else {
                        plan matches GeneratePlan::Run(made) && made@ == ask@
                    },
                    HttpGenerateRequest::BatchText(requests) => if requests@.len() > 0
                        && requests@[0]@.stream {
                        plan matches GeneratePlan::Reply(reply) && is_failure(
                            reply,
                            400,
                            "streaming batched /generate is not supported yet"@,
                        )
                    } else {
                        plan matches GeneratePlan::Run(made) && made@ == ask@
                    },
                    HttpGenerateRequest::BatchTokenized(requests) => if requests@.len() > 0
                        && requests@[0]@.stream {
                        plan matches GeneratePlan::Reply(reply) && is_failure(
                            reply,
                            400,
                            "streaming batched /generate is not supported yet"@,
                        )
                    } else {
                        plan matches GeneratePlan::Run(made) && made@ == ask@
                    },
                }
            }
        }),
{
    lemma_input_names();
    if let Ok(ask) = asked {
        match ask {
            HttpGenerateRequest::BatchText(requests) => {
                if let crate::http_requests::GenerateAsk::Text(TextAsk::Batch(views)) = ask@ {
                    assert(views.len() == requests@.len());
                    assert(forall|i: int|
                        0 <= i < views.len() ==> #[trigger] views[i] == requests@[i]@);
                    lemma_text_meeting(views);
                    if some_text_meets(views) {
                        let i = choose|i: int|
                            0 <= i < views.len() && (#[trigger] views[i]).meeting is Some;
                        assert(requests@[i]@.meeting is Some);
                    }
                    if exists|i: int|
                        0 <= i < requests@.len() && (#[trigger] requests@[i])@.meeting is Some {
                        let i = choose|i: int|
                            0 <= i < requests@.len() && (#[trigger] requests@[i])@.meeting is Some;
                        assert(views[i].meeting is Some);
                    }
                }
            },
            HttpGenerateRequest::BatchTokenized(requests) => {
                if let crate::http_requests::GenerateAsk::Tokens(
                    crate::http_requests::TokenAsk::Batch(views),
                ) = ask@ {
                    assert(views.len() == requests@.len());
                    assert(forall|i: int|
                        0 <= i < views.len() ==> #[trigger] views[i] == requests@[i]@);
                    lemma_token_meeting(views);
                    if some_tokens_meet(views) {
                        let i = choose|i: int|
                            0 <= i < views.len() && (#[trigger] views[i]).meeting is Some;
                        assert(requests@[i]@.meeting is Some);
                    }
                    if exists|i: int|
                        0 <= i < requests@.len() && (#[trigger] requests@[i])@.meeting is Some {
                        let i = choose|i: int|
                            0 <= i < requests@.len() && (#[trigger] requests@[i])@.meeting is Some;
                        assert(views[i].meeting is Some);
                    }
                }
            },
            _ => {},
        }
    }
    if let GeneratePlan::Reply(reply) = plan {
        assert(reply@.status == reply.status);
    }
}

/// Without a limit, transfers are polled until they are done.
pub proof fn polls_are_limited(limit: usize, polls: Option<usize>)
    requires
        call_ensures(transfer_polls, (limit,), polls),
    ensures
        limit == 0 <==> polls is None,
        polls matches Some(n) ==> n == limit,
{
}

} // verus!
