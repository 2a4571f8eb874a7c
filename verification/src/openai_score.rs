//! Score and classification answers, and score requests.
use vstd::prelude::*;
use vstd::string::*;

use crate::http_maintenance::flag_or;
use crate::http_requests::{check_model, model_failure, or_default};
use crate::http_service::{number, text};
use crate::json::{empty_object, views, Json, JsonView};
use crate::openai_embedding::{
    all_lists, all_texts, are_all_lists, are_all_texts, collected_at, collected_at_step,
    float_array, float_array_json, inputs_of, Input, TokenInput,
};
use crate::payload::{either, failed, flag_in, optional_bool};
use crate::text::{cat2, cat3, cat4, decimal, decimal_u64, decimal_usize};

verus! {

/// A token at a place of a field.
pub open spec fn field_token(field: Seq<char>, index: int, item: JsonView) -> Result<
    u32,
    Seq<char>,
> {
    match item.as_natural() {
        None => Err(field + " must contain only token ID integers"@),
        Some(n) => if n <= u32::MAX {
            Ok(n as u32)
        } else {
            Err(field + "["@ + decimal(index as nat) + "] exceeds u32 range"@)
        },
    }
}

/// The tokens of a field.
pub open spec fn field_tokens(field: Seq<char>, items: Seq<JsonView>) -> Result<
    Seq<u32>,
    Seq<char>,
> {
    collected_at(items, |index: int, item: JsonView| field_token(field, index, item))
}

/// The tokens of a field.
pub fn parse_score_token_ids(items: &Vec<Json>, field: &str) -> (tokens: Result<Vec<u32>, String>)
    ensures
        match tokens {
            Ok(list) => field_tokens(field@, views(items@)) == Ok::<Seq<u32>, Seq<char>>(list@),
            Err(message) => field_tokens(field@, views(items@)) == Err::<Seq<u32>, Seq<char>>(
                message@,
            ),
        },
{
    let ghost all = views(items@);
    let ghost read = |index: int, item: JsonView| field_token(field@, index, item);
    let mut list: Vec<u32> = Vec::new();
    let mut i: usize = 0;
    proof {
        assert(all.take(0) =~= Seq::empty());
        assert(list@ =~= Seq::empty());
    }
    while i < items.len()
        invariant
            i <= items@.len(),
            all == views(items@),
            read == (|index: int, item: JsonView| field_token(field@, index, item)),
            collected_at(all.take(i as int), read) == Ok::<Seq<u32>, Seq<char>>(list@),
        decreases items@.len() - i,
    {
        proof {
            collected_at_step(all, read, i as int);
        }
        match items[i].as_u64() {
            None => {
                return Err(cat2(field, " must contain only token ID integers"));
            },
            Some(raw) => {
                if raw > 0xffff_ffff {
                    return Err(
                        cat4(field, "[", decimal_usize(i).as_str(), "] exceeds u32 range"),
                    );
                }
                list.push(raw as u32);
            },
        }
        i = i + 1;
    }
    proof {
        assert(all.take(i as int) =~= all);
    }
    Ok(list)
}

/// The query of a score request.
pub open spec fn score_query(value: JsonView) -> Result<Input, Seq<char>> {
    match value {
        JsonView::Text(s) => Ok(Input::Text(s)),
        JsonView::Array(items) => match field_tokens("query"@, items) {
            Ok(tokens) => Ok(Input::TokenIds(tokens)),
            Err(message) => Err(message),
        },
        _ => Err("query must be a string or token ID array"@),
    }
}

/// The query of a score request.
pub fn parse_score_query(value: &Json) -> (query: Result<TokenInput, String>)
    ensures
        match query {
            Ok(made) => score_query(value@) == Ok::<Input, Seq<char>>(made@),
            Err(message) => score_query(value@) == Err::<Input, Seq<char>>(message@),
        },
{
    if let Some(s) = value.as_str() {
        return Ok(TokenInput::Text(s.to_owned()));
    }
    match value.as_array() {
        Some(items) => {
            let tokens = parse_score_token_ids(items, "query")?;
            Ok(TokenInput::TokenIds(tokens))
        },
        None => Err("query must be a string or token ID array".to_owned()),
    }
}

/// The name of an item.
pub open spec fn item_name(index: int) -> Seq<char> {
    "items["@ + decimal(index as nat) + "]"@
}

/// The tokens of an item.
pub open spec fn item_tokens(index: int, item: JsonView) -> Result<Input, Seq<char>> {
    match field_tokens(item_name(index), item->Array_0) {
        Ok(tokens) => Ok(Input::TokenIds(tokens)),
        Err(message) => Err(message),
    }
}

/// The items of a score request.
pub open spec fn score_items(value: JsonView) -> Result<Seq<Input>, Seq<char>> {
    match value {
        JsonView::Text(s) => Ok(seq![Input::Text(s)]),
        JsonView::Array(items) => if items.len() == 0 {
            Ok(Seq::empty())
        } else if all_texts(items) {
            Ok(items.map_values(|item: JsonView| Input::Text(item->Text_0)))
        } else if all_lists(items) {
            collected_at(items, |index: int, item: JsonView| item_tokens(index, item))
        } else {
            Err("items must be a string, list of strings, or token ID batches"@)
        },
        _ => Err("items must be provided"@),
    }
}

/// The items of a score request.
pub fn parse_score_items(value: &Json) -> (inputs: Result<Vec<TokenInput>, String>)
    ensures
        match inputs {
            Ok(list) => score_items(value@) == Ok::<Seq<Input>, Seq<char>>(inputs_of(list@)),
            Err(message) => score_items(value@) == Err::<Seq<Input>, Seq<char>>(message@),
        },
{
    let mut list: Vec<TokenInput> = Vec::new();
    if let Some(s) = value.as_str() {
        list.push(TokenInput::Text(s.to_owned()));
        proof {
            assert(inputs_of(list@) =~= seq![Input::Text(s@)]);
        }
        return Ok(list);
    }
    let items = match value.as_array() {
        Some(items) => items,
        None => {
            return Err("items must be provided".to_owned());
        },
    };
    let ghost all = views(items@);
    let mut i: usize = 0;
    proof {
        assert(all.take(0) =~= Seq::empty());
        assert(inputs_of(list@) =~= Seq::empty());
    }
    if items.len() == 0 {
        return Ok(list);
    }
    if are_all_texts(items) {
        let ghost wanted = all.map_values(|item: JsonView| Input::Text(item->Text_0));
        while i < items.len()
            invariant
                i <= items@.len(),
                all == views(items@),
                all_texts(all),
                wanted == all.map_values(|item: JsonView| Input::Text(item->Text_0)),
                list@.len() == i,
                forall|j: int| 0 <= j < i ==> (#[trigger] list@[j])@ == wanted[j],
            decreases items@.len() - i,
        {
            proof {
                assert(all[i as int] == items@[i as int]@);
                assert(all[i as int] is Text);
            }
            if let Some(s) = items[i].as_str() {
                list.push(TokenInput::Text(s.to_owned()));
            }
            i = i + 1;
        }
        proof {
            assert(inputs_of(list@) =~= wanted);
        }
        return Ok(list);
    }
    if are_all_lists(items) {
        let ghost read = |index: int, item: JsonView| item_tokens(index, item);
        while i < items.len()
            invariant
                i <= items@.len(),
                items@.len() > 0,
                all == views(items@),
                value@ == JsonView::Array(all),
                !all_texts(all),
                all_lists(all),
                read == (|index: int, item: JsonView| item_tokens(index, item)),
                collected_at(all.take(i as int), read) == Ok::<Seq<Input>, Seq<char>>(
                    inputs_of(list@),
                ),
            decreases items@.len() - i,
        {
            proof {
                collected_at_step(all, read, i as int);
                assert(all[i as int] == items@[i as int]@);
                assert(all[i as int] is Array);
            }
            if let Some(token_items) = items[i].as_array() {
                let name = cat3("items[", decimal_usize(i).as_str(), "]");
                let tokens = parse_score_token_ids(token_items, name.as_str())?;
                let ghost before = inputs_of(list@);
                list.push(TokenInput::TokenIds(tokens));
                proof {
                    assert(inputs_of(list@) =~= before.push(Input::TokenIds(tokens@)));
                }
            }
            i = i + 1;
        }
        proof {
            assert(all.take(i as int) =~= all);
        }
        return Ok(list);
    }
    Err("items must be a string, list of strings, or token ID batches".to_owned())
}

/// The query where a request gives none: of the kind of the items.
pub open spec fn default_query(items: Seq<Input>) -> Input {
    if items.len() > 0 && items[0] is TokenIds {
        Input::TokenIds(Seq::empty())
    } else {
        Input::Text(Seq::empty())
    }
}

/// The query where a request gives none.
pub fn default_query_for_items(items: &Vec<TokenInput>) -> (query: TokenInput)
    ensures
        query@ == default_query(inputs_of(items@)),
{
    if items.len() > 0 {
        if let TokenInput::TokenIds(_) = &items[0] {
            let empty: Vec<u32> = Vec::new();
            proof {
                assert(empty@ =~= Seq::empty());
            }
            return TokenInput::TokenIds(empty);
        }
    }
    let empty = String::new();
    proof {
        assert(empty@ =~= Seq::empty());
    }
    TokenInput::Text(empty)
}

/// The label tokens of a score request.
pub open spec fn labels_in(payload: JsonView) -> Result<Option<Seq<u32>>, Seq<char>> {
    match payload.get("label_token_ids"@) {
        None => Ok(None),
        Some(value) => match value.as_items() {
            None => Err("label_token_ids must be an array of token IDs"@),
            Some(items) => if items.len() == 0 {
                Err("label_token_ids cannot be empty"@)
            } else {
                match field_tokens("label_token_ids"@, items) {
                    Ok(tokens) => Ok(Some(tokens)),
                    Err(message) => Err(message),
                }
            },
        },
    }
}

/// The label tokens of a score request.
pub fn parse_optional_label_token_ids(payload: &Json) -> (labels: Result<
    Option<Vec<u32>>,
    String,
>)
    ensures
        match labels {
            Ok(Some(list)) => labels_in(payload@) == Ok::<Option<Seq<u32>>, Seq<char>>(
                Some(list@),
            ),
            Ok(None) => labels_in(payload@) == Ok::<Option<Seq<u32>>, Seq<char>>(None),
            Err(message) => labels_in(payload@) == Err::<Option<Seq<u32>>, Seq<char>>(message@),
        },
{
    match payload.get("label_token_ids") {
        None => Ok(None),
        Some(value) => match value.as_array() {
            None => Err("label_token_ids must be an array of token IDs".to_owned()),
            Some(items) => {
                if items.len() == 0 {
                    return Err("label_token_ids cannot be empty".to_owned());
                }
                let tokens = parse_score_token_ids(items, "label_token_ids")?;
                Ok(Some(tokens))
            },
        },
    }
}

/// A score request.
#[derive(Debug)]
pub struct OpenAiScoreRequest {
    pub model: String,
    pub query: TokenInput,
    pub items: Vec<TokenInput>,
    pub label_token_ids: Option<Vec<u32>>,
    pub apply_softmax: bool,
    pub item_first: bool,
}

/// What an [`OpenAiScoreRequest`] says.
pub struct Score {
    pub query: Input,
    pub items: Seq<Input>,
    pub label_token_ids: Option<Seq<u32>>,
    pub apply_softmax: bool,
    pub item_first: bool,
}

impl View for OpenAiScoreRequest {
    type V = Score;

    open spec fn view(&self) -> Score {
        Score {
            query: self.query@,
            items: inputs_of(self.items@),
            label_token_ids: match self.label_token_ids {
                Some(list) => Some(list@),
                None => None,
            },
            apply_softmax: self.apply_softmax,
            item_first: self.item_first,
        }
    }
}

/// What is said of a score payload that asks for what is not offered.
pub open spec fn score_unsupported(payload: JsonView) -> Option<Seq<char>> {
    if payload.get("query_embed_overrides"@) is Some || payload.get("item_embed_overrides"@) is Some
        || payload.get("embed_override_token_id"@) is Some {
        Some("embedding overrides are not supported by the Rust score worker"@)
    } else if flag_or(payload, "return_pooled_hidden_states"@, false) {
        Some("return_pooled_hidden_states is not supported by the Rust score worker"@)
    } else {
        None
    }
}

/// The items of a score payload.
pub open spec fn score_items_in(payload: JsonView) -> Result<Seq<Input>, Seq<char>> {
    match payload.get("items"@) {
        None => Err("items must be provided"@),
        Some(value) => score_items(value),
    }
}

/// What a score payload asks for.
pub open spec fn score_in(payload: JsonView, served: Seq<char>) -> Result<Score, Seq<char>> {
    let items = score_items_in(payload);
    let query = match payload.get("query"@) {
        Some(value) => score_query(value),
        None => Ok(default_query(items->Ok_0)),
    };
    let labels = labels_in(payload);
    let softmax = flag_in(payload, "apply_softmax"@);
    let item_first = flag_in(payload, "item_first"@);
    match either(
        model_failure(payload, served),
        either(
            score_unsupported(payload),
            either(
                failed(items),
                either(
                    failed(query),
                    either(failed(labels), either(failed(softmax), failed(item_first))),
                ),
            ),
        ),
    ) {
        Some(message) => Err(message),
        None => Ok(
            Score {
                query: query->Ok_0,
                items: items->Ok_0,
                label_token_ids: labels->Ok_0,
                apply_softmax: or_default(softmax->Ok_0, false),
                item_first: or_default(item_first->Ok_0, false),
            },
        ),
    }
}

/// What a score payload asks for.
pub fn parse_score_request(payload: &Json, served_model_name: &str) -> (request: Result<
    OpenAiScoreRequest,
    String,
>)
    ensures
        match request {
            Ok(made) => score_in(payload@, served_model_name@) == Ok::<Score, Seq<char>>(made@)
                && made.model@ == served_model_name@,
            Err(message) => score_in(payload@, served_model_name@) == Err::<Score, Seq<char>>(
                message@,
            ),
        },
{
    check_model(payload, served_model_name)?;
    if payload.has("query_embed_overrides") || payload.has("item_embed_overrides") || payload.has(
        "embed_override_token_id",
    ) {
        return Err("embedding overrides are not supported by the Rust score worker".to_owned());
    }
    if let Some(value) = payload.get("return_pooled_hidden_states") {
        if let Some(flag) = value.as_bool() {
            if flag {
                return Err(
                    "return_pooled_hidden_states is not supported by the Rust score worker".to_owned(),
                );
            }
        }
    }
    let items = match payload.get("items") {
        Some(value) => parse_score_items(value)?,
        None => {
            return Err("items must be provided".to_owned());
        },
    };
    let query = match payload.get("query") {
        Some(value) => parse_score_query(value)?,
        None => default_query_for_items(&items),
    };
    let label_token_ids = parse_optional_label_token_ids(payload)?;
    let apply_softmax = match optional_bool(payload, "apply_softmax")? {
        Some(flag) => flag,
        None => false,
    };
    let item_first = match optional_bool(payload, "item_first")? {
        Some(flag) => flag,
        None => false,
    };
    Ok(
        OpenAiScoreRequest {
            model: served_model_name.to_owned(),
            query,
            items,
            label_token_ids,
            apply_softmax,
            item_first,
        },
    )
}

/// How the scores of an item are come by.
#[derive(Clone, Copy, Debug, PartialEq, Eq, Structural)]
pub enum ScoreRule {
    /// The likeness of the prompt to each label, with a softmax over them where it is asked for.
    Labels { apply_softmax: bool },
    /// The one score is one.
    One,
    /// The one score is zero.
    Zero,
    /// The one score is the likeness of the query to the item.
    Likeness,
}

/// How the scores of an item are come by: by the labels, where there are some; else a softmax leaves
/// nothing but one, and an empty query or item scores zero.
pub open spec fn rule_of(
    labels: bool,
    apply_softmax: bool,
    query: Seq<u32>,
    item: Seq<u32>,
) -> ScoreRule {
    if labels {
        ScoreRule::Labels { apply_softmax }
    } else if apply_softmax {
        ScoreRule::One
    } else if query.len() == 0 || item.len() == 0 {
        ScoreRule::Zero
    } else {
        ScoreRule::Likeness
    }
}

/// How the scores of an item are come by.
pub fn score_rule(request: &OpenAiScoreRequest, query: &Vec<u32>, item: &Vec<u32>) -> (rule:
    ScoreRule)
    ensures
        rule == rule_of(
            request.label_token_ids is Some,
            request.apply_softmax,
            query@,
            item@,
        ),
{
    if request.label_token_ids.is_some() {
        ScoreRule::Labels { apply_softmax: request.apply_softmax }
    } else if request.apply_softmax {
        ScoreRule::One
    } else if query.len() == 0 || item.len() == 0 {
        ScoreRule::Zero
    } else {
        ScoreRule::Likeness
    }
}

/// The tokens that are scored: the query and the item, in the order asked for.
pub fn compose_score_prompt(query: &Vec<u32>, item: &Vec<u32>, item_first: bool) -> (prompt: Vec<
    u32,
>)
    ensures
        prompt@ == (if item_first {
            item@ + query@
        } else {
            query@ + item@
        }),
{
    if item_first {
        joined(item, query)
    } else {
        joined(query, item)
    }
}

fn joined(first: &Vec<u32>, second: &Vec<u32>) -> (all: Vec<u32>)
    ensures
        all@ == first@ + second@,
{
    let mut all: Vec<u32> = Vec::new();
    let mut i: usize = 0;
    while i < first.len()
        invariant
            i <= first@.len(),
            all@ == first@.take(i as int),
        decreases first@.len() - i,
    {
        all.push(first[i]);
        i = i + 1;
        proof {
            assert(first@.take(i as int) =~= first@.take(i - 1).push(first@[i - 1]));
        }
    }
    let mut j: usize = 0;
    proof {
        assert(first@.take(i as int) =~= first@);
        assert(first@ + second@.take(0) =~= first@);
    }
    while j < second.len()
        invariant
            j <= second@.len(),
            all@ == first@ + second@.take(j as int),
        decreases second@.len() - j,
    {
        all.push(second[j]);
        j = j + 1;
        proof {
            assert(first@ + second@.take(j as int) =~= (first@ + second@.take(j - 1)).push(
                second@[j - 1],
            ));
        }
    }
    proof {
        assert(second@.take(j as int) =~= second@);
    }
    all
}

/// How many tokens were taken, where none was made.
pub open spec fn prompt_usage(prompt_tokens: int) -> JsonView {
    empty_object().with("prompt_tokens"@, number(prompt_tokens)).with(
        "total_tokens"@,
        number(prompt_tokens),
    ).with("completion_tokens"@, number(0)).with("prompt_tokens_details"@, JsonView::Null)
}

fn prompt_usage_json(prompt_tokens: usize) -> (json: Json)
    ensures
        json@ == prompt_usage(prompt_tokens as int),
{
    Json::object().with("prompt_tokens", Json::natural(prompt_tokens as u64)).with(
        "total_tokens",
        Json::natural(prompt_tokens as u64),
    ).with("completion_tokens", Json::natural(0)).with("prompt_tokens_details", Json::null())
}

/// The answer to a score request: a row of scores, given by their bits, for each item.
pub fn score_response_json(model: &str, scores: &Vec<Vec<u64>>, prompt_tokens: usize) -> (json: Json)
    ensures
        json@ == empty_object().with("object"@, text("scoring"@)).with("model"@, text(model@)).with(
            "scores"@,
            JsonView::Array(Seq::new(scores@.len(), |i: int| float_array(scores@[i]@))),
        ).with("pooled_hidden_states"@, JsonView::Null).with(
            "usage"@,
            prompt_usage(prompt_tokens as int).with("reasoning_tokens"@, number(0)),
        ),
{
    let mut rows: Vec<Json> = Vec::new();
    let mut i: usize = 0;
    while i < scores.len()
        invariant
            i <= scores@.len(),
            rows@.len() == i,
            forall|j: int| 0 <= j < i ==> (#[trigger] rows@[j])@ == float_array(scores@[j]@),
        decreases scores@.len() - i,
    {
        rows.push(float_array_json(&scores[i]));
        i = i + 1;
    }
    proof {
        assert(views(rows@) =~= Seq::new(scores@.len(), |i: int| float_array(scores@[i]@)));
    }
    Json::object().with("object", Json::text("scoring")).with("model", Json::text(model)).with(
        "scores",
        Json::array(rows),
    ).with("pooled_hidden_states", Json::null()).with(
        "usage",
        prompt_usage_json(prompt_tokens).with("reasoning_tokens", Json::natural(0)),
    )
}

/// The probabilities of the classes of an input, given by their bits, and how many tokens it has.
/// The values are not negative, so that their bits are ordered as they are.
#[derive(Debug)]
pub struct ClassifyOutput {
    pub probs: Vec<u64>,
    pub prompt_tokens: usize,
}

/// Whether a class is the first of the most probable ones.
pub open spec fn is_most_probable(probs: Seq<u64>, class: int) -> bool {
    &&& 0 <= class < probs.len()
    &&& forall|i: int| 0 <= i < probs.len() ==> #[trigger] probs[i] <= probs[class]
    &&& forall|i: int| 0 <= i < class ==> #[trigger] probs[i] < probs[class]
}

/// The first of the most probable classes; zero where there is none.
pub fn predicted_class(probs: &Vec<u64>) -> (class: usize)
    ensures
        probs@.len() == 0 ==> class == 0,
        probs@.len() > 0 ==> is_most_probable(probs@, class as int),
{
    if probs.len() == 0 {
        return 0;
    }
    let mut best: usize = 0;
    let mut i: usize = 1;
    while i < probs.len()
        invariant
            best < i <= probs@.len(),
            forall|j: int| 0 <= j < i ==> #[trigger] probs@[j] <= probs@[best as int],
            forall|j: int| 0 <= j < best ==> #[trigger] probs@[j] < probs@[best as int],
        decreases probs@.len() - i,
    {
        if probs[i] > probs[best] {
            best = i;
        }
        i = i + 1;
    }
    best
}

/// The first of the most probable classes; zero where there is none.
pub open spec fn most_probable(probs: Seq<u64>) -> int {
    if probs.len() == 0 {
        0
    } else {
        choose|class: int| is_most_probable(probs, class)
    }
}

proof fn lemma_most_probable(probs: Seq<u64>, class: int)
    requires
        probs.len() == 0 ==> class == 0,
        probs.len() > 0 ==> is_most_probable(probs, class),
    ensures
        most_probable(probs) == class,
{
    if probs.len() > 0 {
        let other = most_probable(probs);
        assert(is_most_probable(probs, other));
        if other < class {
            assert(probs[other] < probs[class]);
            assert(probs[class] <= probs[other]);
        } else if class < other {
            assert(probs[class] < probs[other]);
            assert(probs[other] <= probs[class]);
        }
    }
}

/// The sum of the tokens of several inputs.
pub open spec fn classify_tokens_sum(outputs: Seq<ClassifyOutput>) -> nat
    decreases outputs.len(),
{
    if outputs.len() == 0 {
        0
    } else {
        classify_tokens_sum(outputs.drop_last()) + outputs.last().prompt_tokens as nat
    }
}

proof fn lemma_classify_sum(outputs: Seq<ClassifyOutput>, i: int)
    requires
        0 <= i <= outputs.len(),
    ensures
        classify_tokens_sum(outputs.take(i)) <= classify_tokens_sum(outputs),
    decreases outputs.len() - i,
{
    if i < outputs.len() {
        assert(outputs.take(i + 1).drop_last() =~= outputs.take(i));
        lemma_classify_sum(outputs, i + 1);
    } else {
        assert(outputs.take(i) =~= outputs);
    }
}

/// The class of one input.
pub open spec fn classified(index: int, output: ClassifyOutput) -> JsonView {
    empty_object().with("index"@, number(index)).with(
        "label"@,
        text("LABEL_"@ + decimal(most_probable(output.probs@) as nat)),
    ).with("probs"@, float_array(output.probs@)).with("num_classes"@, number(3))
}

/// The answer to a classification request, made at `created_secs`, or `created_micros`.
pub fn classify_response_json(
    model: &str,
    outputs: &Vec<ClassifyOutput>,
    created_micros: u64,
    created_secs: u64,
) -> (json: Json)
    requires
        classify_tokens_sum(outputs@) <= usize::MAX,
    ensures
        json@ == empty_object().with(
            "id"@,
            text("classify-"@ + decimal(created_micros as nat)),
        ).with("object"@, text("list"@)).with("created"@, number(created_secs as int)).with(
            "model"@,
            text(model@),
        ).with(
            "data"@,
            JsonView::Array(Seq::new(outputs@.len(), |i: int| classified(i, outputs@[i]))),
        ).with("usage"@, prompt_usage(classify_tokens_sum(outputs@) as int)),
{
    let ghost wanted = Seq::new(outputs@.len(), |i: int| classified(i, outputs@[i]));
    let mut data: Vec<Json> = Vec::new();
    let mut prompt_tokens: usize = 0;
    let mut i: usize = 0;
    proof {
        assert(outputs@.take(0) =~= Seq::empty());
    }
    while i < outputs.len()
        invariant
            i <= outputs@.len(),
            classify_tokens_sum(outputs@) <= usize::MAX,
            prompt_tokens == classify_tokens_sum(outputs@.take(i as int)),
            wanted == Seq::new(outputs@.len(), |i: int| classified(i, outputs@[i])),
            data@.len() == i,
            forall|j: int| 0 <= j < i ==> (#[trigger] data@[j])@ == wanted[j],
        decreases outputs@.len() - i,
    {
        proof {
            assert(outputs@.take(i + 1).drop_last() =~= outputs@.take(i as int));
            lemma_classify_sum(outputs@, i + 1);
        }
        let output = &outputs[i];
        prompt_tokens = prompt_tokens + output.prompt_tokens;
        let class: usize = predicted_class(&output.probs);
        proof {
            lemma_most_probable(output.probs@, class as int);
        }
        let label = cat2("LABEL_", decimal_usize(class).as_str());
        data.push(
            Json::object().with("index", Json::natural(i as u64)).with(
                "label",
                Json::text(label.as_str()),
            ).with("probs", float_array_json(&output.probs)).with(
                "num_classes",
                Json::natural(3),
            ),
        );
        i = i + 1;
    }
    proof {
        assert(outputs@.take(i as int) =~= outputs@);
        assert(views(data@) =~= wanted);
    }
    let id = cat2("classify-", decimal_u64(created_micros).as_str());
    Json::object().with("id", Json::text(id.as_str())).with("object", Json::text("list")).with(
        "created",
        Json::natural(created_secs),
    ).with("model", Json::text(model)).with("data", Json::array(data)).with(
        "usage",
        prompt_usage_json(prompt_tokens),
    )
}

} // verus!
