//! What the requests and answers of the embedding, classification, reranking and scoring endpoints
//! promise.
use vstd::prelude::*;

use crate::answer_laws::{holds_integer, holds_text};
use crate::http_maintenance::{blank, is_blank};
use crate::json::{Json, JsonNumber, JsonView};
use crate::openai_embedding::{
    classify_inputs, collected_at, embedding_inputs, embedding_share, embedding_tokens_sum,
    embeddings_response_json, input_tokens, parse_classify_request, parse_embedding_request,
    splitmix64, EmbeddingOutput, EmbeddingShare, Input, OpenAiClassifyRequest, OpenAiEmbeddingRequest,
    TokenInput,
};
use crate::openai_rerank::{
    parse_rerank_request, rank_documents, ranked, ranking_orders_results, rerank_content_to_text,
    rerank_results_to_json, shared_tokens, OpenAiRerankRequest, OpenAiRerankResult,
};
use crate::openai_score::{
    classify_response_json, classify_tokens_sum, compose_score_prompt, field_tokens,
    is_most_probable, parse_score_request, predicted_class, score_items, score_response_json,
    score_rule, ClassifyOutput, OpenAiScoreRequest, ScoreRule,
};
use crate::payload_laws::{is_integer, items_are_read_in_order};
use crate::text::{decimal, is_white_space};

verus! {

/// A character is white space.
pub open spec fn is_white(c: char) -> bool {
    ||| '\t' <= c <= '\r'
    ||| c == ' '
    ||| c == '\u{85}'
    ||| c == '\u{a0}'
    ||| c == '\u{1680}'
    ||| '\u{2000}' <= c <= '\u{200a}'
    ||| c == '\u{2028}'
    ||| c == '\u{2029}'
    ||| c == '\u{202f}'
    ||| c == '\u{205f}'
    ||| c == '\u{3000}'
}

/// A text shows a character.
pub open spec fn shows(text: Seq<char>) -> bool {
    exists|i: int| 0 <= i < text.len() && !is_white(#[trigger] text[i])
}

/// A character is white space exactly where it moves on and shows nothing.
pub proof fn white_space_shows_nothing(c: char, space: bool)
    requires
        call_ensures(is_white_space, (c,), space),
    ensures
        space == is_white(c),
{
}

/// A text is blank exactly where it shows no character.
pub proof fn blank_texts_show_nothing(text: &str, nothing: bool)
    requires
        call_ensures(blank, (text,), nothing),
    ensures
        nothing == !shows(text@),
{
    lemma_shows();
}

/// What counts as white space.
pub proof fn lemma_white(c: char)
    ensures
        crate::text::is_space(c) == is_white(c),
{
}

/// A text is blank where it shows nothing.
pub proof fn lemma_shows()
    ensures
        forall|text: Seq<char>| #[trigger] is_blank(text) == !shows(text),
{
    assert forall|text: Seq<char>| #[trigger] is_blank(text) == !shows(text) by {
        if is_blank(text) {
            assert forall|i: int| 0 <= i < text.len() implies is_white(#[trigger] text[i]) by {
                assert(crate::text::is_space(text[i]));
                lemma_white(text[i]);
            }
        } else {
            let i = choose|i: int|
                0 <= i < text.len() && !crate::text::is_space(#[trigger] text[i]);
            lemma_white(text[i]);
        }
    }
}

/// Reading items with their places succeeds exactly where reading each of them does, and gives what
/// each reads as, in order.
pub proof fn places_are_read_in_order<T>(
    items: Seq<JsonView>,
    read: spec_fn(int, JsonView) -> Result<T, Seq<char>>,
)
    ensures
        collected_at(items, read) is Ok <==> forall|i: int|
            0 <= i < items.len() ==> read(i, #[trigger] items[i]) is Ok,
        collected_at(items, read) matches Ok(list) ==> list.len() == items.len() && forall|i: int|
            0 <= i < items.len() ==> read(i, #[trigger] items[i]) == Ok::<T, Seq<char>>(list[i]),
    decreases items.len(),
{
    if items.len() > 0 {
        let front = items.drop_last();
        places_are_read_in_order(front, read);
        assert(forall|i: int| 0 <= i < front.len() ==> front[i] == #[trigger] items[i]);
        if collected_at(items, read) is Ok {
            let list = collected_at(items, read)->Ok_0;
            assert forall|i: int| 0 <= i < items.len() implies read(i, #[trigger] items[i]) == Ok::<
                T,
                Seq<char>,
            >(list[i]) by {
                if i < front.len() {
                    assert(front[i] == items[i]);
                }
            }
        }
        if forall|i: int| 0 <= i < items.len() ==> read(i, #[trigger] items[i]) is Ok {
            assert forall|i: int| 0 <= i < front.len() implies read(i, #[trigger] front[i]) is Ok by {
                assert(front[i] == items[i]);
            }
            assert(read(items.len() - 1, items[items.len() - 1]) is Ok);
        }
    }
}

/// An item is a token.
pub open spec fn is_token(item: JsonView) -> bool {
    item matches JsonView::Number(JsonNumber::Unsigned(n)) && n <= u32::MAX
}

/// Items are tokens.
pub open spec fn are_tokens(items: Seq<JsonView>) -> bool {
    forall|i: int| 0 <= i < items.len() ==> is_token(#[trigger] items[i])
}

/// Items are these tokens, in order.
pub open spec fn lists_tokens(items: Seq<JsonView>, tokens: Seq<u32>) -> bool {
    items.len() == tokens.len() && forall|i: int|
        0 <= i < items.len() ==> #[trigger] items[i] == JsonView::Number(
            JsonNumber::Unsigned(tokens[i] as u64),
        )
}

/// An input is a text that shows something, or some tokens.
pub open spec fn is_input(item: JsonView, input: TokenInput) -> bool {
    match input {
        TokenInput::Text(text) => item == JsonView::Text(text@) && shows(text@),
        TokenInput::TokenIds(tokens) => item is Array && tokens@.len() > 0 && lists_tokens(
            item->Array_0,
            tokens@,
        ),
    }
}

/// A value may be an input by itself.
pub open spec fn may_be_text(item: JsonView) -> bool {
    item is Text && shows(item->Text_0)
}

/// A value may be the tokens of one input.
pub open spec fn may_be_tokens(item: JsonView) -> bool {
    item is Array && item->Array_0.len() > 0 && are_tokens(item->Array_0)
}

/// A value is one input, or a list of them.
pub open spec fn may_be_inputs(value: JsonView, batches: bool) -> bool {
    ||| may_be_text(value)
    ||| may_be_tokens(value)
    ||| value is Array && value->Array_0.len() > 0 && forall|i: int|
        0 <= i < value->Array_0.len() ==> may_be_text(#[trigger] value->Array_0[i])
    ||| batches && value is Array && value->Array_0.len() > 0 && forall|i: int|
        0 <= i < value->Array_0.len() ==> may_be_tokens(#[trigger] value->Array_0[i])
}

/// Inputs are those of a value: the value itself, or its items in order.
pub open spec fn are_inputs(value: JsonView, inputs: Seq<TokenInput>) -> bool {
    if value is Array && value->Array_0.len() > 0 && !(value->Array_0[0] is Number) {
        inputs.len() == value->Array_0.len() && forall|i: int|
            0 <= i < inputs.len() ==> is_input(value->Array_0[i], #[trigger] inputs[i])
    } else {
        inputs.len() == 1 && is_input(value, inputs[0])
    }
}

/// A payload names the model that is served.
pub open spec fn names_model(payload: JsonView, served: Seq<char>) -> bool {
    holds_text(payload, "model"@, served)
}

/// The tokens of an input.
pub proof fn lemma_input_tokens(items: Seq<JsonView>)
    ensures
        input_tokens(items) is Ok <==> items.len() > 0 && are_tokens(items),
        input_tokens(items) matches Ok(tokens) ==> lists_tokens(items, tokens),
{
    let read = |index: int, item: JsonView| crate::openai_embedding::input_token(index, item);
    places_are_read_in_order(items, read);
    if input_tokens(items) is Ok {
        let tokens = input_tokens(items)->Ok_0;
        assert forall|i: int| 0 <= i < items.len() implies #[trigger] items[i] == JsonView::Number(
            JsonNumber::Unsigned(tokens[i] as u64),
        ) by {
            assert(read(i, items[i]) == Ok::<u32, Seq<char>>(tokens[i]));
        }
    }
}

/// The inputs of an embedding.
pub proof fn lemma_embedding_inputs(value: JsonView)
    ensures
        embedding_inputs(value) is Ok <==> may_be_inputs(value, true),
        embedding_inputs(value) matches Ok(list) ==> forall|inputs: Seq<TokenInput>|
            list == #[trigger] crate::openai_embedding::inputs_of(inputs) ==> are_inputs(
                value,
                inputs,
            ),
{
    lemma_shows();
    if let JsonView::Array(items) = value {
        let text = |item: JsonView| crate::openai_embedding::embedding_text(item);
        let tokens = |item: JsonView| crate::openai_embedding::embedding_tokens(item);
        items_are_read_in_order(items, text);
        items_are_read_in_order(items, tokens);
        lemma_input_tokens(items);
        assert forall|i: int| 0 <= i < items.len() && items[i] is Array implies (tokens(
            #[trigger] items[i],
        ) is Ok <==> may_be_tokens(items[i])) by {
            lemma_input_tokens(items[i]->Array_0);
        }
        if items.len() > 0 {
            let first = items[0];
        }
        if embedding_inputs(value) is Ok {
            let list = embedding_inputs(value)->Ok_0;
            assert forall|inputs: Seq<TokenInput>|
                list == #[trigger] crate::openai_embedding::inputs_of(inputs) implies are_inputs(
                value,
                inputs,
            ) by {
                assert(list.len() == inputs.len());
                assert forall|i: int| 0 <= i < inputs.len() implies list[i] == (
                #[trigger] inputs[i])@ by {}
                if items[0] is Number {
                    assert(inputs[0]@ == list[0]);
                } else {
                    assert forall|i: int| 0 <= i < inputs.len() implies is_input(
                        items[i],
                        #[trigger] inputs[i],
                    ) by {
                        assert(inputs[i]@ == list[i]);
                        if items[i] is Text {
                            assert(text(items[i]) is Ok);
                        } else {
                            lemma_input_tokens(items[i]->Array_0);
                            assert(tokens(items[i]) is Ok);
                        }
                    }
                }
            }
        }
    } else if embedding_inputs(value) is Ok {
        let list = embedding_inputs(value)->Ok_0;
        assert forall|inputs: Seq<TokenInput>|
            list == #[trigger] crate::openai_embedding::inputs_of(inputs) implies are_inputs(
            value,
            inputs,
        ) by {
            assert(list.len() == inputs.len());
            assert(inputs[0]@ == list[0]);
        }
    }
}

/// An embedding is asked for the model that is served, of the inputs of the payload in their order,
/// with as many dimensions as the payload says, else with eight. Every such payload is accepted.
pub proof fn embedding_requests_hold_what_the_payload_tells(
    payload: Json,
    served: &str,
    request: Result<OpenAiEmbeddingRequest, String>,
)
    requires
        call_ensures(parse_embedding_request, (&payload, served), request),
    ensures
        request is Ok <==> {
            &&& names_model(payload@, served@)
            &&& payload@.get("input"@) is Some && may_be_inputs(payload@.get("input"@)->0, true)
            &&& payload@.get("dimensions"@) matches Some(value) ==> exists|n: int|
                1 <= n <= 4096 && is_integer(value, n) && value == JsonView::Number(
                    JsonNumber::Unsigned(n as u64),
                )
            &&& payload@.get("encoding_format"@) matches Some(JsonView::Text(format)) ==> format
                == "float"@
        },
        request matches Ok(made) ==> {
            &&& made.model@ == served@
            &&& are_inputs(payload@.get("input"@)->0, made.inputs@)
            &&& payload@.get("dimensions"@) is None ==> made.dimensions == 8
            &&& payload@.get("dimensions"@) matches Some(value) ==> is_integer(
                value,
                made.dimensions as int,
            )
        },
{
    if let Some(value) = payload@.get("input"@) {
        lemma_embedding_inputs(value);
    }
    if let Some(value) = payload@.get("dimensions"@) {
        if let JsonView::Number(JsonNumber::Unsigned(n)) = value {
            assert(is_integer(value, n as int));
        }
    }
}

/// The sum of some numbers.
pub open spec fn total(counts: Seq<int>) -> int
    decreases counts.len(),
{
    if counts.len() == 0 {
        0
    } else {
        counts[0] + total(counts.skip(1))
    }
}

/// The sum of some numbers and one more.
pub proof fn lemma_total(counts: Seq<int>)
    requires
        counts.len() > 0,
    ensures
        total(counts) == total(counts.drop_last()) + counts.last(),
    decreases counts.len(),
{
    reveal_with_fuel(total, 2);
    if counts.len() > 1 {
        lemma_total(counts.skip(1));
        assert(counts.skip(1).drop_last() =~= counts.drop_last().skip(1));
    } else {
        assert(counts.skip(1).len() == 0);
        assert(counts.drop_last().len() == 0);
    }
}

/// The tokens of all embeddings.
pub open spec fn embedded_tokens(outputs: Seq<EmbeddingOutput>) -> int {
    total(outputs.map_values(|output: EmbeddingOutput| output.prompt_tokens as int))
}

/// The tokens of all classifications.
pub open spec fn classified_tokens(outputs: Seq<ClassifyOutput>) -> int {
    total(outputs.map_values(|output: ClassifyOutput| output.prompt_tokens as int))
}

/// The tokens of all embeddings, one after the other.
pub proof fn lemma_embedded_tokens(outputs: Seq<EmbeddingOutput>)
    ensures
        embedding_tokens_sum(outputs) == embedded_tokens(outputs),
    decreases outputs.len(),
{
    let counts = outputs.map_values(|output: EmbeddingOutput| output.prompt_tokens as int);
    if outputs.len() > 0 {
        lemma_embedded_tokens(outputs.drop_last());
        lemma_total(counts);
        assert(counts.drop_last() =~= outputs.drop_last().map_values(
            |output: EmbeddingOutput| output.prompt_tokens as int,
        ));
    }
}

/// The tokens of all classifications, one after the other.
pub proof fn lemma_classified_tokens(outputs: Seq<ClassifyOutput>)
    ensures
        classify_tokens_sum(outputs) == classified_tokens(outputs),
    decreases outputs.len(),
{
    let counts = outputs.map_values(|output: ClassifyOutput| output.prompt_tokens as int);
    if outputs.len() > 0 {
        lemma_classified_tokens(outputs.drop_last());
        lemma_total(counts);
        assert(counts.drop_last() =~= outputs.drop_last().map_values(
            |output: ClassifyOutput| output.prompt_tokens as int,
        ));
    }
}

/// The members of these answers have different names.
pub proof fn lemma_scoring_names()
    ensures
        "id"@.len() == 2,
        "data"@.len() == 4,
        "model"@.len() == 5 && "model"@[0] == 'm',
        "usage"@.len() == 5 && "usage"@[0] == 'u',
        "index"@.len() == 5 && "index"@[0] == 'i',
        "score"@.len() == 5 && "score"@[0] == 's',
        "label"@.len() == 5 && "label"@[0] == 'l',
        "probs"@.len() == 5 && "probs"@[0] == 'p',
        "object"@.len() == 6 && "object"@[0] == 'o',
        "scores"@.len() == 6 && "scores"@[0] == 's',
        "created"@.len() == 7,
        "document"@.len() == 8,
        "embedding"@.len() == 9,
        "num_classes"@.len() == 11,
        "total_tokens"@.len() == 12,
        "prompt_tokens"@.len() == 13,
        "reasoning_tokens"@.len() == 16,
        "completion_tokens"@.len() == 17,
        "pooled_hidden_states"@.len() == 20,
        "prompt_tokens_details"@.len() == 21,
{
    reveal_strlit("id");
    reveal_strlit("data");
    reveal_strlit("model");
    reveal_strlit("usage");
    reveal_strlit("index");
    reveal_strlit("score");
    reveal_strlit("label");
    reveal_strlit("probs");
    reveal_strlit("object");
    reveal_strlit("scores");
    reveal_strlit("created");
    reveal_strlit("document");
    reveal_strlit("embedding");
    reveal_strlit("num_classes");
    reveal_strlit("total_tokens");
    reveal_strlit("prompt_tokens");
    reveal_strlit("reasoning_tokens");
    reveal_strlit("completion_tokens");
    reveal_strlit("pooled_hidden_states");
    reveal_strlit("prompt_tokens_details");
}

/// A value is an array of numbers, given by their bits.
pub open spec fn is_numbers(value: JsonView, bits: Seq<u64>) -> bool {
    value is Array && value->Array_0.len() == bits.len() && forall|i: int|
        0 <= i < bits.len() ==> #[trigger] value->Array_0[i] == JsonView::Number(
            JsonNumber::Float(bits[i]),
        )
}

/// A member is an array of numbers, given by their bits.
pub open spec fn holds_numbers(document: JsonView, key: Seq<char>, bits: Seq<u64>) -> bool {
    document.get(key) is Some && is_numbers(document.get(key)->0, bits)
}

/// A member tells how many tokens were read; none was written.
pub open spec fn tells_prompt(document: JsonView, tokens: int) -> bool {
    &&& document.get("usage"@) is Some
    &&& holds_integer(document.get("usage"@)->0, "prompt_tokens"@, tokens)
    &&& holds_integer(document.get("usage"@)->0, "total_tokens"@, tokens)
}

/// An answer with embeddings names the model, holds the embedding of each input at its place, and
/// counts the tokens of all inputs.
pub proof fn embeddings_stand_at_their_places(
    model: &str,
    outputs: Vec<EmbeddingOutput>,
    json: Json,
    i: int,
)
    requires
        embedded_tokens(outputs@) <= usize::MAX,
        call_ensures(embeddings_response_json, (model, &outputs), json),
    ensures
        holds_text(json@, "object"@, "list"@),
        holds_text(json@, "model"@, model@),
        json@.get("data"@) is Some && json@.get("data"@)->0 is Array,
        json@.get("data"@)->0->Array_0.len() == outputs@.len(),
        0 <= i < outputs@.len() ==> {
            let entry = json@.get("data"@)->0->Array_0[i];
            &&& holds_text(entry, "object"@, "embedding"@)
            &&& holds_integer(entry, "index"@, i)
            &&& holds_numbers(entry, "embedding"@, outputs@[i].embedding@)
        },
        tells_prompt(json@, embedded_tokens(outputs@)),
{
    lemma_scoring_names();
    lemma_embedded_tokens(outputs@);
    assert(outputs@.len() == outputs.len());
    if 0 <= i < outputs@.len() {
        let bits = outputs@[i].embedding@;
        let told = bits.map_values(|value: u64| JsonView::Number(JsonNumber::Float(value)));
        assert(told.len() == bits.len());
    }
}

/// A token weighs on one dimension of an embedding. The hash of the token and its place picks the
/// dimension, its highest bit the sign, and the bits from the sixteenth on the weight, below 997.
pub proof fn shares_follow_the_hash(
    token_id: u32,
    position: u64,
    dimensions: usize,
    hash: u64,
    share: EmbeddingShare,
)
    requires
        dimensions > 0,
        call_ensures(splitmix64, ((token_id as u64) ^ (position << 32u64),), hash),
        call_ensures(embedding_share, (token_id, position, dimensions), share),
    ensures
        share.index < dimensions,
        hash <= usize::MAX ==> share.index == hash as int % dimensions as int,
        share.negative <==> hash >= 0x8000_0000_0000_0000,
        share.numerator == hash as int / 0x1_0000 % 0x1_0000_0000 % 997,
{
    assert((hash >> 63u64 != 0) == (hash >= 0x8000_0000_0000_0000)) by (bit_vector);
    assert(hash >> 16u64 == hash / 0x1_0000) by (bit_vector);
}

/// A hash adds the golden ratio of 64 bits, and then mixes the high bits into the low ones three
/// times, with a multiplication after each of the first two.
pub proof fn hashes_mix_every_bit(value: u64, hash: u64, a: u64, b: u64, c: u64)
    requires
        call_ensures(splitmix64, (value,), hash),
        a == (value + 0x9E37_79B9_7F4A_7C15) % 0x1_0000_0000_0000_0000,
        b == ((a ^ (a >> 30)) * 0xBF58_476D_1CE4_E5B9) % 0x1_0000_0000_0000_0000,
        c == ((b ^ (b >> 27)) * 0x94D0_49BB_1331_11EB) % 0x1_0000_0000_0000_0000,
    ensures
        hash == c ^ (c >> 31),
{
}

/// A classification is asked for the model that is served, of the inputs of the payload in their
/// order. Every payload that names the model and holds inputs is accepted.
pub proof fn classify_requests_hold_what_the_payload_tells(
    payload: Json,
    served: &str,
    request: Result<OpenAiClassifyRequest, String>,
)
    requires
        call_ensures(parse_classify_request, (&payload, served), request),
    ensures
        request is Ok <==> names_model(payload@, served@) && payload@.get("input"@) is Some
            && may_be_inputs(payload@.get("input"@)->0, false),
        request matches Ok(made) ==> made.model@ == served@ && are_inputs(
            payload@.get("input"@)->0,
            made.inputs@,
        ),
{
    if let Some(value) = payload@.get("input"@) {
        lemma_classify_inputs(value);
    }
}

/// The inputs of a classification.
pub proof fn lemma_classify_inputs(value: JsonView)
    ensures
        classify_inputs(value) is Ok <==> may_be_inputs(value, false),
        classify_inputs(value) matches Ok(list) ==> forall|inputs: Seq<TokenInput>|
            list == #[trigger] crate::openai_embedding::inputs_of(inputs) ==> are_inputs(
                value,
                inputs,
            ),
{
    lemma_shows();
    if let JsonView::Array(items) = value {
        let text = |index: int, item: JsonView|
            crate::openai_embedding::classify_text(index, item);
        places_are_read_in_order(items, text);
        lemma_input_tokens(items);
        if items.len() > 0 {
            let first = items[0];
        }
        if classify_inputs(value) is Ok {
            let list = classify_inputs(value)->Ok_0;
            assert forall|inputs: Seq<TokenInput>|
                list == #[trigger] crate::openai_embedding::inputs_of(inputs) implies are_inputs(
                value,
                inputs,
            ) by {
                assert(list.len() == inputs.len());
                if items[0] is Number {
                    assert(inputs[0]@ == list[0]);
                } else {
                    assert forall|i: int| 0 <= i < inputs.len() implies is_input(
                        items[i],
                        #[trigger] inputs[i],
                    ) by {
                        assert(inputs[i]@ == list[i]);
                        assert(text(i, items[i]) is Ok);
                    }
                }
            }
        }
    } else if classify_inputs(value) is Ok {
        let list = classify_inputs(value)->Ok_0;
        assert forall|inputs: Seq<TokenInput>|
            list == #[trigger] crate::openai_embedding::inputs_of(inputs) implies are_inputs(
            value,
            inputs,
        ) by {
            assert(list.len() == inputs.len());
            assert(inputs[0]@ == list[0]);
        }
    }
}

/// The predicted class is the first of those with the greatest probability.
pub proof fn predicted_classes_are_the_first_of_the_best(probs: Vec<u64>, class: usize, i: int)
    requires
        call_ensures(predicted_class, (&probs,), class),
        0 <= i < probs@.len(),
    ensures
        class < probs@.len(),
        probs@[i] <= probs@[class as int],
        probs@[i] == probs@[class as int] ==> class <= i,
{
}

/// An answer with classifications names the model, tells for each input the label of the class with
/// the greatest probability, the probabilities and the number of classes, and counts the tokens of
/// all inputs.
pub proof fn classifications_stand_at_their_places(
    model: &str,
    outputs: Vec<ClassifyOutput>,
    micros: u64,
    secs: u64,
    json: Json,
    i: int,
    class: usize,
)
    requires
        classified_tokens(outputs@) <= usize::MAX,
        call_ensures(classify_response_json, (model, &outputs, micros, secs), json),
        0 <= i < outputs@.len(),
        call_ensures(predicted_class, (&outputs@[i].probs,), class),
    ensures
        holds_text(json@, "id"@, "classify-"@ + decimal(micros as nat)),
        holds_text(json@, "object"@, "list"@),
        holds_integer(json@, "created"@, secs as int),
        holds_text(json@, "model"@, model@),
        json@.get("data"@) is Some && json@.get("data"@)->0 is Array,
        json@.get("data"@)->0->Array_0.len() == outputs@.len(),
        ({
            let entry = json@.get("data"@)->0->Array_0[i];
            &&& holds_integer(entry, "index"@, i)
            &&& holds_text(entry, "label"@, "LABEL_"@ + decimal(class as nat))
            &&& holds_numbers(entry, "probs"@, outputs@[i].probs@)
            &&& holds_integer(entry, "num_classes"@, 3)
        }),
        tells_prompt(json@, classified_tokens(outputs@)),
        holds_integer(json@.get("usage"@)->0, "completion_tokens"@, 0),
{
    lemma_scoring_names();
    lemma_classified_tokens(outputs@);
    assert(outputs@.len() == outputs.len());
    let probs = outputs@[i].probs@;
    let told = probs.map_values(|value: u64| JsonView::Number(JsonNumber::Float(value)));
    assert(told.len() == probs.len());
    if probs.len() > 0 {
        assert(is_most_probable(probs, class as int));
        let other = choose|other: int| is_most_probable(probs, other);
        assert(is_most_probable(probs, other));
        assert(other == class) by {
            assert(probs[other] <= probs[class as int]);
            assert(probs[class as int] <= probs[other]);
        }
    }
}

/// The text of a part of a query or a document.
pub open spec fn part_text(part: JsonView) -> Seq<char> {
    match part {
        JsonView::Text(text) => text,
        _ => part.get("text"@)->0->Text_0,
    }
}

/// A text stands for itself, a list of one part for the text of that part, and a list of several
/// parts for the first ones, then a line break, then the text of the last.
pub proof fn parts_stand_on_lines(
    value: Json,
    front: Json,
    field: &str,
    content: Result<String, String>,
    before: Result<String, String>,
)
    requires
        call_ensures(rerank_content_to_text, (&value, field), content),
        call_ensures(rerank_content_to_text, (&front, field), before),
    ensures
        value@ matches JsonView::Text(text) ==> content is Ok && content->Ok_0@ == text,
        value@ is Array && content is Ok ==> value@->Array_0.len() > 0,
        value@ is Array && value@->Array_0.len() == 1 && content is Ok ==> content->Ok_0@
            == part_text(value@->Array_0[0]),
        value@ is Array && value@->Array_0.len() > 1 && front@ == JsonView::Array(
            value@->Array_0.drop_last(),
        ) && content is Ok ==> before is Ok && content->Ok_0@ == before->Ok_0@ + "\n"@ + part_text(
            value@->Array_0.last(),
        ),
        !(value@ is Array) && !(value@ is Text) ==> content is Err,
{
    if let JsonView::Array(parts) = value@ {
        let read = |part: JsonView| crate::openai_rerank::rerank_part(part, field@);
        items_are_read_in_order(parts, read);
        if content is Ok {
            let list = crate::payload::collected(parts, read)->Ok_0;
            let last = parts.len() - 1;
            assert(parts.len() > 0);
            assert(read(parts[last]) == Ok::<Seq<char>, Seq<char>>(list[last]));
            assert(list[last] == part_text(parts[last]));
            let first = crate::payload::collected(parts.drop_last(), read)->Ok_0;
            assert(list == first.push(list[last]));
            assert(list.drop_last() =~= first);
        }
    }
}

/// A number is the member `key`, at least one.
pub open spec fn tells_positive(payload: JsonView, key: Seq<char>, n: Option<usize>) -> bool {
    match payload.get(key) {
        None => n is None,
        Some(member) => n is Some && n->0 >= 1 && is_integer(member, n->0 as int),
    }
}

/// Documents are ranked for the query of the payload, behind the instruction where there is one. The
/// documents keep their order; as many are told as `top_k` says, else as `top_n` does; and they are
/// returned unless the payload says otherwise.
pub proof fn rerank_requests_hold_what_the_payload_tells(
    payload: Json,
    served: &str,
    request: Result<OpenAiRerankRequest, String>,
)
    requires
        call_ensures(parse_rerank_request, (&payload, served), request),
    ensures
        request matches Ok(made) ==> {
            &&& names_model(payload@, served@)
            &&& shows(made.query@)
            &&& payload@.get("query"@) matches Some(JsonView::Text(query)) ==> made.query@ == (
            match payload@.get("instruct"@) {
                Some(JsonView::Text(instruct)) => if shows(instruct) {
                    instruct + "\n"@ + query
                } else {
                    query
                },
                _ => query,
            })
            &&& payload@.get("documents"@) is Some && payload@.get("documents"@)->0 is Array
            &&& made.documents@.len() == payload@.get("documents"@)->0->Array_0.len()
            &&& made.documents@.len() > 0
            &&& forall|i: int|
                0 <= i < made.documents@.len() ==> {
                    &&& shows((#[trigger] made.documents@[i])@)
                    &&& payload@.get("documents"@)->0->Array_0[i] matches JsonView::Text(document)
                        ==> made.documents@[i]@ == document
                }
            &&& payload@.get("top_k"@) is Some ==> tells_positive(payload@, "top_k"@, made.top_k)
            &&& payload@.get("top_k"@) is None ==> tells_positive(payload@, "top_n"@, made.top_k)
            &&& payload@.get("return_documents"@) is None ==> made.return_documents
            &&& payload@.get("return_documents"@) matches Some(flag) ==> flag == JsonView::Bool(
                made.return_documents,
            )
        },
{
    lemma_shows();
    if let Ok(made) = request {
        let items = payload@.get("documents"@)->0->Array_0;
        let read = |document: JsonView| crate::openai_rerank::document_of(document);
        items_are_read_in_order(items, read);
        let list = crate::payload::collected(items, read)->Ok_0;
        assert(made@.documents == list);
        assert(made@.documents.len() == made.documents@.len());
        assert forall|i: int| 0 <= i < made.documents@.len() implies {
            &&& shows((#[trigger] made.documents@[i])@)
            &&& items[i] matches JsonView::Text(document) ==> made.documents@[i]@ == document
        } by {
            assert(made@.documents[i] == made.documents@[i]@);
            assert(read(items[i]) == Ok::<Seq<char>, Seq<char>>(list[i]));
        }
    }
}

/// A payload that names the model and holds a query and documents that show something is accepted.
pub proof fn plain_rerank_requests_are_accepted(
    payload: Json,
    served: &str,
    request: Result<OpenAiRerankRequest, String>,
)
    requires
        call_ensures(parse_rerank_request, (&payload, served), request),
        names_model(payload@, served@),
        payload@.get("query"@) is Some && may_be_text(payload@.get("query"@)->0),
        payload@.get("instruct"@) is None,
        payload@.get("documents"@) is Some && payload@.get("documents"@)->0 is Array,
        payload@.get("documents"@)->0->Array_0.len() > 0,
        forall|i: int|
            0 <= i < payload@.get("documents"@)->0->Array_0.len() ==> may_be_text(
                #[trigger] payload@.get("documents"@)->0->Array_0[i],
            ),
        payload@.get("top_k"@) is None,
        payload@.get("top_n"@) is None,
        payload@.get("return_documents"@) matches Some(flag) ==> flag is Bool,
    ensures
        request is Ok,
{
    lemma_shows();
    let items = payload@.get("documents"@)->0->Array_0;
    let read = |document: JsonView| crate::openai_rerank::document_of(document);
    items_are_read_in_order(items, read);
    assert forall|i: int| 0 <= i < items.len() implies read(#[trigger] items[i]) is Ok by {
        assert(may_be_text(items[i]));
    }
}

/// Ranking tells of every document once, with its own score and place: the greater scores first, and
/// equal ones in the order of their documents.
pub proof fn documents_are_ranked_by_their_scores(
    documents: Vec<String>,
    scores: Vec<u64>,
    results: Vec<OpenAiRerankResult>,
    i: int,
    j: int,
)
    requires
        documents@.len() == scores@.len(),
        call_ensures(rank_documents, (&documents, &scores), results),
        0 <= i < j < results@.len(),
    ensures
        results@.len() == documents@.len(),
        results@[i].index < documents@.len(),
        results@[i].score == scores@[results@[i].index as int],
        results@[i].document@ == documents@[results@[i].index as int]@,
        results@[i].index != results@[j].index,
        results@[i].score >= results@[j].score,
        results@[i].score == results@[j].score ==> results@[i].index < results@[j].index,
{
    let listed = choose|listed: Seq<OpenAiRerankResult>|
        {
            &&& listed.len() == documents@.len()
            &&& forall|k: int|
                0 <= k < listed.len() ==> (#[trigger] listed[k]).score == scores@[k]
                    && listed[k].document@ == documents@[k]@ && listed[k].index == k
            &&& results@ == ranked(listed)
        };
    ranking_orders_results(listed);
    vstd::seq_lib::to_multiset_contains(results@, results@[i]);
    vstd::seq_lib::to_multiset_contains(listed, results@[i]);
    vstd::seq_lib::to_multiset_contains(results@, results@[j]);
    vstd::seq_lib::to_multiset_contains(listed, results@[j]);
    assert(results@.contains(results@[i]));
    assert(results@.contains(results@[j]));
    let a = choose|k: int| 0 <= k < listed.len() && listed[k] == results@[i];
    let b = choose|k: int| 0 <= k < listed.len() && listed[k] == results@[j];
    assert(listed.no_duplicates());
    listed.lemma_multiset_has_no_duplicates();
    results@.lemma_multiset_has_no_duplicates_conv();
    assert(results@[i] != results@[j]);
    assert(!crate::openai_rerank::ranks_before(results@[j], results@[i]));
}

/// An answer lists the results in their order, each with its score and place, and with its document
/// exactly where that is asked for.
pub proof fn ranked_answers_tell_their_results(
    return_documents: bool,
    results: Vec<OpenAiRerankResult>,
    json: Json,
    i: int,
)
    requires
        call_ensures(rerank_results_to_json, (return_documents, &results), json),
        0 <= i < results@.len(),
    ensures
        json@ is Array && json@->Array_0.len() == results@.len(),
        ({
            let entry = json@->Array_0[i];
            &&& entry.get("score"@) == Some(JsonView::Number(JsonNumber::Float(results@[i].score)))
            &&& holds_integer(entry, "index"@, results@[i].index as int)
            &&& return_documents ==> holds_text(entry, "document"@, results@[i].document@)
            &&& !return_documents ==> entry.get("document"@) is None
        }),
{
    lemma_scoring_names();
}

/// The tokens that a query and a document share, and all of theirs, are together as many as those of
/// the query and those of the document. There is nothing to share where one of them is empty.
pub proof fn shared_tokens_are_counted_once(
    query: Vec<u32>,
    document: Vec<u32>,
    shares: Option<(usize, usize)>,
)
    requires
        call_ensures(shared_tokens, (&query, &document), shares),
    ensures
        shares is None <==> query@.len() == 0 || document@.len() == 0,
        shares matches Some((common, all)) ==> {
            &&& common + all == query@.to_set().len() + document@.to_set().len()
            &&& query@.to_set() == document@.to_set() ==> common == all
            &&& query@.to_set().disjoint(document@.to_set()) ==> common == 0
        },
{
    let a = query@.to_set();
    let b = document@.to_set();
    vstd::seq_lib::seq_to_set_is_finite(query@);
    vstd::seq_lib::seq_to_set_is_finite(document@);
    vstd::set_lib::lemma_set_intersect_union_lens(a, b);
    assert(a.union(b) =~= a + b);
    if a == b {
        assert(a.intersect(b) =~= a.union(b));
    }
    if a.disjoint(b) {
        assert(a.intersect(b) =~= Set::empty());
    }
}

/// The tokens of a field.
pub proof fn lemma_field_tokens(field: Seq<char>, items: Seq<JsonView>)
    ensures
        field_tokens(field, items) is Ok <==> are_tokens(items),
        field_tokens(field, items) matches Ok(tokens) ==> lists_tokens(items, tokens),
{
    let read = |index: int, item: JsonView|
        crate::openai_score::field_token(field, index, item);
    places_are_read_in_order(items, read);
    if field_tokens(field, items) is Ok {
        let tokens = field_tokens(field, items)->Ok_0;
        assert forall|i: int| 0 <= i < items.len() implies #[trigger] items[i] == JsonView::Number(
            JsonNumber::Unsigned(tokens[i] as u64),
        ) by {
            assert(read(i, items[i]) == Ok::<u32, Seq<char>>(tokens[i]));
        }
    }
}

/// A text or the tokens of a value.
pub open spec fn is_scored(item: JsonView, input: TokenInput) -> bool {
    match input {
        TokenInput::Text(text) => item == JsonView::Text(text@),
        TokenInput::TokenIds(tokens) => item is Array && lists_tokens(item->Array_0, tokens@),
    }
}

/// Items are scored against the query of the payload. The items keep their order; the labels are
/// those of the payload; and the two flags are set only where the payload sets them.
pub proof fn score_requests_hold_what_the_payload_tells(
    payload: Json,
    served: &str,
    request: Result<OpenAiScoreRequest, String>,
)
    requires
        call_ensures(parse_score_request, (&payload, served), request),
    ensures
        request matches Ok(made) ==> {
            &&& names_model(payload@, served@)
            &&& made.model@ == served@
            &&& payload@.get("query"@) matches Some(query) ==> is_scored(query, made.query)
            &&& payload@.get("query"@) is None ==> match made.query {
                TokenInput::Text(text) => text@.len() == 0,
                TokenInput::TokenIds(tokens) => tokens@.len() == 0,
            }
            &&& payload@.get("items"@) is Some
            &&& payload@.get("items"@)->0 is Text ==> made.items@.len() == 1 && is_scored(
                payload@.get("items"@)->0,
                made.items@[0],
            )
            &&& payload@.get("items"@)->0 matches JsonView::Array(items) ==> made.items@.len()
                == items.len() && forall|i: int|
                0 <= i < items.len() ==> is_scored(items[i], #[trigger] made.items@[i])
            &&& payload@.get("label_token_ids"@) is None ==> made.label_token_ids is None
            &&& payload@.get("label_token_ids"@) matches Some(labels) ==> labels is Array
                && made.label_token_ids is Some && made.label_token_ids->0@.len() > 0
                && lists_tokens(labels->Array_0, made.label_token_ids->0@)
            &&& payload@.get("apply_softmax"@) is None ==> !made.apply_softmax
            &&& payload@.get("apply_softmax"@) matches Some(flag) ==> flag == JsonView::Bool(
                made.apply_softmax,
            )
            &&& payload@.get("item_first"@) is None ==> !made.item_first
            &&& payload@.get("item_first"@) matches Some(flag) ==> flag == JsonView::Bool(
                made.item_first,
            )
        },
{
    if let Ok(made) = request {
        assert(made@.query == made.query@);
        if let Some(JsonView::Array(items)) = payload@.get("query"@) {
            lemma_field_tokens("query"@, items);
        }
        if let Some(JsonView::Array(items)) = payload@.get("label_token_ids"@) {
            lemma_field_tokens("label_token_ids"@, items);
        }
        if let Some(value) = payload@.get("items"@) {
            assert(score_items(value) == Ok::<Seq<Input>, Seq<char>>(made@.items));
            lemma_score_items(value, made.items@);
        }
    }
}

/// The items to score.
pub proof fn lemma_score_items(value: JsonView, inputs: Seq<TokenInput>)
    requires
        score_items(value) == Ok::<Seq<Input>, Seq<char>>(
            crate::openai_embedding::inputs_of(inputs),
        ),
    ensures
        value is Text ==> inputs.len() == 1 && is_scored(value, inputs[0]),
        value matches JsonView::Array(items) ==> inputs.len() == items.len() && forall|i: int|
            0 <= i < items.len() ==> is_scored(items[i], #[trigger] inputs[i]),
        value is Text || value is Array,
{
    let list = crate::openai_embedding::inputs_of(inputs);
    assert(list.len() == inputs.len());
    if value is Text {
        assert(list[0] == inputs[0]@);
    }
    if let JsonView::Array(items) = value {
        let read = |index: int, item: JsonView| crate::openai_score::item_tokens(index, item);
        places_are_read_in_order(items, read);
        assert forall|i: int| 0 <= i < items.len() implies is_scored(
            items[i],
            #[trigger] inputs[i],
        ) by {
            assert(list[i] == inputs[i]@);
            if items[i] is Array {
                lemma_field_tokens(crate::openai_score::item_name(i), items[i]->Array_0);
                assert(crate::openai_embedding::all_lists(items));
                assert(read(i, items[i]) == Ok::<Input, Seq<char>>(list[i]));
            } else {
                assert(!crate::openai_embedding::all_lists(items));
                assert(items.map_values(|item: JsonView| Input::Text(item->Text_0))[i] == list[i]);
            }
        }
    }
}

/// Labels are scored where the request names some. Else every score is one under softmax; without it,
/// a score is zero where there is nothing to compare, and the likeness of the two otherwise.
pub proof fn scores_follow_their_rule(
    request: OpenAiScoreRequest,
    query: Vec<u32>,
    item: Vec<u32>,
    rule: ScoreRule,
)
    requires
        call_ensures(score_rule, (&request, &query, &item), rule),
    ensures
        request.label_token_ids is Some <==> rule is Labels,
        rule matches ScoreRule::Labels { apply_softmax } ==> apply_softmax == request.apply_softmax,
        rule is One <==> request.label_token_ids is None && request.apply_softmax,
        rule is Zero <==> request.label_token_ids is None && !request.apply_softmax && (
        query@.len() == 0 || item@.len() == 0),
{
}

/// A prompt holds the query before the item, or the item before the query where that is asked for.
pub proof fn prompts_hold_both_parts(
    query: Vec<u32>,
    item: Vec<u32>,
    prompt: Vec<u32>,
    turned: Vec<u32>,
)
    requires
        call_ensures(compose_score_prompt, (&query, &item, false), prompt),
        call_ensures(compose_score_prompt, (&query, &item, true), turned),
    ensures
        prompt@.len() == query@.len() + item@.len(),
        turned@.len() == query@.len() + item@.len(),
        forall|i: int| 0 <= i < query@.len() ==> #[trigger] prompt@[i] == query@[i],
        forall|i: int|
            query@.len() <= i < prompt@.len() ==> #[trigger] prompt@[i] == item@[i - query@.len()],
        forall|i: int| 0 <= i < item@.len() ==> #[trigger] turned@[i] == item@[i],
        forall|i: int|
            item@.len() <= i < turned@.len() ==> #[trigger] turned@[i] == query@[i - item@.len()],
{
}

/// An answer with scores names the model, lists the scores of each item in order, and counts the
/// tokens of the prompts; none was written.
pub proof fn scores_stand_at_their_places(
    model: &str,
    scores: Vec<Vec<u64>>,
    prompt_tokens: usize,
    json: Json,
)
    requires
        call_ensures(score_response_json, (model, &scores, prompt_tokens), json),
    ensures
        holds_text(json@, "object"@, "scoring"@),
        holds_text(json@, "model"@, model@),
        json@.get("scores"@) is Some && json@.get("scores"@)->0 is Array,
        json@.get("scores"@)->0->Array_0.len() == scores@.len(),
        forall|i: int|
            0 <= i < scores@.len() ==> is_numbers(
                json@.get("scores"@)->0->Array_0[i],
                (#[trigger] scores@[i])@,
            ),
        json@.get("pooled_hidden_states"@) == Some(JsonView::Null),
        tells_prompt(json@, prompt_tokens as int),
        holds_integer(json@.get("usage"@)->0, "completion_tokens"@, 0),
        holds_integer(json@.get("usage"@)->0, "reasoning_tokens"@, 0),
{
    lemma_scoring_names();
    assert forall|i: int| 0 <= i < scores@.len() implies is_numbers(
        json@.get("scores"@)->0->Array_0[i],
        (#[trigger] scores@[i])@,
    ) by {
        let bits = scores@[i]@;
        let told = bits.map_values(|value: u64| JsonView::Number(JsonNumber::Float(value)));
        assert(told.len() == bits.len());
    }
}

} // verus!
