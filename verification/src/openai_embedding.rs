//! Embedding and classification requests, and their answers.
use vstd::prelude::*;
use vstd::string::*;

use crate::http_inputs::text_member;
use crate::http_maintenance::{blank, is_blank};
use crate::http_requests::{check_model, model_failure};
use crate::http_service::{number, text};
use crate::json::{empty_object, views, Json, JsonNumber, JsonView};
use crate::payload::{collected, collected_step, either, failed};
use crate::text::{cat2, cat3, decimal, decimal_usize, same_text};

verus! {

/// How many dimensions an embedding has where a request does not say.
pub const DEFAULT_EMBEDDING_DIMENSIONS: usize = 8;

/// How many dimensions an embedding has at most.
pub const MAX_EMBEDDING_DIMENSIONS: usize = 4096;

/// How many classes there are.
pub const DEFAULT_CLASS_COUNT: usize = 3;

/// A text, or tokens.
#[derive(Debug)]
pub enum TokenInput {
    Text(String),
    TokenIds(Vec<u32>),
}

/// A text, or tokens.
pub enum Input {
    Text(Seq<char>),
    TokenIds(Seq<u32>),
}

impl View for TokenInput {
    type V = Input;

    open spec fn view(&self) -> Input {
        match *self {
            TokenInput::Text(s) => Input::Text(s@),
            TokenInput::TokenIds(tokens) => Input::TokenIds(tokens@),
        }
    }
}

/// What several inputs hold.
pub open spec fn inputs_of(list: Seq<TokenInput>) -> Seq<Input> {
    list.map_values(|input: TokenInput| input@)
}

/// What `read` makes of each item and its place, or the first failure.
pub open spec fn collected_at<T>(
    items: Seq<JsonView>,
    read: spec_fn(int, JsonView) -> Result<T, Seq<char>>,
) -> Result<Seq<T>, Seq<char>>
    decreases items.len(),
{
    if items.len() == 0 {
        Ok(Seq::empty())
    } else {
        match collected_at(items.drop_last(), read) {
            Err(message) => Err(message),
            Ok(front) => match read(items.len() - 1, items.last()) {
                Err(message) => Err(message),
                Ok(value) => Ok(front.push(value)),
            },
        }
    }
}

proof fn lemma_failures_stay_at<T>(
    items: Seq<JsonView>,
    read: spec_fn(int, JsonView) -> Result<T, Seq<char>>,
    i: int,
)
    requires
        0 <= i <= items.len(),
    ensures
        collected_at(items.take(i), read) is Err ==> collected_at(items, read) == collected_at(
            items.take(i),
            read,
        ),
    decreases items.len() - i,
{
    if i < items.len() {
        assert(items.take(i + 1).drop_last() =~= items.take(i));
        lemma_failures_stay_at(items, read, i + 1);
    } else {
        assert(items.take(i) =~= items);
    }
}

/// Reading one more item with its place.
pub proof fn collected_at_step<T>(
    items: Seq<JsonView>,
    read: spec_fn(int, JsonView) -> Result<T, Seq<char>>,
    i: int,
)
    requires
        0 <= i < items.len(),
        collected_at(items.take(i), read) is Ok,
    ensures
        read(i, items[i]) is Err ==> collected_at(items, read) == Err::<Seq<T>, Seq<char>>(
            read(i, items[i])->Err_0,
        ),
        read(i, items[i]) is Ok ==> collected_at(items.take(i + 1), read) == Ok::<
            Seq<T>,
            Seq<char>,
        >(collected_at(items.take(i), read)->Ok_0.push(read(i, items[i])->Ok_0)),
{
    assert(items.take(i + 1).drop_last() =~= items.take(i));
    assert(items.take(i + 1).last() == items[i]);
    lemma_failures_stay_at(items, read, i + 1);
}

/// Whether all items are texts.
pub open spec fn all_texts(items: Seq<JsonView>) -> bool {
    forall|i: int| 0 <= i < items.len() ==> (#[trigger] items[i]) is Text
}

/// Whether all items are natural numbers.
pub open spec fn all_naturals(items: Seq<JsonView>) -> bool {
    forall|i: int| 0 <= i < items.len() ==> (#[trigger] items[i]).as_natural() is Some
}

/// Whether all items are lists.
pub open spec fn all_lists(items: Seq<JsonView>) -> bool {
    forall|i: int| 0 <= i < items.len() ==> (#[trigger] items[i]) is Array
}

/// Whether all items are texts.
pub fn are_all_texts(items: &Vec<Json>) -> (all: bool)
    ensures
        all == all_texts(views(items@)),
{
    let mut i: usize = 0;
    while i < items.len()
        invariant
            i <= items@.len(),
            forall|j: int| 0 <= j < i ==> (#[trigger] views(items@)[j]) is Text,
        decreases items@.len() - i,
    {
        proof {
            assert(views(items@)[i as int] == items@[i as int]@);
        }
        if items[i].as_str().is_none() {
            return false;
        }
        i = i + 1;
    }
    true
}

/// Whether all items are natural numbers.
pub fn are_all_naturals(items: &Vec<Json>) -> (all: bool)
    ensures
        all == all_naturals(views(items@)),
{
    let mut i: usize = 0;
    while i < items.len()
        invariant
            i <= items@.len(),
            forall|j: int| 0 <= j < i ==> (#[trigger] views(items@)[j]).as_natural() is Some,
        decreases items@.len() - i,
    {
        proof {
            assert(views(items@)[i as int] == items@[i as int]@);
        }
        if items[i].as_u64().is_none() {
            return false;
        }
        i = i + 1;
    }
    true
}

/// Whether all items are lists.
pub fn are_all_lists(items: &Vec<Json>) -> (all: bool)
    ensures
        all == all_lists(views(items@)),
{
    let mut i: usize = 0;
    while i < items.len()
        invariant
            i <= items@.len(),
            forall|j: int| 0 <= j < i ==> (#[trigger] views(items@)[j]) is Array,
        decreases items@.len() - i,
    {
        proof {
            assert(views(items@)[i as int] == items@[i as int]@);
        }
        if !items[i].is_array() {
            return false;
        }
        i = i + 1;
    }
    true
}

/// A token at a place of an input.
pub open spec fn input_token(index: int, item: JsonView) -> Result<u32, Seq<char>> {
    match item.as_natural() {
        None => Err("All items in token ID input must be integers"@),
        Some(n) => if n <= u32::MAX {
            Ok(n as u32)
        } else {
            Err("Token ID at index "@ + decimal(index as nat) + " exceeds u32 range"@)
        },
    }
}

/// The tokens of an input.
pub open spec fn input_tokens(items: Seq<JsonView>) -> Result<Seq<u32>, Seq<char>> {
    if items.len() == 0 {
        Err("Token ID input cannot be empty"@)
    } else {
        collected_at(items, |index: int, item: JsonView| input_token(index, item))
    }
}

/// The tokens of an input.
pub fn parse_token_ids(items: &Vec<Json>) -> (tokens: Result<Vec<u32>, String>)
    ensures
        match tokens {
            Ok(list) => input_tokens(views(items@)) == Ok::<Seq<u32>, Seq<char>>(list@),
            Err(message) => input_tokens(views(items@)) == Err::<Seq<u32>, Seq<char>>(message@),
        },
{
    if items.len() == 0 {
        return Err("Token ID input cannot be empty".to_owned());
    }
    let ghost all = views(items@);
    let ghost read = |index: int, item: JsonView| input_token(index, item);
    let mut list: Vec<u32> = Vec::new();
    let mut i: usize = 0;
    proof {
        assert(all.take(0) =~= Seq::empty());
        assert(list@ =~= Seq::empty());
    }
    while i < items.len()
        invariant
            i <= items@.len(),
            items@.len() > 0,
            all == views(items@),
            read == (|index: int, item: JsonView| input_token(index, item)),
            collected_at(all.take(i as int), read) == Ok::<Seq<u32>, Seq<char>>(list@),
        decreases items@.len() - i,
    {
        proof {
            collected_at_step(all, read, i as int);
        }
        match items[i].as_u64() {
            None => {
                return Err("All items in token ID input must be integers".to_owned());
            },
            Some(raw) => {
                if raw > 0xffff_ffff {
                    return Err(
                        cat3(
                            "Token ID at index ",
                            decimal_usize(i).as_str(),
                            " exceeds u32 range",
                        ),
                    );
                }
                list.push(raw as u32);
            },
        }
        i = i + 1;
    }
    proof {
        assert(all.take(i as int) =~= all);
    }
    Ok(list)
}

/// A text of an embedding input.
pub open spec fn embedding_text(item: JsonView) -> Result<Input, Seq<char>> {
    if is_blank(item->Text_0) {
        Err("Input cannot be empty or whitespace only"@)
    } else {
        Ok(Input::Text(item->Text_0))
    }
}

/// A token list of an embedding input.
pub open spec fn embedding_tokens(item: JsonView) -> Result<Input, Seq<char>> {
    match input_tokens(item->Array_0) {
        Ok(tokens) => Ok(Input::TokenIds(tokens)),
        Err(message) => Err(message),
    }
}

/// The inputs of an embedding request.
pub open spec fn embedding_inputs(value: JsonView) -> Result<Seq<Input>, Seq<char>> {
    match value {
        JsonView::Text(s) => if is_blank(s) {
            Err("Input cannot be empty or whitespace only"@)
        } else {
            Ok(seq![Input::Text(s)])
        },
        JsonView::Array(items) => if items.len() == 0 {
            Err("Input cannot be empty"@)
        } else if all_texts(items) {
            collected(items, |item: JsonView| embedding_text(item))
        } else if all_naturals(items) {
            match input_tokens(items) {
                Ok(tokens) => Ok(seq![Input::TokenIds(tokens)]),
                Err(message) => Err(message),
            }
        } else if all_lists(items) {
            collected(items, |item: JsonView| embedding_tokens(item))
        } else {
            Err("input list must contain only strings, integers, or token id arrays"@)
        },
        _ => Err("input must be a string, list of strings, token ids, or token id batches"@),
    }
}

fn one_input(input: TokenInput) -> (list: Vec<TokenInput>)
    ensures
        inputs_of(list@) == seq![input@],
{
    let mut list: Vec<TokenInput> = Vec::new();
    list.push(input);
    proof {
        assert(inputs_of(list@) =~= seq![input@]);
    }
    list
}

/// The inputs of an embedding request.
pub fn parse_embedding_inputs(value: &Json) -> (inputs: Result<Vec<TokenInput>, String>)
    ensures
        match inputs {
            Ok(list) => embedding_inputs(value@) == Ok::<Seq<Input>, Seq<char>>(
                inputs_of(list@),
            ),
            Err(message) => embedding_inputs(value@) == Err::<Seq<Input>, Seq<char>>(message@),
        },
{
    if let Some(s) = value.as_str() {
        if blank(s) {
            return Err("Input cannot be empty or whitespace only".to_owned());
        }
        return Ok(one_input(TokenInput::Text(s.to_owned())));
    }
    let items = match value.as_array() {
        Some(items) => items,
        None => {
            return Err(
                "input must be a string, list of strings, token ids, or token id batches".to_owned(),
            );
        },
    };
    if items.len() == 0 {
        return Err("Input cannot be empty".to_owned());
    }
    let ghost all = views(items@);
    let mut list: Vec<TokenInput> = Vec::new();
    let mut i: usize = 0;
    proof {
        assert(all.take(0) =~= Seq::empty());
        assert(inputs_of(list@) =~= Seq::empty());
    }
    if are_all_texts(items) {
        let ghost read = |item: JsonView| embedding_text(item);
        while i < items.len()
            invariant
                i <= items@.len(),
                items@.len() > 0,
                all == views(items@),
                value@ == JsonView::Array(all),
                all_texts(all),
                read == (|item: JsonView| embedding_text(item)),
                collected(all.take(i as int), read) == Ok::<Seq<Input>, Seq<char>>(
                    inputs_of(list@),
                ),
            decreases items@.len() - i,
        {
            proof {
                collected_step(all, read, i as int);
                assert(all[i as int] == items@[i as int]@);
                assert(all[i as int] is Text);
            }
            if let Some(s) = items[i].as_str() {
                if blank(s) {
                    return Err("Input cannot be empty or whitespace only".to_owned());
                }
                let ghost before = inputs_of(list@);
                list.push(TokenInput::Text(s.to_owned()));
                proof {
                    assert(inputs_of(list@) =~= before.push(Input::Text(s@)));
                }
            }
            i = i + 1;
        }
        proof {
            assert(all.take(i as int) =~= all);
        }
        return Ok(list);
    }
    if are_all_naturals(items) {
        let tokens = parse_token_ids(items)?;
        return Ok(one_input(TokenInput::TokenIds(tokens)));
    }
    if are_all_lists(items) {
        let ghost read = |item: JsonView| embedding_tokens(item);
        while i < items.len()
            invariant
                i <= items@.len(),
                items@.len() > 0,
                all == views(items@),
                value@ == JsonView::Array(all),
                !all_texts(all),
                !all_naturals(all),
                all_lists(all),
                read == (|item: JsonView| embedding_tokens(item)),
                collected(all.take(i as int), read) == Ok::<Seq<Input>, Seq<char>>(
                    inputs_of(list@),
                ),
            decreases items@.len() - i,
        {
            proof {
                collected_step(all, read, i as int);
                assert(all[i as int] == items@[i as int]@);
                assert(all[i as int] is Array);
            }
            if let Some(token_items) = items[i].as_array() {
                let tokens = parse_token_ids(token_items)?;
                let ghost before = inputs_of(list@);
                list.push(TokenInput::TokenIds(tokens));
                proof {
                    assert(inputs_of(list@) =~= before.push(Input::TokenIds(tokens@)));
                }
            }
            i = i + 1;
        }
        proof {
            assert(all.take(i as int) =~= all);
        }
        return Ok(list);
    }
    Err("input list must contain only strings, integers, or token id arrays".to_owned())
}

/// How many dimensions an embedding request asks for.
pub open spec fn dimensions_in(payload: JsonView) -> Result<usize, Seq<char>> {
    match payload.get("dimensions"@) {
        None => Ok(8),
        Some(value) => match value.as_natural() {
            None => Err("dimensions must be a positive integer"@),
            Some(n) => if n > usize::MAX {
                Err("dimensions exceeds usize range"@)
            } else if n == 0 {
                Err("dimensions must be at least 1"@)
            } else if n > 4096 {
                Err("dimensions must not exceed "@ + decimal(4096))
            } else {
                Ok(n as usize)
            },
        },
    }
}

/// How many dimensions an embedding request asks for.
pub fn parse_dimensions(payload: &Json) -> (dimensions: Result<usize, String>)
    ensures
        crate::payload::reads(dimensions, dimensions_in(payload@)),
        dimensions matches Ok(n) ==> 1 <= n <= MAX_EMBEDDING_DIMENSIONS,
{
    match payload.get("dimensions") {
        None => Ok(DEFAULT_EMBEDDING_DIMENSIONS),
        Some(value) => match value.as_u64() {
            None => Err("dimensions must be a positive integer".to_owned()),
            Some(raw) => {
                if raw > usize::MAX as u64 {
                    return Err("dimensions exceeds usize range".to_owned());
                }
                let dimensions: usize = raw as usize;
                if dimensions == 0 {
                    return Err("dimensions must be at least 1".to_owned());
                }
                if dimensions > MAX_EMBEDDING_DIMENSIONS {
                    return Err(
                        cat2(
                            "dimensions must not exceed ",
                            decimal_usize(MAX_EMBEDDING_DIMENSIONS).as_str(),
                        ),
                    );
                }
                Ok(dimensions)
            },
        },
    }
}

/// An embedding request.
#[derive(Debug)]
pub struct OpenAiEmbeddingRequest {
    pub model: String,
    pub inputs: Vec<TokenInput>,
    pub dimensions: usize,
}

/// What is said of an encoding that is not offered.
pub open spec fn encoding_failure(payload: JsonView) -> Option<Seq<char>> {
    match text_member(payload, "encoding_format"@) {
        Some(format) => if format == "float"@ {
            None
        } else {
            Some("encoding_format must be `float`"@)
        },
        None => None,
    }
}

/// The input of a request.
pub open spec fn input_in(
    payload: JsonView,
    read: spec_fn(JsonView) -> Result<Seq<Input>, Seq<char>>,
) -> Result<Seq<Input>, Seq<char>> {
    match payload.get("input"@) {
        None => Err("missing input"@),
        Some(value) => read(value),
    }
}

/// What an embedding payload asks for: its inputs and the dimensions.
pub open spec fn embedding_request_in(payload: JsonView, served: Seq<char>) -> Result<
    (Seq<Input>, usize),
    Seq<char>,
> {
    let inputs = input_in(payload, |value: JsonView| embedding_inputs(value));
    let dimensions = dimensions_in(payload);
    match either(
        model_failure(payload, served),
        either(failed(inputs), either(failed(dimensions), encoding_failure(payload))),
    ) {
        Some(message) => Err(message),
        None => Ok((inputs->Ok_0, dimensions->Ok_0)),
    }
}

/// What an embedding payload asks for.
pub fn parse_embedding_request(payload: &Json, served_model_name: &str) -> (request: Result<
    OpenAiEmbeddingRequest,
    String,
>)
    ensures
        match request {
            Ok(made) => embedding_request_in(payload@, served_model_name@) == Ok::<
                (Seq<Input>, usize),
                Seq<char>,
            >((inputs_of(made.inputs@), made.dimensions)) && made.model@ == served_model_name@
                && 1 <= made.dimensions <= MAX_EMBEDDING_DIMENSIONS,
            Err(message) => embedding_request_in(payload@, served_model_name@) == Err::<
                (Seq<Input>, usize),
                Seq<char>,
            >(message@),
        },
{
    check_model(payload, served_model_name)?;
    let input = match payload.get("input") {
        Some(value) => value,
        None => {
            return Err("missing input".to_owned());
        },
    };
    let inputs = parse_embedding_inputs(input)?;
    let dimensions: usize = parse_dimensions(payload)?;
    if let Some(format) = crate::http_inputs::get_text(payload, "encoding_format") {
        if !same_text(format, "float") {
            return Err("encoding_format must be `float`".to_owned());
        }
    }
    Ok(OpenAiEmbeddingRequest { model: served_model_name.to_owned(), inputs, dimensions })
}

/// A text of a classification input.
pub open spec fn classify_text(index: int, item: JsonView) -> Result<Input, Seq<char>> {
    if is_blank(item->Text_0) {
        Err("Input at index "@ + decimal(index as nat) + " cannot be empty or whitespace only"@)
    } else {
        Ok(Input::Text(item->Text_0))
    }
}

/// The inputs of a classification request.
pub open spec fn classify_inputs(value: JsonView) -> Result<Seq<Input>, Seq<char>> {
    match value {
        JsonView::Text(s) => if is_blank(s) {
            Err("Input cannot be empty or whitespace only"@)
        } else {
            Ok(seq![Input::Text(s)])
        },
        JsonView::Array(items) => if items.len() == 0 {
            Err("Input cannot be empty"@)
        } else if all_texts(items) {
            collected_at(items, |index: int, item: JsonView| classify_text(index, item))
        } else if all_naturals(items) {
            match input_tokens(items) {
                Ok(tokens) => Ok(seq![Input::TokenIds(tokens)]),
                Err(message) => Err(message),
            }
        } else {
            Err("input list must contain only strings or integers"@)
        },
        _ => Err("input must be a string, list of strings, or token ids"@),
    }
}

/// The inputs of a classification request.
pub fn parse_classify_inputs(value: &Json) -> (inputs: Result<Vec<TokenInput>, String>)
    ensures
        match inputs {
            Ok(list) => classify_inputs(value@) == Ok::<Seq<Input>, Seq<char>>(inputs_of(list@)),
            Err(message) => classify_inputs(value@) == Err::<Seq<Input>, Seq<char>>(message@),
        },
{
    if let Some(s) = value.as_str() {
        if blank(s) {
            return Err("Input cannot be empty or whitespace only".to_owned());
        }
        return Ok(one_input(TokenInput::Text(s.to_owned())));
    }
    let items = match value.as_array() {
        Some(items) => items,
        None => {
            return Err("input must be a string, list of strings, or token ids".to_owned());
        },
    };
    if items.len() == 0 {
        return Err("Input cannot be empty".to_owned());
    }
    let ghost all = views(items@);
    if are_all_texts(items) {
        let ghost read = |index: int, item: JsonView| classify_text(index, item);
        let mut list: Vec<TokenInput> = Vec::new();
        let mut i: usize = 0;
        proof {
            assert(all.take(0) =~= Seq::empty());
            assert(inputs_of(list@) =~= Seq::empty());
        }
        while i < items.len()
            invariant
                i <= items@.len(),
                items@.len() > 0,
                all == views(items@),
                value@ == JsonView::Array(all),
                all_texts(all),
                read == (|index: int, item: JsonView| classify_text(index, item)),
                collected_at(all.take(i as int), read) == Ok::<Seq<Input>, Seq<char>>(
                    inputs_of(list@),
                ),
            decreases items@.len() - i,
        {
            proof {
                collected_at_step(all, read, i as int);
                assert(all[i as int] == items@[i as int]@);
                assert(all[i as int] is Text);
            }
            if let Some(s) = items[i].as_str() {
                if blank(s) {
                    return Err(
                        cat3(
                            "Input at index ",
                            decimal_usize(i).as_str(),
                            " cannot be empty or whitespace only",
                        ),
                    );
                }
                let ghost before = inputs_of(list@);
                list.push(TokenInput::Text(s.to_owned()));
                proof {
                    assert(inputs_of(list@) =~= before.push(Input::Text(s@)));
                }
            }
            i = i + 1;
        }
        proof {
            assert(all.take(i as int) =~= all);
        }
        return Ok(list);
    }
    if are_all_naturals(items) {
        let tokens = parse_token_ids(items)?;
        return Ok(one_input(TokenInput::TokenIds(tokens)));
    }
    Err("input list must contain only strings or integers".to_owned())
}

/// A classification request.
#[derive(Debug)]
pub struct OpenAiClassifyRequest {
    pub model: String,
    pub inputs: Vec<TokenInput>,
}

/// What a classification payload asks for.
pub open spec fn classify_request_in(payload: JsonView, served: Seq<char>) -> Result<
    Seq<Input>,
    Seq<char>,
> {
    let inputs = input_in(payload, |value: JsonView| classify_inputs(value));
    match either(model_failure(payload, served), failed(inputs)) {
        Some(message) => Err(message),
        None => inputs,
    }
}

/// What a classification payload asks for.
pub fn parse_classify_request(payload: &Json, served_model_name: &str) -> (request: Result<
    OpenAiClassifyRequest,
    String,
>)
    ensures
        match request {
            Ok(made) => classify_request_in(payload@, served_model_name@) == Ok::<
                Seq<Input>,
                Seq<char>,
            >(inputs_of(made.inputs@)) && made.model@ == served_model_name@,
            Err(message) => classify_request_in(payload@, served_model_name@) == Err::<
                Seq<Input>,
                Seq<char>,
            >(message@),
        },
{
    check_model(payload, served_model_name)?;
    let input = match payload.get("input") {
        Some(value) => value,
        None => {
            return Err("missing input".to_owned());
        },
    };
    let inputs = parse_classify_inputs(input)?;
    Ok(OpenAiClassifyRequest { model: served_model_name.to_owned(), inputs })
}

/// A number that is mixed from another, so that near numbers fall far apart.
pub open spec fn mixed(value: u64) -> u64 {
    let start = ((value + 0x9E37_79B9_7F4A_7C15) % 0x1_0000_0000_0000_0000) as u64;
    let once = (((start ^ (start >> 30)) * 0xBF58_476D_1CE4_E5B9) % 0x1_0000_0000_0000_0000) as u64;
    let twice = (((once ^ (once >> 27)) * 0x94D0_49BB_1331_11EB) % 0x1_0000_0000_0000_0000) as u64;
    twice ^ (twice >> 31)
}

/// A number that is mixed from another, so that near numbers fall far apart.
pub fn splitmix64(value: u64) -> (hash: u64)
    ensures
        hash == mixed(value),
{
    let start: u64 = value.wrapping_add(0x9E37_79B9_7F4A_7C15);
    let once: u64 = (start ^ (start >> 30)).wrapping_mul(0xBF58_476D_1CE4_E5B9);
    let twice: u64 = (once ^ (once >> 27)).wrapping_mul(0x94D0_49BB_1331_11EB);
    twice ^ (twice >> 31)
}

/// What a token adds to an embedding: to which dimension, whether it is taken off, and how many
/// 997ths beyond a thousandth.
#[derive(Clone, Copy, Debug, PartialEq, Eq, Structural)]
pub struct EmbeddingShare {
    pub index: usize,
    pub negative: bool,
    pub numerator: u32,
}

/// What the token at a place adds to an embedding of `dimensions` dimensions.
pub fn embedding_share(token_id: u32, position: u64, dimensions: usize) -> (share: EmbeddingShare)
    requires
        dimensions > 0,
    ensures
        ({
            let hash = mixed((token_id as u64) ^ (position << 32u64));
            &&& share.index == (hash as usize) % dimensions
            &&& share.index < dimensions
            &&& share.negative == ((hash >> 63u64) != 0)
            &&& share.numerator == ((hash >> 16u64) % 0x1_0000_0000u64) % 997
        }),
{
    let hash: u64 = splitmix64((token_id as u64) ^ (position << 32));
    let index: usize = (hash as usize) % dimensions;
    let low: u64 = (hash >> 16) % 0x1_0000_0000;
    EmbeddingShare {
        index,
        negative: (hash >> 63) != 0,
        numerator: (low % 997) as u32,
    }
}

/// An embedding, and how many tokens it was made from. The values are given by their bits.
#[derive(Debug)]
pub struct EmbeddingOutput {
    pub embedding: Vec<u64>,
    pub prompt_tokens: usize,
}

/// The sum of the tokens of several embeddings.
pub open spec fn embedding_tokens_sum(outputs: Seq<EmbeddingOutput>) -> nat
    decreases outputs.len(),
{
    if outputs.len() == 0 {
        0
    } else {
        embedding_tokens_sum(outputs.drop_last()) + outputs.last().prompt_tokens as nat
    }
}

/// A list of binary64 values, given by their bits.
pub open spec fn float_array(bits: Seq<u64>) -> JsonView {
    JsonView::Array(bits.map_values(|value: u64| JsonView::Number(JsonNumber::Float(value))))
}

/// A list of binary64 values, given by their bits.
pub fn float_array_json(bits: &Vec<u64>) -> (json: Json)
    ensures
        json@ == float_array(bits@),
{
    let mut items: Vec<Json> = Vec::new();
    let mut i: usize = 0;
    while i < bits.len()
        invariant
            i <= bits@.len(),
            items@.len() == i,
            forall|j: int|
                0 <= j < i ==> (#[trigger] items@[j])@ == JsonView::Number(
                    JsonNumber::Float(bits@[j]),
                ),
        decreases bits@.len() - i,
    {
        items.push(Json::Number(JsonNumber::Float(bits[i])));
        i = i + 1;
    }
    proof {
        assert(views(items@) =~= float_array(bits@)->Array_0);
    }
    Json::array(items)
}

proof fn lemma_embedding_sum(outputs: Seq<EmbeddingOutput>, i: int)
    requires
        0 <= i <= outputs.len(),
    ensures
        embedding_tokens_sum(outputs.take(i)) <= embedding_tokens_sum(outputs),
    decreases outputs.len() - i,
{
    if i < outputs.len() {
        assert(outputs.take(i + 1).drop_last() =~= outputs.take(i));
        lemma_embedding_sum(outputs, i + 1);
    } else {
        assert(outputs.take(i) =~= outputs);
    }
}

/// The answer to an embedding request.
pub fn embeddings_response_json(model: &str, outputs: &Vec<EmbeddingOutput>) -> (json: Json)
    requires
        embedding_tokens_sum(outputs@) <= usize::MAX,
    ensures
        json@ == empty_object().with("object"@, text("list"@)).with("model"@, text(model@)).with(
            "data"@,
            JsonView::Array(
                Seq::new(
                    outputs@.len(),
                    |i: int|
                        empty_object().with("object"@, text("embedding"@)).with(
                            "embedding"@,
                            float_array(outputs@[i].embedding@),
                        ).with("index"@, number(i)),
                ),
            ),
        ).with(
            "usage"@,
            empty_object().with(
                "prompt_tokens"@,
                number(embedding_tokens_sum(outputs@) as int),
            ).with("total_tokens"@, number(embedding_tokens_sum(outputs@) as int)),
        ),
{
    let ghost wanted = Seq::new(
        outputs@.len(),
        |i: int|
            empty_object().with("object"@, text("embedding"@)).with(
                "embedding"@,
                float_array(outputs@[i].embedding@),
            ).with("index"@, number(i)),
    );
    let mut data: Vec<Json> = Vec::new();
    let mut prompt_tokens: usize = 0;
    let mut i: usize = 0;
    proof {
        assert(outputs@.take(0) =~= Seq::empty());
    }
    while i < outputs.len()
        invariant
            i <= outputs@.len(),
            embedding_tokens_sum(outputs@) <= usize::MAX,
            prompt_tokens == embedding_tokens_sum(outputs@.take(i as int)),
            wanted == Seq::new(
                outputs@.len(),
                |i: int|
                    empty_object().with("object"@, text("embedding"@)).with(
                        "embedding"@,
                        float_array(outputs@[i].embedding@),
                    ).with("index"@, number(i)),
            ),
            data@.len() == i,
            forall|j: int| 0 <= j < i ==> (#[trigger] data@[j])@ == wanted[j],
        decreases outputs@.len() - i,
    {
        proof {
            assert(outputs@.take(i + 1).drop_last() =~= outputs@.take(i as int));
            lemma_embedding_sum(outputs@, i + 1);
        }
        let output = &outputs[i];
        prompt_tokens = prompt_tokens + output.prompt_tokens;
        data.push(
            Json::object().with("object", Json::text("embedding")).with(
                "embedding",
                float_array_json(&output.embedding),
            ).with("index", Json::natural(i as u64)),
        );
        i = i + 1;
    }
    proof {
        assert(outputs@.take(i as int) =~= outputs@);
        assert(views(data@) =~= wanted);
    }
    Json::object().with("object", Json::text("list")).with("model", Json::text(model)).with(
        "data",
        Json::array(data),
    ).with(
        "usage",
        Json::object().with("prompt_tokens", Json::natural(prompt_tokens as u64)).with(
            "total_tokens",
            Json::natural(prompt_tokens as u64),
        ),
    )
}

} // verus!
