//! Rerank requests, and the order of their documents.
use vstd::prelude::*;
use vstd::string::*;

use crate::http_inputs::{get_text, lines_of, text_member};
use crate::http_maintenance::{blank, is_blank};
use crate::http_requests::{check_model, model_failure, or_default};
use crate::http_service::{number, text};
use crate::json::{empty_object, views, Json, JsonNumber, JsonView};
use crate::payload::{
    collected, collected_step, either, failed, flag_in, optional_bool, reads, reads_text,
};
use crate::text::{cat2, cat3, same_text, texts};

verus! {

/// The text of a part of a content.
pub open spec fn rerank_part(part: JsonView, field: Seq<char>) -> Result<Seq<char>, Seq<char>> {
    match part {
        JsonView::Text(s) => Ok(s),
        JsonView::Object(members) => {
            let kind = text_member(part, "type"@);
            if (kind is None || kind->0 == "text"@) && text_member(part, "text"@) is Some {
                Ok(text_member(part, "text"@)->0)
            } else {
                Err(field + " only supports text content in the Rust rerank worker"@)
            }
        },
        _ => Err(field + " must be a string or an array of text content parts"@),
    }
}

/// The text of a content.
pub open spec fn rerank_content(value: JsonView, field: Seq<char>) -> Result<Seq<char>, Seq<char>> {
    match value {
        JsonView::Text(s) => Ok(s),
        JsonView::Array(parts) => match collected(
            parts,
            |part: JsonView| rerank_part(part, field),
        ) {
            Err(message) => Err(message),
            Ok(list) => if list.len() == 0 {
                Err(field + " must include at least one text content part"@)
            } else {
                Ok(lines_of(list))
            },
        },
        _ => Err(field + " must be a string or an array of text content parts"@),
    }
}

fn rerank_part_text(part: &Json, field: &str) -> (content: Result<String, String>)
    ensures
        reads_text(content, rerank_part(part@, field@)),
{
    if let Some(s) = part.as_str() {
        return Ok(s.to_owned());
    }
    if part.is_object() {
        let is_text = match get_text(part, "type") {
            Some(kind) => same_text(kind, "text"),
            None => true,
        };
        if is_text {
            if let Some(s) = get_text(part, "text") {
                return Ok(s.to_owned());
            }
        }
        return Err(cat2(field, " only supports text content in the Rust rerank worker"));
    }
    Err(cat2(field, " must be a string or an array of text content parts"))
}

/// The text of a content.
pub fn rerank_content_to_text(value: &Json, field: &str) -> (content: Result<String, String>)
    ensures
        reads_text(content, rerank_content(value@, field@)),
{
    if let Some(s) = value.as_str() {
        return Ok(s.to_owned());
    }
    let parts = match value.as_array() {
        Some(parts) => parts,
        None => {
            return Err(cat2(field, " must be a string or an array of text content parts"));
        },
    };
    let ghost all = views(parts@);
    let ghost read = |part: JsonView| rerank_part(part, field@);
    let ghost mut list: Seq<Seq<char>> = Seq::empty();
    let mut joined = String::new();
    let mut i: usize = 0;
    proof {
        assert(all.take(0) =~= Seq::empty());
        assert(joined@ =~= Seq::empty());
    }
    while i < parts.len()
        invariant
            i <= parts@.len(),
            all == views(parts@),
            value@ == JsonView::Array(all),
            read == (|part: JsonView| rerank_part(part, field@)),
            collected(all.take(i as int), read) == Ok::<Seq<Seq<char>>, Seq<char>>(list),
            list.len() == i,
            joined@ == lines_of(list),
        decreases parts@.len() - i,
    {
        proof {
            collected_step(all, read, i as int);
        }
        let part_text = rerank_part_text(&parts[i], field)?;
        if i == 0 {
            joined = part_text.clone();
        } else {
            joined.append("\n");
            joined.append(part_text.as_str());
        }
        proof {
            let after = list.push(part_text@);
            assert(after.drop_last() =~= list);
            list = after;
        }
        i = i + 1;
    }
    proof {
        assert(all.take(i as int) =~= all);
    }
    if parts.len() == 0 {
        return Err(cat2(field, " must include at least one text content part"));
    }
    Ok(joined)
}

/// A positive size of a field that may be missing.
pub open spec fn positive_in(payload: JsonView, field: Seq<char>) -> Result<
    Option<usize>,
    Seq<char>,
> {
    match payload.get(field) {
        None => Ok(None),
        Some(value) => match value.as_natural() {
            None => Err(field + " must be a positive integer"@),
            Some(n) => if n == 0 {
                Err(field + " must be at least 1"@)
            } else if n > usize::MAX {
                Err(field + " exceeds usize range"@)
            } else {
                Ok(Some(n as usize))
            },
        },
    }
}

/// A positive size of a field that may be missing.
pub fn optional_positive_usize(payload: &Json, field: &str) -> (size: Result<
    Option<usize>,
    String,
>)
    ensures
        reads(size, positive_in(payload@, field@)),
{
    match payload.get(field) {
        None => Ok(None),
        Some(value) => match value.as_u64() {
            None => Err(cat2(field, " must be a positive integer")),
            Some(n) => {
                if n == 0 {
                    return Err(cat2(field, " must be at least 1"));
                }
                if n > usize::MAX as u64 {
                    return Err(cat2(field, " exceeds usize range"));
                }
                Ok(Some(n as usize))
            },
        },
    }
}

/// A rerank request.
#[derive(Debug)]
pub struct OpenAiRerankRequest {
    pub query: String,
    pub documents: Vec<String>,
    pub top_k: Option<usize>,
    pub return_documents: bool,
}

/// What an [`OpenAiRerankRequest`] says.
pub struct Rerank {
    pub query: Seq<char>,
    pub documents: Seq<Seq<char>>,
    pub top_k: Option<usize>,
    pub return_documents: bool,
}

impl View for OpenAiRerankRequest {
    type V = Rerank;

    open spec fn view(&self) -> Rerank {
        Rerank {
            query: self.query@,
            documents: texts(self.documents@),
            top_k: self.top_k,
            return_documents: self.return_documents,
        }
    }
}

/// The query of a rerank payload, after its instruction.
pub open spec fn query_in(payload: JsonView) -> Result<Seq<char>, Seq<char>> {
    match payload.get("query"@) {
        None => Err("missing query"@),
        Some(value) => match rerank_content(value, "query"@) {
            Err(message) => Err(message),
            Ok(content) => {
                let query = match text_member(payload, "instruct"@) {
                    Some(instruct) => if is_blank(instruct) {
                        content
                    } else {
                        instruct + "\n"@ + content
                    },
                    None => content,
                };
                if is_blank(query) {
                    Err("Query cannot be empty or whitespace only"@)
                } else {
                    Ok(query)
                }
            },
        },
    }
}

/// A document of a rerank payload.
pub open spec fn document_of(value: JsonView) -> Result<Seq<char>, Seq<char>> {
    match rerank_content(value, "documents"@) {
        Err(message) => Err(message),
        Ok(content) => if is_blank(content) {
            Err("Each document cannot be empty or whitespace only"@)
        } else {
            Ok(content)
        },
    }
}

/// The documents of a rerank payload.
pub open spec fn documents_in(payload: JsonView) -> Result<Seq<Seq<char>>, Seq<char>> {
    let value = payload.get("documents"@);
    if value is None || value->0.as_items() is None {
        Err("documents must be an array"@)
    } else if value->0.as_items()->0.len() == 0 {
        Err("Documents cannot be empty"@)
    } else {
        collected(value->0.as_items()->0, |document: JsonView| document_of(document))
    }
}

/// What a rerank payload asks for. The newer name of the limit counts where both are given.
pub open spec fn rerank_in(payload: JsonView, served: Seq<char>) -> Result<Rerank, Seq<char>> {
    let query = query_in(payload);
    let documents = documents_in(payload);
    let top_k = positive_in(payload, "top_k"@);
    let top_n = positive_in(payload, "top_n"@);
    let return_documents = flag_in(payload, "return_documents"@);
    match either(
        model_failure(payload, served),
        either(
            failed(query),
            either(
                failed(documents),
                either(failed(top_k), either(failed(top_n), failed(return_documents))),
            ),
        ),
    ) {
        Some(message) => Err(message),
        None => Ok(
            Rerank {
                query: query->Ok_0,
                documents: documents->Ok_0,
                top_k: if top_k->Ok_0 is Some {
                    top_k->Ok_0
                } else {
                    top_n->Ok_0
                },
                return_documents: or_default(return_documents->Ok_0, true),
            },
        ),
    }
}

fn read_documents(items: &Vec<Json>) -> (documents: Result<Vec<String>, String>)
    ensures
        match documents {
            Ok(list) => collected(views(items@), |document: JsonView| document_of(document))
                == Ok::<Seq<Seq<char>>, Seq<char>>(texts(list@)),
            Err(message) => collected(views(items@), |document: JsonView| document_of(document))
                == Err::<Seq<Seq<char>>, Seq<char>>(message@),
        },
{
    let ghost all = views(items@);
    let ghost read = |document: JsonView| document_of(document);
    let mut list: Vec<String> = Vec::new();
    let mut i: usize = 0;
    proof {
        assert(all.take(0) =~= Seq::empty());
        assert(texts(list@) =~= Seq::empty());
    }
    while i < items.len()
        invariant
            i <= items@.len(),
            all == views(items@),
            read == (|document: JsonView| document_of(document)),
            collected(all.take(i as int), read) == Ok::<Seq<Seq<char>>, Seq<char>>(texts(list@)),
        decreases items@.len() - i,
    {
        proof {
            collected_step(all, read, i as int);
        }
        let document = rerank_content_to_text(&items[i], "documents")?;
        if blank(document.as_str()) {
            return Err("Each document cannot be empty or whitespace only".to_owned());
        }
        let ghost before = texts(list@);
        list.push(document);
        proof {
            assert(texts(list@) =~= before.push(document@));
        }
        i = i + 1;
    }
    proof {
        assert(all.take(i as int) =~= all);
    }
    Ok(list)
}

/// What a rerank payload asks for.
pub fn parse_rerank_request(payload: &Json, served_model_name: &str) -> (request: Result<
    OpenAiRerankRequest,
    String,
>)
    ensures
        match request {
            Ok(made) => rerank_in(payload@, served_model_name@) == Ok::<Rerank, Seq<char>>(made@),
            Err(message) => rerank_in(payload@, served_model_name@) == Err::<Rerank, Seq<char>>(
                message@,
            ),
        },
{
    check_model(payload, served_model_name)?;
    let mut query = match payload.get("query") {
        Some(value) => rerank_content_to_text(value, "query")?,
        None => {
            return Err("missing query".to_owned());
        },
    };
    if let Some(instruct) = get_text(payload, "instruct") {
        if !blank(instruct) {
            query = cat3(instruct, "\n", query.as_str());
        }
    }
    if blank(query.as_str()) {
        return Err("Query cannot be empty or whitespace only".to_owned());
    }
    let items = match payload.get("documents") {
        Some(value) => match value.as_array() {
            Some(items) => items,
            None => {
                return Err("documents must be an array".to_owned());
            },
        },
        None => {
            return Err("documents must be an array".to_owned());
        },
    };
    if items.len() == 0 {
        return Err("Documents cannot be empty".to_owned());
    }
    let documents = read_documents(items)?;
    let top_k = optional_positive_usize(payload, "top_k")?;
    let top_n = optional_positive_usize(payload, "top_n")?;
    let return_documents = match optional_bool(payload, "return_documents")? {
        Some(flag) => flag,
        None => true,
    };
    Ok(
        OpenAiRerankRequest {
            query,
            documents,
            top_k: if top_k.is_some() {
                top_k
            } else {
                top_n
            },
            return_documents,
        },
    )
}

/// A document and its score. The score is a binary64 value that is not negative, given by its
/// bits, which are ordered as the values are.
#[derive(Debug)]
pub struct OpenAiRerankResult {
    pub score: u64,
    pub document: String,
    pub index: usize,
}

/// Whether `a` ranks before `b`: by its score, then by its place.
pub open spec fn ranks_before(a: OpenAiRerankResult, b: OpenAiRerankResult) -> bool {
    a.score > b.score || (a.score == b.score && a.index < b.index)
}

/// The results with `result` put behind those that it does not rank before.
pub open spec fn ranked_with(
    results: Seq<OpenAiRerankResult>,
    result: OpenAiRerankResult,
) -> Seq<OpenAiRerankResult>
    decreases results.len(),
{
    if results.len() == 0 {
        seq![result]
    } else if ranks_before(result, results.last()) {
        ranked_with(results.drop_last(), result).push(results.last())
    } else {
        results.push(result)
    }
}

/// The results in the order of their ranks.
pub open spec fn ranked(results: Seq<OpenAiRerankResult>) -> Seq<OpenAiRerankResult>
    decreases results.len(),
{
    if results.len() == 0 {
        Seq::empty()
    } else {
        ranked_with(ranked(results.drop_last()), results.last())
    }
}

/// Whether no result ranks before an earlier one.
pub open spec fn in_rank_order(results: Seq<OpenAiRerankResult>) -> bool {
    forall|i: int, j: int|
        0 <= i < j < results.len() ==> !ranks_before(#[trigger] results[j], #[trigger] results[i])
}

proof fn lemma_ranked_with(results: Seq<OpenAiRerankResult>, result: OpenAiRerankResult)
    requires
        in_rank_order(results),
    ensures
        in_rank_order(ranked_with(results, result)),
        ranked_with(results, result).to_multiset() == results.to_multiset().insert(result),
        ranked_with(results, result).len() == results.len() + 1,
        forall|i: int|
            0 <= i < ranked_with(results, result).len() ==> (#[trigger] ranked_with(
                results,
                result,
            )[i] == result || results.contains(ranked_with(results, result)[i])),
    decreases results.len(),
{
    broadcast use vstd::seq_lib::group_to_multiset_ensures;

    let made = ranked_with(results, result);
    if results.len() == 0 {
        assert(made =~= Seq::<OpenAiRerankResult>::empty().push(result));
        assert(results =~= Seq::empty());
    } else if !ranks_before(result, results.last()) {
        assert forall|i: int, j: int| 0 <= i < j < made.len() implies !ranks_before(
            #[trigger] made[j],
            #[trigger] made[i],
        ) by {
            let n = results.len() - 1;
            if j < results.len() {
                assert(!ranks_before(results[j], results[i]));
            } else if i < n {
                assert(!ranks_before(results[n], results[i]));
            }
        }
    } else {
        let front = results.drop_last();
        let last = results.last();
        lemma_ranked_with(front, result);
        let inner = ranked_with(front, result);
        assert(results =~= front.push(last));
        assert(results.to_multiset() == front.to_multiset().insert(last));
        assert(made.to_multiset() == inner.to_multiset().insert(last));
        assert(front.to_multiset().insert(result).insert(last) =~= front.to_multiset().insert(
            last,
        ).insert(result));
        assert forall|i: int| 0 <= i < inner.len() implies !ranks_before(
            last,
            #[trigger] inner[i],
        ) by {
            if inner[i] != result {
                let k = choose|k: int| 0 <= k < front.len() && front[k] == inner[i];
                assert(!ranks_before(results[results.len() - 1], results[k]));
            }
        }
        assert forall|i: int, j: int| 0 <= i < j < made.len() implies !ranks_before(
            #[trigger] made[j],
            #[trigger] made[i],
        ) by {
            assert(made[i] == inner[i]);
            if j < inner.len() {
                assert(made[j] == inner[j]);
            }
        }
        assert forall|i: int| 0 <= i < made.len() implies (#[trigger] made[i] == result
            || results.contains(made[i])) by {
            if i < inner.len() {
                assert(made[i] == inner[i]);
                if inner[i] != result {
                    let k = choose|k: int| 0 <= k < front.len() && front[k] == inner[i];
                    assert(results[k] == inner[i]);
                }
            } else {
                assert(results[results.len() - 1] == made[i]);
            }
        }
    }
}

/// Ranking puts the best results first and loses none.
pub proof fn ranking_orders_results(results: Seq<OpenAiRerankResult>)
    ensures
        in_rank_order(ranked(results)),
        ranked(results).to_multiset() == results.to_multiset(),
        ranked(results).len() == results.len(),
    decreases results.len(),
{
    broadcast use vstd::seq_lib::group_to_multiset_ensures;

    if results.len() > 0 {
        let front = results.drop_last();
        ranking_orders_results(front);
        lemma_ranked_with(ranked(front), results.last());
        assert(results =~= front.push(results.last()));
    } else {
        assert(results =~= Seq::empty());
    }
}

fn rank_result(results: Vec<OpenAiRerankResult>, result: OpenAiRerankResult) -> (all: Vec<
    OpenAiRerankResult,
>)
    ensures
        all@ == ranked_with(results@, result),
    decreases results@.len(),
{
    let mut rest = results;
    match rest.pop() {
        None => {
            let mut all: Vec<OpenAiRerankResult> = Vec::new();
            all.push(result);
            proof {
                assert(all@ =~= seq![result]);
            }
            all
        },
        Some(last) => {
            proof {
                assert(rest@ =~= results@.drop_last());
            }
            if result.score > last.score || (result.score == last.score && result.index
                < last.index) {
                let mut all = rank_result(rest, result);
                all.push(last);
                all
            } else {
                rest.push(last);
                rest.push(result);
                proof {
                    assert(rest@ =~= results@.push(result));
                }
                rest
            }
        },
    }
}

/// The documents with their scores, the best first. There is one score for each document.
pub fn rank_documents(documents: &Vec<String>, scores: &Vec<u64>) -> (results: Vec<
    OpenAiRerankResult,
>)
    requires
        documents@.len() == scores@.len(),
    ensures
        exists|listed: Seq<OpenAiRerankResult>|
            {
                &&& listed.len() == documents@.len()
                &&& forall|i: int|
                    0 <= i < listed.len() ==> (#[trigger] listed[i]).score == scores@[i]
                        && listed[i].document@ == documents@[i]@ && listed[i].index == i
                &&& results@ == ranked(listed)
            },
{
    let ghost mut listed: Seq<OpenAiRerankResult> = Seq::empty();
    let mut results: Vec<OpenAiRerankResult> = Vec::new();
    let mut i: usize = 0;
    while i < documents.len()
        invariant
            i <= documents@.len(),
            documents@.len() == scores@.len(),
            listed.len() == i,
            forall|j: int|
                0 <= j < listed.len() ==> (#[trigger] listed[j]).score == scores@[j]
                    && listed[j].document@ == documents@[j]@ && listed[j].index == j,
            results@ == ranked(listed),
        decreases documents@.len() - i,
    {
        let result = OpenAiRerankResult {
            score: scores[i],
            document: documents[i].clone(),
            index: i,
        };
        results = rank_result(results, result);
        proof {
            let after = listed.push(result);
            assert(after.drop_last() =~= listed);
            listed = after;
        }
        i = i + 1;
    }
    results
}

/// Keeps the best results, where a limit was asked for.
pub fn truncate_rerank_results(top_k: Option<usize>, results: &mut Vec<OpenAiRerankResult>)
    ensures
        final(results)@ == (match top_k {
            Some(limit) => if limit < old(results)@.len() {
                old(results)@.take(limit as int)
            } else {
                old(results)@
            },
            None => old(results)@,
        }),
{
    if let Some(limit) = top_k {
        if limit < results.len() {
            results.truncate(limit);
        }
    }
}

/// One result as it is told.
pub open spec fn result_body(result: OpenAiRerankResult, return_documents: bool) -> JsonView {
    let head = empty_object().with("score"@, JsonView::Number(JsonNumber::Float(result.score)));
    if return_documents {
        head.with("document"@, text(result.document@)).with("index"@, number(result.index as int))
    } else {
        head.with("index"@, number(result.index as int))
    }
}

/// The answer to a rerank request.
pub fn rerank_results_to_json(return_documents: bool, results: &Vec<OpenAiRerankResult>) -> (json:
    Json)
    ensures
        json@ == JsonView::Array(
            results@.map_values(|result: OpenAiRerankResult| result_body(result, return_documents)),
        ),
{
    let ghost wanted = results@.map_values(
        |result: OpenAiRerankResult| result_body(result, return_documents),
    );
    let mut items: Vec<Json> = Vec::new();
    let mut i: usize = 0;
    while i < results.len()
        invariant
            i <= results@.len(),
            items@.len() == i,
            wanted == results@.map_values(
                |result: OpenAiRerankResult| result_body(result, return_documents),
            ),
            forall|j: int| 0 <= j < i ==> (#[trigger] items@[j])@ == wanted[j],
        decreases results@.len() - i,
    {
        let result = &results[i];
        let head = Json::object().with("score", Json::Number(JsonNumber::Float(result.score)));
        let item = if return_documents {
            head.with("document", Json::text(result.document.as_str())).with(
                "index",
                Json::natural(result.index as u64),
            )
        } else {
            head.with("index", Json::natural(result.index as u64))
        };
        items.push(item);
        i = i + 1;
    }
    proof {
        assert(views(items@) =~= wanted);
    }
    Json::array(items)
}

/// The tokens of a list, each once.
fn distinct(tokens: &Vec<u32>) -> (unique: Vec<u32>)
    ensures
        unique@.no_duplicates(),
        unique@.to_set() == tokens@.to_set(),
{
    let mut unique: Vec<u32> = Vec::new();
    let mut i: usize = 0;
    proof {
        assert(tokens@.take(0).to_set() =~= unique@.to_set());
    }
    while i < tokens.len()
        invariant
            i <= tokens@.len(),
            unique@.no_duplicates(),
            unique@.to_set() == tokens@.take(i as int).to_set(),
        decreases tokens@.len() - i,
    {
        let token: u32 = tokens[i];
        let known = holds(&unique, token);
        let ghost before = unique@;
        if !known {
            unique.push(token);
        }
        proof {
            let after = tokens@.take(i + 1);
            assert(after =~= tokens@.take(i as int).push(token));
            assert forall|t: u32| unique@.to_set().contains(t) == after.to_set().contains(t) by {
                assert(before.to_set().contains(t) == tokens@.take(i as int).to_set().contains(t));
                if after.contains(t) {
                    let k = choose|k: int| 0 <= k < after.len() && after[k] == t;
                    if k < i {
                        assert(tokens@.take(i as int)[k] == t);
                        assert(before.contains(t));
                        let m = choose|m: int| 0 <= m < before.len() && before[m] == t;
                        assert(unique@[m] == t);
                    } else if !known {
                        assert(unique@[before.len() as int] == t);
                    }
                }
                if unique@.contains(t) {
                    let m = choose|m: int| 0 <= m < unique@.len() && unique@[m] == t;
                    if m < before.len() {
                        assert(before[m] == t);
                        assert(tokens@.take(i as int).contains(t));
                        let k = choose|k: int| 0 <= k < i && tokens@.take(i as int)[k] == t;
                        assert(after[k] == t);
                    } else {
                        assert(after[i as int] == t);
                    }
                }
            }
            assert(unique@.to_set() =~= after.to_set());
        }
        i = i + 1;
    }
    proof {
        assert(tokens@.take(i as int) =~= tokens@);
    }
    unique
}

fn holds(list: &Vec<u32>, token: u32) -> (held: bool)
    ensures
        held == list@.contains(token),
{
    let mut i: usize = 0;
    while i < list.len()
        invariant
            i <= list@.len(),
            forall|j: int| 0 <= j < i ==> #[trigger] list@[j] != token,
        decreases list@.len() - i,
    {
        if list[i] == token {
            proof {
                assert(list@[i as int] == token);
            }
            return true;
        }
        i = i + 1;
    }
    false
}

/// How many tokens two texts have in common, and how many they have together.
pub fn overlap(query: &Vec<u32>, document: &Vec<u32>) -> (counts: (usize, usize))
    requires
        query@.to_set().union(document@.to_set()).len() <= usize::MAX,
    ensures
        counts.0 == query@.to_set().intersect(document@.to_set()).len(),
        counts.1 == query@.to_set().union(document@.to_set()).len(),
        counts.0 <= counts.1,
{
    let left = distinct(query);
    let right = distinct(document);
    let ghost a = left@.to_set();
    let ghost b = right@.to_set();
    proof {
        left@.unique_seq_to_set();
        right@.unique_seq_to_set();
        vstd::set_lib::lemma_set_disjoint_lens(a, b.difference(a));
        assert(a.union(b.difference(a)) =~= a.union(b));
        assert(b.difference(a).union(b.intersect(a)) =~= b);
        vstd::set_lib::lemma_set_disjoint_lens(b.difference(a), b.intersect(a));
    }
    let mut common: usize = 0;
    let mut i: usize = 0;
    proof {
        assert(left@.take(0).to_set().intersect(b) =~= Set::empty());
    }
    while i < left.len()
        invariant
            i <= left@.len(),
            left@.no_duplicates(),
            b == right@.to_set(),
            common == left@.take(i as int).to_set().intersect(b).len(),
            left@.take(i as int).to_set().intersect(b).finite(),
            common <= i,
        decreases left@.len() - i,
    {
        let token: u32 = left[i];
        proof {
            let before = left@.take(i as int);
            let after = left@.take(i + 1);
            assert(after =~= before.push(token));
            assert(!before.contains(token)) by {
                if before.contains(token) {
                    let k = choose|k: int| 0 <= k < i && before[k] == token;
                    assert(left@[k] == left@[i as int]);
                }
            }
            assert forall|t: u32| after.to_set().contains(t) == (before.to_set().contains(t) || t
                == token) by {
                if after.contains(t) {
                    let k = choose|k: int| 0 <= k < after.len() && after[k] == t;
                    if k < i {
                        assert(before[k] == t);
                    }
                }
                if before.contains(t) {
                    let k = choose|k: int| 0 <= k < before.len() && before[k] == t;
                    assert(after[k] == t);
                }
                assert(after[i as int] == token);
            }
            if b.contains(token) {
                assert(after.to_set().intersect(b) =~= before.to_set().intersect(b).insert(token));
            } else {
                assert(after.to_set().intersect(b) =~= before.to_set().intersect(b));
            }
        }
        if holds(&right, token) {
            common = common + 1;
        }
        i = i + 1;
    }
    proof {
        assert(left@.take(i as int) =~= left@);
        assert(a.intersect(b) =~= b.intersect(a));
        assert(a.union(b).len() == left@.len() + right@.len() - common);
    }
    let total: usize = left.len() + (right.len() - common);
    (common, total)
}

/// The score of a document by the tokens that it has in common with a query: how many there are, and
/// of how many; none where one of the two is empty, and the score is zero.
pub fn shared_tokens(query: &Vec<u32>, document: &Vec<u32>) -> (shares: Option<(usize, usize)>)
    requires
        query@.to_set().union(document@.to_set()).len() <= usize::MAX,
    ensures
        match shares {
            Some((common, all)) => {
                &&& query@.len() > 0 && document@.len() > 0
                &&& common == query@.to_set().intersect(document@.to_set()).len()
                &&& all == query@.to_set().union(document@.to_set()).len()
                &&& common <= all
                &&& all > 0
            },
            None => query@.len() == 0 || document@.len() == 0,
        },
{
    if query.len() == 0 || document.len() == 0 {
        return None;
    }
    let (common, all) = overlap(query, document);
    proof {
        let both = query@.to_set().union(document@.to_set());
        assert(query@.to_set().contains(query@[0]));
        vstd::seq_lib::seq_to_set_is_finite(query@);
        vstd::seq_lib::seq_to_set_is_finite(document@);
        assert(both.contains(query@[0]));
        if both.len() == 0 {
            assert(both =~= Set::empty());
        }
    }
    Some((common, all))
}

} // verus!
