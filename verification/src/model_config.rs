//! The configuration document of a model.
use vstd::prelude::*;
use vstd::string::*;

use crate::artifact_error::{ArtifactFault, ModelArtifactError};
use crate::json::{empty_object, views, Json, JsonView};
use crate::json_text::{parse_json, parsed};
use crate::paths::{hub_model_id, looks_like_hf_model_id};
use crate::payload::{collected, collected_step};
use crate::text::texts;

verus! {

/// The document that a configuration was read from.
#[derive(Debug, PartialEq, Eq)]
pub struct ConfigDocument {
    json: Json,
}

impl View for ConfigDocument {
    type V = JsonView;

    closed spec fn view(&self) -> JsonView {
        self.json@
    }
}

/// The configuration of a model.
#[derive(Debug, PartialEq, Eq)]
pub struct HfModelConfig {
    pub raw_document: ConfigDocument,
    pub model_type: Option<String>,
    pub architectures: Vec<String>,
    pub eos_token_ids: Vec<u32>,
}

/// What a [`HfModelConfig`] says.
pub struct ModelConfig {
    pub document: JsonView,
    pub model_type: Option<Seq<char>>,
    pub architectures: Seq<Seq<char>>,
    pub eos_token_ids: Seq<u32>,
}

impl View for HfModelConfig {
    type V = ModelConfig;

    open spec fn view(&self) -> ModelConfig {
        ModelConfig {
            document: self.raw_document@,
            model_type: match self.model_type {
                Some(text) => Some(text@),
                None => None,
            },
            architectures: texts(self.architectures@),
            eos_token_ids: self.eos_token_ids@,
        }
    }
}

/// The part of a document that describes the text model: its object `text_config`, or all of it.
pub open spec fn text_part(document: JsonView) -> JsonView {
    match document.get("text_config"@) {
        Some(part) => if part is Object {
            part
        } else {
            document
        },
        None => document,
    }
}

/// The text of a field, where it is one.
pub open spec fn text_field(document: JsonView, field: Seq<char>) -> Option<Seq<char>> {
    match document.get(field) {
        Some(value) => value.as_text(),
        None => None,
    }
}

/// Those of the items that are texts.
pub open spec fn texts_among(items: Seq<JsonView>) -> Seq<Seq<char>>
    decreases items.len(),
{
    if items.len() == 0 {
        Seq::empty()
    } else {
        let before = texts_among(items.drop_last());
        match items.last().as_text() {
            Some(text) => before.push(text),
            None => before,
        }
    }
}

/// The texts of a field that is a list.
pub open spec fn texts_field(document: JsonView, field: Seq<char>) -> Seq<Seq<char>> {
    match document.get(field) {
        Some(value) => match value.as_items() {
            Some(items) => texts_among(items),
            None => Seq::empty(),
        },
        None => Seq::empty(),
    }
}

/// The number that an entry of a field is.
pub open spec fn token_id(value: JsonView, field: Seq<char>) -> Result<u32, Seq<char>> {
    match value.as_natural() {
        Some(n) => if n <= u32::MAX {
            Ok(n as u32)
        } else {
            Err("field "@ + field + " does not fit in u32"@)
        },
        None => Err(
            "field "@ + field
                + " must be an unsigned integer or array of unsigned integers"@,
        ),
    }
}

/// The numbers of a field that is missing, null, a number or a list of numbers.
pub open spec fn token_ids(document: JsonView, field: Seq<char>) -> Result<Seq<u32>, Seq<char>> {
    match document.get(field) {
        None => Ok(Seq::empty()),
        Some(value) => if value is Null {
            Ok(Seq::empty())
        } else {
            match value.as_items() {
                Some(items) => collected(items, |item: JsonView| token_id(item, field)),
                None => match token_id(value, field) {
                    Ok(id) => Ok(seq![id]),
                    Err(message) => Err(message),
                },
            }
        },
    }
}

/// What a configuration document says.
pub open spec fn config_of(document: JsonView, path: Seq<char>) -> Result<
    ModelConfig,
    ArtifactFault,
> {
    match token_ids(text_part(document), "eos_token_id"@) {
        Ok(eos_token_ids) => Ok(
            ModelConfig {
                document,
                model_type: text_field(document, "model_type"@),
                architectures: texts_field(document, "architectures"@),
                eos_token_ids,
            },
        ),
        Err(message) => Err(ArtifactFault::InvalidModelConfig { path, message }),
    }
}

/// What the text of a configuration document says.
pub open spec fn config_in(text: Seq<u8>, path: Seq<char>) -> Result<ModelConfig, ArtifactFault> {
    match parsed(text) {
        Ok(document) => config_of(document, path),
        Err(message) => Err(ArtifactFault::InvalidModelConfig { path, message }),
    }
}

fn read_string_field(document: &Json, field: &str) -> (text: Option<String>)
    ensures
        match text {
            Some(s) => text_field(document@, field@) == Some(s@),
            None => text_field(document@, field@) is None,
        },
{
    match document.get(field) {
        Some(value) => match value.as_str() {
            Some(text) => Some(text.to_owned()),
            None => None,
        },
        None => None,
    }
}

fn read_string_array_field(document: &Json, field: &str) -> (list: Vec<String>)
    ensures
        texts(list@) == texts_field(document@, field@),
{
    let mut list: Vec<String> = Vec::new();
    let items = match document.get(field) {
        Some(value) => value.as_array(),
        None => None,
    };
    let items = match items {
        Some(items) => items,
        None => {
            proof {
                assert(texts(list@) =~= Seq::empty());
            }
            return list;
        },
    };
    let ghost all = views(items@);
    let mut i: usize = 0;
    proof {
        assert(texts(list@) =~= texts_among(all.take(0)));
    }
    while i < items.len()
        invariant
            i <= items@.len(),
            all == views(items@),
            texts(list@) == texts_among(all.take(i as int)),
        decreases items@.len() - i,
    {
        let ghost before = texts(list@);
        proof {
            assert(all[i as int] == items@[i as int]@);
            assert(all.take(i + 1).drop_last() =~= all.take(i as int));
            assert(all.take(i + 1).last() == all[i as int]);
        }
        if let Some(text) = items[i].as_str() {
            list.push(text.to_owned());
            proof {
                assert(texts(list@) =~= before.push(text@));
            }
        }
        i = i + 1;
    }
    proof {
        assert(all.take(i as int) =~= all);
    }
    list
}

fn read_u32_value(value: &Json, field: &str) -> (id: Result<u32, String>)
    ensures
        match id {
            Ok(n) => token_id(value@, field@) == Ok::<u32, Seq<char>>(n),
            Err(message) => token_id(value@, field@) == Err::<u32, Seq<char>>(message@),
        },
{
    match value.as_u64() {
        Some(n) => if n <= u32::MAX as u64 {
            Ok(n as u32)
        } else {
            Err(crate::text::cat3("field ", field, " does not fit in u32"))
        },
        None => Err(
            crate::text::cat3(
                "field ",
                field,
                " must be an unsigned integer or array of unsigned integers",
            ),
        ),
    }
}

fn read_u32_or_array_field(document: &Json, field: &str) -> (ids: Result<Vec<u32>, String>)
    ensures
        match ids {
            Ok(list) => token_ids(document@, field@) == Ok::<Seq<u32>, Seq<char>>(list@),
            Err(message) => token_ids(document@, field@) == Err::<Seq<u32>, Seq<char>>(message@),
        },
{
    let raw = match document.get(field) {
        Some(raw) => raw,
        None => {
            let none: Vec<u32> = Vec::new();
            proof {
                assert(none@ =~= Seq::empty());
            }
            return Ok(none);
        },
    };
    if raw.is_null() {
        let none: Vec<u32> = Vec::new();
        proof {
            assert(none@ =~= Seq::empty());
        }
        return Ok(none);
    }
    if let Some(items) = raw.as_array() {
        let ghost all = views(items@);
        let ghost read = |item: JsonView| token_id(item, field@);
        let mut list: Vec<u32> = Vec::new();
        let mut i: usize = 0;
        proof {
            assert(list@ =~= Seq::empty());
            assert(all.take(0) =~= Seq::empty());
        }
        while i < items.len()
            invariant
                i <= items@.len(),
                all == views(items@),
                read == (|item: JsonView| token_id(item, field@)),
                collected(all.take(i as int), read) == Ok::<Seq<u32>, Seq<char>>(list@),
                document@.get(field@) == Some(raw@),
                !(raw@ is Null),
                raw@.as_items() == Some(all),
            decreases items@.len() - i,
        {
            proof {
                assert(all[i as int] == items@[i as int]@);
                collected_step(all, read, i as int);
            }
            match read_u32_value(&items[i], field) {
                Ok(id) => {
                    list.push(id);
                },
                Err(message) => {
                    return Err(message);
                },
            }
            i = i + 1;
        }
        proof {
            assert(all.take(i as int) =~= all);
        }
        return Ok(list);
    }
    match read_u32_value(raw, field) {
        Ok(id) => {
            let mut list: Vec<u32> = Vec::new();
            list.push(id);
            proof {
                assert(list@ =~= seq![id]);
            }
            Ok(list)
        },
        Err(message) => Err(message),
    }
}

fn text_part_of(document: &Json) -> (part: &Json)
    ensures
        part@ == text_part(document@),
{
    match document.get("text_config") {
        Some(part) => if part.is_object() {
            part
        } else {
            document
        },
        None => document,
    }
}

impl Default for HfModelConfig {
    /// The configuration that says nothing.
    fn default() -> (config: Self)
        ensures
            config@ == (ModelConfig {
                document: empty_object(),
                model_type: None,
                architectures: Seq::empty(),
                eos_token_ids: Seq::empty(),
            }),
    {
        let config = HfModelConfig {
            raw_document: ConfigDocument { json: Json::object() },
            model_type: None,
            architectures: Vec::new(),
            eos_token_ids: Vec::new(),
        };
        proof {
            assert(config@.architectures =~= Seq::empty());
            assert(config@.eos_token_ids =~= Seq::empty());
        }
        config
    }
}

impl HfModelConfig {
    /// The configuration that a document is.
    pub fn from_json_value(value: Json) -> (config: Result<HfModelConfig, ModelArtifactError>)
        ensures
            match config {
                Ok(c) => config_of(value@, "<in-memory-config>"@) == Ok::<
                    ModelConfig,
                    ArtifactFault,
                >(c@),
                Err(e) => config_of(value@, "<in-memory-config>"@) == Err::<
                    ModelConfig,
                    ArtifactFault,
                >(e@),
            },
    {
        HfModelConfig::from_document(value, "<in-memory-config>")
    }

    /// The configuration that a document is, which was read at `path`.
    pub fn from_document(value: Json, path: &str) -> (config: Result<
        HfModelConfig,
        ModelArtifactError,
    >)
        ensures
            match config {
                Ok(c) => config_of(value@, path@) == Ok::<ModelConfig, ArtifactFault>(c@),
                Err(e) => config_of(value@, path@) == Err::<ModelConfig, ArtifactFault>(e@),
            },
    {
        let eos_token_ids = match read_u32_or_array_field(text_part_of(&value), "eos_token_id") {
            Ok(ids) => ids,
            Err(message) => {
                return Err(
                    ModelArtifactError::InvalidModelConfig { path: path.to_owned(), message },
                );
            },
        };
        let model_type = read_string_field(&value, "model_type");
        let architectures = read_string_array_field(&value, "architectures");
        Ok(
            HfModelConfig {
                raw_document: ConfigDocument { json: value },
                model_type,
                architectures,
                eos_token_ids,
            },
        )
    }

    /// The configuration that a text is, which was read at `path`.
    pub fn from_config_text(text: &Vec<u8>, path: &str) -> (config: Result<
        HfModelConfig,
        ModelArtifactError,
    >)
        ensures
            match config {
                Ok(c) => config_in(text@, path@) == Ok::<ModelConfig, ArtifactFault>(c@),
                Err(e) => config_in(text@, path@) == Err::<ModelConfig, ArtifactFault>(e@),
            },
    {
        match parse_json(text.as_slice()) {
            Ok(document) => HfModelConfig::from_document(document, path),
            Err(message) => Err(
                ModelArtifactError::InvalidModelConfig { path: path.to_owned(), message },
            ),
        }
    }

    /// A copy of the type of the model.
    pub fn model_type_copy(&self) -> (copy: Option<String>)
        ensures
            match copy {
                Some(text) => self@.model_type == Some(text@),
                None => self@.model_type is None,
            },
    {
        match &self.model_type {
            Some(text) => Some(text.clone()),
            None => None,
        }
    }

    /// A copy of the tokens that end a text.
    pub fn eos_token_ids_copy(&self) -> (copy: Vec<u32>)
        ensures
            copy@ == self@.eos_token_ids,
    {
        self.eos_token_ids.clone()
    }

    /// The names of the architectures.
    pub fn architectures(&self) -> (names: &Vec<String>)
        ensures
            texts(names@) == self@.architectures,
    {
        &self.architectures
    }

    /// The document.
    pub fn raw_document(&self) -> (document: &Json)
        ensures
            document@ == self@.document,
    {
        &self.raw_document.json
    }

    /// The part of the document that describes the text model.
    pub fn text_document(&self) -> (document: &Json)
        ensures
            document@ == text_part(self@.document),
    {
        text_part_of(&self.raw_document.json)
    }
}

/// Whether the configuration is to be fetched from the hub: where none was found, and the path can be
/// the name of a model there.
pub fn needs_hub_config(found: &Result<HfModelConfig, ModelArtifactError>, path: &str) -> (needs:
    bool)
    ensures
        needs == (found is Err && hub_model_id(path@)),
{
    found.is_err() && looks_like_hf_model_id(path)
}

} // verus!
