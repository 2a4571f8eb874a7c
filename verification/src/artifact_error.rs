//! What can go wrong while a model is read from a directory.
use vstd::prelude::*;
use vstd::string::*;

use crate::text::{cat2, cat4};

verus! {

/// Why a model could not be read.
#[derive(Clone, Debug, PartialEq, Eq)]
pub enum ModelArtifactError {
    ModelPathNotLocalDirectory { path: String },
    ReadModelConfig { path: String, message: String },
    InvalidModelConfig { path: String, message: String },
    ReadSafetensorsIndex { path: String, message: String },
    InvalidSafetensorsIndex { path: String, message: String },
    MissingWeightShard { path: String },
    NoSafetensorsWeights { path: String },
    ReadModelDirectory { path: String, message: String },
    ReadWeightShard { path: String, message: String },
    InvalidSafetensorsHeader { path: String, message: String },
    InvalidSafetensorsData { path: String, message: String },
}

/// What a [`ModelArtifactError`] says.
pub enum ArtifactFault {
    ModelPathNotLocalDirectory { path: Seq<char> },
    ReadModelConfig { path: Seq<char>, message: Seq<char> },
    InvalidModelConfig { path: Seq<char>, message: Seq<char> },
    ReadSafetensorsIndex { path: Seq<char>, message: Seq<char> },
    InvalidSafetensorsIndex { path: Seq<char>, message: Seq<char> },
    MissingWeightShard { path: Seq<char> },
    NoSafetensorsWeights { path: Seq<char> },
    ReadModelDirectory { path: Seq<char>, message: Seq<char> },
    ReadWeightShard { path: Seq<char>, message: Seq<char> },
    InvalidSafetensorsHeader { path: Seq<char>, message: Seq<char> },
    InvalidSafetensorsData { path: Seq<char>, message: Seq<char> },
}

impl View for ModelArtifactError {
    type V = ArtifactFault;

    open spec fn view(&self) -> ArtifactFault {
        match *self {
            ModelArtifactError::ModelPathNotLocalDirectory { path } => ArtifactFault::ModelPathNotLocalDirectory {
                path: path@,
            },
            ModelArtifactError::ReadModelConfig { path, message } => ArtifactFault::ReadModelConfig {
                path: path@,
                message: message@,
            },
            ModelArtifactError::InvalidModelConfig { path, message } => ArtifactFault::InvalidModelConfig {
                path: path@,
                message: message@,
            },
            ModelArtifactError::ReadSafetensorsIndex { path, message } => ArtifactFault::ReadSafetensorsIndex {
                path: path@,
                message: message@,
            },
            ModelArtifactError::InvalidSafetensorsIndex { path, message } => ArtifactFault::InvalidSafetensorsIndex {
                path: path@,
                message: message@,
            },
            ModelArtifactError::MissingWeightShard { path } => ArtifactFault::MissingWeightShard {
                path: path@,
            },
            ModelArtifactError::NoSafetensorsWeights { path } => ArtifactFault::NoSafetensorsWeights {
                path: path@,
            },
            ModelArtifactError::ReadModelDirectory { path, message } => ArtifactFault::ReadModelDirectory {
                path: path@,
                message: message@,
            },
            ModelArtifactError::ReadWeightShard { path, message } => ArtifactFault::ReadWeightShard {
                path: path@,
                message: message@,
            },
            ModelArtifactError::InvalidSafetensorsHeader { path, message } => ArtifactFault::InvalidSafetensorsHeader {
                path: path@,
                message: message@,
            },
            ModelArtifactError::InvalidSafetensorsData { path, message } => ArtifactFault::InvalidSafetensorsData {
                path: path@,
                message: message@,
            },
        }
    }
}

/// The message of an error.
pub open spec fn artifact_message(fault: ArtifactFault) -> Seq<char> {
    match fault {
        ArtifactFault::ModelPathNotLocalDirectory { path } => "model path is not a local directory: "@ + path,
        ArtifactFault::ReadModelConfig { path, message } => "failed to read model config "@ + path + ": "@
            + message,
        ArtifactFault::InvalidModelConfig { path, message } => "failed to parse model config "@ + path + ": "@
            + message,
        ArtifactFault::ReadSafetensorsIndex { path, message } => "failed to read safetensors index "@ + path + ": "@
            + message,
        ArtifactFault::InvalidSafetensorsIndex { path, message } => "failed to parse safetensors index "@ + path + ": "@
            + message,
        ArtifactFault::MissingWeightShard { path } => "safetensors index references missing shard "@ + path,
        ArtifactFault::NoSafetensorsWeights { path } => "no safetensors weights found under "@ + path,
        ArtifactFault::ReadModelDirectory { path, message } => "failed to read model directory "@ + path + ": "@
            + message,
        ArtifactFault::ReadWeightShard { path, message } => "failed to read safetensors shard "@ + path + ": "@
            + message,
        ArtifactFault::InvalidSafetensorsHeader { path, message } => "failed to parse safetensors header "@ + path + ": "@
            + message,
        ArtifactFault::InvalidSafetensorsData { path, message } => "failed to read safetensors tensor data "@ + path + ": "@
            + message,
    }
}

impl ModelArtifactError {
    /// The message of the error.
    pub fn to_string(&self) -> (message: String)
        ensures
            message@ == artifact_message(self@),
    {
        match self {
            ModelArtifactError::ModelPathNotLocalDirectory { path } => cat2(
                "model path is not a local directory: ",
                path.as_str(),
            ),
            ModelArtifactError::ReadModelConfig { path, message } => cat4(
                "failed to read model config ",
                path.as_str(),
                ": ",
                message.as_str(),
            ),
            ModelArtifactError::InvalidModelConfig { path, message } => cat4(
                "failed to parse model config ",
                path.as_str(),
                ": ",
                message.as_str(),
            ),
            ModelArtifactError::ReadSafetensorsIndex { path, message } => cat4(
                "failed to read safetensors index ",
                path.as_str(),
                ": ",
                message.as_str(),
            ),
            ModelArtifactError::InvalidSafetensorsIndex { path, message } => cat4(
                "failed to parse safetensors index ",
                path.as_str(),
                ": ",
                message.as_str(),
            ),
            ModelArtifactError::MissingWeightShard { path } => cat2(
                "safetensors index references missing shard ",
                path.as_str(),
            ),
            ModelArtifactError::NoSafetensorsWeights { path } => cat2(
                "no safetensors weights found under ",
                path.as_str(),
            ),
            ModelArtifactError::ReadModelDirectory { path, message } => cat4(
                "failed to read model directory ",
                path.as_str(),
                ": ",
                message.as_str(),
            ),
            ModelArtifactError::ReadWeightShard { path, message } => cat4(
                "failed to read safetensors shard ",
                path.as_str(),
                ": ",
                message.as_str(),
            ),
            ModelArtifactError::InvalidSafetensorsHeader { path, message } => cat4(
                "failed to parse safetensors header ",
                path.as_str(),
                ": ",
                message.as_str(),
            ),
            ModelArtifactError::InvalidSafetensorsData { path, message } => cat4(
                "failed to read safetensors tensor data ",
                path.as_str(),
                ": ",
                message.as_str(),
            ),
        }
    }

    /// A copy of the error, told of another path.
    pub fn copy_at(&self, path: &str) -> (error: ModelArtifactError)
        ensures
            error@ == self@.at(path@),
    {
        match self {
            ModelArtifactError::ModelPathNotLocalDirectory { .. } => ModelArtifactError::ModelPathNotLocalDirectory {
                path: path.to_owned(),
            },
            ModelArtifactError::ReadModelConfig { message, .. } => ModelArtifactError::ReadModelConfig {
                path: path.to_owned(),
                message: message.clone(),
            },
            ModelArtifactError::InvalidModelConfig { message, .. } => ModelArtifactError::InvalidModelConfig {
                path: path.to_owned(),
                message: message.clone(),
            },
            ModelArtifactError::ReadSafetensorsIndex { message, .. } => ModelArtifactError::ReadSafetensorsIndex {
                path: path.to_owned(),
                message: message.clone(),
            },
            ModelArtifactError::InvalidSafetensorsIndex { message, .. } => ModelArtifactError::InvalidSafetensorsIndex {
                path: path.to_owned(),
                message: message.clone(),
            },
            ModelArtifactError::MissingWeightShard { .. } => ModelArtifactError::MissingWeightShard {
                path: path.to_owned(),
            },
            ModelArtifactError::NoSafetensorsWeights { .. } => ModelArtifactError::NoSafetensorsWeights {
                path: path.to_owned(),
            },
            ModelArtifactError::ReadModelDirectory { message, .. } => ModelArtifactError::ReadModelDirectory {
                path: path.to_owned(),
                message: message.clone(),
            },
            ModelArtifactError::ReadWeightShard { message, .. } => ModelArtifactError::ReadWeightShard {
                path: path.to_owned(),
                message: message.clone(),
            },
            ModelArtifactError::InvalidSafetensorsHeader { message, .. } => ModelArtifactError::InvalidSafetensorsHeader {
                path: path.to_owned(),
                message: message.clone(),
            },
            ModelArtifactError::InvalidSafetensorsData { message, .. } => ModelArtifactError::InvalidSafetensorsData {
                path: path.to_owned(),
                message: message.clone(),
            },
        }
    }
}

impl ArtifactFault {
    /// The same fault, told of another path.
    pub open spec fn at(self, path: Seq<char>) -> ArtifactFault {
        match self {
            ArtifactFault::ModelPathNotLocalDirectory { .. } => ArtifactFault::ModelPathNotLocalDirectory { path },
            ArtifactFault::ReadModelConfig { message, .. } => ArtifactFault::ReadModelConfig { path, message },
            ArtifactFault::InvalidModelConfig { message, .. } => ArtifactFault::InvalidModelConfig { path, message },
            ArtifactFault::ReadSafetensorsIndex { message, .. } => ArtifactFault::ReadSafetensorsIndex { path, message },
            ArtifactFault::InvalidSafetensorsIndex { message, .. } => ArtifactFault::InvalidSafetensorsIndex { path, message },
            ArtifactFault::MissingWeightShard { .. } => ArtifactFault::MissingWeightShard { path },
            ArtifactFault::NoSafetensorsWeights { .. } => ArtifactFault::NoSafetensorsWeights { path },
            ArtifactFault::ReadModelDirectory { message, .. } => ArtifactFault::ReadModelDirectory { path, message },
            ArtifactFault::ReadWeightShard { message, .. } => ArtifactFault::ReadWeightShard { path, message },
            ArtifactFault::InvalidSafetensorsHeader { message, .. } => ArtifactFault::InvalidSafetensorsHeader { path, message },
            ArtifactFault::InvalidSafetensorsData { message, .. } => ArtifactFault::InvalidSafetensorsData { path, message },
        }
    }
}

/// The data of a tensor, or what is said of it, cannot be used.
pub open spec fn data_fault(path: Seq<char>, message: Seq<char>) -> ArtifactFault {
    ArtifactFault::InvalidSafetensorsData { path, message }
}

/// The header of a shard cannot be used.
pub open spec fn header_fault(path: Seq<char>, message: Seq<char>) -> ArtifactFault {
    ArtifactFault::InvalidSafetensorsHeader { path, message }
}

/// The data of a tensor, or what is said of it, cannot be used.
pub fn invalid_safetensors_data(path: &str, message: String) -> (error: ModelArtifactError)
    ensures
        error@ == data_fault(path@, message@),
{
    ModelArtifactError::InvalidSafetensorsData { path: path.to_owned(), message }
}

/// The header of a shard cannot be used.
pub fn invalid_safetensors_header(path: &str, message: String) -> (error: ModelArtifactError)
    ensures
        error@ == header_fault(path@, message@),
{
    ModelArtifactError::InvalidSafetensorsHeader { path: path.to_owned(), message }
}

} // verus!
