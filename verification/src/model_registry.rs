//! Which models are known, and by which configuration they are defined.
use vstd::prelude::*;
use vstd::string::*;

use crate::artifact_error::{artifact_message, ArtifactFault, ModelArtifactError};
use crate::debug_text::{show_list, shown_list};
use crate::deepseek::{
    build_deepseek_v3_definition, names_v3, v3_definition_of, v3_fault, DeepSeekV3DefinitionSpec,
    MlaMoeConfig,
};
use crate::kimi_linear::{
    build_kimi_linear_definition, kimi_definition_of, kimi_fault, KimiLinearConfig,
};
use crate::local_model::LocalModelArtifacts;
use crate::mla_moe::{
    build_mla_moe_definition, mla_moe_definition_of, mla_moe_fault, MlaMoeCheckpointFlavor,
};
use crate::model_config::HfModelConfig;
use crate::model_definition::{checkpoint_fits, ModelDefinition};
use crate::model_runtime::{comma_list, join_commas, ModelRuntimeLoadError, RuntimeFault};
use crate::models::{invalid_message, ModelAdapterError};
use crate::qwen::{
    build_qwen2_definition, build_qwen3_definition, definition_fault, definition_of, qwen2_extras,
    qwen3_extras, QwenDenseConfig,
};
use crate::qwen3_5::{
    build_qwen3_5_definition, qwen3_5_definition_of, qwen3_5_fault, Qwen3_5TextConfig, RotaryWidth,
};
use crate::text::{cat2, cat3, cat4, cat6, same_text, texts};

verus! {

/// The models that are known.
#[derive(Clone, Copy, Debug, PartialEq, Eq, Structural)]
pub enum ModelAdapter {
    DeepSeekV3,
    DeepSeekV4,
    GlmMoeDsa,
    Qwen2,
    Qwen3,
    Qwen3_5,
    KimiLinear,
}

impl ModelAdapter {
    /// The name of the architecture.
    pub open spec fn name(self) -> Seq<char> {
        match self {
            ModelAdapter::DeepSeekV3 => "DeepseekV3ForCausalLM"@,
            ModelAdapter::DeepSeekV4 => "DeepseekV4ForCausalLM"@,
            ModelAdapter::GlmMoeDsa => "GlmMoeDsaForCausalLM"@,
            ModelAdapter::Qwen2 => "Qwen2ForCausalLM"@,
            ModelAdapter::Qwen3 => "Qwen3ForCausalLM"@,
            ModelAdapter::Qwen3_5 => "Qwen3_5ForConditionalGeneration"@,
            ModelAdapter::KimiLinear => "KimiLinearForCausalLM"@,
        }
    }

    /// The name of the architecture.
    pub fn architecture(self) -> (name: &'static str)
        ensures
            name@ == self.name(),
    {
        match self {
            ModelAdapter::DeepSeekV3 => "DeepseekV3ForCausalLM",
            ModelAdapter::DeepSeekV4 => "DeepseekV4ForCausalLM",
            ModelAdapter::GlmMoeDsa => "GlmMoeDsaForCausalLM",
            ModelAdapter::Qwen2 => "Qwen2ForCausalLM",
            ModelAdapter::Qwen3 => "Qwen3ForCausalLM",
            ModelAdapter::Qwen3_5 => "Qwen3_5ForConditionalGeneration",
            ModelAdapter::KimiLinear => "KimiLinearForCausalLM",
        }
    }
}

/// The models that are known, in the order in which they are tried.
pub open spec fn adapters() -> Seq<ModelAdapter> {
    seq![
        ModelAdapter::DeepSeekV3,
        ModelAdapter::DeepSeekV4,
        ModelAdapter::GlmMoeDsa,
        ModelAdapter::Qwen2,
        ModelAdapter::Qwen3,
        ModelAdapter::Qwen3_5,
        ModelAdapter::KimiLinear,
    ]
}

/// The first known model of a name, from `i` on.
pub open spec fn adapter_from(name: Seq<char>, i: nat) -> Option<ModelAdapter>
    decreases adapters().len() - i,
{
    if i >= adapters().len() {
        None
    } else if adapters()[i as int].name() == name {
        Some(adapters()[i as int])
    } else {
        adapter_from(name, i + 1)
    }
}

/// The known model of the first name that is known, from `i` on.
pub open spec fn adapter_for(names: Seq<Seq<char>>, i: nat) -> Option<ModelAdapter>
    decreases names.len() - i,
{
    if i >= names.len() {
        None
    } else if adapter_from(names[i as int], 0) is Some {
        adapter_from(names[i as int], 0)
    } else {
        adapter_for(names, i + 1)
    }
}

fn all_adapters() -> (list: Vec<ModelAdapter>)
    ensures
        list@ == adapters(),
{
    let mut list: Vec<ModelAdapter> = Vec::new();
    list.push(ModelAdapter::DeepSeekV3);
    list.push(ModelAdapter::DeepSeekV4);
    list.push(ModelAdapter::GlmMoeDsa);
    list.push(ModelAdapter::Qwen2);
    list.push(ModelAdapter::Qwen3);
    list.push(ModelAdapter::Qwen3_5);
    list.push(ModelAdapter::KimiLinear);
    proof {
        assert(list@ =~= adapters());
    }
    list
}

fn find_adapter(name: &str) -> (adapter: Option<ModelAdapter>)
    ensures
        adapter == adapter_from(name@, 0),
{
    let list = all_adapters();
    let mut i: usize = 0;
    while i < list.len()
        invariant
            i <= list@.len(),
            list@ == adapters(),
            adapter_from(name@, 0) == adapter_from(name@, i as nat),
        decreases list@.len() - i,
    {
        if same_text(list[i].architecture(), name) {
            return Some(list[i]);
        }
        i = i + 1;
    }
    None
}

/// Why a model was not defined or loaded. A backend is told by its name.
#[derive(Clone, Debug, PartialEq, Eq)]
pub enum ModelRegistryError {
    ModelArtifact(ModelArtifactError),
    InvalidDevice(String),
    MissingArchitectures { model_path: String },
    UnsupportedArchitectures {
        model_path: String,
        requested: Vec<String>,
        supported: Vec<String>,
    },
    BackendInitialization { requested: String, message: String },
    MissingCapabilities {
        model_path: String,
        architecture: &'static str,
        backend: String,
        missing: Vec<String>,
    },
    InvalidAdapterConfig { model_path: String, architecture: &'static str, message: String },
    ModelLoad { model_path: String, architecture: &'static str, message: String },
}

/// What a [`ModelRegistryError`] says.
pub enum RegistryFault {
    ModelArtifact(ArtifactFault),
    InvalidDevice(Seq<char>),
    MissingArchitectures { model_path: Seq<char> },
    UnsupportedArchitectures {
        model_path: Seq<char>,
        requested: Seq<Seq<char>>,
        supported: Seq<Seq<char>>,
    },
    BackendInitialization { requested: Seq<char>, message: Seq<char> },
    MissingCapabilities {
        model_path: Seq<char>,
        architecture: Seq<char>,
        backend: Seq<char>,
        missing: Seq<Seq<char>>,
    },
    InvalidAdapterConfig { model_path: Seq<char>, architecture: Seq<char>, message: Seq<char> },
    ModelLoad { model_path: Seq<char>, architecture: Seq<char>, message: Seq<char> },
}

impl View for ModelRegistryError {
    type V = RegistryFault;

    open spec fn view(&self) -> RegistryFault {
        match *self {
            ModelRegistryError::ModelArtifact(error) => RegistryFault::ModelArtifact(error@),
            ModelRegistryError::InvalidDevice(device) => RegistryFault::InvalidDevice(device@),
            ModelRegistryError::MissingArchitectures { model_path } => {
                RegistryFault::MissingArchitectures { model_path: model_path@ }
            },
            ModelRegistryError::UnsupportedArchitectures { model_path, requested, supported } => {
                RegistryFault::UnsupportedArchitectures {
                    model_path: model_path@,
                    requested: texts(requested@),
                    supported: texts(supported@),
                }
            },
            ModelRegistryError::BackendInitialization { requested, message } => {
                RegistryFault::BackendInitialization { requested: requested@, message: message@ }
            },
            ModelRegistryError::MissingCapabilities {
                model_path,
                architecture,
                backend,
                missing,
            } => RegistryFault::MissingCapabilities {
                model_path: model_path@,
                architecture: architecture@,
                backend: backend@,
                missing: texts(missing@),
            },
            ModelRegistryError::InvalidAdapterConfig { model_path, architecture, message } => {
                RegistryFault::InvalidAdapterConfig {
                    model_path: model_path@,
                    architecture: architecture@,
                    message: message@,
                }
            },
            ModelRegistryError::ModelLoad { model_path, architecture, message } => {
                RegistryFault::ModelLoad {
                    model_path: model_path@,
                    architecture: architecture@,
                    message: message@,
                }
            },
        }
    }
}

/// The message of an error.
pub open spec fn registry_message(fault: RegistryFault) -> Seq<char> {
    match fault {
        RegistryFault::ModelArtifact(error) => "model artifact error: "@ + artifact_message(error),
        RegistryFault::InvalidDevice(device) => "invalid --device: "@ + device,
        RegistryFault::MissingArchitectures { model_path } => "model "@ + model_path
            + " has no Hugging Face architectures; model selection requires config.json architectures"@,
        RegistryFault::UnsupportedArchitectures { model_path, requested, supported } => "model "@
            + model_path + " architectures "@ + shown_list(requested)
            + " are unsupported; registered architectures: "@ + shown_list(supported),
        RegistryFault::BackendInitialization { requested, message } =>
            "failed to initialize requested runtime backend "@ + requested + ": "@ + message,
        RegistryFault::MissingCapabilities { model_path, architecture, backend, missing } =>
            "model "@ + model_path + " architecture "@ + architecture
            + " cannot start on backend "@ + backend + "; missing capabilities: "@ + comma_list(
            missing,
            missing.len(),
        ),
        RegistryFault::InvalidAdapterConfig { model_path, architecture, message } => "model "@
            + model_path + " resolved architecture "@ + architecture
            + ", but its adapter rejected the configuration: "@ + message,
        RegistryFault::ModelLoad { model_path, architecture, message } => "failed to load model "@
            + model_path + " architecture "@ + architecture + ": "@ + message,
    }
}

impl ModelRegistryError {
    /// The message of the error.
    pub fn to_string(&self) -> (message: String)
        ensures
            message@ == registry_message(self@),
    {
        match self {
            ModelRegistryError::ModelArtifact(error) => cat2(
                "model artifact error: ",
                error.to_string().as_str(),
            ),
            ModelRegistryError::InvalidDevice(device) => cat2(
                "invalid --device: ",
                device.as_str(),
            ),
            ModelRegistryError::MissingArchitectures { model_path } => cat3(
                "model ",
                model_path.as_str(),
                " has no Hugging Face architectures; model selection requires config.json architectures",
            ),
            ModelRegistryError::UnsupportedArchitectures { model_path, requested, supported } => {
                cat6(
                    "model ",
                    model_path.as_str(),
                    " architectures ",
                    show_list(requested).as_str(),
                    " are unsupported; registered architectures: ",
                    show_list(supported).as_str(),
                )
            },
            ModelRegistryError::BackendInitialization { requested, message } => cat4(
                "failed to initialize requested runtime backend ",
                requested.as_str(),
                ": ",
                message.as_str(),
            ),
            ModelRegistryError::MissingCapabilities {
                model_path,
                architecture,
                backend,
                missing,
            } => {
                let head = cat6(
                    "model ",
                    model_path.as_str(),
                    " architecture ",
                    architecture,
                    " cannot start on backend ",
                    backend.as_str(),
                );
                cat3(
                    head.as_str(),
                    "; missing capabilities: ",
                    join_commas(missing).as_str(),
                )
            },
            ModelRegistryError::InvalidAdapterConfig { model_path, architecture, message } => cat6(
                "model ",
                model_path.as_str(),
                " resolved architecture ",
                architecture,
                ", but its adapter rejected the configuration: ",
                message.as_str(),
            ),
            ModelRegistryError::ModelLoad { model_path, architecture, message } => cat6(
                "failed to load model ",
                model_path.as_str(),
                " architecture ",
                architecture,
                ": ",
                message.as_str(),
            ),
        }
    }

    /// An error of the files of a model.
    pub fn from(value: ModelArtifactError) -> (error: ModelRegistryError)
        ensures
            error@ == RegistryFault::ModelArtifact(value@),
    {
        ModelRegistryError::ModelArtifact(value)
    }
}

/// What was read of a configuration document for one kind of model, or why it could not be read, with
/// what only the kernel can tell of it.
#[derive(Debug)]
pub enum AdapterConfig {
    MlaMoe(Result<MlaMoeConfig, String>),
    QwenDense(Result<QwenDenseConfig, String>),
    Qwen3_5 {
        config: Result<Qwen3_5TextConfig, String>,
        width: RotaryWidth,
        rotary: Result<(), String>,
    },
    KimiLinear { config: Result<KimiLinearConfig, String>, rotary: Result<(), String> },
}

/// Whether a configuration is of the kind that a model is defined by.
pub open spec fn fits(adapter: ModelAdapter, config: AdapterConfig) -> bool {
    match adapter {
        ModelAdapter::DeepSeekV3 | ModelAdapter::DeepSeekV4 | ModelAdapter::GlmMoeDsa => config
            is MlaMoe,
        ModelAdapter::Qwen2 | ModelAdapter::Qwen3 => config is QwenDense,
        ModelAdapter::Qwen3_5 => config is Qwen3_5,
        ModelAdapter::KimiLinear => config is KimiLinear,
    }
}

/// Why no definition can be made of a configuration.
pub open spec fn adapter_fault(adapter: ModelAdapter, config: AdapterConfig) -> Option<Seq<char>> {
    match (adapter, config) {
        (ModelAdapter::DeepSeekV3, AdapterConfig::MlaMoe(Ok(c))) => v3_fault(adapter.name(), c),
        (ModelAdapter::DeepSeekV3, AdapterConfig::MlaMoe(Err(message))) => Some(
            invalid_message(
                adapter.name(),
                "invalid DeepSeek V3 MLA/MoE config document: "@ + message@,
            ),
        ),
        (ModelAdapter::DeepSeekV4, AdapterConfig::MlaMoe(Ok(c))) => mla_moe_fault(
            adapter.name(),
            c,
            MlaMoeCheckpointFlavor::DeepSeek,
        ),
        (ModelAdapter::GlmMoeDsa, AdapterConfig::MlaMoe(Ok(c))) => mla_moe_fault(
            adapter.name(),
            c,
            MlaMoeCheckpointFlavor::Glm,
        ),
        (_, AdapterConfig::MlaMoe(Err(message))) => Some(
            invalid_message(
                adapter.name(),
                "invalid shared MLA/MoE config document: "@ + message@,
            ),
        ),
        (_, AdapterConfig::QwenDense(c)) => definition_fault(adapter.name(), c),
        (_, AdapterConfig::Qwen3_5 { config: Ok(c), width, rotary }) => qwen3_5_fault(
            c,
            width,
            rotary,
        ),
        (_, AdapterConfig::Qwen3_5 { config: Err(message), width, rotary }) => Some(
            invalid_message(
                adapter.name(),
                "invalid Qwen3.5 hybrid config document: "@ + message@,
            ),
        ),
        (_, AdapterConfig::KimiLinear { config: Ok(c), rotary }) => kimi_fault(c, rotary),
        (_, AdapterConfig::KimiLinear { config: Err(message), rotary }) => Some(
            invalid_message(adapter.name(), "invalid Kimi Linear config document: "@ + message@),
        ),
        _ => None,
    }
}

/// Whether a definition is the one that a model has by a configuration.
pub open spec fn defines(
    definition: ModelDefinition,
    adapter: ModelAdapter,
    hf_config: HfModelConfig,
    config: AdapterConfig,
) -> bool {
    definition.wf() && match (adapter, config) {
        (ModelAdapter::DeepSeekV3, AdapterConfig::MlaMoe(Ok(c))) => exists|
            spec: DeepSeekV3DefinitionSpec,
        | names_v3(spec) && v3_definition_of(definition, spec, hf_config, c),
        (ModelAdapter::DeepSeekV4, AdapterConfig::MlaMoe(Ok(c))) => mla_moe_definition_of(
            definition,
            adapter.name(),
            hf_config,
            c,
            MlaMoeCheckpointFlavor::DeepSeek,
        ),
        (ModelAdapter::GlmMoeDsa, AdapterConfig::MlaMoe(Ok(c))) => mla_moe_definition_of(
            definition,
            adapter.name(),
            hf_config,
            c,
            MlaMoeCheckpointFlavor::Glm,
        ),
        (ModelAdapter::Qwen2, AdapterConfig::QwenDense(Ok(c))) => definition_of(
            definition,
            adapter.name(),
            hf_config,
            c,
            qwen2_extras(),
        ),
        (ModelAdapter::Qwen3, AdapterConfig::QwenDense(Ok(c))) => definition_of(
            definition,
            adapter.name(),
            hf_config,
            c,
            qwen3_extras(c.attention_bias == Some(true)),
        ),
        (ModelAdapter::Qwen3_5, AdapterConfig::Qwen3_5 { config: Ok(c), width, rotary }) => {
            qwen3_5_definition_of(definition, hf_config, c, width.dim->0)
        },
        (ModelAdapter::KimiLinear, AdapterConfig::KimiLinear { config: Ok(c), rotary }) => {
            kimi_definition_of(definition, hf_config, c)
        },
        _ => false,
    }
}

/// A known model that a configuration names.
#[derive(Clone, Copy, Debug, PartialEq, Eq, Structural)]
pub struct ResolvedModelAdapter {
    pub adapter: ModelAdapter,
}

impl ResolvedModelAdapter {
    /// The name of the architecture.
    pub fn architecture(self) -> (name: &'static str)
        ensures
            name@ == self.adapter.name(),
    {
        self.adapter.architecture()
    }

    /// The definition of the model.
    pub fn build_definition(
        self,
        model_path: &str,
        hf_config: &HfModelConfig,
        config: AdapterConfig,
    ) -> (definition: Result<ModelDefinition, ModelRegistryError>)
        requires
            fits(self.adapter, config),
        ensures
            match definition {
                Ok(d) => adapter_fault(self.adapter, config) is None && defines(
                    d,
                    self.adapter,
                    *hf_config,
                    config,
                ),
                Err(e) => adapter_fault(self.adapter, config) is Some && e@ == (
                RegistryFault::InvalidAdapterConfig {
                    model_path: model_path@,
                    architecture: self.adapter.name(),
                    message: adapter_fault(self.adapter, config)->0,
                }),
            },
    {
        let built: Result<ModelDefinition, ModelAdapterError> = match (self.adapter, config) {
            (ModelAdapter::DeepSeekV3, AdapterConfig::MlaMoe(config)) => {
                build_deepseek_v3_definition(hf_config, config)
            },
            (ModelAdapter::DeepSeekV4, AdapterConfig::MlaMoe(config)) => build_mla_moe_definition(
                "DeepseekV4ForCausalLM",
                hf_config,
                config,
                MlaMoeCheckpointFlavor::DeepSeek,
            ),
            (ModelAdapter::GlmMoeDsa, AdapterConfig::MlaMoe(config)) => build_mla_moe_definition(
                "GlmMoeDsaForCausalLM",
                hf_config,
                config,
                MlaMoeCheckpointFlavor::Glm,
            ),
            (ModelAdapter::Qwen2, AdapterConfig::QwenDense(config)) => build_qwen2_definition(
                hf_config,
                config,
            ),
            (ModelAdapter::Qwen3, AdapterConfig::QwenDense(config)) => build_qwen3_definition(
                hf_config,
                config,
            ),
            (ModelAdapter::Qwen3_5, AdapterConfig::Qwen3_5 { config, width, rotary }) => {
                build_qwen3_5_definition(hf_config, config, &width, &rotary)
            },
            (ModelAdapter::KimiLinear, AdapterConfig::KimiLinear { config, rotary }) => {
                build_kimi_linear_definition(hf_config, config, rotary)
            },
            _ => vstd::pervasive::unreached(),
        };
        match built {
            Ok(definition) => Ok(definition),
            Err(error) => Err(
                ModelRegistryError::InvalidAdapterConfig {
                    model_path: model_path.to_owned(),
                    architecture: self.adapter.architecture(),
                    message: error.to_string(),
                },
            ),
        }
    }
}

/// The models that are known.
#[derive(Clone, Copy, Debug, Default)]
pub struct ModelRegistry;

/// The names of the known models.
pub open spec fn supported_names() -> Seq<Seq<char>> {
    adapters().map_values(|adapter: ModelAdapter| adapter.name())
}

/// Why a configuration names no known model.
pub open spec fn resolve_fault(model_path: Seq<char>, names: Seq<Seq<char>>) -> RegistryFault {
    if names.len() == 0 {
        RegistryFault::MissingArchitectures { model_path }
    } else {
        RegistryFault::UnsupportedArchitectures {
            model_path,
            requested: names,
            supported: supported_names(),
        }
    }
}

/// The first name that is known decides, whatever stands before and behind it.
pub proof fn first_known_architecture_counts(names: Seq<Seq<char>>, i: nat)
    requires
        i < names.len(),
        adapter_from(names[i as int], 0) is Some,
        forall|j: int| 0 <= j < i ==> adapter_from(#[trigger] names[j], 0) is None,
    ensures
        adapter_for(names, 0) == adapter_from(names[i as int], 0),
{
    lemma_adapter_for(names, 0, i);
}

proof fn lemma_adapter_for(names: Seq<Seq<char>>, from: nat, i: nat)
    requires
        from <= i < names.len(),
        adapter_from(names[i as int], 0) is Some,
        forall|j: int| 0 <= j < i ==> adapter_from(#[trigger] names[j], 0) is None,
    ensures
        adapter_for(names, from) == adapter_from(names[i as int], 0),
    decreases i - from,
{
    if from < i {
        assert(adapter_from(names[from as int], 0) is None);
        lemma_adapter_for(names, from + 1, i);
    }
}

/// Every known model is found by its name.
pub proof fn known_models_are_found(adapter: ModelAdapter)
    ensures
        adapter_from(adapter.name(), 0) == Some(adapter),
{
    reveal_strlit("DeepseekV3ForCausalLM");
    reveal_strlit("DeepseekV4ForCausalLM");
    reveal_strlit("GlmMoeDsaForCausalLM");
    reveal_strlit("Qwen2ForCausalLM");
    reveal_strlit("Qwen3ForCausalLM");
    reveal_strlit("Qwen3_5ForConditionalGeneration");
    reveal_strlit("KimiLinearForCausalLM");
    let place: nat = match adapter {
        ModelAdapter::DeepSeekV3 => 0,
        ModelAdapter::DeepSeekV4 => 1,
        ModelAdapter::GlmMoeDsa => 2,
        ModelAdapter::Qwen2 => 3,
        ModelAdapter::Qwen3 => 4,
        ModelAdapter::Qwen3_5 => 5,
        ModelAdapter::KimiLinear => 6,
    };
    assert(adapters()[place as int] == adapter);
    assert("DeepseekV3ForCausalLM"@[9] == '3');
    assert("DeepseekV4ForCausalLM"@[9] == '4');
    assert("Qwen2ForCausalLM"@[4] == '2');
    assert("Qwen3ForCausalLM"@[4] == '3');
    assert forall|i: int| 0 <= i < place implies (#[trigger] adapters()[i]).name()
        != adapter.name() by {
        let a = adapters()[i].name();
        let b = adapter.name();
        if a.len() == b.len() {
            assert(a[9] != b[9] || a[4] != b[4]);
        }
    }
    lemma_adapter_from(adapter, 0, place);
}

proof fn lemma_adapter_from(adapter: ModelAdapter, from: nat, place: nat)
    requires
        from <= place < adapters().len(),
        adapters()[place as int] == adapter,
        forall|i: int|
            0 <= i < place ==> (#[trigger] adapters()[i]).name() != adapter.name(),
    ensures
        adapter_from(adapter.name(), from) == Some(adapter),
    decreases place - from,
{
    if from < place {
        assert(adapters()[from as int].name() != adapter.name());
        lemma_adapter_from(adapter, from + 1, place);
    }
}

impl ModelRegistry {
    /// The known model that a configuration names.
    pub fn resolve(self, model_path: &str, config: &HfModelConfig) -> (resolved: Result<
        ResolvedModelAdapter,
        ModelRegistryError,
    >)
        ensures
            match resolved {
                Ok(r) => adapter_for(config@.architectures, 0) == Some(r.adapter),
                Err(e) => adapter_for(config@.architectures, 0) is None && e@ == resolve_fault(
                    model_path@,
                    config@.architectures,
                ),
            },
    {
        let names = config.architectures();
        let ghost all = config@.architectures;
        if names.len() == 0 {
            return Err(
                ModelRegistryError::MissingArchitectures { model_path: model_path.to_owned() },
            );
        }
        let mut i: usize = 0;
        while i < names.len()
            invariant
                i <= names@.len(),
                all == config@.architectures,
                all == texts(names@),
                adapter_for(all, 0) == adapter_for(all, i as nat),
            decreases names@.len() - i,
        {
            proof {
                assert(all[i as int] == names@[i as int]@);
            }
            if let Some(adapter) = find_adapter(names[i].as_str()) {
                return Ok(ResolvedModelAdapter { adapter });
            }
            i = i + 1;
        }
        let mut requested: Vec<String> = Vec::new();
        let mut k: usize = 0;
        while k < names.len()
            invariant
                k <= names@.len(),
                requested@.len() == k,
                forall|j: int| 0 <= j < k ==> (#[trigger] requested@[j])@ == names@[j]@,
            decreases names@.len() - k,
        {
            requested.push(names[k].clone());
            k = k + 1;
        }
        let known = self.supported_architectures();
        let mut supported: Vec<String> = Vec::new();
        let mut n: usize = 0;
        while n < known.len()
            invariant
                n <= known@.len(),
                supported@.len() == n,
                forall|j: int| 0 <= j < n ==> (#[trigger] supported@[j])@ == known@[j]@,
            decreases known@.len() - n,
        {
            supported.push(known[n].to_owned());
            n = n + 1;
        }
        proof {
            assert(texts(requested@) =~= all);
            assert(texts(supported@) =~= supported_names());
        }
        Err(
            ModelRegistryError::UnsupportedArchitectures {
                model_path: model_path.to_owned(),
                requested,
                supported,
            },
        )
    }

    /// The definition of the model that a configuration names.
    pub fn definition(
        self,
        model_path: &str,
        hf_config: &HfModelConfig,
        config: AdapterConfig,
    ) -> (definition: Result<ModelDefinition, ModelRegistryError>)
        requires
            adapter_for(hf_config@.architectures, 0) is Some ==> fits(
                adapter_for(hf_config@.architectures, 0)->0,
                config,
            ),
        ensures
            match adapter_for(hf_config@.architectures, 0) {
                None => definition is Err && definition->Err_0@ == resolve_fault(
                    model_path@,
                    hf_config@.architectures,
                ),
                Some(adapter) => match definition {
                    Ok(d) => adapter_fault(adapter, config) is None && defines(
                        d,
                        adapter,
                        *hf_config,
                        config,
                    ),
                    Err(e) => adapter_fault(adapter, config) is Some && e@ == (
                    RegistryFault::InvalidAdapterConfig {
                        model_path: model_path@,
                        architecture: adapter.name(),
                        message: adapter_fault(adapter, config)->0,
                    }),
                },
            },
    {
        match self.resolve(model_path, hf_config) {
            Ok(resolved) => resolved.build_definition(model_path, hf_config, config),
            Err(error) => Err(error),
        }
    }

    /// The names of the known models.
    pub fn supported_architectures(self) -> (names: Vec<&'static str>)
        ensures
            names@.len() == supported_names().len(),
            forall|i: int|
                0 <= i < names@.len() ==> (#[trigger] names@[i])@ == supported_names()[i],
    {
        let list = all_adapters();
        let mut names: Vec<&'static str> = Vec::new();
        let mut i: usize = 0;
        while i < list.len()
            invariant
                i <= list@.len(),
                list@ == adapters(),
                names@.len() == i,
                forall|j: int| 0 <= j < i ==> (#[trigger] names@[j])@ == supported_names()[j],
            decreases list@.len() - i,
        {
            names.push(list[i].architecture());
            i = i + 1;
        }
        names
    }

    /// Whether the checkpoint of a model holds what the model must have.
    pub fn validate_checkpoint(self, artifacts: &LocalModelArtifacts, config: AdapterConfig) -> (
    valid: Result<(), ModelRegistryError>)
        requires
            artifacts.wf(),
            adapter_for(artifacts@.config.architectures, 0) is Some ==> fits(
                adapter_for(artifacts@.config.architectures, 0)->0,
                config,
            ),
        ensures
            match adapter_for(artifacts@.config.architectures, 0) {
                None => valid is Err && valid->Err_0@ == resolve_fault(
                    artifacts@.model_path,
                    artifacts@.config.architectures,
                ),
                Some(adapter) => match adapter_fault(adapter, config) {
                    Some(message) => valid is Err && valid->Err_0@ == (
                    RegistryFault::InvalidAdapterConfig {
                        model_path: artifacts@.model_path,
                        architecture: adapter.name(),
                        message,
                    }),
                    None => exists|definition: ModelDefinition, hf_config: HfModelConfig|
                        hf_config@ == artifacts@.config && #[trigger] defines(
                            definition,
                            adapter,
                            hf_config,
                            config,
                        ) && match checkpoint_fits(definition, artifacts@) {
                            Ok(_) => valid is Ok,
                            Err(fault) => valid is Err && valid->Err_0@
                                == RegistryFault::ModelArtifact(fault),
                        },
                },
            },
    {
        let definition = match self.definition(
            artifacts.model_path(),
            artifacts.config(),
            config,
        ) {
            Ok(definition) => definition,
            Err(error) => {
                return Err(error);
            },
        };
        match definition.validate_checkpoint(artifacts) {
            Ok(_) => Ok(()),
            Err(error) => Err(ModelRegistryError::from(error)),
        }
    }
}

/// Why a model that is defined was not loaded.
pub fn runtime_error(
    model_path: &str,
    architecture: &'static str,
    backend: &str,
    error: ModelRuntimeLoadError,
) -> (registry_error: ModelRegistryError)
    ensures
        registry_error@ == match error@ {
            RuntimeFault::MissingCapabilities(missing) => RegistryFault::MissingCapabilities {
                model_path: model_path@,
                architecture: architecture@,
                backend: backend@,
                missing,
            },
            RuntimeFault::Load(message) => RegistryFault::ModelLoad {
                model_path: model_path@,
                architecture: architecture@,
                message,
            },
        },
{
    match error {
        ModelRuntimeLoadError::MissingCapabilities(missing) => {
            ModelRegistryError::MissingCapabilities {
                model_path: model_path.to_owned(),
                architecture,
                backend: backend.to_owned(),
                missing,
            }
        },
        ModelRuntimeLoadError::Load(message) => ModelRegistryError::ModelLoad {
            model_path: model_path.to_owned(),
            architecture,
            message,
        },
    }
}

/// Why the first rank of a node cannot be told.
pub open spec fn node_rank_fault(tp_size: usize, nnodes: usize, node_rank: usize) -> Option<
    Seq<char>,
> {
    if nnodes == 0 {
        Some("node count must be positive"@)
    } else if node_rank * (tp_size as int / nnodes as int) > usize::MAX {
        Some("tensor parallel rank overflowed"@)
    } else {
        None
    }
}

/// The first rank of a node, where each node has equally many.
pub fn first_rank_of_node(tp_size: usize, nnodes: usize, node_rank: usize) -> (rank: Result<
    usize,
    String,
>)
    ensures
        match rank {
            Ok(r) => node_rank_fault(tp_size, nnodes, node_rank) is None && r == node_rank * (
            tp_size as int / nnodes as int),
            Err(message) => node_rank_fault(tp_size, nnodes, node_rank) == Some(message@),
        },
{
    if nnodes == 0 {
        return Err("node count must be positive".to_owned());
    }
    let ranks_per_node: usize = tp_size / nnodes;
    match node_rank.checked_mul(ranks_per_node) {
        Some(rank) => Ok(rank),
        None => Err("tensor parallel rank overflowed".to_owned()),
    }
}

/// Whether the weights of a model can be replaced while it runs: not where it owns memory that others
/// may read.
pub fn check_weights_replaceable(has_runtime_kv_cache: bool) -> (replaceable: Result<(), String>)
    ensures
        match replaceable {
            Ok(_) => !has_runtime_kv_cache,
            Err(message) => has_runtime_kv_cache && message@
                == "update_weights_from_disk requires a runtime restart when the model owns transferable KV memory; replacing a registered allocation in place is unsupported"@,
        },
{
    if has_runtime_kv_cache {
        return Err(
            "update_weights_from_disk requires a runtime restart when the model owns transferable KV memory; replacing a registered allocation in place is unsupported".to_owned(),
        );
    }
    Ok(())
}

/// A model that has been loaded by a runtime.
#[derive(Debug)]
pub struct RegisteredModel<R> {
    model_path: String,
    definition: ModelDefinition,
    runtime_backend: String,
    tensor_parallel_size: usize,
    runtime: R,
}

impl<R> RegisteredModel<R> {
    /// Where the model lies.
    pub closed spec fn path(self) -> Seq<char> {
        self.model_path@
    }

    /// What the model is.
    pub closed spec fn defined(self) -> ModelDefinition {
        self.definition
    }

    /// The name of the backend.
    pub closed spec fn backend(self) -> Seq<char> {
        self.runtime_backend@
    }

    /// The number of ranks.
    pub closed spec fn ranks(self) -> usize {
        self.tensor_parallel_size
    }

    /// What runs the model.
    pub closed spec fn runs_on(self) -> R {
        self.runtime
    }

    /// A model that has been loaded.
    pub fn new(
        model_path: String,
        definition: ModelDefinition,
        runtime_backend: String,
        tensor_parallel_size: usize,
        runtime: R,
    ) -> (model: RegisteredModel<R>)
        ensures
            model.path() == model_path@,
            model.defined() == definition,
            model.backend() == runtime_backend@,
            model.ranks() == tensor_parallel_size,
            model.runs_on() == runtime,
    {
        RegisteredModel { model_path, definition, runtime_backend, tensor_parallel_size, runtime }
    }

    /// The name of the architecture.
    pub fn architecture(&self) -> (name: &'static str)
        ensures
            name@ == self.defined().architecture@,
    {
        self.definition.architecture()
    }

    /// Where the model lies.
    pub fn model_path(&self) -> (path: &str)
        ensures
            path@ == self.path(),
    {
        self.model_path.as_str()
    }

    /// The type that the configuration gave to the model.
    pub fn model_type(&self) -> (name: Option<&str>)
        ensures
            match name {
                Some(text) => crate::model_definition::model_type_of(self.defined()) == Some(
                    text@,
                ),
                None => crate::model_definition::model_type_of(self.defined()) is None,
            },
    {
        self.definition.model_type()
    }

    /// What the model is.
    pub fn definition(&self) -> (definition: &ModelDefinition)
        ensures
            *definition == self.defined(),
    {
        &self.definition
    }

    /// The name of the backend.
    pub fn runtime_backend(&self) -> (name: &str)
        ensures
            name@ == self.backend(),
    {
        self.runtime_backend.as_str()
    }

    /// The number of ranks.
    pub fn tensor_parallel_size(&self) -> (size: usize)
        ensures
            size == self.ranks(),
    {
        self.tensor_parallel_size
    }

    /// What runs the model.
    pub fn runtime(&self) -> (runtime: &R)
        ensures
            *runtime == self.runs_on(),
    {
        &self.runtime
    }

    /// What runs the model, to run it.
    pub fn runtime_mut(&mut self) -> (runtime: &mut R)
        ensures
            *runtime == old(self).runs_on(),
            final(self).runs_on() == *final(runtime),
            final(self).path() == old(self).path(),
            final(self).defined() == old(self).defined(),
            final(self).backend() == old(self).backend(),
            final(self).ranks() == old(self).ranks(),
    {
        &mut self.runtime
    }
}

} // verus!
