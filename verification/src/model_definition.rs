//! What a model is: how it is run, what it keeps, and what its checkpoint must hold.
use vstd::prelude::*;
use vstd::string::*;

use crate::artifact_error::{data_fault, invalid_safetensors_data, ArtifactFault, ModelArtifactError};
use crate::checkpoint::{
    requirements, shape_text, text_of_shape, topology_met, CheckpointTensorRequirement,
    CheckpointTopology, TensorRequirement, Topology,
};
use crate::decoder_plans::{
    cache_layers, count_cache_layers, dense_feed_forward_requirements, recurrent_layout,
    recurrent_state_layout, require1, require2, require3, require_optional1, require_optional2,
    shaped, with_feed_forward, with_optional, DenseDecoderExecutionPlan,
    DenseDecoderLayerWeightNames, HybridDecoderExecutionPlan, HybridDecoderLayerKind,
    HybridDecoderLayerWeightNames, HybridFeedForward, HybridFullAttentionConfig,
    HybridLinearAttentionConfig, RecurrentStateLayout,
};
use crate::kv_cache::KvCacheModelLayout;
use crate::local_model::{LocalModel, LocalModelArtifacts};
use crate::model_config::HfModelConfig;
use crate::models::{
    invalid_message, AttentionArchitecture, FeedForwardArchitecture, ModelAdapterError,
    ModelCacheArchitecture, ModelExecutionArchitecture, RuntimeDtype,
};
use crate::payload::either;
use crate::safetensors::TensorMetadata;
use crate::safetensors_spans::metadata_in;
use crate::text::{cat2, cat3, cat4};

verus! {

/// What a model is.
#[derive(Clone, Debug, PartialEq, Eq)]
pub struct ModelDefinition {
    pub architecture: &'static str,
    pub model_type: Option<String>,
    pub vocab_size: Option<usize>,
    pub max_context_length: Option<usize>,
    pub eos_token_ids: Vec<u32>,
    pub execution: ModelExecutionArchitecture,
    pub supported_dtypes: Vec<RuntimeDtype>,
    pub kv_cache_layout: Option<KvCacheModelLayout>,
    pub cache_architecture: ModelCacheArchitecture,
    pub recurrent_state: Option<RecurrentStateLayout>,
    pub dense_decoder: Option<DenseDecoderExecutionPlan>,
    pub hybrid_decoder: Option<HybridDecoderExecutionPlan>,
    pub checkpoint_topology: CheckpointTopology,
}

/// What a runtime must be able to do.
#[derive(Clone, Copy, Debug)]
pub struct RuntimeRequirements<'a> {
    pub requires_forward: bool,
    pub dtype: Option<RuntimeDtype>,
    pub attention_backend: Option<&'a str>,
    pub tensor_parallel_size: usize,
    pub requires_kv_cache_registration: bool,
    pub requires_mooncake: bool,
}

/// Asks for nothing.
pub open spec fn no_topology() -> Topology {
    Topology { tensors: Seq::empty(), experts: Set::empty(), weights_per_group: 0 }
}

/// A definition that has been made of a configuration and nothing more.
pub open spec fn bare_definition(
    definition: ModelDefinition,
    architecture: Seq<char>,
    config: HfModelConfig,
    execution: ModelExecutionArchitecture,
    supported_dtypes: Seq<RuntimeDtype>,
    kv_cache_layout: Option<KvCacheModelLayout>,
) -> bool {
    &&& definition.architecture@ == architecture
    &&& model_type_of(definition) == config@.model_type
    &&& definition.eos_token_ids@ == config@.eos_token_ids
    &&& definition.execution == execution
    &&& definition.supported_dtypes@ == supported_dtypes
    &&& definition.kv_cache_layout == kv_cache_layout
}

/// The type that a configuration gave to a model.
pub open spec fn model_type_of(definition: ModelDefinition) -> Option<Seq<char>> {
    match definition.model_type {
        Some(text) => Some(text@),
        None => None,
    }
}

/// What a plan of a hybrid decoder says of what the model keeps: a state where it has layers that
/// keep no keys.
pub open spec fn hybrid_cache(
    plan: HybridDecoderExecutionPlan,
    without: ModelCacheArchitecture,
) -> ModelCacheArchitecture {
    let layers = plan.weights.layers@;
    let full = cache_layers(layers, layers.len());
    if full == layers.len() {
        without
    } else {
        ModelCacheArchitecture::HybridState {
            full_attention_layer_count: full as usize,
            recurrent_state_layer_count: (layers.len() - full) as usize,
        }
    }
}

/// The state that the recurrent layers of a plan keep, where it has some.
pub open spec fn hybrid_state(plan: HybridDecoderExecutionPlan) -> Option<RecurrentStateLayout> {
    let layers = plan.weights.layers@;
    let full = cache_layers(layers, layers.len());
    if full == layers.len() {
        None
    } else {
        Some(recurrent_layout((layers.len() - full) as usize, plan.linear_attention->0))
    }
}

/// Whether a plan has a linear attention where it has recurrent layers.
pub open spec fn has_linear_attention(plan: HybridDecoderExecutionPlan) -> bool {
    let layers = plan.weights.layers@;
    cache_layers(layers, layers.len()) < layers.len() ==> plan.linear_attention is Some
}

impl ModelDefinition {
    /// What the checkpoint must hold is in order.
    pub open spec fn wf(self) -> bool {
        self.checkpoint_topology.wf()
    }

    /// A model that is made of a configuration.
    pub fn new(
        architecture: &'static str,
        config: &HfModelConfig,
        execution: ModelExecutionArchitecture,
        supported_dtypes: Vec<RuntimeDtype>,
        kv_cache_layout: Option<KvCacheModelLayout>,
    ) -> (definition: ModelDefinition)
        ensures
            bare_definition(
                definition,
                architecture@,
                *config,
                execution,
                supported_dtypes@,
                kv_cache_layout,
            ),
            definition.wf(),
            definition.checkpoint_topology@ == no_topology(),
            definition.vocab_size is None,
            definition.max_context_length is None,
            definition.recurrent_state is None,
            definition.dense_decoder is None,
            definition.hybrid_decoder is None,
            definition.cache_architecture == (if kv_cache_layout is Some {
                ModelCacheArchitecture::PagedKv
            } else {
                ModelCacheArchitecture::Absent
            }),
    {
        let none: Vec<CheckpointTensorRequirement> = Vec::new();
        let topology = CheckpointTopology::new(none);
        proof {
            assert(requirements(none@) =~= Seq::empty());
        }
        ModelDefinition {
            architecture,
            model_type: config.model_type_copy(),
            vocab_size: None,
            max_context_length: None,
            eos_token_ids: config.eos_token_ids_copy(),
            execution,
            supported_dtypes,
            kv_cache_layout,
            cache_architecture: if kv_cache_layout.is_some() {
                ModelCacheArchitecture::PagedKv
            } else {
                ModelCacheArchitecture::Absent
            },
            recurrent_state: None,
            dense_decoder: None,
            hybrid_decoder: None,
            checkpoint_topology: topology,
        }
    }

    /// With the size of its vocabulary and the length of its context.
    pub fn with_serving_metadata(self, vocab_size: usize, max_context_length: usize) -> (definition:
        ModelDefinition)
        ensures
            definition == (ModelDefinition {
                vocab_size: Some(vocab_size),
                max_context_length: Some(max_context_length),
                ..self
            }),
    {
        let mut definition = self;
        definition.vocab_size = Some(vocab_size);
        definition.max_context_length = Some(max_context_length);
        definition
    }

    /// With what its checkpoint must hold.
    pub fn with_checkpoint_topology(self, topology: CheckpointTopology) -> (definition:
        ModelDefinition)
        ensures
            definition == (ModelDefinition { checkpoint_topology: topology, ..self }),
    {
        let mut definition = self;
        definition.checkpoint_topology = topology;
        definition
    }

    /// With the plan of a dense decoder.
    pub fn with_dense_decoder(self, plan: DenseDecoderExecutionPlan) -> (definition:
        ModelDefinition)
        ensures
            definition == (ModelDefinition { dense_decoder: Some(plan), ..self }),
    {
        let mut definition = self;
        definition.dense_decoder = Some(plan);
        definition
    }

    /// With the plan of a hybrid decoder, and what it keeps.
    pub fn with_hybrid_decoder(self, plan: HybridDecoderExecutionPlan) -> (definition:
        ModelDefinition)
        requires
            has_linear_attention(plan),
        ensures
            definition == (ModelDefinition {
                cache_architecture: hybrid_cache(plan, self.cache_architecture),
                recurrent_state: if hybrid_state(plan) is Some {
                    hybrid_state(plan)
                } else {
                    self.recurrent_state
                },
                hybrid_decoder: Some(plan),
                ..self
            }),
    {
        let mut definition = self;
        let full_attention_layer_count: usize = count_cache_layers(&plan.weights.layers);
        let recurrent_state_layer_count: usize = plan.weights.layers.len()
            - full_attention_layer_count;
        if recurrent_state_layer_count > 0 {
            definition.cache_architecture = ModelCacheArchitecture::HybridState {
                full_attention_layer_count,
                recurrent_state_layer_count,
            };
            if let Some(linear) = plan.linear_attention {
                definition.recurrent_state = Some(
                    recurrent_state_layout(recurrent_state_layer_count, linear),
                );
            }
        }
        definition.hybrid_decoder = Some(plan);
        definition
    }

    /// The name of the architecture.
    pub fn architecture(&self) -> (name: &'static str)
        ensures
            name@ == self.architecture@,
    {
        self.architecture
    }

    /// The type that the configuration gave to the model.
    pub fn model_type(&self) -> (name: Option<&str>)
        ensures
            match name {
                Some(text) => model_type_of(*self) == Some(text@),
                None => model_type_of(*self) is None,
            },
    {
        match &self.model_type {
            Some(text) => Some(text.as_str()),
            None => None,
        }
    }

    /// The size of the vocabulary.
    pub fn vocab_size(&self) -> (size: Option<usize>)
        ensures
            size == self.vocab_size,
    {
        self.vocab_size
    }

    /// The length of the context.
    pub fn max_context_length(&self) -> (length: Option<usize>)
        ensures
            length == self.max_context_length,
    {
        self.max_context_length
    }

    /// The tokens that end a text.
    pub fn eos_token_ids(&self) -> (ids: &Vec<u32>)
        ensures
            ids@ == self.eos_token_ids@,
    {
        &self.eos_token_ids
    }

    /// What the checkpoint must hold.
    pub fn checkpoint_topology(&self) -> (topology: &CheckpointTopology)
        ensures
            *topology == self.checkpoint_topology,
    {
        &self.checkpoint_topology
    }

    /// Whether a checkpoint holds what it must hold.
    pub fn validate_checkpoint(&self, artifacts: &LocalModelArtifacts) -> (valid: Result<
        (),
        ModelArtifactError,
    >)
        requires
            self.wf(),
            artifacts.wf(),
        ensures
            match valid {
                Ok(_) => checkpoint_fits(*self, artifacts@) == Ok::<(), ArtifactFault>(()),
                Err(e) => checkpoint_fits(*self, artifacts@) == Err::<(), ArtifactFault>(e@),
            },
    {
        artifacts.validate_checkpoint_topology(&self.checkpoint_topology)
    }

    /// How the model is run.
    pub fn execution(&self) -> (execution: ModelExecutionArchitecture)
        ensures
            execution == self.execution,
    {
        self.execution
    }

    /// The number types in which the model can be run.
    pub fn supported_dtypes(&self) -> (dtypes: &Vec<RuntimeDtype>)
        ensures
            dtypes@ == self.supported_dtypes@,
    {
        &self.supported_dtypes
    }

    /// The cache of keys and values.
    pub fn kv_cache_layout(&self) -> (layout: Option<KvCacheModelLayout>)
        ensures
            layout == self.kv_cache_layout,
    {
        self.kv_cache_layout
    }

    /// What the model keeps.
    pub fn cache_architecture(&self) -> (cache: ModelCacheArchitecture)
        ensures
            cache == self.cache_architecture,
    {
        self.cache_architecture
    }

    /// The state that recurrent layers keep.
    pub fn recurrent_state_layout(&self) -> (layout: Option<RecurrentStateLayout>)
        ensures
            layout == self.recurrent_state,
    {
        self.recurrent_state
    }

    /// The plan of a dense decoder.
    pub fn dense_decoder(&self) -> (plan: Option<&DenseDecoderExecutionPlan>)
        ensures
            match plan {
                Some(p) => self.dense_decoder == Some(*p),
                None => self.dense_decoder is None,
            },
    {
        self.dense_decoder.as_ref()
    }

    /// The plan of a hybrid decoder.
    pub fn hybrid_decoder(&self) -> (plan: Option<&HybridDecoderExecutionPlan>)
        ensures
            match plan {
                Some(p) => self.hybrid_decoder == Some(*p),
                None => self.hybrid_decoder is None,
            },
    {
        self.hybrid_decoder.as_ref()
    }

    /// What a runtime must be able to do for the model.
    pub fn runtime_requirements<'a>(
        &self,
        execution_dtype: RuntimeDtype,
        tensor_parallel_size: usize,
        requested_attention_backend: Option<&'a str>,
    ) -> (needed: RuntimeRequirements<'a>)
        ensures
            needed.requires_forward,
            needed.dtype == Some(execution_dtype),
            needed.attention_backend == requested_attention_backend,
            needed.tensor_parallel_size == tensor_parallel_size,
            !needed.requires_kv_cache_registration,
            !needed.requires_mooncake,
    {
        RuntimeRequirements {
            requires_forward: true,
            dtype: Some(execution_dtype),
            attention_backend: requested_attention_backend,
            tensor_parallel_size,
            requires_kv_cache_registration: false,
            requires_mooncake: false,
        }
    }

    /// Whether the model can be given to that many ranks.
    pub fn validate_tensor_parallel(&self, tensor_parallel_size: usize) -> (valid: Result<
        (),
        String,
    >)
        ensures
            match valid {
                Ok(_) => ranks_fault(self.execution, tensor_parallel_size) is None,
                Err(message) => ranks_fault(self.execution, tensor_parallel_size) == Some(
                    message@,
                ),
            },
    {
        if tensor_parallel_size == 0 {
            return Err("tensor parallel size must be non-zero".to_owned());
        }
        self.execution.validate_tensor_parallel(tensor_parallel_size)
    }
}

/// Why a model cannot be given to that many ranks, if it cannot.
pub open spec fn ranks_fault(
    execution: ModelExecutionArchitecture,
    tensor_parallel_size: usize,
) -> Option<Seq<char>> {
    if tensor_parallel_size == 0 {
        Some("tensor parallel size must be non-zero"@)
    } else {
        execution.parallel_fault(tensor_parallel_size)
    }
}

/// Whether a checkpoint holds what it must hold for a model.
pub open spec fn checkpoint_fits(definition: ModelDefinition, model: LocalModel) -> Result<
    (),
    ArtifactFault,
> {
    topology_met(
        model.model_path,
        definition.checkpoint_topology@,
        model.safetensors,
        model.shards,
    )
}

/// The sizes of the projections of a dense decoder.
pub struct DenseSizes {
    pub query_size: usize,
    pub kv_size: usize,
    pub head_dim: usize,
    pub intermediate_size: usize,
}

/// Why the sizes of a dense decoder cannot be computed.
pub open spec fn dense_sizes_fault(
    execution: ModelExecutionArchitecture,
    wrong_components: Seq<char>,
) -> Option<Seq<char>> {
    match execution {
        ModelExecutionArchitecture::Transformer {
            attention: AttentionArchitecture::MultiHead {
                num_attention_heads,
                num_key_value_heads,
                head_dim,
            },
            feed_forward: FeedForwardArchitecture::Dense { intermediate_size },
        } => if num_attention_heads * head_dim > usize::MAX {
            Some("query projection size overflowed"@)
        } else if num_key_value_heads * head_dim > usize::MAX {
            Some("KV projection size overflowed"@)
        } else {
            None
        },
        _ => Some(wrong_components),
    }
}

/// The sizes of the projections of a dense decoder.
pub open spec fn dense_sizes(execution: ModelExecutionArchitecture) -> DenseSizes {
    match execution {
        ModelExecutionArchitecture::Transformer {
            attention: AttentionArchitecture::MultiHead {
                num_attention_heads,
                num_key_value_heads,
                head_dim,
            },
            feed_forward: FeedForwardArchitecture::Dense { intermediate_size },
        } => DenseSizes {
            query_size: (num_attention_heads * head_dim) as usize,
            kv_size: (num_key_value_heads * head_dim) as usize,
            head_dim,
            intermediate_size,
        },
        _ => DenseSizes { query_size: 0, kv_size: 0, head_dim: 0, intermediate_size: 0 },
    }
}

fn sizes_of_dense(execution: ModelExecutionArchitecture, wrong_components: &str) -> (sizes: Result<
    DenseSizes,
    String,
>)
    ensures
        match sizes {
            Ok(s) => dense_sizes_fault(execution, wrong_components@) is None && s == dense_sizes(
                execution,
            ),
            Err(message) => dense_sizes_fault(execution, wrong_components@) == Some(message@),
        },
{
    match execution {
        ModelExecutionArchitecture::Transformer {
            attention: AttentionArchitecture::MultiHead {
                num_attention_heads,
                num_key_value_heads,
                head_dim,
            },
            feed_forward: FeedForwardArchitecture::Dense { intermediate_size },
        } => {
            let query_size: usize = match num_attention_heads.checked_mul(head_dim) {
                Some(size) => size,
                None => {
                    return Err("query projection size overflowed".to_owned());
                },
            };
            let kv_size: usize = match num_key_value_heads.checked_mul(head_dim) {
                Some(size) => size,
                None => {
                    return Err("KV projection size overflowed".to_owned());
                },
            };
            Ok(DenseSizes { query_size, kv_size, head_dim, intermediate_size })
        },
        _ => Err(wrong_components.to_owned()),
    }
}

/// The tensors of a dense decoder outside its layers.
pub open spec fn dense_root(plan: DenseDecoderExecutionPlan) -> Seq<TensorRequirement> {
    with_optional(
        Seq::<TensorRequirement>::empty().push(
            shaped(plan.weights.token_embeddings@, seq![plan.vocab_size, plan.hidden_size]),
        ).push(shaped(plan.weights.final_norm@, seq![plan.hidden_size])),
        plan.weights.lm_head,
        seq![plan.vocab_size, plan.hidden_size],
    )
}

fn dense_root_requirements(plan: &DenseDecoderExecutionPlan) -> (tensors: Vec<
    CheckpointTensorRequirement,
>)
    ensures
        requirements(tensors@) == dense_root(*plan),
{
    let mut tensors: Vec<CheckpointTensorRequirement> = Vec::new();
    proof {
        assert(requirements(tensors@) =~= Seq::empty());
    }
    require2(
        &mut tensors,
        plan.weights.token_embeddings.as_str(),
        plan.vocab_size,
        plan.hidden_size,
    );
    require1(&mut tensors, plan.weights.final_norm.as_str(), plan.hidden_size);
    require_optional2(&mut tensors, &plan.weights.lm_head, plan.vocab_size, plan.hidden_size);
    tensors
}

/// With the tensors of a layer of a dense decoder.
pub open spec fn with_dense_layer(
    tensors: Seq<TensorRequirement>,
    layer: DenseDecoderLayerWeightNames,
    hidden_size: usize,
    sizes: DenseSizes,
) -> Seq<TensorRequirement> {
    let q = sizes.query_size;
    let kv = sizes.kv_size;
    let h = hidden_size;
    let fixed = tensors.push(shaped(layer.input_norm@, seq![h])).push(
        shaped(layer.query_weight@, seq![q, h]),
    ).push(shaped(layer.key_weight@, seq![kv, h])).push(
        shaped(layer.value_weight@, seq![kv, h]),
    ).push(shaped(layer.output_weight@, seq![h, q])).push(
        shaped(layer.post_attention_norm@, seq![h]),
    ).push(shaped(layer.gate_weight@, seq![sizes.intermediate_size, h])).push(
        shaped(layer.up_weight@, seq![sizes.intermediate_size, h]),
    ).push(shaped(layer.down_weight@, seq![h, sizes.intermediate_size]));
    let query = with_optional(
        with_optional(fixed, layer.query_bias, seq![q]),
        layer.query_norm,
        seq![sizes.head_dim],
    );
    let key = with_optional(
        with_optional(query, layer.key_bias, seq![kv]),
        layer.key_norm,
        seq![sizes.head_dim],
    );
    with_optional(with_optional(key, layer.value_bias, seq![kv]), layer.output_bias, seq![h])
}

fn dense_layer_requirements(
    tensors: &mut Vec<CheckpointTensorRequirement>,
    layer: &DenseDecoderLayerWeightNames,
    hidden_size: usize,
    sizes: &DenseSizes,
)
    ensures
        requirements(final(tensors)@) == with_dense_layer(
            requirements(old(tensors)@),
            *layer,
            hidden_size,
            *sizes,
        ),
{
    require1(tensors, layer.input_norm.as_str(), hidden_size);
    require2(tensors, layer.query_weight.as_str(), sizes.query_size, hidden_size);
    require2(tensors, layer.key_weight.as_str(), sizes.kv_size, hidden_size);
    require2(tensors, layer.value_weight.as_str(), sizes.kv_size, hidden_size);
    require2(tensors, layer.output_weight.as_str(), hidden_size, sizes.query_size);
    require1(tensors, layer.post_attention_norm.as_str(), hidden_size);
    require2(tensors, layer.gate_weight.as_str(), sizes.intermediate_size, hidden_size);
    require2(tensors, layer.up_weight.as_str(), sizes.intermediate_size, hidden_size);
    require2(tensors, layer.down_weight.as_str(), hidden_size, sizes.intermediate_size);
    require_optional1(tensors, &layer.query_bias, sizes.query_size);
    require_optional1(tensors, &layer.query_norm, sizes.head_dim);
    require_optional1(tensors, &layer.key_bias, sizes.kv_size);
    require_optional1(tensors, &layer.key_norm, sizes.head_dim);
    require_optional1(tensors, &layer.value_bias, sizes.kv_size);
    require_optional1(tensors, &layer.output_bias, hidden_size);
}

/// The tensors of a dense decoder with its first `n` layers.
pub open spec fn dense_tensors(plan: DenseDecoderExecutionPlan, sizes: DenseSizes, n: nat) -> Seq<
    TensorRequirement,
>
    decreases n,
{
    if n == 0 || n > plan.weights.layers@.len() {
        dense_root(plan)
    } else {
        with_dense_layer(
            dense_tensors(plan, sizes, (n - 1) as nat),
            plan.weights.layers@[n - 1],
            plan.hidden_size,
            sizes,
        )
    }
}

/// Why the checkpoint of a dense decoder cannot be described.
pub open spec fn dense_topology_fault(
    architecture: Seq<char>,
    execution: ModelExecutionArchitecture,
    plan: DenseDecoderExecutionPlan,
) -> Option<Seq<char>> {
    match dense_sizes_fault(
        execution,
        "dense decoder checkpoint topology requires multi-head attention and dense feed-forward components"@,
    ) {
        Some(message) => Some(invalid_message(architecture, message)),
        None => if plan.weights.layers@.len() == 0 {
            Some(
                invalid_message(
                    architecture,
                    "dense decoder checkpoint topology has no layers"@,
                ),
            )
        } else {
            None
        },
    }
}

/// What the checkpoint of a dense decoder must hold.
pub fn dense_decoder_checkpoint_topology(
    architecture: &str,
    execution: ModelExecutionArchitecture,
    plan: &DenseDecoderExecutionPlan,
) -> (topology: Result<CheckpointTopology, ModelAdapterError>)
    ensures
        match topology {
            Ok(t) => t.wf() && dense_topology_fault(architecture@, execution, *plan) is None && t@
                == (Topology {
                tensors: dense_tensors(
                    *plan,
                    dense_sizes(execution),
                    plan.weights.layers@.len(),
                ),
                ..no_topology()
            }),
            Err(e) => dense_topology_fault(architecture@, execution, *plan) == Some(e@),
        },
{
    let sizes = match sizes_of_dense(
        execution,
        "dense decoder checkpoint topology requires multi-head attention and dense feed-forward components",
    ) {
        Ok(sizes) => sizes,
        Err(message) => {
            return Err(ModelAdapterError::invalid(architecture, message.as_str()));
        },
    };
    if plan.weights.layers.len() == 0 {
        return Err(
            ModelAdapterError::invalid(
                architecture,
                "dense decoder checkpoint topology has no layers",
            ),
        );
    }
    let mut tensors = dense_root_requirements(plan);
    let mut i: usize = 0;
    while i < plan.weights.layers.len()
        invariant
            i <= plan.weights.layers@.len(),
            requirements(tensors@) == dense_tensors(*plan, sizes, i as nat),
        decreases plan.weights.layers@.len() - i,
    {
        dense_layer_requirements(
            &mut tensors,
            &plan.weights.layers[i],
            plan.hidden_size,
            &sizes,
        );
        i = i + 1;
    }
    Ok(CheckpointTopology::new(tensors))
}

/// The sizes of the projections of a decoder of multi-head and gated delta layers.
pub struct HybridSizes {
    pub query_size: usize,
    pub projected_query_size: usize,
    pub kv_size: usize,
    pub head_dim: usize,
    pub linear_value_size: usize,
    pub conv_dim: usize,
    pub conv_kernel_dim: usize,
    pub value_head_dim: usize,
    pub num_value_heads: usize,
}

/// Why the sizes of a decoder of multi-head and gated delta layers cannot be computed.
pub open spec fn hybrid_sizes_fault(plan: HybridDecoderExecutionPlan) -> Option<Seq<char>> {
    match (plan.full_attention, plan.linear_attention) {
        (
            HybridFullAttentionConfig::MultiHead {
                num_attention_heads,
                num_key_value_heads,
                head_dim,
                rotary_dim,
                output_gate,
                rotary_embedding,
            },
            Some(
                HybridLinearAttentionConfig::GatedDeltaNet {
                    conv_kernel_dim,
                    key_head_dim,
                    value_head_dim,
                    num_key_heads,
                    num_value_heads,
                },
            ),
        ) => {
            let gates: nat = if output_gate {
                2
            } else {
                1
            };
            if num_attention_heads * head_dim > usize::MAX {
                Some("query projection size overflowed"@)
            } else if num_attention_heads * head_dim * gates > usize::MAX {
                Some("gated query projection size overflowed"@)
            } else if num_key_value_heads * head_dim > usize::MAX {
                Some("KV projection size overflowed"@)
            } else if num_key_heads * key_head_dim > usize::MAX {
                Some("linear key size overflowed"@)
            } else if num_value_heads * value_head_dim > usize::MAX {
                Some("linear value size overflowed"@)
            } else if num_key_heads * key_head_dim * 2 + num_value_heads * value_head_dim
                > usize::MAX {
                Some("linear convolution size overflowed"@)
            } else {
                None
            }
        },
        (HybridFullAttentionConfig::MultiHead { .. }, _) => Some(
            "multi-head/GDN checkpoint topology cannot validate key-gated delta attention"@,
        ),
        _ => Some("multi-head/GDN checkpoint topology cannot validate multi-latent attention"@),
    }
}

/// The sizes of the projections of a decoder of multi-head and gated delta layers.
pub open spec fn hybrid_sizes(plan: HybridDecoderExecutionPlan) -> HybridSizes {
    match (plan.full_attention, plan.linear_attention) {
        (
            HybridFullAttentionConfig::MultiHead {
                num_attention_heads,
                num_key_value_heads,
                head_dim,
                rotary_dim,
                output_gate,
                rotary_embedding,
            },
            Some(
                HybridLinearAttentionConfig::GatedDeltaNet {
                    conv_kernel_dim,
                    key_head_dim,
                    value_head_dim,
                    num_key_heads,
                    num_value_heads,
                },
            ),
        ) => HybridSizes {
            query_size: (num_attention_heads * head_dim) as usize,
            projected_query_size: (num_attention_heads * head_dim * (if output_gate {
                2int
            } else {
                1int
            })) as usize,
            kv_size: (num_key_value_heads * head_dim) as usize,
            head_dim,
            linear_value_size: (num_value_heads * value_head_dim) as usize,
            conv_dim: (num_key_heads * key_head_dim * 2 + num_value_heads
                * value_head_dim) as usize,
            conv_kernel_dim,
            value_head_dim,
            num_value_heads,
        },
        _ => arbitrary(),
    }
}

fn sizes_of_hybrid(plan: &HybridDecoderExecutionPlan) -> (sizes: Result<HybridSizes, String>)
    ensures
        match sizes {
            Ok(s) => hybrid_sizes_fault(*plan) is None && s == hybrid_sizes(*plan),
            Err(message) => hybrid_sizes_fault(*plan) == Some(message@),
        },
{
    match (plan.full_attention, plan.linear_attention) {
        (
            HybridFullAttentionConfig::MultiHead {
                num_attention_heads,
                num_key_value_heads,
                head_dim,
                rotary_dim,
                output_gate,
                rotary_embedding,
            },
            Some(
                HybridLinearAttentionConfig::GatedDeltaNet {
                    conv_kernel_dim,
                    key_head_dim,
                    value_head_dim,
                    num_key_heads,
                    num_value_heads,
                },
            ),
        ) => {
            let query_size: usize = match num_attention_heads.checked_mul(head_dim) {
                Some(size) => size,
                None => {
                    return Err("query projection size overflowed".to_owned());
                },
            };
            let gates: usize = if output_gate {
                2
            } else {
                1
            };
            let projected_query_size: usize = match query_size.checked_mul(gates) {
                Some(size) => size,
                None => {
                    return Err("gated query projection size overflowed".to_owned());
                },
            };
            let kv_size: usize = match num_key_value_heads.checked_mul(head_dim) {
                Some(size) => size,
                None => {
                    return Err("KV projection size overflowed".to_owned());
                },
            };
            let linear_key_size: usize = match num_key_heads.checked_mul(key_head_dim) {
                Some(size) => size,
                None => {
                    return Err("linear key size overflowed".to_owned());
                },
            };
            let linear_value_size: usize = match num_value_heads.checked_mul(value_head_dim) {
                Some(size) => size,
                None => {
                    return Err("linear value size overflowed".to_owned());
                },
            };
            let keys: usize = match linear_key_size.checked_mul(2) {
                Some(size) => size,
                None => {
                    return Err("linear convolution size overflowed".to_owned());
                },
            };
            let conv_dim: usize = match keys.checked_add(linear_value_size) {
                Some(size) => size,
                None => {
                    return Err("linear convolution size overflowed".to_owned());
                },
            };
            Ok(
                HybridSizes {
                    query_size,
                    projected_query_size,
                    kv_size,
                    head_dim,
                    linear_value_size,
                    conv_dim,
                    conv_kernel_dim,
                    value_head_dim,
                    num_value_heads,
                },
            )
        },
        (HybridFullAttentionConfig::MultiHead { .. }, _) => Err(
            "multi-head/GDN checkpoint topology cannot validate key-gated delta attention".to_owned(),
        ),
        _ => Err(
            "multi-head/GDN checkpoint topology cannot validate multi-latent attention".to_owned(),
        ),
    }
}

/// The tensors of a hybrid decoder outside its layers.
pub open spec fn hybrid_root(plan: HybridDecoderExecutionPlan) -> Seq<TensorRequirement> {
    with_optional(
        Seq::<TensorRequirement>::empty().push(
            shaped(plan.weights.token_embeddings@, seq![plan.vocab_size, plan.hidden_size]),
        ).push(shaped(plan.weights.final_norm@, seq![plan.hidden_size])),
        plan.weights.lm_head,
        seq![plan.vocab_size, plan.hidden_size],
    )
}

/// The tensors of a hybrid decoder outside its layers.
pub fn hybrid_root_requirements(plan: &HybridDecoderExecutionPlan) -> (tensors: Vec<
    CheckpointTensorRequirement,
>)
    ensures
        requirements(tensors@) == hybrid_root(*plan),
{
    let mut tensors: Vec<CheckpointTensorRequirement> = Vec::new();
    proof {
        assert(requirements(tensors@) =~= Seq::empty());
    }
    require2(
        &mut tensors,
        plan.weights.token_embeddings.as_str(),
        plan.vocab_size,
        plan.hidden_size,
    );
    require1(&mut tensors, plan.weights.final_norm.as_str(), plan.hidden_size);
    require_optional2(&mut tensors, &plan.weights.lm_head, plan.vocab_size, plan.hidden_size);
    tensors
}

/// Why the checkpoint of a layer cannot be described.
pub open spec fn hybrid_layer_fault(layer: HybridDecoderLayerWeightNames) -> Option<Seq<char>> {
    if !(layer.feed_forward is Dense) {
        Some("multi-head/GDN checkpoint topology requires dense feed-forward layers"@)
    } else if layer.mixer is FullAttention || layer.mixer is GatedDeltaNet {
        None
    } else {
        Some("multi-head/GDN checkpoint topology received an incompatible mixer"@)
    }
}

/// With the tensors of a layer of multi-head attention or of a gated delta network.
pub open spec fn with_hybrid_layer(
    tensors: Seq<TensorRequirement>,
    layer: HybridDecoderLayerWeightNames,
    hidden_size: usize,
    sizes: HybridSizes,
) -> Seq<TensorRequirement> {
    let h = hidden_size;
    let norms = tensors.push(shaped(layer.input_norm@, seq![h])).push(
        shaped(layer.post_attention_norm@, seq![h]),
    );
    let dense = match layer.feed_forward {
        HybridFeedForward::Dense { intermediate_size, weights } => with_feed_forward(
            norms,
            weights,
            h,
            intermediate_size,
        ),
        HybridFeedForward::MixtureOfExperts { config, weights } => norms,
    };
    match layer.mixer {
        HybridDecoderLayerKind::FullAttention { cache_layer_index, weights } => dense.push(
            shaped(weights.query_weight@, seq![sizes.projected_query_size, h]),
        ).push(shaped(weights.query_norm@, seq![sizes.head_dim])).push(
            shaped(weights.key_weight@, seq![sizes.kv_size, h]),
        ).push(shaped(weights.key_norm@, seq![sizes.head_dim])).push(
            shaped(weights.value_weight@, seq![sizes.kv_size, h]),
        ).push(shaped(weights.output_weight@, seq![h, sizes.query_size])),
        HybridDecoderLayerKind::GatedDeltaNet { state_layer_index, weights } => dense.push(
            shaped(weights.a_log@, seq![sizes.num_value_heads]),
        ).push(
            shaped(weights.conv1d_weight@, seq![sizes.conv_dim, 1usize, sizes.conv_kernel_dim]),
        ).push(shaped(weights.dt_bias@, seq![sizes.num_value_heads])).push(
            shaped(weights.in_proj_a_weight@, seq![sizes.num_value_heads, h]),
        ).push(shaped(weights.in_proj_b_weight@, seq![sizes.num_value_heads, h])).push(
            shaped(weights.in_proj_qkv_weight@, seq![sizes.conv_dim, h]),
        ).push(shaped(weights.in_proj_z_weight@, seq![sizes.linear_value_size, h])).push(
            shaped(weights.norm_weight@, seq![sizes.value_head_dim]),
        ).push(shaped(weights.output_weight@, seq![h, sizes.linear_value_size])),
        _ => dense,
    }
}

fn hybrid_layer_requirements(
    tensors: &mut Vec<CheckpointTensorRequirement>,
    layer: &HybridDecoderLayerWeightNames,
    hidden_size: usize,
    sizes: &HybridSizes,
) -> (fits: Result<(), String>)
    ensures
        match fits {
            Ok(_) => hybrid_layer_fault(*layer) is None && requirements(final(tensors)@)
                == with_hybrid_layer(requirements(old(tensors)@), *layer, hidden_size, *sizes),
            Err(message) => hybrid_layer_fault(*layer) == Some(message@),
        },
{
    require1(tensors, layer.input_norm.as_str(), hidden_size);
    require1(tensors, layer.post_attention_norm.as_str(), hidden_size);
    match &layer.feed_forward {
        HybridFeedForward::Dense { intermediate_size, weights } => {
            dense_feed_forward_requirements(tensors, weights, hidden_size, *intermediate_size);
        },
        HybridFeedForward::MixtureOfExperts { .. } => {
            return Err(
                "multi-head/GDN checkpoint topology requires dense feed-forward layers".to_owned(),
            );
        },
    }
    match &layer.mixer {
        HybridDecoderLayerKind::FullAttention { weights, .. } => {
            require2(
                tensors,
                weights.query_weight.as_str(),
                sizes.projected_query_size,
                hidden_size,
            );
            require1(tensors, weights.query_norm.as_str(), sizes.head_dim);
            require2(tensors, weights.key_weight.as_str(), sizes.kv_size, hidden_size);
            require1(tensors, weights.key_norm.as_str(), sizes.head_dim);
            require2(tensors, weights.value_weight.as_str(), sizes.kv_size, hidden_size);
            require2(tensors, weights.output_weight.as_str(), hidden_size, sizes.query_size);
        },
        HybridDecoderLayerKind::GatedDeltaNet { weights, .. } => {
            require1(tensors, weights.a_log.as_str(), sizes.num_value_heads);
            require3(
                tensors,
                weights.conv1d_weight.as_str(),
                sizes.conv_dim,
                1,
                sizes.conv_kernel_dim,
            );
            require1(tensors, weights.dt_bias.as_str(), sizes.num_value_heads);
            require2(
                tensors,
                weights.in_proj_a_weight.as_str(),
                sizes.num_value_heads,
                hidden_size,
            );
            require2(
                tensors,
                weights.in_proj_b_weight.as_str(),
                sizes.num_value_heads,
                hidden_size,
            );
            require2(tensors, weights.in_proj_qkv_weight.as_str(), sizes.conv_dim, hidden_size);
            require2(
                tensors,
                weights.in_proj_z_weight.as_str(),
                sizes.linear_value_size,
                hidden_size,
            );
            require1(tensors, weights.norm_weight.as_str(), sizes.value_head_dim);
            require2(
                tensors,
                weights.output_weight.as_str(),
                hidden_size,
                sizes.linear_value_size,
            );
        },
        _ => {
            return Err(
                "multi-head/GDN checkpoint topology received an incompatible mixer".to_owned(),
            );
        },
    }
    Ok(())
}

/// Why the checkpoint of one of the first `n` layers cannot be described.
pub open spec fn hybrid_layers_fault(
    layers: Seq<HybridDecoderLayerWeightNames>,
    n: nat,
) -> Option<Seq<char>>
    decreases n,
{
    if n == 0 || n > layers.len() {
        None
    } else {
        either(
            hybrid_layers_fault(layers, (n - 1) as nat),
            hybrid_layer_fault(layers[n - 1]),
        )
    }
}

/// The tensors of a hybrid decoder with its first `n` layers.
pub open spec fn hybrid_tensors(
    plan: HybridDecoderExecutionPlan,
    sizes: HybridSizes,
    n: nat,
) -> Seq<TensorRequirement>
    decreases n,
{
    if n == 0 || n > plan.weights.layers@.len() {
        hybrid_root(plan)
    } else {
        with_hybrid_layer(
            hybrid_tensors(plan, sizes, (n - 1) as nat),
            plan.weights.layers@[n - 1],
            plan.hidden_size,
            sizes,
        )
    }
}

/// Why the checkpoint of a decoder of multi-head and gated delta layers cannot be described.
pub open spec fn hybrid_topology_fault(
    architecture: Seq<char>,
    plan: HybridDecoderExecutionPlan,
) -> Option<Seq<char>> {
    let layers = plan.weights.layers@;
    let fault = if layers.len() == 0 {
        Some("hybrid decoder checkpoint topology has no layers"@)
    } else {
        either(hybrid_sizes_fault(plan), hybrid_layers_fault(layers, layers.len()))
    };
    match fault {
        Some(message) => Some(invalid_message(architecture, message)),
        None => None,
    }
}

proof fn lemma_layer_fault_stays(layers: Seq<HybridDecoderLayerWeightNames>, n: nat, m: nat)
    requires
        n <= m <= layers.len(),
        hybrid_layers_fault(layers, n) is Some,
    ensures
        hybrid_layers_fault(layers, m) == hybrid_layers_fault(layers, n),
    decreases m - n,
{
    if n < m {
        lemma_layer_fault_stays(layers, n, (m - 1) as nat);
    }
}

/// What the checkpoint of a decoder of multi-head and gated delta layers must hold.
pub fn hybrid_decoder_checkpoint_topology(
    architecture: &str,
    plan: &HybridDecoderExecutionPlan,
) -> (topology: Result<CheckpointTopology, ModelAdapterError>)
    ensures
        match topology {
            Ok(t) => t.wf() && hybrid_topology_fault(architecture@, *plan) is None && t@ == (
            Topology {
                tensors: hybrid_tensors(
                    *plan,
                    hybrid_sizes(*plan),
                    plan.weights.layers@.len(),
                ),
                ..no_topology()
            }),
            Err(e) => hybrid_topology_fault(architecture@, *plan) == Some(e@),
        },
{
    let layers = &plan.weights.layers;
    if layers.len() == 0 {
        return Err(
            ModelAdapterError::invalid(
                architecture,
                "hybrid decoder checkpoint topology has no layers",
            ),
        );
    }
    let sizes = match sizes_of_hybrid(plan) {
        Ok(sizes) => sizes,
        Err(message) => {
            return Err(ModelAdapterError::invalid(architecture, message.as_str()));
        },
    };
    let mut tensors = hybrid_root_requirements(plan);
    let mut i: usize = 0;
    while i < layers.len()
        invariant
            i <= layers@.len(),
            *layers == plan.weights.layers,
            layers@.len() > 0,
            hybrid_sizes_fault(*plan) is None,
            hybrid_layers_fault(layers@, i as nat) is None,
            requirements(tensors@) == hybrid_tensors(*plan, sizes, i as nat),
        decreases layers@.len() - i,
    {
        match hybrid_layer_requirements(&mut tensors, &layers[i], plan.hidden_size, &sizes) {
            Ok(_) => {},
            Err(message) => {
                proof {
                    lemma_layer_fault_stays(layers@, (i + 1) as nat, layers@.len());
                }
                return Err(ModelAdapterError::invalid(architecture, message.as_str()));
            },
        }
        i = i + 1;
    }
    Ok(CheckpointTopology::new(tensors))
}

/// Whether a shard says of a tensor of a dense decoder what is asked for.
pub open spec fn dense_tensor_met(
    model_path: Seq<char>,
    requirement: TensorRequirement,
    metadata: Result<Option<TensorMetadata>, ArtifactFault>,
) -> Result<(), ArtifactFault> {
    match metadata {
        Err(fault) => Err(fault),
        Ok(None) => Err(
            data_fault(
                model_path,
                "missing dense decoder checkpoint tensor "@ + requirement.name,
            ),
        ),
        Ok(Some(found)) => match requirement.shape {
            Some(shape) => if found.shape == shape {
                Ok(())
            } else {
                Err(
                    data_fault(
                        model_path,
                        "dense decoder tensor "@ + requirement.name + " shape "@ + shape_text(
                            found.shape,
                        ) + " does not match expected "@ + shape_text(shape),
                    ),
                )
            },
            None => Ok(()),
        },
    }
}

/// Whether the first `n` tensors of a dense decoder are as asked for.
pub open spec fn dense_tensors_met(
    model: LocalModel,
    tensors: Seq<TensorRequirement>,
    n: nat,
) -> Result<(), ArtifactFault>
    decreases n,
{
    if n == 0 || n > tensors.len() {
        Ok(())
    } else {
        match dense_tensors_met(model, tensors, (n - 1) as nat) {
            Err(fault) => Err(fault),
            Ok(_) => dense_tensor_met(
                model.model_path,
                tensors[n - 1],
                metadata_in(model.safetensors, model.shards, tensors[n - 1].name),
            ),
        }
    }
}

proof fn lemma_dense_fault_stays(
    model: LocalModel,
    tensors: Seq<TensorRequirement>,
    n: nat,
    m: nat,
)
    requires
        n <= m <= tensors.len(),
        dense_tensors_met(model, tensors, n) is Err,
    ensures
        dense_tensors_met(model, tensors, m) == dense_tensors_met(model, tensors, n),
    decreases m - n,
{
    if n < m {
        lemma_dense_fault_stays(model, tensors, n, (m - 1) as nat);
    }
}

fn require_tensor_shapes(
    artifacts: &LocalModelArtifacts,
    tensors: &Vec<CheckpointTensorRequirement>,
) -> (met: Result<(), ModelArtifactError>)
    requires
        artifacts.wf(),
    ensures
        match met {
            Ok(_) => dense_tensors_met(
                artifacts@,
                requirements(tensors@),
                tensors@.len(),
            ) == Ok::<(), ArtifactFault>(()),
            Err(e) => dense_tensors_met(
                artifacts@,
                requirements(tensors@),
                tensors@.len(),
            ) == Err::<(), ArtifactFault>(e@),
        },
{
    let ghost all = requirements(tensors@);
    let mut i: usize = 0;
    while i < tensors.len()
        invariant
            i <= tensors@.len(),
            all == requirements(tensors@),
            artifacts.wf(),
            dense_tensors_met(artifacts@, all, i as nat) is Ok,
        decreases tensors@.len() - i,
    {
        let tensor = &tensors[i];
        proof {
            assert(all[i as int] == tensor@);
            if dense_tensors_met(artifacts@, all, (i + 1) as nat) is Err {
                lemma_dense_fault_stays(artifacts@, all, (i + 1) as nat, all.len());
            }
        }
        let metadata = match artifacts.safetensors().tensor_metadata(
            artifacts.shards(),
            tensor.name(),
        ) {
            Ok(Some(metadata)) => metadata,
            Ok(None) => {
                return Err(
                    invalid_safetensors_data(
                        artifacts.model_path(),
                        cat2("missing dense decoder checkpoint tensor ", tensor.name()),
                    ),
                );
            },
            Err(error) => {
                return Err(error);
            },
        };
        if let Some(shape) = tensor.expected_shape() {
            if !crate::checkpoint::same_shape(&metadata.shape, shape) {
                let head = cat4(
                    "dense decoder tensor ",
                    tensor.name(),
                    " shape ",
                    text_of_shape(&metadata.shape).as_str(),
                );
                return Err(
                    invalid_safetensors_data(
                        artifacts.model_path(),
                        cat3(
                            head.as_str(),
                            " does not match expected ",
                            text_of_shape(shape).as_str(),
                        ),
                    ),
                );
            }
        }
        i = i + 1;
    }
    Ok(())
}

/// With the tensors of a layer of a dense decoder, each bias and norm behind its weight.
pub open spec fn with_dense_layer_in_order(
    tensors: Seq<TensorRequirement>,
    layer: DenseDecoderLayerWeightNames,
    hidden_size: usize,
    sizes: DenseSizes,
) -> Seq<TensorRequirement> {
    let q = sizes.query_size;
    let kv = sizes.kv_size;
    let h = hidden_size;
    let query = with_optional(
        with_optional(
            tensors.push(shaped(layer.input_norm@, seq![h])).push(
                shaped(layer.query_weight@, seq![q, h]),
            ),
            layer.query_bias,
            seq![q],
        ),
        layer.query_norm,
        seq![sizes.head_dim],
    );
    let key = with_optional(
        with_optional(
            query.push(shaped(layer.key_weight@, seq![kv, h])),
            layer.key_bias,
            seq![kv],
        ),
        layer.key_norm,
        seq![sizes.head_dim],
    );
    let value = with_optional(
        key.push(shaped(layer.value_weight@, seq![kv, h])),
        layer.value_bias,
        seq![kv],
    );
    let output = with_optional(
        value.push(shaped(layer.output_weight@, seq![h, q])),
        layer.output_bias,
        seq![h],
    );
    output.push(shaped(layer.post_attention_norm@, seq![h])).push(
        shaped(layer.gate_weight@, seq![sizes.intermediate_size, h]),
    ).push(shaped(layer.up_weight@, seq![sizes.intermediate_size, h])).push(
        shaped(layer.down_weight@, seq![h, sizes.intermediate_size]),
    )
}

/// The tensors of the first `n` layers of a dense decoder.
pub open spec fn dense_layer_tensors(
    plan: DenseDecoderExecutionPlan,
    sizes: DenseSizes,
    n: nat,
) -> Seq<TensorRequirement>
    decreases n,
{
    if n == 0 || n > plan.weights.layers@.len() {
        Seq::empty()
    } else {
        with_dense_layer_in_order(
            dense_layer_tensors(plan, sizes, (n - 1) as nat),
            plan.weights.layers@[n - 1],
            plan.hidden_size,
            sizes,
        )
    }
}

/// Whether the checkpoint of a dense decoder is as its plan asks for.
pub open spec fn dense_checkpoint_fits(definition: ModelDefinition, model: LocalModel) -> Result<
    (),
    ArtifactFault,
> {
    match definition.dense_decoder {
        None => Err(
            data_fault(
                model.model_path,
                "model definition does not include a dense decoder execution plan"@,
            ),
        ),
        Some(plan) => match dense_sizes_fault(
            definition.execution,
            "dense decoder plan requires multi-head attention and dense feed-forward components"@,
        ) {
            Some(message) => Err(data_fault(model.model_path, message)),
            None => {
                let sizes = dense_sizes(definition.execution);
                let root = dense_root(plan);
                let layers = plan.weights.layers@.len();
                let tensors = dense_layer_tensors(plan, sizes, layers);
                match dense_tensors_met(model, root, root.len()) {
                    Err(fault) => Err(fault),
                    Ok(_) => if layers == 0 {
                        Err(
                            data_fault(
                                model.model_path,
                                "dense decoder weight map has no layers"@,
                            ),
                        )
                    } else {
                        dense_tensors_met(model, tensors, tensors.len())
                    },
                }
            },
        },
    }
}

/// Whether the checkpoint of a hybrid decoder is as its plan asks for.
pub open spec fn hybrid_checkpoint_fits(definition: ModelDefinition, model: LocalModel) -> Result<
    (),
    ArtifactFault,
> {
    match definition.hybrid_decoder {
        None => Err(
            data_fault(
                model.model_path,
                "model definition does not include a hybrid decoder execution plan"@,
            ),
        ),
        Some(plan) => if plan.weights.layers@.len() == 0 {
            Err(data_fault(model.model_path, "hybrid decoder weight map has no layers"@))
        } else {
            checkpoint_fits(definition, model)
        },
    }
}

fn dense_layer_requirements_in_order(
    tensors: &mut Vec<CheckpointTensorRequirement>,
    layer: &DenseDecoderLayerWeightNames,
    hidden_size: usize,
    sizes: &DenseSizes,
)
    ensures
        requirements(final(tensors)@) == with_dense_layer_in_order(
            requirements(old(tensors)@),
            *layer,
            hidden_size,
            *sizes,
        ),
{
    require1(tensors, layer.input_norm.as_str(), hidden_size);
    require2(tensors, layer.query_weight.as_str(), sizes.query_size, hidden_size);
    require_optional1(tensors, &layer.query_bias, sizes.query_size);
    require_optional1(tensors, &layer.query_norm, sizes.head_dim);
    require2(tensors, layer.key_weight.as_str(), sizes.kv_size, hidden_size);
    require_optional1(tensors, &layer.key_bias, sizes.kv_size);
    require_optional1(tensors, &layer.key_norm, sizes.head_dim);
    require2(tensors, layer.value_weight.as_str(), sizes.kv_size, hidden_size);
    require_optional1(tensors, &layer.value_bias, sizes.kv_size);
    require2(tensors, layer.output_weight.as_str(), hidden_size, sizes.query_size);
    require_optional1(tensors, &layer.output_bias, hidden_size);
    require1(tensors, layer.post_attention_norm.as_str(), hidden_size);
    require2(tensors, layer.gate_weight.as_str(), sizes.intermediate_size, hidden_size);
    require2(tensors, layer.up_weight.as_str(), sizes.intermediate_size, hidden_size);
    require2(tensors, layer.down_weight.as_str(), hidden_size, sizes.intermediate_size);
}

impl ModelDefinition {
    /// Whether the checkpoint of a dense decoder is as its plan asks for.
    pub fn validate_dense_decoder_checkpoint(&self, artifacts: &LocalModelArtifacts) -> (valid:
        Result<(), ModelArtifactError>)
        requires
            artifacts.wf(),
        ensures
            match valid {
                Ok(_) => dense_checkpoint_fits(*self, artifacts@) == Ok::<(), ArtifactFault>(()),
                Err(e) => dense_checkpoint_fits(*self, artifacts@) == Err::<(), ArtifactFault>(e@),
            },
    {
        let path = artifacts.model_path();
        let plan = match &self.dense_decoder {
            Some(plan) => plan,
            None => {
                return Err(
                    invalid_safetensors_data(
                        path,
                        "model definition does not include a dense decoder execution plan".to_owned(),
                    ),
                );
            },
        };
        let sizes = match sizes_of_dense(
            self.execution,
            "dense decoder plan requires multi-head attention and dense feed-forward components",
        ) {
            Ok(sizes) => sizes,
            Err(message) => {
                return Err(invalid_safetensors_data(path, message));
            },
        };
        let root = dense_root_requirements(plan);
        match require_tensor_shapes(artifacts, &root) {
            Ok(_) => {},
            Err(error) => {
                return Err(error);
            },
        }
        if plan.weights.layers.len() == 0 {
            return Err(
                invalid_safetensors_data(
                    path,
                    "dense decoder weight map has no layers".to_owned(),
                ),
            );
        }
        let mut tensors: Vec<CheckpointTensorRequirement> = Vec::new();
        let mut i: usize = 0;
        proof {
            assert(requirements(tensors@) =~= Seq::empty());
        }
        while i < plan.weights.layers.len()
            invariant
                i <= plan.weights.layers@.len(),
                requirements(tensors@) == dense_layer_tensors(*plan, sizes, i as nat),
            decreases plan.weights.layers@.len() - i,
        {
            dense_layer_requirements_in_order(
                &mut tensors,
                &plan.weights.layers[i],
                plan.hidden_size,
                &sizes,
            );
            i = i + 1;
        }
        require_tensor_shapes(artifacts, &tensors)
    }

    /// Whether the checkpoint of a hybrid decoder is as its plan asks for.
    pub fn validate_hybrid_decoder_checkpoint(&self, artifacts: &LocalModelArtifacts) -> (valid:
        Result<(), ModelArtifactError>)
        requires
            self.wf(),
            artifacts.wf(),
        ensures
            match valid {
                Ok(_) => hybrid_checkpoint_fits(*self, artifacts@) == Ok::<(), ArtifactFault>(()),
                Err(e) => hybrid_checkpoint_fits(*self, artifacts@) == Err::<(), ArtifactFault>(
                    e@,
                ),
            },
    {
        match &self.hybrid_decoder {
            Some(plan) => {
                if plan.weights.layers.len() == 0 {
                    return Err(
                        invalid_safetensors_data(
                            artifacts.model_path(),
                            "hybrid decoder weight map has no layers".to_owned(),
                        ),
                    );
                }
                self.validate_checkpoint(artifacts)
            },
            None => Err(
                invalid_safetensors_data(
                    artifacts.model_path(),
                    "model definition does not include a hybrid decoder execution plan".to_owned(),
                ),
            ),
        }
    }
}

} // verus!
