//! How decoders are run, and the names of their weights.
use vstd::prelude::*;
use vstd::string::*;

use crate::checkpoint::{requirements, CheckpointTensorRequirement, TensorRequirement};
use crate::models::DenseDecoderActivation;
use crate::text::{cat2, cat3, decimal, decimal_usize};

verus! {

/// The names of the weights of a layer of a dense decoder.
#[derive(Clone, Debug, PartialEq, Eq)]
pub struct DenseDecoderLayerWeightNames {
    pub input_norm: String,
    pub query_weight: String,
    pub query_bias: Option<String>,
    pub query_norm: Option<String>,
    pub key_weight: String,
    pub key_bias: Option<String>,
    pub key_norm: Option<String>,
    pub value_weight: String,
    pub value_bias: Option<String>,
    pub output_weight: String,
    pub output_bias: Option<String>,
    pub post_attention_norm: String,
    pub gate_weight: String,
    pub up_weight: String,
    pub down_weight: String,
}

/// The names of the weights of a dense decoder.
#[derive(Clone, Debug, PartialEq, Eq)]
pub struct DenseDecoderWeightNames {
    pub token_embeddings: String,
    pub final_norm: String,
    pub lm_head: Option<String>,
    pub layers: Vec<DenseDecoderLayerWeightNames>,
}

/// How a dense decoder is run. Fractions are given by the bits of their binary32 values.
#[derive(Clone, Debug, PartialEq, Eq)]
pub struct DenseDecoderExecutionPlan {
    pub vocab_size: usize,
    pub hidden_size: usize,
    pub max_position_embeddings: usize,
    pub rms_norm_eps: u32,
    pub rope_theta: u32,
    pub activation: DenseDecoderActivation,
    pub weights: DenseDecoderWeightNames,
}

/// The names of the weights of a dense feed-forward network.
#[derive(Clone, Debug, PartialEq, Eq)]
pub struct DenseFeedForwardWeightNames {
    pub gate_weight: String,
    pub up_weight: String,
    pub down_weight: String,
}

/// The names of the weights of full attention.
#[derive(Clone, Debug, PartialEq, Eq)]
pub struct HybridFullAttentionWeightNames {
    pub query_weight: String,
    pub query_norm: String,
    pub key_weight: String,
    pub key_norm: String,
    pub value_weight: String,
    pub output_weight: String,
}

/// The names of the weights of the queries of multi-latent attention.
#[derive(Clone, Debug, PartialEq, Eq)]
pub enum MultiLatentQueryWeightNames {
    Direct { weight: String },
    LowRank { a_weight: String, a_norm: String, b_weight: String },
}

/// The names of the weights of multi-latent attention.
#[derive(Clone, Debug, PartialEq, Eq)]
pub struct HybridMultiLatentAttentionWeightNames {
    pub query: MultiLatentQueryWeightNames,
    pub kv_a_weight: String,
    pub kv_a_norm: String,
    pub kv_b_weight: String,
    pub output_weight: String,
}

/// The names of the weights of a gated delta network.
#[derive(Clone, Debug, PartialEq, Eq)]
pub struct GatedDeltaNetWeightNames {
    pub a_log: String,
    pub conv1d_weight: String,
    pub dt_bias: String,
    pub in_proj_a_weight: String,
    pub in_proj_b_weight: String,
    pub in_proj_qkv_weight: String,
    pub in_proj_z_weight: String,
    pub norm_weight: String,
    pub output_weight: String,
}

/// The names of the weights of key-gated delta attention.
#[derive(Clone, Debug, PartialEq, Eq)]
pub struct KeyGatedDeltaWeightNames {
    pub a_log: String,
    pub dt_bias: String,
    pub query_weight: String,
    pub key_weight: String,
    pub value_weight: String,
    pub beta_weight: String,
    pub forget_a_weight: String,
    pub forget_b_weight: String,
    pub gate_a_weight: String,
    pub gate_b_weight: String,
    pub query_conv_weight: String,
    pub key_conv_weight: String,
    pub value_conv_weight: String,
    pub output_norm: String,
    pub output_weight: String,
}

/// How a decoder normalises.
#[derive(Clone, Copy, Debug, PartialEq, Eq, Structural)]
pub enum DecoderNormalization {
    Rms,
    GemmaRms,
}

/// How the queries of multi-latent attention are projected.
#[derive(Clone, Copy, Debug, PartialEq, Eq, Structural)]
pub enum MultiLatentQueryConfig {
    Direct,
    LowRank { rank: usize },
}

/// Which pairs of dimensions a rotary embedding turns.
#[derive(Clone, Copy, Debug, PartialEq, Eq, Structural)]
pub enum RotaryEmbeddingStyle {
    Neox,
    Interleaved,
}

/// A rotary embedding; its base is given by the bits of its binary32 value.
#[derive(Clone, Copy, Debug, PartialEq, Eq, Structural)]
pub struct RotaryEmbeddingConfig {
    pub theta: u32,
    pub style: RotaryEmbeddingStyle,
}

/// The full attention of a hybrid decoder.
#[derive(Clone, Copy, Debug, PartialEq, Eq, Structural)]
pub enum HybridFullAttentionConfig {
    MultiHead {
        num_attention_heads: usize,
        num_key_value_heads: usize,
        head_dim: usize,
        rotary_dim: usize,
        output_gate: bool,
        rotary_embedding: RotaryEmbeddingConfig,
    },
    MultiLatent {
        num_attention_heads: usize,
        query: MultiLatentQueryConfig,
        kv_lora_rank: usize,
        qk_nope_head_dim: usize,
        qk_rope_head_dim: usize,
        value_head_dim: usize,
        skip_rope: bool,
        rotary_embedding: Option<RotaryEmbeddingConfig>,
    },
}

/// The linear attention of a hybrid decoder.
#[derive(Clone, Copy, Debug, PartialEq, Eq, Structural)]
pub enum HybridLinearAttentionConfig {
    GatedDeltaNet {
        conv_kernel_dim: usize,
        key_head_dim: usize,
        value_head_dim: usize,
        num_key_heads: usize,
        num_value_heads: usize,
    },
    KeyGatedDelta {
        conv_kernel_dim: usize,
        key_head_dim: usize,
        value_head_dim: usize,
        num_heads: usize,
    },
}

/// How a router turns its logits into scores.
#[derive(Clone, Copy, Debug, PartialEq, Eq, Structural)]
pub enum RouterActivation {
    Sigmoid,
    Softmax,
}

/// A mixture of experts; its scaling factor is given by the bits of its binary32 value.
#[derive(Clone, Copy, Debug, PartialEq, Eq, Structural)]
pub struct MoeFeedForwardConfig {
    pub routed_expert_count: usize,
    pub experts_per_token: usize,
    pub expert_group_count: usize,
    pub selected_expert_group_count: usize,
    pub shared_expert_count: usize,
    pub expert_intermediate_size: usize,
    pub renormalize: bool,
    pub router_activation: RouterActivation,
    pub routed_scaling_factor: u32,
}

/// The names of the weights of a mixture of experts.
#[derive(Clone, Debug, PartialEq, Eq)]
pub struct MoeFeedForwardWeightNames {
    pub gate_weight: String,
    pub correction_bias: Option<String>,
    pub experts: Vec<DenseFeedForwardWeightNames>,
    pub shared_expert: Option<DenseFeedForwardWeightNames>,
}

/// The feed-forward network of a layer of a hybrid decoder.
#[derive(Clone, Debug, PartialEq, Eq)]
pub enum HybridFeedForward {
    Dense { intermediate_size: usize, weights: DenseFeedForwardWeightNames },
    MixtureOfExperts { config: MoeFeedForwardConfig, weights: MoeFeedForwardWeightNames },
}

/// What mixes the tokens in a layer of a hybrid decoder.
#[derive(Clone, Debug, PartialEq, Eq)]
pub enum HybridDecoderLayerKind {
    FullAttention { cache_layer_index: usize, weights: HybridFullAttentionWeightNames },
    GatedDeltaNet { state_layer_index: usize, weights: GatedDeltaNetWeightNames },
    MultiLatentAttention {
        cache_layer_index: usize,
        weights: HybridMultiLatentAttentionWeightNames,
    },
    KeyGatedDelta { state_layer_index: usize, weights: KeyGatedDeltaWeightNames },
}

impl HybridDecoderLayerKind {
    /// Whether the layer keeps keys and values.
    pub open spec fn keeps_keys(self) -> bool {
        self is FullAttention || self is MultiLatentAttention
    }

    /// Whether the layer keeps keys and values.
    pub fn has_kv_cache(&self) -> (keeps: bool)
        ensures
            keeps == self.keeps_keys(),
    {
        match self {
            HybridDecoderLayerKind::FullAttention { .. } => true,
            HybridDecoderLayerKind::GatedDeltaNet { .. } => false,
            HybridDecoderLayerKind::MultiLatentAttention { .. } => true,
            HybridDecoderLayerKind::KeyGatedDelta { .. } => false,
        }
    }
}

/// The names of the weights of a layer of a hybrid decoder.
#[derive(Clone, Debug, PartialEq, Eq)]
pub struct HybridDecoderLayerWeightNames {
    pub input_norm: String,
    pub mixer: HybridDecoderLayerKind,
    pub post_attention_norm: String,
    pub feed_forward: HybridFeedForward,
}

/// The names of the weights of a hybrid decoder.
#[derive(Clone, Debug, PartialEq, Eq)]
pub struct HybridDecoderWeightNames {
    pub token_embeddings: String,
    pub final_norm: String,
    pub lm_head: Option<String>,
    pub layers: Vec<HybridDecoderLayerWeightNames>,
}

/// How a hybrid decoder is run. Fractions are given by the bits of their binary32 values.
#[derive(Clone, Debug, PartialEq, Eq)]
pub struct HybridDecoderExecutionPlan {
    pub vocab_size: usize,
    pub hidden_size: usize,
    pub max_position_embeddings: usize,
    pub rms_norm_eps: u32,
    pub rope_theta: u32,
    pub normalization: DecoderNormalization,
    pub full_attention: HybridFullAttentionConfig,
    pub linear_attention: Option<HybridLinearAttentionConfig>,
    pub activation: DenseDecoderActivation,
    pub weights: HybridDecoderWeightNames,
}

/// The number of the first `n` layers that keep keys and values.
pub open spec fn cache_layers(layers: Seq<HybridDecoderLayerWeightNames>, n: nat) -> nat
    decreases n,
{
    if n == 0 || n > layers.len() {
        0
    } else if layers[n - 1].mixer.keeps_keys() {
        cache_layers(layers, (n - 1) as nat) + 1
    } else {
        cache_layers(layers, (n - 1) as nat)
    }
}

/// At most all layers keep keys and values.
pub proof fn cache_layers_are_layers(layers: Seq<HybridDecoderLayerWeightNames>, n: nat)
    requires
        n <= layers.len(),
    ensures
        cache_layers(layers, n) <= n,
        cache_layers(layers, n) == n <==> forall|i: int|
            0 <= i < n ==> (#[trigger] layers[i]).mixer.keeps_keys(),
    decreases n,
{
    if n > 0 {
        cache_layers_are_layers(layers, (n - 1) as nat);
    }
}

/// The number of layers that keep keys and values.
pub fn count_cache_layers(layers: &Vec<HybridDecoderLayerWeightNames>) -> (count: usize)
    ensures
        count == cache_layers(layers@, layers@.len()),
        count <= layers@.len(),
{
    let mut count: usize = 0;
    let mut i: usize = 0;
    while i < layers.len()
        invariant
            i <= layers@.len(),
            count <= i,
            count == cache_layers(layers@, i as nat),
        decreases layers@.len() - i,
    {
        if layers[i].mixer.has_kv_cache() {
            count = count + 1;
        }
        i = i + 1;
    }
    count
}

/// The state that recurrent layers keep of a request.
#[derive(Clone, Copy, Debug, PartialEq, Eq, Structural)]
pub struct RecurrentStateLayout {
    pub layer_count: usize,
    pub conv_kernel_dim: usize,
    pub key_head_dim: usize,
    pub value_head_dim: usize,
    pub num_key_heads: usize,
    pub num_value_heads: usize,
}

impl RecurrentStateLayout {
    /// The channels of the convolution: queries, keys and values.
    pub open spec fn channels(self) -> nat {
        (2 * (self.num_key_heads * self.key_head_dim) + self.num_value_heads
            * self.value_head_dim) as nat
    }

    /// The numbers that a layer keeps for the convolution.
    pub open spec fn conv(self) -> nat {
        (self.channels() * (self.conv_kernel_dim - 1)) as nat
    }

    /// The numbers that a layer keeps over time.
    pub open spec fn temporal(self) -> nat {
        (self.num_value_heads * self.key_head_dim * self.value_head_dim) as nat
    }

    /// Whether the numbers for the convolution can be counted.
    pub open spec fn conv_fits(self) -> bool {
        self.conv_kernel_dim > 0 && self.channels() <= usize::MAX && self.conv() <= usize::MAX
    }

    /// Whether the numbers over time can be counted.
    pub open spec fn temporal_fits(self) -> bool {
        self.num_value_heads * self.key_head_dim <= usize::MAX && self.temporal() <= usize::MAX
    }

    /// The numbers that a layer keeps for the convolution.
    pub fn conv_elements_per_layer(self) -> (elements: Option<usize>)
        ensures
            match elements {
                Some(n) => self.conv_fits() && n == self.conv(),
                None => !self.conv_fits(),
            },
    {
        if self.conv_kernel_dim == 0 {
            return None;
        }
        proof {
            let a = self.num_key_heads * self.key_head_dim;
            let b = self.num_value_heads * self.value_head_dim;
            assert(a >= 0 && b >= 0) by (nonlinear_arith)
                requires
                    a == self.num_key_heads * self.key_head_dim,
                    b == self.num_value_heads * self.value_head_dim,
            ;
        }
        let key: usize = self.num_key_heads.checked_mul(self.key_head_dim)?;
        let value: usize = self.num_value_heads.checked_mul(self.value_head_dim)?;
        let keys: usize = key.checked_mul(2)?;
        let channels: usize = keys.checked_add(value)?;
        channels.checked_mul(self.conv_kernel_dim - 1)
    }

    /// The numbers that a layer keeps over time.
    pub fn temporal_elements_per_layer(self) -> (elements: Option<usize>)
        ensures
            match elements {
                Some(n) => self.temporal_fits() && n == self.temporal(),
                None => !self.temporal_fits(),
            },
    {
        let keys: usize = self.num_value_heads.checked_mul(self.key_head_dim)?;
        keys.checked_mul(self.value_head_dim)
    }

    /// The numbers that all layers keep of a request.
    pub fn elements_per_request(self) -> (elements: Option<usize>)
        ensures
            match elements {
                Some(n) => self.conv_fits() && self.temporal_fits() && n == self.layer_count * (
                self.conv() + self.temporal()),
                None => !self.conv_fits() || !self.temporal_fits() || self.conv() + self.temporal()
                    > usize::MAX || self.layer_count * (self.conv() + self.temporal())
                    > usize::MAX,
            },
    {
        let conv: usize = self.conv_elements_per_layer()?;
        let temporal: usize = self.temporal_elements_per_layer()?;
        let layer: usize = conv.checked_add(temporal)?;
        self.layer_count.checked_mul(layer)
    }
}

/// The state that recurrent layers keep under a linear attention.
pub open spec fn recurrent_layout(
    layer_count: usize,
    linear: HybridLinearAttentionConfig,
) -> RecurrentStateLayout {
    match linear {
        HybridLinearAttentionConfig::GatedDeltaNet {
            conv_kernel_dim,
            key_head_dim,
            value_head_dim,
            num_key_heads,
            num_value_heads,
        } => RecurrentStateLayout {
            layer_count,
            conv_kernel_dim,
            key_head_dim,
            value_head_dim,
            num_key_heads,
            num_value_heads,
        },
        HybridLinearAttentionConfig::KeyGatedDelta {
            conv_kernel_dim,
            key_head_dim,
            value_head_dim,
            num_heads,
        } => RecurrentStateLayout {
            layer_count,
            conv_kernel_dim,
            key_head_dim,
            value_head_dim,
            num_key_heads: num_heads,
            num_value_heads: num_heads,
        },
    }
}

/// The state that recurrent layers keep under a linear attention.
pub fn recurrent_state_layout(layer_count: usize, linear: HybridLinearAttentionConfig) -> (layout:
    RecurrentStateLayout)
    ensures
        layout == recurrent_layout(layer_count, linear),
{
    match linear {
        HybridLinearAttentionConfig::GatedDeltaNet {
            conv_kernel_dim,
            key_head_dim,
            value_head_dim,
            num_key_heads,
            num_value_heads,
        } => RecurrentStateLayout {
            layer_count,
            conv_kernel_dim,
            key_head_dim,
            value_head_dim,
            num_key_heads,
            num_value_heads,
        },
        HybridLinearAttentionConfig::KeyGatedDelta {
            conv_kernel_dim,
            key_head_dim,
            value_head_dim,
            num_heads,
        } => RecurrentStateLayout {
            layer_count,
            conv_kernel_dim,
            key_head_dim,
            value_head_dim,
            num_key_heads: num_heads,
            num_value_heads: num_heads,
        },
    }
}

/// The start of the names of the weights of a layer.
pub open spec fn layer_prefix(root: Seq<char>, layer_id: nat) -> Seq<char> {
    root + ".layers."@ + decimal(layer_id)
}

/// The start of the names of the weights of a layer.
pub fn prefix_of_layer(root: &str, layer_id: usize) -> (prefix: String)
    ensures
        prefix@ == layer_prefix(root@, layer_id as nat),
{
    cat3(root, ".layers.", decimal_usize(layer_id).as_str())
}

/// A name that may be missing.
pub open spec fn named(name: Option<String>) -> Option<Seq<char>> {
    match name {
        Some(text) => Some(text@),
        None => None,
    }
}

/// A name where there is one.
pub open spec fn name_if(present: bool, name: Seq<char>) -> Option<Seq<char>> {
    if present {
        Some(name)
    } else {
        None
    }
}

/// A name where there is one.
pub fn optional_name(present: bool, prefix: &str, suffix: &str) -> (name: Option<String>)
    ensures
        named(name) == name_if(present, prefix@ + suffix@),
{
    if present {
        Some(cat2(prefix, suffix))
    } else {
        None
    }
}

/// A tensor of a shape.
pub open spec fn shaped(name: Seq<char>, shape: Seq<usize>) -> TensorRequirement {
    TensorRequirement { name, shape: Some(shape) }
}

/// Tensors that must be there, with one more where it has a name.
pub open spec fn with_optional(
    tensors: Seq<TensorRequirement>,
    name: Option<String>,
    shape: Seq<usize>,
) -> Seq<TensorRequirement> {
    match name {
        Some(text) => tensors.push(shaped(text@, shape)),
        None => tensors,
    }
}

/// Adds a tensor of one dimension.
pub fn require1(tensors: &mut Vec<CheckpointTensorRequirement>, name: &str, a: usize)
    ensures
        requirements(final(tensors)@) == requirements(old(tensors)@).push(shaped(name@, seq![a])),
{
    let mut shape: Vec<usize> = Vec::new();
    shape.push(a);
    proof {
        assert(shape@ =~= seq![a]);
    }
    tensors.push(CheckpointTensorRequirement::with_shape(name.to_owned(), shape));
    proof {
        assert(requirements(tensors@) =~= requirements(old(tensors)@).push(
            shaped(name@, seq![a]),
        ));
    }
}

/// Adds a tensor of two dimensions.
pub fn require2(tensors: &mut Vec<CheckpointTensorRequirement>, name: &str, a: usize, b: usize)
    ensures
        requirements(final(tensors)@) == requirements(old(tensors)@).push(
            shaped(name@, seq![a, b]),
        ),
{
    let mut shape: Vec<usize> = Vec::new();
    shape.push(a);
    shape.push(b);
    proof {
        assert(shape@ =~= seq![a, b]);
    }
    tensors.push(CheckpointTensorRequirement::with_shape(name.to_owned(), shape));
    proof {
        assert(requirements(tensors@) =~= requirements(old(tensors)@).push(
            shaped(name@, seq![a, b]),
        ));
    }
}

/// Adds a tensor of three dimensions.
pub fn require3(
    tensors: &mut Vec<CheckpointTensorRequirement>,
    name: &str,
    a: usize,
    b: usize,
    c: usize,
)
    ensures
        requirements(final(tensors)@) == requirements(old(tensors)@).push(
            shaped(name@, seq![a, b, c]),
        ),
{
    let mut shape: Vec<usize> = Vec::new();
    shape.push(a);
    shape.push(b);
    shape.push(c);
    proof {
        assert(shape@ =~= seq![a, b, c]);
    }
    tensors.push(CheckpointTensorRequirement::with_shape(name.to_owned(), shape));
    proof {
        assert(requirements(tensors@) =~= requirements(old(tensors)@).push(
            shaped(name@, seq![a, b, c]),
        ));
    }
}

/// Adds a tensor of four dimensions, of which the first two and the last are one.
pub fn require_column(tensors: &mut Vec<CheckpointTensorRequirement>, name: &str, a: usize)
    ensures
        requirements(final(tensors)@) == requirements(old(tensors)@).push(
            shaped(name@, seq![1usize, 1usize, a, 1usize]),
        ),
{
    let mut shape: Vec<usize> = Vec::new();
    shape.push(1);
    shape.push(1);
    shape.push(a);
    shape.push(1);
    proof {
        assert(shape@ =~= seq![1usize, 1usize, a, 1usize]);
    }
    tensors.push(CheckpointTensorRequirement::with_shape(name.to_owned(), shape));
    proof {
        assert(requirements(tensors@) =~= requirements(old(tensors)@).push(
            shaped(name@, seq![1usize, 1usize, a, 1usize]),
        ));
    }
}

/// Adds a tensor of one dimension where it has a name.
pub fn require_optional1(
    tensors: &mut Vec<CheckpointTensorRequirement>,
    name: &Option<String>,
    a: usize,
)
    ensures
        requirements(final(tensors)@) == with_optional(
            requirements(old(tensors)@),
            *name,
            seq![a],
        ),
{
    if let Some(text) = name {
        require1(tensors, text.as_str(), a);
    }
}

/// Adds a tensor of two dimensions where it has a name.
pub fn require_optional2(
    tensors: &mut Vec<CheckpointTensorRequirement>,
    name: &Option<String>,
    a: usize,
    b: usize,
)
    ensures
        requirements(final(tensors)@) == with_optional(
            requirements(old(tensors)@),
            *name,
            seq![a, b],
        ),
{
    if let Some(text) = name {
        require2(tensors, text.as_str(), a, b);
    }
}

/// Tensors that must be there, with those of a dense feed-forward network.
pub open spec fn with_feed_forward(
    tensors: Seq<TensorRequirement>,
    weights: DenseFeedForwardWeightNames,
    hidden_size: usize,
    intermediate_size: usize,
) -> Seq<TensorRequirement> {
    tensors.push(shaped(weights.gate_weight@, seq![intermediate_size, hidden_size])).push(
        shaped(weights.up_weight@, seq![intermediate_size, hidden_size]),
    ).push(shaped(weights.down_weight@, seq![hidden_size, intermediate_size]))
}

/// Adds the tensors of a dense feed-forward network.
pub fn dense_feed_forward_requirements(
    tensors: &mut Vec<CheckpointTensorRequirement>,
    weights: &DenseFeedForwardWeightNames,
    hidden_size: usize,
    intermediate_size: usize,
)
    ensures
        requirements(final(tensors)@) == with_feed_forward(
            requirements(old(tensors)@),
            *weights,
            hidden_size,
            intermediate_size,
        ),
{
    require2(tensors, weights.gate_weight.as_str(), intermediate_size, hidden_size);
    require2(tensors, weights.up_weight.as_str(), intermediate_size, hidden_size);
    require2(tensors, weights.down_weight.as_str(), hidden_size, intermediate_size);
}

/// Whether the names are those of a dense feed-forward network at `prefix`.
pub open spec fn names_feed_forward(names: DenseFeedForwardWeightNames, prefix: Seq<char>) -> bool {
    &&& names.gate_weight@ == prefix + ".gate_proj.weight"@
    &&& names.up_weight@ == prefix + ".up_proj.weight"@
    &&& names.down_weight@ == prefix + ".down_proj.weight"@
}

/// The names of a dense feed-forward network at `prefix`.
pub fn feed_forward_names(prefix: &str) -> (names: DenseFeedForwardWeightNames)
    ensures
        names_feed_forward(names, prefix@),
{
    DenseFeedForwardWeightNames {
        gate_weight: cat2(prefix, ".gate_proj.weight"),
        up_weight: cat2(prefix, ".up_proj.weight"),
        down_weight: cat2(prefix, ".down_proj.weight"),
    }
}

} // verus!
