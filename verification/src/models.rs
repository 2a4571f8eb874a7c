//! The components that models are made of.
use vstd::prelude::*;
use vstd::string::*;

use crate::payload::either;
use crate::text::{cat2, cat3, cat4, cat5, decimal, decimal_usize};

verus! {

/// The attention of a model.
#[derive(Clone, Copy, Debug, PartialEq, Eq, Structural)]
pub enum AttentionArchitecture {
    Absent,
    MultiHead { num_attention_heads: usize, num_key_value_heads: usize, head_dim: usize },
    MultiLatent {
        num_attention_heads: usize,
        qk_nope_head_dim: usize,
        qk_rope_head_dim: usize,
        value_head_dim: usize,
    },
    Hybrid {
        num_attention_heads: usize,
        num_key_value_heads: usize,
        attention_head_dim: usize,
        linear_num_key_heads: usize,
        linear_num_value_heads: usize,
        linear_key_head_dim: usize,
        linear_value_head_dim: usize,
    },
    HybridMultiLatent {
        num_attention_heads: usize,
        qk_nope_head_dim: usize,
        qk_rope_head_dim: usize,
        value_head_dim: usize,
        linear_num_heads: usize,
        linear_key_head_dim: usize,
        linear_value_head_dim: usize,
    },
}

/// The kind of attention.
#[derive(Clone, Copy, Debug, PartialEq, Eq, Structural)]
pub enum AttentionFamily {
    Absent,
    MultiHead,
    MultiLatent,
    Hybrid,
}

impl AttentionFamily {
    /// The name of the kind.
    pub open spec fn name(self) -> Seq<char> {
        match self {
            AttentionFamily::Absent => "none"@,
            AttentionFamily::MultiHead => "multi-head attention"@,
            AttentionFamily::MultiLatent => "multi-latent attention"@,
            AttentionFamily::Hybrid => "hybrid full and linear attention"@,
        }
    }

    /// The name of the kind.
    pub fn to_string(&self) -> (name: String)
        ensures
            name@ == self.name(),
    {
        match self {
            AttentionFamily::Absent => "none".to_owned(),
            AttentionFamily::MultiHead => "multi-head attention".to_owned(),
            AttentionFamily::MultiLatent => "multi-latent attention".to_owned(),
            AttentionFamily::Hybrid => "hybrid full and linear attention".to_owned(),
        }
    }
}

/// Whether heads shard over the ranks or each head is held by equally many.
pub open spec fn heads_spread(head_count: usize, tensor_parallel_size: usize) -> bool {
    if head_count >= tensor_parallel_size {
        head_count % tensor_parallel_size == 0
    } else {
        head_count != 0 && tensor_parallel_size % head_count == 0
    }
}

/// What is said of heads that do not spread.
pub open spec fn spread_message(
    name: Seq<char>,
    head_count: usize,
    tensor_parallel_size: usize,
) -> Seq<char> {
    name + " head count "@ + decimal(head_count as nat)
        + " must shard across or replicate evenly over tensor parallel size "@ + decimal(
        tensor_parallel_size as nat,
    )
}

/// Why heads of one kind do not spread, if they do not.
pub open spec fn spread_fault(
    name: Seq<char>,
    head_count: usize,
    tensor_parallel_size: usize,
) -> Option<Seq<char>> {
    if heads_spread(head_count, tensor_parallel_size) {
        None
    } else {
        Some(spread_message(name, head_count, tensor_parallel_size))
    }
}

/// Why attention heads do not shard, if they do not.
pub open spec fn attention_heads_fault(
    num_attention_heads: usize,
    tensor_parallel_size: usize,
) -> Option<Seq<char>> {
    if num_attention_heads % tensor_parallel_size == 0 {
        None
    } else {
        Some(
            "attention head count "@ + decimal(num_attention_heads as nat)
                + " must be divisible by tensor parallel size "@ + decimal(
                tensor_parallel_size as nat,
            ),
        )
    }
}

fn heads_fault(num_attention_heads: usize, tensor_parallel_size: usize) -> (fault: Option<String>)
    requires
        tensor_parallel_size > 0,
    ensures
        match fault {
            Some(text) => attention_heads_fault(num_attention_heads, tensor_parallel_size) == Some(
                text@,
            ),
            None => attention_heads_fault(num_attention_heads, tensor_parallel_size) is None,
        },
{
    if num_attention_heads % tensor_parallel_size == 0 {
        return None;
    }
    Some(
        cat4(
            "attention head count ",
            decimal_usize(num_attention_heads).as_str(),
            " must be divisible by tensor parallel size ",
            decimal_usize(tensor_parallel_size).as_str(),
        ),
    )
}

fn spreads(name: &str, head_count: usize, tensor_parallel_size: usize) -> (fault: Option<String>)
    requires
        tensor_parallel_size > 0,
    ensures
        match fault {
            Some(text) => spread_fault(name@, head_count, tensor_parallel_size) == Some(text@),
            None => spread_fault(name@, head_count, tensor_parallel_size) is None,
        },
{
    let valid = if head_count >= tensor_parallel_size {
        head_count % tensor_parallel_size == 0
    } else {
        head_count != 0 && tensor_parallel_size % head_count == 0
    };
    if valid {
        return None;
    }
    Some(
        cat5(
            name,
            " head count ",
            decimal_usize(head_count).as_str(),
            " must shard across or replicate evenly over tensor parallel size ",
            decimal_usize(tensor_parallel_size).as_str(),
        ),
    )
}

impl AttentionArchitecture {
    /// The kind of the attention.
    pub open spec fn kind(self) -> AttentionFamily {
        match self {
            AttentionArchitecture::Absent => AttentionFamily::Absent,
            AttentionArchitecture::MultiHead { .. } => AttentionFamily::MultiHead,
            AttentionArchitecture::MultiLatent { .. } => AttentionFamily::MultiLatent,
            AttentionArchitecture::Hybrid { .. } => AttentionFamily::Hybrid,
            AttentionArchitecture::HybridMultiLatent { .. } => AttentionFamily::Hybrid,
        }
    }

    /// Why the heads cannot be given to that many ranks, if they cannot.
    pub open spec fn parallel_fault(self, tensor_parallel_size: usize) -> Option<Seq<char>> {
        let tp = tensor_parallel_size;
        match self {
            AttentionArchitecture::Absent => None,
            AttentionArchitecture::MultiHead {
                num_attention_heads,
                num_key_value_heads,
                head_dim,
            } => either(
                attention_heads_fault(num_attention_heads, tp),
                spread_fault("KV"@, num_key_value_heads, tp),
            ),
            AttentionArchitecture::MultiLatent {
                num_attention_heads,
                qk_nope_head_dim,
                qk_rope_head_dim,
                value_head_dim,
            } => attention_heads_fault(num_attention_heads, tp),
            AttentionArchitecture::Hybrid {
                num_attention_heads,
                num_key_value_heads,
                attention_head_dim,
                linear_num_key_heads,
                linear_num_value_heads,
                linear_key_head_dim,
                linear_value_head_dim,
            } => either(
                attention_heads_fault(num_attention_heads, tp),
                either(
                    spread_fault("KV"@, num_key_value_heads, tp),
                    either(
                        spread_fault("linear key"@, linear_num_key_heads, tp),
                        spread_fault("linear value"@, linear_num_value_heads, tp),
                    ),
                ),
            ),
            AttentionArchitecture::HybridMultiLatent {
                num_attention_heads,
                qk_nope_head_dim,
                qk_rope_head_dim,
                value_head_dim,
                linear_num_heads,
                linear_key_head_dim,
                linear_value_head_dim,
            } => either(
                attention_heads_fault(num_attention_heads, tp),
                spread_fault("linear"@, linear_num_heads, tp),
            ),
        }
    }

    /// The kind of the attention.
    pub fn family(self) -> (family: AttentionFamily)
        ensures
            family == self.kind(),
    {
        match self {
            AttentionArchitecture::Absent => AttentionFamily::Absent,
            AttentionArchitecture::MultiHead { .. } => AttentionFamily::MultiHead,
            AttentionArchitecture::MultiLatent { .. } => AttentionFamily::MultiLatent,
            AttentionArchitecture::Hybrid { .. } => AttentionFamily::Hybrid,
            AttentionArchitecture::HybridMultiLatent { .. } => AttentionFamily::Hybrid,
        }
    }

    /// Whether the heads can be given to that many ranks.
    pub fn validate_tensor_parallel(self, tensor_parallel_size: usize) -> (valid: Result<
        (),
        String,
    >)
        requires
            tensor_parallel_size > 0,
        ensures
            match valid {
                Ok(_) => self.parallel_fault(tensor_parallel_size) is None,
                Err(message) => self.parallel_fault(tensor_parallel_size) == Some(message@),
            },
    {
        let tp: usize = tensor_parallel_size;
        let attention = match self {
            AttentionArchitecture::Absent => None,
            AttentionArchitecture::MultiHead { num_attention_heads, .. } => heads_fault(
                num_attention_heads,
                tp,
            ),
            AttentionArchitecture::MultiLatent { num_attention_heads, .. } => heads_fault(
                num_attention_heads,
                tp,
            ),
            AttentionArchitecture::Hybrid { num_attention_heads, .. } => heads_fault(
                num_attention_heads,
                tp,
            ),
            AttentionArchitecture::HybridMultiLatent { num_attention_heads, .. } => heads_fault(
                num_attention_heads,
                tp,
            ),
        };
        if let Some(message) = attention {
            return Err(message);
        }
        match self {
            AttentionArchitecture::MultiHead { num_key_value_heads, .. } => {
                if let Some(message) = spreads("KV", num_key_value_heads, tp) {
                    return Err(message);
                }
            },
            AttentionArchitecture::Hybrid {
                num_key_value_heads,
                linear_num_key_heads,
                linear_num_value_heads,
                ..
            } => {
                if let Some(message) = spreads("KV", num_key_value_heads, tp) {
                    return Err(message);
                }
                if let Some(message) = spreads("linear key", linear_num_key_heads, tp) {
                    return Err(message);
                }
                if let Some(message) = spreads("linear value", linear_num_value_heads, tp) {
                    return Err(message);
                }
            },
            AttentionArchitecture::HybridMultiLatent { linear_num_heads, .. } => {
                if let Some(message) = spreads("linear", linear_num_heads, tp) {
                    return Err(message);
                }
            },
            _ => {},
        }
        Ok(())
    }
}

/// The feed-forward network of a model.
#[derive(Clone, Copy, Debug, PartialEq, Eq, Structural)]
pub enum FeedForwardArchitecture {
    Absent,
    Dense { intermediate_size: usize },
    MixtureOfExperts {
        routed_expert_count: usize,
        experts_per_token: usize,
        shared_expert_count: usize,
        expert_intermediate_size: usize,
    },
}

/// The kind of feed-forward network.
#[derive(Clone, Copy, Debug, PartialEq, Eq, Structural)]
pub enum FeedForwardFamily {
    Absent,
    Dense,
    MixtureOfExperts,
}

impl FeedForwardFamily {
    /// The name of the kind.
    pub open spec fn name(self) -> Seq<char> {
        match self {
            FeedForwardFamily::Absent => "none"@,
            FeedForwardFamily::Dense => "dense feed-forward"@,
            FeedForwardFamily::MixtureOfExperts => "mixture-of-experts"@,
        }
    }

    /// The name of the kind.
    pub fn to_string(&self) -> (name: String)
        ensures
            name@ == self.name(),
    {
        match self {
            FeedForwardFamily::Absent => "none".to_owned(),
            FeedForwardFamily::Dense => "dense feed-forward".to_owned(),
            FeedForwardFamily::MixtureOfExperts => "mixture-of-experts".to_owned(),
        }
    }
}

impl FeedForwardArchitecture {
    /// The kind of the feed-forward network.
    pub open spec fn kind(self) -> FeedForwardFamily {
        match self {
            FeedForwardArchitecture::Absent => FeedForwardFamily::Absent,
            FeedForwardArchitecture::Dense { .. } => FeedForwardFamily::Dense,
            FeedForwardArchitecture::MixtureOfExperts { .. } => FeedForwardFamily::MixtureOfExperts,
        }
    }

    /// The kind of the feed-forward network.
    pub fn family(self) -> (family: FeedForwardFamily)
        ensures
            family == self.kind(),
    {
        match self {
            FeedForwardArchitecture::Absent => FeedForwardFamily::Absent,
            FeedForwardArchitecture::Dense { .. } => FeedForwardFamily::Dense,
            FeedForwardArchitecture::MixtureOfExperts { .. } => FeedForwardFamily::MixtureOfExperts,
        }
    }
}

/// The activation of a dense decoder.
#[derive(Clone, Copy, Debug, PartialEq, Eq, Structural)]
pub enum DenseDecoderActivation {
    Silu,
}

/// What a model keeps of the tokens that it has seen.
#[derive(Clone, Copy, Debug, PartialEq, Eq, Structural)]
pub enum ModelCacheArchitecture {
    Absent,
    PagedKv,
    HybridState { full_attention_layer_count: usize, recurrent_state_layer_count: usize },
}

impl ModelCacheArchitecture {
    /// Whether prefixes can be shared by requests: only where all is kept in pages.
    pub fn supports_radix_prefix_cache(self) -> (supported: bool)
        ensures
            supported == (self == ModelCacheArchitecture::PagedKv),
    {
        matches!(self, ModelCacheArchitecture::PagedKv)
    }

    /// Whether the cache of keys and values is all that has to be moved.
    pub fn supports_kv_only_transfer(self) -> (supported: bool)
        ensures
            supported == !(self is HybridState),
    {
        !matches!(self, ModelCacheArchitecture::HybridState { .. })
    }
}

/// How a model is run.
#[derive(Clone, Copy, Debug, PartialEq, Eq, Structural)]
pub enum ModelExecutionArchitecture {
    Transformer { attention: AttentionArchitecture, feed_forward: FeedForwardArchitecture },
}

impl ModelExecutionArchitecture {
    /// Why the model cannot be given to that many ranks, if it cannot.
    pub open spec fn parallel_fault(self, tensor_parallel_size: usize) -> Option<Seq<char>> {
        match self {
            ModelExecutionArchitecture::Transformer { attention, feed_forward } => {
                attention.parallel_fault(tensor_parallel_size)
            },
        }
    }

    /// The kind of attention.
    pub fn attention_family(self) -> (family: AttentionFamily)
        ensures
            family == self->attention.kind(),
    {
        match self {
            ModelExecutionArchitecture::Transformer { attention, .. } => attention.family(),
        }
    }

    /// The kind of feed-forward network.
    pub fn feed_forward_family(self) -> (family: FeedForwardFamily)
        ensures
            family == self->feed_forward.kind(),
    {
        match self {
            ModelExecutionArchitecture::Transformer { feed_forward, .. } => feed_forward.family(),
        }
    }

    /// Whether the model can be given to that many ranks.
    pub fn validate_tensor_parallel(self, tensor_parallel_size: usize) -> (valid: Result<
        (),
        String,
    >)
        requires
            tensor_parallel_size > 0,
        ensures
            match valid {
                Ok(_) => self.parallel_fault(tensor_parallel_size) is None,
                Err(message) => self.parallel_fault(tensor_parallel_size) == Some(message@),
            },
    {
        match self {
            ModelExecutionArchitecture::Transformer { attention, .. } => {
                attention.validate_tensor_parallel(tensor_parallel_size)
            },
        }
    }
}

/// The number type in which a model is run.
#[derive(Clone, Copy, Debug, PartialEq, Eq, Structural)]
pub enum RuntimeDtype {
    F32,
    Fp16,
    Bf16,
}

/// Why a configuration cannot be used for a model.
#[derive(Clone, Debug, PartialEq, Eq)]
pub struct ModelAdapterError {
    message: String,
}

impl View for ModelAdapterError {
    type V = Seq<char>;

    closed spec fn view(&self) -> Seq<char> {
        self.message@
    }
}

/// A field that is missing.
pub open spec fn missing_field_message(architecture: Seq<char>, field: Seq<char>) -> Seq<char> {
    architecture + " requires config field "@ + field
}

/// Something that is wrong.
pub open spec fn invalid_message(architecture: Seq<char>, message: Seq<char>) -> Seq<char> {
    architecture + ": "@ + message
}

impl ModelAdapterError {
    /// A field is missing.
    pub fn missing_field(architecture: &str, field: &str) -> (error: ModelAdapterError)
        ensures
            error@ == missing_field_message(architecture@, field@),
    {
        ModelAdapterError { message: cat3(architecture, " requires config field ", field) }
    }

    /// Something is wrong.
    pub fn invalid(architecture: &str, message: &str) -> (error: ModelAdapterError)
        ensures
            error@ == invalid_message(architecture@, message@),
    {
        ModelAdapterError { message: cat3(architecture, ": ", message) }
    }

    /// The message of the error.
    pub fn to_string(&self) -> (message: String)
        ensures
            message@ == self@,
    {
        self.message.clone()
    }
}

/// Why a number that must be given and not be zero cannot be used.
pub open spec fn required_fault(
    architecture: Seq<char>,
    field: Seq<char>,
    value: Option<usize>,
) -> Option<Seq<char>> {
    match value {
        None => Some(missing_field_message(architecture, field)),
        Some(n) => if n == 0 {
            Some(
                invalid_message(architecture, "config field "@ + field + " must be non-zero"@),
            )
        } else {
            None
        },
    }
}

/// A number that must be given and not be zero.
pub fn required_usize(architecture: &str, field: &str, value: Option<usize>) -> (required: Result<
    usize,
    ModelAdapterError,
>)
    ensures
        match required {
            Ok(n) => required_fault(architecture@, field@, value) is None && value == Some(n) && n
                > 0,
            Err(e) => required_fault(architecture@, field@, value) == Some(e@),
        },
{
    match value {
        None => Err(ModelAdapterError::missing_field(architecture, field)),
        Some(n) => if n == 0 {
            let text = cat3("config field ", field, " must be non-zero");
            Err(ModelAdapterError::invalid(architecture, text.as_str()))
        } else {
            Ok(n)
        },
    }
}

/// Why two sizes cannot be added.
pub open spec fn sum_fault(
    architecture: Seq<char>,
    left: usize,
    right: usize,
    component: Seq<char>,
) -> Option<Seq<char>> {
    if left + right > usize::MAX {
        Some(invalid_message(architecture, component + " size overflowed"@))
    } else {
        None
    }
}

/// The sum of two sizes.
pub fn checked_add(architecture: &str, left: usize, right: usize, component: &str) -> (sum: Result<
    usize,
    ModelAdapterError,
>)
    ensures
        match sum {
            Ok(n) => n == left + right && sum_fault(architecture@, left, right, component@) is None,
            Err(e) => sum_fault(architecture@, left, right, component@) == Some(e@),
        },
{
    match left.checked_add(right) {
        Some(n) => Ok(n),
        None => Err(
            ModelAdapterError::invalid(architecture, cat2(component, " size overflowed").as_str()),
        ),
    }
}

/// Why two sizes cannot be multiplied.
pub open spec fn product_fault(
    architecture: Seq<char>,
    left: usize,
    right: usize,
    component: Seq<char>,
) -> Option<Seq<char>> {
    if left * right > usize::MAX {
        Some(invalid_message(architecture, component + " size overflowed"@))
    } else {
        None
    }
}

/// The product of two sizes.
pub fn checked_product(architecture: &str, left: usize, right: usize, component: &str) -> (product:
    Result<usize, ModelAdapterError>)
    ensures
        match product {
            Ok(n) => n == left * right && product_fault(
                architecture@,
                left,
                right,
                component@,
            ) is None,
            Err(e) => product_fault(architecture@, left, right, component@) == Some(e@),
        },
{
    match left.checked_mul(right) {
        Some(n) => Ok(n),
        None => Err(
            ModelAdapterError::invalid(architecture, cat2(component, " size overflowed").as_str()),
        ),
    }
}

/// A number of a configuration: the bits of its binary64 value, and those of that value rounded to
/// binary32.
#[derive(Clone, Copy, Debug, PartialEq, Eq, Structural)]
pub struct ConfigNumber {
    pub wide: u64,
    pub narrow: u32,
}

impl ConfigNumber {
    /// Whether the binary64 value is finite and positive.
    pub open spec fn positive(self) -> bool {
        0 < self.wide < 0x7ff0_0000_0000_0000
    }

    /// Whether the binary64 value is at most the greatest finite binary32 value.
    pub open spec fn in_narrow_range(self) -> bool {
        self.wide <= 0x47ef_ffff_e000_0000
    }

    /// Whether the binary32 value is finite.
    pub open spec fn narrow_finite(self) -> bool {
        self.narrow & 0x7fff_ffff < 0x7f80_0000
    }

    /// Whether the binary32 value is less than zero.
    pub open spec fn narrow_negative(self) -> bool {
        self.narrow > 0x8000_0000 && self.narrow <= 0xff80_0000
    }

    /// Whether the binary64 value is finite and positive.
    pub fn is_positive(self) -> (positive: bool)
        ensures
            positive == self.positive(),
    {
        0 < self.wide && self.wide < 0x7ff0_0000_0000_0000
    }

    /// Whether the binary64 value is at most the greatest finite binary32 value.
    pub fn is_in_narrow_range(self) -> (within: bool)
        ensures
            within == self.in_narrow_range(),
    {
        self.wide <= 0x47ef_ffff_e000_0000
    }

    /// Whether the binary32 value is finite.
    pub fn is_narrow_finite(self) -> (finite: bool)
        ensures
            finite == self.narrow_finite(),
    {
        self.narrow & 0x7fff_ffff < 0x7f80_0000
    }

    /// Whether the binary32 value is less than zero.
    pub fn is_narrow_negative(self) -> (negative: bool)
        ensures
            negative == self.narrow_negative(),
    {
        self.narrow > 0x8000_0000 && self.narrow <= 0xff80_0000
    }
}

/// Why a number cannot be a positive binary32 value.
pub open spec fn positive_fault(
    architecture: Seq<char>,
    field: Seq<char>,
    value: Option<ConfigNumber>,
) -> Option<Seq<char>> {
    match value {
        None => Some(missing_field_message(architecture, field)),
        Some(number) => if number.positive() && number.in_narrow_range() {
            None
        } else {
            Some(
                invalid_message(architecture, field + " must be a finite positive f32 value"@),
            )
        },
    }
}

/// The binary32 value of a positive number, by its bits.
pub fn positive_float(architecture: &str, field: &str, value: Option<ConfigNumber>) -> (bits: Result<
    u32,
    ModelAdapterError,
>)
    ensures
        match bits {
            Ok(n) => positive_fault(architecture@, field@, value) is None && value->0.narrow == n,
            Err(e) => positive_fault(architecture@, field@, value) == Some(e@),
        },
{
    match value {
        None => Err(ModelAdapterError::missing_field(architecture, field)),
        Some(number) => if number.is_positive() && number.is_in_narrow_range() {
            Ok(number.narrow)
        } else {
            Err(
                ModelAdapterError::invalid(
                    architecture,
                    cat2(field, " must be a finite positive f32 value").as_str(),
                ),
            )
        },
    }
}

} // verus!
