//! Models whose layers are described by their checkpoints alone: DeepSeek V4 and GLM.
use vstd::prelude::*;
use vstd::string::*;

use crate::artifact_error::{data_fault, invalid_safetensors_data, ArtifactFault, ModelArtifactError};
use crate::checkpoint::{
    places, requirements, same_shape, shape_text, text_of_shape, CheckpointTensorRequirement,
    CheckpointTopology, TensorRequirement, Topology,
};
use crate::decoder_plans::{require1, require2, shaped};
use crate::deepseek::{choice_fault, check_choice, mla_execution, or_else, MlaMoeConfig};
use crate::kv_cache::{packed_mla_bytes, KvCacheLayoutError, KvCacheModelLayout, KvCacheTensorGeometry};
use crate::local_model::{
    catalog_of, experts_of_layer, CheckpointCatalog, LocalModel, LocalModelArtifacts,
    LocalModelCheckpointCatalog,
};
use crate::listing::sorted;
use crate::model_config::HfModelConfig;
use crate::model_definition::{bare_definition, ModelDefinition};
use crate::models::{
    invalid_message, required_fault, required_usize, AttentionArchitecture,
    FeedForwardArchitecture, ModelAdapterError, ModelCacheArchitecture, ModelExecutionArchitecture,
    RuntimeDtype,
};
use crate::ordered_map::ExpertPlace;
use crate::payload::either;
use crate::routed_experts::ExpertGroup;
use crate::safetensors::{SafetensorsTensorSpan, TensorSpan};
use crate::safetensors_spans::span_of;
use crate::tensor_names::layer_tensor_name;
use crate::text::{cat2, cat3, cat4, cat5, cat6, decimal, decimal_usize};

verus! {

/// By whose names the tensors of a checkpoint go.
#[derive(Clone, Copy, Debug, PartialEq, Eq, Structural)]
pub enum MlaMoeCheckpointFlavor {
    DeepSeek,
    Glm,
}

/// Several texts, by what they hold.
pub open spec fn strs(list: Seq<&'static str>) -> Seq<Seq<char>> {
    list.map_values(|text: &'static str| text@)
}

/// The tensors that every layer has.
pub open spec fn layer_names_of(flavor: MlaMoeCheckpointFlavor) -> Seq<Seq<char>> {
    match flavor {
        MlaMoeCheckpointFlavor::DeepSeek => seq![
            "self_attn.wq_a.weight"@,
            "self_attn.wq_b.weight"@,
            "self_attn.wkv.weight"@,
            "self_attn.q_norm.weight"@,
            "self_attn.kv_norm.weight"@,
            "self_attn.wo_a.weight"@,
            "self_attn.wo_b.weight"@,
            "input_layernorm.weight"@,
            "post_attention_layernorm.weight"@,
            "hc_attn_fn"@,
            "hc_attn_base"@,
            "hc_attn_scale"@,
            "hc_ffn_fn"@,
            "hc_ffn_base"@,
            "hc_ffn_scale"@,
        ],
        MlaMoeCheckpointFlavor::Glm => seq![
            "self_attn.q_a_proj.weight"@,
            "self_attn.q_a_layernorm.weight"@,
            "self_attn.q_b_proj.weight"@,
            "self_attn.kv_a_proj_with_mqa.weight"@,
            "self_attn.kv_a_layernorm.weight"@,
            "self_attn.kv_b_proj.weight"@,
            "self_attn.o_proj.weight"@,
            "input_layernorm.weight"@,
            "post_attention_layernorm.weight"@,
        ],
    }
}

/// The tensors that a layer without experts has besides.
pub open spec fn dense_names_of(flavor: MlaMoeCheckpointFlavor) -> Seq<Seq<char>> {
    match flavor {
        MlaMoeCheckpointFlavor::DeepSeek => seq![
            "mlp.gate_up_proj.weight"@,
            "mlp.down_proj.weight"@,
        ],
        MlaMoeCheckpointFlavor::Glm => seq![
            "mlp.gate_proj.weight"@,
            "mlp.up_proj.weight"@,
            "mlp.down_proj.weight"@,
        ],
    }
}

fn layer_suffixes(flavor: MlaMoeCheckpointFlavor) -> (list: Vec<&'static str>)
    ensures
        strs(list@) == layer_names_of(flavor),
{
    let mut list: Vec<&'static str> = Vec::new();
    match flavor {
        MlaMoeCheckpointFlavor::DeepSeek => {
            list.push("self_attn.wq_a.weight");
            list.push("self_attn.wq_b.weight");
            list.push("self_attn.wkv.weight");
            list.push("self_attn.q_norm.weight");
            list.push("self_attn.kv_norm.weight");
            list.push("self_attn.wo_a.weight");
            list.push("self_attn.wo_b.weight");
            list.push("input_layernorm.weight");
            list.push("post_attention_layernorm.weight");
            list.push("hc_attn_fn");
            list.push("hc_attn_base");
            list.push("hc_attn_scale");
            list.push("hc_ffn_fn");
            list.push("hc_ffn_base");
            list.push("hc_ffn_scale");
        },
        MlaMoeCheckpointFlavor::Glm => {
            list.push("self_attn.q_a_proj.weight");
            list.push("self_attn.q_a_layernorm.weight");
            list.push("self_attn.q_b_proj.weight");
            list.push("self_attn.kv_a_proj_with_mqa.weight");
            list.push("self_attn.kv_a_layernorm.weight");
            list.push("self_attn.kv_b_proj.weight");
            list.push("self_attn.o_proj.weight");
            list.push("input_layernorm.weight");
            list.push("post_attention_layernorm.weight");
        },
    }
    proof {
        assert(strs(list@) =~= layer_names_of(flavor));
    }
    list
}

fn dense_suffixes(flavor: MlaMoeCheckpointFlavor) -> (list: Vec<&'static str>)
    ensures
        strs(list@) == dense_names_of(flavor),
{
    let mut list: Vec<&'static str> = Vec::new();
    match flavor {
        MlaMoeCheckpointFlavor::DeepSeek => {
            list.push("mlp.gate_up_proj.weight");
            list.push("mlp.down_proj.weight");
        },
        MlaMoeCheckpointFlavor::Glm => {
            list.push("mlp.gate_proj.weight");
            list.push("mlp.up_proj.weight");
            list.push("mlp.down_proj.weight");
        },
    }
    proof {
        assert(strs(list@) =~= dense_names_of(flavor));
    }
    list
}

/// A tensor that must be there.
pub open spec fn present(name: Seq<char>) -> TensorRequirement {
    TensorRequirement { name, shape: None }
}

/// The tensors of a checkpoint outside its layers.
pub open spec fn root_tensors(config: MlaMoeConfig, flavor: MlaMoeCheckpointFlavor) -> Seq<
    TensorRequirement,
> {
    let common = Seq::<TensorRequirement>::empty().push(present("model.embed_tokens.weight"@)).push(
        present("model.norm.weight"@),
    ).push(present("lm_head.weight"@));
    let mult = config.hc_mult->0;
    match flavor {
        MlaMoeCheckpointFlavor::DeepSeek => common.push(
            shaped("model.hc_head_fn"@, seq![mult, (mult * config.hidden_size->0) as usize]),
        ).push(shaped("model.hc_head_base"@, seq![mult])).push(
            shaped("model.hc_head_scale"@, seq![1usize]),
        ),
        MlaMoeCheckpointFlavor::Glm => common,
    }
}

/// Why the tensors of a checkpoint outside its layers cannot be described.
pub open spec fn root_fault(config: MlaMoeConfig, flavor: MlaMoeCheckpointFlavor) -> Option<
    Seq<char>,
> {
    match flavor {
        MlaMoeCheckpointFlavor::DeepSeek => if config.hidden_size is None {
            Some("missing DeepSeek model hidden_size config for HC head validation"@)
        } else if config.hc_mult is None {
            Some("missing DeepSeek model hc_mult config for HC head validation"@)
        } else if config.hc_mult->0 * config.hidden_size->0 > usize::MAX {
            Some("DeepSeek HC head dimension overflowed"@)
        } else {
            None
        },
        MlaMoeCheckpointFlavor::Glm => None,
    }
}

/// With the first `n` of several tensors of a layer.
pub open spec fn with_names(
    tensors: Seq<TensorRequirement>,
    layer_id: nat,
    names: Seq<Seq<char>>,
    n: nat,
) -> Seq<TensorRequirement>
    decreases n,
{
    if n == 0 || n > names.len() {
        tensors
    } else {
        with_names(tensors, layer_id, names, (n - 1) as nat).push(
            present(layer_tensor_name(layer_id, names[n - 1])),
        )
    }
}

/// With the tensors of a layer.
pub open spec fn with_layer(
    tensors: Seq<TensorRequirement>,
    config: MlaMoeConfig,
    flavor: MlaMoeCheckpointFlavor,
    layer_id: nat,
) -> Seq<TensorRequirement> {
    let common = with_names(
        tensors,
        layer_id,
        layer_names_of(flavor),
        layer_names_of(flavor).len(),
    );
    if config.moe_layer(layer_id, config.num_hidden_layers->0 as nat) {
        common.push(present(layer_tensor_name(layer_id, "mlp.gate.weight"@)))
    } else {
        with_names(common, layer_id, dense_names_of(flavor), dense_names_of(flavor).len())
    }
}

/// The tensors of a checkpoint with its first `n` layers.
pub open spec fn checkpoint_tensors(
    config: MlaMoeConfig,
    flavor: MlaMoeCheckpointFlavor,
    n: nat,
) -> Seq<TensorRequirement>
    decreases n,
{
    if n == 0 {
        root_tensors(config, flavor)
    } else {
        with_layer(
            checkpoint_tensors(config, flavor, (n - 1) as nat),
            config,
            flavor,
            (n - 1) as nat,
        )
    }
}

/// The layers and numbers of the routed experts of the first `n` layers.
pub open spec fn checkpoint_experts(config: MlaMoeConfig, n: nat) -> Seq<(usize, usize)>
    decreases n,
{
    if n == 0 {
        Seq::empty()
    } else {
        let before = checkpoint_experts(config, (n - 1) as nat);
        if config.moe_layer((n - 1) as nat, config.num_hidden_layers->0 as nat) {
            before + Seq::new(
                config.n_routed_experts->0 as nat,
                |e: int| ((n - 1) as usize, e as usize),
            )
        } else {
            before
        }
    }
}

fn require_present(tensors: &mut Vec<CheckpointTensorRequirement>, name: String)
    ensures
        requirements(final(tensors)@) == requirements(old(tensors)@).push(present(name@)),
{
    let ghost said = name@;
    tensors.push(CheckpointTensorRequirement::present(name));
    proof {
        assert(requirements(tensors@) =~= requirements(old(tensors)@).push(present(said)));
    }
}

fn require_names(
    tensors: &mut Vec<CheckpointTensorRequirement>,
    layer_id: usize,
    names: &Vec<&'static str>,
)
    ensures
        requirements(final(tensors)@) == with_names(
            requirements(old(tensors)@),
            layer_id as nat,
            strs(names@),
            names@.len(),
        ),
{
    let ghost start = requirements(tensors@);
    let mut i: usize = 0;
    while i < names.len()
        invariant
            i <= names@.len(),
            requirements(tensors@) == with_names(start, layer_id as nat, strs(names@), i as nat),
        decreases names@.len() - i,
    {
        proof {
            assert(strs(names@)[i as int] == names@[i as int]@);
        }
        let name = cat4("model.layers.", decimal_usize(layer_id).as_str(), ".", names[i]);
        require_present(tensors, name);
        i = i + 1;
    }
}

fn root_requirements(config: &MlaMoeConfig, flavor: MlaMoeCheckpointFlavor) -> (tensors: Result<
    Vec<CheckpointTensorRequirement>,
    String,
>)
    ensures
        match tensors {
            Ok(list) => root_fault(*config, flavor) is None && requirements(list@) == root_tensors(
                *config,
                flavor,
            ),
            Err(message) => root_fault(*config, flavor) == Some(message@),
        },
{
    let mut tensors: Vec<CheckpointTensorRequirement> = Vec::new();
    proof {
        assert(requirements(tensors@) =~= Seq::empty());
    }
    require_present(&mut tensors, "model.embed_tokens.weight".to_owned());
    require_present(&mut tensors, "model.norm.weight".to_owned());
    require_present(&mut tensors, "lm_head.weight".to_owned());
    match flavor {
        MlaMoeCheckpointFlavor::DeepSeek => {
            let hidden: usize = match config.hidden_size {
                Some(n) => n,
                None => {
                    return Err(
                        "missing DeepSeek model hidden_size config for HC head validation".to_owned(),
                    );
                },
            };
            let mult: usize = match config.hc_mult {
                Some(n) => n,
                None => {
                    return Err(
                        "missing DeepSeek model hc_mult config for HC head validation".to_owned(),
                    );
                },
            };
            let dim: usize = match mult.checked_mul(hidden) {
                Some(n) => n,
                None => {
                    return Err("DeepSeek HC head dimension overflowed".to_owned());
                },
            };
            require2(&mut tensors, "model.hc_head_fn", mult, dim);
            require1(&mut tensors, "model.hc_head_base", mult);
            require1(&mut tensors, "model.hc_head_scale", 1);
        },
        MlaMoeCheckpointFlavor::Glm => {},
    }
    Ok(tensors)
}

/// What the checkpoint of such a model must hold.
pub fn checkpoint_topology(
    architecture: &str,
    config: &MlaMoeConfig,
    flavor: MlaMoeCheckpointFlavor,
) -> (topology: Result<CheckpointTopology, ModelAdapterError>)
    requires
        config.num_hidden_layers is Some,
        config.n_routed_experts is Some,
    ensures
        match topology {
            Ok(t) => t.wf() && root_fault(*config, flavor) is None && t@ == (Topology {
                tensors: checkpoint_tensors(
                    *config,
                    flavor,
                    config.num_hidden_layers->0 as nat,
                ),
                experts: places(
                    checkpoint_experts(*config, config.num_hidden_layers->0 as nat),
                ),
                weights_per_group: 3,
            }),
            Err(e) => root_fault(*config, flavor) is Some && e@ == invalid_message(
                architecture@,
                root_fault(*config, flavor)->0,
            ),
        },
{
    let num_layers: usize = match config.num_hidden_layers {
        Some(n) => n,
        None => 0,
    };
    let routed: usize = match config.n_routed_experts {
        Some(n) => n,
        None => 0,
    };
    let mut tensors = match root_requirements(config, flavor) {
        Ok(tensors) => tensors,
        Err(message) => {
            return Err(ModelAdapterError::invalid(architecture, message.as_str()));
        },
    };
    let common = layer_suffixes(flavor);
    let dense = dense_suffixes(flavor);
    let mut coordinates: Vec<(usize, usize)> = Vec::new();
    let mut i: usize = 0;
    proof {
        assert(coordinates@ =~= Seq::empty());
    }
    while i < num_layers
        invariant
            i <= num_layers,
            config.num_hidden_layers == Some(num_layers),
            config.n_routed_experts == Some(routed),
            strs(common@) == layer_names_of(flavor),
            strs(dense@) == dense_names_of(flavor),
            requirements(tensors@) == checkpoint_tensors(*config, flavor, i as nat),
            coordinates@ == checkpoint_experts(*config, i as nat),
        decreases num_layers - i,
    {
        require_names(&mut tensors, i, &common);
        if config.is_moe_layer(i, num_layers) {
            let name = cat4(
                "model.layers.",
                decimal_usize(i).as_str(),
                ".",
                "mlp.gate.weight",
            );
            require_present(&mut tensors, name);
            let ghost before = coordinates@;
            let mut e: usize = 0;
            proof {
                assert(coordinates@ =~= before + Seq::new(0, |k: int| (i, k as usize)));
            }
            while e < routed
                invariant
                    e <= routed,
                    coordinates@ == before + Seq::new(e as nat, |k: int| (i, k as usize)),
                decreases routed - e,
            {
                coordinates.push((i, e));
                e = e + 1;
                proof {
                    assert(coordinates@ =~= before + Seq::new(
                        e as nat,
                        |k: int| (i, k as usize),
                    ));
                }
            }
            proof {
                assert(coordinates@ =~= checkpoint_experts(*config, (i + 1) as nat));
            }
        } else {
            require_names(&mut tensors, i, &dense);
        }
        i = i + 1;
    }
    Ok(CheckpointTopology::new(tensors).with_routed_experts(&coordinates, 3))
}

/// Why a configuration cannot be used.
pub open spec fn mla_moe_fault(
    a: Seq<char>,
    c: MlaMoeConfig,
    flavor: MlaMoeCheckpointFlavor,
) -> Option<Seq<char>> {
    let attention = either(
        required_fault(a, "num_hidden_layers"@, c.num_hidden_layers),
        either(
            required_fault(a, "num_attention_heads"@, c.num_attention_heads),
            either(
                required_fault(a, "qk_nope_head_dim"@, c.qk_nope_head_dim),
                either(
                    required_fault(a, "qk_rope_head_dim"@, c.qk_rope_head_dim),
                    required_fault(a, "v_head_dim"@, c.v_head_dim),
                ),
            ),
        ),
    );
    let experts = either(
        required_fault(a, "n_routed_experts"@, c.n_routed_experts),
        either(
            required_fault(a, "num_experts_per_tok"@, c.num_experts_per_tok),
            either(
                required_fault(a, "moe_intermediate_size"@, c.moe_intermediate_size),
                required_fault(a, "vocab_size"@, c.vocab_size),
            ),
        ),
    );
    let length = if or_else(c.max_position_embeddings, 32_768) == 0 {
        Some(invalid_message(a, "max_position_embeddings must be non-zero"@))
    } else {
        None
    };
    let cache = match packed_fault(c.qk_nope_head_dim->0, c.qk_rope_head_dim->0) {
        Some(error) => Some(invalid_message(a, error.message())),
        None => None,
    };
    let checkpoint = match root_fault(c, flavor) {
        Some(message) => Some(invalid_message(a, message)),
        None => None,
    };
    either(
        attention,
        either(
            experts,
            either(
                length,
                either(
                    choice_fault(a, c.num_experts_per_tok->0, c.n_routed_experts->0),
                    either(cache, checkpoint),
                ),
            ),
        ),
    )
}

/// Why a cache of packed latents cannot be laid out.
pub open spec fn packed_fault(nope: usize, rope: usize) -> Option<KvCacheLayoutError> {
    if nope % 64 != 0 {
        Some(KvCacheLayoutError::InvalidPackedMlaNopeHeadDim(nope))
    } else if packed_mla_bytes(nope, rope) > usize::MAX {
        Some(KvCacheLayoutError::SizeOverflow)
    } else {
        None
    }
}

/// The cache of packed latents.
pub open spec fn packed_cache(num_layers: usize, nope: usize, rope: usize) -> KvCacheModelLayout {
    KvCacheModelLayout {
        num_layers,
        kv_heads: 1,
        head_dim: packed_mla_bytes(nope, rope) as usize,
        kv_tensors_per_token: 1,
        bytes_per_token_per_layer: Some(packed_mla_bytes(nope, rope) as usize),
        tensor_geometry: KvCacheTensorGeometry::PackedBytes,
    }
}

/// Whether a definition is that of a configuration.
pub open spec fn mla_moe_definition_of(
    definition: ModelDefinition,
    architecture: Seq<char>,
    hf_config: HfModelConfig,
    c: MlaMoeConfig,
    flavor: MlaMoeCheckpointFlavor,
) -> bool {
    &&& definition.wf()
    &&& bare_definition(
        definition,
        architecture,
        hf_config,
        mla_execution(c),
        seq![RuntimeDtype::Bf16],
        Some(
            packed_cache(c.num_hidden_layers->0, c.qk_nope_head_dim->0, c.qk_rope_head_dim->0),
        ),
    )
    &&& definition.vocab_size == c.vocab_size
    &&& definition.max_context_length == Some(or_else(c.max_position_embeddings, 32_768))
    &&& definition.cache_architecture == ModelCacheArchitecture::PagedKv
    &&& definition.recurrent_state is None
    &&& definition.dense_decoder is None
    &&& definition.hybrid_decoder is None
    &&& definition.checkpoint_topology@ == (Topology {
        tensors: checkpoint_tensors(c, flavor, c.num_hidden_layers->0 as nat),
        experts: places(checkpoint_experts(c, c.num_hidden_layers->0 as nat)),
        weights_per_group: 3,
    })
}

/// The definition of such a model. `config` is what was read of the configuration document, or why it
/// could not be read.
pub fn build_mla_moe_definition(
    architecture: &'static str,
    hf_config: &HfModelConfig,
    config: Result<MlaMoeConfig, String>,
    flavor: MlaMoeCheckpointFlavor,
) -> (definition: Result<ModelDefinition, ModelAdapterError>)
    ensures
        match config {
            Ok(c) => match definition {
                Ok(d) => mla_moe_fault(architecture@, c, flavor) is None && mla_moe_definition_of(
                    d,
                    architecture@,
                    *hf_config,
                    c,
                    flavor,
                ),
                Err(e) => mla_moe_fault(architecture@, c, flavor) == Some(e@),
            },
            Err(message) => definition is Err && definition->Err_0@ == invalid_message(
                architecture@,
                "invalid shared MLA/MoE config document: "@ + message@,
            ),
        },
{
    let a = architecture;
    let config = match config {
        Ok(config) => config,
        Err(message) => {
            return Err(
                ModelAdapterError::invalid(
                    a,
                    cat2("invalid shared MLA/MoE config document: ", message.as_str()).as_str(),
                ),
            );
        },
    };
    let num_layers: usize = required_usize(a, "num_hidden_layers", config.num_hidden_layers)?;
    let heads: usize = required_usize(a, "num_attention_heads", config.num_attention_heads)?;
    let nope: usize = required_usize(a, "qk_nope_head_dim", config.qk_nope_head_dim)?;
    let rope: usize = required_usize(a, "qk_rope_head_dim", config.qk_rope_head_dim)?;
    let value: usize = required_usize(a, "v_head_dim", config.v_head_dim)?;
    let routed: usize = required_usize(a, "n_routed_experts", config.n_routed_experts)?;
    let chosen: usize = required_usize(a, "num_experts_per_tok", config.num_experts_per_tok)?;
    let expert_intermediate_size: usize = required_usize(
        a,
        "moe_intermediate_size",
        config.moe_intermediate_size,
    )?;
    let vocab_size: usize = required_usize(a, "vocab_size", config.vocab_size)?;
    let max_context_length: usize = match config.max_position_embeddings {
        Some(n) => n,
        None => 32_768,
    };
    if max_context_length == 0 {
        return Err(ModelAdapterError::invalid(a, "max_position_embeddings must be non-zero"));
    }
    check_choice(a, chosen, routed)?;
    let cache = match KvCacheModelLayout::packed_mla(num_layers, nope, rope) {
        Ok(cache) => cache,
        Err(error) => {
            return Err(ModelAdapterError::invalid(a, error.to_string().as_str()));
        },
    };
    let topology = checkpoint_topology(a, &config, flavor)?;
    let execution = ModelExecutionArchitecture::Transformer {
        attention: AttentionArchitecture::MultiLatent {
            num_attention_heads: heads,
            qk_nope_head_dim: nope,
            qk_rope_head_dim: rope,
            value_head_dim: value,
        },
        feed_forward: FeedForwardArchitecture::MixtureOfExperts {
            routed_expert_count: routed,
            experts_per_token: chosen,
            shared_expert_count: match config.n_shared_experts {
                Some(n) => n,
                None => 0,
            },
            expert_intermediate_size,
        },
    };
    let mut dtypes: Vec<RuntimeDtype> = Vec::new();
    dtypes.push(RuntimeDtype::Bf16);
    proof {
        assert(dtypes@ =~= seq![RuntimeDtype::Bf16]);
    }
    let bare = ModelDefinition::new(a, hf_config, execution, dtypes, Some(cache));
    Ok(
        bare.with_serving_metadata(vocab_size, max_context_length).with_checkpoint_topology(
            topology,
        ),
    )
}

/// How the family of a flavor is called.
pub open spec fn family_name(flavor: MlaMoeCheckpointFlavor) -> Seq<char> {
    match flavor {
        MlaMoeCheckpointFlavor::DeepSeek => "DeepSeek"@,
        MlaMoeCheckpointFlavor::Glm => "GLM-DSA"@,
    }
}

fn family_of(flavor: MlaMoeCheckpointFlavor) -> (name: &'static str)
    ensures
        name@ == family_name(flavor),
{
    match flavor {
        MlaMoeCheckpointFlavor::DeepSeek => "DeepSeek",
        MlaMoeCheckpointFlavor::Glm => "GLM-DSA",
    }
}

/// The place of a tensor outside the layers, which must be there.
pub open spec fn root_tensor(
    model: LocalModel,
    family: Seq<char>,
    name: Seq<char>,
) -> Result<TensorSpan, ArtifactFault> {
    match span_of(model.safetensors, model.shards, name) {
        Ok(Some(span)) => Ok(span),
        Ok(None) => Err(
            data_fault(model.model_path, "missing "@ + family + " model tensor "@ + name),
        ),
        Err(fault) => Err(fault),
    }
}

fn required_root_tensor(artifacts: &LocalModelArtifacts, family: &str, tensor_name: &str) -> (span:
    Result<SafetensorsTensorSpan, ModelArtifactError>)
    requires
        artifacts.wf(),
    ensures
        match span {
            Ok(s) => root_tensor(artifacts@, family@, tensor_name@) == Ok::<
                TensorSpan,
                ArtifactFault,
            >(s@),
            Err(e) => root_tensor(artifacts@, family@, tensor_name@) == Err::<
                TensorSpan,
                ArtifactFault,
            >(e@),
        },
{
    match artifacts.safetensors().tensor_span(artifacts.shards(), tensor_name) {
        Ok(Some(span)) => Ok(span),
        Ok(None) => Err(
            invalid_safetensors_data(
                artifacts.model_path(),
                cat4("missing ", family, " model tensor ", tensor_name),
            ),
        ),
        Err(error) => Err(error),
    }
}

/// Whether the first `n` of several tensors of a layer are there.
pub open spec fn names_found(
    model_path: Seq<char>,
    catalog: CheckpointCatalog,
    family: Seq<char>,
    layer_id: usize,
    names: Seq<Seq<char>>,
    n: nat,
) -> Result<(), ArtifactFault>
    decreases n,
{
    if n == 0 || n > names.len() {
        Ok(())
    } else {
        match names_found(model_path, catalog, family, layer_id, names, (n - 1) as nat) {
            Err(fault) => Err(fault),
            Ok(_) => if catalog.layer_tensors.dom().contains((layer_id, names[n - 1])) {
                Ok(())
            } else {
                Err(
                    data_fault(
                        model_path,
                        "missing "@ + family + " layer "@ + decimal(layer_id as nat) + " tensor "@
                            + names[n - 1],
                    ),
                )
            },
        }
    }
}

proof fn lemma_missing_name_stays(
    model_path: Seq<char>,
    catalog: CheckpointCatalog,
    family: Seq<char>,
    layer_id: usize,
    names: Seq<Seq<char>>,
    n: nat,
    m: nat,
)
    requires
        n <= m <= names.len(),
        names_found(model_path, catalog, family, layer_id, names, n) is Err,
    ensures
        names_found(model_path, catalog, family, layer_id, names, m) == names_found(
            model_path,
            catalog,
            family,
            layer_id,
            names,
            n,
        ),
    decreases m - n,
{
    if n < m {
        lemma_missing_name_stays(
            model_path,
            catalog,
            family,
            layer_id,
            names,
            n,
            (m - 1) as nat,
        );
    }
}

fn required_layer_tensors(
    catalog: &LocalModelCheckpointCatalog,
    family: &str,
    layer_id: usize,
    names: &Vec<&'static str>,
) -> (found: Result<(), ModelArtifactError>)
    requires
        catalog.wf(),
    ensures
        match found {
            Ok(_) => names_found(
                catalog@.model_path,
                catalog@,
                family@,
                layer_id,
                strs(names@),
                names@.len(),
            ) == Ok::<(), ArtifactFault>(()),
            Err(e) => names_found(
                catalog@.model_path,
                catalog@,
                family@,
                layer_id,
                strs(names@),
                names@.len(),
            ) == Err::<(), ArtifactFault>(e@),
        },
{
    let ghost all = strs(names@);
    let mut i: usize = 0;
    while i < names.len()
        invariant
            i <= names@.len(),
            catalog.wf(),
            all == strs(names@),
            names_found(
                catalog@.model_path,
                catalog@,
                family@,
                layer_id,
                all,
                i as nat,
            ) is Ok,
        decreases names@.len() - i,
    {
        proof {
            assert(all[i as int] == names@[i as int]@);
        }
        if catalog.layer_tensors().span(layer_id, names[i]).is_none() {
            proof {
                lemma_missing_name_stays(
                    catalog@.model_path,
                    catalog@,
                    family@,
                    layer_id,
                    all,
                    (i + 1) as nat,
                    all.len(),
                );
            }
            return Err(
                invalid_safetensors_data(
                    catalog.model_path(),
                    cat6(
                        "missing ",
                        family,
                        " layer ",
                        decimal_usize(layer_id).as_str(),
                        " tensor ",
                        names[i],
                    ),
                ),
            );
        }
        i = i + 1;
    }
    Ok(())
}

/// Whether a layer has routed experts in a checkpoint.
pub open spec fn experts_found(
    model_path: Seq<char>,
    catalog: CheckpointCatalog,
    family: Seq<char>,
    layer_id: usize,
) -> Result<(), ArtifactFault> {
    if experts_of_layer(
        sorted::<ExpertPlace, ExpertGroup>(catalog.routed_experts),
        layer_id,
    ).len() > 0 {
        Ok(())
    } else {
        Err(
            data_fault(
                model_path,
                "missing "@ + family + " layer "@ + decimal(layer_id as nat)
                    + " routed expert weights"@,
            ),
        )
    }
}

/// Whether a layer has what it must have.
pub open spec fn layer_found(
    catalog: CheckpointCatalog,
    config: MlaMoeConfig,
    flavor: MlaMoeCheckpointFlavor,
    layer_id: usize,
) -> Result<(), ArtifactFault> {
    let path = catalog.model_path;
    let family = family_name(flavor);
    let common = layer_names_of(flavor);
    let dense = dense_names_of(flavor);
    let gate = seq!["mlp.gate.weight"@];
    match names_found(path, catalog, family, layer_id, common, common.len()) {
        Err(fault) => Err(fault),
        Ok(_) => if config.moe_layer(layer_id as nat, config.num_hidden_layers->0 as nat) {
            match names_found(path, catalog, family, layer_id, gate, 1) {
                Err(fault) => Err(fault),
                Ok(_) => experts_found(path, catalog, family, layer_id),
            }
        } else {
            names_found(path, catalog, family, layer_id, dense, dense.len())
        },
    }
}

/// Whether the first `n` layers have what they must have.
pub open spec fn layers_found(
    catalog: CheckpointCatalog,
    config: MlaMoeConfig,
    flavor: MlaMoeCheckpointFlavor,
    n: nat,
) -> Result<(), ArtifactFault>
    decreases n,
{
    if n == 0 {
        Ok(())
    } else {
        match layers_found(catalog, config, flavor, (n - 1) as nat) {
            Err(fault) => Err(fault),
            Ok(_) => layer_found(catalog, config, flavor, (n - 1) as usize),
        }
    }
}

proof fn lemma_missing_layer_stays(
    catalog: CheckpointCatalog,
    config: MlaMoeConfig,
    flavor: MlaMoeCheckpointFlavor,
    n: nat,
    m: nat,
)
    requires
        n <= m,
        layers_found(catalog, config, flavor, n) is Err,
    ensures
        layers_found(catalog, config, flavor, m) == layers_found(catalog, config, flavor, n),
    decreases m - n,
{
    if n < m {
        lemma_missing_layer_stays(catalog, config, flavor, n, (m - 1) as nat);
    }
}

/// Whether a tensor has a shape.
pub open spec fn shape_found(
    model_path: Seq<char>,
    name: Seq<char>,
    span: TensorSpan,
    shape: Seq<usize>,
) -> Result<(), ArtifactFault> {
    if span.metadata.shape == shape {
        Ok(())
    } else {
        Err(
            data_fault(
                model_path,
                "DeepSeek model tensor "@ + name + " shape "@ + shape_text(span.metadata.shape)
                    + " does not match expected "@ + shape_text(shape),
            ),
        )
    }
}

fn validate_tensor_shape(
    model_path: &str,
    tensor_name: &str,
    span: &SafetensorsTensorSpan,
    shape: &Vec<usize>,
) -> (valid: Result<(), ModelArtifactError>)
    ensures
        match valid {
            Ok(_) => shape_found(model_path@, tensor_name@, span@, shape@) == Ok::<
                (),
                ArtifactFault,
            >(()),
            Err(e) => shape_found(model_path@, tensor_name@, span@, shape@) == Err::<
                (),
                ArtifactFault,
            >(e@),
        },
{
    if same_shape(&span.metadata.shape, shape) {
        return Ok(());
    }
    let head = cat4(
        "DeepSeek model tensor ",
        tensor_name,
        " shape ",
        text_of_shape(&span.metadata.shape).as_str(),
    );
    Err(
        invalid_safetensors_data(
            model_path,
            cat3(head.as_str(), " does not match expected ", text_of_shape(shape).as_str()),
        ),
    )
}

/// The first failure of two checks.
pub open spec fn and_then(a: Result<(), ArtifactFault>, b: Result<(), ArtifactFault>) -> Result<
    (),
    ArtifactFault,
> {
    match a {
        Ok(_) => b,
        Err(fault) => Err(fault),
    }
}

/// Whether the tensors of the head of DeepSeek V4 have their shapes.
pub open spec fn head_found(
    model_path: Seq<char>,
    config: MlaMoeConfig,
    head_fn: TensorSpan,
    head_base: TensorSpan,
    head_scale: TensorSpan,
) -> Result<(), ArtifactFault> {
    match root_fault(config, MlaMoeCheckpointFlavor::DeepSeek) {
        Some(message) => Err(data_fault(model_path, message)),
        None => {
            let mult = config.hc_mult->0;
            and_then(
                shape_found(
                    model_path,
                    "model.hc_head_fn"@,
                    head_fn,
                    seq![mult, (mult * config.hidden_size->0) as usize],
                ),
                and_then(
                    shape_found(model_path, "model.hc_head_base"@, head_base, seq![mult]),
                    shape_found(model_path, "model.hc_head_scale"@, head_scale, seq![1usize]),
                ),
            )
        },
    }
}

fn validate_deepseek_hc_head_shapes(
    model_path: &str,
    config: &MlaMoeConfig,
    head_fn: &SafetensorsTensorSpan,
    head_base: &SafetensorsTensorSpan,
    head_scale: &SafetensorsTensorSpan,
) -> (valid: Result<(), ModelArtifactError>)
    ensures
        match valid {
            Ok(_) => head_found(model_path@, *config, head_fn@, head_base@, head_scale@) == Ok::<
                (),
                ArtifactFault,
            >(()),
            Err(e) => head_found(model_path@, *config, head_fn@, head_base@, head_scale@) == Err::<
                (),
                ArtifactFault,
            >(e@),
        },
{
    let hidden: usize = match config.hidden_size {
        Some(n) => n,
        None => {
            return Err(
                invalid_safetensors_data(
                    model_path,
                    "missing DeepSeek model hidden_size config for HC head validation".to_owned(),
                ),
            );
        },
    };
    let mult: usize = match config.hc_mult {
        Some(n) => n,
        None => {
            return Err(
                invalid_safetensors_data(
                    model_path,
                    "missing DeepSeek model hc_mult config for HC head validation".to_owned(),
                ),
            );
        },
    };
    let dim: usize = match mult.checked_mul(hidden) {
        Some(n) => n,
        None => {
            return Err(
                invalid_safetensors_data(
                    model_path,
                    "DeepSeek HC head dimension overflowed".to_owned(),
                ),
            );
        },
    };
    let mut wide: Vec<usize> = Vec::new();
    wide.push(mult);
    wide.push(dim);
    let mut narrow: Vec<usize> = Vec::new();
    narrow.push(mult);
    let mut one: Vec<usize> = Vec::new();
    one.push(1);
    proof {
        assert(wide@ =~= seq![mult, dim]);
        assert(narrow@ =~= seq![mult]);
        assert(one@ =~= seq![1usize]);
    }
    validate_tensor_shape(model_path, "model.hc_head_fn", head_fn, &wide)?;
    validate_tensor_shape(model_path, "model.hc_head_base", head_base, &narrow)?;
    validate_tensor_shape(model_path, "model.hc_head_scale", head_scale, &one)
}

/// Whether the tensors that all flavors have outside their layers are there.
pub open spec fn root_found(model: LocalModel, family: Seq<char>) -> Result<(), ArtifactFault> {
    match root_tensor(model, family, "model.embed_tokens.weight"@) {
        Err(fault) => Err(fault),
        Ok(_) => match root_tensor(model, family, "model.norm.weight"@) {
            Err(fault) => Err(fault),
            Ok(_) => match root_tensor(model, family, "lm_head.weight"@) {
                Err(fault) => Err(fault),
                Ok(_) => Ok(()),
            },
        },
    }
}

/// Whether the head of DeepSeek V4 is there and has its shapes.
pub open spec fn deepseek_head_found(model: LocalModel, config: MlaMoeConfig) -> Result<
    (),
    ArtifactFault,
> {
    match root_tensor(model, "DeepSeek"@, "model.hc_head_fn"@) {
        Err(fault) => Err(fault),
        Ok(head_fn) => match root_tensor(model, "DeepSeek"@, "model.hc_head_base"@) {
            Err(fault) => Err(fault),
            Ok(head_base) => match root_tensor(model, "DeepSeek"@, "model.hc_head_scale"@) {
                Err(fault) => Err(fault),
                Ok(head_scale) => head_found(
                    model.model_path,
                    config,
                    head_fn,
                    head_base,
                    head_scale,
                ),
            },
        },
    }
}

/// Whether a checkpoint has what a model of a flavor must have.
pub open spec fn mla_moe_checkpoint_found(
    model: LocalModel,
    config: MlaMoeConfig,
    flavor: MlaMoeCheckpointFlavor,
) -> Result<(), ArtifactFault> {
    match catalog_of(model) {
        Err(fault) => Err(fault),
        Ok(catalog) => match config.num_hidden_layers {
            None => Err(
                data_fault(
                    model.model_path,
                    "missing "@ + family_name(flavor) + " model num_hidden_layers config"@,
                ),
            ),
            Some(num_layers) => {
                let head = match flavor {
                    MlaMoeCheckpointFlavor::DeepSeek => deepseek_head_found(model, config),
                    MlaMoeCheckpointFlavor::Glm => Ok(()),
                };
                and_then(
                    root_found(model, family_name(flavor)),
                    and_then(head, layers_found(catalog, config, flavor, num_layers as nat)),
                )
            },
        },
    }
}

fn validate_layer(
    catalog: &LocalModelCheckpointCatalog,
    config: &MlaMoeConfig,
    flavor: MlaMoeCheckpointFlavor,
    layer_id: usize,
    num_layers: usize,
) -> (valid: Result<(), ModelArtifactError>)
    requires
        catalog.wf(),
        config.num_hidden_layers == Some(num_layers),
    ensures
        match valid {
            Ok(_) => layer_found(catalog@, *config, flavor, layer_id) == Ok::<(), ArtifactFault>(
                (),
            ),
            Err(e) => layer_found(catalog@, *config, flavor, layer_id) == Err::<(), ArtifactFault>(
                e@,
            ),
        },
{
    let family = family_of(flavor);
    let common = layer_suffixes(flavor);
    required_layer_tensors(catalog, family, layer_id, &common)?;
    if config.is_moe_layer(layer_id, num_layers) {
        let mut gate: Vec<&'static str> = Vec::new();
        gate.push("mlp.gate.weight");
        proof {
            assert(strs(gate@) =~= seq!["mlp.gate.weight"@]);
        }
        required_layer_tensors(catalog, family, layer_id, &gate)?;
        if catalog.routed_experts().layer(layer_id).is_none() {
            return Err(
                invalid_safetensors_data(
                    catalog.model_path(),
                    cat5(
                        "missing ",
                        family,
                        " layer ",
                        decimal_usize(layer_id).as_str(),
                        " routed expert weights",
                    ),
                ),
            );
        }
        Ok(())
    } else {
        let dense = dense_suffixes(flavor);
        required_layer_tensors(catalog, family, layer_id, &dense)
    }
}

fn validate_root(artifacts: &LocalModelArtifacts, family: &str) -> (valid: Result<
    (),
    ModelArtifactError,
>)
    requires
        artifacts.wf(),
    ensures
        match valid {
            Ok(_) => root_found(artifacts@, family@) == Ok::<(), ArtifactFault>(()),
            Err(e) => root_found(artifacts@, family@) == Err::<(), ArtifactFault>(e@),
        },
{
    required_root_tensor(artifacts, family, "model.embed_tokens.weight")?;
    required_root_tensor(artifacts, family, "model.norm.weight")?;
    required_root_tensor(artifacts, family, "lm_head.weight")?;
    Ok(())
}

fn validate_deepseek_head(artifacts: &LocalModelArtifacts, config: &MlaMoeConfig) -> (valid: Result<
    (),
    ModelArtifactError,
>)
    requires
        artifacts.wf(),
    ensures
        match valid {
            Ok(_) => deepseek_head_found(artifacts@, *config) == Ok::<(), ArtifactFault>(()),
            Err(e) => deepseek_head_found(artifacts@, *config) == Err::<(), ArtifactFault>(e@),
        },
{
    let head_fn = required_root_tensor(artifacts, "DeepSeek", "model.hc_head_fn")?;
    let head_base = required_root_tensor(artifacts, "DeepSeek", "model.hc_head_base")?;
    let head_scale = required_root_tensor(artifacts, "DeepSeek", "model.hc_head_scale")?;
    validate_deepseek_hc_head_shapes(
        artifacts.model_path(),
        config,
        &head_fn,
        &head_base,
        &head_scale,
    )
}

fn validate_mla_moe_checkpoint(
    artifacts: &LocalModelArtifacts,
    config: &MlaMoeConfig,
    flavor: MlaMoeCheckpointFlavor,
) -> (valid: Result<(), ModelArtifactError>)
    requires
        artifacts.wf(),
    ensures
        match valid {
            Ok(_) => mla_moe_checkpoint_found(artifacts@, *config, flavor) == Ok::<
                (),
                ArtifactFault,
            >(()),
            Err(e) => mla_moe_checkpoint_found(artifacts@, *config, flavor) == Err::<
                (),
                ArtifactFault,
            >(e@),
        },
{
    let catalog = artifacts.checkpoint_catalog()?;
    let num_layers: usize = match config.num_hidden_layers {
        Some(n) => n,
        None => {
            return Err(
                invalid_safetensors_data(
                    artifacts.model_path(),
                    cat3(
                        "missing ",
                        family_of(flavor),
                        " model num_hidden_layers config",
                    ),
                ),
            );
        },
    };
    validate_root(artifacts, family_of(flavor))?;
    if flavor == MlaMoeCheckpointFlavor::DeepSeek {
        validate_deepseek_head(artifacts, config)?;
    }
    let ghost held = catalog@;
    let mut i: usize = 0;
    while i < num_layers
        invariant
            i <= num_layers,
            catalog.wf(),
            held == catalog@,
            config.num_hidden_layers == Some(num_layers),
            layers_found(held, *config, flavor, i as nat) is Ok,
            catalog_of(artifacts@) == Ok::<CheckpointCatalog, ArtifactFault>(held),
            root_found(artifacts@, family_name(flavor)) is Ok,
            flavor == MlaMoeCheckpointFlavor::DeepSeek ==> deepseek_head_found(
                artifacts@,
                *config,
            ) is Ok,
        decreases num_layers - i,
    {
        match validate_layer(&catalog, config, flavor, i, num_layers) {
            Ok(_) => {},
            Err(error) => {
                proof {
                    lemma_missing_layer_stays(
                        held,
                        *config,
                        flavor,
                        (i + 1) as nat,
                        num_layers as nat,
                    );
                }
                return Err(error);
            },
        }
        i = i + 1;
    }
    Ok(())
}

/// Whether a checkpoint has what DeepSeek V4 must have.
pub fn validate_deepseek_checkpoint(artifacts: &LocalModelArtifacts, config: &MlaMoeConfig) -> (
valid: Result<(), ModelArtifactError>)
    requires
        artifacts.wf(),
    ensures
        match valid {
            Ok(_) => mla_moe_checkpoint_found(
                artifacts@,
                *config,
                MlaMoeCheckpointFlavor::DeepSeek,
            ) == Ok::<(), ArtifactFault>(()),
            Err(e) => mla_moe_checkpoint_found(
                artifacts@,
                *config,
                MlaMoeCheckpointFlavor::DeepSeek,
            ) == Err::<(), ArtifactFault>(e@),
        },
{
    validate_mla_moe_checkpoint(artifacts, config, MlaMoeCheckpointFlavor::DeepSeek)
}

/// Whether a checkpoint has what GLM must have.
pub fn validate_glm_moe_dsa_checkpoint(artifacts: &LocalModelArtifacts, config: &MlaMoeConfig) -> (
valid: Result<(), ModelArtifactError>)
    requires
        artifacts.wf(),
    ensures
        match valid {
            Ok(_) => mla_moe_checkpoint_found(
                artifacts@,
                *config,
                MlaMoeCheckpointFlavor::Glm,
            ) == Ok::<(), ArtifactFault>(()),
            Err(e) => mla_moe_checkpoint_found(
                artifacts@,
                *config,
                MlaMoeCheckpointFlavor::Glm,
            ) == Err::<(), ArtifactFault>(e@),
        },
{
    validate_mla_moe_checkpoint(artifacts, config, MlaMoeCheckpointFlavor::Glm)
}

} // verus!
