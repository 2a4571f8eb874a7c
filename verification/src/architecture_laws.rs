//! What the architecture of a model promises: how it may be spread over ranks, what it keeps for a
//! request, and which batches and memories it takes.
use vstd::prelude::*;

use crate::decoder_plans::{
    cache_layers, count_cache_layers, recurrent_state_layout, HybridDecoderLayerWeightNames,
    HybridLinearAttentionConfig, RecurrentStateLayout,
};
use crate::model_definition::{ModelDefinition, RuntimeRequirements};
use crate::model_forward::{
    ranges_fault, region_bytes, validate_logits, validate_model_worker_batch, ForwardFault,
    ModelForwardError, ModelRunner, TransferableKvCacheMemory, TransferableRegion,
};
use crate::model_registry::first_rank_of_node;
use crate::model_runtime::{
    check_execution_dtype, validate_runtime_parallelism, validate_runtime_support, BackendOffer,
    DtypeNames, ModelRuntimeLoadError,
};
use crate::models::{
    checked_add, checked_product, positive_float, required_usize, AttentionArchitecture,
    AttentionFamily, ConfigNumber, FeedForwardArchitecture, FeedForwardFamily, ModelAdapterError,
    ModelCacheArchitecture, RuntimeDtype,
};
use crate::model_executor::{ModelWorkerBatch, WorkerBatch};
use crate::wire::seqs;

verus! {

/// So many times a number.
pub open spec fn times(n: int, m: int) -> int {
    n * m
}

/// Heads can be spread over ranks: each rank gets as many, or each head goes to as many ranks.
pub open spec fn spread(heads: int, ranks: int) -> bool {
    (exists|n: int| heads == #[trigger] times(n, ranks)) || heads > 0 && (exists|n: int|
        ranks == #[trigger] times(n, heads))
}

/// Heads that divide evenly are spread.
pub proof fn lemma_spread(heads: usize, ranks: usize)
    requires
        ranks > 0,
    ensures
        crate::models::heads_spread(heads, ranks) ==> spread(heads as int, ranks as int),
        heads >= ranks ==> (crate::models::heads_spread(heads, ranks) <==> heads % ranks == 0),
        0 < heads < ranks ==> (crate::models::heads_spread(heads, ranks) <==> ranks % heads == 0),
        heads == 0 ==> !crate::models::heads_spread(heads, ranks),
{
    if heads >= ranks {
        vstd::arithmetic::div_mod::lemma_fundamental_div_mod(heads as int, ranks as int);
        let n = heads as int / ranks as int;
        assert(n * ranks == ranks * n) by (nonlinear_arith);
        assert(heads % ranks == 0 ==> heads == times(n, ranks as int));
    } else if heads > 0 {
        vstd::arithmetic::div_mod::lemma_fundamental_div_mod(ranks as int, heads as int);
        let n = ranks as int / heads as int;
        assert(n * heads == heads * n) by (nonlinear_arith);
        assert(ranks % heads == 0 ==> ranks == times(n, heads as int));
    }
}

/// Multi-head attention can be spread over ranks exactly where the attention heads divide among them
/// and the heads of keys divide among them or repeat evenly.
pub proof fn attention_is_spread_by_heads(
    heads: usize,
    kv_heads: usize,
    head_dim: usize,
    ranks: usize,
    valid: Result<(), String>,
)
    requires
        ranks > 0,
        call_ensures(
            AttentionArchitecture::validate_tensor_parallel,
            (
                AttentionArchitecture::MultiHead {
                    num_attention_heads: heads,
                    num_key_value_heads: kv_heads,
                    head_dim,
                },
                ranks,
            ),
            valid,
        ),
    ensures
        valid is Ok <==> heads % ranks == 0 && if kv_heads >= ranks {
            kv_heads % ranks == 0
        } else {
            kv_heads > 0 && ranks % kv_heads == 0
        },
        valid is Ok ==> spread(kv_heads as int, ranks as int),
{
    lemma_spread(kv_heads, ranks);
}

/// Latent attention can be spread exactly where its heads divide among the ranks.
pub proof fn latent_attention_is_spread_by_heads(
    heads: usize,
    nope: usize,
    rope: usize,
    value: usize,
    ranks: usize,
    valid: Result<(), String>,
)
    requires
        ranks > 0,
        call_ensures(
            AttentionArchitecture::validate_tensor_parallel,
            (
                AttentionArchitecture::MultiLatent {
                    num_attention_heads: heads,
                    qk_nope_head_dim: nope,
                    qk_rope_head_dim: rope,
                    value_head_dim: value,
                },
                ranks,
            ),
            valid,
        ),
    ensures
        valid is Ok <==> heads % ranks == 0,
{
}

/// Hybrid attention can be spread exactly where every kind of its heads can.
pub proof fn hybrid_attention_is_spread_by_heads(
    attention: AttentionArchitecture,
    ranks: usize,
    valid: Result<(), String>,
)
    requires
        ranks > 0,
        call_ensures(
            AttentionArchitecture::validate_tensor_parallel,
            (attention, ranks),
            valid,
        ),
    ensures
        attention is Absent ==> valid is Ok,
        attention is Hybrid && valid is Ok ==> {
            &&& attention->Hybrid_num_attention_heads % ranks == 0
            &&& spread(attention->Hybrid_num_key_value_heads as int, ranks as int)
            &&& spread(attention->linear_num_key_heads as int, ranks as int)
            &&& spread(attention->linear_num_value_heads as int, ranks as int)
        },
        attention is HybridMultiLatent && valid is Ok ==> {
            &&& attention->HybridMultiLatent_num_attention_heads % ranks == 0
            &&& spread(attention->linear_num_heads as int, ranks as int)
        },
        attention is Hybrid && ranks == 1 && attention->Hybrid_num_key_value_heads > 0
            && attention->linear_num_key_heads > 0 && attention->linear_num_value_heads > 0
            ==> valid is Ok,
{
    if attention is Hybrid {
        lemma_spread(attention->Hybrid_num_key_value_heads, ranks);
        lemma_spread(attention->linear_num_key_heads, ranks);
        lemma_spread(attention->linear_num_value_heads, ranks);
    }
    if attention is HybridMultiLatent {
        lemma_spread(attention->linear_num_heads, ranks);
    }
}

/// An architecture belongs to the family that it is named after; both hybrids are hybrid.
pub proof fn architectures_belong_to_their_family(
    attention: AttentionArchitecture,
    network: FeedForwardArchitecture,
    family: AttentionFamily,
    kind: FeedForwardFamily,
)
    requires
        call_ensures(AttentionArchitecture::family, (attention,), family),
        call_ensures(FeedForwardArchitecture::family, (network,), kind),
    ensures
        family is Absent <==> attention is Absent,
        family is MultiHead <==> attention is MultiHead,
        family is MultiLatent <==> attention is MultiLatent,
        family is Hybrid <==> attention is Hybrid || attention is HybridMultiLatent,
        kind is Absent <==> network is Absent,
        kind is Dense <==> network is Dense,
        kind is MixtureOfExperts <==> network is MixtureOfExperts,
{
}

/// Prefixes are shared only where keys alone are kept, and a cache that keeps a state cannot be
/// handed over by its keys.
pub proof fn states_are_not_shared(cache: ModelCacheArchitecture, radix: bool, transfer: bool)
    requires
        call_ensures(ModelCacheArchitecture::supports_radix_prefix_cache, (cache,), radix),
        call_ensures(ModelCacheArchitecture::supports_kv_only_transfer, (cache,), transfer),
    ensures
        radix <==> cache is PagedKv,
        cache is HybridState ==> !transfer && !radix,
        cache is PagedKv || cache is Absent ==> transfer,
{
}

/// A layer with a state keeps, of the convolution, one column less than its kernel has, for the keys,
/// the queries and the values; and of the recurrence, a matrix of keys by values for each head of
/// values.
pub proof fn states_hold_their_convolution_and_their_matrices(
    layout: RecurrentStateLayout,
    conv: Option<usize>,
    temporal: Option<usize>,
    all: Option<usize>,
)
    requires
        call_ensures(RecurrentStateLayout::conv_elements_per_layer, (layout,), conv),
        call_ensures(RecurrentStateLayout::temporal_elements_per_layer, (layout,), temporal),
        call_ensures(RecurrentStateLayout::elements_per_request, (layout,), all),
    ensures
        conv matches Some(n) ==> n == (layout.num_key_heads * layout.key_head_dim
            + layout.num_key_heads * layout.key_head_dim + layout.num_value_heads
            * layout.value_head_dim) * (layout.conv_kernel_dim - 1),
        layout.conv_kernel_dim == 0 ==> conv is None,
        temporal matches Some(n) ==> n == layout.num_value_heads * layout.key_head_dim
            * layout.value_head_dim,
        all matches Some(n) ==> conv is Some && temporal is Some && n == layout.layer_count * (
        conv->0 + temporal->0),
{
    if conv is Some {
        let keys = layout.num_key_heads * layout.key_head_dim;
        let values = layout.num_value_heads * layout.value_head_dim;
        assert(layout.channels() == keys + keys + values) by {
            assert(2 * keys + values >= 0) by (nonlinear_arith)
                requires
                    keys == layout.num_key_heads * layout.key_head_dim,
                    values == layout.num_value_heads * layout.value_head_dim,
            ;
        }
        assert((keys + keys + values) * (layout.conv_kernel_dim - 1) >= 0) by (nonlinear_arith)
            requires
                keys + keys + values >= 0,
                layout.conv_kernel_dim >= 1,
        ;
    }
    if temporal is Some {
        assert(layout.num_value_heads * layout.key_head_dim * layout.value_head_dim >= 0)
            by (nonlinear_arith);
    }
}

/// The state of a layer has the sizes of its attention; with one kind of heads, keys and values have
/// as many.
pub proof fn states_have_the_sizes_of_their_attention(
    layers: usize,
    linear: HybridLinearAttentionConfig,
    layout: RecurrentStateLayout,
)
    requires
        call_ensures(recurrent_state_layout, (layers, linear), layout),
    ensures
        layout.layer_count == layers,
        linear matches HybridLinearAttentionConfig::GatedDeltaNet {
            conv_kernel_dim,
            key_head_dim,
            value_head_dim,
            num_key_heads,
            num_value_heads,
        } ==> layout.conv_kernel_dim == conv_kernel_dim && layout.key_head_dim == key_head_dim
            && layout.value_head_dim == value_head_dim && layout.num_key_heads == num_key_heads
            && layout.num_value_heads == num_value_heads,
        linear matches HybridLinearAttentionConfig::KeyGatedDelta {
            conv_kernel_dim,
            key_head_dim,
            value_head_dim,
            num_heads,
        } ==> layout.conv_kernel_dim == conv_kernel_dim && layout.key_head_dim == key_head_dim
            && layout.value_head_dim == value_head_dim && layout.num_key_heads == num_heads
            && layout.num_value_heads == num_heads,
{
}

/// A layer keeps keys where its attention is full or latent.
pub open spec fn keeps(layer: HybridDecoderLayerWeightNames) -> bool {
    layer.mixer is FullAttention || layer.mixer is MultiLatentAttention
}

/// The layers that keep keys are counted one by one.
pub proof fn layers_with_keys_are_counted(
    layers: Vec<HybridDecoderLayerWeightNames>,
    shorter: Vec<HybridDecoderLayerWeightNames>,
    count: usize,
    before: usize,
)
    requires
        layers@.len() > 0,
        shorter@ == layers@.drop_last(),
        call_ensures(count_cache_layers, (&layers,), count),
        call_ensures(count_cache_layers, (&shorter,), before),
    ensures
        count == before + if keeps(layers@.last()) {
            1int
        } else {
            0int
        },
        shorter@.len() == 0 ==> before == 0,
{
    lemma_same_layers(layers@, shorter@, shorter@.len());
}

/// Layers at the front count the same.
pub proof fn lemma_same_layers(
    layers: Seq<HybridDecoderLayerWeightNames>,
    shorter: Seq<HybridDecoderLayerWeightNames>,
    n: nat,
)
    requires
        layers.len() > 0,
        shorter == layers.drop_last(),
        n <= shorter.len(),
    ensures
        cache_layers(layers, n) == cache_layers(shorter, n),
    decreases n,
{
    if n > 0 {
        lemma_same_layers(layers, shorter, (n - 1) as nat);
    }
}

/// All ranges of a batch lie within its tokens.
pub open spec fn lies_within(batch: WorkerBatch, i: int) -> bool {
    &&& batch.request_offsets[i] + batch.input_token_counts[i] <= batch.input_ids.len()
    &&& batch.request_offsets[i] + batch.input_token_counts[i] <= usize::MAX
    &&& batch.sequence_offsets[i] + batch.sequence_token_counts[i]
        <= batch.sequence_token_ids.len()
    &&& batch.sequence_offsets[i] + batch.sequence_token_counts[i] <= usize::MAX
}

/// The first ranges of a batch.
pub proof fn lemma_ranges(batch: WorkerBatch, n: nat)
    requires
        batch.sequence_token_ids.len() == batch.sequence_cache_pages.len(),
    ensures
        ranges_fault(batch, n) is None <==> forall|i: int|
            0 <= i < n ==> #[trigger] lies_within(batch, i),
    decreases n,
{
    if n > 0 {
        lemma_ranges(batch, (n - 1) as nat);
        if forall|i: int| 0 <= i < n ==> #[trigger] lies_within(batch, i) {
            assert(lies_within(batch, n - 1));
        }
    }
}

/// A batch is accepted exactly where every list has an entry for each request or each token, and the
/// range of each request lies within the tokens.
pub proof fn batches_are_accepted_where_their_lists_agree(
    batch: ModelWorkerBatch,
    checked: Result<(), ModelForwardError>,
)
    requires
        call_ensures(validate_model_worker_batch, (&batch,), checked),
    ensures
        checked is Ok <==> {
            let n = batch@.request_ids.len();
            &&& batch@.request_offsets.len() == n
            &&& batch@.input_token_counts.len() == n
            &&& batch@.sequence_offsets.len() == n
            &&& batch@.sequence_token_counts.len() == n
            &&& batch@.positions.len() == batch@.input_ids.len()
            &&& batch@.out_cache_pages.len() == batch@.input_ids.len()
            &&& batch@.sequence_cache_pages.len() == batch@.sequence_token_ids.len()
            &&& forall|i: int| 0 <= i < n ==> #[trigger] lies_within(batch@, i)
        },
{
    if batch@.sequence_token_ids.len() == batch@.sequence_cache_pages.len() {
        lemma_ranges(batch@, batch@.request_ids.len());
    }
}

/// Logits are accepted exactly where every request has as many as the first, at least one.
pub proof fn logits_are_accepted_where_they_are_even(
    logits: Vec<Vec<u32>>,
    checked: Result<(), ModelForwardError>,
)
    requires
        call_ensures(validate_logits::<u32>, (&logits,), checked),
    ensures
        checked is Ok <==> forall|i: int|
            0 <= i < logits@.len() ==> (#[trigger] logits@[i])@.len() > 0 && logits@[i]@.len()
                == logits@[0]@.len(),
        checked is Err && logits@[0]@.len() == 0 ==> checked->Err_0@ == ForwardFault::EmptyVocabulary,
        checked is Err && logits@[0]@.len() > 0 ==> checked->Err_0@ == ForwardFault::RaggedLogits,
{
    let rows = seqs(logits@);
    assert(rows.len() == logits@.len());
    assert forall|i: int| 0 <= i < rows.len() implies #[trigger] rows[i] == logits@[i]@ by {}
    if checked is Ok {
        assert forall|i: int| 0 <= i < logits@.len() implies (#[trigger] logits@[i])@.len() > 0
            && logits@[i]@.len() == logits@[0]@.len() by {
            assert(rows[i].len() == rows[0].len());
        }
    } else if forall|i: int|
        0 <= i < logits@.len() ==> (#[trigger] logits@[i])@.len() > 0 && logits@[i]@.len()
            == logits@[0]@.len() {
        assert(logits@[0]@.len() > 0);
        let i = choose|i: int|
            0 <= i < rows.len() && (#[trigger] rows[i]).len() != rows[0].len();
        assert(logits@[i]@.len() == logits@[0]@.len());
    }
}

/// The bytes of the regions of a memory.
pub open spec fn all_bytes(regions: Seq<TransferableRegion>) -> int
    decreases regions.len(),
{
    if regions.len() == 0 {
        0
    } else {
        all_bytes(regions.drop_last()) + regions.last().byte_len
    }
}

/// The bytes of the first regions.
pub proof fn lemma_bytes(regions: Seq<TransferableRegion>, n: nat)
    requires
        n <= regions.len(),
    ensures
        region_bytes(regions, n) == all_bytes(regions.take(n as int)),
    decreases n,
{
    if n > 0 {
        lemma_bytes(regions, (n - 1) as nat);
        assert(regions.take(n as int).drop_last() =~= regions.take(n - 1));
    }
}

/// Memory is reserved only for a model that says what it keeps, and only where the memory holds a
/// whole number of pages, as many as the slots take, and as many in each region.
pub proof fn memory_holds_the_pages_of_its_slots<M, S>(
    runner: ModelRunner<M, S>,
    memory: TransferableKvCacheMemory,
    slots: usize,
    page: usize,
    reserved: Result<(), String>,
    i: int,
)
    requires
        memory.wf(),
        call_ensures(
            ModelRunner::<M, S>::reserve_transferable_kv_cache_slots,
            (&runner, Some(&memory), slots, page),
            reserved,
        ),
        reserved is Ok,
        0 <= i < memory.regions@.len(),
    ensures
        runner@.kv_cache_layout is Some,
        memory.regions@.len() > 0 && page > 0 && slots > 0,
        all_bytes(memory.regions@) * page == slots * memory.page_size_bytes,
        memory.regions@[i].byte_len / memory.regions@[i].page_size_bytes
            == memory.regions@[0].byte_len / memory.regions@[0].page_size_bytes,
{
    let regions = memory.regions@;
    lemma_bytes(regions, regions.len());
    assert(regions.take(regions.len() as int) =~= regions);
    let total = region_bytes(regions, regions.len());
    let bytes = memory.page_size_bytes as nat;
    vstd::arithmetic::div_mod::lemma_fundamental_div_mod(total as int, bytes as int);
    vstd::arithmetic::div_mod::lemma_fundamental_div_mod(slots as int, page as int);
    let pages = total as int / bytes as int;
    assert(total == bytes * pages);
    assert(slots == page * pages);
    assert(total * page == slots * bytes) by (nonlinear_arith)
        requires
            total == bytes * pages,
            slots == page * pages,
    ;
    assert(crate::model_forward::region_pages(regions[i])
        == crate::model_forward::region_pages(regions[0]));
}

/// No memory is reserved without a memory, without a page, or for slots that fill no whole pages.
pub proof fn slots_fill_whole_pages<M, S>(
    runner: ModelRunner<M, S>,
    memory: Option<&TransferableKvCacheMemory>,
    slots: usize,
    page: usize,
    reserved: Result<(), String>,
)
    requires
        memory matches Some(found) ==> found.wf(),
        call_ensures(
            ModelRunner::<M, S>::reserve_transferable_kv_cache_slots,
            (&runner, memory, slots, page),
            reserved,
        ),
    ensures
        runner@.kv_cache_layout is None || memory is None ==> reserved is Err,
        page == 0 || slots == 0 || slots % page != 0 ==> reserved is Err,
{
}

/// A runtime runs on one rank.
pub proof fn runtimes_run_on_one_rank(ranks: usize, valid: Result<(), String>)
    requires
        call_ensures(validate_runtime_parallelism, (ranks,), valid),
    ensures
        valid is Ok <==> ranks == 1,
{
}

/// A model can be run exactly where there is one rank that its heads fit, where the backend lacks no
/// component, and where both know a common type of numbers.
pub proof fn models_run_where_nothing_is_missing(
    definition: ModelDefinition,
    offer: BackendOffer,
    names: DtypeNames,
    ranks: usize,
    valid: Result<(), ModelRuntimeLoadError>,
)
    requires
        call_ensures(
            validate_runtime_support,
            (&definition, &offer, &names, ranks),
            valid,
        ),
    ensures
        valid is Ok ==> ranks == 1 && offer.missing_components@.len() == 0,
        valid is Ok ==> exists|dtype: RuntimeDtype| #[trigger]
            definition.supported_dtypes@.contains(dtype) && offer.supported_dtypes@.contains(dtype),
        ranks != 1 ==> valid is Err,
        offer.missing_components@.len() > 0 ==> valid is Err,
{
    let missing = crate::model_runtime::missing_for(definition, offer, names);
    let texts = crate::text::texts(offer.missing_components@);
    assert(texts.len() == offer.missing_components@.len());
    assert(missing.len() >= texts.len());
    if valid is Ok {
        assert(missing.len() == 0);
        let a = definition.supported_dtypes@;
        let b = offer.supported_dtypes@;
        assert(crate::model_runtime::share_dtype(a, b));
        let i = choose|i: int| 0 <= i < a.len() && b.contains(#[trigger] a[i]);
        assert(a.contains(a[i]));
    }
}

/// A model is executed with the types of numbers that it supports, and no other.
pub proof fn models_execute_their_own_types(
    definition: ModelDefinition,
    names: DtypeNames,
    dtype: RuntimeDtype,
    valid: Result<(), ModelRuntimeLoadError>,
)
    requires
        call_ensures(check_execution_dtype, (&definition, &names, dtype), valid),
    ensures
        valid is Ok <==> definition.supported_dtypes@.contains(dtype),
{
}

/// A size that a model needs is given, and is not zero.
pub proof fn needed_sizes_are_given(
    architecture: &str,
    field: &str,
    value: Option<usize>,
    required: Result<usize, ModelAdapterError>,
)
    requires
        call_ensures(required_usize, (architecture, field, value), required),
    ensures
        required is Ok <==> value is Some && value->0 > 0,
        required is Ok ==> value == Some(required->Ok_0),
{
}

/// Sizes are added and multiplied, unless they grow too large.
pub proof fn sizes_are_added_and_multiplied(
    architecture: &str,
    a: usize,
    b: usize,
    component: &str,
    sum: Result<usize, ModelAdapterError>,
    product: Result<usize, ModelAdapterError>,
)
    requires
        call_ensures(checked_add, (architecture, a, b, component), sum),
        call_ensures(checked_product, (architecture, a, b, component), product),
    ensures
        sum is Ok <==> a + b <= usize::MAX,
        sum is Ok ==> sum->Ok_0 == a + b,
        product is Ok <==> a * b <= usize::MAX,
        product is Ok ==> product->Ok_0 == a * b,
{
}

/// A number is positive where it is finite and above zero, and is taken where it is no greater than
/// the greatest number of 32 bits.
pub proof fn taken_numbers_are_positive(
    architecture: &str,
    field: &str,
    value: Option<ConfigNumber>,
    bits: Result<u32, ModelAdapterError>,
    positive: bool,
)
    requires
        value is Some ==> call_ensures(ConfigNumber::is_positive, (value->0,), positive),
        call_ensures(positive_float, (architecture, field, value), bits),
    ensures
        value is None ==> bits is Err,
        value matches Some(number) ==> {
            &&& positive <==> 0 < number.wide < 0x7ff0_0000_0000_0000
            &&& bits is Ok <==> 0 < number.wide <= 0x47ef_ffff_e000_0000
            &&& bits is Ok ==> bits->Ok_0 == number.narrow
        },
{
}

/// A model asks a runtime for a forward pass in the type and on the ranks that it is given, with the
/// attention backend that was requested, and for neither a cache registration nor a transfer engine.
pub proof fn models_ask_for_what_they_are_given<'a>(
    definition: ModelDefinition,
    dtype: RuntimeDtype,
    ranks: usize,
    backend: Option<&'a str>,
    needed: RuntimeRequirements<'a>,
)
    requires
        call_ensures(
            ModelDefinition::runtime_requirements,
            (&definition, dtype, ranks, backend),
            needed,
        ),
    ensures
        needed.requires_forward,
        needed.dtype == Some(dtype),
        needed.attention_backend == backend,
        needed.tensor_parallel_size == ranks,
        !needed.requires_kv_cache_registration,
        !needed.requires_mooncake,
{
}

/// The nodes share the ranks in order: the first node starts at the first rank, and where the ranks can
/// be shared equally each node starts behind the ranks of the one before it, and the last one ends with
/// the last rank.
pub proof fn nodes_share_the_ranks_in_order(
    ranks: usize,
    nodes: usize,
    share: usize,
    node: usize,
    first: Result<usize, String>,
    next: Result<usize, String>,
)
    requires
        nodes > 0,
        ranks == nodes * share,
        node + 1 < nodes,
        call_ensures(first_rank_of_node, (ranks, nodes, node), first),
        call_ensures(first_rank_of_node, (ranks, nodes, (node + 1) as usize), next),
    ensures
        first is Ok && next is Ok,
        node == 0 ==> first->Ok_0 == 0,
        next->Ok_0 == first->Ok_0 + share,
        node + 2 == nodes ==> next->Ok_0 + share == ranks,
{
    assert(ranks as int / nodes as int == share) by (nonlinear_arith)
        requires
            nodes > 0,
            ranks == nodes * share,
    ;
    assert((node + 1) * share == node * share + share) by (nonlinear_arith);
    assert((node + 1) * share <= nodes * share && node * share <= nodes * share) by (nonlinear_arith)
        requires
            node + 1 < nodes,
    ;
    assert(node == 0 ==> node * share == 0) by (nonlinear_arith);
    assert(node + 2 == nodes ==> (node + 1) * share + share == nodes * share) by (nonlinear_arith);
}

} // verus!
