//! What routing to experts and placing on ranks promise.
use std::ops::Range;

use vstd::prelude::*;

use crate::decoder_plans::MoeFeedForwardConfig;
use crate::moe::{
    open_place, picks_are_the_best, weigh_experts, MoeRouter, MoeRoutingError, RoutedExpert,
};
use crate::parallel::{
    ParallelTopologyError, TensorParallelRank, TensorParallelTopology, TensorPartition,
    TensorPartitionError,
};
use crate::tensor_names::{
    parse_layer_tensor_name, parse_routed_expert_weight_name, routed_expert_name,
    routed_expert_names_read_back, RoutedExpertWeightName, SafetensorsRoutedExpertProjection,
    SafetensorsRoutedExpertWeightComponent,
};
use crate::text::{decimal, decimal_usize};

verus! {

/// A mixture can be routed exactly where every expert belongs to one of equal groups, the chosen groups
/// hold enough experts, and the sizes, the scaling factor and the biases are in order.
pub proof fn mixtures_that_fit_are_accepted(
    config: MoeFeedForwardConfig,
    bias: Option<Vec<u32>>,
    router: Result<MoeRouter, MoeRoutingError>,
)
    requires
        call_ensures(MoeRouter::new, (config, bias), router),
    ensures
        router is Ok <==> {
            &&& 0 < config.experts_per_token <= config.routed_expert_count
            &&& 0 < config.expert_group_count
            &&& config.routed_expert_count % config.expert_group_count == 0
            &&& 0 < config.selected_expert_group_count <= config.expert_group_count
            &&& config.experts_per_token <= (config.routed_expert_count as int
                / config.expert_group_count as int) * config.selected_expert_group_count
            &&& config.expert_intermediate_size > 0
            &&& 0 < config.routed_scaling_factor < 0x7f80_0000
            &&& bias matches Some(list) ==> list@.len() == config.routed_expert_count
        },
        router matches Ok(made) ==> made.mixture() == config,
{
    if let Some(list) = bias {
        assert(list@.len() == list.len());
    }
}

/// Of numbers that are not negative a larger one goes first, and of equal ones the one in front.
pub open spec fn goes_first(scores: Seq<u32>, a: int, b: int) -> bool {
    scores[a] < 0x8000_0000 && scores[b] < 0x8000_0000 ==> scores[a] > scores[b] || (scores[a]
        == scores[b] && a < b)
}

proof fn lemma_goes_first(scores: Seq<u32>, a: int, b: int)
    requires
        0 <= a < scores.len(),
        0 <= b < scores.len(),
        crate::moe::better(crate::moe::score_keys(scores), a, b),
    ensures
        goes_first(scores, a, b),
{
}

/// The groups that are chosen are as many as the mixture asks for, in the order of their scores, and no
/// group that is left goes before one that is chosen.
pub proof fn chosen_groups_have_the_best_scores(
    router: MoeRouter,
    group_scores: Vec<u32>,
    groups: Vec<usize>,
    i: int,
    j: int,
    other: usize,
)
    requires
        router.wf(),
        group_scores@.len() == router.mixture().expert_group_count,
        call_ensures(MoeRouter::select_groups, (&router, &group_scores), groups),
        0 <= i < groups@.len(),
    ensures
        groups@.len() == router.mixture().selected_expert_group_count,
        groups@.no_duplicates(),
        groups@[i] < group_scores@.len(),
        i < j < groups@.len() ==> goes_first(
            group_scores@,
            groups@[i] as int,
            groups@[j] as int,
        ),
        other < group_scores@.len() && !groups@.contains(other) ==> goes_first(
            group_scores@,
            groups@[i] as int,
            other as int,
        ),
{
    let keys = crate::moe::score_keys(group_scores@);
    let all = crate::moe::all_of(router.mixture().expert_group_count as nat);
    picks_are_the_best(keys, all, router.mixture().selected_expert_group_count as nat);
    crate::moe::tokens_get_their_experts(
        router,
        Seq::new(router.mixture().routed_expert_count as nat, |k: int| 0u32),
        group_scores@,
    );
    if i < j < groups@.len() {
        lemma_goes_first(group_scores@, groups@[i] as int, groups@[j] as int);
    }
    if other < group_scores@.len() && !groups@.contains(other) {
        assert(open_place(all, groups@, other as int));
        lemma_goes_first(group_scores@, groups@[i] as int, other as int);
    }
}

/// The experts that a token is given to are as many as the mixture asks for, all of chosen groups, in
/// the order of their scores, and no expert of a chosen group that is left goes before one of them.
/// Groups are neighbouring experts.
pub proof fn chosen_experts_have_the_best_scores(
    router: MoeRouter,
    scores: Vec<u32>,
    group_scores: Vec<u32>,
    groups: Vec<usize>,
    experts: Vec<usize>,
    i: int,
    j: int,
    other: usize,
)
    requires
        router.wf(),
        scores@.len() == router.mixture().routed_expert_count,
        group_scores@.len() == router.mixture().expert_group_count,
        call_ensures(MoeRouter::select_groups, (&router, &group_scores), groups),
        call_ensures(MoeRouter::select_experts, (&router, &scores, &group_scores), experts),
        0 <= i < experts@.len(),
    ensures
        experts@.len() == router.mixture().experts_per_token,
        experts@.no_duplicates(),
        experts@[i] < scores@.len(),
        ({
            let size = router.mixture().routed_expert_count as int
                / router.mixture().expert_group_count as int;
            &&& groups@.contains((experts@[i] as int / size) as usize)
            &&& i < j < experts@.len() ==> goes_first(
                scores@,
                experts@[i] as int,
                experts@[j] as int,
            )
            &&& other < scores@.len() && groups@.contains((other as int / size) as usize)
                && !experts@.contains(other) ==> goes_first(
                scores@,
                experts@[i] as int,
                other as int,
            )
        }),
{
    let keys = crate::moe::score_keys(scores@);
    let allowed = crate::moe::in_groups(router, groups@);
    picks_are_the_best(keys, allowed, router.mixture().experts_per_token as nat);
    crate::moe::tokens_get_their_experts(router, scores@, group_scores@);
    let count = router.mixture().routed_expert_count as int;
    let per = router.mixture().expert_group_count as int;
    vstd::arithmetic::div_mod::lemma_div_pos_is_pos(count, per);
    if i < j < experts@.len() {
        lemma_goes_first(scores@, experts@[i] as int, experts@[j] as int);
    }
    if other < scores@.len() && groups@.contains(
        (other as int / (count / per)) as usize,
    ) && !experts@.contains(other) {
        assert(open_place(allowed, experts@, other as int));
        lemma_goes_first(scores@, experts@[i] as int, other as int);
    }
}

/// Each expert is weighed with the weight at its place; a weight must be finite and not negative.
pub proof fn experts_get_their_weights(
    experts: Vec<usize>,
    weights: Vec<u32>,
    routed: Result<Vec<RoutedExpert>, MoeRoutingError>,
    i: int,
)
    requires
        experts@.len() == weights@.len(),
        call_ensures(weigh_experts, (&experts, &weights), routed),
        0 <= i < experts@.len(),
    ensures
        routed matches Ok(list) ==> list@.len() == experts@.len() && list@[i].index == experts@[i]
            && list@[i].weight == weights@[i] && (weights@[i] < 0x7f80_0000 || weights@[i]
            == 0x8000_0000),
        (forall|k: int|
            0 <= k < weights@.len() ==> #[trigger] weights@[k] < 0x7f80_0000) ==> routed is Ok,
{
}

/// The ranks of a node follow those of the nodes before it, and their devices are as far apart as was
/// asked for.
pub proof fn node_ranks_follow_each_other(
    world_size: usize,
    node_count: usize,
    node_rank: usize,
    base: usize,
    step: usize,
    topology: Result<TensorParallelTopology, ParallelTopologyError>,
    ranks: &[TensorParallelRank],
    i: int,
    global: usize,
    local: usize,
    world: usize,
    device: usize,
)
    requires
        call_ensures(
            TensorParallelTopology::new,
            (world_size, node_count, node_rank, base, step),
            topology,
        ),
        topology is Ok,
        call_ensures(TensorParallelTopology::local_ranks, (&topology->Ok_0,), ranks),
        0 <= i < ranks@.len(),
        call_ensures(TensorParallelRank::global_rank, (ranks@[i],), global),
        call_ensures(TensorParallelRank::local_rank, (ranks@[i],), local),
        call_ensures(TensorParallelRank::world_size, (ranks@[i],), world),
        call_ensures(TensorParallelRank::device_ordinal, (ranks@[i],), device),
    ensures
        ranks@.len() * node_count == world_size,
        node_rank < node_count,
        local == i,
        global == node_rank * ranks@.len() + i,
        global < world_size,
        world == world_size,
        device == base + i * step,
{
    let views = topology->Ok_0@.local_ranks;
    assert(crate::parallel::rank_views(ranks@)[i] == ranks@[i]@);
    assert(views.len() == ranks@.len());
    let w = world_size as int;
    let n = node_count as int;
    vstd::arithmetic::div_mod::lemma_fundamental_div_mod(w, n);
    assert(n * (w / n) == (w / n) * n) by (nonlinear_arith);
    crate::parallel::node_ranks_are_ranks(
        world_size as nat,
        node_count as nat,
        node_rank as nat,
        base as nat,
        step as nat,
        i,
    );
}

/// A world can be spread over nodes exactly where it has ranks, the node is one of them, the ranks divide
/// evenly, and the devices of the node can be numbered.
pub proof fn worlds_that_divide_are_accepted(
    world_size: usize,
    node_count: usize,
    node_rank: usize,
    base: usize,
    step: usize,
    topology: Result<TensorParallelTopology, ParallelTopologyError>,
)
    requires
        call_ensures(
            TensorParallelTopology::new,
            (world_size, node_count, node_rank, base, step),
            topology,
        ),
    ensures
        topology is Ok ==> 0 < world_size && node_rank < node_count && world_size % node_count == 0
            && 0 < step,
        0 < world_size && node_rank < node_count && world_size % node_count == 0 && 0 < step && base
            + world_size * step <= usize::MAX ==> topology is Ok,
{
    if 0 < world_size && node_rank < node_count && world_size % node_count == 0 && 0 < step && base
        + world_size * step <= usize::MAX && topology is Err {
        let error = topology->Err_0;
        let local = error->DeviceOrdinalOverflow_local_rank as int;
        let w = world_size as int;
        let n = node_count as int;
        vstd::arithmetic::div_mod::lemma_div_is_ordered_by_denominator(w, 1, n);
        assert(local * step <= world_size * step) by (nonlinear_arith)
            requires
                local <= world_size,
                step >= 0,
        ;
    }
}

/// The part of a rank is as long as every other, and stands behind the parts of the ranks before it.
pub proof fn parts_stand_in_order(
    count: usize,
    index: usize,
    extent: usize,
    partition: Result<TensorPartition, TensorPartitionError>,
    range: Result<Range<usize>, TensorPartitionError>,
)
    requires
        call_ensures(TensorPartition::new, (count, index), partition),
        partition is Ok,
        call_ensures(TensorPartition::range, (partition->Ok_0, extent), range),
    ensures
        index < count,
        range is Ok <==> extent % count == 0,
        range matches Ok(part) ==> (part.end - part.start) * count == extent && part.start == index
            * (part.end - part.start),
{
    let e = extent as int;
    let c = count as int;
    if extent % count == 0 {
        vstd::arithmetic::div_mod::lemma_fundamental_div_mod(e, c);
        assert(c * (e / c) == (e / c) * c) by (nonlinear_arith);
    }
}

/// Where shards are held by several ranks, neighbouring ranks hold the same shard, and the shards are in
/// the order of the ranks.
pub proof fn neighbouring_ranks_hold_the_same_shard(
    rank: TensorParallelRank,
    shards: usize,
    partition: Result<TensorPartition, TensorPartitionError>,
    count: usize,
    index: usize,
    global: usize,
    world: usize,
)
    requires
        rank.wf(),
        call_ensures(TensorPartition::for_replicated_shards, (rank, shards), partition),
        partition is Ok,
        call_ensures(TensorPartition::partition_count, (partition->Ok_0,), count),
        call_ensures(TensorPartition::partition_index, (partition->Ok_0,), index),
        call_ensures(TensorParallelRank::global_rank, (rank,), global),
        call_ensures(TensorParallelRank::world_size, (rank,), world),
    ensures
        count == shards,
        index < count,
        world % shards == 0,
        index * (world as int / shards as int) <= global,
        global < index * (world as int / shards as int) + world as int / shards as int,
{
    crate::parallel::neighbours_share_shards(world as nat, shards as nat, global as nat);
}

/// A rank without replicas holds the part of its own number.
pub proof fn ranks_hold_their_own_part(
    rank: TensorParallelRank,
    partition: TensorPartition,
    count: usize,
    index: usize,
    global: usize,
    world: usize,
)
    requires
        rank.wf(),
        call_ensures(TensorPartition::for_rank, (rank,), partition),
        call_ensures(TensorPartition::partition_count, (partition,), count),
        call_ensures(TensorPartition::partition_index, (partition,), index),
        call_ensures(TensorParallelRank::global_rank, (rank,), global),
        call_ensures(TensorParallelRank::world_size, (rank,), world),
    ensures
        count == world,
        index == global,
{
}

proof fn lemma_projections()
    ensures
        crate::tensor_names::projection_of("w1"@) == Some(SafetensorsRoutedExpertProjection::Gate),
        crate::tensor_names::projection_of("gate_proj"@) == Some(
            SafetensorsRoutedExpertProjection::Gate,
        ),
        crate::tensor_names::projection_of("w2"@) == Some(SafetensorsRoutedExpertProjection::Down),
        crate::tensor_names::projection_of("down_proj"@) == Some(
            SafetensorsRoutedExpertProjection::Down,
        ),
        crate::tensor_names::projection_of("w3"@) == Some(SafetensorsRoutedExpertProjection::Up),
        crate::tensor_names::projection_of("up_proj"@) == Some(
            SafetensorsRoutedExpertProjection::Up,
        ),
{
    reveal_strlit("w1");
    reveal_strlit("w2");
    reveal_strlit("w3");
    reveal_strlit("gate_proj");
    reveal_strlit("down_proj");
    reveal_strlit("up_proj");
    assert("w1"@[1] == '1' && "w2"@[1] == '2' && "w3"@[1] == '3');
    assert("w1"@.len() == 2 && "w2"@.len() == 2 && "w3"@.len() == 2);
    assert("gate_proj"@.len() == 9 && "down_proj"@.len() == 9 && "up_proj"@.len() == 7);
    assert("gate_proj"@[0] == 'g' && "down_proj"@[0] == 'd');
}

proof fn lemma_components()
    ensures
        crate::tensor_names::component_of("weight"@) == Some(
            SafetensorsRoutedExpertWeightComponent::Weight,
        ),
        crate::tensor_names::component_of("weight_packed"@) == Some(
            SafetensorsRoutedExpertWeightComponent::PackedWeight,
        ),
        crate::tensor_names::component_of("weight_scale"@) == Some(
            SafetensorsRoutedExpertWeightComponent::WeightScale,
        ),
        crate::tensor_names::component_of("weight_shape"@) == Some(
            SafetensorsRoutedExpertWeightComponent::WeightShape,
        ),
{
    reveal_strlit("weight");
    reveal_strlit("weight_packed");
    reveal_strlit("weight_scale");
    reveal_strlit("weight_shape");
    assert("weight"@.len() == 6 && "weight_packed"@.len() == 13);
    assert("weight_scale"@.len() == 12 && "weight_shape"@.len() == 12);
    assert("weight_scale"@[8] == 'c' && "weight_shape"@[8] == 'h');
}

/// The names of the weights of a routed expert tell its layer, its number, the role of the weight, under
/// its short name and under its long name, and the part of the weight.
pub proof fn expert_names_tell_the_role_of_a_weight(
    name: &str,
    layer: usize,
    expert: usize,
    projection: Seq<char>,
    component: Seq<char>,
    read: Option<RoutedExpertWeightName>,
)
    requires
        call_ensures(parse_routed_expert_weight_name, (name,), read),
        name@ == routed_expert_name(layer as nat, expert as nat, projection, component),
        projection == "w1"@ || projection == "gate_proj"@ || projection == "w2"@ || projection
            == "down_proj"@ || projection == "w3"@ || projection == "up_proj"@,
        component == "weight"@ || component == "weight_packed"@ || component == "weight_scale"@
            || component == "weight_shape"@,
    ensures
        read is Some,
        read->0.layer_id == layer,
        read->0.expert_id == expert,
        projection == "w1"@ || projection == "gate_proj"@ <==> read->0.projection
            == SafetensorsRoutedExpertProjection::Gate,
        projection == "w2"@ || projection == "down_proj"@ <==> read->0.projection
            == SafetensorsRoutedExpertProjection::Down,
        projection == "w3"@ || projection == "up_proj"@ <==> read->0.projection
            == SafetensorsRoutedExpertProjection::Up,
        component == "weight"@ <==> read->0.component
            == SafetensorsRoutedExpertWeightComponent::Weight,
        component == "weight_packed"@ <==> read->0.component
            == SafetensorsRoutedExpertWeightComponent::PackedWeight,
        component == "weight_scale"@ <==> read->0.component
            == SafetensorsRoutedExpertWeightComponent::WeightScale,
        component == "weight_shape"@ <==> read->0.component
            == SafetensorsRoutedExpertWeightComponent::WeightShape,
{
    lemma_projections();
    lemma_components();
    routed_expert_names_read_back(layer, expert, projection, component);
}

/// The name of a tensor of a layer is its root, the number of the layer, and the name in the layer, with
/// dots between them, and is read as such.
pub proof fn layer_names_tell_their_layer(
    name: &str,
    layer: usize,
    suffix: Seq<char>,
    read: Option<(usize, String)>,
)
    requires
        call_ensures(parse_layer_tensor_name, (name,), read),
        suffix.len() > 0,
        name@ == "model.layers."@ + decimal(layer as nat) + "."@ + suffix,
    ensures
        read matches Some((layer_id, rest)) && layer_id == layer && rest@ == suffix,
{
    crate::tensor_names::layer_names_read_back(layer, suffix);
}

/// A number is written with its last digit last, behind the number of the tens before it.
pub proof fn numbers_are_written_in_tens(n: usize, tens: usize, text: String, front: String)
    requires
        call_ensures(decimal_usize, (n,), text),
        call_ensures(decimal_usize, (tens,), front),
        tens == n / 10,
    ensures
        text@.len() > 0,
        text@[text@.len() - 1] as int == 48 + n % 10,
        n < 10 ==> text@.len() == 1,
        n >= 10 ==> text@.drop_last() == front@,
{
    assert(decimal(n as nat).len() > 0);
}

} // verus!
