//! What the weights of a checkpoint promise: which scale belongs to which weight, which tensor to
//! which part of an expert, and when a checkpoint is complete.
use vstd::prelude::*;

use crate::checkpoint::{
    coverage_of, group_places, requirement_met, tensors_of_groups, TensorRequirement, Topology,
};
use crate::layer_tensors::{quantized_of, QuantizedWeight, SafetensorsQuantizedLinearScaleKind};
use crate::listing::{every_map_is_sorted, sorted, value_of_key};
use crate::ordered_map::{ordered_pairs_are_the_map, ExpertPlace};
use crate::routed_experts::{
    finished_groups, gathered, group_place, grouped, place_of, ExpertGroup, ExpertParts,
    ExpertWeight, ProjectionParts, ProjectionWeights,
};
use crate::safetensors::{TensorMetadata, TensorSpan};
use crate::tensor_names::{
    SafetensorsRoutedExpertProjection, SafetensorsRoutedExpertWeightComponent,
};

verus! {

/// A type of numbers that needs a scale.
pub open spec fn needs_scale(dtype: Seq<char>) -> bool {
    dtype == "F8_E4M3"@ || dtype == "F8_E5M2"@ || dtype == "U8"@
}

/// A weight of eight bits has its scale beside it: the inverse scale where there is one, else the
/// scale. A weight of another type, or without either, is not quantized.
pub proof fn quantized_weights_have_their_scales(
    base: Seq<char>,
    weight: TensorSpan,
    entries: Seq<(Seq<char>, TensorSpan)>,
    quantized: Option<QuantizedWeight>,
)
    requires
        quantized == quantized_of(base + ".weight"@, weight, entries),
    ensures
        ({
            let inverse = value_of_key(entries, base + ".weight_scale_inv"@);
            let direct = value_of_key(entries, base + ".weight_scale"@);
            &&& quantized is Some <==> needs_scale(weight.metadata.dtype) && (inverse is Some
                || direct is Some)
            &&& quantized matches Some(found) ==> {
                &&& found.tensor_name == base + ".weight"@
                &&& found.weight == weight
                &&& inverse is Some ==> found.scale == inverse->0 && found.scale_tensor_name == base
                    + ".weight_scale_inv"@ && found.scale_kind
                    == SafetensorsQuantizedLinearScaleKind::WeightScaleInv
                &&& inverse is None ==> found.scale == direct->0 && found.scale_tensor_name == base
                    + ".weight_scale"@ && found.scale_kind
                    == SafetensorsQuantizedLinearScaleKind::WeightScale
            }
        }),
{
    reveal_strlit(".weight");
    let name = base + ".weight"@;
    assert(name.subrange(name.len() - ".weight"@.len(), name.len() as int) =~= ".weight"@);
    assert(name.take(name.len() - ".weight"@.len()) =~= base);
}

/// The parts of a projection of an expert.
pub open spec fn side(
    parts: ExpertParts,
    projection: SafetensorsRoutedExpertProjection,
) -> ProjectionParts {
    match projection {
        SafetensorsRoutedExpertProjection::Gate => parts.gate,
        SafetensorsRoutedExpertProjection::Up => parts.up,
        SafetensorsRoutedExpertProjection::Down => parts.down,
    }
}

/// A part of a projection.
pub open spec fn piece(
    parts: ProjectionParts,
    component: SafetensorsRoutedExpertWeightComponent,
) -> Option<TensorSpan> {
    match component {
        SafetensorsRoutedExpertWeightComponent::Weight => parts.weight,
        SafetensorsRoutedExpertWeightComponent::PackedWeight => parts.packed,
        SafetensorsRoutedExpertWeightComponent::WeightScale => parts.scale,
        SafetensorsRoutedExpertWeightComponent::WeightShape => parts.shape,
    }
}

/// The weights of a projection of a group.
pub open spec fn group_side(
    group: ExpertGroup,
    projection: SafetensorsRoutedExpertProjection,
) -> ProjectionWeights {
    match projection {
        SafetensorsRoutedExpertProjection::Gate => group.gate,
        SafetensorsRoutedExpertProjection::Up => group.up,
        SafetensorsRoutedExpertProjection::Down => group.down,
    }
}

/// Weights hold a tensor as their part.
pub open spec fn holds_part(
    weights: ProjectionWeights,
    component: SafetensorsRoutedExpertWeightComponent,
    span: TensorSpan,
) -> bool {
    match component {
        SafetensorsRoutedExpertWeightComponent::Weight => weights
            == (ProjectionWeights::Unquantized { weight: span }),
        SafetensorsRoutedExpertWeightComponent::PackedWeight => weights
            is CompressedTensorsInt4 && weights->packed == span,
        SafetensorsRoutedExpertWeightComponent::WeightScale => weights
            is CompressedTensorsInt4 && weights->scale == span,
        SafetensorsRoutedExpertWeightComponent::WeightShape => weights
            is CompressedTensorsInt4 && weights->shape == span,
    }
}

/// Every tensor that was gathered is the part of its expert that it is named after.
pub proof fn lemma_gathered_parts(weights: Seq<ExpertWeight>, i: int)
    requires
        gathered(weights) is Ok,
        0 <= i < weights.len(),
    ensures
        gathered(weights)->Ok_0.dom().contains(place_of(weights[i])),
        piece(
            side(gathered(weights)->Ok_0[place_of(weights[i])], weights[i].projection),
            weights[i].component,
        ) == Some(weights[i].span),
    decreases weights.len(),
{
    let front = weights.drop_last();
    if i < front.len() {
        lemma_gathered_parts(front, i);
        assert(front[i] == weights[i]);
    } else {
        assert(weights.last() == weights[i]);
    }
}

/// Finitely many experts are gathered.
pub proof fn lemma_gathered_is_finite(weights: Seq<ExpertWeight>)
    ensures
        gathered(weights) is Ok ==> gathered(weights)->Ok_0.dom().finite(),
    decreases weights.len(),
{
    if weights.len() > 0 {
        lemma_gathered_is_finite(weights.drop_last());
    }
}

/// A group is that of its expert.
pub open spec fn is_group(
    groups: Seq<ExpertGroup>,
    experts: Seq<(ExpertPlace, ExpertParts)>,
    k: int,
) -> bool {
    experts[k].1.finished(experts[k].0) is Ok && groups[k] == experts[k].1.finished(
        experts[k].0,
    )->Ok_0
}

/// The groups that are finished are those of the experts, one by one.
pub proof fn lemma_groups_in_turn(experts: Seq<(ExpertPlace, ExpertParts)>, n: nat)
    requires
        n <= experts.len(),
        finished_groups(experts, n) is Ok,
    ensures
        finished_groups(experts, n)->Ok_0.len() == n,
        forall|k: int|
            0 <= k < n ==> #[trigger] is_group(finished_groups(experts, n)->Ok_0, experts, k),
    decreases n,
{
    if n > 0 {
        lemma_groups_in_turn(experts, (n - 1) as nat);
        let before = finished_groups(experts, (n - 1) as nat)->Ok_0;
        let groups = finished_groups(experts, n)->Ok_0;
        assert forall|k: int| 0 <= k < n implies #[trigger] is_group(groups, experts, k) by {
            if k < n - 1 {
                assert(is_group(before, experts, k));
                assert(groups[k] == before[k]);
            }
        }
    }
}

/// The tensor of an expert is held by the group of that expert, in the projection and as the part
/// that it is named after.
pub proof fn tensors_are_the_parts_they_are_named_after(weights: Seq<ExpertWeight>, i: int) -> (k:
    int)
    requires
        grouped(weights) is Ok,
        0 <= i < weights.len(),
    ensures
        0 <= k < grouped(weights)->Ok_0.len(),
        group_place(grouped(weights)->Ok_0[k]) == place_of(weights[i]),
        holds_part(
            group_side(grouped(weights)->Ok_0[k], weights[i].projection),
            weights[i].component,
            weights[i].span,
        ),
{
    lemma_gathered_parts(weights, i);
    let parts = gathered(weights)->Ok_0;
    lemma_gathered_is_finite(weights);
    every_map_is_sorted::<ExpertPlace, ExpertParts>(parts);
    let experts = sorted::<ExpertPlace, ExpertParts>(parts);
    ordered_pairs_are_the_map::<ExpertPlace, ExpertParts>(experts);
    lemma_groups_in_turn(experts, experts.len());
    let place = place_of(weights[i]);
    assert(crate::order::map_of(experts).dom().contains(place));
    let k = choose|k: int| 0 <= k < experts.len() && (#[trigger] experts[k]).0 == place;
    assert(experts[k].1 == parts[place]);
    assert(is_group(grouped(weights)->Ok_0, experts, k));
    k
}

/// A tensor meets what is asked of it where it is there, and has the shape that is asked for.
pub proof fn tensors_meet_what_is_asked(
    path: Seq<char>,
    name: Seq<char>,
    shape: Option<Seq<usize>>,
    found: Option<TensorMetadata>,
)
    ensures
        requirement_met(path, TensorRequirement { name, shape }, Ok(found)) is Ok <==> found is Some
            && (shape matches Some(asked) ==> found->0.shape == asked),
{
}

/// A checkpoint with exactly the experts that are asked for, and as many tensors, is complete.
pub proof fn complete_checkpoints_are_accepted(
    path: Seq<char>,
    topology: Topology,
    groups: Seq<ExpertGroup>,
)
    requires
        group_places(groups) == topology.experts,
        groups.len() == topology.experts.len(),
        tensors_of_groups(groups, groups.len()) == topology.experts.len()
            * topology.weights_per_group,
        topology.experts.len() * topology.weights_per_group <= usize::MAX,
    ensures
        coverage_of(path, topology, groups) is Ok,
{
}

} // verus!
