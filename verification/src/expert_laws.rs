//! What holds of the weights of routed experts when they are put together from their tensors.
use vstd::prelude::*;

use crate::artifact_error::ArtifactFault;
use crate::listing::{every_map_is_sorted, sorted};
use crate::ordered_map::{ordered_pairs_are_the_map, ExpertPlace, OrderedKey};
use crate::routed_experts::{
    finished_groups, gathered, group_place, grouped, groups_in_order, place_of, ExpertGroup,
    ExpertParts, ExpertWeight, ProjectionParts,
};
use crate::tensor_names::{
    SafetensorsRoutedExpertProjection, SafetensorsRoutedExpertWeightComponent,
};

verus! {

/// Whether the tensor at a place of the list is this component of this projection of this expert.
pub open spec fn is_part(
    weights: Seq<ExpertWeight>,
    i: int,
    place: ExpertPlace,
    projection: SafetensorsRoutedExpertProjection,
    component: SafetensorsRoutedExpertWeightComponent,
) -> bool {
    &&& 0 <= i < weights.len()
    &&& place_of(weights[i]) == place
    &&& weights[i].projection == projection
    &&& weights[i].component == component
}

/// Whether an expert has this component of this projection.
pub open spec fn has_part(
    weights: Seq<ExpertWeight>,
    place: ExpertPlace,
    projection: SafetensorsRoutedExpertProjection,
    component: SafetensorsRoutedExpertWeightComponent,
) -> bool {
    exists|i: int| #[trigger] is_part(weights, i, place, projection, component)
}

/// Whether two tensors are the same component of the same projection of the same expert.
pub open spec fn repeats_part(weights: Seq<ExpertWeight>) -> bool {
    exists|i: int, j: int|
        0 <= i < j < weights.len() && place_of(#[trigger] weights[i]) == place_of(
            #[trigger] weights[j],
        ) && weights[i].projection == weights[j].projection && weights[i].component
            == weights[j].component
}

/// Whether there is a tensor of the expert.
pub open spec fn has_expert(weights: Seq<ExpertWeight>, place: ExpertPlace) -> bool {
    exists|i: int| 0 <= i < weights.len() && place_of(#[trigger] weights[i]) == place
}

/// Whether a projection of an expert is whole: exactly a weight, or exactly a packed weight with its
/// scale and its shape.
pub open spec fn whole_projection(
    weights: Seq<ExpertWeight>,
    place: ExpertPlace,
    projection: SafetensorsRoutedExpertProjection,
) -> bool {
    let weight = has_part(
        weights,
        place,
        projection,
        SafetensorsRoutedExpertWeightComponent::Weight,
    );
    let packed = has_part(
        weights,
        place,
        projection,
        SafetensorsRoutedExpertWeightComponent::PackedWeight,
    );
    let scale = has_part(
        weights,
        place,
        projection,
        SafetensorsRoutedExpertWeightComponent::WeightScale,
    );
    let shape = has_part(
        weights,
        place,
        projection,
        SafetensorsRoutedExpertWeightComponent::WeightShape,
    );
    ||| weight && !packed && !scale && !shape
    ||| !weight && packed && scale && shape
}

/// Whether the three projections of an expert are whole.
pub open spec fn whole_expert(weights: Seq<ExpertWeight>, place: ExpertPlace) -> bool {
    &&& whole_projection(weights, place, SafetensorsRoutedExpertProjection::Gate)
    &&& whole_projection(weights, place, SafetensorsRoutedExpertProjection::Up)
    &&& whole_projection(weights, place, SafetensorsRoutedExpertProjection::Down)
}

/// Whether there is an expert of which a projection is not whole.
pub open spec fn has_broken_expert(weights: Seq<ExpertWeight>) -> bool {
    exists|place: ExpertPlace|
        #[trigger] has_expert(weights, place) && !whole_expert(weights, place)
}

/// How many tensors the groups have together.
pub open spec fn tensors_in_groups(groups: Seq<ExpertGroup>) -> nat
    decreases groups.len(),
{
    if groups.len() == 0 {
        0
    } else {
        tensors_in_groups(groups.drop_last()) + groups.last().tensor_count()
    }
}

spec fn one(present: bool) -> nat {
    if present {
        1
    } else {
        0
    }
}

spec fn projection_in(
    parts: ExpertParts,
    projection: SafetensorsRoutedExpertProjection,
) -> ProjectionParts {
    match projection {
        SafetensorsRoutedExpertProjection::Gate => parts.gate,
        SafetensorsRoutedExpertProjection::Up => parts.up,
        SafetensorsRoutedExpertProjection::Down => parts.down,
    }
}

spec fn found_in(parts: ProjectionParts) -> nat {
    one(parts.weight is Some) + one(parts.packed is Some) + one(parts.scale is Some) + one(
        parts.shape is Some,
    )
}

spec fn found_of(parts: ExpertParts) -> nat {
    found_in(parts.gate) + found_in(parts.up) + found_in(parts.down)
}

spec fn tensors_at(weights: Seq<ExpertWeight>, place: ExpertPlace) -> nat
    decreases weights.len(),
{
    if weights.len() == 0 {
        0
    } else {
        tensors_at(weights.drop_last(), place) + one(place_of(weights.last()) == place)
    }
}

spec fn tells(weights: Seq<ExpertWeight>, parts: Map<ExpertPlace, ExpertParts>) -> bool {
    &&& parts.dom().finite()
    &&& forall|place: ExpertPlace| #[trigger]
        parts.dom().contains(place) <==> has_expert(weights, place)
    &&& forall|place: ExpertPlace|
        #![trigger parts[place]]
        parts.dom().contains(place) ==> found_of(parts[place]) == tensors_at(weights, place)
    &&& forall|
        place: ExpertPlace,
        projection: SafetensorsRoutedExpertProjection,
        component: SafetensorsRoutedExpertWeightComponent,
    |
        parts.dom().contains(place) ==> (projection_in(parts[place], projection).component(
            component,
        ) is Some <==> #[trigger] has_part(weights, place, projection, component))
}

proof fn lemma_has_part_step(
    weights: Seq<ExpertWeight>,
    place: ExpertPlace,
    projection: SafetensorsRoutedExpertProjection,
    component: SafetensorsRoutedExpertWeightComponent,
)
    requires
        weights.len() > 0,
    ensures
        has_part(weights, place, projection, component) <==> has_part(
            weights.drop_last(),
            place,
            projection,
            component,
        ) || (place_of(weights.last()) == place && weights.last().projection == projection
            && weights.last().component == component),
{
    let rest = weights.drop_last();
    let last = weights.len() - 1;
    if has_part(rest, place, projection, component) {
        let i = choose|i: int| #[trigger] is_part(rest, i, place, projection, component);
        assert(rest[i] == weights[i]);
        assert(is_part(weights, i, place, projection, component));
    }
    if is_part(weights, last, place, projection, component) {
        assert(has_part(weights, place, projection, component));
    }
    if has_part(weights, place, projection, component) {
        let i = choose|i: int| #[trigger] is_part(weights, i, place, projection, component);
        if i < last {
            assert(rest[i] == weights[i]);
            assert(is_part(rest, i, place, projection, component));
        }
    }
}

proof fn lemma_has_expert_step(weights: Seq<ExpertWeight>, place: ExpertPlace)
    requires
        weights.len() > 0,
    ensures
        has_expert(weights, place) <==> has_expert(weights.drop_last(), place) || place_of(
            weights.last(),
        ) == place,
{
    let rest = weights.drop_last();
    if has_expert(rest, place) {
        let i = choose|i: int| 0 <= i < rest.len() && place_of(#[trigger] rest[i]) == place;
        assert(place_of(weights[i]) == place);
    }
    if place_of(weights.last()) == place {
        assert(place_of(weights[weights.len() - 1]) == place);
    }
    if has_expert(weights, place) {
        let i = choose|i: int| 0 <= i < weights.len() && place_of(#[trigger] weights[i]) == place;
        if i < rest.len() {
            assert(place_of(rest[i]) == place);
        }
    }
}

proof fn lemma_repeats_step(weights: Seq<ExpertWeight>)
    requires
        weights.len() > 0,
    ensures
        repeats_part(weights) <==> repeats_part(weights.drop_last()) || has_part(
            weights.drop_last(),
            place_of(weights.last()),
            weights.last().projection,
            weights.last().component,
        ),
{
    let rest = weights.drop_last();
    let last = weights.len() - 1;
    let w = weights.last();
    if repeats_part(rest) {
        let (i, j) = choose|i: int, j: int|
            0 <= i < j < rest.len() && place_of(#[trigger] rest[i]) == place_of(#[trigger] rest[j])
                && rest[i].projection == rest[j].projection && rest[i].component
                == rest[j].component;
        assert(rest[i] == weights[i] && rest[j] == weights[j]);
    }
    if has_part(rest, place_of(w), w.projection, w.component) {
        let i = choose|i: int|
            #[trigger] is_part(rest, i, place_of(w), w.projection, w.component);
        assert(rest[i] == weights[i]);
        assert(weights[last] == w);
    }
    if repeats_part(weights) {
        let (i, j) = choose|i: int, j: int|
            0 <= i < j < weights.len() && place_of(#[trigger] weights[i]) == place_of(
                #[trigger] weights[j],
            ) && weights[i].projection == weights[j].projection && weights[i].component
                == weights[j].component;
        assert(rest[i] == weights[i]);
        if j < last {
            assert(rest[j] == weights[j]);
        } else {
            assert(is_part(rest, i, place_of(w), w.projection, w.component));
        }
    }
}

proof fn lemma_no_expert(weights: Seq<ExpertWeight>, place: ExpertPlace)
    requires
        !has_expert(weights, place),
    ensures
        tensors_at(weights, place) == 0,
        forall|
            projection: SafetensorsRoutedExpertProjection,
            component: SafetensorsRoutedExpertWeightComponent,
        |
            !#[trigger] has_part(weights, place, projection, component),
    decreases weights.len(),
{
    if weights.len() > 0 {
        lemma_has_expert_step(weights, place);
        lemma_no_expert(weights.drop_last(), place);
    }
    assert forall|
        projection: SafetensorsRoutedExpertProjection,
        component: SafetensorsRoutedExpertWeightComponent,
    | !#[trigger] has_part(weights, place, projection, component) by {
        if has_part(weights, place, projection, component) {
            let i = choose|i: int| #[trigger] is_part(weights, i, place, projection, component);
            assert(place_of(weights[i]) == place);
        }
    }
}

proof fn lemma_with(parts: ExpertParts, w: ExpertWeight)
    ensures
        parts.with(w) is Ok <==> projection_in(parts, w.projection).component(
            w.component,
        ) is None,
        parts.with(w) is Ok ==> found_of(parts.with(w)->Ok_0) == found_of(parts) + 1,
        parts.with(w) is Ok ==> forall|
            projection: SafetensorsRoutedExpertProjection,
            component: SafetensorsRoutedExpertWeightComponent,
        | #[trigger]
            projection_in(parts.with(w)->Ok_0, projection).component(component) is Some <==> (
            projection_in(parts, projection).component(component) is Some || (w.projection
                == projection && w.component == component)),
{
}

proof fn lemma_told_more(
    weights: Seq<ExpertWeight>,
    before: Map<ExpertPlace, ExpertParts>,
    parts: ExpertParts,
    after: ExpertParts,
)
    requires
        weights.len() > 0,
        tells(weights.drop_last(), before),
        parts == (if before.dom().contains(place_of(weights.last())) {
            before[place_of(weights.last())]
        } else {
            ExpertParts::none(weights.last().span.path)
        }),
        parts.with(weights.last()) == Ok::<ExpertParts, ArtifactFault>(after),
    ensures
        tells(weights, before.insert(place_of(weights.last()), after)),
{
    let rest = weights.drop_last();
    let w = weights.last();
    let at = place_of(w);
    let now = before.insert(at, after);
    lemma_with(parts, w);
    assert(found_of(parts) == tensors_at(rest, at)) by {
        if !before.dom().contains(at) {
            lemma_no_expert(rest, at);
        }
    }
    assert forall|place: ExpertPlace| #[trigger] now.dom().contains(place) <==> has_expert(
        weights,
        place,
    ) by {
        lemma_has_expert_step(weights, place);
        assert(before.dom().contains(place) <==> has_expert(rest, place));
    }
    assert forall|place: ExpertPlace| #![trigger now[place]] now.dom().contains(
        place,
    ) implies found_of(now[place]) == tensors_at(weights, place) by {
        if place != at {
            assert(before[place] == now[place]);
        }
    }
    assert forall|
        place: ExpertPlace,
        projection: SafetensorsRoutedExpertProjection,
        component: SafetensorsRoutedExpertWeightComponent,
    | now.dom().contains(place) implies (projection_in(now[place], projection).component(
        component,
    ) is Some <==> #[trigger] has_part(weights, place, projection, component)) by {
        lemma_has_part_step(weights, place, projection, component);
        let had = has_part(rest, place, projection, component);
        if place == at {
            if !before.dom().contains(at) {
                lemma_no_expert(rest, at);
            }
            assert(projection_in(parts, projection).component(component) is Some <==> had);
        }
    }
}

proof fn lemma_gathered(weights: Seq<ExpertWeight>)
    ensures
        gathered(weights) is Err <==> repeats_part(weights),
        gathered(weights) is Ok ==> tells(weights, gathered(weights)->Ok_0),
    decreases weights.len(),
{
    if weights.len() > 0 {
        let rest = weights.drop_last();
        let w = weights.last();
        let at = place_of(w);
        lemma_gathered(rest);
        lemma_repeats_step(weights);
        if gathered(rest) is Ok {
            let before = gathered(rest)->Ok_0;
            let parts = if before.dom().contains(at) {
                before[at]
            } else {
                ExpertParts::none(w.span.path)
            };
            lemma_with(parts, w);
            assert(projection_in(parts, w.projection).component(w.component) is Some <==> has_part(
                rest,
                at,
                w.projection,
                w.component,
            )) by {
                if !before.dom().contains(at) {
                    lemma_no_expert(rest, at);
                }
            }
            if parts.with(w) is Ok {
                lemma_told_more(weights, before, parts, parts.with(w)->Ok_0);
            }
        }
    } else {
        let none = gathered(weights)->Ok_0;
        assert forall|place: ExpertPlace| #[trigger] none.dom().contains(place) <==> has_expert(
            weights,
            place,
        ) by {
        }
    }
}

spec fn tensors_of_places(weights: Seq<ExpertWeight>, places: Seq<ExpertPlace>, n: nat) -> nat
    decreases n,
{
    if n == 0 || n > places.len() {
        0
    } else {
        tensors_of_places(weights, places, (n - 1) as nat) + tensors_at(weights, places[n - 1])
    }
}

proof fn lemma_places_step(weights: Seq<ExpertWeight>, places: Seq<ExpertPlace>, n: nat)
    requires
        weights.len() > 0,
        places.no_duplicates(),
        n <= places.len(),
    ensures
        tensors_of_places(weights, places, n) == tensors_of_places(weights.drop_last(), places, n)
            + one(places.take(n as int).contains(place_of(weights.last()))),
    decreases n,
{
    let place = place_of(weights.last());
    if n > 0 {
        lemma_places_step(weights, places, (n - 1) as nat);
        let before = places.take(n - 1);
        let now = places.take(n as int);
        assert(now =~= before.push(places[n - 1]));
        if places[n - 1] == place {
            assert(now[n - 1] == place);
            if before.contains(place) {
                let i = choose|i: int| 0 <= i < before.len() && before[i] == place;
                assert(places[i] == places[n - 1]);
            }
        } else {
            if before.contains(place) {
                let i = choose|i: int| 0 <= i < before.len() && before[i] == place;
                assert(now[i] == place);
            }
            if now.contains(place) {
                let i = choose|i: int| 0 <= i < now.len() && now[i] == place;
                assert(before[i] == place);
            }
        }
    }
}

proof fn lemma_no_tensors(places: Seq<ExpertPlace>, n: nat)
    ensures
        tensors_of_places(Seq::empty(), places, n) == 0,
    decreases n,
{
    if n > 0 && n <= places.len() {
        lemma_no_tensors(places, (n - 1) as nat);
    }
}

proof fn lemma_places_add_up(weights: Seq<ExpertWeight>, places: Seq<ExpertPlace>)
    requires
        places.no_duplicates(),
        forall|i: int| 0 <= i < weights.len() ==> places.contains(place_of(#[trigger] weights[i])),
    ensures
        tensors_of_places(weights, places, places.len()) == weights.len(),
    decreases weights.len(),
{
    if weights.len() == 0 {
        lemma_no_tensors(places, places.len());
        assert(weights =~= Seq::empty());
    } else {
        let rest = weights.drop_last();
        assert forall|i: int| 0 <= i < rest.len() implies places.contains(
            place_of(#[trigger] rest[i]),
        ) by {
            assert(rest[i] == weights[i]);
        }
        lemma_places_add_up(rest, places);
        lemma_places_step(weights, places, places.len());
        assert(places.take(places.len() as int) =~= places);
        assert(places.contains(place_of(weights[weights.len() - 1])));
    }
}

proof fn lemma_finished(weights: Seq<ExpertWeight>, parts: ExpertParts, place: ExpertPlace)
    requires
        forall|
            projection: SafetensorsRoutedExpertProjection,
            component: SafetensorsRoutedExpertWeightComponent,
        |
            projection_in(parts, projection).component(component) is Some <==> #[trigger] has_part(
                weights,
                place,
                projection,
                component,
            ),
    ensures
        parts.finished(place) is Ok <==> whole_expert(weights, place),
        parts.finished(place) is Ok ==> parts.finished(place)->Ok_0.tensor_count() == found_of(
            parts,
        ) && group_place(parts.finished(place)->Ok_0) == place,
{
    lemma_finished_projection(weights, parts, place, SafetensorsRoutedExpertProjection::Gate);
    lemma_finished_projection(weights, parts, place, SafetensorsRoutedExpertProjection::Up);
    lemma_finished_projection(weights, parts, place, SafetensorsRoutedExpertProjection::Down);
}

proof fn lemma_finished_projection(
    weights: Seq<ExpertWeight>,
    parts: ExpertParts,
    place: ExpertPlace,
    projection: SafetensorsRoutedExpertProjection,
)
    requires
        forall|
            projection: SafetensorsRoutedExpertProjection,
            component: SafetensorsRoutedExpertWeightComponent,
        |
            projection_in(parts, projection).component(component) is Some <==> #[trigger] has_part(
                weights,
                place,
                projection,
                component,
            ),
    ensures
        ({
            let one = projection_in(parts, projection);
            let by_name = |name: Seq<char>|
                one.finished(
                    parts.error_path,
                    place.layer_id as nat,
                    place.expert_id as nat,
                    name,
                );
            &&& forall|name: Seq<char>| #[trigger]
                by_name(name) is Ok <==> whole_projection(weights, place, projection)
            &&& forall|name: Seq<char>| #[trigger]
                by_name(name) is Ok ==> by_name(name)->Ok_0.tensor_count() == found_in(one)
        }),
{
    let one = projection_in(parts, projection);
    assert(one.weight == one.component(SafetensorsRoutedExpertWeightComponent::Weight));
    assert(one.packed == one.component(SafetensorsRoutedExpertWeightComponent::PackedWeight));
    assert(one.scale == one.component(SafetensorsRoutedExpertWeightComponent::WeightScale));
    assert(one.shape == one.component(SafetensorsRoutedExpertWeightComponent::WeightShape));
}

proof fn lemma_finished_groups(
    weights: Seq<ExpertWeight>,
    experts: Seq<(ExpertPlace, ExpertParts)>,
    places: Seq<ExpertPlace>,
    n: nat,
)
    requires
        n <= experts.len(),
        places == experts.map_values(|expert: (ExpertPlace, ExpertParts)| expert.0),
        forall|i: int|
            0 <= i < experts.len() ==> found_of((#[trigger] experts[i]).1) == tensors_at(
                weights,
                experts[i].0,
            ) && (experts[i].1.finished(experts[i].0) is Ok <==> whole_expert(
                weights,
                experts[i].0,
            )) && (experts[i].1.finished(experts[i].0) is Ok ==> experts[i].1.finished(
                experts[i].0,
            )->Ok_0.tensor_count() == found_of(experts[i].1) && group_place(
                experts[i].1.finished(experts[i].0)->Ok_0,
            ) == experts[i].0),
    ensures
        finished_groups(experts, n) is Ok <==> forall|i: int|
            0 <= i < n ==> whole_expert(weights, (#[trigger] experts[i]).0),
        finished_groups(experts, n) is Ok ==> {
            let groups = finished_groups(experts, n)->Ok_0;
            &&& groups.len() == n
            &&& tensors_in_groups(groups) == tensors_of_places(weights, places, n)
            &&& forall|i: int| 0 <= i < n ==> group_place(#[trigger] groups[i]) == experts[i].0
        },
    decreases n,
{
    if n > 0 {
        lemma_finished_groups(weights, experts, places, (n - 1) as nat);
        let last = experts[n - 1];
        if finished_groups(experts, n) is Ok {
            let before = finished_groups(experts, (n - 1) as nat)->Ok_0;
            let groups = finished_groups(experts, n)->Ok_0;
            assert(groups.drop_last() =~= before);
            assert(places[n - 1] == last.0);
            assert forall|i: int| 0 <= i < n implies group_place(#[trigger] groups[i])
                == experts[i].0 by {
                if i < n - 1 {
                    assert(groups[i] == before[i]);
                }
            }
        }
    }
}

/// Whether there is a group of the expert.
pub open spec fn has_group(groups: Seq<ExpertGroup>, place: ExpertPlace) -> bool {
    exists|i: int| 0 <= i < groups.len() && group_place(#[trigger] groups[i]) == place
}

/// The tensors of experts are put together exactly where no two of them are the same component of
/// the same projection of an expert and every expert has its three projections whole. The groups
/// then stand in the order of layers and experts, each once; there is one for every expert that has
/// a tensor and for no other; and they hold as many tensors as there are.
pub proof fn groups_hold_the_tensors(weights: Seq<ExpertWeight>)
    ensures
        grouped(weights) is Err <==> repeats_part(weights) || has_broken_expert(weights),
        grouped(weights) matches Ok(groups) ==> {
            &&& groups_in_order(groups)
            &&& forall|place: ExpertPlace| #[trigger]
                has_group(groups, place) <==> has_expert(weights, place)
            &&& tensors_in_groups(groups) == weights.len()
        },
{
    lemma_gathered(weights);
    if gathered(weights) is Ok {
        let parts = gathered(weights)->Ok_0;
        every_map_is_sorted::<ExpertPlace, ExpertParts>(parts);
        let experts = sorted::<ExpertPlace, ExpertParts>(parts);
        ordered_pairs_are_the_map::<ExpertPlace, ExpertParts>(experts);
        let places = experts.map_values(|expert: (ExpertPlace, ExpertParts)| expert.0);
        assert forall|i: int| 0 <= i < experts.len() implies found_of((#[trigger] experts[i]).1)
            == tensors_at(weights, experts[i].0) && (experts[i].1.finished(experts[i].0) is Ok
            <==> whole_expert(weights, experts[i].0)) && (experts[i].1.finished(
            experts[i].0,
        ) is Ok ==> experts[i].1.finished(experts[i].0)->Ok_0.tensor_count() == found_of(
            experts[i].1,
        ) && group_place(experts[i].1.finished(experts[i].0)->Ok_0) == experts[i].0) by {
            assert(parts.dom().contains(experts[i].0) && parts[experts[i].0] == experts[i].1);
            lemma_finished(weights, experts[i].1, experts[i].0);
        }
        lemma_finished_groups(weights, experts, places, experts.len());
        assert forall|place: ExpertPlace| has_expert(weights, place) implies exists|i: int|
            0 <= i < experts.len() && (#[trigger] experts[i]).0 == place by {
            assert(parts.dom().contains(place));
        }
        if has_broken_expert(weights) {
            let place = choose|place: ExpertPlace|
                #[trigger] has_expert(weights, place) && !whole_expert(weights, place);
            let i = choose|i: int| 0 <= i < experts.len() && (#[trigger] experts[i]).0 == place;
            assert(!whole_expert(weights, experts[i].0));
        } else {
            assert forall|i: int| 0 <= i < experts.len() implies whole_expert(
                weights,
                (#[trigger] experts[i]).0,
            ) by {
                assert(parts.dom().contains(experts[i].0));
                assert(has_expert(weights, experts[i].0));
            }
        }
        if grouped(weights) is Ok {
            let groups = grouped(weights)->Ok_0;
            assert forall|i: int, j: int| 0 <= i < j < groups.len() implies ExpertPlace::before(
                group_place(#[trigger] groups[i]),
                group_place(#[trigger] groups[j]),
            ) by {
                assert(ExpertPlace::before(experts[i].0, experts[j].0));
            }
            assert forall|place: ExpertPlace| #[trigger] has_group(groups, place) <==> has_expert(
                weights,
                place,
            ) by {
                if has_group(groups, place) {
                    let i = choose|i: int|
                        0 <= i < groups.len() && group_place(#[trigger] groups[i]) == place;
                    assert(experts[i].0 == place);
                    assert(parts.dom().contains(experts[i].0));
                }
                if has_expert(weights, place) {
                    let i = choose|i: int|
                        0 <= i < experts.len() && (#[trigger] experts[i]).0 == place;
                    assert(group_place(groups[i]) == place);
                }
            }
            assert forall|i: int, j: int|
                0 <= i < places.len() && 0 <= j < places.len() && i != j implies places[i]
                != places[j] by {
                if i < j {
                    assert(ExpertPlace::before(experts[i].0, experts[j].0));
                } else {
                    assert(ExpertPlace::before(experts[j].0, experts[i].0));
                }
            }
            assert forall|k: int| 0 <= k < weights.len() implies places.contains(
                place_of(#[trigger] weights[k]),
            ) by {
                assert(has_expert(weights, place_of(weights[k])));
                let i = choose|i: int|
                    0 <= i < experts.len() && (#[trigger] experts[i]).0 == place_of(weights[k]);
                assert(places[i] == place_of(weights[k]));
            }
            lemma_places_add_up(weights, places);
        }
    }
}

} // verus!
