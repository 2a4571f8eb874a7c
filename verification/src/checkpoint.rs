//! What a checkpoint must hold, and whether it does.
use vstd::prelude::*;
use vstd::string::*;

use crate::artifact_error::{data_fault, invalid_safetensors_data, ArtifactFault, ModelArtifactError};
use crate::ordered_map::{ordered_pairs_are_the_map, ExpertPlace, OrderedKey, OrderedMap};
use crate::routed_experts::{
    expert_groups, group_place, group_spans, ExpertGroup, SafetensorsRoutedExpertWeightGroup,
};
use crate::safetensors::TensorMetadata;
use crate::safetensors_manifest::{covers, Manifest, SafetensorsManifest, ShardReads};
use crate::safetensors_spans::{metadata_in, Reads};
use crate::text::{cat2, cat3, cat4, cat5, decimal, decimal_usize};

verus! {

/// The sizes of a checkpoint that holds all routed experts.
#[derive(Clone, Copy, Debug, PartialEq, Eq, Structural)]
pub struct RoutedExpertCheckpointCoverage {
    pub expected_group_count: usize,
    pub actual_group_count: usize,
    pub expected_weight_count: usize,
    pub actual_weight_count: usize,
}

/// A tensor that a checkpoint must hold.
#[derive(Clone, Debug, PartialEq, Eq)]
pub struct CheckpointTensorRequirement {
    name: String,
    expected_shape: Option<Vec<usize>>,
}

/// What a [`CheckpointTensorRequirement`] asks for.
pub struct TensorRequirement {
    pub name: Seq<char>,
    pub shape: Option<Seq<usize>>,
}

impl View for CheckpointTensorRequirement {
    type V = TensorRequirement;

    closed spec fn view(&self) -> TensorRequirement {
        TensorRequirement {
            name: self.name@,
            shape: match self.expected_shape {
                Some(shape) => Some(shape@),
                None => None,
            },
        }
    }
}

impl CheckpointTensorRequirement {
    /// A tensor must be there.
    pub fn present(name: String) -> (requirement: CheckpointTensorRequirement)
        ensures
            requirement@ == (TensorRequirement { name: name@, shape: None }),
    {
        CheckpointTensorRequirement { name, expected_shape: None }
    }

    /// A tensor of a shape must be there.
    pub fn with_shape(name: String, expected_shape: Vec<usize>) -> (requirement:
        CheckpointTensorRequirement)
        ensures
            requirement@ == (TensorRequirement { name: name@, shape: Some(expected_shape@) }),
    {
        CheckpointTensorRequirement { name, expected_shape: Some(expected_shape) }
    }

    /// The name of the tensor.
    pub fn name(&self) -> (name: &str)
        ensures
            name@ == self@.name,
    {
        self.name.as_str()
    }

    /// The shape of the tensor, where one is asked for.
    pub fn expected_shape(&self) -> (shape: Option<&Vec<usize>>)
        ensures
            match shape {
                Some(dimensions) => self@.shape == Some(dimensions@),
                None => self@.shape is None,
            },
    {
        self.expected_shape.as_ref()
    }
}

/// Several tensors that a checkpoint must hold.
pub open spec fn requirements(tensors: Seq<CheckpointTensorRequirement>) -> Seq<
    TensorRequirement,
> {
    tensors.map_values(|tensor: CheckpointTensorRequirement| tensor@)
}

/// What a checkpoint must hold: tensors, and the weights of routed experts.
#[derive(Clone, Debug, PartialEq, Eq)]
pub struct CheckpointTopology {
    required_tensors: Vec<CheckpointTensorRequirement>,
    routed_expert_coordinates: OrderedMap<ExpertPlace, ()>,
    routed_expert_weights_per_group: usize,
}

/// What a [`CheckpointTopology`] asks for.
pub struct Topology {
    pub tensors: Seq<TensorRequirement>,
    pub experts: Set<ExpertPlace>,
    pub weights_per_group: nat,
}

impl View for CheckpointTopology {
    type V = Topology;

    closed spec fn view(&self) -> Topology {
        Topology {
            tensors: requirements(self.required_tensors@),
            experts: self.routed_expert_coordinates@.dom(),
            weights_per_group: self.routed_expert_weights_per_group as nat,
        }
    }
}

/// The places of experts.
pub open spec fn places(coordinates: Seq<(usize, usize)>) -> Set<ExpertPlace> {
    coordinates.map_values(
        |at: (usize, usize)| ExpertPlace { layer_id: at.0, expert_id: at.1 },
    ).to_set()
}

fn place_set(coordinates: &Vec<(usize, usize)>) -> (map: OrderedMap<ExpertPlace, ()>)
    ensures
        map.wf(),
        map@.dom() == places(coordinates@),
{
    let mut map: OrderedMap<ExpertPlace, ()> = OrderedMap::new();
    let mut i: usize = 0;
    proof {
        assert(map@.dom() =~= places(coordinates@.take(0)));
    }
    while i < coordinates.len()
        invariant
            i <= coordinates@.len(),
            map.wf(),
            map@.dom() == places(coordinates@.take(i as int)),
        decreases coordinates@.len() - i,
    {
        let at = coordinates[i];
        let place = ExpertPlace { layer_id: at.0, expert_id: at.1 };
        let ghost before = coordinates@.take(i as int);
        map.insert(place, ());
        i = i + 1;
        proof {
            let f = |at: (usize, usize)| ExpertPlace { layer_id: at.0, expert_id: at.1 };
            let after = coordinates@.take(i as int);
            let a = before.map_values(f);
            let b = after.map_values(f);
            assert(b =~= a.push(place));
            assert forall|p: ExpertPlace| b.contains(p) == (a.contains(p) || p == place) by {
                if a.contains(p) {
                    let k = choose|k: int| 0 <= k < a.len() && a[k] == p;
                    assert(b[k] == p);
                }
                if p == place {
                    assert(b[a.len() as int] == p);
                }
                if b.contains(p) {
                    let k = choose|k: int| 0 <= k < b.len() && b[k] == p;
                    if k < a.len() {
                        assert(a[k] == p);
                    }
                }
            }
            assert(map@.dom() =~= places(after));
        }
    }
    proof {
        assert(coordinates@.take(i as int) =~= coordinates@);
    }
    map
}

impl Default for CheckpointTopology {
    /// Nothing at all.
    fn default() -> (topology: Self)
        ensures
            topology.wf(),
            topology@ == (Topology {
                tensors: Seq::empty(),
                experts: Set::empty(),
                weights_per_group: 0,
            }),
    {
        let topology = CheckpointTopology::new(Vec::new());
        proof {
            assert(topology@.tensors =~= Seq::empty());
        }
        topology
    }
}

impl CheckpointTopology {
    /// The places of experts are kept in order.
    pub closed spec fn wf(self) -> bool {
        self.routed_expert_coordinates.wf()
    }

    /// There are finitely many experts.
    pub proof fn lemma_wf(self)
        requires
            self.wf(),
        ensures
            self@.experts.finite(),
    {
        ordered_pairs_are_the_map::<ExpertPlace, ()>(self.routed_expert_coordinates.pairs());
    }

    /// Tensors alone.
    pub fn new(required_tensors: Vec<CheckpointTensorRequirement>) -> (topology: CheckpointTopology)
        ensures
            topology.wf(),
            topology@ == (Topology {
                tensors: requirements(required_tensors@),
                experts: Set::empty(),
                weights_per_group: 0,
            }),
    {
        let topology = CheckpointTopology {
            required_tensors,
            routed_expert_coordinates: OrderedMap::new(),
            routed_expert_weights_per_group: 0,
        };
        proof {
            assert(topology@.experts =~= Set::empty());
        }
        topology
    }

    /// With the weights of routed experts.
    pub fn with_routed_experts(
        self,
        coordinates: &Vec<(usize, usize)>,
        weights_per_group: usize,
    ) -> (topology: CheckpointTopology)
        ensures
            topology.wf(),
            topology@ == (Topology {
                tensors: self@.tensors,
                experts: places(coordinates@),
                weights_per_group: weights_per_group as nat,
            }),
    {
        CheckpointTopology {
            required_tensors: self.required_tensors,
            routed_expert_coordinates: place_set(coordinates),
            routed_expert_weights_per_group: weights_per_group,
        }
    }

    /// The tensors.
    pub fn required_tensors(&self) -> (tensors: &Vec<CheckpointTensorRequirement>)
        ensures
            requirements(tensors@) == self@.tensors,
    {
        &self.required_tensors
    }

    /// The layers and numbers of the routed experts, in order.
    pub fn routed_expert_coordinates(&self) -> (coordinates: Vec<(usize, usize)>)
        requires
            self.wf(),
        ensures
            places(coordinates@) == self@.experts,
            coordinates@.len() == self@.experts.len(),
            forall|i: int, j: int|
                0 <= i < j < coordinates@.len() ==> ExpertPlace::before(
                    ExpertPlace {
                        layer_id: (#[trigger] coordinates@[i]).0,
                        expert_id: coordinates@[i].1,
                    },
                    ExpertPlace {
                        layer_id: (#[trigger] coordinates@[j]).0,
                        expert_id: coordinates@[j].1,
                    },
                ),
    {
        let map = &self.routed_expert_coordinates;
        let total: usize = map.len();
        let mut coordinates: Vec<(usize, usize)> = Vec::new();
        let mut i: usize = 0;
        while i < total
            invariant
                i <= total,
                total == map.pairs().len(),
                coordinates@.len() == i,
                forall|j: int|
                    0 <= j < i ==> map.pairs()[j].0 == (ExpertPlace {
                        layer_id: (#[trigger] coordinates@[j]).0,
                        expert_id: coordinates@[j].1,
                    }),
            decreases total - i,
        {
            let place = map.key_at(i);
            coordinates.push((place.layer_id, place.expert_id));
            i = i + 1;
        }
        proof {
            ordered_pairs_are_the_map::<ExpertPlace, ()>(map.pairs());
            let f = |at: (usize, usize)| ExpertPlace { layer_id: at.0, expert_id: at.1 };
            let list = coordinates@.map_values(f);
            assert forall|p: ExpertPlace| list.contains(p) == map@.dom().contains(p) by {
                if list.contains(p) {
                    let k = choose|k: int| 0 <= k < list.len() && list[k] == p;
                    assert(coordinates@[k] == coordinates@[k]);
                    assert(map.pairs()[k].0 == p);
                }
                if map@.dom().contains(p) {
                    let k = choose|k: int|
                        0 <= k < map.pairs().len() && (#[trigger] map.pairs()[k]).0 == p;
                    assert(coordinates@[k] == coordinates@[k]);
                    assert(list[k] == p);
                }
            }
            assert(places(coordinates@) =~= self@.experts);
            assert forall|a: int, b: int| 0 <= a < b < coordinates@.len() implies ExpertPlace::before(
                ExpertPlace {
                    layer_id: (#[trigger] coordinates@[a]).0,
                    expert_id: coordinates@[a].1,
                },
                ExpertPlace {
                    layer_id: (#[trigger] coordinates@[b]).0,
                    expert_id: coordinates@[b].1,
                },
            ) by {
                assert(ExpertPlace::before(map.pairs()[a].0, map.pairs()[b].0));
            }
        }
        coordinates
    }

    /// The number of tensors of a routed expert.
    pub fn routed_expert_weights_per_group(&self) -> (count: usize)
        ensures
            count as nat == self@.weights_per_group,
    {
        self.routed_expert_weights_per_group
    }
}

/// The number of tensors of the first `n` experts.
pub open spec fn tensors_of_groups(groups: Seq<ExpertGroup>, n: nat) -> nat
    decreases n,
{
    if n == 0 || n > groups.len() {
        0
    } else {
        tensors_of_groups(groups, (n - 1) as nat) + groups[n - 1].tensor_count()
    }
}

/// The places of experts.
pub open spec fn group_places(groups: Seq<ExpertGroup>) -> Set<ExpertPlace> {
    groups.map_values(|group: ExpertGroup| group_place(group)).to_set()
}

/// Whether a place is the first of a set.
pub open spec fn is_least(set: Set<ExpertPlace>, place: ExpertPlace) -> bool {
    set.contains(place) && forall|other: ExpertPlace| #[trigger]
        set.contains(other) ==> other == place || ExpertPlace::before(place, other)
}

/// The first place of a set.
pub open spec fn least(set: Set<ExpertPlace>) -> Option<ExpertPlace> {
    if exists|place: ExpertPlace| is_least(set, place) {
        Some(choose|place: ExpertPlace| is_least(set, place))
    } else {
        None
    }
}

/// A place, and what is the matter with it.
pub open spec fn place_text(what: Seq<char>, place: ExpertPlace) -> Seq<char> {
    what + " routed expert group layer "@ + decimal(place.layer_id as nat) + " expert "@ + decimal(
        place.expert_id as nat,
    )
}

/// How two sets of places differ: the first that is missing and the first that is not expected.
pub open spec fn difference_text(expected: Set<ExpertPlace>, actual: Set<ExpertPlace>) -> Seq<
    char,
> {
    match (least(expected.difference(actual)), least(actual.difference(expected))) {
        (Some(missing), Some(unexpected)) => place_text("missing expected"@, missing) + "; "@
            + place_text("unexpected"@, unexpected),
        (Some(missing), None) => place_text("missing expected"@, missing),
        (None, Some(unexpected)) => place_text("unexpected"@, unexpected),
        (None, None) => Seq::empty(),
    }
}

/// Whether the experts of a checkpoint are those that it must hold.
pub open spec fn coverage_of(
    model_path: Seq<char>,
    topology: Topology,
    groups: Seq<ExpertGroup>,
) -> Result<RoutedExpertCheckpointCoverage, ArtifactFault> {
    let expected_groups = topology.experts.len();
    let expected_weights = expected_groups * topology.weights_per_group;
    let actual_groups = groups.len();
    let actual_weights = tensors_of_groups(groups, groups.len());
    if expected_weights > usize::MAX {
        Err(data_fault(model_path, "expected routed expert weight count overflowed"@))
    } else if actual_weights > usize::MAX {
        Err(data_fault(model_path, "actual routed expert weight count overflowed"@))
    } else if actual_groups != expected_groups {
        Err(
            data_fault(
                model_path,
                "expected "@ + decimal(expected_groups)
                    + " routed expert groups from model config but found "@ + decimal(
                    actual_groups,
                ),
            ),
        )
    } else if actual_weights != expected_weights {
        Err(
            data_fault(
                model_path,
                "expected "@ + decimal(expected_weights) + " routed expert tensors but found "@
                    + decimal(actual_weights),
            ),
        )
    } else if group_places(groups) != topology.experts {
        Err(
            data_fault(
                model_path,
                "routed expert checkpoint coordinate mismatch: "@ + difference_text(
                    topology.experts,
                    group_places(groups),
                ),
            ),
        )
    } else {
        Ok(
            RoutedExpertCheckpointCoverage {
                expected_group_count: expected_groups as usize,
                actual_group_count: actual_groups as usize,
                expected_weight_count: expected_weights as usize,
                actual_weight_count: actual_weights as usize,
            },
        )
    }
}

/// A checkpoint that passes holds exactly the experts that it must hold, with as many tensors.
pub proof fn coverage_is_complete(
    model_path: Seq<char>,
    topology: Topology,
    groups: Seq<ExpertGroup>,
)
    requires
        coverage_of(model_path, topology, groups) is Ok,
    ensures
        group_places(groups) == topology.experts,
        groups.len() == topology.experts.len(),
        tensors_of_groups(groups, groups.len()) == topology.experts.len()
            * topology.weights_per_group,
        coverage_of(model_path, topology, groups)->Ok_0.expected_group_count == coverage_of(
            model_path,
            topology,
            groups,
        )->Ok_0.actual_group_count,
        coverage_of(model_path, topology, groups)->Ok_0.expected_weight_count == coverage_of(
            model_path,
            topology,
            groups,
        )->Ok_0.actual_weight_count,
{
}

proof fn lemma_tensors_grow(groups: Seq<ExpertGroup>, n: nat, m: nat)
    requires
        n <= m <= groups.len(),
    ensures
        tensors_of_groups(groups, n) <= tensors_of_groups(groups, m),
    decreases m - n,
{
    if n < m {
        lemma_tensors_grow(groups, n, (m - 1) as nat);
    }
}

proof fn lemma_least(
    a: OrderedMap<ExpertPlace, ()>,
    b: OrderedMap<ExpertPlace, ()>,
    n: int,
)
    requires
        a.wf(),
        b.wf(),
        0 <= n <= a.pairs().len(),
        forall|i: int| 0 <= i < n ==> b@.dom().contains((#[trigger] a.pairs()[i]).0),
        n < a.pairs().len() ==> !b@.dom().contains(a.pairs()[n].0),
    ensures
        least(a@.dom().difference(b@.dom())) == if n < a.pairs().len() {
            Some(a.pairs()[n].0)
        } else {
            None
        },
{
    let rest = a@.dom().difference(b@.dom());
    ordered_pairs_are_the_map::<ExpertPlace, ()>(a.pairs());
    if n < a.pairs().len() {
        let first = a.pairs()[n].0;
        assert(rest.contains(first));
        assert forall|other: ExpertPlace| #[trigger] rest.contains(other) implies other == first
            || ExpertPlace::before(first, other) by {
            let k = choose|k: int| 0 <= k < a.pairs().len() && (#[trigger] a.pairs()[k]).0 == other;
            if k > n {
                assert(ExpertPlace::before(a.pairs()[n].0, a.pairs()[k].0));
            }
        }
        assert(is_least(rest, first));
        let chosen = choose|place: ExpertPlace| is_least(rest, place);
        assert(rest.contains(chosen));
        assert(chosen == first);
    } else {
        assert forall|place: ExpertPlace| !is_least(rest, place) by {
            if rest.contains(place) {
                let k = choose|k: int|
                    0 <= k < a.pairs().len() && (#[trigger] a.pairs()[k]).0 == place;
            }
        }
    }
}

/// The first place of one set that is not in another.
fn first_difference(a: &OrderedMap<ExpertPlace, ()>, b: &OrderedMap<ExpertPlace, ()>) -> (place:
    Option<ExpertPlace>)
    requires
        a.wf(),
        b.wf(),
    ensures
        place == least(a@.dom().difference(b@.dom())),
{
    let total: usize = a.len();
    let mut i: usize = 0;
    while i < total
        invariant
            i <= total,
            total == a.pairs().len(),
            a.wf(),
            b.wf(),
            forall|j: int| 0 <= j < i ==> b@.dom().contains((#[trigger] a.pairs()[j]).0),
        decreases total - i,
    {
        let place = *a.key_at(i);
        if !b.contains_key(&place) {
            proof {
                lemma_least(*a, *b, i as int);
            }
            return Some(place);
        }
        i = i + 1;
    }
    proof {
        lemma_least(*a, *b, i as int);
    }
    None
}

fn text_of_place(what: &str, place: ExpertPlace) -> (text: String)
    ensures
        text@ == place_text(what@, place),
{
    cat5(
        what,
        " routed expert group layer ",
        decimal_usize(place.layer_id).as_str(),
        " expert ",
        decimal_usize(place.expert_id).as_str(),
    )
}

fn places_of_groups(groups: &Vec<SafetensorsRoutedExpertWeightGroup>) -> (map: OrderedMap<
    ExpertPlace,
    (),
>)
    ensures
        map.wf(),
        map@.dom() == group_places(expert_groups(groups@)),
{
    let ghost all = expert_groups(groups@);
    let mut coordinates: Vec<(usize, usize)> = Vec::new();
    let mut i: usize = 0;
    while i < groups.len()
        invariant
            i <= groups@.len(),
            all == expert_groups(groups@),
            coordinates@.len() == i,
            forall|j: int|
                0 <= j < i ==> group_place(all[j]) == (ExpertPlace {
                    layer_id: (#[trigger] coordinates@[j]).0,
                    expert_id: coordinates@[j].1,
                }),
        decreases groups@.len() - i,
    {
        proof {
            assert(all[i as int] == groups@[i as int]@);
        }
        coordinates.push((groups[i].layer_id, groups[i].expert_id));
        i = i + 1;
    }
    proof {
        let f = |at: (usize, usize)| ExpertPlace { layer_id: at.0, expert_id: at.1 };
        let g = |group: ExpertGroup| group_place(group);
        assert(coordinates@.map_values(f) =~= all.map_values(g)) by {
            assert forall|k: int| 0 <= k < all.len() implies #[trigger] coordinates@.map_values(
                f,
            )[k] == all.map_values(g)[k] by {
                assert(coordinates@[k] == coordinates@[k]);
            }
        }
    }
    place_set(&coordinates)
}

/// Whether the experts of a checkpoint are those that it must hold.
pub fn validate_routed_expert_checkpoint_coverage_for_groups(
    model_path: &str,
    topology: &CheckpointTopology,
    groups: &Vec<SafetensorsRoutedExpertWeightGroup>,
) -> (coverage: Result<RoutedExpertCheckpointCoverage, ModelArtifactError>)
    requires
        topology.wf(),
    ensures
        match coverage {
            Ok(c) => coverage_of(model_path@, topology@, expert_groups(groups@)) == Ok::<
                RoutedExpertCheckpointCoverage,
                ArtifactFault,
            >(c),
            Err(e) => coverage_of(model_path@, topology@, expert_groups(groups@)) == Err::<
                RoutedExpertCheckpointCoverage,
                ArtifactFault,
            >(e@),
        },
{
    let ghost all = expert_groups(groups@);
    let expected = &topology.routed_expert_coordinates;
    let expected_group_count: usize = expected.len();
    let expected_weight_count: usize = match expected_group_count.checked_mul(
        topology.routed_expert_weights_per_group,
    ) {
        Some(count) => count,
        None => {
            return Err(
                invalid_safetensors_data(
                    model_path,
                    "expected routed expert weight count overflowed".to_owned(),
                ),
            );
        },
    };
    let actual_group_count: usize = groups.len();
    let mut actual_weight_count: usize = 0;
    let mut i: usize = 0;
    while i < groups.len()
        invariant
            i <= groups@.len(),
            all == expert_groups(groups@),
            actual_weight_count == tensors_of_groups(all, i as nat),
            topology@.experts.len() * topology@.weights_per_group <= usize::MAX,
        decreases groups@.len() - i,
    {
        proof {
            assert(all[i as int] == groups@[i as int]@);
        }
        match actual_weight_count.checked_add(groups[i].tensor_count()) {
            Some(count) => {
                actual_weight_count = count;
            },
            None => {
                proof {
                    lemma_tensors_grow(all, (i + 1) as nat, all.len());
                }
                return Err(
                    invalid_safetensors_data(
                        model_path,
                        "actual routed expert weight count overflowed".to_owned(),
                    ),
                );
            },
        }
        i = i + 1;
    }
    if actual_group_count != expected_group_count {
        return Err(
            invalid_safetensors_data(
                model_path,
                cat4(
                    "expected ",
                    decimal_usize(expected_group_count).as_str(),
                    " routed expert groups from model config but found ",
                    decimal_usize(actual_group_count).as_str(),
                ),
            ),
        );
    }
    if actual_weight_count != expected_weight_count {
        return Err(
            invalid_safetensors_data(
                model_path,
                cat4(
                    "expected ",
                    decimal_usize(expected_weight_count).as_str(),
                    " routed expert tensors but found ",
                    decimal_usize(actual_weight_count).as_str(),
                ),
            ),
        );
    }
    let actual = places_of_groups(groups);
    let missing = first_difference(expected, &actual);
    let unexpected = first_difference(&actual, expected);
    proof {
        lemma_same_places(expected@.dom(), actual@.dom(), missing, unexpected);
    }
    if missing.is_none() && unexpected.is_none() {
        return Ok(
            RoutedExpertCheckpointCoverage {
                expected_group_count,
                actual_group_count,
                expected_weight_count,
                actual_weight_count,
            },
        );
    }
    let detail = match (missing, unexpected) {
        (Some(a), Some(b)) => cat3(
            text_of_place("missing expected", a).as_str(),
            "; ",
            text_of_place("unexpected", b).as_str(),
        ),
        (Some(a), None) => text_of_place("missing expected", a),
        (None, Some(b)) => text_of_place("unexpected", b),
        (None, None) => String::new(),
    };
    Err(
        invalid_safetensors_data(
            model_path,
            cat2("routed expert checkpoint coordinate mismatch: ", detail.as_str()),
        ),
    )
}

proof fn lemma_some_least(set: Set<ExpertPlace>)
    requires
        set.finite(),
    ensures
        least(set) is None ==> set == Set::<ExpertPlace>::empty(),
    decreases set.len(),
{
    if set.len() == 0 {
        assert(set =~= Set::empty());
    } else {
        let one = set.choose();
        let rest = set.remove(one);
        lemma_some_least(rest);
        if least(rest) is None {
            assert(set =~= Set::<ExpertPlace>::empty().insert(one));
            assert(is_least(set, one));
        } else {
            let low = choose|place: ExpertPlace| is_least(rest, place);
            assert(rest.contains(low));
            if ExpertPlace::before(one, low) {
                assert forall|other: ExpertPlace| #[trigger] set.contains(other) implies other
                    == one || ExpertPlace::before(one, other) by {
                    if other != one {
                        assert(rest.contains(other));
                    }
                }
                assert(is_least(set, one));
            } else {
                assert forall|other: ExpertPlace| #[trigger] set.contains(other) implies other
                    == low || ExpertPlace::before(low, other) by {
                    if other != one {
                        assert(rest.contains(other));
                    }
                }
                assert(is_least(set, low));
            }
        }
    }
}

proof fn lemma_same_places(
    a: Set<ExpertPlace>,
    b: Set<ExpertPlace>,
    missing: Option<ExpertPlace>,
    unexpected: Option<ExpertPlace>,
)
    requires
        missing == least(a.difference(b)),
        unexpected == least(b.difference(a)),
        a.finite(),
        b.finite(),
    ensures
        (missing is None && unexpected is None) == (a == b),
{
    if missing is None && unexpected is None {
        lemma_some_least(a.difference(b));
        lemma_some_least(b.difference(a));
        assert forall|p: ExpertPlace| a.contains(p) == b.contains(p) by {
            if a.contains(p) && !b.contains(p) {
                assert(a.difference(b).contains(p));
            }
            if b.contains(p) && !a.contains(p) {
                assert(b.difference(a).contains(p));
            }
        }
        assert(a =~= b);
    }
    if a == b {
        if missing is Some {
            let p = choose|p: ExpertPlace| is_least(a.difference(b), p);
            assert(a.difference(b).contains(p));
        }
        if unexpected is Some {
            let p = choose|p: ExpertPlace| is_least(b.difference(a), p);
            assert(b.difference(a).contains(p));
        }
    }
}

/// The first `n` numbers, with commas between them.
pub open spec fn listed_numbers(numbers: Seq<usize>, n: nat) -> Seq<char>
    decreases n,
{
    if n == 0 || n > numbers.len() {
        Seq::empty()
    } else if n == 1 {
        decimal(numbers[0] as nat)
    } else {
        listed_numbers(numbers, (n - 1) as nat) + ", "@ + decimal(numbers[n - 1] as nat)
    }
}

/// A shape as a text.
pub open spec fn shape_text(shape: Seq<usize>) -> Seq<char> {
    "["@ + listed_numbers(shape, shape.len()) + "]"@
}

/// A shape as a text.
pub fn text_of_shape(shape: &Vec<usize>) -> (text: String)
    ensures
        text@ == shape_text(shape@),
{
    let mut list = String::new();
    let mut i: usize = 0;
    proof {
        assert(list@ =~= listed_numbers(shape@, 0));
    }
    while i < shape.len()
        invariant
            i <= shape@.len(),
            list@ == listed_numbers(shape@, i as nat),
        decreases shape@.len() - i,
    {
        let number = decimal_usize(shape[i]);
        if i == 0 {
            list = number;
        } else {
            list = cat3(list.as_str(), ", ", number.as_str());
        }
        i = i + 1;
    }
    cat3("[", list.as_str(), "]")
}

/// Whether a shard says of a tensor what is asked for.
pub open spec fn requirement_met(
    model_path: Seq<char>,
    requirement: TensorRequirement,
    metadata: Result<Option<TensorMetadata>, ArtifactFault>,
) -> Result<(), ArtifactFault> {
    match metadata {
        Err(fault) => Err(fault),
        Ok(None) => Err(data_fault(model_path, "missing checkpoint tensor "@ + requirement.name)),
        Ok(Some(found)) => match requirement.shape {
            Some(shape) => if found.shape == shape {
                Ok(())
            } else {
                Err(
                    data_fault(
                        model_path,
                        "checkpoint tensor "@ + requirement.name + " shape "@ + shape_text(
                            found.shape,
                        ) + " does not match expected "@ + shape_text(shape),
                    ),
                )
            },
            None => Ok(()),
        },
    }
}

/// Whether a checkpoint holds the first `n` tensors that are asked for.
pub open spec fn tensors_met(
    model_path: Seq<char>,
    tensors: Seq<TensorRequirement>,
    manifest: Manifest,
    reads: Reads,
    n: nat,
) -> Result<(), ArtifactFault>
    decreases n,
{
    if n == 0 || n > tensors.len() {
        Ok(())
    } else {
        match tensors_met(model_path, tensors, manifest, reads, (n - 1) as nat) {
            Err(fault) => Err(fault),
            Ok(_) => requirement_met(
                model_path,
                tensors[n - 1],
                metadata_in(manifest, reads, tensors[n - 1].name),
            ),
        }
    }
}

/// Whether a checkpoint holds the experts that are asked for.
pub open spec fn experts_met(
    model_path: Seq<char>,
    topology: Topology,
    manifest: Manifest,
    reads: Reads,
) -> Result<RoutedExpertCheckpointCoverage, ArtifactFault> {
    match group_spans(manifest, reads) {
        Ok(groups) => coverage_of(model_path, topology, groups),
        Err(fault) => Err(fault),
    }
}

/// Whether a checkpoint holds what is asked for.
pub open spec fn topology_met(
    model_path: Seq<char>,
    topology: Topology,
    manifest: Manifest,
    reads: Reads,
) -> Result<(), ArtifactFault> {
    match tensors_met(model_path, topology.tensors, manifest, reads, topology.tensors.len()) {
        Err(fault) => Err(fault),
        Ok(_) => match experts_met(model_path, topology, manifest, reads) {
            Ok(_) => Ok(()),
            Err(fault) => Err(fault),
        },
    }
}

/// A checkpoint that passes has every tensor that is asked for, in the shape that is asked for.
pub proof fn met_topologies_have_their_tensors(
    model_path: Seq<char>,
    topology: Topology,
    manifest: Manifest,
    reads: Reads,
    i: int,
)
    requires
        topology_met(model_path, topology, manifest, reads) is Ok,
        0 <= i < topology.tensors.len(),
    ensures
        ({
            let found = metadata_in(manifest, reads, topology.tensors[i].name);
            found is Ok && found->Ok_0 is Some && (topology.tensors[i].shape is Some
                ==> found->Ok_0->0.shape == topology.tensors[i].shape->0)
        }),
{
    lemma_first_tensors_met(
        model_path,
        topology.tensors,
        manifest,
        reads,
        topology.tensors.len(),
        (i + 1) as nat,
    );
}

proof fn lemma_first_tensors_met(
    model_path: Seq<char>,
    tensors: Seq<TensorRequirement>,
    manifest: Manifest,
    reads: Reads,
    n: nat,
    m: nat,
)
    requires
        m <= n <= tensors.len(),
        tensors_met(model_path, tensors, manifest, reads, n) is Ok,
    ensures
        tensors_met(model_path, tensors, manifest, reads, m) is Ok,
    decreases n - m,
{
    if m < n {
        lemma_first_tensors_met(model_path, tensors, manifest, reads, (n - 1) as nat, m);
    }
}

proof fn lemma_tensor_fault_stays(
    model_path: Seq<char>,
    tensors: Seq<TensorRequirement>,
    manifest: Manifest,
    reads: Reads,
    n: nat,
    m: nat,
)
    requires
        n <= m <= tensors.len(),
        tensors_met(model_path, tensors, manifest, reads, n) is Err,
    ensures
        tensors_met(model_path, tensors, manifest, reads, m) == tensors_met(
            model_path,
            tensors,
            manifest,
            reads,
            n,
        ),
    decreases m - n,
{
    if n < m {
        lemma_tensor_fault_stays(model_path, tensors, manifest, reads, n, (m - 1) as nat);
    }
}

/// Whether two shapes are the same.
pub fn same_shape(a: &Vec<usize>, b: &Vec<usize>) -> (same: bool)
    ensures
        same == (a@ == b@),
{
    if a.len() != b.len() {
        return false;
    }
    let mut i: usize = 0;
    while i < a.len()
        invariant
            i <= a@.len(),
            a@.len() == b@.len(),
            forall|j: int| 0 <= j < i ==> a@[j] == b@[j],
        decreases a@.len() - i,
    {
        if a[i] != b[i] {
            return false;
        }
        i = i + 1;
    }
    proof {
        assert(a@ =~= b@);
    }
    true
}

/// Whether a checkpoint holds what is asked for.
pub fn check_topology(
    model_path: &str,
    manifest: &SafetensorsManifest,
    reads: &ShardReads,
    topology: &CheckpointTopology,
) -> (met: Result<(), ModelArtifactError>)
    requires
        manifest.wf(),
        reads.wf(),
        topology.wf(),
        covers(reads@, manifest@.shard_paths),
    ensures
        match met {
            Ok(_) => topology_met(model_path@, topology@, manifest@, reads@) == Ok::<
                (),
                ArtifactFault,
            >(()),
            Err(e) => topology_met(model_path@, topology@, manifest@, reads@) == Err::<
                (),
                ArtifactFault,
            >(e@),
        },
{
    let tensors = topology.required_tensors();
    let ghost all = topology@.tensors;
    let mut i: usize = 0;
    while i < tensors.len()
        invariant
            i <= tensors@.len(),
            all == topology@.tensors,
            all == requirements(tensors@),
            manifest.wf(),
            reads.wf(),
            covers(reads@, manifest@.shard_paths),
            tensors_met(model_path@, all, manifest@, reads@, i as nat) is Ok,
        decreases tensors@.len() - i,
    {
        let tensor = &tensors[i];
        proof {
            assert(all[i as int] == tensor@);
            if tensors_met(model_path@, all, manifest@, reads@, (i + 1) as nat) is Err {
                lemma_tensor_fault_stays(
                    model_path@,
                    all,
                    manifest@,
                    reads@,
                    (i + 1) as nat,
                    all.len(),
                );
            }
        }
        let metadata = match manifest.tensor_metadata(reads, tensor.name()) {
            Ok(Some(metadata)) => metadata,
            Ok(None) => {
                return Err(
                    invalid_safetensors_data(
                        model_path,
                        cat2("missing checkpoint tensor ", tensor.name()),
                    ),
                );
            },
            Err(error) => {
                return Err(error);
            },
        };
        if let Some(shape) = tensor.expected_shape() {
            if !same_shape(&metadata.shape, shape) {
                let head = cat4(
                    "checkpoint tensor ",
                    tensor.name(),
                    " shape ",
                    text_of_shape(&metadata.shape).as_str(),
                );
                return Err(
                    invalid_safetensors_data(
                        model_path,
                        cat3(
                            head.as_str(),
                            " does not match expected ",
                            text_of_shape(shape).as_str(),
                        ),
                    ),
                );
            }
        }
        i = i + 1;
    }
    match check_experts(model_path, manifest, reads, topology) {
        Ok(_) => Ok(()),
        Err(error) => Err(error),
    }
}

/// Whether a checkpoint holds the experts that are asked for.
pub fn check_experts(
    model_path: &str,
    manifest: &SafetensorsManifest,
    reads: &ShardReads,
    topology: &CheckpointTopology,
) -> (coverage: Result<RoutedExpertCheckpointCoverage, ModelArtifactError>)
    requires
        manifest.wf(),
        reads.wf(),
        topology.wf(),
        covers(reads@, manifest@.shard_paths),
    ensures
        match coverage {
            Ok(c) => experts_met(model_path@, topology@, manifest@, reads@) == Ok::<
                RoutedExpertCheckpointCoverage,
                ArtifactFault,
            >(c),
            Err(e) => experts_met(model_path@, topology@, manifest@, reads@) == Err::<
                RoutedExpertCheckpointCoverage,
                ArtifactFault,
            >(e@),
        },
{
    match manifest.routed_expert_weight_groups(reads) {
        Ok(groups) => validate_routed_expert_checkpoint_coverage_for_groups(
            model_path,
            topology,
            &groups,
        ),
        Err(error) => Err(error),
    }
}

} // verus!
