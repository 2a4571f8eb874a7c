//! What the names of tensors say.
use vstd::prelude::*;
use vstd::string::*;

use crate::text::{
    bounded, chars_of, decimal, decimal_reads_back, digits_value, find, find_chars, find_from,
    matches_at, parse_usize, same_text, stands_at, text_of, texts,
};

verus! {

/// The part of an expert's feed-forward network that a weight belongs to.
#[derive(Clone, Copy, Debug, PartialEq, Eq, Structural)]
pub enum SafetensorsRoutedExpertProjection {
    Gate,
    Up,
    Down,
}

/// What a tensor holds of a weight.
#[derive(Clone, Copy, Debug, PartialEq, Eq, Structural)]
pub enum SafetensorsRoutedExpertWeightComponent {
    Weight,
    PackedWeight,
    WeightScale,
    WeightShape,
}

/// The number that a segment of a name is: digits alone, within the range of `usize`.
pub open spec fn segment_number(s: Seq<char>) -> Option<nat> {
    bounded(digits_value(s), usize::MAX as nat)
}

/// The parts of a name between its dots.
pub open spec fn segments(s: Seq<char>) -> Seq<Seq<char>>
    decreases s.len(),
{
    if s.len() == 0 {
        seq![Seq::empty()]
    } else {
        let before = segments(s.drop_last());
        if s.last() == '.' {
            before.push(Seq::empty())
        } else {
            before.drop_last().push(before.last().push(s.last()))
        }
    }
}

/// The layer of a tensor and its name there: `model.layers.`, a number, a dot and the name.
pub open spec fn layer_name(name: Seq<char>) -> Option<(nat, Seq<char>)> {
    if !stands_at(name, "model.layers."@, 0) {
        None
    } else {
        let rest = name.skip("model.layers."@.len() as int);
        match find(rest, "."@) {
            Some(dot) => match segment_number(rest.take(dot as int)) {
                Some(layer) => if dot + 1 < rest.len() {
                    Some((layer, rest.skip((dot + 1) as int)))
                } else {
                    None
                },
                None => None,
            },
            None => None,
        }
    }
}

/// The number behind the first segment `layers` that a number follows, from `i` on.
pub open spec fn layer_from(parts: Seq<Seq<char>>, i: nat) -> Option<nat>
    decreases parts.len() - i,
{
    if i + 1 >= parts.len() {
        None
    } else if parts[i as int] == "layers"@ && segment_number(parts[(i + 1) as int]) is Some {
        segment_number(parts[(i + 1) as int])
    } else {
        layer_from(parts, i + 1)
    }
}

/// The place of the first segment `experts`, from `i` on.
pub open spec fn experts_from(parts: Seq<Seq<char>>, i: nat) -> Option<nat>
    decreases parts.len() - i,
{
    if i >= parts.len() {
        None
    } else if parts[i as int] == "experts"@ {
        Some(i)
    } else {
        experts_from(parts, i + 1)
    }
}

/// The projection that a segment names.
pub open spec fn projection_of(part: Seq<char>) -> Option<SafetensorsRoutedExpertProjection> {
    if part == "w1"@ || part == "gate_proj"@ {
        Some(SafetensorsRoutedExpertProjection::Gate)
    } else if part == "w2"@ || part == "down_proj"@ {
        Some(SafetensorsRoutedExpertProjection::Down)
    } else if part == "w3"@ || part == "up_proj"@ {
        Some(SafetensorsRoutedExpertProjection::Up)
    } else {
        None
    }
}

/// The component that a segment names.
pub open spec fn component_of(part: Seq<char>) -> Option<SafetensorsRoutedExpertWeightComponent> {
    if part == "weight"@ {
        Some(SafetensorsRoutedExpertWeightComponent::Weight)
    } else if part == "weight_packed"@ {
        Some(SafetensorsRoutedExpertWeightComponent::PackedWeight)
    } else if part == "weight_scale"@ {
        Some(SafetensorsRoutedExpertWeightComponent::WeightScale)
    } else if part == "weight_shape"@ {
        Some(SafetensorsRoutedExpertWeightComponent::WeightShape)
    } else {
        None
    }
}

/// What the name of a weight of a routed expert says.
pub struct ExpertWeightName {
    pub layer_id: nat,
    pub expert_id: nat,
    pub projection: SafetensorsRoutedExpertProjection,
    pub component: SafetensorsRoutedExpertWeightComponent,
}

/// What the segments of the name of a weight of a routed expert say: a layer, and at the end
/// `experts`, a number, a projection and a component.
pub open spec fn expert_weight_of(parts: Seq<Seq<char>>) -> Option<ExpertWeightName> {
    match (layer_from(parts, 0), experts_from(parts, 0)) {
        (Some(layer), Some(at)) => if at + 4 != parts.len() {
            None
        } else {
            match (
                segment_number(parts[(at + 1) as int]),
                projection_of(parts[(at + 2) as int]),
                component_of(parts[(at + 3) as int]),
            ) {
                (Some(expert), Some(projection), Some(component)) => Some(
                    ExpertWeightName {
                        layer_id: layer,
                        expert_id: expert,
                        projection,
                        component,
                    },
                ),
                _ => None,
            }
        },
        _ => None,
    }
}

/// What the name of a weight of a routed expert says.
pub open spec fn expert_weight_name(name: Seq<char>) -> Option<ExpertWeightName> {
    expert_weight_of(segments(name))
}

proof fn lemma_digits_value_digits(s: Seq<char>)
    ensures
        digits_value(s) is Some ==> s.len() > 0 && forall|i: int|
            0 <= i < s.len() ==> '0' <= #[trigger] s[i] && s[i] <= '9',
    decreases s.len(),
{
    if s.len() > 1 {
        lemma_digits_value_digits(s.drop_last());
        if digits_value(s) is Some {
            assert forall|i: int| 0 <= i < s.len() implies '0' <= #[trigger] s[i] && s[i]
                <= '9' by {
                if i < s.len() - 1 {
                    assert(s.drop_last()[i] == s[i]);
                }
            }
        }
    }
}

/// The number that a segment of a name is.
pub fn parse_usize_segment(value: &str) -> (number: Option<usize>)
    ensures
        match number {
            Some(n) => segment_number(value@) == Some(n as nat),
            None => segment_number(value@) is None,
        },
{
    let chars = chars_of(value);
    proof {
        lemma_digits_value_digits(value@);
    }
    if chars.len() > 0 && chars[0] == '+' {
        return None;
    }
    parse_usize(value)
}

/// The parts of a name between its dots.
pub fn split_segments(name: &str) -> (parts: Vec<String>)
    ensures
        texts(parts@) == segments(name@),
        parts@.len() > 0,
{
    let chars = chars_of(name);
    let mut parts: Vec<String> = Vec::new();
    let mut last = String::new();
    let mut i: usize = 0;
    proof {
        assert(texts(parts@).push(last@) =~= segments(chars@.take(0)));
    }
    while i < chars.len()
        invariant
            i <= chars@.len(),
            texts(parts@).push(last@) == segments(chars@.take(i as int)),
        decreases chars@.len() - i,
    {
        let ghost before = texts(parts@);
        let ghost part = last@;
        proof {
            assert(chars@.take(i + 1).drop_last() =~= chars@.take(i as int));
            assert(chars@.take(i + 1).last() == chars@[i as int]);
            assert(before.push(part).drop_last() =~= before);
            assert(before.push(part).last() == part);
        }
        if chars[i] == '.' {
            parts.push(last);
            last = String::new();
            proof {
                assert(texts(parts@) =~= before.push(part));
                assert(last@ =~= Seq::<char>::empty());
            }
        } else {
            last.push(chars[i]);
        }
        i = i + 1;
    }
    proof {
        assert(chars@.take(i as int) =~= chars@);
    }
    let ghost before = texts(parts@);
    parts.push(last);
    proof {
        assert(texts(parts@) =~= before.push(last@));
    }
    parts
}

/// The layer of a tensor and its name there.
pub fn parse_layer_tensor_name(tensor_name: &str) -> (layer: Option<(usize, String)>)
    ensures
        match layer {
            Some((layer_id, suffix)) => layer_name(tensor_name@) == Some((layer_id as nat, suffix@)),
            None => layer_name(tensor_name@) is None,
        },
{
    let chars = chars_of(tensor_name);
    let prefix = chars_of("model.layers.");
    if chars.len() < prefix.len() || !matches_at(&chars, &prefix, 0) {
        return None;
    }
    let rest_text = text_of(&chars, prefix.len(), chars.len());
    proof {
        assert(rest_text@ =~= tensor_name@.skip(prefix@.len() as int));
    }
    let rest = chars_of(rest_text.as_str());
    proof {
        reveal_strlit(".");
    }
    match find_chars(&rest, ".") {
        Some(dot) => {
            let number = text_of(&rest, 0, dot);
            proof {
                assert(number@ =~= rest@.take(dot as int));
            }
            match parse_usize_segment(number.as_str()) {
                Some(layer_id) => {
                    if dot + 1 >= rest.len() {
                        return None;
                    }
                    let suffix = text_of(&rest, dot + 1, rest.len());
                    proof {
                        assert(suffix@ =~= rest@.skip(dot + 1));
                    }
                    Some((layer_id, suffix))
                },
                None => None,
            }
        },
        None => None,
    }
}

fn layer_of_parts(parts: &Vec<String>) -> (layer: Option<usize>)
    ensures
        match layer {
            Some(n) => layer_from(texts(parts@), 0) == Some(n as nat),
            None => layer_from(texts(parts@), 0) is None,
        },
{
    let total: usize = parts.len();
    let mut i: usize = 0;
    while i < total
        invariant
            i <= total,
            total == parts@.len(),
            layer_from(texts(parts@), 0) == layer_from(texts(parts@), i as nat),
        decreases total - i,
    {
        if total - i < 2 {
            return None;
        }
        proof {
            assert(texts(parts@)[i as int] == parts@[i as int]@);
            assert(texts(parts@)[i + 1] == parts@[i + 1]@);
        }
        if same_text(parts[i].as_str(), "layers") {
            if let Some(n) = parse_usize_segment(parts[i + 1].as_str()) {
                return Some(n);
            }
        }
        i = i + 1;
    }
    None
}

fn experts_of_parts(parts: &Vec<String>) -> (place: Option<usize>)
    ensures
        match place {
            Some(n) => experts_from(texts(parts@), 0) == Some(n as nat) && n < parts@.len(),
            None => experts_from(texts(parts@), 0) is None,
        },
{
    let mut i: usize = 0;
    while i < parts.len()
        invariant
            i <= parts@.len(),
            experts_from(texts(parts@), 0) == experts_from(texts(parts@), i as nat),
        decreases parts@.len() - i,
    {
        proof {
            assert(texts(parts@)[i as int] == parts@[i as int]@);
        }
        if same_text(parts[i].as_str(), "experts") {
            return Some(i);
        }
        i = i + 1;
    }
    None
}

fn parse_projection(part: &str) -> (projection: Option<SafetensorsRoutedExpertProjection>)
    ensures
        projection == projection_of(part@),
{
    if same_text(part, "w1") || same_text(part, "gate_proj") {
        Some(SafetensorsRoutedExpertProjection::Gate)
    } else if same_text(part, "w2") || same_text(part, "down_proj") {
        Some(SafetensorsRoutedExpertProjection::Down)
    } else if same_text(part, "w3") || same_text(part, "up_proj") {
        Some(SafetensorsRoutedExpertProjection::Up)
    } else {
        None
    }
}

fn parse_component(part: &str) -> (component: Option<SafetensorsRoutedExpertWeightComponent>)
    ensures
        component == component_of(part@),
{
    if same_text(part, "weight") {
        Some(SafetensorsRoutedExpertWeightComponent::Weight)
    } else if same_text(part, "weight_packed") {
        Some(SafetensorsRoutedExpertWeightComponent::PackedWeight)
    } else if same_text(part, "weight_scale") {
        Some(SafetensorsRoutedExpertWeightComponent::WeightScale)
    } else if same_text(part, "weight_shape") {
        Some(SafetensorsRoutedExpertWeightComponent::WeightShape)
    } else {
        None
    }
}

/// The name of a weight of a routed expert, read.
#[derive(Clone, Copy, Debug, PartialEq, Eq, Structural)]
pub struct RoutedExpertWeightName {
    pub layer_id: usize,
    pub expert_id: usize,
    pub projection: SafetensorsRoutedExpertProjection,
    pub component: SafetensorsRoutedExpertWeightComponent,
}

impl View for RoutedExpertWeightName {
    type V = ExpertWeightName;

    open spec fn view(&self) -> ExpertWeightName {
        ExpertWeightName {
            layer_id: self.layer_id as nat,
            expert_id: self.expert_id as nat,
            projection: self.projection,
            component: self.component,
        }
    }
}

/// What the name of a weight of a routed expert says.
pub fn parse_routed_expert_weight_name(tensor_name: &str) -> (weight: Option<
    RoutedExpertWeightName,
>)
    ensures
        match weight {
            Some(name) => expert_weight_name(tensor_name@) == Some(name@),
            None => expert_weight_name(tensor_name@) is None,
        },
{
    let parts = split_segments(tensor_name);
    let total: usize = parts.len();
    let layer_id: usize = match layer_of_parts(&parts) {
        Some(layer_id) => layer_id,
        None => return None,
    };
    let at: usize = match experts_of_parts(&parts) {
        Some(at) => at,
        None => return None,
    };
    if total - at != 4 {
        return None;
    }
    proof {
        assert(texts(parts@)[at + 1] == parts@[at + 1]@);
        assert(texts(parts@)[at + 2] == parts@[at + 2]@);
        assert(texts(parts@)[at + 3] == parts@[at + 3]@);
    }
    match (
        parse_usize_segment(parts[at + 1].as_str()),
        parse_projection(parts[at + 2].as_str()),
        parse_component(parts[at + 3].as_str()),
    ) {
        (Some(expert_id), Some(projection), Some(component)) => Some(
            RoutedExpertWeightName { layer_id, expert_id, projection, component },
        ),
        _ => None,
    }
}

/// Whether a tensor is a weight of a routed expert.
pub fn is_routed_expert_weight(tensor_name: &str) -> (is_weight: bool)
    ensures
        is_weight == (expert_weight_name(tensor_name@) is Some),
{
    parse_routed_expert_weight_name(tensor_name).is_some()
}

/// The name of a tensor of a layer.
pub open spec fn layer_tensor_name(layer_id: nat, suffix: Seq<char>) -> Seq<char> {
    "model.layers."@ + decimal(layer_id) + "."@ + suffix
}

proof fn lemma_find_dot(s: Seq<char>, dot: nat, i: nat)
    requires
        i <= dot < s.len(),
        s[dot as int] == '.',
        forall|j: int| i <= j < dot ==> s[j] != '.',
    ensures
        find_from(s, "."@, i) == Some(dot),
    decreases dot - i,
{
    reveal_strlit(".");
    assert("."@ =~= seq!['.']);
    if i < dot {
        assert(s.subrange(i as int, (i + 1) as int)[0] == s[i as int]);
        lemma_find_dot(s, dot, i + 1);
    } else {
        assert(s.subrange(i as int, (i + 1) as int) =~= "."@);
    }
}

/// The name of a tensor of a layer reads back as its layer and its name there.
pub proof fn layer_names_read_back(layer_id: usize, suffix: Seq<char>)
    requires
        suffix.len() > 0,
    ensures
        layer_name(layer_tensor_name(layer_id as nat, suffix)) == Some((layer_id as nat, suffix)),
{
    let name = layer_tensor_name(layer_id as nat, suffix);
    let prefix = "model.layers."@;
    let number = decimal(layer_id as nat);
    decimal_reads_back(layer_id as nat);
    reveal_strlit(".");
    assert(name.subrange(0, prefix.len() as int) =~= prefix);
    let rest = name.skip(prefix.len() as int);
    assert(rest =~= number + "."@ + suffix);
    let dot = number.len();
    assert forall|j: int| 0 <= j < dot implies rest[j] != '.' by {
        assert(rest[j] == number[j]);
    }
    assert(rest[dot as int] == '.');
    lemma_find_dot(rest, dot, 0);
    assert(rest.take(dot as int) =~= number);
    assert(rest.skip((dot + 1) as int) =~= suffix);
}

/// A name that is two names with a dot between them has the segments of both.
pub proof fn segments_follow_each_other(a: Seq<char>, b: Seq<char>)
    ensures
        segments(a + seq!['.'] + b) == segments(a) + segments(b),
        segments(a).len() > 0,
        segments(b).len() > 0,
    decreases b.len(),
{
    let whole = a + seq!['.'] + b;
    if b.len() == 0 {
        assert(whole.drop_last() =~= a);
        assert(segments(whole) =~= segments(a) + segments(b));
        lemma_some_segment(a);
    } else {
        segments_follow_each_other(a, b.drop_last());
        assert(whole.drop_last() =~= a + seq!['.'] + b.drop_last());
        assert(whole.last() == b.last());
        assert(segments(whole) =~= segments(a) + segments(b));
    }
}

proof fn lemma_some_segment(s: Seq<char>)
    ensures
        segments(s).len() > 0,
    decreases s.len(),
{
    if s.len() > 0 {
        lemma_some_segment(s.drop_last());
    }
}

proof fn lemma_one_segment(s: Seq<char>)
    requires
        forall|i: int| 0 <= i < s.len() ==> s[i] != '.',
    ensures
        segments(s) == seq![s],
    decreases s.len(),
{
    if s.len() > 0 {
        let rest = s.drop_last();
        assert forall|i: int| 0 <= i < rest.len() implies rest[i] != '.' by {
            assert(rest[i] == s[i]);
        }
        lemma_one_segment(rest);
        assert(rest.push(s.last()) =~= s);
        assert(segments(s) =~= seq![s]);
    } else {
        assert(s =~= Seq::empty());
    }
}

/// The name of a weight of a routed expert of a layer.
pub open spec fn routed_expert_name(
    layer_id: nat,
    expert_id: nat,
    projection: Seq<char>,
    component: Seq<char>,
) -> Seq<char> {
    "model.layers"@ + seq!['.'] + decimal(layer_id) + seq!['.'] + "mlp.experts"@ + seq!['.']
        + decimal(expert_id) + seq!['.'] + projection + seq!['.'] + component
}

/// The name of a weight of a routed expert reads back as what it was made of.
pub proof fn routed_expert_names_read_back(
    layer_id: usize,
    expert_id: usize,
    projection: Seq<char>,
    component: Seq<char>,
)
    requires
        projection_of(projection) is Some,
        component_of(component) is Some,
    ensures
        expert_weight_name(
            routed_expert_name(layer_id as nat, expert_id as nat, projection, component),
        ) == Some(
            ExpertWeightName {
                layer_id: layer_id as nat,
                expert_id: expert_id as nat,
                projection: projection_of(projection)->0,
                component: component_of(component)->0,
            },
        ),
{
    reveal_strlit("model.layers");
    reveal_strlit("model");
    reveal_strlit("layers");
    reveal_strlit("mlp.experts");
    reveal_strlit("mlp");
    reveal_strlit("experts");
    reveal_strlit("w1");
    reveal_strlit("w2");
    reveal_strlit("w3");
    reveal_strlit("gate_proj");
    reveal_strlit("down_proj");
    reveal_strlit("up_proj");
    reveal_strlit("weight");
    reveal_strlit("weight_packed");
    reveal_strlit("weight_scale");
    reveal_strlit("weight_shape");
    let layer = decimal(layer_id as nat);
    let expert = decimal(expert_id as nat);
    decimal_reads_back(layer_id as nat);
    decimal_reads_back(expert_id as nat);
    lemma_one_segment("model"@);
    lemma_one_segment("layers"@);
    lemma_one_segment(layer);
    lemma_one_segment("mlp"@);
    lemma_one_segment("experts"@);
    lemma_one_segment(expert);
    lemma_one_segment(projection);
    lemma_one_segment(component);
    assert("model.layers"@ =~= "model"@ + seq!['.'] + "layers"@);
    segments_follow_each_other("model"@, "layers"@);
    let a = "model.layers"@;
    segments_follow_each_other(a, layer);
    let b = a + seq!['.'] + layer;
    assert("mlp.experts"@ =~= "mlp"@ + seq!['.'] + "experts"@);
    segments_follow_each_other("mlp"@, "experts"@);
    segments_follow_each_other(b, "mlp.experts"@);
    let c = b + seq!['.'] + "mlp.experts"@;
    segments_follow_each_other(c, expert);
    let d = c + seq!['.'] + expert;
    segments_follow_each_other(d, projection);
    let e = d + seq!['.'] + projection;
    segments_follow_each_other(e, component);
    let name = e + seq!['.'] + component;
    let parts = segments(name);
    assert(parts =~= seq![
        "model"@,
        "layers"@,
        layer,
        "mlp"@,
        "experts"@,
        expert,
        projection,
        component,
    ]);
    assert("model"@.len() != "layers"@.len());
    assert(layer_from(parts, 1) == Some(layer_id as nat));
    assert(layer_from(parts, 0) == Some(layer_id as nat));
    assert("model"@ != "experts"@ && "layers"@ != "experts"@ && "mlp"@ != "experts"@) by {
        assert("model"@.len() != "experts"@.len());
        assert("layers"@.len() != "experts"@.len());
        assert("mlp"@.len() != "experts"@.len());
    }
    assert(layer != "experts"@) by {
        assert("experts"@[0] == 'e');
        assert('0' <= layer[0] && layer[0] <= '9');
    }
    assert(experts_from(parts, 4) == Some(4nat));
    assert(experts_from(parts, 3) == Some(4nat));
    assert(experts_from(parts, 2) == Some(4nat));
    assert(experts_from(parts, 1) == Some(4nat));
    assert(experts_from(parts, 0) == Some(4nat));
}

} // verus!
