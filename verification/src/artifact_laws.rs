//! What holds of the tensors of a model across its layers, its experts and its quantized weights.
use vstd::prelude::*;
use vstd::string::*;

use crate::layer_tensors::{
    is_quantized, layers_of, quantized_among, quantized_in, quantized_of, suffixes_of,
    tensors_by_place, tensors_of_layers, weight_base, LayerTensor, QuantizedWeight,
    SafetensorsQuantizedLinearScaleKind,
};
use crate::listing::{
    every_map_is_in_key_order, every_map_is_sorted, in_key_order, listed_maps_are_finite, sorted,
    value_of_key,
};
use crate::order::{ascending, ascending_pairs_are_the_map, map_of, text_lt};
use crate::ordered_map::{in_order, ordered_pairs_are_the_map, LayerPlace, OrderedKey};
use crate::safetensors::TensorSpan;
use crate::tensor_names::layer_name;

verus! {

/// Whether a weight of this name is among quantized weights.
pub open spec fn lists_weight(list: Seq<QuantizedWeight>, name: Seq<char>) -> bool {
    exists|i: int| 0 <= i < list.len() && (#[trigger] list[i]).tensor_name == name
}

/// The name of the inverse scale of a weight.
pub open spec fn inverse_scale(name: Seq<char>) -> Seq<char> {
    weight_base(name) + ".weight_scale_inv"@
}

/// The name of the scale of a weight.
pub open spec fn direct_scale(name: Seq<char>) -> Seq<char> {
    weight_base(name) + ".weight_scale"@
}

/// Whether a name is that of a quantized weight among the tensors that has a scale there.
pub open spec fn has_scale(entries: Seq<(Seq<char>, TensorSpan)>, name: Seq<char>) -> bool {
    &&& value_of_key(entries, name) is Some
    &&& is_quantized(name, value_of_key(entries, name)->0)
    &&& value_of_key(entries, inverse_scale(name)) is Some || value_of_key(
        entries,
        direct_scale(name),
    ) is Some
}

/// Whether a quantized weight and its scale are where the tensors say; the inverse scale counts
/// before the other.
pub open spec fn stands_in(entries: Seq<(Seq<char>, TensorSpan)>, weight: QuantizedWeight) -> bool {
    &&& value_of_key(entries, weight.tensor_name) == Some(weight.weight)
    &&& value_of_key(entries, weight.scale_tensor_name) == Some(weight.scale)
    &&& if value_of_key(entries, inverse_scale(weight.tensor_name)) is Some {
        &&& weight.scale_tensor_name == inverse_scale(weight.tensor_name)
        &&& weight.scale_kind == SafetensorsQuantizedLinearScaleKind::WeightScaleInv
    } else {
        &&& weight.scale_tensor_name == direct_scale(weight.tensor_name)
        &&& weight.scale_kind == SafetensorsQuantizedLinearScaleKind::WeightScale
    }
}

proof fn lemma_quantized_among(entries: Seq<(Seq<char>, TensorSpan)>, n: nat)
    requires
        ascending(entries),
        n <= entries.len(),
    ensures
        ({
            let list = quantized_among(entries, n);
            &&& forall|i: int|
                0 <= i < list.len() ==> exists|k: int|
                    0 <= k < n && quantized_of(
                        (#[trigger] entries[k]).0,
                        entries[k].1,
                        entries,
                    ) == Some(#[trigger] list[i])
            &&& forall|k: int|
                0 <= k < n && quantized_of((#[trigger] entries[k]).0, entries[k].1, entries) is Some
                    ==> lists_weight(list, entries[k].0)
            &&& forall|i: int, j: int|
                0 <= i < j < list.len() ==> text_lt(
                    (#[trigger] list[i]).tensor_name,
                    (#[trigger] list[j]).tensor_name,
                )
        }),
    decreases n,
{
    if n > 0 {
        lemma_quantized_among(entries, (n - 1) as nat);
        let before = quantized_among(entries, (n - 1) as nat);
        let list = quantized_among(entries, n);
        let last = entries[n - 1];
        assert forall|i: int| 0 <= i < list.len() implies exists|k: int|
            0 <= k < n && quantized_of((#[trigger] entries[k]).0, entries[k].1, entries) == Some(
                #[trigger] list[i],
            ) by {
            if i < before.len() {
                assert(list[i] == before[i]);
                let k = choose|k: int|
                    0 <= k < n - 1 && quantized_of(
                        (#[trigger] entries[k]).0,
                        entries[k].1,
                        entries,
                    ) == Some(before[i]);
                assert(quantized_of(entries[k].0, entries[k].1, entries) == Some(list[i]));
            } else {
                assert(quantized_of(entries[n - 1].0, entries[n - 1].1, entries) == Some(list[i]));
            }
        }
        assert forall|k: int|
            0 <= k < n && quantized_of(
                (#[trigger] entries[k]).0,
                entries[k].1,
                entries,
            ) is Some implies lists_weight(list, entries[k].0) by {
            if k < n - 1 {
                assert(lists_weight(before, entries[k].0));
                let i = choose|i: int|
                    0 <= i < before.len() && (#[trigger] before[i]).tensor_name == entries[k].0;
                assert(list[i] == before[i]);
            } else {
                assert(list[before.len() as int].tensor_name == entries[k].0);
            }
        }
        assert forall|i: int, j: int| 0 <= i < j < list.len() implies text_lt(
            (#[trigger] list[i]).tensor_name,
            (#[trigger] list[j]).tensor_name,
        ) by {
            assert(list[i] == before[i]);
            if j < before.len() {
                assert(list[j] == before[j]);
            } else {
                let k = choose|k: int|
                    0 <= k < n - 1 && quantized_of(
                        (#[trigger] entries[k]).0,
                        entries[k].1,
                        entries,
                    ) == Some(before[i]);
                assert(text_lt(entries[k].0, last.0));
            }
        }
    }
}

/// Of the tensors exactly those quantized weights are listed that have a scale, in the increasing
/// order of their names, each with its own span and the span of its scale; where a weight has both
/// an inverse scale and another, the inverse one is taken.
pub proof fn quantized_weights_are_listed(entries: Seq<(Seq<char>, TensorSpan)>)
    ensures
        forall|i: int, j: int|
            0 <= i < j < quantized_in(entries).len() ==> text_lt(
                (#[trigger] quantized_in(entries)[i]).tensor_name,
                (#[trigger] quantized_in(entries)[j]).tensor_name,
            ),
        forall|name: Seq<char>| #[trigger]
            lists_weight(quantized_in(entries), name) <==> has_scale(entries, name),
        forall|i: int|
            0 <= i < quantized_in(entries).len() ==> stands_in(
                entries,
                #[trigger] quantized_in(entries)[i],
            ),
{
    listed_maps_are_finite(entries);
    every_map_is_in_key_order(map_of(entries));
    let by_name = in_key_order(map_of(entries));
    let list = quantized_in(entries);
    ascending_pairs_are_the_map(by_name);
    lemma_quantized_among(by_name, by_name.len());
    assert forall|i: int| 0 <= i < list.len() implies stands_in(entries, #[trigger] list[i]) && has_scale(
        entries,
        list[i].tensor_name,
    ) by {
        let k = choose|k: int|
            0 <= k < by_name.len() && quantized_of(
                (#[trigger] by_name[k]).0,
                by_name[k].1,
                by_name,
            ) == Some(list[i]);
        assert(map_of(by_name)[by_name[k].0] == by_name[k].1);
    }
    assert forall|name: Seq<char>| #[trigger] lists_weight(list, name) <==> has_scale(
        entries,
        name,
    ) by {
        if has_scale(entries, name) {
            let k = choose|k: int| 0 <= k < by_name.len() && (#[trigger] by_name[k]).0 == name;
            assert(quantized_of(by_name[k].0, by_name[k].1, by_name) is Some);
        }
        if lists_weight(list, name) {
            let i = choose|i: int| 0 <= i < list.len() && (#[trigger] list[i]).tensor_name == name;
            assert(has_scale(entries, list[i].tensor_name));
        }
    }
}

/// The places of the tensors of a model, with what is known of each.
pub type Places = Seq<((usize, Seq<char>), LayerTensor)>;

/// How many tensors the first `n` of the layers have together.
pub open spec fn tensors_in_layers(places: Places, layers: Seq<usize>, n: nat) -> nat
    decreases n,
{
    if n == 0 || n > layers.len() {
        0
    } else {
        tensors_in_layers(places, layers, (n - 1) as nat) + suffixes_of(
            places,
            layers[n - 1],
        ).len()
    }
}

proof fn lemma_tensors_step(places: Places, layers: Seq<usize>, n: nat)
    requires
        places.len() > 0,
        layers.no_duplicates(),
        n <= layers.len(),
    ensures
        tensors_in_layers(places, layers, n) == tensors_in_layers(places.drop_last(), layers, n)
            + if layers.take(n as int).contains(places.last().0.0) {
            1nat
        } else {
            0nat
        },
    decreases n,
{
    let layer = places.last().0.0;
    if n > 0 {
        lemma_tensors_step(places, layers, (n - 1) as nat);
        let before = layers.take(n - 1);
        let now = layers.take(n as int);
        assert(now =~= before.push(layers[n - 1]));
        if layers[n - 1] == layer {
            assert(now[n - 1] == layer);
            if before.contains(layer) {
                let i = choose|i: int| 0 <= i < before.len() && before[i] == layer;
                assert(layers[i] == layers[n - 1]);
            }
        } else {
            if before.contains(layer) {
                let i = choose|i: int| 0 <= i < before.len() && before[i] == layer;
                assert(now[i] == layer);
            }
            if now.contains(layer) {
                let i = choose|i: int| 0 <= i < now.len() && now[i] == layer;
                assert(before[i] == layer);
            }
        }
    }
}

proof fn lemma_tensors_add_up(places: Places, layers: Seq<usize>)
    requires
        layers.no_duplicates(),
        forall|k: int| 0 <= k < places.len() ==> layers.contains((#[trigger] places[k]).0.0),
    ensures
        tensors_in_layers(places, layers, layers.len()) == places.len(),
    decreases places.len(),
{
    if places.len() == 0 {
        lemma_no_tensors(layers, layers.len());
        assert(places =~= Seq::empty());
    } else {
        let rest = places.drop_last();
        assert forall|k: int| 0 <= k < rest.len() implies layers.contains(
            (#[trigger] rest[k]).0.0,
        ) by {
            assert(rest[k] == places[k]);
        }
        lemma_tensors_add_up(rest, layers);
        lemma_tensors_step(places, layers, layers.len());
        assert(layers.take(layers.len() as int) =~= layers);
        assert(layers.contains(places[places.len() - 1].0.0));
    }
}

proof fn lemma_no_tensors(layers: Seq<usize>, n: nat)
    ensures
        tensors_in_layers(Seq::empty(), layers, n) == 0,
    decreases n,
{
    if n > 0 && n <= layers.len() {
        lemma_no_tensors(layers, (n - 1) as nat);
    }
}

/// Whether the layer is that of one of the places.
pub open spec fn has_layer(places: Places, layer_id: usize) -> bool {
    exists|k: int| 0 <= k < places.len() && (#[trigger] places[k]).0.0 == layer_id
}

/// Whether the place is among the places.
pub open spec fn has_place(places: Places, place: (usize, Seq<char>)) -> bool {
    exists|k: int| 0 <= k < places.len() && (#[trigger] places[k]).0 == place
}

proof fn lemma_suffixes(places: Places, layer_id: usize)
    requires
        in_order::<LayerPlace, LayerTensor>(places),
    ensures
        ({
            let suffixes = suffixes_of(places, layer_id);
            &&& forall|suffix: Seq<char>| #[trigger]
                suffixes.contains(suffix) <==> has_place(places, (layer_id, suffix))
            &&& forall|i: int, j: int|
                0 <= i < j < suffixes.len() ==> text_lt(#[trigger] suffixes[i], #[trigger] suffixes[j])
            &&& suffixes.len() > 0 <==> has_layer(places, layer_id)
        }),
    decreases places.len(),
{
    let suffixes = suffixes_of(places, layer_id);
    if places.len() > 0 {
        let rest = places.drop_last();
        let last = places.last();
        assert forall|i: int, j: int| 0 <= i < j < rest.len() implies LayerPlace::before(
            #[trigger] rest[i].0,
            #[trigger] rest[j].0,
        ) by {
            assert(LayerPlace::before(places[i].0, places[j].0));
        }
        lemma_suffixes(rest, layer_id);
        let before = suffixes_of(rest, layer_id);
        assert(places[places.len() - 1] == last);
        assert forall|suffix: Seq<char>| #[trigger] suffixes.contains(suffix) <==> has_place(
            places,
            (layer_id, suffix),
        ) by {
            if has_place(rest, (layer_id, suffix)) {
                let k = choose|k: int|
                    0 <= k < rest.len() && (#[trigger] rest[k]).0 == (layer_id, suffix);
                assert(places[k].0 == (layer_id, suffix));
                assert(before.contains(suffix));
                let i = choose|i: int| 0 <= i < before.len() && before[i] == suffix;
                assert(suffixes[i] == suffix);
            }
            if has_place(places, (layer_id, suffix)) {
                let k = choose|k: int|
                    0 <= k < places.len() && (#[trigger] places[k]).0 == (layer_id, suffix);
                if k < rest.len() {
                    assert(rest[k] == places[k]);
                } else {
                    assert(suffixes[before.len() as int] == suffix);
                }
            }
            if suffixes.contains(suffix) {
                let i = choose|i: int| 0 <= i < suffixes.len() && suffixes[i] == suffix;
                if i < before.len() {
                    assert(before[i] == suffix);
                    assert(before.contains(suffix));
                }
            }
        }
        assert forall|i: int, j: int| 0 <= i < j < suffixes.len() implies text_lt(
            #[trigger] suffixes[i],
            #[trigger] suffixes[j],
        ) by {
            assert(before[i] == suffixes[i]);
            if j < before.len() {
                assert(before[j] == suffixes[j]);
            } else {
                assert(before.contains(before[i]));
                let k = choose|k: int|
                    0 <= k < rest.len() && (#[trigger] rest[k]).0 == (layer_id, before[i]);
                assert(LayerPlace::before(places[k].0, places[places.len() - 1].0));
            }
        }
        if has_layer(rest, layer_id) {
            let k = choose|k: int| 0 <= k < rest.len() && (#[trigger] rest[k]).0.0 == layer_id;
            assert(places[k].0.0 == layer_id);
        }
        if has_layer(places, layer_id) {
            let k = choose|k: int| 0 <= k < places.len() && (#[trigger] places[k]).0.0 == layer_id;
            if k < rest.len() {
                assert(rest[k] == places[k]);
            }
        }
    }
}

proof fn lemma_layers(places: Places)
    requires
        in_order::<LayerPlace, LayerTensor>(places),
    ensures
        ({
            let layers = layers_of(places);
            &&& forall|i: int, j: int| 0 <= i < j < layers.len() ==> layers[i] < layers[j]
            &&& forall|layer_id: usize| #[trigger]
                layers.contains(layer_id) <==> has_layer(places, layer_id)
            &&& places.len() > 0 ==> layers.len() > 0 && layers.last() == places.last().0.0
        }),
    decreases places.len(),
{
    let layers = layers_of(places);
    if places.len() > 0 {
        let rest = places.drop_last();
        let last = places.last().0.0;
        assert forall|i: int, j: int| 0 <= i < j < rest.len() implies LayerPlace::before(
            #[trigger] rest[i].0,
            #[trigger] rest[j].0,
        ) by {
            assert(LayerPlace::before(places[i].0, places[j].0));
        }
        lemma_layers(rest);
        let before = layers_of(rest);
        assert(places[places.len() - 1].0.0 == last);
        assert forall|i: int, j: int| 0 <= i < j < layers.len() implies layers[i] < layers[j] by {
            if j >= before.len() {
                assert(rest.len() > 0);
                assert(LayerPlace::before(places[rest.len() - 1].0, places[places.len() - 1].0));
                assert(rest.last() == places[rest.len() - 1]);
                assert(before.last() < last);
                if i < before.len() - 1 {
                    assert(before[i] < before[before.len() - 1]);
                }
            }
        }
        assert forall|layer_id: usize| #[trigger] layers.contains(layer_id) <==> has_layer(
            places,
            layer_id,
        ) by {
            if has_layer(rest, layer_id) {
                let k = choose|k: int| 0 <= k < rest.len() && (#[trigger] rest[k]).0.0 == layer_id;
                assert(places[k].0.0 == layer_id);
                assert(before.contains(layer_id));
                let i = choose|i: int| 0 <= i < before.len() && before[i] == layer_id;
                assert(layers[i] == layer_id);
            }
            if has_layer(places, layer_id) {
                let k = choose|k: int|
                    0 <= k < places.len() && (#[trigger] places[k]).0.0 == layer_id;
                if k < rest.len() {
                    assert(rest[k] == places[k]);
                } else {
                    assert(layers[layers.len() - 1] == layer_id);
                }
            }
            if layers.contains(layer_id) {
                let i = choose|i: int| 0 <= i < layers.len() && layers[i] == layer_id;
                if i < before.len() {
                    assert(before[i] == layer_id);
                    assert(before.contains(layer_id));
                }
            }
        }
    }
}

/// The layers of a catalog strictly increase; a layer is listed exactly where it has suffixes; the
/// suffixes of a layer strictly increase and are exactly those that are found in it; and the suffixes
/// of all listed layers are together as many as the tensors.
pub proof fn layers_and_suffixes_agree(tensors: Map<(usize, Seq<char>), LayerTensor>)
    requires
        tensors.dom().finite(),
    ensures
        ({
            let places = sorted::<LayerPlace, LayerTensor>(tensors);
            let layers = layers_of(places);
            &&& forall|i: int, j: int| 0 <= i < j < layers.len() ==> layers[i] < layers[j]
            &&& forall|layer_id: usize| #[trigger]
                layers.contains(layer_id) <==> suffixes_of(places, layer_id).len() > 0
            &&& forall|layer_id: usize, i: int, j: int|
                0 <= i < j < suffixes_of(places, layer_id).len() ==> text_lt(
                    #[trigger] suffixes_of(places, layer_id)[i],
                    #[trigger] suffixes_of(places, layer_id)[j],
                )
            &&& forall|layer_id: usize, suffix: Seq<char>| #[trigger]
                suffixes_of(places, layer_id).contains(suffix) <==> tensors.dom().contains(
                    (layer_id, suffix),
                )
            &&& tensors_in_layers(places, layers, layers.len()) == tensors.len()
        }),
{
    every_map_is_sorted::<LayerPlace, LayerTensor>(tensors);
    let places = sorted::<LayerPlace, LayerTensor>(tensors);
    let layers = layers_of(places);
    ordered_pairs_are_the_map::<LayerPlace, LayerTensor>(places);
    lemma_layers(places);
    assert forall|layer_id: usize| #[trigger] layers.contains(layer_id) <==> suffixes_of(
        places,
        layer_id,
    ).len() > 0 by {
        lemma_suffixes(places, layer_id);
    }
    assert forall|layer_id: usize, i: int, j: int|
        0 <= i < j < suffixes_of(places, layer_id).len() implies text_lt(
        #[trigger] suffixes_of(places, layer_id)[i],
        #[trigger] suffixes_of(places, layer_id)[j],
    ) by {
        lemma_suffixes(places, layer_id);
    }
    assert forall|layer_id: usize, suffix: Seq<char>| #[trigger] suffixes_of(
        places,
        layer_id,
    ).contains(suffix) <==> tensors.dom().contains((layer_id, suffix)) by {
        lemma_suffixes(places, layer_id);
        if has_place(places, (layer_id, suffix)) {
            let k = choose|k: int|
                0 <= k < places.len() && (#[trigger] places[k]).0 == (layer_id, suffix);
            assert(tensors.dom().contains(places[k].0));
        }
    }
    assert forall|k: int| 0 <= k < places.len() implies layers.contains(
        (#[trigger] places[k]).0.0,
    ) by {
        assert(has_layer(places, places[k].0.0));
    }
    lemma_tensors_add_up(places, layers);
}

/// Whether the tensor at a place of the list is that of a layer with this suffix, by its name.
pub open spec fn names_place(
    entries: Seq<(Seq<char>, TensorSpan)>,
    i: int,
    place: (usize, Seq<char>),
) -> bool {
    0 <= i < entries.len() && layer_name(entries[i].0) == Some((place.0 as nat, place.1))
}

/// Whether two tensors have the same layer and suffix.
pub open spec fn repeats_place(entries: Seq<(Seq<char>, TensorSpan)>) -> bool {
    exists|i: int, j: int, place: (usize, Seq<char>)|
        i < j && #[trigger] names_place(entries, i, place) && #[trigger] names_place(
            entries,
            j,
            place,
        )
}

/// The catalog of tensors fails exactly where two tensors have the same layer and suffix by their
/// names; else it holds exactly the tensors of layers, each at the layer and suffix that its name
/// gives, with its name and its span.
pub proof fn catalogs_follow_the_names(entries: Seq<(Seq<char>, TensorSpan)>)
    ensures
        tensors_by_place(tensors_of_layers(entries)) is Err <==> repeats_place(entries),
        tensors_by_place(tensors_of_layers(entries)) matches Ok(tensors) ==> {
            &&& tensors.dom().finite()
            &&& tensors.len() == tensors_of_layers(entries).len()
            &&& forall|place: (usize, Seq<char>)| #[trigger]
                tensors.dom().contains(place) <==> exists|i: int|
                    #[trigger] names_place(entries, i, place)
            &&& forall|i: int, place: (usize, Seq<char>)| #[trigger]
                names_place(entries, i, place) ==> tensors[place] == (LayerTensor {
                    tensor_name: entries[i].0,
                    layer_id: place.0 as nat,
                    suffix: place.1,
                    span: entries[i].1,
                })
        },
    decreases entries.len(),
{
    if entries.len() > 0 {
        let rest = entries.drop_last();
        let last = entries.len() - 1;
        catalogs_follow_the_names(rest);
        let before = tensors_of_layers(rest);
        let all = tensors_of_layers(entries);
        assert forall|i: int, place: (usize, Seq<char>)| i != last implies #[trigger] names_place(
            entries,
            i,
            place,
        ) == names_place(rest, i, place) by {
            if 0 <= i < rest.len() {
                assert(rest[i] == entries[i]);
            }
        }
        if repeats_place(rest) {
            let (i, j, place) = choose|i: int, j: int, place: (usize, Seq<char>)|
                i < j && #[trigger] names_place(rest, i, place) && #[trigger] names_place(
                    rest,
                    j,
                    place,
                );
            assert(names_place(entries, i, place) && names_place(entries, j, place));
        }
        if layer_name(entries[last].0) is None {
            assert(all == before);
            if repeats_place(entries) {
                let (i, j, place) = choose|i: int, j: int, place: (usize, Seq<char>)|
                    i < j && #[trigger] names_place(entries, i, place) && #[trigger] names_place(
                        entries,
                        j,
                        place,
                    );
                assert(names_place(rest, i, place) && names_place(rest, j, place));
            }
            if tensors_by_place(all) is Ok {
                let tensors = tensors_by_place(all)->Ok_0;
                assert forall|place: (usize, Seq<char>)| #[trigger]
                    tensors.dom().contains(place) <==> exists|i: int|
                    #[trigger] names_place(entries, i, place) by {
                    if tensors.dom().contains(place) {
                        let i = choose|i: int| #[trigger] names_place(rest, i, place);
                        assert(names_place(entries, i, place));
                    }
                    if exists|i: int| #[trigger] names_place(entries, i, place) {
                        let i = choose|i: int| #[trigger] names_place(entries, i, place);
                        assert(names_place(rest, i, place));
                    }
                }
                assert forall|i: int, place: (usize, Seq<char>)| #[trigger]
                    names_place(entries, i, place) implies tensors[place] == (LayerTensor {
                    tensor_name: entries[i].0,
                    layer_id: place.0 as nat,
                    suffix: place.1,
                    span: entries[i].1,
                }) by {
                    assert(names_place(rest, i, place));
                }
            }
        } else {
            let (layer_id, suffix) = layer_name(entries[last].0)->0;
            let place = (layer_id as usize, suffix);
            let tensor = LayerTensor {
                tensor_name: entries[last].0,
                layer_id,
                suffix,
                span: entries[last].1,
            };
            assert(layer_id <= usize::MAX);
            assert(all == before.push(tensor));
            assert(all.drop_last() =~= before);
            assert(names_place(entries, last, place));
            if tensors_by_place(before) is Ok {
                let known = tensors_by_place(before)->Ok_0;
                if known.dom().contains(place) {
                    let i = choose|i: int| #[trigger] names_place(rest, i, place);
                    assert(names_place(entries, i, place));
                    assert(repeats_place(entries));
                } else {
                    if repeats_place(entries) {
                        let (i, j, twice) = choose|i: int, j: int, twice: (usize, Seq<char>)|
                            i < j && #[trigger] names_place(entries, i, twice)
                                && #[trigger] names_place(entries, j, twice);
                        assert(names_place(rest, i, twice));
                        if j < last {
                            assert(names_place(rest, j, twice));
                        } else {
                            assert(twice == place);
                        }
                    }
                    let tensors = tensors_by_place(all)->Ok_0;
                    assert(tensors == known.insert(place, tensor));
                    assert forall|at: (usize, Seq<char>)| #[trigger]
                        tensors.dom().contains(at) <==> exists|i: int|
                        #[trigger] names_place(entries, i, at) by {
                        if tensors.dom().contains(at) && at != place {
                            let i = choose|i: int| #[trigger] names_place(rest, i, at);
                            assert(names_place(entries, i, at));
                        }
                        if exists|i: int| #[trigger] names_place(entries, i, at) {
                            let i = choose|i: int| #[trigger] names_place(entries, i, at);
                            if i < last {
                                assert(names_place(rest, i, at));
                            } else {
                                assert(at == place);
                            }
                        }
                    }
                    assert forall|i: int, at: (usize, Seq<char>)| #[trigger]
                        names_place(entries, i, at) implies tensors[at] == (LayerTensor {
                        tensor_name: entries[i].0,
                        layer_id: at.0 as nat,
                        suffix: at.1,
                        span: entries[i].1,
                    }) by {
                        if i < last {
                            assert(names_place(rest, i, at));
                            assert(known.dom().contains(at));
                        } else {
                            assert(at == place);
                        }
                    }
                }
            }
        }
    }
}

} // verus!
