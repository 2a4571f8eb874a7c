//! What the files of a model and of a profile promise: where they lie and what they hold.
use vstd::prelude::*;

use crate::answer_laws::{holds_integer, holds_text};
use crate::artifact_error::ModelArtifactError;
use crate::json::{Json, JsonView};
use crate::listing::ascending_list_is_in_key_order;
use crate::order::{ascending, ascending_pairs_are_the_map, map_of};
use crate::paths::{
    default_hf_hub_cache, flat_name, has_file, join_path, joined, looks_like_hf_model_id,
    repo_cache_dir, resolve_model_path, resolve_model_path_from_hf_cache,
    resolve_model_path_from_hf_cache_with_required_file, trim_text, trimmed, trimmed_end,
    trimmed_start, HubCacheListing,
};
use crate::profile::{profile_document, profile_path, ProfileTimes};
use crate::safetensors::{metadata_of, tensors_of, SafetensorsHeader};
use crate::safetensors_manifest::{shards_among, shards_of, SafetensorsManifest};
use crate::scoring_laws::{is_white, lemma_white};
use crate::text::decimal;

verus! {

/// The members have different names.
pub proof fn lemma_profile_names()
    ensures
        "profile"@.len() == 7,
        "transport"@.len() == 9,
        "attributes"@.len() == 10 && "attributes"@[0] == 'a',
        "output_dir"@.len() == 10 && "output_dir"@[0] == 'o',
        "duration_ms"@.len() == 11,
        "started_unix_ms"@.len() == 15 && "started_unix_ms"@[2] == 'a',
        "stopped_unix_ms"@.len() == 15 && "stopped_unix_ms"@[2] == 'o',
{
    reveal_strlit("profile");
    reveal_strlit("transport");
    reveal_strlit("attributes");
    reveal_strlit("output_dir");
    reveal_strlit("duration_ms");
    reveal_strlit("started_unix_ms");
    reveal_strlit("stopped_unix_ms");
}

/// A name is appended to a directory behind one slash; a name that begins with a slash stands alone.
pub proof fn names_stand_behind_one_slash(base: &str, name: &str, path: String)
    requires
        call_ensures(join_path, (base, name), path),
    ensures
        base@.len() == 0 ==> path@ == name@,
        name@.len() > 0 && name@[0] == '/' ==> path@ == name@,
        base@.len() > 0 && base@.last() == '/' && (name@.len() == 0 || name@[0] != '/') ==> path@
            == base@ + name@,
        base@.len() > 0 && base@.last() != '/' && (name@.len() == 0 || name@[0] != '/') ==> path@
            == base@ + "/"@ + name@,
{
}

/// Text is white.
pub open spec fn all_white(text: Seq<char>) -> bool {
    forall|i: int| 0 <= i < text.len() ==> is_white(#[trigger] text[i])
}

/// What is taken off at the start.
pub proof fn lemma_trimmed_start(s: Seq<char>) -> (before: Seq<char>)
    ensures
        s == before + trimmed_start(s),
        all_white(before),
        trimmed_start(s).len() > 0 ==> !is_white(trimmed_start(s)[0]),
    decreases s.len(),
{
    if s.len() > 0 {
        lemma_white(s[0]);
        if is_white(s[0]) {
            let rest = lemma_trimmed_start(s.skip(1));
            let before = seq![s[0]] + rest;
            assert(s =~= seq![s[0]] + s.skip(1));
            assert(s =~= before + trimmed_start(s));
            assert forall|i: int| 0 <= i < before.len() implies is_white(#[trigger] before[i]) by {
                if i > 0 {
                    assert(before[i] == rest[i - 1]);
                }
            }
            return before;
        }
    }
    assert(s =~= Seq::<char>::empty() + s);
    Seq::empty()
}

/// What is taken off at the end.
pub proof fn lemma_trimmed_end(s: Seq<char>) -> (after: Seq<char>)
    ensures
        s == trimmed_end(s) + after,
        all_white(after),
        trimmed_end(s).len() > 0 ==> !is_white(trimmed_end(s).last()) && trimmed_end(s)[0] == s[0],
    decreases s.len(),
{
    if s.len() > 0 {
        lemma_white(s.last());
        if is_white(s.last()) {
            let rest = lemma_trimmed_end(s.drop_last());
            let after = rest + seq![s.last()];
            assert(s =~= s.drop_last() + seq![s.last()]);
            assert(s =~= trimmed_end(s) + after);
            assert forall|i: int| 0 <= i < after.len() implies is_white(#[trigger] after[i]) by {
                if i < rest.len() {
                    assert(after[i] == rest[i]);
                }
            }
            return after;
        }
    }
    assert(s =~= s + Seq::<char>::empty());
    Seq::empty()
}

/// Trimming takes the white space off both ends of a text and nothing else.
pub proof fn trimming_takes_white_space_off_both_ends(s: &str, text: String) -> (ends: (
    Seq<char>,
    Seq<char>,
))
    requires
        call_ensures(trim_text, (s,), text),
    ensures
        s@ == ends.0 + text@ + ends.1,
        all_white(ends.0) && all_white(ends.1),
        text@.len() > 0 ==> !is_white(text@[0]) && !is_white(text@.last()),
{
    let before = lemma_trimmed_start(s@);
    let after = lemma_trimmed_end(trimmed_start(s@));
    assert(s@ =~= before + text@ + after);
    (before, after)
}

/// The name of a model on the hub has a slash, and begins with neither a slash nor a dash.
pub proof fn hub_names_have_a_slash(model_id: &str, looks: bool)
    requires
        call_ensures(looks_like_hf_model_id, (model_id,), looks),
    ensures
        looks ==> model_id@.contains('/') && model_id@[0] != '/' && model_id@[0] != '-'
            && !model_id@.contains('\\'),
        model_id@.len() > 0 && model_id@[0] != '/' && model_id@[0] != '-' && model_id@.contains(
            '/',
        ) && !model_id@.contains('\\') ==> looks,
{
    if looks {
        let i = choose|i: int| 0 <= i < model_id@.len() && model_id@[i] == '/';
        assert(model_id@.len() > 0);
    }
}

/// A name without a slash stays, and each slash becomes two dashes.
pub proof fn lemma_flat(owner: Seq<char>, name: Seq<char>)
    requires
        !owner.contains('/'),
        !name.contains('/'),
    ensures
        flat_name(owner) == owner,
        flat_name(owner + "/"@ + name) == owner + "--"@ + name,
    decreases owner.len() + name.len(),
{
    reveal_strlit("/");
    if name.len() > 0 {
        let short = name.drop_last();
        assert(!short.contains('/')) by {
            if short.contains('/') {
                let i = choose|i: int| 0 <= i < short.len() && short[i] == '/';
                assert(name[i] == '/');
            }
        }
        lemma_flat(owner, short);
        let whole = owner + "/"@ + name;
        assert(whole.drop_last() =~= owner + "/"@ + short);
        assert(name[name.len() - 1] == name.last());
        assert(whole.last() == name.last() && whole.last() != '/');
        assert(owner + "--"@ + name =~= (owner + "--"@ + short).push(name.last()));
    } else {
        if owner.len() > 0 {
            let short = owner.drop_last();
            assert(!short.contains('/')) by {
                if short.contains('/') {
                    let i = choose|i: int| 0 <= i < short.len() && short[i] == '/';
                    assert(owner[i] == '/');
                }
            }
            lemma_flat(short, name);
            assert(owner[owner.len() - 1] == owner.last());
            assert(owner =~= short.push(owner.last()));
        } else {
            assert(flat_name(owner) =~= owner);
        }
        let whole = owner + "/"@ + name;
        assert(whole.drop_last() =~= owner);
        assert(whole.last() == '/');
        assert(owner + "--"@ + name =~= owner + "--"@);
    }
}

/// A model of an owner lies in the directory that is named after both.
pub proof fn models_lie_in_their_directories(
    hub: &str,
    model_id: &str,
    path: String,
    owner: Seq<char>,
    name: Seq<char>,
)
    requires
        call_ensures(repo_cache_dir, (hub, model_id), path),
        model_id@ == owner + "/"@ + name,
        !owner.contains('/') && !name.contains('/'),
        hub@.len() > 0 && hub@.last() != '/',
    ensures
        path@ == hub@ + "/"@ + ("models--"@ + (owner + "--"@ + name)),
{
    lemma_flat(owner, name);
    reveal_strlit("models--");
    assert(("models--"@ + (owner + "--"@ + name))[0] == 'm');
}

/// The snapshot that the main branch names is taken where it has the required file.
pub proof fn main_snapshots_are_taken_first(
    model_id: &str,
    hub: &str,
    file: &str,
    listing: HubCacheListing,
    repo: String,
    commit: String,
    path: Option<String>,
)
    requires
        call_ensures(
            resolve_model_path_from_hf_cache_with_required_file,
            (model_id, hub, file, &listing),
            path,
        ),
        call_ensures(repo_cache_dir, (hub, model_id), repo),
        listing.refs_main is Some,
        commit@ == joined(joined(repo@, "snapshots"@), trimmed(listing.refs_main->0@)),
        has_file(listing.files@, joined(commit@, file@)),
        model_id@.len() > 0 && model_id@[0] != '/' && model_id@[0] != '-',
        !model_id@.contains('\\'),
    ensures
        path is Some && path->0@ == commit@,
{
}

/// A path that is a directory is taken as it is, and so is one that the hub does not know.
pub proof fn directories_are_taken_as_they_are(
    path: &str,
    is_dir: bool,
    hub: Option<(&str, &HubCacheListing)>,
    resolved: String,
    found: Option<String>,
)
    requires
        call_ensures(resolve_model_path, (path, is_dir, hub), resolved),
        hub matches Some((cache, listing)) ==> call_ensures(
            resolve_model_path_from_hf_cache,
            (path, cache, listing),
            found,
        ),
    ensures
        is_dir ==> resolved@ == path@,
        hub is None ==> resolved@ == path@,
        hub is Some && found is None ==> resolved@ == path@,
        hub is Some && !is_dir && found is Some ==> resolved@ == found->0@,
{
}

/// The cache of the hub is the one that is named, else `hub` in the home of the hub, else the one
/// under the home of the user.
pub proof fn caches_are_looked_for_in_order(
    hub: Option<&str>,
    hf_home: Option<&str>,
    home: Option<&str>,
    path: Option<String>,
)
    requires
        call_ensures(default_hf_hub_cache, (hub, hf_home, home), path),
    ensures
        path is Some <==> hub is Some || hf_home is Some || home is Some,
        hub matches Some(named) ==> path->0@ == named@,
        hub is None ==> (hf_home matches Some(dir) ==> (dir@.len() > 0 && dir@.last() != '/'
            ==> path->0@ == dir@ + "/"@ + "hub"@)),
        hub is None && hf_home is None ==> (home matches Some(dir) ==> (dir@.len() > 0
            && dir@.last() != '/' ==> path->0@ == dir@ + "/"@ + ".cache"@ + "/"@ + "huggingface"@
            + "/"@ + "hub"@)),
{
    reveal_strlit("hub");
    reveal_strlit(".cache");
    reveal_strlit("huggingface");
    assert("hub"@[0] == 'h');
    assert(".cache"@[0] == '.');
    assert("huggingface"@[0] == 'h');
    assert("huggingface"@.len() == 11 && "huggingface"@[10] == 'e');
    assert(".cache"@.len() == 6 && ".cache"@[5] == 'e');
    if let Some(dir) = home {
        let a = dir@ + "/"@ + ".cache"@;
        assert(a.last() == 'e');
        let b = a + "/"@ + "huggingface"@;
        assert(b.last() == 'e');
    }
}

/// A profile tells where it lies, when it began and ended, and how long it took; the transport is
/// that of its attributes, else `tonic-grpc`.
pub proof fn profiles_tell_their_times(
    output_dir: &str,
    times: ProfileTimes,
    attributes: Vec<(String, String)>,
    json: Json,
)
    requires
        call_ensures(profile_document, (output_dir, times, &attributes), json),
    ensures
        json@.get("profile"@) is Some,
        ({
            let told = json@.get("profile"@)->0;
            &&& holds_text(told, "output_dir"@, output_dir@)
            &&& holds_integer(told, "started_unix_ms"@, times.started_unix_ms as int)
            &&& holds_integer(told, "stopped_unix_ms"@, times.stopped_unix_ms as int)
            &&& holds_integer(told, "duration_ms"@, times.duration_ms as int)
            &&& told.get("attributes"@) is Some
            &&& (forall|i: int|
                0 <= i < attributes@.len() ==> (#[trigger] attributes@[i]).0@ != "transport"@)
                ==> holds_text(told, "transport"@, "tonic-grpc"@)
            &&& attributes@.len() > 0 && attributes@.last().0@ == "transport"@ ==> holds_text(
                told,
                "transport"@,
                attributes@.last().1@,
            )
            &&& attributes@.len() > 0 ==> holds_text(
                told.get("attributes"@)->0,
                attributes@.last().0@,
                attributes@.last().1@,
            )
        }),
{
    lemma_profile_names();
    lemma_transport(attributes@, attributes@.len());
    lemma_attributes(attributes@, attributes@.len());
}

/// Attributes are an object.
pub proof fn lemma_attributes(attributes: Seq<(String, String)>, n: nat)
    ensures
        crate::profile::attributes_view(attributes, n) is Object,
    decreases n,
{
    if n > 0 && n <= attributes.len() {
        lemma_attributes(attributes, (n - 1) as nat);
    }
}

/// Without an attribute for it, the transport is the usual one.
pub proof fn lemma_transport(attributes: Seq<(String, String)>, n: nat)
    ensures
        (forall|i: int| 0 <= i < attributes.len() ==> (#[trigger] attributes[i]).0@ != "transport"@)
            ==> crate::profile::transport(attributes, n) == "tonic-grpc"@,
    decreases n,
{
    if n > 0 && n <= attributes.len() {
        lemma_transport(attributes, (n - 1) as nat);
    }
}

/// A profile is named after its begin and its end.
pub proof fn profiles_are_named_after_their_times(
    output_dir: &str,
    times: ProfileTimes,
    path: String,
)
    requires
        call_ensures(profile_path, (output_dir, times), path),
        output_dir@.len() > 0 && output_dir@.last() != '/',
    ensures
        path@ == output_dir@ + "/"@ + ("sglang-profile-"@ + decimal(times.started_unix_ms as nat)
            + "-"@ + decimal(times.stopped_unix_ms as nat) + ".json"@),
{
    reveal_strlit("sglang-profile-");
    assert("sglang-profile-"@[0] == 's');
}

/// The tensors of a header are its entries that are objects, but for `__metadata__`.
pub proof fn lemma_tensors(path: Seq<char>, entries: Seq<(Seq<char>, JsonView)>, i: int)
    requires
        tensors_of(path, entries) is Ok,
        0 <= i < entries.len(),
        entries[i].0 != "__metadata__"@,
        entries[i].1 is Object,
    ensures
        metadata_of(path, entries[i].0, entries[i].1) is Ok,
        tensors_of(path, entries)->Ok_0.contains(
            (entries[i].0, metadata_of(path, entries[i].0, entries[i].1)->Ok_0),
        ),
    decreases entries.len(),
{
    let front = entries.drop_last();
    let list = tensors_of(path, entries)->Ok_0;
    let before = tensors_of(path, front)->Ok_0;
    if i < front.len() {
        assert(front[i] == entries[i]);
        lemma_tensors(path, front, i);
        let pair = (entries[i].0, metadata_of(path, entries[i].0, entries[i].1)->Ok_0);
        let k = choose|k: int| 0 <= k < before.len() && before[k] == pair;
        assert(list[k] == pair);
    } else {
        assert(entries.last() == entries[i]);
        assert(list[list.len() - 1] == (
            entries[i].0,
            metadata_of(path, entries[i].0, entries[i].1)->Ok_0,
        ));
    }
}

/// Every entry of a header but `__metadata__` is a tensor with what the entry says of it.
pub proof fn headers_list_their_entries(
    path: &str,
    header_len: usize,
    document: Json,
    header: SafetensorsHeader,
    entries: Seq<(Seq<char>, JsonView)>,
    i: int,
)
    requires
        call_ensures(
            SafetensorsHeader::from_document,
            (path, header_len, &document),
            Ok::<SafetensorsHeader, ModelArtifactError>(header),
        ),
        ascending(entries),
        document@ == JsonView::Object(map_of(entries)),
        0 <= i < entries.len(),
        entries[i].0 != "__metadata__"@,
        entries[i].1 is Object,
    ensures
        header@.header_len == header_len,
        metadata_of(path@, entries[i].0, entries[i].1) is Ok,
        header@.tensors.contains(
            (entries[i].0, metadata_of(path@, entries[i].0, entries[i].1)->Ok_0),
        ),
{
    ascending_list_is_in_key_order(entries);
    lemma_tensors(path@, entries, i);
}

/// Every entry of an index has its shard beside the model, and the shard is there.
pub proof fn lemma_shards(
    model: Seq<char>,
    index: Seq<char>,
    entries: Seq<(Seq<char>, JsonView)>,
    files: Seq<String>,
)
    requires
        shards_of(model, index, entries, files) is Ok,
    ensures
        shards_of(model, index, entries, files)->Ok_0.len() == entries.len(),
        forall|i: int|
            0 <= i < entries.len() ==> {
                &&& (#[trigger] shards_of(model, index, entries, files)->Ok_0[i]).0 == entries[i].0
                &&& entries[i].1 is Text
                &&& shards_of(model, index, entries, files)->Ok_0[i].1 == joined(
                    model,
                    entries[i].1->Text_0,
                )
                &&& has_file(files, joined(model, entries[i].1->Text_0))
            },
    decreases entries.len(),
{
    if entries.len() > 0 {
        let front = entries.drop_last();
        lemma_shards(model, index, front, files);
        let list = shards_of(model, index, entries, files)->Ok_0;
        let before = shards_of(model, index, front, files)->Ok_0;
        assert forall|i: int| 0 <= i < entries.len() implies {
            &&& (#[trigger] list[i]).0 == entries[i].0
            &&& entries[i].1 is Text
            &&& list[i].1 == joined(model, entries[i].1->Text_0)
            &&& has_file(files, joined(model, entries[i].1->Text_0))
        } by {
            if i < front.len() {
                assert(front[i] == entries[i]);
                assert(list[i] == before[i]);
            } else {
                assert(entries.last() == entries[i]);
            }
        }
    }
}

/// The shard of a tensor is the file beside the model that the index names for it.
pub proof fn tensors_lie_in_the_shards_of_the_index(
    model: &str,
    document: Json,
    files: Vec<String>,
    manifest: SafetensorsManifest,
    entries: Seq<(Seq<char>, JsonView)>,
    i: int,
    name: &str,
    shard: Option<&str>,
)
    requires
        call_ensures(
            SafetensorsManifest::from_index_document,
            (model, &document, &files),
            Ok::<SafetensorsManifest, ModelArtifactError>(manifest),
        ),
        ascending(entries),
        document@.get("weight_map"@) == Some(JsonView::Object(map_of(entries))),
        0 <= i < entries.len(),
        name@ == entries[i].0,
        call_ensures(SafetensorsManifest::shard_for_tensor, (&manifest, name), shard),
    ensures
        entries[i].1 is Text,
        shard is Some && shard->0@ == joined(model@, entries[i].1->Text_0),
        has_file(files@, joined(model@, entries[i].1->Text_0)),
{
    ascending_list_is_in_key_order(entries);
    let index = crate::safetensors_manifest::index_of(model@);
    lemma_shards(model@, index, entries, files@);
    manifest.lemma_wf();
    let list = manifest@.tensor_to_shard;
    ascending_pairs_are_the_map(list);
    assert(list[i].0 == entries[i].0);
}

/// Without an index, the shards are the files whose names end in `.safetensors`.
pub proof fn shards_end_in_their_suffix(model: Seq<char>, names: Seq<Seq<char>>, i: int)
    requires
        0 <= i < names.len(),
    ensures
        names[i].len() > 12 && names[i].skip(names[i].len() - 12) == ".safetensors"@
            ==> shards_among(model, names).contains(joined(model, names[i])),
        (forall|k: int|
            0 <= k < names.len() ==> (#[trigger] names[k]).len() <= 12 || names[k].skip(
                names[k].len() - 12,
            ) != ".safetensors"@) ==> shards_among(model, names).len() == 0,
    decreases names.len(),
{
    reveal_strlit(".safetensors");
    assert(".safetensors"@.len() == 12);
    let front = names.drop_last();
    let last = names.last();
    assert(last == names[names.len() - 1]);
    if last.len() > 12 {
        assert(last.subrange(last.len() - 12, last.len() as int) =~= last.skip(last.len() - 12));
    }
    let list = shards_among(model, names);
    let before = shards_among(model, front);
    if front.len() > 0 {
        let at = if i < front.len() {
            i
        } else {
            0
        };
        shards_end_in_their_suffix(model, front, at);
        assert(front[at] == names[at]);
        if i < front.len() && before.contains(joined(model, names[i])) {
            let k = choose|k: int| 0 <= k < before.len() && before[k] == joined(model, names[i]);
            assert(list[k] == joined(model, names[i]));
        }
        if forall|k: int|
            0 <= k < names.len() ==> (#[trigger] names[k]).len() <= 12 || names[k].skip(
                names[k].len() - 12,
            ) != ".safetensors"@ {
            assert forall|k: int| 0 <= k < front.len() implies (#[trigger] front[k]).len() <= 12
                || front[k].skip(front[k].len() - 12) != ".safetensors"@ by {
                assert(front[k] == names[k]);
            }
        }
    } else {
        assert(front =~= Seq::empty());
        assert(before.len() == 0);
    }
    if i == names.len() - 1 && list.len() > before.len() {
        assert(list[list.len() - 1] == joined(model, last));
    }
}

} // verus!
