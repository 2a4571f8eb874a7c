//! Paths as texts, and where a model lies in the cache of a model hub.
use vstd::prelude::*;
use vstd::string::*;

use crate::order::TextOrder;
use crate::ordered_map::OrderedKey;
use crate::path_parts::{parts_before, parts_order_total, path_key, path_parts};
use crate::text::{cat2, cat3, chars_of, is_space, is_white_space, text_of};

verus! {

/// The path of `name` under `base`; an absolute `name` stands for itself.
pub open spec fn joined(base: Seq<char>, name: Seq<char>) -> Seq<char> {
    if base.len() == 0 || (name.len() > 0 && name[0] == '/') {
        name
    } else if base.last() == '/' {
        base + name
    } else {
        base + "/"@ + name
    }
}

/// The path of `name` under `base`.
pub fn join_path(base: &str, name: &str) -> (path: String)
    ensures
        path@ == joined(base@, name@),
{
    let head = chars_of(base);
    let tail = chars_of(name);
    if head.len() == 0 || (tail.len() > 0 && tail[0] == '/') {
        name.to_owned()
    } else if head[head.len() - 1] == '/' {
        cat2(base, name)
    } else {
        cat3(base, "/", name)
    }
}

/// The text without white space at its start.
pub open spec fn trimmed_start(s: Seq<char>) -> Seq<char>
    decreases s.len(),
{
    if s.len() > 0 && is_space(s[0]) {
        trimmed_start(s.skip(1))
    } else {
        s
    }
}

/// The text without white space at its end.
pub open spec fn trimmed_end(s: Seq<char>) -> Seq<char>
    decreases s.len(),
{
    if s.len() > 0 && is_space(s.last()) {
        trimmed_end(s.drop_last())
    } else {
        s
    }
}

/// The text without white space at its ends.
pub open spec fn trimmed(s: Seq<char>) -> Seq<char> {
    trimmed_end(trimmed_start(s))
}

/// The text without white space at its ends.
pub fn trim_text(s: &str) -> (text: String)
    ensures
        text@ == trimmed(s@),
{
    let chars = chars_of(s);
    let mut from: usize = 0;
    proof {
        assert(chars@.skip(0) =~= chars@);
    }
    while from < chars.len() && is_white_space(chars[from])
        invariant
            from <= chars@.len(),
            chars@ == s@,
            trimmed_start(s@) == trimmed_start(chars@.skip(from as int)),
        decreases chars@.len() - from,
    {
        proof {
            assert(chars@.skip(from as int)[0] == chars@[from as int]);
            assert(chars@.skip(from as int).skip(1) =~= chars@.skip(from + 1));
        }
        from = from + 1;
    }
    let ghost start = trimmed_start(s@);
    proof {
        if from < chars@.len() {
            assert(chars@.skip(from as int)[0] == chars@[from as int]);
        }
        assert(start == chars@.skip(from as int));
        assert(chars@.skip(from as int) =~= chars@.subrange(from as int, chars@.len() as int));
    }
    let mut to: usize = chars.len();
    while to > from && is_white_space(chars[to - 1])
        invariant
            from <= to <= chars@.len(),
            trimmed_end(start) == trimmed_end(chars@.subrange(from as int, to as int)),
        decreases to,
    {
        proof {
            let part = chars@.subrange(from as int, to as int);
            assert(part.last() == chars@[to - 1]);
            assert(part.drop_last() =~= chars@.subrange(from as int, to - 1));
        }
        to = to - 1;
    }
    proof {
        let part = chars@.subrange(from as int, to as int);
        if to > from {
            assert(part.last() == chars@[to - 1]);
        }
        assert(trimmed_end(part) == part);
    }
    text_of(&chars, from, to)
}

/// Whether a text can name a model of the hub in its cache.
pub open spec fn names_hub_model(model_id: Seq<char>) -> bool {
    !(model_id.len() > 0 && (model_id[0] == '-' || model_id[0] == '/')) && !model_id.contains('\\')
}

/// Whether a text looks like the name of a model of the hub: an owner and a name.
pub open spec fn hub_model_id(model_id: Seq<char>) -> bool {
    names_hub_model(model_id) && model_id.contains('/')
}

fn has_char(chars: &Vec<char>, wanted: char) -> (found: bool)
    ensures
        found == chars@.contains(wanted),
{
    let mut i: usize = 0;
    while i < chars.len()
        invariant
            i <= chars@.len(),
            forall|j: int| 0 <= j < i ==> chars@[j] != wanted,
        decreases chars@.len() - i,
    {
        if chars[i] == wanted {
            return true;
        }
        i = i + 1;
    }
    false
}

fn can_name_hub_model(chars: &Vec<char>) -> (able: bool)
    ensures
        able == names_hub_model(chars@),
{
    if chars.len() > 0 && (chars[0] == '-' || chars[0] == '/') {
        return false;
    }
    !has_char(chars, '\\')
}

/// Whether a text looks like the name of a model of the hub.
pub fn looks_like_hf_model_id(model_id: &str) -> (looks: bool)
    ensures
        looks == hub_model_id(model_id@),
{
    let chars = chars_of(model_id);
    can_name_hub_model(&chars) && has_char(&chars, '/')
}

/// The name of a model with `--` in the place of each `/`.
pub open spec fn flat_name(model_id: Seq<char>) -> Seq<char>
    decreases model_id.len(),
{
    if model_id.len() == 0 {
        Seq::empty()
    } else if model_id.last() == '/' {
        flat_name(model_id.drop_last()) + "--"@
    } else {
        flat_name(model_id.drop_last()).push(model_id.last())
    }
}

/// The directory in which the cache keeps a model.
pub open spec fn repo_dir(hub_cache: Seq<char>, model_id: Seq<char>) -> Seq<char> {
    joined(hub_cache, "models--"@ + flat_name(model_id))
}

/// The directory in which the cache keeps a model.
pub fn repo_cache_dir(hub_cache: &str, model_id: &str) -> (path: String)
    ensures
        path@ == repo_dir(hub_cache@, model_id@),
{
    let chars = chars_of(model_id);
    let mut flat = String::new();
    let mut i: usize = 0;
    proof {
        assert(flat@ =~= flat_name(chars@.take(0)));
    }
    while i < chars.len()
        invariant
            i <= chars@.len(),
            flat@ == flat_name(chars@.take(i as int)),
        decreases chars@.len() - i,
    {
        proof {
            assert(chars@.take(i + 1).drop_last() =~= chars@.take(i as int));
            assert(chars@.take(i + 1).last() == chars@[i as int]);
        }
        if chars[i] == '/' {
            flat.append("--");
        } else {
            flat.push(chars[i]);
        }
        i = i + 1;
    }
    proof {
        assert(chars@.take(i as int) =~= chars@);
    }
    let name = cat2("models--", flat.as_str());
    join_path(hub_cache, name.as_str())
}

/// What the cache of the hub holds of one model: the text of `refs/main`, the names under
/// `snapshots`, if that can be listed, and which of the files that were asked for exist.
#[derive(Debug)]
pub struct HubCacheListing {
    pub refs_main: Option<String>,
    pub snapshot_names: Option<Vec<String>>,
    pub files: Vec<String>,
}

/// Whether a file is among those that exist.
pub open spec fn has_file(files: Seq<String>, path: Seq<char>) -> bool {
    exists|i: int| 0 <= i < files.len() && (#[trigger] files[i])@ == path
}

/// Whether a file is among those that exist.
pub fn file_exists(files: &Vec<String>, path: &str) -> (present: bool)
    ensures
        present == has_file(files@, path@),
{
    let mut i: usize = 0;
    while i < files.len()
        invariant
            i <= files@.len(),
            forall|j: int| 0 <= j < i ==> (#[trigger] files@[j])@ != path@,
        decreases files@.len() - i,
    {
        if crate::text::same_text(files[i].as_str(), path) {
            return true;
        }
        i = i + 1;
    }
    false
}

/// The last, in the order of paths, of the first `n` snapshots that have the required file.
pub open spec fn last_snapshot(
    snapshots: Seq<char>,
    names: Seq<String>,
    files: Seq<String>,
    required_file: Seq<char>,
    n: nat,
) -> Option<Seq<char>>
    decreases n,
{
    if n == 0 || n > names.len() {
        None
    } else {
        let earlier = last_snapshot(snapshots, names, files, required_file, (n - 1) as nat);
        let path = joined(snapshots, names[n - 1]@);
        if !has_file(files, joined(path, required_file)) {
            earlier
        } else {
            match earlier {
                Some(best) => if parts_before(path_parts(path), path_parts(best)) {
                    earlier
                } else {
                    Some(path)
                },
                None => Some(path),
            }
        }
    }
}

/// The snapshot of a model in the cache of the hub that has the required file: the one that
/// `refs/main` names, or else the last in the order of paths.
pub open spec fn snapshot_in_cache(
    model_id: Seq<char>,
    hub_cache: Seq<char>,
    required_file: Seq<char>,
    listing: HubCacheListing,
) -> Option<Seq<char>> {
    let snapshots = joined(repo_dir(hub_cache, model_id), "snapshots"@);
    let main = match listing.refs_main {
        Some(commit) => Some(joined(snapshots, trimmed(commit@))),
        None => None,
    };
    if !names_hub_model(model_id) {
        None
    } else if main is Some && has_file(listing.files@, joined(main->0, required_file)) {
        main
    } else {
        match listing.snapshot_names {
            Some(names) => last_snapshot(
                snapshots,
                names@,
                listing.files@,
                required_file,
                names@.len(),
            ),
            None => None,
        }
    }
}

/// Any snapshot that the cache is searched for has the required file.
pub proof fn found_snapshots_have_the_file(
    model_id: Seq<char>,
    hub_cache: Seq<char>,
    required_file: Seq<char>,
    listing: HubCacheListing,
)
    requires
        snapshot_in_cache(model_id, hub_cache, required_file, listing) is Some,
    ensures
        has_file(
            listing.files@,
            joined(
                snapshot_in_cache(model_id, hub_cache, required_file, listing)->0,
                required_file,
            ),
        ),
{
    if listing.snapshot_names is Some {
        let names = listing.snapshot_names->0@;
        let snapshots = joined(repo_dir(hub_cache, model_id), "snapshots"@);
        lemma_last_snapshot(snapshots, names, listing.files@, required_file, names.len());
    }
}

proof fn lemma_last_snapshot(
    snapshots: Seq<char>,
    names: Seq<String>,
    files: Seq<String>,
    required_file: Seq<char>,
    n: nat,
)
    requires
        n <= names.len(),
    ensures
        match last_snapshot(snapshots, names, files, required_file, n) {
            Some(path) => has_file(files, joined(path, required_file)),
            None => forall|i: int|
                0 <= i < n ==> !has_file(
                    files,
                    joined(joined(snapshots, (#[trigger] names[i])@), required_file),
                ),
        },
    decreases n,
{
    if n > 0 {
        lemma_last_snapshot(snapshots, names, files, required_file, (n - 1) as nat);
    }
}

/// The names of the files whose presence decides where a model lies in the cache of the hub.
pub fn snapshot_candidates(
    model_id: &str,
    hub_cache: &str,
    required_file: &str,
    refs_main: &Option<String>,
    snapshot_names: &Option<Vec<String>>,
) -> (candidates: Vec<String>)
    ensures
        ({
            let snapshots = joined(repo_dir(hub_cache@, model_id@), "snapshots"@);
            forall|path: Seq<char>| #[trigger]
                has_file(candidates@, path) <==> (refs_main is Some && path == joined(
                    joined(snapshots, trimmed(refs_main->0@)),
                    required_file@,
                )) || (snapshot_names is Some && exists|i: int|
                    0 <= i < snapshot_names->0@.len() && path == joined(
                        joined(snapshots, (#[trigger] snapshot_names->0@[i])@),
                        required_file@,
                    ))
        }),
{
    let repo = repo_cache_dir(hub_cache, model_id);
    let snapshots = join_path(repo.as_str(), "snapshots");
    let mut candidates: Vec<String> = Vec::new();
    if let Some(commit) = refs_main {
        let trimmed_commit = trim_text(commit.as_str());
        let snapshot = join_path(snapshots.as_str(), trimmed_commit.as_str());
        candidates.push(join_path(snapshot.as_str(), required_file));
    }
    let ghost first = candidates@;
    proof {
        assert forall|path: Seq<char>| #[trigger] has_file(first, path) <==> (refs_main is Some
            && path == joined(joined(snapshots@, trimmed(refs_main->0@)), required_file@)) by {
            if refs_main is Some {
                assert(first[0]@ == joined(
                    joined(snapshots@, trimmed(refs_main->0@)),
                    required_file@,
                ));
            }
        }
    }
    if let Some(names) = snapshot_names {
        let mut i: usize = 0;
        while i < names.len()
            invariant
                i <= names@.len(),
                *snapshot_names == Some(*names),
                forall|path: Seq<char>| #[trigger]
                    has_file(candidates@, path) <==> has_file(first, path) || exists|j: int|
                        0 <= j < i && path == joined(
                            joined(snapshots@, (#[trigger] names@[j])@),
                            required_file@,
                        ),
            decreases names@.len() - i,
        {
            let ghost before = candidates@;
            let snapshot = join_path(snapshots.as_str(), names[i].as_str());
            candidates.push(join_path(snapshot.as_str(), required_file));
            i = i + 1;
            proof {
                let added = joined(joined(snapshots@, names@[i - 1]@), required_file@);
                assert forall|path: Seq<char>| #[trigger] has_file(candidates@, path) <==> has_file(
                    first,
                    path,
                ) || exists|j: int|
                    0 <= j < i && path == joined(
                        joined(snapshots@, (#[trigger] names@[j])@),
                        required_file@,
                    ) by {
                    assert(has_file(candidates@, path) == (has_file(before, path) || path
                        == added)) by {
                        if has_file(before, path) {
                            let k = choose|k: int|
                                0 <= k < before.len() && (#[trigger] before[k])@ == path;
                            assert(candidates@[k]@ == path);
                        }
                        if path == added {
                            assert(candidates@[before.len() as int]@ == path);
                        }
                        if has_file(candidates@, path) {
                            let k = choose|k: int|
                                0 <= k < candidates@.len() && (#[trigger] candidates@[k])@ == path;
                            if k < before.len() {
                                assert(before[k]@ == path);
                            }
                        }
                    }
                    if path == added {
                        assert(names@[i - 1]@ == names@[i - 1]@);
                    }
                }
            }
        }
    }
    candidates
}

/// Where a model with the required file lies in the cache of the hub.
pub fn resolve_model_path_from_hf_cache_with_required_file(
    model_id: &str,
    hub_cache: &str,
    required_file: &str,
    listing: &HubCacheListing,
) -> (path: Option<String>)
    ensures
        match path {
            Some(found) => snapshot_in_cache(model_id@, hub_cache@, required_file@, *listing)
                == Some(found@),
            None => snapshot_in_cache(model_id@, hub_cache@, required_file@, *listing) is None,
        },
{
    let chars = chars_of(model_id);
    if !can_name_hub_model(&chars) {
        return None;
    }
    let repo = repo_cache_dir(hub_cache, model_id);
    let snapshots = join_path(repo.as_str(), "snapshots");
    if let Some(commit) = &listing.refs_main {
        let trimmed_commit = trim_text(commit.as_str());
        let snapshot = join_path(snapshots.as_str(), trimmed_commit.as_str());
        let file = join_path(snapshot.as_str(), required_file);
        if file_exists(&listing.files, file.as_str()) {
            return Some(snapshot);
        }
    }
    match &listing.snapshot_names {
        Some(names) => {
            let mut best: Option<String> = None;
            let mut i: usize = 0;
            while i < names.len()
                invariant
                    i <= names@.len(),
                    match best {
                        Some(path) => last_snapshot(
                            snapshots@,
                            names@,
                            listing.files@,
                            required_file@,
                            i as nat,
                        ) == Some(path@),
                        None => last_snapshot(
                            snapshots@,
                            names@,
                            listing.files@,
                            required_file@,
                            i as nat,
                        ) is None,
                    },
                decreases names@.len() - i,
            {
                let path = join_path(snapshots.as_str(), names[i].as_str());
                let file = join_path(path.as_str(), required_file);
                if file_exists(&listing.files, file.as_str()) {
                    let later = match &best {
                        Some(other) => {
                            let key = path_key(path.as_str());
                            let other_key = path_key(other.as_str());
                            proof {
                                parts_order_total(key.said(), other_key.said());
                            }
                            key.stands_to(&other_key) != TextOrder::Before
                        },
                        None => true,
                    };
                    if later {
                        best = Some(path);
                    }
                }
                i = i + 1;
            }
            best
        },
        None => None,
    }
}

/// Where a model lies in the cache of the hub: the snapshot that has a `config.json`.
pub fn resolve_model_path_from_hf_cache(
    model_id: &str,
    hub_cache: &str,
    listing: &HubCacheListing,
) -> (path: Option<String>)
    ensures
        match path {
            Some(found) => snapshot_in_cache(model_id@, hub_cache@, "config.json"@, *listing)
                == Some(found@),
            None => snapshot_in_cache(model_id@, hub_cache@, "config.json"@, *listing) is None,
        },
{
    resolve_model_path_from_hf_cache_with_required_file(
        model_id,
        hub_cache,
        "config.json",
        listing,
    )
}

/// Where a model lies: a directory of that name, or else its place in the cache of the hub
/// where there is one, or else the name itself.
pub fn resolve_model_path(
    path: &str,
    is_dir: bool,
    hub: Option<(&str, &HubCacheListing)>,
) -> (resolved: String)
    ensures
        resolved@ == match hub {
            Some(cache) => match snapshot_in_cache(path@, cache.0@, "config.json"@, *cache.1) {
                Some(found) => if is_dir {
                    path@
                } else {
                    found
                },
                None => path@,
            },
            None => path@,
        },
{
    if is_dir {
        return path.to_owned();
    }
    match hub {
        Some((hub_cache, listing)) => match resolve_model_path_from_hf_cache(
            path,
            hub_cache,
            listing,
        ) {
            Some(found) => found,
            None => path.to_owned(),
        },
        None => path.to_owned(),
    }
}

/// The directory of the cache of the hub, from the values of `HUGGINGFACE_HUB_CACHE`, `HF_HOME`
/// and `HOME`; the first that is set counts.
pub fn default_hf_hub_cache(
    hub_cache: Option<&str>,
    hf_home: Option<&str>,
    home: Option<&str>,
) -> (path: Option<String>)
    ensures
        match path {
            Some(found) => found@ == if hub_cache is Some {
                hub_cache->0@
            } else if hf_home is Some {
                joined(hf_home->0@, "hub"@)
            } else {
                joined(joined(joined(home->0@, ".cache"@), "huggingface"@), "hub"@)
            },
            None => true,
        },
        path is None <==> hub_cache is None && hf_home is None && home is None,
{
    if let Some(path) = hub_cache {
        return Some(path.to_owned());
    }
    if let Some(path) = hf_home {
        return Some(join_path(path, "hub"));
    }
    match home {
        Some(path) => {
            let cache = join_path(path, ".cache");
            let owner = join_path(cache.as_str(), "huggingface");
            Some(join_path(owner.as_str(), "hub"))
        },
        None => None,
    }
}

} // verus!
