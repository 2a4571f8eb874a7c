//! The shards of a model and which tensor lies in which.
use vstd::prelude::*;
use vstd::string::*;

use crate::artifact_error::{ArtifactFault, ModelArtifactError};
use crate::json::{Json, JsonView};
use crate::json_text::{parse_json, parsed};
use crate::listing::{
    in_key_order, key_order_is_unique, lemma_viewed_ascending, ordered_list_is_sorted, sorted,
    value_of_key,
};
use crate::order::{ascending, ascending_pairs_are_the_map, map_of, text_lt, TextMap};
use crate::ordered_map::{in_order, ordered_pairs_are_the_map, OrderedKey, OrderedMap};
use crate::path_parts::{parts_before, path_key, path_parts, same_path, Part, PathKey};
use crate::paths::{file_exists, has_file, join_path, joined};
use crate::safetensors::{known_length, SafetensorsHeader, ShardHeader};
use crate::text::{cat3, chars_of, matches_at, stands_at, texts};

verus! {

/// What came of reading the header of a shard, and the length of its file.
#[derive(Debug, PartialEq, Eq)]
pub enum ShardRead {
    Loaded { header: SafetensorsHeader, file_len: Result<u64, String> },
    Failed(ModelArtifactError),
}

/// What a [`ShardRead`] says.
pub enum ReadShard {
    Loaded { header: ShardHeader, file_len: Result<u64, Seq<char>> },
    Failed(ArtifactFault),
}

impl View for ShardRead {
    type V = ReadShard;

    open spec fn view(&self) -> ReadShard {
        match *self {
            ShardRead::Loaded { header, file_len } => ReadShard::Loaded {
                header: header@,
                file_len: known_length(file_len),
            },
            ShardRead::Failed(error) => ReadShard::Failed(error@),
        }
    }
}

/// What came of reading each shard of a model.
#[derive(Debug, PartialEq, Eq)]
pub struct ShardReads {
    reads: Vec<(String, ShardRead)>,
}

impl View for ShardReads {
    type V = Seq<(Seq<char>, ReadShard)>;

    closed spec fn view(&self) -> Seq<(Seq<char>, ReadShard)> {
        self.reads@.map_values(|read: (String, ShardRead)| (read.0@, read.1@))
    }
}

impl ReadShard {
    /// The same, of the same file by another path.
    pub open spec fn at(self, path: Seq<char>) -> ReadShard {
        match self {
            ReadShard::Loaded { header, file_len } => self,
            ReadShard::Failed(fault) => ReadShard::Failed(fault.at(path)),
        }
    }
}

/// What came of reading a shard, from `i` on; the first path with the parts of its path counts, and
/// a failure is told of the path that is asked for.
pub open spec fn read_from(
    reads: Seq<(Seq<char>, ReadShard)>,
    path: Seq<char>,
    i: nat,
) -> Option<ReadShard>
    decreases reads.len() - i,
{
    if i >= reads.len() {
        None
    } else if path_parts(reads[i as int].0) == path_parts(path) {
        Some(reads[i as int].1.at(path))
    } else {
        read_from(reads, path, i + 1)
    }
}

/// What came of reading a shard.
pub open spec fn read_of(reads: Seq<(Seq<char>, ReadShard)>, path: Seq<char>) -> Option<ReadShard> {
    read_from(reads, path, 0)
}

impl ShardReads {
    /// Every header that was read is in order.
    pub closed spec fn wf(self) -> bool {
        forall|i: int|
            0 <= i < self.reads@.len() ==> match (#[trigger] self.reads@[i]).1 {
                ShardRead::Loaded { header, file_len } => header.wf(),
                ShardRead::Failed(_) => true,
            }
    }

    /// No shard has been read.
    pub fn new() -> (reads: ShardReads)
        ensures
            reads.wf(),
            reads@ == Seq::<(Seq<char>, ReadShard)>::empty(),
    {
        let reads = ShardReads { reads: Vec::new() };
        proof {
            assert(reads@ =~= Seq::empty());
        }
        reads
    }

    /// Adds what came of reading a shard.
    pub fn push(&mut self, path: String, read: ShardRead)
        requires
            old(self).wf(),
            match read {
                ShardRead::Loaded { header, file_len } => header.wf(),
                ShardRead::Failed(_) => true,
            },
        ensures
            final(self).wf(),
            final(self)@ == old(self)@.push((path@, read@)),
    {
        let ghost before = self.reads@;
        self.reads.push((path, read));
        proof {
            assert(self@ =~= old(self)@.push((path@, read@)));
            assert forall|i: int| 0 <= i < self.reads@.len() implies match (
            #[trigger] self.reads@[i]).1 {
                ShardRead::Loaded { header, file_len } => header.wf(),
                ShardRead::Failed(_) => true,
            } by {
                if i < before.len() {
                    assert(self.reads@[i] == before[i]);
                }
            }
        }
    }

    /// What came of reading one of the shards: its header and the length of its file, or the error.
    pub fn read(&self, path: &str) -> (read: Result<
        (&SafetensorsHeader, &Result<u64, String>),
        ModelArtifactError,
    >)
        requires
            self.wf(),
            read_of(self@, path@) is Some,
        ensures
            match read {
                Ok((header, file_len)) => header.wf() && read_of(self@, path@) == Some(
                    ReadShard::Loaded { header: header@, file_len: known_length(*file_len) },
                ),
                Err(error) => read_of(self@, path@) == Some(ReadShard::Failed(error@)),
            },
    {
        let total: usize = self.reads.len();
        let mut i: usize = 0;
        while !same_path(self.reads[i].0.as_str(), path)
            invariant
                i < total,
                total == self.reads@.len(),
                self.wf(),
                read_of(self@, path@) is Some,
                read_of(self@, path@) == read_from(self@, path@, i as nat),
            decreases self.reads@.len() - i,
        {
            proof {
                assert(self@[i as int] == (self.reads@[i as int].0@, self.reads@[i as int].1@));
                assert(read_from(self@, path@, self@.len()) is None);
            }
            i = i + 1;
        }
        proof {
            assert(self@[i as int] == (self.reads@[i as int].0@, self.reads@[i as int].1@));
        }
        match &self.reads[i].1 {
            ShardRead::Loaded { header, file_len } => Ok((header, file_len)),
            ShardRead::Failed(error) => Err(error.copy_at(path)),
        }
    }

    fn knows(&self, path: &str) -> (known: bool)
        requires
            self.wf(),
        ensures
            known == (read_of(self@, path@) is Some),
    {
        let mut i: usize = 0;
        while i < self.reads.len()
            invariant
                i <= self.reads@.len(),
                read_of(self@, path@) == read_from(self@, path@, i as nat),
            decreases self.reads@.len() - i,
        {
            proof {
                assert(self@[i as int] == (self.reads@[i as int].0@, self.reads@[i as int].1@));
            }
            if same_path(self.reads[i].0.as_str(), path) {
                return true;
            }
            i = i + 1;
        }
        false
    }

    /// Whether it is known of every shard what came of reading it.
    pub fn covers(&self, paths: &Vec<String>) -> (covered: bool)
        requires
            self.wf(),
        ensures
            covered == covers(self@, texts(paths@)),
    {
        let mut i: usize = 0;
        while i < paths.len()
            invariant
                i <= paths@.len(),
                self.wf(),
                forall|j: int|
                    0 <= j < i ==> read_of(self@, #[trigger] texts(paths@)[j]) is Some,
            decreases paths@.len() - i,
        {
            proof {
                assert(texts(paths@)[i as int] == paths@[i as int]@);
            }
            if !self.knows(paths[i].as_str()) {
                return false;
            }
            i = i + 1;
        }
        true
    }
}

/// Whether it is known of every shard what came of reading it.
pub open spec fn covers(reads: Seq<(Seq<char>, ReadShard)>, paths: Seq<Seq<char>>) -> bool {
    forall|i: int| 0 <= i < paths.len() ==> read_of(reads, #[trigger] paths[i]) is Some
}

/// Whether a path is listed, by its parts.
pub open spec fn lists_path(paths: Seq<Seq<char>>, path: Seq<char>) -> bool {
    exists|i: int| 0 <= i < paths.len() && path_parts(#[trigger] paths[i]) == path_parts(path)
}

proof fn lemma_read_by_parts(
    reads: Seq<(Seq<char>, ReadShard)>,
    a: Seq<char>,
    b: Seq<char>,
    i: nat,
)
    requires
        path_parts(a) == path_parts(b),
    ensures
        read_from(reads, a, i) is Some == read_from(reads, b, i) is Some,
    decreases reads.len() - i,
{
    if i < reads.len() {
        lemma_read_by_parts(reads, a, b, i + 1);
    }
}

/// Where it is known of every shard what came of reading it, it is known by every path that has the
/// parts of a shard's path.
pub proof fn known_shards_are_covered(
    reads: Seq<(Seq<char>, ReadShard)>,
    paths: Seq<Seq<char>>,
    path: Seq<char>,
)
    requires
        covers(reads, paths),
        lists_path(paths, path),
    ensures
        read_of(reads, path) is Some,
{
    let i = choose|i: int|
        0 <= i < paths.len() && path_parts(#[trigger] paths[i]) == path_parts(path);
    lemma_read_by_parts(reads, paths[i], path, 0);
}

/// The shards of a model and which tensor lies in which.
#[derive(Clone, Debug, PartialEq, Eq)]
pub struct SafetensorsManifest {
    index_path: String,
    tensor_names: Vec<String>,
    tensor_to_shard: TextMap<String>,
    shard_paths: Vec<String>,
}

/// What a [`SafetensorsManifest`] says, the tensors in the order of their names.
pub struct Manifest {
    pub index_path: Seq<char>,
    pub tensor_to_shard: Seq<(Seq<char>, Seq<char>)>,
    pub shard_paths: Seq<Seq<char>>,
}

impl View for SafetensorsManifest {
    type V = Manifest;

    closed spec fn view(&self) -> Manifest {
        Manifest {
            index_path: self.index_path@,
            tensor_to_shard: self.tensor_to_shard.listed(),
            shard_paths: texts(self.shard_paths@),
        }
    }
}

/// The paths by their parts; of two with the same parts the first counts.
pub open spec fn paths_by_parts(paths: Seq<Seq<char>>) -> Map<Seq<Part>, Seq<char>>
    decreases paths.len(),
{
    if paths.len() == 0 {
        Map::empty()
    } else {
        let before = paths_by_parts(paths.drop_last());
        if before.dom().contains(path_parts(paths.last())) {
            before
        } else {
            before.insert(path_parts(paths.last()), paths.last())
        }
    }
}

/// The paths in the order of their parts; of several with the same parts the first.
pub open spec fn sorted_paths(paths: Seq<Seq<char>>) -> Seq<Seq<char>> {
    paths_of(sorted::<PathKey, Seq<char>>(paths_by_parts(paths)))
}

/// The paths of a list by parts.
pub open spec fn paths_of(pairs: Seq<(Seq<Part>, Seq<char>)>) -> Seq<Seq<char>> {
    pairs.map_values(|pair: (Seq<Part>, Seq<char>)| pair.1)
}

/// Where the tensors of an index lie: a path for every entry; each must be a file.
pub open spec fn shards_of(
    model_path: Seq<char>,
    index_path: Seq<char>,
    entries: Seq<(Seq<char>, JsonView)>,
    files: Seq<String>,
) -> Result<Seq<(Seq<char>, Seq<char>)>, ArtifactFault>
    decreases entries.len(),
{
    if entries.len() == 0 {
        Ok(Seq::empty())
    } else {
        let (name, shard) = entries.last();
        match shards_of(model_path, index_path, entries.drop_last(), files) {
            Err(fault) => Err(fault),
            Ok(before) => match shard.as_text() {
                None => Err(
                    ArtifactFault::InvalidSafetensorsIndex {
                        path: index_path,
                        message: "weight_map entry "@ + name + " is not a string"@,
                    },
                ),
                Some(shard_name) => {
                    let path = joined(model_path, shard_name);
                    if has_file(files, path) {
                        Ok(before.push((name, path)))
                    } else {
                        Err(ArtifactFault::MissingWeightShard { path })
                    }
                },
            },
        }
    }
}

/// The second parts of pairs.
pub open spec fn seconds(pairs: Seq<(Seq<char>, Seq<char>)>) -> Seq<Seq<char>> {
    pairs.map_values(|pair: (Seq<char>, Seq<char>)| pair.1)
}

/// The path of the index of a model.
pub open spec fn index_of(model_path: Seq<char>) -> Seq<char> {
    joined(model_path, "model.safetensors.index.json"@)
}

/// What an index says, given which of the files exist.
pub open spec fn manifest_of(
    model_path: Seq<char>,
    document: JsonView,
    files: Seq<String>,
) -> Result<Manifest, ArtifactFault> {
    let index_path = index_of(model_path);
    match document.get("weight_map"@) {
        Some(JsonView::Object(weight_map)) => {
            let entries = in_key_order(weight_map);
            if entries.len() == 0 {
                Err(
                    ArtifactFault::InvalidSafetensorsIndex {
                        path: index_path,
                        message: "weight_map is empty"@,
                    },
                )
            } else {
                match shards_of(model_path, index_path, entries, files) {
                    Ok(shards) => Ok(
                        Manifest {
                            index_path,
                            tensor_to_shard: shards,
                            shard_paths: sorted_paths(seconds(shards)),
                        },
                    ),
                    Err(fault) => Err(fault),
                }
            }
        },
        _ => Err(
            ArtifactFault::InvalidSafetensorsIndex {
                path: index_path,
                message: "missing object field weight_map"@,
            },
        ),
    }
}

/// What the text of an index says.
pub open spec fn manifest_in(
    model_path: Seq<char>,
    text: Seq<u8>,
    files: Seq<String>,
) -> Result<Manifest, ArtifactFault> {
    match parsed(text) {
        Ok(document) => manifest_of(model_path, document, files),
        Err(message) => Err(
            ArtifactFault::InvalidSafetensorsIndex { path: index_of(model_path), message },
        ),
    }
}

/// Whether a file is a shard, by its name.
pub open spec fn is_shard_name(name: Seq<char>) -> bool {
    name.len() > ".safetensors"@.len() && stands_at(
        name,
        ".safetensors"@,
        name.len() - ".safetensors"@.len(),
    )
}

/// The paths of the shards among the files of a directory.
pub open spec fn shards_among(model_path: Seq<char>, names: Seq<Seq<char>>) -> Seq<Seq<char>>
    decreases names.len(),
{
    if names.len() == 0 {
        Seq::empty()
    } else {
        let before = shards_among(model_path, names.drop_last());
        if is_shard_name(names.last()) {
            before.push(joined(model_path, names.last()))
        } else {
            before
        }
    }
}

/// What is known of a model without an index: its shards.
pub open spec fn manifest_without_index(model_path: Seq<char>, names: Seq<Seq<char>>) -> Result<
    Manifest,
    ArtifactFault,
> {
    let shard_paths = sorted_paths(shards_among(model_path, names));
    if shard_paths.len() == 0 {
        Err(ArtifactFault::NoSafetensorsWeights { path: model_path })
    } else {
        Ok(
            Manifest {
                index_path: index_of(model_path),
                tensor_to_shard: Seq::empty(),
                shard_paths,
            },
        )
    }
}

proof fn lemma_shards_fault_stays(
    model_path: Seq<char>,
    index_path: Seq<char>,
    entries: Seq<(Seq<char>, JsonView)>,
    files: Seq<String>,
    n: int,
)
    requires
        0 <= n <= entries.len(),
        shards_of(model_path, index_path, entries.take(n), files) is Err,
    ensures
        shards_of(model_path, index_path, entries, files) == shards_of(
            model_path,
            index_path,
            entries.take(n),
            files,
        ),
    decreases entries.len() - n,
{
    if n < entries.len() {
        assert(entries.take(n + 1).drop_last() =~= entries.take(n));
        lemma_shards_fault_stays(model_path, index_path, entries, files, n + 1);
    } else {
        assert(entries.take(n) =~= entries);
    }
}

proof fn lemma_shards_have_the_names(
    model_path: Seq<char>,
    index_path: Seq<char>,
    entries: Seq<(Seq<char>, JsonView)>,
    files: Seq<String>,
)
    requires
        shards_of(model_path, index_path, entries, files) is Ok,
    ensures
        ({
            let shards = shards_of(model_path, index_path, entries, files)->Ok_0;
            &&& shards.len() == entries.len()
            &&& forall|i: int| 0 <= i < entries.len() ==> (#[trigger] shards[i]).0 == entries[i].0
            &&& ascending(entries) ==> ascending(shards)
        }),
    decreases entries.len(),
{
    if entries.len() > 0 {
        let rest = entries.drop_last();
        lemma_shards_have_the_names(model_path, index_path, rest, files);
        let before = shards_of(model_path, index_path, rest, files)->Ok_0;
        let shards = shards_of(model_path, index_path, entries, files)->Ok_0;
        assert forall|i: int| 0 <= i < entries.len() implies (#[trigger] shards[i]).0
            == entries[i].0 by {
            if i < rest.len() {
                assert(shards[i] == before[i]);
                assert(rest[i] == entries[i]);
            }
        }
        if ascending(entries) {
            assert forall|i: int, j: int| 0 <= i < j < shards.len() implies text_lt(
                #[trigger] shards[i].0,
                #[trigger] shards[j].0,
            ) by {
                assert(text_lt(entries[i].0, entries[j].0));
            }
        }
    }
}

proof fn lemma_path_is_listed(paths: Seq<Seq<char>>, i: int)
    requires
        0 <= i < paths.len(),
    ensures
        paths_by_parts(paths).dom().contains(path_parts(paths[i])),
    decreases paths.len(),
{
    let rest = paths.drop_last();
    if i < rest.len() {
        lemma_path_is_listed(rest, i);
        assert(rest[i] == paths[i]);
    }
}

/// Whether `i` is the place of the first path with these parts.
pub open spec fn first_with_parts(paths: Seq<Seq<char>>, parts: Seq<Part>, i: int) -> bool {
    &&& 0 <= i < paths.len()
    &&& path_parts(paths[i]) == parts
    &&& forall|j: int| 0 <= j < i ==> path_parts(#[trigger] paths[j]) != parts
}

proof fn lemma_listed_path_is_first(paths: Seq<Seq<char>>, parts: Seq<Part>) -> (i: int)
    requires
        paths_by_parts(paths).dom().contains(parts),
    ensures
        first_with_parts(paths, parts, i),
        paths[i] == paths_by_parts(paths)[parts],
    decreases paths.len(),
{
    let rest = paths.drop_last();
    if paths_by_parts(rest).dom().contains(parts) {
        let i = lemma_listed_path_is_first(rest, parts);
        assert forall|j: int| 0 <= j < i implies path_parts(#[trigger] paths[j]) != parts by {
            assert(rest[j] == paths[j]);
        }
        assert(rest[i] == paths[i]);
        i
    } else {
        assert forall|j: int| 0 <= j < paths.len() - 1 implies path_parts(#[trigger] paths[j])
            != parts by {
            lemma_path_is_listed(rest, j);
            assert(rest[j] == paths[j]);
        }
        paths.len() - 1
    }
}

/// A list of paths, put in order, ascends strictly by the parts of the paths, and holds of every
/// path the first that has its parts, and no others.
pub proof fn paths_are_put_in_order(paths: Seq<Seq<char>>, pairs: Seq<(Seq<Part>, Seq<char>)>)
    requires
        in_order::<PathKey, Seq<char>>(pairs),
        map_of(pairs) == paths_by_parts(paths),
    ensures
        sorted_paths(paths) == paths_of(pairs),
        forall|i: int, j: int|
            0 <= i < j < sorted_paths(paths).len() ==> parts_before(
                path_parts(#[trigger] sorted_paths(paths)[i]),
                path_parts(#[trigger] sorted_paths(paths)[j]),
            ),
        forall|i: int|
            0 <= i < sorted_paths(paths).len() ==> exists|k: int|
                first_with_parts(paths, path_parts(#[trigger] sorted_paths(paths)[i]), k)
                    && #[trigger] paths[k] == sorted_paths(paths)[i],
        forall|k: int|
            0 <= k < paths.len() ==> lists_path(sorted_paths(paths), #[trigger] paths[k]),
{
    ordered_list_is_sorted::<PathKey, Seq<char>>(pairs);
    ordered_pairs_are_the_map::<PathKey, Seq<char>>(pairs);
    let list = sorted_paths(paths);
    assert(list =~= paths_of(pairs));
    assert forall|i: int| 0 <= i < pairs.len() implies (#[trigger] pairs[i]).0 == path_parts(
        pairs[i].1,
    ) by {
        lemma_listed_path_is_first(paths, pairs[i].0);
    }
    assert forall|i: int, j: int| 0 <= i < j < list.len() implies parts_before(
        path_parts(#[trigger] list[i]),
        path_parts(#[trigger] list[j]),
    ) by {
        assert(PathKey::before(pairs[i].0, pairs[j].0));
    }
    assert forall|i: int| 0 <= i < list.len() implies exists|k: int|
        first_with_parts(paths, path_parts(#[trigger] list[i]), k) && #[trigger] paths[k]
            == list[i] by {
        let k = lemma_listed_path_is_first(paths, pairs[i].0);
        assert(first_with_parts(paths, path_parts(list[i]), k) && paths[k] == list[i]);
    }
    assert forall|k: int| 0 <= k < paths.len() implies lists_path(list, #[trigger] paths[k]) by {
        lemma_path_is_listed(paths, k);
        let i = choose|i: int|
            0 <= i < pairs.len() && (#[trigger] pairs[i]).0 == path_parts(paths[k]);
        assert(path_parts(list[i]) == path_parts(paths[k]));
    }
}

/// The paths in the order of their parts; of several with the same parts the first.
fn sort_paths(paths: &Vec<String>) -> (list: Vec<String>)
    ensures
        texts(list@) == sorted_paths(texts(paths@)),
        forall|k: int|
            0 <= k < paths@.len() ==> lists_path(texts(list@), #[trigger] texts(paths@)[k]),
{
    let ghost all = texts(paths@);
    let mut map: OrderedMap<PathKey, String> = OrderedMap::new();
    let mut i: usize = 0;
    proof {
        assert(map.listed() =~= Seq::<(Seq<Part>, Seq<char>)>::empty());
        assert(paths_by_parts(all.take(0)) =~= Map::empty());
        map.lemma_listed();
    }
    while i < paths.len()
        invariant
            i <= paths@.len(),
            all == texts(paths@),
            map.wf(),
            in_order::<PathKey, Seq<char>>(map.listed()),
            map_of(map.listed()) == paths_by_parts(all.take(i as int)),
        decreases paths@.len() - i,
    {
        proof {
            assert(all[i as int] == paths@[i as int]@);
            assert(all.take(i + 1).drop_last() =~= all.take(i as int));
            assert(all.take(i + 1).last() == all[i as int]);
        }
        let key = path_key(paths[i].as_str());
        if map.lookup(&key).is_none() {
            map.set(key, paths[i].clone());
        }
        i = i + 1;
    }
    proof {
        assert(all.take(i as int) =~= all);
        paths_are_put_in_order(all, map.listed());
    }
    let mut list: Vec<String> = Vec::new();
    let total: usize = map.len();
    let mut k: usize = 0;
    while k < total
        invariant
            k <= total,
            total == map.pairs().len(),
            list@.len() == k,
            forall|j: int| 0 <= j < k ==> (#[trigger] list@[j])@ == map.listed()[j].1,
        decreases total - k,
    {
        list.push(map.value_at(k).clone());
        k = k + 1;
    }
    proof {
        assert(texts(list@) =~= paths_of(map.listed()));
    }
    list
}

/// Whether an index says that some tensor lies at a path.
pub open spec fn names_shard(model_path: Seq<char>, document: JsonView, path: Seq<char>) -> bool {
    document.get("weight_map"@) matches Some(JsonView::Object(weight_map)) && exists|name: Seq<char>|
        #[trigger] weight_map.dom().contains(name) && weight_map[name].as_text() is Some && path
            == joined(model_path, weight_map[name].as_text()->0)
}

/// The paths at which an index says that tensors lie; whether they are files decides what the index
/// is worth. A text that is no index names none.
pub fn index_candidates(model_path: &str, text: &Vec<u8>) -> (candidates: Vec<String>)
    ensures
        forall|path: Seq<char>| #[trigger]
            has_file(candidates@, path) <==> parsed(text@) is Ok && names_shard(
                model_path@,
                parsed(text@)->Ok_0,
                path,
            ),
{
    let mut candidates: Vec<String> = Vec::new();
    let document = match parse_json(text.as_slice()) {
        Ok(document) => document,
        Err(_) => {
            return candidates;
        },
    };
    let entries = match document.get("weight_map") {
        Some(value) => match value.sorted_members() {
            Some(entries) => entries,
            None => {
                return candidates;
            },
        },
        None => {
            return candidates;
        },
    };
    let ghost all = entries.listed();
    let total: usize = entries.len();
    let mut i: usize = 0;
    while i < total
        invariant
            i <= total,
            total == entries.pairs().len(),
            all == entries.listed(),
            forall|path: Seq<char>| #[trigger]
                has_file(candidates@, path) <==> exists|k: int|
                    0 <= k < i && (#[trigger] all[k]).1.as_text() is Some && path == joined(
                        model_path@,
                        all[k].1.as_text()->0,
                    ),
        decreases total - i,
    {
        let ghost before = candidates@;
        let ghost n = i as int;
        let value = *entries.value_at(i);
        proof {
            assert(all[n].1 == value@);
        }
        if let Some(shard_name) = value.as_str() {
            candidates.push(join_path(model_path, shard_name));
        }
        i = i + 1;
        proof {
            assert forall|path: Seq<char>| #[trigger] has_file(candidates@, path) <==> exists|k: int|
                0 <= k < i && (#[trigger] all[k]).1.as_text() is Some && path == joined(
                    model_path@,
                    all[k].1.as_text()->0,
                ) by {
                if has_file(before, path) {
                    let k = choose|k: int| 0 <= k < before.len() && (#[trigger] before[k])@ == path;
                    assert(candidates@[k]@ == path);
                }
                if has_file(candidates@, path) {
                    let k = choose|k: int|
                        0 <= k < candidates@.len() && (#[trigger] candidates@[k])@ == path;
                    if k < before.len() {
                        assert(before[k]@ == path);
                        assert(has_file(before, path));
                    } else {
                        assert(all[n].1.as_text() is Some);
                    }
                }
                if all[n].1.as_text() is Some && path == joined(
                    model_path@,
                    all[n].1.as_text()->0,
                ) {
                    assert(candidates@[before.len() as int]@ == path);
                }
            }
        }
    }
    proof {
        let weight_map = document@.get("weight_map"@)->0->Object_0;
        ascending_pairs_are_the_map(all);
        assert forall|path: Seq<char>| #[trigger] has_file(candidates@, path) <==> names_shard(
            model_path@,
            document@,
            path,
        ) by {
            if has_file(candidates@, path) {
                let k = choose|k: int|
                    0 <= k < all.len() && (#[trigger] all[k]).1.as_text() is Some && path == joined(
                        model_path@,
                        all[k].1.as_text()->0,
                    );
                assert(weight_map.dom().contains(all[k].0));
            }
            if names_shard(model_path@, document@, path) {
                let name = choose|name: Seq<char>| #[trigger]
                    weight_map.dom().contains(name) && weight_map[name].as_text() is Some && path
                        == joined(model_path@, weight_map[name].as_text()->0);
                let k = choose|k: int| 0 <= k < all.len() && (#[trigger] all[k]).0 == name;
                assert(all[k].1.as_text() is Some);
            }
        }
    }
    candidates
}

impl SafetensorsManifest {
    /// The names are those that have a shard, and every tensor's shard is among the shards.
    pub closed spec fn wf(self) -> bool {
        &&& self.tensor_to_shard.wf()
        &&& self.tensor_names@.len() == self.tensor_to_shard.pairs().len()
        &&& forall|i: int|
            0 <= i < self.tensor_names@.len() ==> (#[trigger] self.tensor_names@[i])@
                == self.tensor_to_shard.pairs()[i].0
        &&& forall|i: int|
            0 <= i < self@.tensor_to_shard.len() ==> lists_path(
                self@.shard_paths,
                (#[trigger] self@.tensor_to_shard[i]).1,
            )
    }

    /// The names are in order, and every tensor's shard is among the shards.
    pub proof fn lemma_wf(self)
        requires
            self.wf(),
        ensures
            ascending(self@.tensor_to_shard),
            forall|i: int|
                0 <= i < self@.tensor_to_shard.len() ==> lists_path(
                    self@.shard_paths,
                    (#[trigger] self@.tensor_to_shard[i]).1,
                ),
    {
        lemma_viewed_ascending(self.tensor_to_shard.pairs());
    }

    /// What an index says, given which of the files exist.
    pub fn from_index_document(model_path: &str, document: &Json, files: &Vec<String>) -> (manifest:
        Result<SafetensorsManifest, ModelArtifactError>)
        ensures
            match manifest {
                Ok(m) => m.wf() && manifest_of(model_path@, document@, files@) == Ok::<
                    Manifest,
                    ArtifactFault,
                >(m@),
                Err(e) => manifest_of(model_path@, document@, files@) == Err::<
                    Manifest,
                    ArtifactFault,
                >(e@),
            },
    {
        let index_path = join_path(model_path, "model.safetensors.index.json");
        let weight_map = match document.get("weight_map") {
            Some(value) => value.sorted_members(),
            None => None,
        };
        let entries = match weight_map {
            Some(entries) => entries,
            None => {
                return Err(
                    ModelArtifactError::InvalidSafetensorsIndex {
                        path: index_path,
                        message: "missing object field weight_map".to_owned(),
                    },
                );
            },
        };
        let ghost all = entries.listed();
        let total: usize = entries.len();
        if total == 0 {
            return Err(
                ModelArtifactError::InvalidSafetensorsIndex {
                    path: index_path,
                    message: "weight_map is empty".to_owned(),
                },
            );
        }
        let mut tensor_to_shard: TextMap<String> = TextMap::new();
        let mut tensor_names: Vec<String> = Vec::new();
        let mut paths: Vec<String> = Vec::new();
        let mut i: usize = 0;
        let ghost spec_index = index_path@;
        proof {
            assert(tensor_to_shard.listed() =~= Seq::<(Seq<char>, Seq<char>)>::empty());
            assert(texts(paths@) =~= seconds(tensor_to_shard.listed()));
        }
        while i < total
            invariant
                i <= total,
                total == entries.pairs().len(),
                all == entries.listed(),
                ascending(all),
                spec_index == index_path@,
                tensor_to_shard.wf(),
                ascending(tensor_to_shard.listed()),
                shards_of(model_path@, spec_index, all.take(i as int), files@) == Ok::<
                    Seq<(Seq<char>, Seq<char>)>,
                    ArtifactFault,
                >(tensor_to_shard.listed()),
                texts(paths@) == seconds(tensor_to_shard.listed()),
                tensor_names@.len() == i,
                forall|j: int| 0 <= j < i ==> (#[trigger] tensor_names@[j])@ == all[j].0,
                document@.get("weight_map"@) is Some,
                document@.get("weight_map"@)->0 is Object,
                all == in_key_order(document@.get("weight_map"@)->0->Object_0),
                total > 0,
                spec_index == index_of(model_path@),
            decreases total - i,
        {
            let name = entries.key_at(i);
            let value = *entries.value_at(i);
            let ghost before = tensor_to_shard.listed();
            let ghost before_paths = texts(paths@);
            proof {
                assert(all[i as int] == (name@, value@));
                assert(all.take(i + 1).drop_last() =~= all.take(i as int));
                assert(all.take(i + 1).last() == all[i as int]);
            }
            let shard_name = match value.as_str() {
                Some(text) => text,
                None => {
                    proof {
                        lemma_shards_fault_stays(model_path@, spec_index, all, files@, i + 1);
                    }
                    return Err(
                        ModelArtifactError::InvalidSafetensorsIndex {
                            path: index_path,
                            message: cat3("weight_map entry ", name, " is not a string"),
                        },
                    );
                },
            };
            let path = join_path(model_path, shard_name);
            if !file_exists(files, path.as_str()) {
                proof {
                    lemma_shards_fault_stays(model_path@, spec_index, all, files@, i + 1);
                }
                return Err(ModelArtifactError::MissingWeightShard { path });
            }
            let ghost said = path@;
            tensor_names.push(name.to_owned());
            paths.push(path.clone());
            tensor_to_shard.set(name.to_owned(), path);
            proof {
                let after = before.push((name@, said));
                lemma_prefix(all, i + 1);
                lemma_shards_have_the_names(model_path@, spec_index, all.take(i + 1), files@);
                assert(after.drop_last() =~= before);
                assert(map_of(after) == map_of(before).insert(name@, said));
                key_order_is_unique(tensor_to_shard.listed(), after);
                assert(texts(paths@) =~= before_paths.push(said));
                assert(seconds(after) =~= seconds(before).push(said));
            }
            i = i + 1;
        }
        proof {
            assert(all.take(i as int) =~= all);
            lemma_shards_have_the_names(model_path@, spec_index, all, files@);
        }
        let shard_paths = sort_paths(&paths);
        let manifest = SafetensorsManifest { index_path, tensor_names, tensor_to_shard, shard_paths };
        proof {
            let pairs = manifest.tensor_to_shard.pairs();
            let listed = manifest.tensor_to_shard.listed();
            assert forall|k: int| 0 <= k < listed.len() implies lists_path(
                manifest@.shard_paths,
                (#[trigger] listed[k]).1,
            ) by {
                assert(seconds(listed)[k] == listed[k].1);
                assert(texts(paths@)[k] == listed[k].1);
            }
            assert forall|k: int| 0 <= k < manifest.tensor_names@.len() implies (
            #[trigger] manifest.tensor_names@[k])@ == pairs[k].0 by {
                assert(listed[k].0 == all[k].0);
                assert(listed[k].0 == pairs[k].0);
            }
        }
        Ok(manifest)
    }

    /// What the text of an index says, given which of the files exist.
    pub fn from_index_text(model_path: &str, text: &Vec<u8>, files: &Vec<String>) -> (manifest:
        Result<SafetensorsManifest, ModelArtifactError>)
        ensures
            match manifest {
                Ok(m) => m.wf() && manifest_in(model_path@, text@, files@) == Ok::<
                    Manifest,
                    ArtifactFault,
                >(m@),
                Err(e) => manifest_in(model_path@, text@, files@) == Err::<
                    Manifest,
                    ArtifactFault,
                >(e@),
            },
    {
        match parse_json(text.as_slice()) {
            Ok(document) => SafetensorsManifest::from_index_document(model_path, &document, files),
            Err(message) => Err(
                ModelArtifactError::InvalidSafetensorsIndex {
                    path: join_path(model_path, "model.safetensors.index.json"),
                    message,
                },
            ),
        }
    }

    /// What is known of a model without an index, from the names of the files of its directory.
    pub fn from_file_names(model_path: &str, names: &Vec<String>) -> (manifest: Result<
        SafetensorsManifest,
        ModelArtifactError,
    >)
        ensures
            match manifest {
                Ok(m) => m.wf() && manifest_without_index(model_path@, texts(names@)) == Ok::<
                    Manifest,
                    ArtifactFault,
                >(m@),
                Err(e) => manifest_without_index(model_path@, texts(names@)) == Err::<
                    Manifest,
                    ArtifactFault,
                >(e@),
            },
    {
        let shard_paths = sorted_safetensors_files(model_path, names);
        if shard_paths.len() == 0 {
            return Err(ModelArtifactError::NoSafetensorsWeights { path: model_path.to_owned() });
        }
        let tensor_to_shard: TextMap<String> = TextMap::new();
        proof {
            assert(tensor_to_shard.listed() =~= Seq::<(Seq<char>, Seq<char>)>::empty());
        }
        Ok(
            SafetensorsManifest {
                index_path: join_path(model_path, "model.safetensors.index.json"),
                tensor_names: Vec::new(),
                tensor_to_shard,
                shard_paths,
            },
        )
    }

    /// What is known of a model: what its index says, where there is one, or else its shards. `index`
    /// is the text of the index, `names` are the names of the files of the directory, each with the
    /// message of the error where it could not be read; `files` are those shards that are files.
    pub fn from_model_path(
        model_path: &str,
        index: Option<&Result<Vec<u8>, String>>,
        names: &Result<Vec<String>, String>,
        files: &Vec<String>,
    ) -> (manifest: Result<SafetensorsManifest, ModelArtifactError>)
        ensures
            manifest is Ok ==> manifest->Ok_0.wf(),
            match index {
                Some(Ok(text)) => match manifest {
                    Ok(m) => manifest_in(model_path@, text@, files@) == Ok::<
                        Manifest,
                        ArtifactFault,
                    >(m@),
                    Err(e) => manifest_in(model_path@, text@, files@) == Err::<
                        Manifest,
                        ArtifactFault,
                    >(e@),
                },
                Some(Err(message)) => manifest is Err && manifest->Err_0@ == (
                ArtifactFault::ReadSafetensorsIndex {
                    path: index_of(model_path@),
                    message: message@,
                }),
                None => match names {
                    Ok(list) => match manifest {
                        Ok(m) => manifest_without_index(model_path@, texts(list@)) == Ok::<
                            Manifest,
                            ArtifactFault,
                        >(m@),
                        Err(e) => manifest_without_index(model_path@, texts(list@)) == Err::<
                            Manifest,
                            ArtifactFault,
                        >(e@),
                    },
                    Err(message) => manifest is Err && manifest->Err_0@ == (
                    ArtifactFault::ReadModelDirectory {
                        path: model_path@,
                        message: message@,
                    }),
                },
            },
    {
        match index {
            Some(Ok(text)) => SafetensorsManifest::from_index_text(model_path, text, files),
            Some(Err(message)) => Err(
                ModelArtifactError::ReadSafetensorsIndex {
                    path: join_path(model_path, "model.safetensors.index.json"),
                    message: message.clone(),
                },
            ),
            None => match names {
                Ok(list) => SafetensorsManifest::from_file_names(model_path, list),
                Err(message) => Err(
                    ModelArtifactError::ReadModelDirectory {
                        path: model_path.to_owned(),
                        message: message.clone(),
                    },
                ),
            },
        }
    }

    /// The names of the tensors that the index lists, in their order.
    pub fn tensor_names(&self) -> (names: &Vec<String>)
        requires
            self.wf(),
        ensures
            names@.len() == self@.tensor_to_shard.len(),
            forall|i: int|
                0 <= i < names@.len() ==> (#[trigger] names@[i])@ == self@.tensor_to_shard[i].0,
    {
        &self.tensor_names
    }

    /// The shard in which the index says that a tensor lies.
    pub fn shard_for_tensor(&self, tensor_name: &str) -> (shard: Option<&str>)
        requires
            self.wf(),
        ensures
            match shard {
                Some(path) => value_of_key(self@.tensor_to_shard, tensor_name@) == Some(path@)
                    && lists_path(self@.shard_paths, path@),
                None => value_of_key(self@.tensor_to_shard, tensor_name@) is None,
            },
    {
        proof {
            self.lemma_wf();
            ascending_pairs_are_the_map(self@.tensor_to_shard);
        }
        match self.tensor_to_shard.lookup(tensor_name) {
            Some(path) => Some(path.as_str()),
            None => None,
        }
    }

    /// The paths of the shards, in their order.
    pub fn shard_paths(&self) -> (paths: &Vec<String>)
        ensures
            texts(paths@) == self@.shard_paths,
    {
        &self.shard_paths
    }

    /// The path at which an index is looked for.
    pub fn index_path(&self) -> (path: &str)
        ensures
            path@ == self@.index_path,
    {
        self.index_path.as_str()
    }
}

fn copy_texts(list: &Vec<String>) -> (copy: Vec<String>)
    ensures
        texts(copy@) == texts(list@),
        copy@.len() == list@.len(),
        forall|i: int| 0 <= i < list@.len() ==> (#[trigger] copy@[i])@ == list@[i]@,
{
    let mut copy: Vec<String> = Vec::new();
    let mut i: usize = 0;
    while i < list.len()
        invariant
            i <= list@.len(),
            copy@.len() == i,
            forall|j: int| 0 <= j < i ==> (#[trigger] copy@[j])@ == list@[j]@,
        decreases list@.len() - i,
    {
        copy.push(list[i].clone());
        i = i + 1;
    }
    proof {
        assert(texts(copy@) =~= texts(list@));
    }
    copy
}

fn copy_map(map: &TextMap<String>) -> (copy: TextMap<String>)
    requires
        map.wf(),
    ensures
        copy.wf(),
        copy.listed() == map.listed(),
{
    let ghost all = map.listed();
    let mut copy: TextMap<String> = TextMap::new();
    let total: usize = map.len();
    let mut i: usize = 0;
    proof {
        lemma_viewed_ascending(map.pairs());
        assert(copy.listed() =~= all.take(0));
    }
    while i < total
        invariant
            i <= total,
            total == map.pairs().len(),
            all == map.listed(),
            ascending(all),
            copy.wf(),
            copy.listed() == all.take(i as int),
        decreases total - i,
    {
        let key = map.key_at(i);
        let value = map.value_at(i);
        copy.set(key.to_owned(), value.clone());
        proof {
            assert(all[i as int] == (key@, value@));
            lemma_prefix(all, i + 1);
            assert(all.take(i + 1).drop_last() =~= all.take(i as int));
            assert(all.take(i + 1).last() == all[i as int]);
            key_order_is_unique(copy.listed(), all.take(i + 1));
        }
        i = i + 1;
    }
    proof {
        assert(all.take(i as int) =~= all);
    }
    copy
}

impl SafetensorsManifest {
    /// A copy of the manifest.
    pub fn copy(&self) -> (manifest: SafetensorsManifest)
        requires
            self.wf(),
        ensures
            manifest.wf(),
            manifest@ == self@,
    {
        let tensor_to_shard = copy_map(&self.tensor_to_shard);
        let tensor_names = copy_texts(&self.tensor_names);
        let manifest = SafetensorsManifest {
            index_path: self.index_path.clone(),
            tensor_names,
            tensor_to_shard,
            shard_paths: copy_texts(&self.shard_paths),
        };
        proof {
            let mine = self.tensor_to_shard;
            let other = manifest.tensor_to_shard;
            assert(mine.listed().len() == mine.pairs().len());
            assert(other.listed().len() == other.pairs().len());
            assert forall|i: int| 0 <= i < manifest.tensor_names@.len() implies (
            #[trigger] manifest.tensor_names@[i])@ == other.pairs()[i].0 by {
                assert(self.tensor_names@[i]@ == mine.pairs()[i].0);
                assert(mine.listed()[i].0 == mine.pairs()[i].0);
                assert(other.listed()[i].0 == other.pairs()[i].0);
            }
            assert(manifest@.tensor_to_shard == self@.tensor_to_shard);
            assert(manifest@.shard_paths == self@.shard_paths);
            assert forall|i: int|
                0 <= i < manifest@.tensor_to_shard.len() implies lists_path(
                manifest@.shard_paths,
                (#[trigger] manifest@.tensor_to_shard[i]).1,
            ) by {
                assert(lists_path(self@.shard_paths, self@.tensor_to_shard[i].1));
            }
        }
        manifest
    }
}

proof fn lemma_prefix<T>(entries: Seq<(Seq<char>, T)>, n: int)
    requires
        ascending(entries),
        0 <= n <= entries.len(),
    ensures
        ascending(entries.take(n)),
{
    let part = entries.take(n);
    assert forall|i: int, j: int| 0 <= i < j < part.len() implies text_lt(
        #[trigger] part[i].0,
        #[trigger] part[j].0,
    ) by {
        assert(text_lt(entries[i].0, entries[j].0));
    }
}

/// The paths of the shards among the files of a directory, in their order.
pub fn sorted_safetensors_files(model_path: &str, names: &Vec<String>) -> (paths: Vec<String>)
    ensures
        texts(paths@) == sorted_paths(shards_among(model_path@, texts(names@))),
{
    let ghost all = texts(names@);
    let suffix = chars_of(".safetensors");
    let mut found: Vec<String> = Vec::new();
    let mut i: usize = 0;
    proof {
        assert(texts(found@) =~= shards_among(model_path@, all.take(0)));
    }
    while i < names.len()
        invariant
            i <= names@.len(),
            all == texts(names@),
            suffix@ == ".safetensors"@,
            texts(found@) == shards_among(model_path@, all.take(i as int)),
        decreases names@.len() - i,
    {
        let ghost before = texts(found@);
        proof {
            assert(all[i as int] == names@[i as int]@);
            assert(all.take(i + 1).drop_last() =~= all.take(i as int));
            assert(all.take(i + 1).last() == all[i as int]);
        }
        let chars = chars_of(names[i].as_str());
        if chars.len() > suffix.len() && matches_at(&chars, &suffix, chars.len() - suffix.len()) {
            found.push(join_path(model_path, names[i].as_str()));
            proof {
                assert(texts(found@) =~= before.push(joined(model_path@, all[i as int])));
            }
        }
        i = i + 1;
    }
    proof {
        assert(all.take(i as int) =~= all);
    }
    sort_paths(&found)
}

} // verus!
