//! Where the tensors of a model lie in its shards.
use vstd::prelude::*;
use vstd::string::*;

use crate::artifact_error::{ArtifactFault, ModelArtifactError};
use crate::listing::value_of_key;
use crate::order::{ascending_pairs_are_the_map, map_of};
use crate::safetensors::{
    expert_dtype_from, span_entries, span_in, spans_in, SafetensorsTensorMetadata,
    SafetensorsTensorSpan, TensorMetadata, TensorSpan,
};
use crate::safetensors_manifest::{
    covers, known_shards_are_covered, read_of, Manifest, ReadShard, SafetensorsManifest, ShardReads,
};
use crate::tensor_names::{expert_weight_name, is_routed_expert_weight};
use crate::text::texts;

verus! {

/// What came of reading shards.
pub type Reads = Seq<(Seq<char>, ReadShard)>;

/// What the first shard from `i` on that has a tensor says of it.
pub open spec fn metadata_from(
    paths: Seq<Seq<char>>,
    reads: Reads,
    name: Seq<char>,
    i: nat,
) -> Result<Option<TensorMetadata>, ArtifactFault>
    decreases paths.len() - i,
{
    if i >= paths.len() {
        Ok(None)
    } else {
        match read_of(reads, paths[i as int])->0 {
            ReadShard::Failed(fault) => Err(fault),
            ReadShard::Loaded { header, file_len } => match value_of_key(header.tensors, name) {
                Some(metadata) => Ok(Some(metadata)),
                None => metadata_from(paths, reads, name, i + 1),
            },
        }
    }
}

/// What the shards say of a tensor: the one that the index names, or else the first that has it.
pub open spec fn metadata_in(manifest: Manifest, reads: Reads, name: Seq<char>) -> Result<
    Option<TensorMetadata>,
    ArtifactFault,
> {
    match value_of_key(manifest.tensor_to_shard, name) {
        Some(path) => match read_of(reads, path)->0 {
            ReadShard::Failed(fault) => Err(fault),
            ReadShard::Loaded { header, file_len } => Ok(value_of_key(header.tensors, name)),
        },
        None => metadata_from(manifest.shard_paths, reads, name, 0),
    }
}

/// Where a tensor lies in a shard of which it is known what came of reading it.
pub open spec fn span_of_read(path: Seq<char>, read: ReadShard, name: Seq<char>) -> Result<
    Option<TensorSpan>,
    ArtifactFault,
> {
    match read {
        ReadShard::Failed(fault) => Err(fault),
        ReadShard::Loaded { header, file_len } => span_in(path, header, name, file_len),
    }
}

/// Where a tensor lies in the first shard from `i` on that has it.
pub open spec fn span_from(
    paths: Seq<Seq<char>>,
    reads: Reads,
    name: Seq<char>,
    i: nat,
) -> Result<Option<TensorSpan>, ArtifactFault>
    decreases paths.len() - i,
{
    if i >= paths.len() {
        Ok(None)
    } else {
        match span_of_read(paths[i as int], read_of(reads, paths[i as int])->0, name) {
            Ok(Some(span)) => Ok(Some(span)),
            Ok(None) => span_from(paths, reads, name, i + 1),
            Err(fault) => Err(fault),
        }
    }
}

/// Where a tensor lies: in the shard that the index names, or else in the first that has it.
pub open spec fn span_of(manifest: Manifest, reads: Reads, name: Seq<char>) -> Result<
    Option<TensorSpan>,
    ArtifactFault,
> {
    match value_of_key(manifest.tensor_to_shard, name) {
        Some(path) => span_of_read(path, read_of(reads, path)->0, name),
        None => span_from(manifest.shard_paths, reads, name, 0),
    }
}

/// Where the tensors of the first `n` shards lie, shard by shard.
pub open spec fn shard_spans(paths: Seq<Seq<char>>, reads: Reads, n: nat) -> Result<
    Seq<(Seq<char>, TensorSpan)>,
    ArtifactFault,
>
    decreases n,
{
    if n == 0 || n > paths.len() {
        Ok(Seq::empty())
    } else {
        match shard_spans(paths, reads, (n - 1) as nat) {
            Err(fault) => Err(fault),
            Ok(before) => match read_of(reads, paths[n - 1])->0 {
                ReadShard::Failed(fault) => Err(fault),
                ReadShard::Loaded { header, file_len } => match spans_in(
                    paths[n - 1],
                    header,
                    file_len,
                    header.tensors.len(),
                ) {
                    Ok(more) => Ok(before + more),
                    Err(fault) => Err(fault),
                },
            },
        }
    }
}

/// Where the first `n` tensors of an index lie.
pub open spec fn indexed_spans(shards: Seq<(Seq<char>, Seq<char>)>, reads: Reads, n: nat) -> Result<
    Seq<(Seq<char>, TensorSpan)>,
    ArtifactFault,
>
    decreases n,
{
    if n == 0 || n > shards.len() {
        Ok(Seq::empty())
    } else {
        match indexed_spans(shards, reads, (n - 1) as nat) {
            Err(fault) => Err(fault),
            Ok(before) => {
                let (name, path) = shards[n - 1];
                match span_of_read(path, read_of(reads, path)->0, name) {
                    Ok(Some(span)) => Ok(before.push((name, span))),
                    Ok(None) => Ok(before),
                    Err(fault) => Err(fault),
                }
            },
        }
    }
}

/// Where all tensors lie: those of the index, or, without one, those of all shards.
pub open spec fn all_spans(manifest: Manifest, reads: Reads) -> Result<
    Seq<(Seq<char>, TensorSpan)>,
    ArtifactFault,
> {
    if manifest.tensor_to_shard.len() == 0 {
        shard_spans(manifest.shard_paths, reads, manifest.shard_paths.len())
    } else {
        indexed_spans(manifest.tensor_to_shard, reads, manifest.tensor_to_shard.len())
    }
}

proof fn lemma_shard_fault_stays(paths: Seq<Seq<char>>, reads: Reads, n: nat, m: nat)
    requires
        n <= m <= paths.len(),
        shard_spans(paths, reads, n) is Err,
    ensures
        shard_spans(paths, reads, m) == shard_spans(paths, reads, n),
    decreases m - n,
{
    if n < m {
        lemma_shard_fault_stays(paths, reads, n, (m - 1) as nat);
    }
}

proof fn lemma_indexed_fault_stays(
    shards: Seq<(Seq<char>, Seq<char>)>,
    reads: Reads,
    n: nat,
    m: nat,
)
    requires
        n <= m <= shards.len(),
        indexed_spans(shards, reads, n) is Err,
    ensures
        indexed_spans(shards, reads, m) == indexed_spans(shards, reads, n),
    decreases m - n,
{
    if n < m {
        lemma_indexed_fault_stays(shards, reads, n, (m - 1) as nat);
    }
}

/// The span of a tensor tells of the tensor what the shards say of it.
pub proof fn spans_tell_what_the_shards_say(manifest: Manifest, reads: Reads, name: Seq<char>)
    requires
        span_of(manifest, reads, name) is Ok,
        span_of(manifest, reads, name)->Ok_0 is Some,
    ensures
        metadata_in(manifest, reads, name) == Ok::<Option<TensorMetadata>, ArtifactFault>(
            Some(span_of(manifest, reads, name)->Ok_0->0.metadata),
        ),
{
    if value_of_key(manifest.tensor_to_shard, name) is None {
        lemma_span_from(manifest.shard_paths, reads, name, 0);
    }
}

proof fn lemma_span_from(paths: Seq<Seq<char>>, reads: Reads, name: Seq<char>, i: nat)
    requires
        span_from(paths, reads, name, i) is Ok,
        span_from(paths, reads, name, i)->Ok_0 is Some,
    ensures
        metadata_from(paths, reads, name, i) == Ok::<Option<TensorMetadata>, ArtifactFault>(
            Some(span_from(paths, reads, name, i)->Ok_0->0.metadata),
        ),
    decreases paths.len() - i,
{
    if i < paths.len() {
        if span_of_read(paths[i as int], read_of(reads, paths[i as int])->0, name)->Ok_0 is None {
            lemma_span_from(paths, reads, name, i + 1);
        }
    }
}

fn span_of_shard(path: &str, reads: &ShardReads, tensor_name: &str) -> (span: Result<
    Option<SafetensorsTensorSpan>,
    ModelArtifactError,
>)
    requires
        reads.wf(),
        read_of(reads@, path@) is Some,
    ensures
        match span {
            Ok(Some(s)) => span_of_read(path@, read_of(reads@, path@)->0, tensor_name@) == Ok::<
                Option<TensorSpan>,
                ArtifactFault,
            >(Some(s@)),
            Ok(None) => span_of_read(path@, read_of(reads@, path@)->0, tensor_name@) == Ok::<
                Option<TensorSpan>,
                ArtifactFault,
            >(None),
            Err(e) => span_of_read(path@, read_of(reads@, path@)->0, tensor_name@) == Err::<
                Option<TensorSpan>,
                ArtifactFault,
            >(e@),
        },
{
    match reads.read(path) {
        Ok((header, file_len)) => header.tensor_span(path, tensor_name, file_len),
        Err(error) => Err(error),
    }
}

impl SafetensorsManifest {
    /// What the shards say of a tensor.
    pub fn tensor_metadata(&self, reads: &ShardReads, tensor_name: &str) -> (metadata: Result<
        Option<SafetensorsTensorMetadata>,
        ModelArtifactError,
    >)
        requires
            self.wf(),
            reads.wf(),
            covers(reads@, self@.shard_paths),
        ensures
            match metadata {
                Ok(Some(m)) => metadata_in(self@, reads@, tensor_name@) == Ok::<
                    Option<TensorMetadata>,
                    ArtifactFault,
                >(Some(m@)),
                Ok(None) => metadata_in(self@, reads@, tensor_name@) == Ok::<
                    Option<TensorMetadata>,
                    ArtifactFault,
                >(None),
                Err(e) => metadata_in(self@, reads@, tensor_name@) == Err::<
                    Option<TensorMetadata>,
                    ArtifactFault,
                >(e@),
            },
    {
        if let Some(path) = self.shard_for_tensor(tensor_name) {
            proof {
                known_shards_are_covered(reads@, self@.shard_paths, path@);
            }
            return match reads.read(path) {
                Ok((header, file_len)) => Ok(header.tensor_metadata(tensor_name)),
                Err(error) => Err(error),
            };
        }
        let paths = self.shard_paths();
        let ghost all = self@.shard_paths;
        let mut i: usize = 0;
        while i < paths.len()
            invariant
                i <= paths@.len(),
                all == texts(paths@),
                all == self@.shard_paths,
                reads.wf(),
                covers(reads@, all),
                value_of_key(self@.tensor_to_shard, tensor_name@) is None,
                metadata_from(all, reads@, tensor_name@, 0) == metadata_from(
                    all,
                    reads@,
                    tensor_name@,
                    i as nat,
                ),
            decreases paths@.len() - i,
        {
            proof {
                assert(all[i as int] == paths@[i as int]@);
            }
            match reads.read(paths[i].as_str()) {
                Ok((header, file_len)) => {
                    if let Some(metadata) = header.tensor_metadata(tensor_name) {
                        return Ok(Some(metadata));
                    }
                },
                Err(error) => {
                    return Err(error);
                },
            }
            i = i + 1;
        }
        Ok(None)
    }

    /// Where a tensor lies.
    pub fn tensor_span(&self, reads: &ShardReads, tensor_name: &str) -> (span: Result<
        Option<SafetensorsTensorSpan>,
        ModelArtifactError,
    >)
        requires
            self.wf(),
            reads.wf(),
            covers(reads@, self@.shard_paths),
        ensures
            match span {
                Ok(Some(s)) => span_of(self@, reads@, tensor_name@) == Ok::<
                    Option<TensorSpan>,
                    ArtifactFault,
                >(Some(s@)),
                Ok(None) => span_of(self@, reads@, tensor_name@) == Ok::<
                    Option<TensorSpan>,
                    ArtifactFault,
                >(None),
                Err(e) => span_of(self@, reads@, tensor_name@) == Err::<
                    Option<TensorSpan>,
                    ArtifactFault,
                >(e@),
            },
    {
        if let Some(path) = self.shard_for_tensor(tensor_name) {
            proof {
                known_shards_are_covered(reads@, self@.shard_paths, path@);
            }
            return span_of_shard(path, reads, tensor_name);
        }
        let paths = self.shard_paths();
        let ghost all = self@.shard_paths;
        let mut i: usize = 0;
        while i < paths.len()
            invariant
                i <= paths@.len(),
                all == texts(paths@),
                all == self@.shard_paths,
                reads.wf(),
                covers(reads@, all),
                value_of_key(self@.tensor_to_shard, tensor_name@) is None,
                span_from(all, reads@, tensor_name@, 0) == span_from(
                    all,
                    reads@,
                    tensor_name@,
                    i as nat,
                ),
            decreases paths@.len() - i,
        {
            proof {
                assert(all[i as int] == paths@[i as int]@);
            }
            let path = paths[i].as_str();
            match span_of_shard(path, reads, tensor_name) {
                Ok(Some(span)) => {
                    return Ok(Some(span));
                },
                Ok(None) => {},
                Err(error) => {
                    return Err(error);
                },
            }
            i = i + 1;
        }
        Ok(None)
    }

    fn shard_span_entries(&self, reads: &ShardReads) -> (entries: Result<
        Vec<(String, SafetensorsTensorSpan)>,
        ModelArtifactError,
    >)
        requires
            self.wf(),
            reads.wf(),
            covers(reads@, self@.shard_paths),
        ensures
            match entries {
                Ok(list) => shard_spans(
                    self@.shard_paths,
                    reads@,
                    self@.shard_paths.len(),
                ) == Ok::<Seq<(Seq<char>, TensorSpan)>, ArtifactFault>(span_entries(list@)),
                Err(e) => shard_spans(self@.shard_paths, reads@, self@.shard_paths.len())
                    == Err::<Seq<(Seq<char>, TensorSpan)>, ArtifactFault>(e@),
            },
    {
        let paths = self.shard_paths();
        let ghost all = self@.shard_paths;
        let mut entries: Vec<(String, SafetensorsTensorSpan)> = Vec::new();
        let mut i: usize = 0;
        proof {
            assert(span_entries(entries@) =~= Seq::empty());
        }
        while i < paths.len()
            invariant
                i <= paths@.len(),
                all == texts(paths@),
                all == self@.shard_paths,
                all.len() == paths@.len(),
                reads.wf(),
                covers(reads@, all),
                shard_spans(all, reads@, i as nat) == Ok::<
                    Seq<(Seq<char>, TensorSpan)>,
                    ArtifactFault,
                >(span_entries(entries@)),
            decreases paths@.len() - i,
        {
            proof {
                assert(all[i as int] == paths@[i as int]@);
            }
            let ghost before = entries@;
            let path = paths[i].as_str();
            match reads.read(path) {
                Ok((header, file_len)) => match header.tensor_span_entries(
                    path,
                    file_len,
                ) {
                    Ok(more) => {
                        let ghost added = more@;
                        let mut more = more;
                        entries.append(&mut more);
                        proof {
                            assert(span_entries(entries@) =~= span_entries(before) + span_entries(
                                added,
                            ));
                        }
                    },
                    Err(error) => {
                        proof {
                            lemma_shard_fault_stays(all, reads@, (i + 1) as nat, all.len());
                        }
                        return Err(error);
                    },
                },
                Err(error) => {
                    proof {
                        lemma_shard_fault_stays(all, reads@, (i + 1) as nat, all.len());
                    }
                    return Err(error);
                },
            }
            i = i + 1;
        }
        Ok(entries)
    }

    /// Where all tensors lie: those of the index, or, without one, those of all shards.
    pub fn tensor_span_entries(&self, reads: &ShardReads) -> (entries: Result<
        Vec<(String, SafetensorsTensorSpan)>,
        ModelArtifactError,
    >)
        requires
            self.wf(),
            reads.wf(),
            covers(reads@, self@.shard_paths),
        ensures
            match entries {
                Ok(list) => all_spans(self@, reads@) == Ok::<
                    Seq<(Seq<char>, TensorSpan)>,
                    ArtifactFault,
                >(span_entries(list@)),
                Err(e) => all_spans(self@, reads@) == Err::<
                    Seq<(Seq<char>, TensorSpan)>,
                    ArtifactFault,
                >(e@),
            },
    {
        let names = self.tensor_names();
        if names.len() == 0 {
            return self.shard_span_entries(reads);
        }
        let ghost shards = self@.tensor_to_shard;
        let mut entries: Vec<(String, SafetensorsTensorSpan)> = Vec::new();
        let mut i: usize = 0;
        proof {
            assert(span_entries(entries@) =~= Seq::empty());
            self.lemma_wf();
            ascending_pairs_are_the_map(shards);
        }
        while i < names.len()
            invariant
                i <= names@.len(),
                names@.len() > 0,
                shards == self@.tensor_to_shard,
                names@.len() == shards.len(),
                forall|j: int| 0 <= j < names@.len() ==> (#[trigger] names@[j])@ == shards[j].0,
                forall|j: int|
                    0 <= j < shards.len() ==> map_of(shards).dom().contains(
                        (#[trigger] shards[j]).0,
                    ) && map_of(shards)[shards[j].0] == shards[j].1,
                self.wf(),
                reads.wf(),
                covers(reads@, self@.shard_paths),
                indexed_spans(shards, reads@, i as nat) == Ok::<
                    Seq<(Seq<char>, TensorSpan)>,
                    ArtifactFault,
                >(span_entries(entries@)),
            decreases names@.len() - i,
        {
            let ghost before = entries@;
            let name = names[i].as_str();
            proof {
                assert(name@ == shards[i as int].0);
            }
            if let Some(path) = self.shard_for_tensor(name) {
                proof {
                    known_shards_are_covered(reads@, self@.shard_paths, path@);
                }
                match span_of_shard(path, reads, name) {
                    Ok(Some(span)) => {
                        entries.push((name.to_owned(), span));
                        proof {
                            assert(span_entries(entries@) =~= span_entries(before).push(
                                (name@, span@),
                            ));
                        }
                    },
                    Ok(None) => {},
                    Err(error) => {
                        proof {
                            lemma_indexed_fault_stays(
                                shards,
                                reads@,
                                (i + 1) as nat,
                                shards.len(),
                            );
                        }
                        return Err(error);
                    },
                }
            }
            i = i + 1;
        }
        Ok(entries)
    }
}

/// The type of the weights of the routed experts of the first shard from `i` on that has some.
pub open spec fn expert_dtype_of_shards(paths: Seq<Seq<char>>, reads: Reads, i: nat) -> Result<
    Option<Seq<char>>,
    ArtifactFault,
>
    decreases paths.len() - i,
{
    if i >= paths.len() {
        Ok(None)
    } else {
        match read_of(reads, paths[i as int])->0 {
            ReadShard::Failed(fault) => Err(fault),
            ReadShard::Loaded { header, file_len } => match expert_dtype_from(header.tensors, 0) {
                Some(dtype) => Ok(Some(dtype)),
                None => expert_dtype_of_shards(paths, reads, i + 1),
            },
        }
    }
}

/// The first tensor of an index, from `i` on, that is a weight of a routed expert.
pub open spec fn first_expert_weight(
    shards: Seq<(Seq<char>, Seq<char>)>,
    i: nat,
) -> Option<Seq<char>>
    decreases shards.len() - i,
{
    if i >= shards.len() {
        None
    } else if expert_weight_name(shards[i as int].0) is Some {
        Some(shards[i as int].0)
    } else {
        first_expert_weight(shards, i + 1)
    }
}

/// The type of the weights of the routed experts.
pub open spec fn expert_dtype(manifest: Manifest, reads: Reads) -> Result<
    Option<Seq<char>>,
    ArtifactFault,
> {
    match first_expert_weight(manifest.tensor_to_shard, 0) {
        Some(name) => match metadata_in(manifest, reads, name) {
            Ok(Some(metadata)) => Ok(Some(metadata.dtype)),
            Ok(None) => Ok(None),
            Err(fault) => Err(fault),
        },
        None => expert_dtype_of_shards(manifest.shard_paths, reads, 0),
    }
}

impl SafetensorsManifest {
    /// The type of the weights of the routed experts, from the first of them.
    pub fn probe_routed_expert_weight_dtype(&self, reads: &ShardReads) -> (dtype: Result<
        Option<String>,
        ModelArtifactError,
    >)
        requires
            self.wf(),
            reads.wf(),
            covers(reads@, self@.shard_paths),
        ensures
            match dtype {
                Ok(Some(text)) => expert_dtype(self@, reads@) == Ok::<
                    Option<Seq<char>>,
                    ArtifactFault,
                >(Some(text@)),
                Ok(None) => expert_dtype(self@, reads@) == Ok::<Option<Seq<char>>, ArtifactFault>(
                    None,
                ),
                Err(e) => expert_dtype(self@, reads@) == Err::<Option<Seq<char>>, ArtifactFault>(
                    e@,
                ),
            },
    {
        let names = self.tensor_names();
        let ghost shards = self@.tensor_to_shard;
        let mut i: usize = 0;
        while i < names.len()
            invariant
                i <= names@.len(),
                shards == self@.tensor_to_shard,
                names@.len() == shards.len(),
                forall|j: int| 0 <= j < names@.len() ==> (#[trigger] names@[j])@ == shards[j].0,
                self.wf(),
                reads.wf(),
                covers(reads@, self@.shard_paths),
                first_expert_weight(shards, 0) == first_expert_weight(shards, i as nat),
            decreases names@.len() - i,
        {
            let name = names[i].as_str();
            proof {
                assert(name@ == shards[i as int].0);
            }
            if is_routed_expert_weight(name) {
                return match self.tensor_metadata(reads, name) {
                    Ok(Some(metadata)) => Ok(Some(metadata.dtype)),
                    Ok(None) => Ok(None),
                    Err(error) => Err(error),
                };
            }
            i = i + 1;
        }
        let paths = self.shard_paths();
        let ghost all = self@.shard_paths;
        let mut k: usize = 0;
        while k < paths.len()
            invariant
                k <= paths@.len(),
                all == texts(paths@),
                all == self@.shard_paths,
                reads.wf(),
                covers(reads@, all),
                first_expert_weight(self@.tensor_to_shard, 0) is None,
                expert_dtype_of_shards(all, reads@, 0) == expert_dtype_of_shards(
                    all,
                    reads@,
                    k as nat,
                ),
            decreases paths@.len() - k,
        {
            proof {
                assert(all[k as int] == paths@[k as int]@);
            }
            match reads.read(paths[k].as_str()) {
                Ok((header, file_len)) => {
                    if let Some(dtype) = header.routed_expert_weight_dtype() {
                        return Ok(Some(dtype));
                    }
                },
                Err(error) => {
                    return Err(error);
                },
            }
            k = k + 1;
        }
        Ok(None)
    }
}

} // verus!
