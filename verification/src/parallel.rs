//! How a model is spread over ranks, and what a group of rank workers answers.
use std::ops::Range;

use vstd::arithmetic::div_mod::*;
use vstd::prelude::*;
use vstd::string::*;

use crate::text::{cat4, cat6, decimal, decimal_usize};

verus! {

/// One rank of a tensor parallel group.
#[derive(Clone, Copy, Debug, PartialEq, Eq, Structural)]
pub struct TensorParallelRank {
    global_rank: usize,
    local_rank: usize,
    world_size: usize,
    device_ordinal: usize,
}

/// What a [`TensorParallelRank`] says.
pub struct Rank {
    pub global: nat,
    pub local: nat,
    pub world: nat,
    pub device: nat,
}

impl View for TensorParallelRank {
    type V = Rank;

    closed spec fn view(&self) -> Rank {
        Rank {
            global: self.global_rank as nat,
            local: self.local_rank as nat,
            world: self.world_size as nat,
            device: self.device_ordinal as nat,
        }
    }
}

impl TensorParallelRank {
    /// The rank is one of its world.
    pub open spec fn wf(self) -> bool {
        self@.global < self@.world <= usize::MAX
    }

    /// The place in the world.
    pub fn global_rank(self) -> (rank: usize)
        ensures
            rank == self@.global,
    {
        self.global_rank
    }

    /// The place on the node.
    pub fn local_rank(self) -> (rank: usize)
        ensures
            rank == self@.local,
    {
        self.local_rank
    }

    /// The number of ranks in the world.
    pub fn world_size(self) -> (size: usize)
        ensures
            size == self@.world,
    {
        self.world_size
    }

    /// The device of the rank.
    pub fn device_ordinal(self) -> (ordinal: usize)
        ensures
            ordinal == self@.device,
    {
        self.device_ordinal
    }
}

/// Why ranks cannot be laid out.
#[derive(Clone, Debug, PartialEq, Eq, Structural)]
pub enum ParallelTopologyError {
    ZeroWorldSize,
    ZeroNodeCount,
    InvalidNodeRank { node_rank: usize, node_count: usize },
    WorldSizeNotDivisible { world_size: usize, node_count: usize },
    ZeroDeviceOrdinalStep,
    GlobalRankOverflow { node_rank: usize, local_world_size: usize },
    DeviceOrdinalOverflow {
        base_device_ordinal: usize,
        device_ordinal_step: usize,
        local_rank: usize,
    },
}

/// The numeral of a size.
pub open spec fn dec(n: usize) -> Seq<char> {
    decimal(n as nat)
}

impl ParallelTopologyError {
    /// The message that the error is reported with.
    pub open spec fn message(self) -> Seq<char> {
        match self {
            ParallelTopologyError::ZeroWorldSize => "tensor parallel world size must be positive"@,
            ParallelTopologyError::ZeroNodeCount => "tensor parallel node count must be positive"@,
            ParallelTopologyError::InvalidNodeRank { node_rank, node_count } => "node rank "@ + dec(
                node_rank,
            ) + " must be smaller than node count "@ + dec(node_count),
            ParallelTopologyError::WorldSizeNotDivisible { world_size, node_count } =>
                "tensor parallel world size "@ + dec(world_size)
                    + " must be divisible by node count "@ + dec(node_count),
            ParallelTopologyError::ZeroDeviceOrdinalStep => "device ordinal step must be positive"@,
            ParallelTopologyError::GlobalRankOverflow { node_rank, local_world_size } =>
                "global tensor parallel rank overflowed for node rank "@ + dec(node_rank)
                    + " and local world size "@ + dec(local_world_size),
            ParallelTopologyError::DeviceOrdinalOverflow {
                base_device_ordinal,
                device_ordinal_step,
                local_rank,
            } => "device ordinal overflowed for base "@ + dec(base_device_ordinal) + ", step "@
                + dec(device_ordinal_step) + ", and local rank "@ + dec(local_rank),
        }
    }

    /// The message that the error is reported with.
    pub fn to_string(&self) -> (message: String)
        ensures
            message@ == self.message(),
    {
        match self {
            ParallelTopologyError::ZeroWorldSize =>
                "tensor parallel world size must be positive".to_owned(),
            ParallelTopologyError::ZeroNodeCount =>
                "tensor parallel node count must be positive".to_owned(),
            ParallelTopologyError::InvalidNodeRank { node_rank, node_count } => cat4(
                "node rank ",
                decimal_usize(*node_rank).as_str(),
                " must be smaller than node count ",
                decimal_usize(*node_count).as_str(),
            ),
            ParallelTopologyError::WorldSizeNotDivisible { world_size, node_count } => cat4(
                "tensor parallel world size ",
                decimal_usize(*world_size).as_str(),
                " must be divisible by node count ",
                decimal_usize(*node_count).as_str(),
            ),
            ParallelTopologyError::ZeroDeviceOrdinalStep =>
                "device ordinal step must be positive".to_owned(),
            ParallelTopologyError::GlobalRankOverflow { node_rank, local_world_size } => cat4(
                "global tensor parallel rank overflowed for node rank ",
                decimal_usize(*node_rank).as_str(),
                " and local world size ",
                decimal_usize(*local_world_size).as_str(),
            ),
            ParallelTopologyError::DeviceOrdinalOverflow {
                base_device_ordinal,
                device_ordinal_step,
                local_rank,
            } => cat6(
                "device ordinal overflowed for base ",
                decimal_usize(*base_device_ordinal).as_str(),
                ", step ",
                decimal_usize(*device_ordinal_step).as_str(),
                ", and local rank ",
                decimal_usize(*local_rank).as_str(),
            ),
        }
    }
}

/// The ranks of one node of a tensor parallel group.
#[derive(Clone, Debug, PartialEq, Eq)]
pub struct TensorParallelTopology {
    world_size: usize,
    node_count: usize,
    node_rank: usize,
    local_ranks: Vec<TensorParallelRank>,
}

/// What a [`TensorParallelTopology`] says.
pub struct Topology {
    pub world_size: nat,
    pub node_count: nat,
    pub node_rank: nat,
    pub local_ranks: Seq<Rank>,
}

/// What several ranks say.
pub open spec fn rank_views(ranks: Seq<TensorParallelRank>) -> Seq<Rank> {
    ranks.map_values(|rank: TensorParallelRank| rank@)
}

impl View for TensorParallelTopology {
    type V = Topology;

    closed spec fn view(&self) -> Topology {
        Topology {
            world_size: self.world_size as nat,
            node_count: self.node_count as nat,
            node_rank: self.node_rank as nat,
            local_ranks: rank_views(self.local_ranks@),
        }
    }
}

/// The rank at the place `local` of a node.
pub open spec fn rank_at(
    world_size: nat,
    node_count: nat,
    node_rank: nat,
    base_device_ordinal: nat,
    device_ordinal_step: nat,
    local: nat,
) -> Rank {
    Rank {
        global: node_rank * (world_size / node_count) + local,
        local,
        world: world_size,
        device: base_device_ordinal + local * device_ordinal_step,
    }
}

/// The ranks of a node.
pub open spec fn node_ranks(
    world_size: nat,
    node_count: nat,
    node_rank: nat,
    base_device_ordinal: nat,
    device_ordinal_step: nat,
) -> Seq<Rank> {
    Seq::new(
        world_size / node_count,
        |local: int|
            rank_at(
                world_size,
                node_count,
                node_rank,
                base_device_ordinal,
                device_ordinal_step,
                local as nat,
            ),
    )
}

/// What keeps the shape of a group from being one.
pub open spec fn shape_fault(
    world_size: usize,
    node_count: usize,
    node_rank: usize,
    device_ordinal_step: usize,
) -> Option<ParallelTopologyError> {
    if world_size == 0 {
        Some(ParallelTopologyError::ZeroWorldSize)
    } else if node_count == 0 {
        Some(ParallelTopologyError::ZeroNodeCount)
    } else if node_rank >= node_count {
        Some(ParallelTopologyError::InvalidNodeRank { node_rank, node_count })
    } else if world_size % node_count != 0 {
        Some(ParallelTopologyError::WorldSizeNotDivisible { world_size, node_count })
    } else if device_ordinal_step == 0 {
        Some(ParallelTopologyError::ZeroDeviceOrdinalStep)
    } else {
        None
    }
}

proof fn lemma_node_share(world_size: nat, node_count: nat, node_rank: nat)
    requires
        0 < world_size,
        node_rank < node_count,
        world_size % node_count == 0,
    ensures
        (world_size / node_count) > 0,
        node_rank * (world_size / node_count) + world_size / node_count <= world_size,
        node_count * (world_size / node_count) == world_size,
{
    lemma_fundamental_div_mod(world_size as int, node_count as int);
    let share = (world_size / node_count) as int;
    assert(share > 0) by (nonlinear_arith)
        requires
            world_size == node_count * share,
            world_size > 0,
            node_count > 0,
    ;
    assert(node_rank * share + share <= node_count * share) by (nonlinear_arith)
        requires
            node_rank + 1 <= node_count,
            share > 0,
    ;
}

/// The place in the world of the place `local` of a node with `share` ranks.
pub open spec fn global_of(share: nat, node: nat, local: nat) -> nat {
    node * share + local
}

/// Every rank of the world stands at one place of one node.
pub proof fn every_rank_has_one_place(world_size: nat, node_count: nat, global: nat)
    requires
        0 < world_size,
        0 < node_count,
        world_size % node_count == 0,
        global < world_size,
    ensures
        global / (world_size / node_count) < node_count,
        global % (world_size / node_count) < world_size / node_count,
        (global / (world_size / node_count)) * (world_size / node_count) + global % (world_size
            / node_count) == global,
        forall|node: nat, local: nat|
            node < node_count && local < world_size / node_count && #[trigger] global_of(
                world_size / node_count,
                node,
                local,
            ) == global ==> node == global / (world_size / node_count) && local == global % (
            world_size / node_count),
{
    lemma_node_share(world_size, node_count, 0);
    let share = (world_size / node_count) as int;
    lemma_fundamental_div_mod(global as int, share);
    lemma_mod_bound(global as int, share);
    let q = global as int / share;
    let r = global as int % share;
    assert(q * share == share * q) by (nonlinear_arith);
    assert(0 <= q < node_count) by (nonlinear_arith)
        requires
            q * share + r == global,
            0 <= r < share,
            global < node_count * share,
            global >= 0,
    ;
    assert forall|node: nat, local: nat|
        node < node_count && local < world_size / node_count && #[trigger] global_of(
            world_size / node_count,
            node,
            local,
        ) == global implies node == global / (world_size / node_count) && local == global % (
    world_size / node_count) by {
        lemma_fundamental_div_mod_converse(global as int, share, node as int, local as int);
    }
}

impl TensorParallelTopology {
    /// The ranks of the node `node_rank`.
    pub fn new(
        world_size: usize,
        node_count: usize,
        node_rank: usize,
        base_device_ordinal: usize,
        device_ordinal_step: usize,
    ) -> (topology: Result<Self, ParallelTopologyError>)
        ensures
            match topology {
                Ok(made) => {
                    &&& shape_fault(world_size, node_count, node_rank, device_ordinal_step) is None
                    &&& base_device_ordinal + (world_size / node_count - 1) * device_ordinal_step
                        <= usize::MAX
                    &&& made@ == (Topology {
                        world_size: world_size as nat,
                        node_count: node_count as nat,
                        node_rank: node_rank as nat,
                        local_ranks: node_ranks(
                            world_size as nat,
                            node_count as nat,
                            node_rank as nat,
                            base_device_ordinal as nat,
                            device_ordinal_step as nat,
                        ),
                    })
                },
                Err(error) => match shape_fault(
                    world_size,
                    node_count,
                    node_rank,
                    device_ordinal_step,
                ) {
                    Some(fault) => error == fault,
                    None => {
                        &&& error matches ParallelTopologyError::DeviceOrdinalOverflow {
                            base_device_ordinal: base,
                            device_ordinal_step: step,
                            local_rank,
                        }
                        &&& base == base_device_ordinal
                        &&& step == device_ordinal_step
                        &&& local_rank < world_size / node_count
                        &&& base + local_rank * step > usize::MAX
                        &&& local_rank > 0 ==> base + (local_rank - 1) * step <= usize::MAX
                    },
                },
            },
    {
        if world_size == 0 {
            return Err(ParallelTopologyError::ZeroWorldSize);
        }
        if node_count == 0 {
            return Err(ParallelTopologyError::ZeroNodeCount);
        }
        if node_rank >= node_count {
            return Err(ParallelTopologyError::InvalidNodeRank { node_rank, node_count });
        }
        if world_size % node_count != 0 {
            return Err(ParallelTopologyError::WorldSizeNotDivisible { world_size, node_count });
        }
        if device_ordinal_step == 0 {
            return Err(ParallelTopologyError::ZeroDeviceOrdinalStep);
        }
        proof {
            lemma_node_share(world_size as nat, node_count as nat, node_rank as nat);
        }
        let local_world_size: usize = world_size / node_count;
        let first_global_rank: usize = match node_rank.checked_mul(local_world_size) {
            Some(n) => n,
            None => {
                return Err(
                    ParallelTopologyError::GlobalRankOverflow { node_rank, local_world_size },
                );
            },
        };
        let ghost wanted = node_ranks(
            world_size as nat,
            node_count as nat,
            node_rank as nat,
            base_device_ordinal as nat,
            device_ordinal_step as nat,
        );
        let mut local_ranks: Vec<TensorParallelRank> = Vec::new();
        let mut local_rank: usize = 0;
        while local_rank < local_world_size
            invariant
                local_rank <= local_world_size,
                local_world_size == world_size / node_count,
                node_count > 0,
                first_global_rank == node_rank * local_world_size,
                first_global_rank + local_world_size <= world_size,
                shape_fault(world_size, node_count, node_rank, device_ordinal_step) is None,
                wanted == node_ranks(
                    world_size as nat,
                    node_count as nat,
                    node_rank as nat,
                    base_device_ordinal as nat,
                    device_ordinal_step as nat,
                ),
                rank_views(local_ranks@) == wanted.take(local_rank as int),
                local_rank > 0 ==> base_device_ordinal + (local_rank - 1) * device_ordinal_step
                    <= usize::MAX,
            decreases local_world_size - local_rank,
        {
            let global_rank: usize = first_global_rank + local_rank;
            let device_ordinal: Option<usize> = match local_rank.checked_mul(device_ordinal_step) {
                Some(offset) => base_device_ordinal.checked_add(offset),
                None => None,
            };
            let device_ordinal: usize = match device_ordinal {
                Some(ordinal) => ordinal,
                None => {
                    return Err(
                        ParallelTopologyError::DeviceOrdinalOverflow {
                            base_device_ordinal,
                            device_ordinal_step,
                            local_rank,
                        },
                    );
                },
            };
            let ghost before = rank_views(local_ranks@);
            let rank = TensorParallelRank { global_rank, local_rank, world_size, device_ordinal };
            local_ranks.push(rank);
            proof {
                assert(rank@ == wanted[local_rank as int]);
                assert(rank_views(local_ranks@) =~= before.push(rank@));
                assert(wanted.take(local_rank + 1) =~= wanted.take(local_rank as int).push(
                    wanted[local_rank as int],
                ));
            }
            local_rank = local_rank + 1;
        }
        proof {
            assert(wanted.take(local_rank as int) =~= wanted);
        }
        Ok(TensorParallelTopology { world_size, node_count, node_rank, local_ranks })
    }

    /// The number of ranks in the world.
    pub fn world_size(&self) -> (size: usize)
        ensures
            size == self@.world_size,
    {
        self.world_size
    }

    /// The number of nodes.
    pub fn node_count(&self) -> (count: usize)
        ensures
            count == self@.node_count,
    {
        self.node_count
    }

    /// The place of this node.
    pub fn node_rank(&self) -> (rank: usize)
        ensures
            rank == self@.node_rank,
    {
        self.node_rank
    }

    /// The ranks of this node.
    pub fn local_ranks(&self) -> (ranks: &[TensorParallelRank])
        ensures
            rank_views(ranks@) == self@.local_ranks,
    {
        self.local_ranks.as_slice()
    }
}

/// The ranks of a node are ranks of the world.
pub proof fn node_ranks_are_ranks(
    world_size: nat,
    node_count: nat,
    node_rank: nat,
    base_device_ordinal: nat,
    device_ordinal_step: nat,
    local: int,
)
    requires
        0 < world_size,
        node_rank < node_count,
        world_size % node_count == 0,
        0 <= local < world_size / node_count,
    ensures
        node_ranks(
            world_size,
            node_count,
            node_rank,
            base_device_ordinal,
            device_ordinal_step,
        )[local].global < world_size,
{
    lemma_node_share(world_size, node_count, node_rank);
}

/// One of several equal parts of a tensor.
#[derive(Clone, Copy, Debug, PartialEq, Eq, Structural)]
pub struct TensorPartition {
    partition_count: usize,
    partition_index: usize,
}

/// What a [`TensorPartition`] says.
pub struct Part {
    pub count: nat,
    pub index: nat,
}

impl View for TensorPartition {
    type V = Part;

    closed spec fn view(&self) -> Part {
        Part { count: self.partition_count as nat, index: self.partition_index as nat }
    }
}

/// Why there is no such part.
#[derive(Clone, Debug, PartialEq, Eq, Structural)]
pub enum TensorPartitionError {
    ZeroPartitionCount,
    InvalidPartitionIndex { partition_index: usize, partition_count: usize },
    ShardCountExceedsWorldSize { shard_count: usize, world_size: usize },
    WorldSizeNotDivisibleByShardCount { world_size: usize, shard_count: usize },
    ExtentNotDivisible { extent: usize, partition_count: usize },
    PartitionRangeOverflow { extent: usize, partition_count: usize, partition_index: usize },
}

impl TensorPartitionError {
    /// The message that the error is reported with.
    pub open spec fn message(self) -> Seq<char> {
        match self {
            TensorPartitionError::ZeroPartitionCount => "partition count must be positive"@,
            TensorPartitionError::InvalidPartitionIndex { partition_index, partition_count } =>
                "partition index "@ + dec(partition_index)
                    + " must be smaller than partition count "@ + dec(partition_count),
            TensorPartitionError::ShardCountExceedsWorldSize { shard_count, world_size } =>
                "replicated shard count "@ + dec(shard_count)
                    + " exceeds tensor parallel world size "@ + dec(world_size),
            TensorPartitionError::WorldSizeNotDivisibleByShardCount { world_size, shard_count } =>
                "tensor parallel world size "@ + dec(world_size)
                    + " must be divisible by replicated shard count "@ + dec(shard_count),
            TensorPartitionError::ExtentNotDivisible { extent, partition_count } =>
                "tensor extent "@ + dec(extent) + " must be divisible by partition count "@ + dec(
                partition_count,
            ),
            TensorPartitionError::PartitionRangeOverflow {
                extent,
                partition_count,
                partition_index,
            } => "partition range overflowed for extent "@ + dec(extent) + ", partition count "@
                + dec(partition_count) + ", and partition index "@ + dec(partition_index),
        }
    }

    /// The message that the error is reported with.
    pub fn to_string(&self) -> (message: String)
        ensures
            message@ == self.message(),
    {
        match self {
            TensorPartitionError::ZeroPartitionCount =>
                "partition count must be positive".to_owned(),
            TensorPartitionError::InvalidPartitionIndex { partition_index, partition_count } =>
                cat4(
                "partition index ",
                decimal_usize(*partition_index).as_str(),
                " must be smaller than partition count ",
                decimal_usize(*partition_count).as_str(),
            ),
            TensorPartitionError::ShardCountExceedsWorldSize { shard_count, world_size } => cat4(
                "replicated shard count ",
                decimal_usize(*shard_count).as_str(),
                " exceeds tensor parallel world size ",
                decimal_usize(*world_size).as_str(),
            ),
            TensorPartitionError::WorldSizeNotDivisibleByShardCount { world_size, shard_count } =>
                cat4(
                "tensor parallel world size ",
                decimal_usize(*world_size).as_str(),
                " must be divisible by replicated shard count ",
                decimal_usize(*shard_count).as_str(),
            ),
            TensorPartitionError::ExtentNotDivisible { extent, partition_count } => cat4(
                "tensor extent ",
                decimal_usize(*extent).as_str(),
                " must be divisible by partition count ",
                decimal_usize(*partition_count).as_str(),
            ),
            TensorPartitionError::PartitionRangeOverflow {
                extent,
                partition_count,
                partition_index,
            } => cat6(
                "partition range overflowed for extent ",
                decimal_usize(*extent).as_str(),
                ", partition count ",
                decimal_usize(*partition_count).as_str(),
                ", and partition index ",
                decimal_usize(*partition_index).as_str(),
            ),
        }
    }
}

impl Part {
    /// Where the part starts in a tensor.
    pub open spec fn start(self, extent: nat) -> nat {
        self.index * (extent / self.count)
    }

    /// Where the part ends in a tensor.
    pub open spec fn end(self, extent: nat) -> nat {
        self.start(extent) + extent / self.count
    }
}

/// The parts of a tensor follow each other from its start to its end.
pub proof fn parts_follow_each_other(count: nat, extent: nat, index: nat)
    requires
        index < count,
        extent % count == 0,
    ensures
        (Part { count, index: 0 }).start(extent) == 0,
        (Part { count, index }).end(extent) == (Part { count, index: index + 1 }).start(extent),
        (Part { count, index }).end(extent) <= extent,
        index + 1 == count ==> (Part { count, index }).end(extent) == extent,
{
    lemma_fundamental_div_mod(extent as int, count as int);
    let share = (extent / count) as int;
    assert(index * share + share == (index + 1) * share) by (nonlinear_arith);
    assert((index + 1) * share <= count * share) by (nonlinear_arith)
        requires
            index + 1 <= count,
            share >= 0,
    ;
    assert(0 * share == 0);
}

/// The ranks of a world are spread evenly over the shards: `world / shards` neighbours share one.
pub proof fn neighbours_share_shards(world: nat, shards: nat, global: nat)
    requires
        0 < shards <= world,
        world % shards == 0,
        global < world,
    ensures
        world / shards > 0,
        global / (world / shards) < shards,
        (global / (world / shards)) * (world / shards) <= global,
        global < (global / (world / shards)) * (world / shards) + world / shards,
{
    every_rank_has_one_place(world, shards, global);
    lemma_node_share(world, shards, 0);
}

impl TensorPartition {
    /// The part is one of several.
    pub open spec fn wf(self) -> bool {
        self@.index < self@.count <= usize::MAX
    }

    /// The part `partition_index` of `partition_count`.
    pub fn new(partition_count: usize, partition_index: usize) -> (partition: Result<
        Self,
        TensorPartitionError,
    >)
        ensures
            match partition {
                Ok(part) => part.wf() && part@ == (Part {
                    count: partition_count as nat,
                    index: partition_index as nat,
                }),
                Err(error) => if partition_count == 0 {
                    error == TensorPartitionError::ZeroPartitionCount
                } else {
                    partition_index >= partition_count && error
                        == (TensorPartitionError::InvalidPartitionIndex {
                        partition_index,
                        partition_count,
                    })
                },
            },
    {
        if partition_count == 0 {
            return Err(TensorPartitionError::ZeroPartitionCount);
        }
        if partition_index >= partition_count {
            return Err(
                TensorPartitionError::InvalidPartitionIndex { partition_index, partition_count },
            );
        }
        Ok(TensorPartition { partition_count, partition_index })
    }

    /// The part of a rank, where each rank has one.
    pub fn for_rank(rank: TensorParallelRank) -> (partition: Self)
        ensures
            partition@ == (Part { count: rank@.world, index: rank@.global }),
            rank.wf() ==> partition.wf(),
    {
        TensorPartition { partition_count: rank.world_size, partition_index: rank.global_rank }
    }

    /// The part of a rank, where neighbouring ranks share the shards evenly.
    pub fn for_replicated_shards(rank: TensorParallelRank, shard_count: usize) -> (partition:
        Result<Self, TensorPartitionError>)
        requires
            rank.wf(),
        ensures
            match partition {
                Ok(part) => 0 < shard_count <= rank@.world && rank@.world % (shard_count as nat)
                    == 0 && part.wf() && part@ == (Part {
                    count: shard_count as nat,
                    index: rank@.global / (rank@.world / (shard_count as nat)),
                }),
                Err(error) => if shard_count == 0 {
                    error == TensorPartitionError::ZeroPartitionCount
                } else if shard_count > rank@.world {
                    error == (TensorPartitionError::ShardCountExceedsWorldSize {
                        shard_count,
                        world_size: rank@.world as usize,
                    })
                } else {
                    rank@.world % (shard_count as nat) != 0 && error
                        == (TensorPartitionError::WorldSizeNotDivisibleByShardCount {
                        world_size: rank@.world as usize,
                        shard_count,
                    })
                },
            },
    {
        if shard_count == 0 {
            return Err(TensorPartitionError::ZeroPartitionCount);
        }
        if shard_count > rank.world_size {
            return Err(
                TensorPartitionError::ShardCountExceedsWorldSize {
                    shard_count,
                    world_size: rank.world_size,
                },
            );
        }
        if rank.world_size % shard_count != 0 {
            return Err(
                TensorPartitionError::WorldSizeNotDivisibleByShardCount {
                    world_size: rank.world_size,
                    shard_count,
                },
            );
        }
        proof {
            neighbours_share_shards(rank@.world, shard_count as nat, rank@.global);
        }
        let replicas_per_shard: usize = rank.world_size / shard_count;
        Self::new(shard_count, rank.global_rank / replicas_per_shard)
    }

    /// The number of parts.
    pub fn partition_count(self) -> (count: usize)
        ensures
            count == self@.count,
    {
        self.partition_count
    }

    /// The place of the part.
    pub fn partition_index(self) -> (index: usize)
        ensures
            index == self@.index,
    {
        self.partition_index
    }

    /// Where the part stands in a tensor.
    pub fn range(self, extent: usize) -> (range: Result<Range<usize>, TensorPartitionError>)
        requires
            self.wf(),
        ensures
            match range {
                Ok(part) => extent as nat % self@.count == 0 && part.start == self@.start(
                    extent as nat,
                ) && part.end == self@.end(extent as nat),
                Err(error) => extent as nat % self@.count != 0 && error
                    == (TensorPartitionError::ExtentNotDivisible {
                    extent,
                    partition_count: self@.count as usize,
                }),
            },
    {
        if extent % self.partition_count != 0 {
            return Err(
                TensorPartitionError::ExtentNotDivisible {
                    extent,
                    partition_count: self.partition_count,
                },
            );
        }
        proof {
            parts_follow_each_other(self@.count, extent as nat, self@.index);
        }
        let partition_len: usize = extent / self.partition_count;
        let start: usize = match self.partition_index.checked_mul(partition_len) {
            Some(n) => n,
            None => {
                return Err(
                    TensorPartitionError::PartitionRangeOverflow {
                        extent,
                        partition_count: self.partition_count,
                        partition_index: self.partition_index,
                    },
                );
            },
        };
        let end: usize = match start.checked_add(partition_len) {
            Some(n) => n,
            None => {
                return Err(
                    TensorPartitionError::PartitionRangeOverflow {
                        extent,
                        partition_count: self.partition_count,
                        partition_index: self.partition_index,
                    },
                );
            },
        };
        Ok(start..end)
    }
}

/// What one rank of a worker group does.
pub trait RankWorker: Send + 'static {
    /// What the rank is told to do.
    type Command: Clone + Send + 'static;

    /// What the rank answers.
    type Output: Send + 'static;

    /// Why the rank could not do it.
    type Error: Send + 'static;

    /// Does what a command says.
    fn execute(&mut self, command: Self::Command) -> (result: Result<Self::Output, Self::Error>);

    /// Stops the rank.
    fn shutdown(&mut self) -> (result: Result<(), Self::Error>);
}

/// What one rank answered.
#[derive(Clone, Debug, PartialEq, Eq)]
pub struct RankOutput<O> {
    rank: TensorParallelRank,
    output: O,
}

/// What a [`RankOutput`] says.
pub struct Answer<O> {
    pub rank: TensorParallelRank,
    pub output: O,
}

impl<O> View for RankOutput<O> {
    type V = Answer<O>;

    closed spec fn view(&self) -> Answer<O> {
        Answer { rank: self.rank, output: self.output }
    }
}

impl<O> RankOutput<O> {
    /// The answer `output` of a rank.
    pub fn new(rank: TensorParallelRank, output: O) -> (answer: Self)
        ensures
            answer@ == (Answer { rank, output }),
    {
        RankOutput { rank, output }
    }

    /// The rank that answered.
    pub fn rank(&self) -> (rank: TensorParallelRank)
        ensures
            rank == self@.rank,
    {
        self.rank
    }

    /// What the rank answered.
    pub fn output(&self) -> (output: &O)
        ensures
            *output == self@.output,
    {
        &self.output
    }

    /// What the rank answered.
    pub fn into_output(self) -> (output: O)
        ensures
            output == self@.output,
    {
        self.output
    }
}

/// What went wrong on one rank.
#[derive(Clone, Debug, PartialEq, Eq)]
pub struct RankFailure {
    pub rank: TensorParallelRank,
    pub message: String,
}

/// What a [`RankFailure`] says.
pub struct Failure {
    pub rank: TensorParallelRank,
    pub message: Seq<char>,
}

impl View for RankFailure {
    type V = Failure;

    open spec fn view(&self) -> Failure {
        Failure { rank: self.rank, message: self.message@ }
    }
}

/// What several failures say.
pub open spec fn failure_views(failures: Seq<RankFailure>) -> Seq<Failure> {
    failures.map_values(|failure: RankFailure| failure@)
}

} // verus!
