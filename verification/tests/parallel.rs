use sglang_srt::parallel::{
    ParallelTopologyError, RankFailure, RankWorker, TensorParallelRank, TensorParallelTopology,
    TensorPartition, TensorPartitionError,
};
use sglang_srt::worker_group::{
    rank_step, shutdown_event, shutdown_outcome, startup_event, startup_outcome,
    step_after_report, Execution, GroupState, RankCommand, RankEvent, RankStep, WorkerGroupError,
};

struct ArithmeticWorker {
    rank: TensorParallelRank,
    shutdown_count: usize,
}

impl RankWorker for ArithmeticWorker {
    type Command = usize;
    type Output = usize;
    type Error = String;

    fn execute(&mut self, command: Self::Command) -> Result<Self::Output, Self::Error> {
        Ok(command + self.rank.global_rank())
    }

    fn shutdown(&mut self) -> Result<(), Self::Error> {
        self.shutdown_count += 1;
        Ok(())
    }
}

#[test]
fn topology_maps_global_local_rank_and_device_without_platform_names() {
    let topology = TensorParallelTopology::new(8, 2, 1, 2, 3).expect("topology");
    let ranks = topology.local_ranks();

    assert_eq!(topology.world_size(), 8);
    assert_eq!(topology.node_count(), 2);
    assert_eq!(topology.node_rank(), 1);
    assert_eq!(ranks.len(), 4);
    assert_eq!(ranks[0].global_rank(), 4);
    assert_eq!(ranks[0].local_rank(), 0);
    assert_eq!(ranks[0].device_ordinal(), 2);
    assert_eq!(ranks[3].global_rank(), 7);
    assert_eq!(ranks[3].local_rank(), 3);
    assert_eq!(ranks[3].device_ordinal(), 11);
}

#[test]
fn topology_fails_fast_on_invalid_geometry() {
    assert_eq!(
        TensorParallelTopology::new(0, 1, 0, 0, 1),
        Err(ParallelTopologyError::ZeroWorldSize)
    );
    assert_eq!(
        TensorParallelTopology::new(4, 0, 0, 0, 1),
        Err(ParallelTopologyError::ZeroNodeCount)
    );
    assert_eq!(
        TensorParallelTopology::new(4, 2, 2, 0, 1),
        Err(ParallelTopologyError::InvalidNodeRank {
            node_rank: 2,
            node_count: 2,
        })
    );
    assert_eq!(
        TensorParallelTopology::new(3, 2, 0, 0, 1),
        Err(ParallelTopologyError::WorldSizeNotDivisible {
            world_size: 3,
            node_count: 2,
        })
    );
    assert_eq!(
        TensorParallelTopology::new(2, 1, 0, 0, 0),
        Err(ParallelTopologyError::ZeroDeviceOrdinalStep)
    );
}

#[test]
fn tensor_partition_maps_standard_and_replicated_rank_slices() {
    let topology = TensorParallelTopology::new(8, 1, 0, 0, 1).expect("topology");
    let rank_five = topology.local_ranks()[5];

    let standard = TensorPartition::for_rank(rank_five);
    assert_eq!(standard.range(64).expect("standard range"), 40..48);

    let replicated =
        TensorPartition::for_replicated_shards(rank_five, 2).expect("replicated KV shard");
    assert_eq!(replicated.partition_count(), 2);
    assert_eq!(replicated.partition_index(), 1);
    assert_eq!(replicated.range(16).expect("replicated range"), 8..16);
}

#[test]
fn tensor_partition_rejects_uneven_or_invalid_shards() {
    let rank = TensorParallelTopology::new(4, 1, 0, 0, 1)
        .expect("topology")
        .local_ranks()[3];
    assert_eq!(
        TensorPartition::for_rank(rank).range(10),
        Err(TensorPartitionError::ExtentNotDivisible {
            extent: 10,
            partition_count: 4,
        })
    );
    assert_eq!(
        TensorPartition::for_replicated_shards(rank, 3),
        Err(TensorPartitionError::WorldSizeNotDivisibleByShardCount {
            world_size: 4,
            shard_count: 3,
        })
    );
}

#[test]
fn worker_group_broadcasts_in_rank_order_and_shuts_down_each_rank() {
    let topology = TensorParallelTopology::new(3, 1, 0, 0, 1).expect("topology");
    let mut workers: Vec<ArithmeticWorker> = topology
        .local_ranks()
        .iter()
        .map(|rank| ArithmeticWorker {
            rank: *rank,
            shutdown_count: 0,
        })
        .collect();
    let mut failures: Vec<RankFailure> = Vec::new();
    for worker in &workers {
        startup_event::<usize>(&mut failures, RankEvent::Ready { rank: worker.rank });
    }
    startup_outcome(failures).expect("worker group");

    let mut state = GroupState::launched();
    let sequence = state.begin_execution().expect("open group");
    let mut execution = Execution::begin(sequence, Vec::new());
    // The last rank answers first.
    for worker in workers.iter_mut().rev() {
        let result = worker.execute(10);
        execution
            .take_event(RankEvent::Executed {
                rank: worker.rank,
                sequence,
                result,
            })
            .expect("expected event");
    }
    let outputs = execution.finish().expect("broadcast");
    assert_eq!(
        outputs
            .iter()
            .map(|output| (output.rank().global_rank(), *output.output()))
            .collect::<Vec<_>>(),
        vec![(0, 10), (1, 11), (2, 12)]
    );

    let sequence = state.begin_shutdown().expect("first shutdown");
    let mut failures: Vec<RankFailure> = Vec::new();
    for worker in workers.iter_mut() {
        let result = worker.shutdown();
        shutdown_event::<usize>(
            &mut failures,
            RankEvent::Stopped {
                rank: worker.rank,
                sequence,
                result,
            },
            sequence,
        );
    }
    shutdown_outcome(failures).expect("shutdown");
    assert_eq!(workers.iter().map(|w| w.shutdown_count).sum::<usize>(), 3);
    assert!(state.begin_shutdown().is_none());
    assert_eq!(state.begin_execution(), Err(WorkerGroupError::AlreadyShutdown));
}

#[test]
fn worker_group_reports_the_failing_startup_rank() {
    let topology = TensorParallelTopology::new(2, 1, 0, 4, 2).expect("topology");
    let mut failures: Vec<RankFailure> = Vec::new();
    for rank in topology.local_ranks() {
        let event = if rank.global_rank() == 1 {
            RankEvent::<usize>::StartupFailed {
                rank: *rank,
                message: "rank initialization rejected".to_string(),
            }
        } else {
            RankEvent::<usize>::Ready { rank: *rank }
        };
        startup_event(&mut failures, event);
    }
    let error = startup_outcome(failures).expect_err("rank one must fail");

    let WorkerGroupError::RankFailures { stage, failures } = error else {
        panic!("unexpected error");
    };
    assert_eq!(stage, "startup");
    assert_eq!(failures.len(), 1);
    assert_eq!(failures[0].rank.global_rank(), 1);
    assert_eq!(failures[0].rank.device_ordinal(), 6);
    assert_eq!(failures[0].message, "rank initialization rejected");
}

#[test]
fn every_rank_lies_on_one_node() {
    let mut seen = Vec::new();
    for node in 0..3 {
        let topology = TensorParallelTopology::new(6, 3, node, 0, 1).expect("topology");
        for rank in topology.local_ranks() {
            seen.push(rank.global_rank());
            assert_eq!(rank.world_size(), 6);
        }
    }
    assert_eq!(seen, vec![0, 1, 2, 3, 4, 5]);
}

#[test]
fn parts_of_an_extent_follow_each_other() {
    let mut at = 0;
    for index in 0..4 {
        let range = TensorPartition::new(4, index).expect("part").range(20).expect("range");
        assert_eq!(range.start, at);
        at = range.end;
    }
    assert_eq!(at, 20);
    assert_eq!(
        TensorPartition::new(0, 0),
        Err(TensorPartitionError::ZeroPartitionCount)
    );
    assert_eq!(
        TensorPartition::new(2, 2),
        Err(TensorPartitionError::InvalidPartitionIndex {
            partition_index: 2,
            partition_count: 2
        })
    );
}

#[test]
fn answers_of_another_sequence_are_refused() {
    let topology = TensorParallelTopology::new(1, 1, 0, 0, 1).expect("topology");
    let rank = topology.local_ranks()[0];
    let mut execution: Execution<usize> = Execution::begin(4, Vec::new());
    assert!(execution
        .take_event(RankEvent::Executed {
            rank,
            sequence: 3,
            result: Ok(1)
        })
        .is_err());
    let mut execution: Execution<usize> = Execution::begin(4, Vec::new());
    execution
        .take_event(RankEvent::Executed {
            rank,
            sequence: 4,
            result: Err("broken".to_string()),
        })
        .expect("expected event");
    match execution.finish() {
        Err(WorkerGroupError::RankFailures { failures, .. }) => {
            assert_eq!(failures[0].message, "broken")
        }
        _ => panic!("a failing rank must fail the execution"),
    }
}

#[test]
fn ranks_stop_where_nothing_more_can_come() {
    let told = RankCommand::Execute { sequence: 4, command: "work" };
    assert!(matches!(
        rank_step(Some(told)),
        RankStep::Execute { sequence: 4, command: "work" }
    ));
    let stop: RankStep<&str> = rank_step(Some(RankCommand::Shutdown { sequence: 5 }));
    assert!(matches!(stop, RankStep::Stop { sequence: Some(5) }));
    let closed: RankStep<&str> = rank_step(None);
    assert!(matches!(closed, RankStep::Stop { sequence: None }));
    assert!(step_after_report::<&str>(true).is_none());
    assert!(matches!(
        step_after_report::<&str>(false),
        Some(RankStep::Stop { sequence: None })
    ));
}
