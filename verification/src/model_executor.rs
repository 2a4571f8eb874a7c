//! What a model is run on, and what becomes of its output.
use vstd::prelude::*;
use vstd::string::*;

use crate::bootstrap_publisher::DisaggregatedParams;
use crate::types::{names, RequestId};
use crate::wire::seqs;

verus! {

/// Whether a batch reads prompts or makes tokens.
#[derive(Clone, Copy, Debug, PartialEq, Eq, Structural)]
pub enum ForwardMode {
    Prefill,
    Decode,
}

/// The number of a cache page.
#[derive(Clone, Copy, Debug, PartialEq, Eq, Structural)]
pub struct CachePageId {
    pub index: usize,
}

impl CachePageId {
    /// The number of the page.
    pub fn as_usize(self) -> (index: usize)
        ensures
            index == self.index,
    {
        self.index
    }
}

/// When a request is finished.
#[derive(Clone, Debug)]
pub struct StopRule {
    pub ignore_eos: bool,
    pub stop_token_ids: Vec<u32>,
}

/// A request that is to be run.
#[derive(Debug)]
pub struct ScheduledRequest {
    pub request_id: RequestId,
    pub input_ids: Vec<u32>,
    pub uncached_input_ids: Vec<u32>,
    pub output_ids: Vec<u32>,
    pub forward_prefix_token_count: usize,
    pub prefix_cache_pages: Vec<CachePageId>,
    pub sequence_cache_pages: Vec<CachePageId>,
    pub forward_cache_pages: Vec<CachePageId>,
    pub disaggregated_params: Option<DisaggregatedParams>,
    pub data_parallel_rank: i32,
    pub stop_rule: StopRule,
}

/// The requests that are to be run together.
#[derive(Debug)]
pub struct ScheduleBatch {
    pub forward_mode: ForwardMode,
    pub requests: Vec<ScheduledRequest>,
}

/// What a model is run on: the requests of a batch, one after the other.
#[derive(Clone, Debug, PartialEq, Eq)]
pub struct ModelWorkerBatch {
    forward_mode: ForwardMode,
    request_ids: Vec<RequestId>,
    input_ids: Vec<u32>,
    positions: Vec<usize>,
    sequence_lengths: Vec<usize>,
    sequence_token_ids: Vec<u32>,
    sequence_offsets: Vec<usize>,
    sequence_token_counts: Vec<usize>,
    sequence_cache_pages: Vec<CachePageId>,
    request_offsets: Vec<usize>,
    cached_token_counts: Vec<usize>,
    input_token_counts: Vec<usize>,
    prefix_cache_pages: Vec<Vec<CachePageId>>,
    out_cache_pages: Vec<CachePageId>,
    disaggregated_params: Vec<Option<DisaggregatedParams>>,
    data_parallel_ranks: Vec<i32>,
}

/// Where two servers meet.
pub struct MeetingPlace {
    pub host: Seq<char>,
    pub port: u16,
    pub room: u64,
}

/// Where two servers meet, where it is given.
pub open spec fn meeting_place(params: Option<DisaggregatedParams>) -> Option<MeetingPlace> {
    match params {
        Some(place) => Some(
            MeetingPlace {
                host: place.bootstrap_host@,
                port: place.bootstrap_port,
                room: place.bootstrap_room,
            },
        ),
        None => None,
    }
}

/// Where servers meet over each of several requests.
pub open spec fn meeting_places(list: Seq<Option<DisaggregatedParams>>) -> Seq<
    Option<MeetingPlace>,
> {
    list.map_values(|params: Option<DisaggregatedParams>| meeting_place(params))
}

/// What a [`ModelWorkerBatch`] holds.
pub struct WorkerBatch {
    pub forward_mode: ForwardMode,
    pub request_ids: Seq<Seq<char>>,
    pub input_ids: Seq<u32>,
    pub positions: Seq<usize>,
    pub sequence_lengths: Seq<usize>,
    pub sequence_token_ids: Seq<u32>,
    pub sequence_offsets: Seq<usize>,
    pub sequence_token_counts: Seq<usize>,
    pub sequence_cache_pages: Seq<CachePageId>,
    pub request_offsets: Seq<usize>,
    pub cached_token_counts: Seq<usize>,
    pub input_token_counts: Seq<usize>,
    pub prefix_cache_pages: Seq<Seq<CachePageId>>,
    pub out_cache_pages: Seq<CachePageId>,
    pub meeting_places: Seq<Option<MeetingPlace>>,
    pub data_parallel_ranks: Seq<i32>,
}

impl View for ModelWorkerBatch {
    type V = WorkerBatch;

    closed spec fn view(&self) -> WorkerBatch {
        WorkerBatch {
            forward_mode: self.forward_mode,
            request_ids: names(self.request_ids@),
            input_ids: self.input_ids@,
            positions: self.positions@,
            sequence_lengths: self.sequence_lengths@,
            sequence_token_ids: self.sequence_token_ids@,
            sequence_offsets: self.sequence_offsets@,
            sequence_token_counts: self.sequence_token_counts@,
            sequence_cache_pages: self.sequence_cache_pages@,
            request_offsets: self.request_offsets@,
            cached_token_counts: self.cached_token_counts@,
            input_token_counts: self.input_token_counts@,
            prefix_cache_pages: seqs(self.prefix_cache_pages@),
            out_cache_pages: self.out_cache_pages@,
            meeting_places: meeting_places(self.disaggregated_params@),
            data_parallel_ranks: self.data_parallel_ranks@,
        }
    }
}

/// A batch without requests.
pub open spec fn empty_batch(forward_mode: ForwardMode) -> WorkerBatch {
    WorkerBatch {
        forward_mode,
        request_ids: Seq::empty(),
        input_ids: Seq::empty(),
        positions: Seq::empty(),
        sequence_lengths: Seq::empty(),
        sequence_token_ids: Seq::empty(),
        sequence_offsets: Seq::empty(),
        sequence_token_counts: Seq::empty(),
        sequence_cache_pages: Seq::empty(),
        request_offsets: Seq::empty(),
        cached_token_counts: Seq::empty(),
        input_token_counts: Seq::empty(),
        prefix_cache_pages: Seq::empty(),
        out_cache_pages: Seq::empty(),
        meeting_places: Seq::empty(),
        data_parallel_ranks: Seq::empty(),
    }
}

/// The tokens of a request that the model reads.
pub open spec fn inputs_of(mode: ForwardMode, request: ScheduledRequest) -> Seq<u32> {
    match mode {
        ForwardMode::Prefill => request.uncached_input_ids@,
        ForwardMode::Decode => seq![
            if request.output_ids@.len() > 0 {
                request.output_ids@.last()
            } else {
                0u32
            },
        ],
    }
}

/// The places of the tokens that the model reads in the request's sequence.
pub open spec fn positions_of(mode: ForwardMode, request: ScheduledRequest) -> Seq<usize> {
    match mode {
        ForwardMode::Prefill => Seq::new(
            request.uncached_input_ids@.len(),
            |i: int| (request.prefix_cache_pages@.len() + i) as usize,
        ),
        ForwardMode::Decode => seq![
            (request.input_ids@.len() + request.output_ids@.len() - 1) as usize,
        ],
    }
}

/// The tokens of a request so far.
pub open spec fn sequence_of(mode: ForwardMode, request: ScheduledRequest) -> Seq<u32> {
    match mode {
        ForwardMode::Prefill => request.input_ids@,
        ForwardMode::Decode => request.input_ids@ + request.output_ids@,
    }
}

/// A batch with one request more.
pub open spec fn with_request(batch: WorkerBatch, request: ScheduledRequest) -> WorkerBatch {
    let mode = batch.forward_mode;
    WorkerBatch {
        forward_mode: mode,
        request_ids: batch.request_ids.push(request.request_id@),
        input_ids: batch.input_ids + inputs_of(mode, request),
        positions: batch.positions + positions_of(mode, request),
        sequence_lengths: batch.sequence_lengths.push(sequence_of(mode, request).len() as usize),
        sequence_token_ids: batch.sequence_token_ids + sequence_of(mode, request),
        sequence_offsets: batch.sequence_offsets.push(batch.sequence_token_ids.len() as usize),
        sequence_token_counts: batch.sequence_token_counts.push(
            sequence_of(mode, request).len() as usize,
        ),
        sequence_cache_pages: batch.sequence_cache_pages + request.sequence_cache_pages@,
        request_offsets: batch.request_offsets.push(batch.input_ids.len() as usize),
        cached_token_counts: batch.cached_token_counts.push(request.forward_prefix_token_count),
        input_token_counts: batch.input_token_counts.push(inputs_of(mode, request).len() as usize),
        prefix_cache_pages: batch.prefix_cache_pages.push(request.prefix_cache_pages@),
        out_cache_pages: batch.out_cache_pages + request.forward_cache_pages@,
        meeting_places: batch.meeting_places.push(meeting_place(request.disaggregated_params)),
        data_parallel_ranks: batch.data_parallel_ranks.push(request.data_parallel_rank),
    }
}

/// The batch of several requests.
pub open spec fn batch_of(mode: ForwardMode, requests: Seq<ScheduledRequest>) -> WorkerBatch
    decreases requests.len(),
{
    if requests.len() == 0 {
        empty_batch(mode)
    } else {
        with_request(batch_of(mode, requests.drop_last()), requests.last())
    }
}

/// Whether the places of a request's tokens are sizes, and a decoded request has a token.
pub open spec fn can_run(mode: ForwardMode, request: ScheduledRequest) -> bool {
    match mode {
        ForwardMode::Prefill => request.prefix_cache_pages@.len()
            + request.uncached_input_ids@.len() <= usize::MAX,
        ForwardMode::Decode => 0 < request.input_ids@.len() + request.output_ids@.len()
            <= usize::MAX,
    }
}

fn extend_numbers(list: &mut Vec<u32>, more: &Vec<u32>)
    ensures
        final(list)@ == old(list)@ + more@,
{
    let ghost start = list@;
    let mut i: usize = 0;
    proof {
        assert(start + more@.take(0) =~= start);
    }
    while i < more.len()
        invariant
            i <= more@.len(),
            list@ == start + more@.take(i as int),
        decreases more@.len() - i,
    {
        list.push(more[i]);
        i = i + 1;
        proof {
            assert(start + more@.take(i as int) =~= (start + more@.take(i - 1)).push(more@[i - 1]));
        }
    }
    proof {
        assert(more@.take(i as int) =~= more@);
    }
}

fn extend_pages(list: &mut Vec<CachePageId>, more: &Vec<CachePageId>)
    ensures
        final(list)@ == old(list)@ + more@,
{
    let ghost start = list@;
    let mut i: usize = 0;
    proof {
        assert(start + more@.take(0) =~= start);
    }
    while i < more.len()
        invariant
            i <= more@.len(),
            list@ == start + more@.take(i as int),
        decreases more@.len() - i,
    {
        list.push(more[i]);
        i = i + 1;
        proof {
            assert(start + more@.take(i as int) =~= (start + more@.take(i - 1)).push(more@[i - 1]));
        }
    }
    proof {
        assert(more@.take(i as int) =~= more@);
    }
}

fn copy_params(params: &Option<DisaggregatedParams>) -> (copy: Option<DisaggregatedParams>)
    ensures
        meeting_place(copy) == meeting_place(*params),
{
    match params {
        Some(place) => Some(
            DisaggregatedParams {
                bootstrap_host: place.bootstrap_host.clone(),
                bootstrap_port: place.bootstrap_port,
                bootstrap_room: place.bootstrap_room,
            },
        ),
        None => None,
    }
}

impl ModelWorkerBatch {
    /// The batch of the requests of a schedule.
    pub fn from_schedule_batch(batch: &ScheduleBatch) -> (worker_batch: Self)
        requires
            forall|i: int|
                0 <= i < batch.requests@.len() ==> can_run(
                    batch.forward_mode,
                    #[trigger] batch.requests@[i],
                ),
        ensures
            worker_batch@ == batch_of(batch.forward_mode, batch.requests@),
            worker_batch@.input_ids.len() <= usize::MAX,
            worker_batch@.sequence_token_ids.len() <= usize::MAX,
    {
        let mut worker_batch = ModelWorkerBatch {
            forward_mode: batch.forward_mode,
            request_ids: Vec::new(),
            input_ids: Vec::new(),
            positions: Vec::new(),
            sequence_lengths: Vec::new(),
            sequence_token_ids: Vec::new(),
            sequence_offsets: Vec::new(),
            sequence_token_counts: Vec::new(),
            sequence_cache_pages: Vec::new(),
            request_offsets: Vec::new(),
            cached_token_counts: Vec::new(),
            input_token_counts: Vec::new(),
            prefix_cache_pages: Vec::new(),
            out_cache_pages: Vec::new(),
            disaggregated_params: Vec::new(),
            data_parallel_ranks: Vec::new(),
        };
        let mut i: usize = 0;
        proof {
            assert(worker_batch@.request_ids =~= Seq::empty());
            assert(worker_batch@.prefix_cache_pages =~= Seq::empty());
            assert(worker_batch@.meeting_places =~= Seq::empty());
            assert(batch.requests@.take(0) =~= Seq::empty());
        }
        while i < batch.requests.len()
            invariant
                i <= batch.requests@.len(),
                forall|j: int|
                    0 <= j < batch.requests@.len() ==> can_run(
                        batch.forward_mode,
                        #[trigger] batch.requests@[j],
                    ),
                worker_batch@ == batch_of(batch.forward_mode, batch.requests@.take(i as int)),
                worker_batch@.forward_mode == batch.forward_mode,
            decreases batch.requests@.len() - i,
        {
            proof {
                assert(batch.requests@.take(i + 1).drop_last() =~= batch.requests@.take(i as int));
            }
            worker_batch.push_request(&batch.requests[i]);
            i = i + 1;
        }
        proof {
            assert(batch.requests@.take(i as int) =~= batch.requests@);
            assert(worker_batch.input_ids.len() == worker_batch@.input_ids.len());
            assert(worker_batch.sequence_token_ids.len() == worker_batch@.sequence_token_ids.len());
        }
        worker_batch
    }

    /// Adds a request.
    fn push_request(&mut self, request: &ScheduledRequest)
        requires
            can_run(old(self)@.forward_mode, *request),
        ensures
            final(self)@ == with_request(old(self)@, *request),
    {
        let ghost before = self@;
        let ghost ids = names(self.request_ids@);
        let ghost prefixes = seqs(self.prefix_cache_pages@);
        let ghost places = meeting_places(self.disaggregated_params@);
        self.request_ids.push(request.request_id.clone());
        self.request_offsets.push(self.input_ids.len());
        self.cached_token_counts.push(request.forward_prefix_token_count);
        let mut prefix: Vec<CachePageId> = Vec::new();
        extend_pages(&mut prefix, &request.prefix_cache_pages);
        proof {
            assert(prefix@ =~= request.prefix_cache_pages@);
        }
        self.prefix_cache_pages.push(prefix);
        self.disaggregated_params.push(copy_params(&request.disaggregated_params));
        self.data_parallel_ranks.push(request.data_parallel_rank);
        proof {
            assert(names(self.request_ids@) =~= ids.push(request.request_id@));
            assert(seqs(self.prefix_cache_pages@) =~= prefixes.push(request.prefix_cache_pages@));
            assert(meeting_places(self.disaggregated_params@) =~= places.push(
                meeting_place(request.disaggregated_params),
            ));
        }
        match self.forward_mode {
            ForwardMode::Prefill => self.push_prefill_request(request),
            ForwardMode::Decode => self.push_decode_request(request),
        }
    }

    /// Adds the tokens of a request whose prompt is read.
    fn push_prefill_request(&mut self, request: &ScheduledRequest)
        requires
            old(self)@.forward_mode == ForwardMode::Prefill,
            can_run(ForwardMode::Prefill, *request),
        ensures
            final(self)@ == (WorkerBatch {
                input_ids: old(self)@.input_ids + request.uncached_input_ids@,
                positions: old(self)@.positions + positions_of(ForwardMode::Prefill, *request),
                sequence_lengths: old(self)@.sequence_lengths.push(
                    request.input_ids@.len() as usize,
                ),
                sequence_token_ids: old(self)@.sequence_token_ids + request.input_ids@,
                sequence_offsets: old(self)@.sequence_offsets.push(
                    old(self)@.sequence_token_ids.len() as usize,
                ),
                sequence_token_counts: old(self)@.sequence_token_counts.push(
                    request.input_ids@.len() as usize,
                ),
                sequence_cache_pages: old(self)@.sequence_cache_pages
                    + request.sequence_cache_pages@,
                input_token_counts: old(self)@.input_token_counts.push(
                    request.uncached_input_ids@.len() as usize,
                ),
                out_cache_pages: old(self)@.out_cache_pages + request.forward_cache_pages@,
                ..old(self)@
            }),
    {
        let prefix_len: usize = request.prefix_cache_pages.len();
        let count: usize = request.uncached_input_ids.len();
        self.sequence_offsets.push(self.sequence_token_ids.len());
        extend_numbers(&mut self.sequence_token_ids, &request.input_ids);
        self.sequence_token_counts.push(request.input_ids.len());
        extend_pages(&mut self.sequence_cache_pages, &request.sequence_cache_pages);
        extend_numbers(&mut self.input_ids, &request.uncached_input_ids);
        self.input_token_counts.push(count);
        extend_pages(&mut self.out_cache_pages, &request.forward_cache_pages);
        let mut positions = self.take_positions();
        let ghost start = positions@;
        let ghost wanted = positions_of(ForwardMode::Prefill, *request);
        let mut i: usize = 0;
        proof {
            assert(start + wanted.take(0) =~= start);
        }
        while i < count
            invariant
                i <= count,
                prefix_len + count <= usize::MAX,
                prefix_len == request.prefix_cache_pages@.len(),
                count == request.uncached_input_ids@.len(),
                wanted == positions_of(ForwardMode::Prefill, *request),
                positions@ == start + wanted.take(i as int),
            decreases count - i,
        {
            positions.push(prefix_len + i);
            i = i + 1;
            proof {
                assert(start + wanted.take(i as int) =~= (start + wanted.take(i - 1)).push(
                    wanted[i - 1],
                ));
            }
        }
        proof {
            assert(wanted.take(i as int) =~= wanted);
        }
        self.positions = positions;
        self.sequence_lengths.push(request.input_ids.len());
    }

    /// Takes the positions out of the batch.
    fn take_positions(&mut self) -> (positions: Vec<usize>)
        ensures
            positions@ == old(self)@.positions,
            final(self)@ == (WorkerBatch { positions: Seq::empty(), ..old(self)@ }),
    {
        let mut positions: Vec<usize> = Vec::new();
        std::mem::swap(&mut positions, &mut self.positions);
        proof {
            assert(self@.positions =~= Seq::empty());
        }
        positions
    }

    /// Adds the tokens of a request that makes tokens.
    fn push_decode_request(&mut self, request: &ScheduledRequest)
        requires
            old(self)@.forward_mode == ForwardMode::Decode,
            can_run(ForwardMode::Decode, *request),
        ensures
            final(self)@ == (WorkerBatch {
                input_ids: old(self)@.input_ids + inputs_of(ForwardMode::Decode, *request),
                positions: old(self)@.positions + positions_of(ForwardMode::Decode, *request),
                sequence_lengths: old(self)@.sequence_lengths.push(
                    (request.input_ids@ + request.output_ids@).len() as usize,
                ),
                sequence_token_ids: old(self)@.sequence_token_ids + (request.input_ids@
                    + request.output_ids@),
                sequence_offsets: old(self)@.sequence_offsets.push(
                    old(self)@.sequence_token_ids.len() as usize,
                ),
                sequence_token_counts: old(self)@.sequence_token_counts.push(
                    (request.input_ids@ + request.output_ids@).len() as usize,
                ),
                sequence_cache_pages: old(self)@.sequence_cache_pages
                    + request.sequence_cache_pages@,
                input_token_counts: old(self)@.input_token_counts.push(1),
                out_cache_pages: old(self)@.out_cache_pages + request.forward_cache_pages@,
                ..old(self)@
            }),
    {
        let ghost before = self@;
        let decode_token: u32 = if request.output_ids.len() > 0 {
            request.output_ids[request.output_ids.len() - 1]
        } else {
            0
        };
        let total: usize = request.input_ids.len() + request.output_ids.len();
        self.sequence_offsets.push(self.sequence_token_ids.len());
        extend_numbers(&mut self.sequence_token_ids, &request.input_ids);
        extend_numbers(&mut self.sequence_token_ids, &request.output_ids);
        self.sequence_token_counts.push(total);
        extend_pages(&mut self.sequence_cache_pages, &request.sequence_cache_pages);
        self.input_ids.push(decode_token);
        self.input_token_counts.push(1);
        extend_pages(&mut self.out_cache_pages, &request.forward_cache_pages);
        self.positions.push(total - 1);
        self.sequence_lengths.push(total);
        proof {
            assert(self@.sequence_token_ids =~= before.sequence_token_ids + (request.input_ids@
                + request.output_ids@));
            assert(self@.input_ids =~= before.input_ids + inputs_of(
                ForwardMode::Decode,
                *request,
            ));
            assert(self@.positions =~= before.positions + positions_of(
                ForwardMode::Decode,
                *request,
            ));
        }
    }

    /// Whether the batch reads prompts or makes tokens.
    pub fn forward_mode(&self) -> (mode: ForwardMode)
        ensures
            mode == self@.forward_mode,
    {
        self.forward_mode
    }

    /// The names of the requests.
    pub fn request_ids(&self) -> (ids: &[RequestId])
        ensures
            names(ids@) == self@.request_ids,
    {
        self.request_ids.as_slice()
    }

    /// The tokens that the model reads.
    pub fn input_ids(&self) -> (ids: &[u32])
        ensures
            ids@ == self@.input_ids,
    {
        self.input_ids.as_slice()
    }

    /// The places of the tokens in their sequences.
    pub fn positions(&self) -> (positions: &[usize])
        ensures
            positions@ == self@.positions,
    {
        self.positions.as_slice()
    }

    /// The length of each sequence.
    pub fn sequence_lengths(&self) -> (lengths: &[usize])
        ensures
            lengths@ == self@.sequence_lengths,
    {
        self.sequence_lengths.as_slice()
    }

    /// The tokens of the sequences.
    pub fn sequence_token_ids(&self) -> (ids: &[u32])
        ensures
            ids@ == self@.sequence_token_ids,
    {
        self.sequence_token_ids.as_slice()
    }

    /// Where each sequence starts.
    pub fn sequence_offsets(&self) -> (offsets: &[usize])
        ensures
            offsets@ == self@.sequence_offsets,
    {
        self.sequence_offsets.as_slice()
    }

    /// How many tokens each sequence has.
    pub fn sequence_token_counts(&self) -> (counts: &[usize])
        ensures
            counts@ == self@.sequence_token_counts,
    {
        self.sequence_token_counts.as_slice()
    }

    /// The cache pages of the sequences.
    pub fn sequence_cache_pages(&self) -> (pages: &[CachePageId])
        ensures
            pages@ == self@.sequence_cache_pages,
    {
        self.sequence_cache_pages.as_slice()
    }

    /// Where the tokens of each request start.
    pub fn request_offsets(&self) -> (offsets: &[usize])
        ensures
            offsets@ == self@.request_offsets,
    {
        self.request_offsets.as_slice()
    }

    /// How many tokens of each request are cached.
    pub fn cached_token_counts(&self) -> (counts: &[usize])
        ensures
            counts@ == self@.cached_token_counts,
    {
        self.cached_token_counts.as_slice()
    }

    /// How many tokens of each request the model reads.
    pub fn input_token_counts(&self) -> (counts: &[usize])
        ensures
            counts@ == self@.input_token_counts,
    {
        self.input_token_counts.as_slice()
    }

    /// The cached pages of each request.
    pub fn prefix_cache_pages(&self) -> (pages: &[Vec<CachePageId>])
        ensures
            seqs(pages@) == self@.prefix_cache_pages,
    {
        self.prefix_cache_pages.as_slice()
    }

    /// The pages that the model fills.
    pub fn out_cache_pages(&self) -> (pages: &[CachePageId])
        ensures
            pages@ == self@.out_cache_pages,
    {
        self.out_cache_pages.as_slice()
    }

    /// Where servers meet over each request.
    pub fn disaggregated_params(&self) -> (params: &[Option<DisaggregatedParams>])
        ensures
            meeting_places(params@) == self@.meeting_places,
    {
        self.disaggregated_params.as_slice()
    }

    /// The data parallel rank of each request.
    pub fn data_parallel_ranks(&self) -> (ranks: &[i32])
        ensures
            ranks@ == self@.data_parallel_ranks,
    {
        self.data_parallel_ranks.as_slice()
    }

    /// The last token of each request that the model reads.
    pub fn last_input_token_ids(&self) -> (tokens: Vec<u32>)
        requires
            self@.request_offsets.len() == self@.input_token_counts.len(),
            forall|i: int|
                0 <= i < self@.request_offsets.len() ==> 0 < #[trigger] self@.request_offsets[i]
                    + self@.input_token_counts[i] <= self@.input_ids.len(),
        ensures
            tokens@ == Seq::new(
                self@.request_offsets.len(),
                |i: int|
                    self@.input_ids[self@.request_offsets[i] + self@.input_token_counts[i] - 1],
            ),
    {
        let mut tokens: Vec<u32> = Vec::new();
        let total: usize = self.input_ids.len();
        let mut i: usize = 0;
        while i < self.request_offsets.len()
            invariant
                i <= self@.request_offsets.len(),
                total == self@.input_ids.len(),
                self@.request_offsets.len() == self@.input_token_counts.len(),
                forall|j: int|
                    0 <= j < self@.request_offsets.len() ==> 0
                        < #[trigger] self@.request_offsets[j] + self@.input_token_counts[j]
                        <= total,
                tokens@.len() == i,
                forall|j: int|
                    0 <= j < i ==> #[trigger] tokens@[j] == self@.input_ids[self@.request_offsets[j]
                        + self@.input_token_counts[j] - 1],
            decreases self@.request_offsets.len() - i,
        {
            proof {
                assert(0 < self@.request_offsets[i as int] + self@.input_token_counts[i as int]
                    <= total);
            }
            let end: usize = self.request_offsets[i] + self.input_token_counts[i];
            tokens.push(self.input_ids[end - 1]);
            i = i + 1;
        }
        proof {
            assert(tokens@ =~= Seq::new(
                self@.request_offsets.len(),
                |i: int|
                    self@.input_ids[self@.request_offsets[i] + self@.input_token_counts[i] - 1],
            ));
        }
        tokens
    }
}

} // verus!
