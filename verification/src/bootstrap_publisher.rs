//! What a decode server publishes to the prefill servers that feed it.
use vstd::prelude::*;
use vstd::string::*;

use crate::order::TextMap;
use crate::pd_bootstrap::{
    optional_int, KvArgs, MooncakeDecodeKvArgsRegistration, MooncakeDecodeTransferMetadata,
    Transfer,
};
use crate::text::{cat3, cat4, cat5, decimal, decimal_i64, decimal_u64, decimal_usize, signed_decimal};

verus! {

/// Where a decode server keeps its cache.
#[derive(Clone, Copy, Debug, PartialEq, Eq, Structural)]
pub struct MooncakeKvCacheLayout {
    pub source_base_addr: usize,
    pub page_size_bytes: usize,
}

/// Where the two servers of a split request meet.
#[derive(Clone, Debug, PartialEq, Eq)]
pub struct DisaggregatedParams {
    pub bootstrap_host: String,
    pub bootstrap_port: u16,
    pub bootstrap_room: u64,
}

/// The part of a request's cache that is to be transferred.
#[derive(Clone, Debug)]
pub struct KvCacheTransferSpan {
    pub disaggregated_params: DisaggregatedParams,
    pub data_parallel_rank: i32,
    pub token_offset: usize,
    pub token_count: usize,
    pub cache_pages: Vec<usize>,
}

/// Publishes where a decode server wants its requests' pages.
#[derive(Clone, Debug, PartialEq, Eq)]
pub struct MooncakeDecodeBootstrapPublisher {
    endpoint: String,
    dst_port: u16,
    mooncake_session_id: String,
    kv_cache_layout: Option<MooncakeKvCacheLayout>,
    target_tp_rank: i32,
    target_pp_rank: i32,
    dst_aux_index: Option<i32>,
    required_dst_info_num: usize,
    registered_kv_args_endpoints: TextMap<()>,
}

/// What a [`MooncakeDecodeBootstrapPublisher`] holds.
pub struct Publisher {
    pub endpoint: Seq<char>,
    pub dst_port: nat,
    pub mooncake_session_id: Seq<char>,
    pub kv_cache_layout: Option<MooncakeKvCacheLayout>,
    pub target_tp_rank: i32,
    pub target_pp_rank: i32,
    pub dst_aux_index: Option<int>,
    pub required_dst_info_num: nat,
    pub registered: Set<Seq<char>>,
}

impl View for MooncakeDecodeBootstrapPublisher {
    type V = Publisher;

    closed spec fn view(&self) -> Publisher {
        Publisher {
            endpoint: self.endpoint@,
            dst_port: self.dst_port as nat,
            mooncake_session_id: self.mooncake_session_id@,
            kv_cache_layout: self.kv_cache_layout,
            target_tp_rank: self.target_tp_rank,
            target_pp_rank: self.target_pp_rank,
            dst_aux_index: optional_int(self.dst_aux_index),
            required_dst_info_num: self.required_dst_info_num as nat,
            registered: self.registered_kv_args_endpoints@.dom(),
        }
    }
}

/// What is to be sent for one span.
#[derive(Debug)]
pub struct PublishStep {
    pub bootstrap_addr: String,
    pub prefill_dp_rank: i32,
    pub target_tp_rank: i32,
    pub target_pp_rank: i32,
    pub kv_args_registration: Option<MooncakeDecodeKvArgsRegistration>,
    pub metadata: MooncakeDecodeTransferMetadata,
    pub kv_args_registration_key: String,
}

/// The address of the bootstrap server of a span.
pub open spec fn bootstrap_addr(span: KvCacheTransferSpan) -> Seq<char> {
    span.disaggregated_params.bootstrap_host@ + ":"@ + decimal(
        span.disaggregated_params.bootstrap_port as nat,
    )
}

/// The key under which it is remembered that a rank knows the caches.
pub open spec fn registration_key(publisher: Publisher, span: KvCacheTransferSpan) -> Seq<char> {
    bootstrap_addr(span) + "|"@ + signed_decimal(span.data_parallel_rank as int) + "|"@
        + signed_decimal(publisher.target_tp_rank as int) + "|"@ + signed_decimal(
        publisher.target_pp_rank as int,
    ) + "|"@ + publisher.mooncake_session_id
}

/// What is told about the caches, where they have an address.
pub open spec fn registration_of(publisher: Publisher) -> Option<KvArgs> {
    match publisher.kv_cache_layout {
        Some(layout) => if layout.source_base_addr == 0 {
            None
        } else {
            Some(
                KvArgs {
                    room: "None"@,
                    endpoint: publisher.endpoint,
                    dst_port: publisher.dst_port,
                    mooncake_session_id: publisher.mooncake_session_id,
                    dst_kv_ptrs: seq![layout.source_base_addr as u64],
                    dst_aux_ptrs: Seq::empty(),
                    dst_state_data_ptrs: Seq::empty(),
                    dst_tp_rank: publisher.target_tp_rank as int,
                    dst_attn_tp_size: 1,
                    dst_kv_item_len: layout.page_size_bytes as nat,
                    dst_state_item_lens: Seq::empty(),
                    dst_state_dim_per_tensor: Seq::empty(),
                },
            )
        },
        None => None,
    }
}

/// The first page whose number does not fit in 31 bits.
pub open spec fn first_large_page(pages: Seq<usize>) -> Option<usize>
    decreases pages.len(),
{
    if pages.len() == 0 {
        None
    } else if first_large_page(pages.drop_last()) is Some {
        first_large_page(pages.drop_last())
    } else if pages.last() > i32::MAX {
        Some(pages.last())
    } else {
        None
    }
}

/// The page numbers as indices.
pub open spec fn page_indices(pages: Seq<usize>) -> Seq<i32> {
    pages.map_values(|page: usize| page as i32)
}

/// Where the pages of a span are wanted.
pub open spec fn metadata_of(publisher: Publisher, span: KvCacheTransferSpan) -> Transfer {
    Transfer {
        room: span.disaggregated_params.bootstrap_room as nat,
        endpoint: publisher.endpoint,
        dst_port: publisher.dst_port,
        mooncake_session_id: publisher.mooncake_session_id,
        dst_kv_indices: page_indices(span.cache_pages@),
        dst_aux_index: publisher.dst_aux_index,
        dst_state_indices: Seq::empty(),
        required_dst_info_num: publisher.required_dst_info_num,
        is_dummy: false,
        decode_prefix_len: Some((span.token_offset + span.token_count) as nat),
    }
}

/// What is said of a page whose number does not fit.
pub open spec fn large_page_message(page: usize) -> Seq<char> {
    "cache page "@ + decimal(page as nat) + " cannot fit into Mooncake metadata i32 index"@
}

proof fn lemma_large_page_stays(pages: Seq<usize>, i: int)
    requires
        0 <= i <= pages.len(),
    ensures
        first_large_page(pages.take(i)) is Some ==> first_large_page(pages) == first_large_page(
            pages.take(i),
        ),
    decreases pages.len() - i,
{
    if i < pages.len() {
        assert(pages.take(i + 1).drop_last() =~= pages.take(i));
        lemma_large_page_stays(pages, i + 1);
    } else {
        assert(pages.take(i) =~= pages);
    }
}

impl MooncakeDecodeBootstrapPublisher {
    /// The table of registrations is well formed.
    pub closed spec fn wf(self) -> bool {
        self.registered_kv_args_endpoints.wf()
    }

    /// A publisher for the decode server at `endpoint`.
    pub fn new(endpoint: String, dst_port: u16, mooncake_session_id: String) -> (publisher: Self)
        ensures
            publisher.wf(),
            publisher@ == (Publisher {
                endpoint: endpoint@,
                dst_port: dst_port as nat,
                mooncake_session_id: mooncake_session_id@,
                kv_cache_layout: None,
                target_tp_rank: 0,
                target_pp_rank: 0,
                dst_aux_index: Some(0),
                required_dst_info_num: 1,
                registered: Set::empty(),
            }),
    {
        let publisher = MooncakeDecodeBootstrapPublisher {
            endpoint,
            dst_port,
            mooncake_session_id,
            kv_cache_layout: None,
            target_tp_rank: 0,
            target_pp_rank: 0,
            dst_aux_index: Some(0),
            required_dst_info_num: 1,
            registered_kv_args_endpoints: TextMap::new(),
        };
        proof {
            assert(publisher@.registered =~= Set::empty());
        }
        publisher
    }

    /// Sets where the cache is kept.
    pub fn with_kv_cache_layout(self, kv_cache_layout: MooncakeKvCacheLayout) -> (publisher: Self)
        ensures
            publisher.wf() == self.wf(),
            publisher@ == (Publisher { kv_cache_layout: Some(kv_cache_layout), ..self@ }),
    {
        let mut publisher = self;
        publisher.kv_cache_layout = Some(kv_cache_layout);
        publisher
    }

    /// Sets the ranks that feed this server.
    pub fn with_target_ranks(self, target_tp_rank: i32, target_pp_rank: i32) -> (publisher: Self)
        ensures
            publisher.wf() == self.wf(),
            publisher@ == (Publisher { target_tp_rank, target_pp_rank, ..self@ }),
    {
        let mut publisher = self;
        publisher.target_tp_rank = target_tp_rank;
        publisher.target_pp_rank = target_pp_rank;
        publisher
    }

    /// Sets how many servers ask for the pages of a request.
    pub fn with_required_dst_info_num(self, required_dst_info_num: usize) -> (publisher: Self)
        ensures
            publisher.wf() == self.wf(),
            publisher@ == (Publisher {
                required_dst_info_num: required_dst_info_num as nat,
                ..self@
            }),
    {
        let mut publisher = self;
        publisher.required_dst_info_num = required_dst_info_num;
        publisher
    }

    /// Sets the aux index.
    pub fn with_dst_aux_index(self, dst_aux_index: Option<i32>) -> (publisher: Self)
        ensures
            publisher.wf() == self.wf(),
            publisher@ == (Publisher { dst_aux_index: optional_int(dst_aux_index), ..self@ }),
    {
        let mut publisher = self;
        publisher.dst_aux_index = dst_aux_index;
        publisher
    }

    /// Where the pages of a span are wanted.
    pub fn metadata_for_span(&self, span: &KvCacheTransferSpan) -> (metadata: Result<
        MooncakeDecodeTransferMetadata,
        String,
    >)
        requires
            span.token_offset + span.token_count <= usize::MAX,
        ensures
            match metadata {
                Ok(message) => first_large_page(span.cache_pages@) is None && message@
                    == metadata_of(self@, *span),
                Err(error) => first_large_page(span.cache_pages@) is Some && error@
                    == large_page_message(first_large_page(span.cache_pages@)->0),
            },
    {
        let pages = &span.cache_pages;
        let mut dst_kv_indices: Vec<i32> = Vec::new();
        let mut i: usize = 0;
        while i < pages.len()
            invariant
                i <= pages@.len(),
                *pages == span.cache_pages,
                first_large_page(pages@.take(i as int)) is None,
                dst_kv_indices@ == page_indices(pages@.take(i as int)),
            decreases pages@.len() - i,
        {
            let page: usize = pages[i];
            proof {
                assert(pages@.take(i + 1).drop_last() =~= pages@.take(i as int));
                lemma_large_page_stays(pages@, i + 1);
            }
            if page > 0x7fff_ffff {
                return Err(
                    cat3(
                        "cache page ",
                        decimal_usize(page).as_str(),
                        " cannot fit into Mooncake metadata i32 index",
                    ),
                );
            }
            dst_kv_indices.push(page as i32);
            i = i + 1;
            proof {
                assert(dst_kv_indices@ =~= page_indices(pages@.take(i as int)));
            }
        }
        proof {
            assert(pages@.take(i as int) =~= pages@);
        }
        let metadata = MooncakeDecodeTransferMetadata {
            room: span.disaggregated_params.bootstrap_room,
            endpoint: self.endpoint.clone(),
            dst_port: self.dst_port,
            mooncake_session_id: self.mooncake_session_id.clone(),
            dst_kv_indices,
            dst_aux_index: self.dst_aux_index,
            dst_state_indices: Vec::new(),
            required_dst_info_num: self.required_dst_info_num,
            decode_prefix_len: Some(span.token_offset + span.token_count),
            is_dummy: false,
        };
        proof {
            assert(metadata@.dst_state_indices =~= Seq::empty());
        }
        Ok(metadata)
    }

    /// What is told about the caches, where they have an address.
    pub fn kv_args_registration(&self) -> (registration: Option<MooncakeDecodeKvArgsRegistration>)
        ensures
            match registration {
                Some(args) => registration_of(self@) == Some(args@),
                None => registration_of(self@) is None,
            },
    {
        let layout = self.kv_cache_layout?;
        if layout.source_base_addr == 0 {
            return None;
        }
        let mut dst_kv_ptrs: Vec<u64> = Vec::new();
        dst_kv_ptrs.push(layout.source_base_addr as u64);
        let registration = MooncakeDecodeKvArgsRegistration {
            endpoint: self.endpoint.clone(),
            dst_port: self.dst_port,
            mooncake_session_id: self.mooncake_session_id.clone(),
            dst_kv_ptrs,
            dst_aux_ptrs: Vec::new(),
            dst_state_data_ptrs: Vec::new(),
            dst_tp_rank: self.target_tp_rank,
            dst_attn_tp_size: 1,
            dst_kv_item_len: layout.page_size_bytes,
            dst_state_item_lens: Vec::new(),
            dst_state_dim_per_tensor: Vec::new(),
        };
        proof {
            assert(registration@.dst_kv_ptrs =~= seq![layout.source_base_addr as u64]);
            assert(registration@.dst_state_data_ptrs =~= Seq::empty());
            assert(registration@.dst_state_item_lens =~= Seq::empty());
            assert(registration@.dst_state_dim_per_tensor =~= Seq::empty());
        }
        Some(registration)
    }

    /// What is told about the caches, where they have an address.
    pub fn kv_args_registration_for_test(&self) -> (registration: Option<
        MooncakeDecodeKvArgsRegistration,
    >)
        ensures
            match registration {
                Some(args) => registration_of(self@) == Some(args@),
                None => registration_of(self@) is None,
            },
    {
        self.kv_args_registration()
    }

    /// What is to be sent for a span: where its pages are wanted, and, until the rank knows them,
    /// what is told about the caches.
    pub fn publish_step(&self, span: &KvCacheTransferSpan) -> (step: Result<PublishStep, String>)
        requires
            self.wf(),
            span.token_offset + span.token_count <= usize::MAX,
        ensures
            match step {
                Ok(step) => {
                    &&& first_large_page(span.cache_pages@) is None
                    &&& step.metadata@ == metadata_of(self@, *span)
                    &&& step.bootstrap_addr@ == bootstrap_addr(*span)
                    &&& step.prefill_dp_rank == span.data_parallel_rank
                    &&& step.target_tp_rank == self@.target_tp_rank
                    &&& step.target_pp_rank == self@.target_pp_rank
                    &&& step.kv_args_registration_key@ == registration_key(self@, *span)
                    &&& match step.kv_args_registration {
                        Some(args) => !self@.registered.contains(registration_key(self@, *span))
                            && registration_of(self@) == Some(args@),
                        None => self@.registered.contains(registration_key(self@, *span))
                            || registration_of(self@) is None,
                    }
                },
                Err(error) => first_large_page(span.cache_pages@) is Some && error@
                    == large_page_message(first_large_page(span.cache_pages@)->0),
            },
    {
        let metadata = self.metadata_for_span(span)?;
        let bootstrap_addr = cat3(
            span.disaggregated_params.bootstrap_host.as_str(),
            ":",
            decimal_u64(span.disaggregated_params.bootstrap_port as u64).as_str(),
        );
        let ranks_head = cat4(
            bootstrap_addr.as_str(),
            "|",
            decimal_i64(span.data_parallel_rank as i64).as_str(),
            "|",
        );
        let ranks = cat5(
            ranks_head.as_str(),
            decimal_i64(self.target_tp_rank as i64).as_str(),
            "|",
            decimal_i64(self.target_pp_rank as i64).as_str(),
            "|",
        );
        let mut kv_args_registration_key = ranks;
        kv_args_registration_key.append(self.mooncake_session_id.as_str());
        let kv_args_registration = if self.registered_kv_args_endpoints.contains_key(
            kv_args_registration_key.as_str(),
        ) {
            None
        } else {
            self.kv_args_registration()
        };
        Ok(
            PublishStep {
                bootstrap_addr,
                prefill_dp_rank: span.data_parallel_rank,
                target_tp_rank: self.target_tp_rank,
                target_pp_rank: self.target_pp_rank,
                kv_args_registration,
                metadata,
                kv_args_registration_key,
            },
        )
    }

    /// Remembers that a step was sent: a rank that was told about the caches knows them.
    pub fn step_was_sent(&mut self, step: PublishStep)
        requires
            old(self).wf(),
        ensures
            final(self).wf(),
            final(self)@ == (Publisher {
                registered: if step.kv_args_registration is Some {
                    old(self)@.registered.insert(step.kv_args_registration_key@)
                } else {
                    old(self)@.registered
                },
                ..old(self)@
            }),
    {
        let ghost before = self.registered_kv_args_endpoints@;
        let ghost key = step.kv_args_registration_key@;
        if step.kv_args_registration.is_some() {
            self.registered_kv_args_endpoints.insert(step.kv_args_registration_key, ());
            proof {
                assert(before.insert(key, ()).dom() =~= before.dom().insert(key));
            }
        }
    }
}

/// A rank is told about the caches once: after a step was sent, the next step for the same span
/// tells only where the pages are wanted.
pub proof fn caches_are_told_once(
    before: Publisher,
    after: Publisher,
    span: KvCacheTransferSpan,
    told: bool,
)
    requires
        told == (!before.registered.contains(registration_key(before, span)) && registration_of(
            before,
        ) is Some),
        after == (Publisher {
            registered: if told {
                before.registered.insert(registration_key(before, span))
            } else {
                before.registered
            },
            ..before
        }),
    ensures
        registration_key(after, span) == registration_key(before, span),
        after.registered.contains(registration_key(after, span)) || registration_of(after) is None,
{
}

} // verus!
