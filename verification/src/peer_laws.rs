//! What prefill and decode servers promise each other when they meet.
use vstd::prelude::*;

use crate::bootstrap_publisher::{
    first_large_page, KvCacheTransferSpan, MooncakeDecodeBootstrapPublisher, MooncakeKvCacheLayout,
    PublishStep,
};
use crate::bootstrap_route::{
    http_get_request, http_success_body, metadata_poll, route_query_path, MetadataPoll,
    RouteAnswer, RouteQuery,
};
use crate::bootstrap_state::{
    fresh_ranks, lookup, registered, room_with, BootstrapState, MooncakeRemoteKvLayout,
    MooncakeRemoteKvLayoutError, PrefillBootstrapState, PrefillRankInfo, PrefillRouteRegistration,
    PrefillServerInfo, RegisteredDpRank, Room,
};
use crate::pd_bootstrap::{
    MooncakeDecodeBootstrapError, KvPoll,    MooncakeDecodeKvArgsRegistration, MooncakeDecodeTransferMetadata, Transfer,
};
use crate::text::{decimal, find_from, signed_decimal, stands_at};

verus! {

/// No page is too large where each of them fits.
pub proof fn lemma_large_page(pages: Seq<usize>)
    ensures
        first_large_page(pages) is None <==> forall|i: int|
            0 <= i < pages.len() ==> #[trigger] pages[i] <= i32::MAX,
    decreases pages.len(),
{
    if pages.len() > 0 {
        let front = pages.drop_last();
        lemma_large_page(front);
        assert(pages.last() == pages[pages.len() - 1]);
        assert(forall|i: int| 0 <= i < front.len() ==> front[i] == #[trigger] pages[i]);
        if forall|i: int| 0 <= i < pages.len() ==> #[trigger] pages[i] <= i32::MAX {
            assert forall|i: int| 0 <= i < front.len() implies #[trigger] front[i] <= i32::MAX by {
                assert(front[i] == pages[i]);
            }
        }
        if first_large_page(pages) is None {
            assert forall|i: int| 0 <= i < pages.len() implies #[trigger] pages[i] <= i32::MAX by {
                if i < front.len() {
                    assert(front[i] == pages[i]);
                }
            }
        }
    }
}

/// A decode server asks for the pages of a span in their order, for the room of the span, and for as
/// many tokens as lie before the end of the span. It does so wherever the pages have numbers of 31
/// bits.
pub proof fn spans_are_asked_for(
    publisher: MooncakeDecodeBootstrapPublisher,
    span: KvCacheTransferSpan,
    metadata: Result<MooncakeDecodeTransferMetadata, String>,
)
    requires
        span.token_offset + span.token_count <= usize::MAX,
        call_ensures(
            MooncakeDecodeBootstrapPublisher::metadata_for_span,
            (&publisher, &span),
            metadata,
        ),
    ensures
        metadata is Ok <==> forall|i: int|
            0 <= i < span.cache_pages@.len() ==> #[trigger] span.cache_pages@[i] <= i32::MAX,
        metadata matches Ok(asked) ==> {
            &&& asked.room == span.disaggregated_params.bootstrap_room
            &&& asked.endpoint@ == publisher@.endpoint
            &&& asked.dst_port == publisher@.dst_port
            &&& asked.mooncake_session_id@ == publisher@.mooncake_session_id
            &&& asked.dst_kv_indices@.len() == span.cache_pages@.len()
            &&& forall|i: int|
                0 <= i < span.cache_pages@.len() ==> #[trigger] asked.dst_kv_indices@[i]
                    == span.cache_pages@[i]
            &&& asked.dst_state_indices@.len() == 0
            &&& asked.required_dst_info_num == publisher@.required_dst_info_num
            &&& asked.decode_prefix_len matches Some(n) && n == span.token_offset
                + span.token_count
            &&& !asked.is_dummy
        },
{
    lemma_large_page(span.cache_pages@);
    if let Ok(asked) = metadata {
        let told = span.cache_pages@.map_values(|page: usize| page as i32);
        assert(asked@.dst_kv_indices == told);
        assert(asked@.dst_state_indices.len() == asked.dst_state_indices@.len());
        assert forall|i: int| 0 <= i < span.cache_pages@.len() implies #[trigger] asked
            .dst_kv_indices@[i] == span.cache_pages@[i] by {
            assert(told[i] == span.cache_pages@[i] as i32);
            assert(span.cache_pages@[i] <= i32::MAX);
        }
    }
}

/// A new publisher is that of the first ranks, asks for one answer, and has told of no cache.
pub proof fn new_publishers_know_no_cache(
    endpoint: String,
    port: u16,
    session: String,
    publisher: MooncakeDecodeBootstrapPublisher,
    registration: Option<MooncakeDecodeKvArgsRegistration>,
)
    requires
        call_ensures(
            MooncakeDecodeBootstrapPublisher::new,
            (endpoint, port, session),
            publisher,
        ),
        call_ensures(
            MooncakeDecodeBootstrapPublisher::kv_args_registration,
            (&publisher,),
            registration,
        ),
    ensures
        publisher@.endpoint == endpoint@,
        publisher@.dst_port == port,
        publisher@.mooncake_session_id == session@,
        publisher@.target_tp_rank == 0 && publisher@.target_pp_rank == 0,
        publisher@.dst_aux_index == Some(0int),
        publisher@.required_dst_info_num == 1,
        registration is None,
{
}

/// Each setting of a publisher changes what it names, and nothing else.
pub proof fn settings_change_what_they_name(
    publisher: MooncakeDecodeBootstrapPublisher,
    tp: i32,
    pp: i32,
    n: usize,
    layout: MooncakeKvCacheLayout,
    ranked: MooncakeDecodeBootstrapPublisher,
    counted: MooncakeDecodeBootstrapPublisher,
    laid: MooncakeDecodeBootstrapPublisher,
)
    requires
        call_ensures(
            MooncakeDecodeBootstrapPublisher::with_target_ranks,
            (publisher, tp, pp),
            ranked,
        ),
        call_ensures(
            MooncakeDecodeBootstrapPublisher::with_required_dst_info_num,
            (publisher, n),
            counted,
        ),
        call_ensures(
            MooncakeDecodeBootstrapPublisher::with_kv_cache_layout,
            (publisher, layout),
            laid,
        ),
    ensures
        ranked@.target_tp_rank == tp && ranked@.target_pp_rank == pp,
        ranked@.endpoint == publisher@.endpoint && ranked@.required_dst_info_num
            == publisher@.required_dst_info_num,
        counted@.required_dst_info_num == n && counted@.target_tp_rank == publisher@.target_tp_rank,
        counted@.target_pp_rank == publisher@.target_pp_rank,
        laid@.kv_cache_layout == Some(layout) && laid@.target_tp_rank == publisher@.target_tp_rank,
{
}

/// The cache of a decode server is told by its address and the bytes of a page, for the rank that is
/// asked. A server without a cache, or without an address for it, tells nothing.
pub proof fn caches_are_told_by_their_address(
    publisher: MooncakeDecodeBootstrapPublisher,
    registration: Option<MooncakeDecodeKvArgsRegistration>,
)
    requires
        call_ensures(
            MooncakeDecodeBootstrapPublisher::kv_args_registration,
            (&publisher,),
            registration,
        ),
    ensures
        registration is Some <==> publisher@.kv_cache_layout is Some
            && publisher@.kv_cache_layout->0.source_base_addr != 0,
        registration matches Some(told) ==> {
            &&& told.endpoint@ == publisher@.endpoint
            &&& told.dst_port == publisher@.dst_port
            &&& told.mooncake_session_id@ == publisher@.mooncake_session_id
            &&& told.dst_kv_ptrs@.len() == 1
            &&& told.dst_kv_ptrs@[0] == publisher@.kv_cache_layout->0.source_base_addr
            &&& told.dst_aux_ptrs@.len() == 0
            &&& told.dst_tp_rank == publisher@.target_tp_rank
            &&& told.dst_attn_tp_size == 1
            &&& told.dst_kv_item_len == publisher@.kv_cache_layout->0.page_size_bytes
        },
{
    if let Some(told) = registration {
        assert(told@.dst_kv_ptrs[0] == publisher@.kv_cache_layout->0.source_base_addr as u64);
    }
}

/// A step goes to the host and port of the span, asks the ranks of the publisher, and tells of the
/// cache until the rank behind that address knows it.
pub proof fn steps_go_to_the_host_of_the_span(
    publisher: MooncakeDecodeBootstrapPublisher,
    span: KvCacheTransferSpan,
    step: PublishStep,
    metadata: Result<MooncakeDecodeTransferMetadata, String>,
    registration: Option<MooncakeDecodeKvArgsRegistration>,
)
    requires
        publisher.wf(),
        span.token_offset + span.token_count <= usize::MAX,
        call_ensures(
            MooncakeDecodeBootstrapPublisher::publish_step,
            (&publisher, &span),
            Ok::<PublishStep, String>(step),
        ),
        call_ensures(
            MooncakeDecodeBootstrapPublisher::metadata_for_span,
            (&publisher, &span),
            metadata,
        ),
        call_ensures(
            MooncakeDecodeBootstrapPublisher::kv_args_registration,
            (&publisher,),
            registration,
        ),
    ensures
        step.bootstrap_addr@ == span.disaggregated_params.bootstrap_host@ + ":"@ + decimal(
            span.disaggregated_params.bootstrap_port as nat,
        ),
        step.prefill_dp_rank == span.data_parallel_rank,
        step.target_tp_rank == publisher@.target_tp_rank,
        step.target_pp_rank == publisher@.target_pp_rank,
        metadata is Ok && metadata->Ok_0@ == step.metadata@,
        step.kv_args_registration_key@ == step.bootstrap_addr@ + "|"@ + signed_decimal(
            span.data_parallel_rank as int,
        ) + "|"@ + signed_decimal(publisher@.target_tp_rank as int) + "|"@ + signed_decimal(
            publisher@.target_pp_rank as int,
        ) + "|"@ + publisher@.mooncake_session_id,
        step.kv_args_registration is Some <==> registration is Some
            && !publisher@.registered.contains(step.kv_args_registration_key@),
        step.kv_args_registration is Some ==> step.kv_args_registration->0@ == registration->0@,
{
}

/// A query for a rank is answered with its address once every rank has registered. The query of four
/// times -1 is for the sizes of the server, and any other negative number is refused.
pub proof fn queries_are_answered_when_all_ranks_are_known(
    state: PrefillBootstrapState,
    query: RouteQuery,
    answer: RouteAnswer,
    complete: bool,
    info: Option<PrefillServerInfo>,
    rank: Option<PrefillRankInfo>,
)
    requires
        state.wf(),
        call_ensures(PrefillBootstrapState::route, (&state, query), answer),
        call_ensures(PrefillBootstrapState::is_ready, (&state,), complete),
        call_ensures(PrefillBootstrapState::server_info, (&state,), info),
        call_ensures(
            PrefillBootstrapState::rank_info,
            (
                &state,
                query.prefill_dp_rank as usize,
                query.prefill_cp_rank as usize,
                query.target_tp_rank as usize,
                query.target_pp_rank as usize,
            ),
            rank,
        ),
    ensures
        answer is Unavailable <==> !complete,
        complete <==> info is Some,
        complete ==> {
            if query.prefill_dp_rank == -1 && query.prefill_cp_rank == -1 && query.target_tp_rank
                == -1 && query.target_pp_rank == -1 {
                answer matches RouteAnswer::Server(sizes) && sizes@ == info->0@
            } else if query.prefill_dp_rank < 0 || query.prefill_cp_rank < 0 || query.target_tp_rank
                < 0 || query.target_pp_rank < 0 {
                answer is BadRequest
            } else {
                match rank {
                    Some(address) => answer matches RouteAnswer::Rank(told) && told@ == address@,
                    None => answer is NotFound,
                }
            }
        },
{
    if let RouteAnswer::Server(sizes) = answer {
        assert(answer@ == crate::bootstrap_route::Route::Server(sizes@));
    }
    if let RouteAnswer::Rank(told) = answer {
        assert(answer@ == crate::bootstrap_route::Route::Rank(told@));
    }
}

/// A server is complete once as many ranks have registered as its four sizes multiply to, and tells
/// the sizes that it was told.
pub proof fn servers_wait_for_all_their_ranks(
    state: PrefillBootstrapState,
    complete: bool,
    info: Option<PrefillServerInfo>,
)
    requires
        call_ensures(PrefillBootstrapState::is_ready, (&state,), complete),
        call_ensures(PrefillBootstrapState::server_info, (&state,), info),
    ensures
        complete ==> state@.registered_count >= state@.dp_size->0 * state@.attn_cp_size->0
            * state@.attn_tp_size->0 * state@.pp_size->0,
        state@.dp_size is None || state@.attn_cp_size is None || state@.attn_tp_size is None
            || state@.pp_size is None ==> !complete,
        info matches Some(sizes) ==> {
            &&& state@.attn_tp_size == Some(sizes.attn_tp_size)
            &&& state@.attn_cp_size == Some(sizes.attn_cp_size)
            &&& state@.dp_size == Some(sizes.dp_size)
            &&& state@.pp_size == Some(sizes.pp_size)
            &&& state@.page_size == sizes.page_size
            &&& sizes.follow_bootstrap_room <==> state@.follow_bootstrap_room != Some(false)
        },
{
}

/// A rank is found under its data parallel rank, its context rank, its tensor rank and its pipeline
/// rank. The data parallel rank is that of the system where the system has several, else that of the
/// attention.
pub proof fn ranks_are_found_at_their_places(
    state: BootstrapState,
    r: PrefillRouteRegistration,
    dp_rank: usize,
)
    requires
        dp_rank == if r.system_dp_size == 1 {
            r.attn_dp_rank
        } else {
            r.system_dp_rank
        },
    ensures
        ({
            let after = registered(state, r);
            let found = lookup(
                after.ranks,
                (dp_rank, r.attn_cp_rank, r.attn_tp_rank, r.pp_rank),
            );
            &&& found is Some && found->0.rank_ip == r.rank_ip@ && found->0.rank_port == r.rank_port
            &&& after.registered_count == state.registered_count + 1
            &&& after.rooms == state.rooms && after.kv_args == state.kv_args
            &&& after.dp_ranks == state.dp_ranks
        }),
{
}

/// The first rank that registers tells the sizes of its server.
pub proof fn first_ranks_tell_the_sizes(state: BootstrapState, r: PrefillRouteRegistration)
    requires
        state.attn_tp_size is None,
        state.attn_cp_size is None,
        state.dp_size is None,
        state.pp_size is None,
        state.page_size is None,
        state.follow_bootstrap_room is None,
    ensures
        ({
            let after = registered(state, r);
            &&& after.attn_tp_size == Some(r.attn_tp_size)
            &&& after.attn_cp_size == Some(r.attn_cp_size)
            &&& after.pp_size == Some(r.pp_size)
            &&& r.system_dp_size == 1 ==> after.dp_size == Some(r.attn_dp_size)
            &&& r.system_dp_size != 1 ==> after.dp_size == Some(r.system_dp_size)
            &&& after.page_size == r.page_size
            &&& r.load_balance_method is None ==> after.follow_bootstrap_room == Some(true)
            &&& r.load_balance_method matches Some(method) ==> after.follow_bootstrap_room == Some(
                method@ == "follow_bootstrap_room"@,
            )
        }),
{
}

/// A room is forgotten once more than two minutes have passed since it was registered, and no
/// sooner.
pub proof fn rooms_are_kept_two_minutes(
    entries: Map<u64, RegisteredDpRank>,
    room: u64,
    now_secs: u64,
)
    ensures
        lookup(fresh_ranks(entries, now_secs), room) is Some <==> entries.dom().contains(room)
            && now_secs <= entries[room].timestamp_secs + 120,
        lookup(fresh_ranks(entries, now_secs), room) is Some ==> fresh_ranks(
            entries,
            now_secs,
        )[room] == entries[room],
{
}

/// A room waits for input once as many sessions have told of themselves as the last one requires,
/// and keeps the prefix that was told first.
pub proof fn rooms_wait_for_their_sessions(known: Option<Room>, transfer: Transfer)
    ensures
        ({
            let after = room_with(known, transfer);
            &&& after.transfers.dom().contains(transfer.mooncake_session_id)
            &&& after.transfers[transfer.mooncake_session_id] == transfer
            &&& after.required_dst_info_num == transfer.required_dst_info_num
            &&& after.transfers.len() == transfer.required_dst_info_num ==> after.status
                == KvPoll::WaitingForInput
            &&& known is None && after.transfers.len() != transfer.required_dst_info_num
                ==> after.status == KvPoll::Bootstrapping
            &&& known is None ==> after.decode_prefix_len == transfer.decode_prefix_len
                && after.transfers =~= Map::empty().insert(
                transfer.mooncake_session_id,
                transfer,
            )
            &&& known matches Some(room) ==> {
                &&& room.decode_prefix_len is Some ==> after.decode_prefix_len
                    == room.decode_prefix_len
                &&& forall|session: Seq<char>|
                    session != transfer.mooncake_session_id ==> #[trigger] lookup(
                        after.transfers,
                        session,
                    ) == lookup(room.transfers, session)
            }
        }),
{
}

/// What a room wants is told per session: the pointers and the bytes of a page that the session
/// registered, and the pages that it asked for.
pub proof fn rooms_want_what_their_sessions_asked_for(
    state: PrefillBootstrapState,
    room: u64,
    layouts: Vec<(String, MooncakeRemoteKvLayout)>,
    i: int,
)
    requires
        state.wf(),
        call_ensures(
            PrefillBootstrapState::remote_kv_layouts_for_room,
            (&state, room),
            Ok::<Vec<(String, MooncakeRemoteKvLayout)>, MooncakeRemoteKvLayoutError>(layouts),
        ),
        0 <= i < layouts@.len(),
    ensures
        ({
            let session = layouts@[i].0@;
            let layout = layouts@[i].1;
            &&& state@.rooms.dom().contains(room)
            &&& state@.rooms[room].transfers.dom().contains(session)
            &&& !state@.rooms[room].transfers[session].is_dummy
            &&& state@.kv_args.dom().contains(session)
            &&& layout.dst_kv_ptrs@ == state@.kv_args[session].dst_kv_ptrs
            &&& layout.dst_kv_item_len == state@.kv_args[session].dst_kv_item_len
            &&& layout.dst_kv_indices@ == state@.rooms[room].transfers[session].dst_kv_indices
        }),
{
    let pairs = crate::bootstrap_state::layout_pairs(layouts@);
    assert(pairs.len() == layouts@.len());
    assert(pairs[i] == (layouts@[i].0@, layouts@[i].1@));
    crate::order::ascending_pairs_are_the_map(pairs);
    assert(crate::bootstrap_state::wanted(state@.rooms[room].transfers, layouts@[i].0@));
}

/// A query names each rank behind the name of its parameter.
pub proof fn queries_name_their_ranks(query: RouteQuery, path: String)
    requires
        call_ensures(route_query_path, (query,), path),
    ensures
        path@ == "/route?prefill_dp_rank="@ + signed_decimal(query.prefill_dp_rank as int)
            + "&prefill_cp_rank="@ + signed_decimal(query.prefill_cp_rank as int)
            + "&target_tp_rank="@ + signed_decimal(query.target_tp_rank as int)
            + "&target_pp_rank="@ + signed_decimal(query.target_pp_rank as int),
{
}

/// Where a pattern is found, it stands, and it stands nowhere before.
pub proof fn lemma_found(s: Seq<char>, pattern: Seq<char>, from: nat)
    ensures
        find_from(s, pattern, from) matches Some(at) ==> from <= at && stands_at(
            s,
            pattern,
            at as int,
        ) && forall|i: int| from <= i < at ==> !#[trigger] stands_at(s, pattern, i),
        find_from(s, pattern, from) is None ==> forall|i: int|
            from <= i ==> !#[trigger] stands_at(s, pattern, i),
    decreases s.len() + 1 - from,
{
    if from + pattern.len() <= s.len() && from <= s.len() && !stands_at(s, pattern, from as int) {
        lemma_found(s, pattern, from + 1);
    }
}

/// The body of an answer is what stands behind its first empty line, and is told as the body exactly
/// where the answer is a success.
pub proof fn bodies_stand_behind_the_first_empty_line(
    response: &str,
    body: Result<String, MooncakeDecodeBootstrapError>,
    end: int,
)
    requires
        call_ensures(http_success_body, (response,), body),
        stands_at(response@, "\r\n\r\n"@, end),
        forall|i: int| 0 <= i < end ==> !#[trigger] stands_at(response@, "\r\n\r\n"@, i),
    ensures
        body matches Ok(text) ==> text@ == response@.skip(end + 4),
        body matches Err(MooncakeDecodeBootstrapError::HttpStatus { status, body: text })
            ==> status != 200 && text@ == response@.skip(end + 4),
{
    lemma_found(response@, "\r\n\r\n"@, 0);
}

/// An answer without an empty line is no answer.
pub proof fn answers_have_an_empty_line(
    response: &str,
    body: Result<String, MooncakeDecodeBootstrapError>,
)
    requires
        call_ensures(http_success_body, (response,), body),
        forall|i: int| 0 <= i ==> !#[trigger] stands_at(response@, "\r\n\r\n"@, i),
    ensures
        body is Err && body->Err_0 is InvalidHttpResponse,
{
    lemma_found(response@, "\r\n\r\n"@, 0);
}

/// A request names the path first and then the host, and keeps no connection.
pub proof fn requests_name_path_and_host(addr: &str, path: &str, request: String)
    requires
        call_ensures(http_get_request, (addr, path), request),
    ensures
        request@ == "GET "@ + path@ + " HTTP/1.1\r\nHost: "@ + addr@
            + "\r\nConnection: close\r\n\r\n"@,
{
}

/// Metadata is waited for until the time is up.
pub proof fn metadata_is_waited_for(
    layouts: Result<Vec<(String, MooncakeRemoteKvLayout)>, MooncakeRemoteKvLayoutError>,
    time_is_up: bool,
    poll: MetadataPoll,
)
    requires
        call_ensures(metadata_poll, (layouts, time_is_up), poll),
    ensures
        poll is Layouts <==> layouts is Ok,
        poll matches MetadataPoll::Layouts(list) ==> list == layouts->Ok_0,
        poll is Wait <==> layouts is Err && !time_is_up,
{
}

} // verus!
