//! What a prefill server promises over several messages.
use vstd::prelude::*;
use vstd::string::*;
use vstd::utf8::*;

use crate::bootstrap_frame::{text_in, FrameFault};
use crate::bootstrap_route::{route_for, Route, RouteQuery};
use crate::bootstrap_state::{
    address_of, fresh, fresh_ranks, ingested, lookup, place_of, ranks_answer, ready, registered,
    room_layouts, room_with, BootstrapState, PrefillRouteRegistration, RegisteredDpRank,
    RemoteLayout, Room, DP_RANK_ENTRY_CLEANUP_INTERVAL_SECS,
};
use crate::json::integer_view;
use crate::pd_bootstrap::{
    fits, kv_args_frame, registration_reads_back, transfer_frame, transfer_reads_back, KvPoll,
    MooncakeDecodeKvArgsRegistration, MooncakeDecodeTransferMetadata, Transfer,
};
use crate::text::{decimal, decimal_reads_back};

verus! {

/// The address of a rank is found where it was registered, and every other address stays.
pub proof fn registered_ranks_are_found(state: BootstrapState, r: PrefillRouteRegistration)
    ensures
        lookup(registered(state, r).ranks, place_of(r)) == Some(address_of(r)),
        forall|place: (usize, usize, usize, usize)|
            place != place_of(r) ==> #[trigger] lookup(registered(state, r).ranks, place) == lookup(
                state.ranks,
                place,
            ),
{
}

/// Once a server is ready, a query for a rank that registered is answered with its address.
pub proof fn registered_ranks_are_routed(
    state: BootstrapState,
    r: PrefillRouteRegistration,
    query: RouteQuery,
)
    requires
        ready(registered(state, r)),
        query.prefill_dp_rank >= 0,
        query.prefill_cp_rank >= 0,
        query.target_tp_rank >= 0,
        query.target_pp_rank >= 0,
        place_of(r) == (
            query.prefill_dp_rank as usize,
            query.prefill_cp_rank as usize,
            query.target_tp_rank as usize,
            query.target_pp_rank as usize,
        ),
    ensures
        route_for(registered(state, r), query) == Route::Rank(address_of(r)),
{
    registered_ranks_are_found(state, r);
}

/// The sizes that were told first stay, and a server that is ready stays ready.
pub proof fn first_sizes_stay(
    state: BootstrapState,
    first: PrefillRouteRegistration,
    second: PrefillRouteRegistration,
)
    ensures
        ({
            let once = registered(state, first);
            let twice = registered(once, second);
            &&& twice.attn_tp_size == once.attn_tp_size
            &&& twice.attn_cp_size == once.attn_cp_size
            &&& twice.dp_size == once.dp_size
            &&& twice.pp_size == once.pp_size
            &&& twice.follow_bootstrap_room == once.follow_bootstrap_room
            &&& once.page_size is Some ==> twice.page_size == once.page_size
            &&& once.kv_cache_dtype is Some ==> twice.kv_cache_dtype == once.kv_cache_dtype
            &&& ready(once) ==> ready(twice)
        }),
{
}

proof fn lemma_answered(entries: Map<u64, RegisteredDpRank>, rooms: Seq<u64>, room: u64)
    ensures
        ranks_answer(entries, rooms) is Object,
        ranks_answer(entries, rooms).get(decimal(room as nat)) == (if rooms.contains(room)
            && entries.dom().contains(room) {
            Some(integer_view(entries[room].dp_rank as int))
        } else {
            None
        }),
    decreases rooms.len(),
{
    if rooms.len() > 0 {
        let before = rooms.drop_last();
        let last = rooms.last();
        lemma_answered(entries, before, room);
        decimal_reads_back(room as nat);
        decimal_reads_back(last as nat);
        assert(last != room ==> decimal(last as nat) != decimal(room as nat));
        if rooms.contains(room) {
            let i = choose|i: int| 0 <= i < rooms.len() && rooms[i] == room;
            if i < before.len() {
                assert(before[i] == room);
            }
        }
        if before.contains(room) {
            let i = choose|i: int| 0 <= i < before.len() && before[i] == room;
            assert(rooms[i] == room);
        }
        assert(rooms[rooms.len() - 1] == last);
    }
}

/// The rank of a room is answered as it was registered, until it expires.
pub proof fn registered_rooms_are_answered(
    entries: Map<u64, RegisteredDpRank>,
    room: u64,
    dp_rank: i32,
    registered_secs: u64,
    now_secs: u64,
    rooms: Seq<u64>,
)
    requires
        rooms.contains(room),
        now_secs - registered_secs <= DP_RANK_ENTRY_CLEANUP_INTERVAL_SECS,
    ensures
        ({
            let known = entries.insert(
                room,
                RegisteredDpRank { dp_rank, timestamp_secs: registered_secs },
            );
            ranks_answer(fresh_ranks(known, now_secs), rooms).get(decimal(room as nat)) == Some(
                integer_view(dp_rank as int),
            )
        }),
{
    let known = entries.insert(room, RegisteredDpRank { dp_rank, timestamp_secs: registered_secs });
    lemma_answered(fresh_ranks(known, now_secs), rooms, room);
}

/// A room that nothing was registered for, or whose registration has expired, is not answered.
pub proof fn expired_rooms_are_forgotten(
    entries: Map<u64, RegisteredDpRank>,
    room: u64,
    now_secs: u64,
    rooms: Seq<u64>,
)
    requires
        entries.dom().contains(room) ==> !fresh(entries[room], now_secs),
    ensures
        ranks_answer(fresh_ranks(entries, now_secs), rooms).get(decimal(room as nat)) is None,
{
    lemma_answered(fresh_ranks(entries, now_secs), rooms, room);
}

/// A room that waits for input goes on to wait, whatever transfer is told next.
pub proof fn waiting_rooms_stay_waiting(room: Room, transfer: Transfer)
    requires
        room.status == KvPoll::WaitingForInput,
    ensures
        room_with(Some(room), transfer).status == KvPoll::WaitingForInput,
{
}

proof fn lemma_none_field(frame: Seq<Seq<u8>>)
    requires
        frame.len() > 0,
        frame[0] == encode_utf8("None"@),
    ensures
        text_in(frame, 0, "room"@) == Ok::<Seq<char>, FrameFault>("None"@),
        "None"@ != "WATERMARK"@,
        "None"@ != "STAGING_RSP"@,
{
    encode_utf8_valid_utf8("None"@);
    encode_utf8_decode_utf8("None"@);
    reveal_strlit("None");
    reveal_strlit("WATERMARK");
    reveal_strlit("STAGING_RSP");
    assert("None"@.len() != "WATERMARK"@.len());
    assert("None"@.len() != "STAGING_RSP"@.len());
}

proof fn lemma_room_field(frame: Seq<Seq<u8>>, room: nat)
    requires
        frame.len() > 0,
        frame[0] == encode_utf8(decimal(room)),
    ensures
        text_in(frame, 0, "room"@) == Ok::<Seq<char>, FrameFault>(decimal(room)),
        decimal(room) != "None"@,
        decimal(room) != "WATERMARK"@,
        decimal(room) != "STAGING_RSP"@,
{
    encode_utf8_valid_utf8(decimal(room));
    encode_utf8_decode_utf8(decimal(room));
    decimal_reads_back(room);
    reveal_strlit("None");
    reveal_strlit("WATERMARK");
    reveal_strlit("STAGING_RSP");
    assert('0' <= decimal(room)[0] && decimal(room)[0] <= '9');
    assert("None"@[0] == 'N');
    assert("WATERMARK"@[0] == 'W');
    assert("STAGING_RSP"@[0] == 'S');
}

/// The registration of a decode server is known as it was sent.
pub proof fn told_caches_are_known(
    state: BootstrapState,
    registration: MooncakeDecodeKvArgsRegistration,
)
    requires
        fits(registration@.dst_state_data_ptrs, 8),
        fits(registration@.dst_state_item_lens, 4),
        fits(registration@.dst_state_dim_per_tensor, 4),
    ensures
        ingested(state, kv_args_frame(registration@)) == Ok::<BootstrapState, FrameFault>(
            BootstrapState {
                kv_args: state.kv_args.insert(
                    registration.mooncake_session_id@,
                    registration@,
                ),
                kv_args_count: state.kv_args_count + 1,
                ..state
            },
        ),
{
    let frame = kv_args_frame(registration@);
    registration_reads_back(registration);
    lemma_none_field(frame);
}

/// What a decode server asks for in a room is known as it was sent; see
/// [`transfer_reads_back`] for a prefix length that was not given.
pub proof fn asked_transfers_are_known(
    state: BootstrapState,
    metadata: MooncakeDecodeTransferMetadata,
)
    requires
        metadata.room <= i64::MAX,
        !metadata.is_dummy,
        metadata.dst_aux_index is Some,
        fits(metadata@.dst_state_indices, 4),
    ensures
        ingested(state, transfer_frame(metadata@)) == Ok::<BootstrapState, FrameFault>(
            BootstrapState {
                rooms: state.rooms.insert(
                    metadata.room,
                    room_with(
                        lookup(state.rooms, metadata.room),
                        Transfer {
                            decode_prefix_len: Some(metadata@.decode_prefix_len.unwrap_or(0)),
                            ..metadata@
                        },
                    ),
                ),
                ..state
            },
        ),
{
    let frame = transfer_frame(metadata@);
    transfer_reads_back(metadata);
    lemma_room_field(frame, metadata.room as nat);
}

/// A decode server that has told of its cache and of a request is found among the layouts of the
/// request's room, with what it told.
pub proof fn announced_caches_are_found(
    state: BootstrapState,
    registration: MooncakeDecodeKvArgsRegistration,
    metadata: MooncakeDecodeTransferMetadata,
)
    requires
        fits(registration@.dst_state_data_ptrs, 8),
        fits(registration@.dst_state_item_lens, 4),
        fits(registration@.dst_state_dim_per_tensor, 4),
        metadata.room <= i64::MAX,
        !metadata.is_dummy,
        metadata.dst_aux_index is Some,
        fits(metadata@.dst_state_indices, 4),
        metadata.mooncake_session_id@ == registration.mooncake_session_id@,
    ensures
        ({
            let session = registration.mooncake_session_id@;
            let told = ingested(state, kv_args_frame(registration@));
            let asked = ingested(told->Ok_0, transfer_frame(metadata@));
            &&& told is Ok
            &&& asked is Ok
            &&& asked->Ok_0.rooms.dom().contains(metadata.room)
            &&& room_layouts(asked->Ok_0, metadata.room).dom().contains(session)
            &&& room_layouts(asked->Ok_0, metadata.room)[session] == (RemoteLayout {
                dst_kv_ptrs: registration.dst_kv_ptrs@,
                dst_kv_indices: metadata.dst_kv_indices@,
                dst_kv_item_len: registration.dst_kv_item_len as nat,
            })
        }),
{
    told_caches_are_known(state, registration);
    let told = ingested(state, kv_args_frame(registration@))->Ok_0;
    asked_transfers_are_known(told, metadata);
}

} // verus!
