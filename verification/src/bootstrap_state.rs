//! What a prefill server knows of its ranks, of the decode servers and of their requests.
use vstd::prelude::*;
use vstd::string::*;

use crate::bootstrap_frame::{ascii_field, text_in, FrameFault, MooncakeBootstrapFrameError};
use crate::json::{empty_object, integer_view, Json, JsonView};
use crate::order::{ascending, map_of, text_lt, NumberMap, Place, PlaceMap, TextMap};
use crate::pd_bootstrap::{
    kv_args_fault, kv_args_in, optional_nat, transfer_fault, transfer_in, KvArgs, KvPoll,
    MooncakeKvArgsRegisterInfo, MooncakeTransferInfo, Transfer,
};
use crate::text::{cat2, cat4, decimal, decimal_u64, same_text};
use crate::wire::seqs;

verus! {

/// How long the rank of a room is remembered, in seconds.
pub const DP_RANK_ENTRY_CLEANUP_INTERVAL_SECS: u64 = 120;

/// What is known of the transfer of one room.
#[derive(Clone, Debug, PartialEq, Eq)]
pub struct MooncakeTransferRoom {
    pub required_dst_info_num: usize,
    pub status: KvPoll,
    pub decode_prefix_len: Option<usize>,
    pub transfers: TextMap<MooncakeTransferInfo>,
}

/// What a [`MooncakeTransferRoom`] says.
pub struct Room {
    pub required_dst_info_num: nat,
    pub status: KvPoll,
    pub decode_prefix_len: Option<nat>,
    pub transfers: Map<Seq<char>, Transfer>,
}

impl View for MooncakeTransferRoom {
    type V = Room;

    open spec fn view(&self) -> Room {
        Room {
            required_dst_info_num: self.required_dst_info_num as nat,
            status: self.status,
            decode_prefix_len: optional_nat(self.decode_prefix_len),
            transfers: self.transfers@.map_values(|info: MooncakeTransferInfo| info@),
        }
    }
}

impl MooncakeTransferRoom {
    /// The transfers are listed by their sessions.
    pub open spec fn wf(self) -> bool {
        &&& self.transfers.wf()
        &&& forall|session: Seq<char>| #[trigger]
            self.transfers@.dom().contains(session)
                ==> self.transfers@[session].mooncake_session_id@ == session
    }
}

/// The address of a prefill rank.
#[derive(Debug, PartialEq, Eq)]
pub struct PrefillRankInfo {
    pub rank_ip: String,
    pub rank_port: u16,
}

/// What a [`PrefillRankInfo`] says.
pub struct RankAddress {
    pub rank_ip: Seq<char>,
    pub rank_port: nat,
}

impl View for PrefillRankInfo {
    type V = RankAddress;

    open spec fn view(&self) -> RankAddress {
        RankAddress { rank_ip: self.rank_ip@, rank_port: self.rank_port as nat }
    }
}

impl Clone for PrefillRankInfo {
    fn clone(&self) -> (copy: Self)
        ensures
            copy@ == self@,
    {
        PrefillRankInfo { rank_ip: self.rank_ip.clone(), rank_port: self.rank_port }
    }
}

impl PrefillRankInfo {
    /// The address at which the rank listens for bootstrap messages.
    pub fn zmq_endpoint(&self) -> (endpoint: String)
        ensures
            endpoint@ == "tcp://"@ + self@.rank_ip + ":"@ + decimal(self@.rank_port),
    {
        cat4(
            "tcp://",
            self.rank_ip.as_str(),
            ":",
            decimal_u64(self.rank_port as u64).as_str(),
        )
    }
}

/// The sizes of a prefill server.
#[derive(Clone, Debug, PartialEq, Eq)]
pub struct PrefillServerInfo {
    pub attn_tp_size: usize,
    pub attn_cp_size: usize,
    pub dp_size: usize,
    pub pp_size: usize,
    pub page_size: Option<usize>,
    pub kv_cache_dtype: Option<String>,
    pub follow_bootstrap_room: bool,
}

/// What a [`PrefillServerInfo`] says.
pub struct ServerSizes {
    pub attn_tp_size: usize,
    pub attn_cp_size: usize,
    pub dp_size: usize,
    pub pp_size: usize,
    pub page_size: Option<usize>,
    pub kv_cache_dtype: Option<Seq<char>>,
    pub follow_bootstrap_room: bool,
}

/// A text that may be missing.
pub open spec fn optional_text(text: Option<String>) -> Option<Seq<char>> {
    match text {
        Some(s) => Some(s@),
        None => None,
    }
}

/// A copy of a text that may be missing.
pub fn copy_optional_text(text: &Option<String>) -> (copy: Option<String>)
    ensures
        optional_text(copy) == optional_text(*text),
{
    match text {
        Some(s) => Some(s.clone()),
        None => None,
    }
}

impl View for PrefillServerInfo {
    type V = ServerSizes;

    open spec fn view(&self) -> ServerSizes {
        ServerSizes {
            attn_tp_size: self.attn_tp_size,
            attn_cp_size: self.attn_cp_size,
            dp_size: self.dp_size,
            pp_size: self.pp_size,
            page_size: self.page_size,
            kv_cache_dtype: optional_text(self.kv_cache_dtype),
            follow_bootstrap_room: self.follow_bootstrap_room,
        }
    }
}

/// What a prefill rank tells when it registers.
#[derive(Clone, Debug)]
pub struct PrefillRouteRegistration {
    pub attn_tp_size: usize,
    pub attn_tp_rank: usize,
    pub attn_cp_size: usize,
    pub attn_cp_rank: usize,
    pub attn_dp_size: usize,
    pub attn_dp_rank: usize,
    pub pp_size: usize,
    pub pp_rank: usize,
    pub system_dp_size: usize,
    pub system_dp_rank: usize,
    pub rank_ip: String,
    pub rank_port: u16,
    pub page_size: Option<usize>,
    pub kv_cache_dtype: Option<String>,
    pub load_balance_method: Option<String>,
}

/// The rank that serves a room, and when it was told.
#[derive(Clone, Copy, Debug)]
pub struct RegisteredDpRank {
    pub dp_rank: i32,
    pub timestamp_secs: u64,
}

/// Why the layouts of a room cannot be given.
#[derive(Clone, Debug, PartialEq, Eq)]
pub enum MooncakeRemoteKvLayoutError {
    MissingTransferRoom(u64),
    MissingKvArgsRegistration { room: u64, mooncake_session_id: String },
}

impl MooncakeRemoteKvLayoutError {
    /// The message that the error is reported with.
    pub open spec fn message(self) -> Seq<char> {
        match self {
            MooncakeRemoteKvLayoutError::MissingTransferRoom(room) =>
                "missing Mooncake transfer room: "@ + decimal(room as nat),
            MooncakeRemoteKvLayoutError::MissingKvArgsRegistration { room, mooncake_session_id } =>
                "missing Mooncake KVArgs registration for room "@ + decimal(room as nat)
                    + " session "@ + mooncake_session_id@,
        }
    }

    /// The message that the error is reported with.
    pub fn to_string(&self) -> (message: String)
        ensures
            message@ == self.message(),
    {
        match self {
            MooncakeRemoteKvLayoutError::MissingTransferRoom(room) => cat2(
                "missing Mooncake transfer room: ",
                decimal_u64(*room).as_str(),
            ),
            MooncakeRemoteKvLayoutError::MissingKvArgsRegistration { room, mooncake_session_id } =>
                cat4(
                "missing Mooncake KVArgs registration for room ",
                decimal_u64(*room).as_str(),
                " session ",
                mooncake_session_id.as_str(),
            ),
        }
    }
}

/// Where the pages of one session go.
#[derive(Clone, Debug)]
pub struct MooncakeRemoteKvLayout {
    pub dst_kv_ptrs: Vec<u64>,
    pub dst_kv_indices: Vec<i32>,
    pub dst_kv_item_len: usize,
}

/// What a [`MooncakeRemoteKvLayout`] says.
pub struct RemoteLayout {
    pub dst_kv_ptrs: Seq<u64>,
    pub dst_kv_indices: Seq<i32>,
    pub dst_kv_item_len: nat,
}

impl View for MooncakeRemoteKvLayout {
    type V = RemoteLayout;

    open spec fn view(&self) -> RemoteLayout {
        RemoteLayout {
            dst_kv_ptrs: self.dst_kv_ptrs@,
            dst_kv_indices: self.dst_kv_indices@,
            dst_kv_item_len: self.dst_kv_item_len as nat,
        }
    }
}

/// What a prefill server knows of its ranks, of the decode servers and of their requests.
#[derive(Clone, Debug)]
pub struct PrefillBootstrapState {
    attn_tp_size: Option<usize>,
    attn_cp_size: Option<usize>,
    dp_size: Option<usize>,
    pp_size: Option<usize>,
    page_size: Option<usize>,
    kv_cache_dtype: Option<String>,
    follow_bootstrap_room: Option<bool>,
    registered_count: usize,
    prefill_port_table: PlaceMap<PrefillRankInfo>,
    room_to_dp_rank: NumberMap<RegisteredDpRank>,
    decode_kv_args_table: TextMap<MooncakeKvArgsRegisterInfo>,
    decode_kv_args_registration_count: usize,
    transfer_rooms: NumberMap<MooncakeTransferRoom>,
}

/// What a [`PrefillBootstrapState`] holds.
pub struct BootstrapState {
    pub attn_tp_size: Option<usize>,
    pub attn_cp_size: Option<usize>,
    pub dp_size: Option<usize>,
    pub pp_size: Option<usize>,
    pub page_size: Option<usize>,
    pub kv_cache_dtype: Option<Seq<char>>,
    pub follow_bootstrap_room: Option<bool>,
    pub registered_count: nat,
    pub ranks: Map<Place, RankAddress>,
    pub dp_ranks: Map<u64, RegisteredDpRank>,
    pub kv_args: Map<Seq<char>, KvArgs>,
    pub kv_args_count: nat,
    pub rooms: Map<u64, Room>,
}

impl View for PrefillBootstrapState {
    type V = BootstrapState;

    closed spec fn view(&self) -> BootstrapState {
        BootstrapState {
            attn_tp_size: self.attn_tp_size,
            attn_cp_size: self.attn_cp_size,
            dp_size: self.dp_size,
            pp_size: self.pp_size,
            page_size: self.page_size,
            kv_cache_dtype: optional_text(self.kv_cache_dtype),
            follow_bootstrap_room: self.follow_bootstrap_room,
            registered_count: self.registered_count as nat,
            ranks: self.prefill_port_table@.map_values(|info: PrefillRankInfo| info@),
            dp_ranks: self.room_to_dp_rank@,
            kv_args: self.decode_kv_args_table@.map_values(
                |info: MooncakeKvArgsRegisterInfo| info@,
            ),
            kv_args_count: self.decode_kv_args_registration_count as nat,
            rooms: self.transfer_rooms@.map_values(|room: MooncakeTransferRoom| room@),
        }
    }
}

/// The state of a server of which nothing is known yet.
pub open spec fn initial_state() -> BootstrapState {
    BootstrapState {
        attn_tp_size: None,
        attn_cp_size: None,
        dp_size: None,
        pp_size: None,
        page_size: None,
        kv_cache_dtype: None,
        follow_bootstrap_room: None,
        registered_count: 0,
        ranks: Map::empty(),
        dp_ranks: Map::empty(),
        kv_args: Map::empty(),
        kv_args_count: 0,
        rooms: Map::empty(),
    }
}

/// The room after a transfer message was taken in.
pub open spec fn room_with(known: Option<Room>, transfer: Transfer) -> Room {
    let before = match known {
        Some(room) => room,
        None => Room {
            required_dst_info_num: transfer.required_dst_info_num,
            status: KvPoll::Bootstrapping,
            decode_prefix_len: None,
            transfers: Map::empty(),
        },
    };
    let transfers = before.transfers.insert(transfer.mooncake_session_id, transfer);
    Room {
        required_dst_info_num: transfer.required_dst_info_num,
        status: if transfers.len() == transfer.required_dst_info_num {
            KvPoll::WaitingForInput
        } else {
            before.status
        },
        decode_prefix_len: if before.decode_prefix_len is None {
            transfer.decode_prefix_len
        } else {
            before.decode_prefix_len
        },
        transfers,
    }
}

/// The value of a key, where it has one.
pub open spec fn lookup<K, V>(map: Map<K, V>, key: K) -> Option<V> {
    if map.dom().contains(key) {
        Some(map[key])
    } else {
        None
    }
}

/// What a message does to the state, or what is wrong with the message.
pub open spec fn ingested(state: BootstrapState, frame: Seq<Seq<u8>>) -> Result<
    BootstrapState,
    FrameFault,
> {
    match text_in(frame, 0, "room"@) {
        Err(fault) => Err(fault),
        Ok(room) => if room == "WATERMARK"@ || room == "STAGING_RSP"@ {
            Ok(state)
        } else if room == "None"@ {
            match kv_args_fault(frame) {
                Some(fault) => Err(fault),
                None => {
                    let args = kv_args_in(frame);
                    Ok(
                        BootstrapState {
                            kv_args: state.kv_args.insert(args.mooncake_session_id, args),
                            kv_args_count: state.kv_args_count + 1,
                            ..state
                        },
                    )
                },
            }
        } else {
            match transfer_fault(frame) {
                Some(fault) => Err(fault),
                None => {
                    let transfer = transfer_in(frame);
                    let room = transfer.room as u64;
                    Ok(
                        BootstrapState {
                            rooms: state.rooms.insert(
                                room,
                                room_with(lookup(state.rooms, room), transfer),
                            ),
                            ..state
                        },
                    )
                },
            }
        },
    }
}

/// Whether a transfer asks for pages.
pub open spec fn wanted(transfers: Map<Seq<char>, Transfer>, session: Seq<char>) -> bool {
    transfers.dom().contains(session) && !transfers[session].is_dummy
}

/// Where the pages of a session go.
pub open spec fn session_layout(args: KvArgs, transfer: Transfer) -> RemoteLayout {
    RemoteLayout {
        dst_kv_ptrs: args.dst_kv_ptrs,
        dst_kv_indices: transfer.dst_kv_indices,
        dst_kv_item_len: args.dst_kv_item_len,
    }
}

/// Where the pages of each session of a room that asks for pages go.
pub open spec fn room_layouts(state: BootstrapState, room: u64) -> Map<Seq<char>, RemoteLayout> {
    let transfers = state.rooms[room].transfers;
    Map::new(
        |session: Seq<char>| wanted(transfers, session),
        |session: Seq<char>| session_layout(state.kv_args[session], transfers[session]),
    )
}

/// The sessions and layouts of a list.
pub open spec fn layout_pairs(layouts: Seq<(String, MooncakeRemoteKvLayout)>) -> Seq<
    (Seq<char>, RemoteLayout),
> {
    layouts.map_values(|layout: (String, MooncakeRemoteKvLayout)| (layout.0@, layout.1@))
}

/// `value`, where nothing was known before.
pub open spec fn kept<T>(known: Option<T>, value: T) -> Option<T> {
    if known is Some {
        known
    } else {
        Some(value)
    }
}

/// `value`, where nothing was known before and it is given.
pub open spec fn kept_if_given<T>(known: Option<T>, value: Option<T>) -> Option<T> {
    if known is Some {
        known
    } else {
        value
    }
}

/// The ranks that a registration is for.
pub open spec fn place_of(r: PrefillRouteRegistration) -> Place {
    (
        if r.system_dp_size == 1 {
            r.attn_dp_rank
        } else {
            r.system_dp_rank
        },
        r.attn_cp_rank,
        r.attn_tp_rank,
        r.pp_rank,
    )
}

/// The address that a registration gives.
pub open spec fn address_of(r: PrefillRouteRegistration) -> RankAddress {
    RankAddress { rank_ip: r.rank_ip@, rank_port: r.rank_port as nat }
}

/// The state after a rank has registered. The first rank to tell a size decides it.
pub open spec fn registered(state: BootstrapState, r: PrefillRouteRegistration) -> BootstrapState {
    let by_attention = r.system_dp_size == 1;
    BootstrapState {
        attn_tp_size: kept(state.attn_tp_size, r.attn_tp_size),
        attn_cp_size: kept(state.attn_cp_size, r.attn_cp_size),
        dp_size: kept(
            state.dp_size,
            if by_attention {
                r.attn_dp_size
            } else {
                r.system_dp_size
            },
        ),
        pp_size: kept(state.pp_size, r.pp_size),
        page_size: kept_if_given(state.page_size, r.page_size),
        kv_cache_dtype: kept_if_given(state.kv_cache_dtype, optional_text(r.kv_cache_dtype)),
        follow_bootstrap_room: kept(
            state.follow_bootstrap_room,
            r.load_balance_method is None || r.load_balance_method->0@ == "follow_bootstrap_room"@,
        ),
        ranks: state.ranks.insert(place_of(r), address_of(r)),
        registered_count: state.registered_count + 1,
        ..state
    }
}

/// Whether as many ranks have registered as the sizes call for.
pub open spec fn ready(state: BootstrapState) -> bool {
    state.dp_size is Some && state.attn_cp_size is Some && state.attn_tp_size is Some
        && state.pp_size is Some && state.registered_count >= state.dp_size->0
        * state.attn_cp_size->0 * state.attn_tp_size->0 * state.pp_size->0
}

/// The sizes of a server that is ready.
pub open spec fn server_sizes(state: BootstrapState) -> Option<ServerSizes> {
    if ready(state) {
        Some(
            ServerSizes {
                attn_tp_size: state.attn_tp_size->0,
                attn_cp_size: state.attn_cp_size->0,
                dp_size: state.dp_size->0,
                pp_size: state.pp_size->0,
                page_size: state.page_size,
                kv_cache_dtype: state.kv_cache_dtype,
                follow_bootstrap_room: state.follow_bootstrap_room.unwrap_or(true),
            },
        )
    } else {
        None
    }
}

/// Whether an entry is still remembered at `now`.
pub open spec fn fresh(entry: RegisteredDpRank, now: u64) -> bool {
    now - entry.timestamp_secs <= DP_RANK_ENTRY_CLEANUP_INTERVAL_SECS
}

/// The entries that are still remembered at `now`.
pub open spec fn fresh_ranks(entries: Map<u64, RegisteredDpRank>, now: u64) -> Map<
    u64,
    RegisteredDpRank,
> {
    entries.restrict(
        Set::new(|room: u64| entries.dom().contains(room) && fresh(entries[room], now)),
    )
}

/// The answer to a query for the ranks of rooms.
pub open spec fn ranks_answer(entries: Map<u64, RegisteredDpRank>, rooms: Seq<u64>) -> JsonView
    decreases rooms.len(),
{
    if rooms.len() == 0 {
        empty_object()
    } else {
        let answer = ranks_answer(entries, rooms.drop_last());
        let room = rooms.last();
        if entries.dom().contains(room) {
            answer.with(decimal(room as nat), integer_view(entries[room].dp_rank as int))
        } else {
            answer
        }
    }
}

proof fn lemma_inserted_values<K, V, W>(map: Map<K, V>, key: K, value: V, f: spec_fn(V) -> W)
    ensures
        map.insert(key, value).map_values(f) == map.map_values(f).insert(key, f(value)),
{
    assert(map.insert(key, value).map_values(f) =~= map.map_values(f).insert(key, f(value)));
}

proof fn lemma_removed_inserted<K, V>(map: Map<K, V>, key: K, value: V)
    ensures
        map.remove(key).insert(key, value) == map.insert(key, value),
{
    assert(map.remove(key).insert(key, value) =~= map.insert(key, value));
}

impl Default for PrefillBootstrapState {
    fn default() -> (state: Self)
        ensures
            state.wf(),
            state@ == initial_state(),
    {
        PrefillBootstrapState::new()
    }
}

impl PrefillBootstrapState {
    /// The tables are well formed.
    pub closed spec fn wf(self) -> bool {
        &&& self.prefill_port_table.wf()
        &&& self.room_to_dp_rank.wf()
        &&& self.decode_kv_args_table.wf()
        &&& self.transfer_rooms.wf()
        &&& forall|room: u64| #[trigger]
            self.transfer_rooms@.dom().contains(room) ==> self.transfer_rooms@[room].wf()
    }

    /// The state of a server of which nothing is known yet.
    pub fn new() -> (state: Self)
        ensures
            state.wf(),
            state@ == initial_state(),
    {
        let state = PrefillBootstrapState {
            attn_tp_size: None,
            attn_cp_size: None,
            dp_size: None,
            pp_size: None,
            page_size: None,
            kv_cache_dtype: None,
            follow_bootstrap_room: None,
            registered_count: 0,
            prefill_port_table: PlaceMap::new(),
            room_to_dp_rank: NumberMap::new(),
            decode_kv_args_table: TextMap::new(),
            decode_kv_args_registration_count: 0,
            transfer_rooms: NumberMap::new(),
        };
        proof {
            assert(state@.ranks =~= Map::empty());
            assert(state@.kv_args =~= Map::empty());
            assert(state@.rooms =~= Map::empty());
        }
        state
    }

    /// Takes in a message of a decode server.
    pub fn ingest_mooncake_bootstrap_frame(&mut self, frame: &[Vec<u8>]) -> (taken: Result<
        (),
        MooncakeBootstrapFrameError,
    >)
        requires
            old(self).wf(),
            old(self)@.kv_args_count < usize::MAX,
        ensures
            final(self).wf(),
            match taken {
                Ok(_) => ingested(old(self)@, seqs(frame@)) == Ok::<BootstrapState, FrameFault>(
                    final(self)@,
                ),
                Err(error) => ingested(old(self)@, seqs(frame@)) == Err::<
                    BootstrapState,
                    FrameFault,
                >(error@) && final(self)@ == old(self)@,
            },
    {
        let room = ascii_field(frame, 0, "room")?;
        if same_text(room, "WATERMARK") || same_text(room, "STAGING_RSP") {
            return Ok(());
        }
        if same_text(room, "None") {
            let register = MooncakeKvArgsRegisterInfo::from_frame(frame)?;
            let session = register.mooncake_session_id.clone();
            proof {
                lemma_inserted_values(
                    self.decode_kv_args_table@,
                    session@,
                    register,
                    |info: MooncakeKvArgsRegisterInfo| info@,
                );
            }
            self.decode_kv_args_table.insert(session, register);
            self.decode_kv_args_registration_count = self.decode_kv_args_registration_count + 1;
            return Ok(());
        }
        let transfer = MooncakeTransferInfo::from_frame(frame)?;
        let room: u64 = transfer.room;
        let required_dst_info_num: usize = transfer.required_dst_info_num;
        let decode_prefix_len = transfer.decode_prefix_len;
        let ghost message = transfer@;
        let ghost rooms_before = self.transfer_rooms@;
        let ghost known = lookup(self@.rooms, room);
        let mut room_state = match self.transfer_rooms.take(room) {
            Some(known_room) => known_room,
            None => {
                let fresh_room = MooncakeTransferRoom {
                    required_dst_info_num,
                    status: KvPoll::Bootstrapping,
                    decode_prefix_len: None,
                    transfers: TextMap::new(),
                };
                proof {
                    assert(fresh_room@.transfers =~= Map::empty());
                }
                fresh_room
            },
        };
        room_state.required_dst_info_num = required_dst_info_num;
        if room_state.decode_prefix_len.is_none() && decode_prefix_len.is_some() {
            room_state.decode_prefix_len = decode_prefix_len;
        }
        let session = transfer.mooncake_session_id.clone();
        proof {
            lemma_inserted_values(
                room_state.transfers@,
                session@,
                transfer,
                |info: MooncakeTransferInfo| info@,
            );
        }
        room_state.transfers.insert(session, transfer);
        let count: usize = room_state.transfers.len();
        proof {
            assert(room_state@.transfers.dom() =~= room_state.transfers@.dom());
        }
        if count == room_state.required_dst_info_num {
            room_state.status = KvPoll::WaitingForInput;
        }
        proof {
            assert(room_state@ == room_with(known, message));
            lemma_inserted_values(
                rooms_before,
                room,
                room_state,
                |room: MooncakeTransferRoom| room@,
            );
            lemma_removed_inserted(rooms_before, room, room_state);
        }
        self.transfer_rooms.insert(room, room_state);
        proof {
            assert(self.transfer_rooms@ =~= rooms_before.insert(room, room_state));
        }
        Ok(())
    }

    /// What the decode server of a session told about its caches.
    pub fn decode_kv_args(&self, session_id: &str) -> (args: Option<&MooncakeKvArgsRegisterInfo>)
        requires
            self.wf(),
        ensures
            match args {
                Some(info) => lookup(self@.kv_args, session_id@) == Some(info@),
                None => lookup(self@.kv_args, session_id@) is None,
            },
    {
        self.decode_kv_args_table.get(session_id)
    }

    /// How many cache registrations were taken in.
    pub fn decode_kv_args_registration_count(&self) -> (count: usize)
        ensures
            count == self@.kv_args_count,
    {
        self.decode_kv_args_registration_count
    }

    /// How many ranks have registered.
    pub fn registered_count(&self) -> (count: usize)
        ensures
            count == self@.registered_count,
    {
        self.registered_count
    }

    /// What is known of a room.
    pub fn transfer_room(&self, room: u64) -> (state: Option<&MooncakeTransferRoom>)
        requires
            self.wf(),
        ensures
            match state {
                Some(known) => lookup(self@.rooms, room) == Some(known@) && known.wf(),
                None => lookup(self@.rooms, room) is None,
            },
    {
        self.transfer_rooms.get(room)
    }

    /// How far the transfer of a room has come.
    pub fn transfer_status(&self, room: u64) -> (status: Option<KvPoll>)
        requires
            self.wf(),
        ensures
            match status {
                Some(known) => lookup(self@.rooms, room) is Some && self@.rooms[room].status
                    == known,
                None => lookup(self@.rooms, room) is None,
            },
    {
        match self.transfer_rooms.get(room) {
            Some(known) => Some(known.status),
            None => None,
        }
    }
}

/// The layouts of the sessions that ask for pages, among the first `n` of the ordered transfers.
spec fn layouts_upto(
    pairs: Seq<(Seq<char>, MooncakeTransferInfo)>,
    kv_args: Map<Seq<char>, KvArgs>,
    n: nat,
) -> Seq<(Seq<char>, RemoteLayout)>
    decreases n,
{
    if n == 0 || n > pairs.len() {
        Seq::empty()
    } else {
        let before = layouts_upto(pairs, kv_args, (n - 1) as nat);
        let (session, info) = pairs[n - 1];
        if info.is_dummy {
            before
        } else {
            before.push((session, session_layout(kv_args[session], info@)))
        }
    }
}

proof fn lemma_layouts_upto(
    pairs: Seq<(Seq<char>, MooncakeTransferInfo)>,
    kv_args: Map<Seq<char>, KvArgs>,
    n: nat,
)
    requires
        ascending(pairs),
        n <= pairs.len(),
    ensures
        ascending(layouts_upto(pairs, kv_args, n)),
        forall|i: int|
            0 <= i < layouts_upto(pairs, kv_args, n).len() ==> exists|j: int|
                0 <= j < n && (#[trigger] pairs[j]).0 == (#[trigger] layouts_upto(
                    pairs,
                    kv_args,
                    n,
                )[i]).0,
        forall|session: Seq<char>| #[trigger]
            map_of(layouts_upto(pairs, kv_args, n)).dom().contains(session) == (exists|j: int|
                0 <= j < n && (#[trigger] pairs[j]).0 == session && !pairs[j].1.is_dummy),
        forall|j: int|
            0 <= j < n && !(#[trigger] pairs[j]).1.is_dummy ==> map_of(
                layouts_upto(pairs, kv_args, n),
            )[pairs[j].0] == session_layout(kv_args[pairs[j].0], pairs[j].1@),
    decreases n,
{
    if n > 0 {
        let m = (n - 1) as nat;
        let before = layouts_upto(pairs, kv_args, m);
        let after = layouts_upto(pairs, kv_args, n);
        lemma_layouts_upto(pairs, kv_args, m);
        let (key, info) = pairs[n - 1];
        crate::order::ascending_pairs_are_the_map(pairs);
        if !info.is_dummy {
            assert(after.drop_last() =~= before);
            assert forall|i: int, j: int| 0 <= i < j < after.len() implies text_lt(
                #[trigger] after[i].0,
                #[trigger] after[j].0,
            ) by {
                if j < before.len() {
                    assert(after[i] == before[i]);
                    assert(after[j] == before[j]);
                } else {
                    assert(after[i] == before[i]);
                    let k = choose|k: int| 0 <= k < m && (#[trigger] pairs[k]).0 == before[i].0;
                    assert(text_lt(pairs[k].0, pairs[n - 1].0));
                }
            }
            assert forall|i: int| 0 <= i < after.len() implies exists|j: int|
                0 <= j < n && (#[trigger] pairs[j]).0 == (#[trigger] after[i]).0 by {
                if i < before.len() {
                    assert(after[i] == before[i]);
                    let k = choose|k: int| 0 <= k < m && (#[trigger] pairs[k]).0 == before[i].0;
                    assert(pairs[k].0 == after[i].0);
                } else {
                    assert(pairs[n - 1].0 == after[i].0);
                }
            }
            assert(map_of(after) == map_of(before).insert(
                key,
                session_layout(kv_args[key], info@),
            ));
        } else {
            assert(after == before);
        }
        assert forall|session: Seq<char>| #[trigger]
            map_of(after).dom().contains(session) == (exists|j: int|
            0 <= j < n && (#[trigger] pairs[j]).0 == session && !pairs[j].1.is_dummy) by {
            if map_of(after).dom().contains(session) {
                if map_of(before).dom().contains(session) {
                    let j = choose|j: int|
                        0 <= j < m && (#[trigger] pairs[j]).0 == session && !pairs[j].1.is_dummy;
                    assert(0 <= j < n && pairs[j].0 == session && !pairs[j].1.is_dummy);
                } else {
                    assert(pairs[n - 1].0 == session && !pairs[n - 1].1.is_dummy);
                }
            }
            if exists|j: int|
                0 <= j < n && (#[trigger] pairs[j]).0 == session && !pairs[j].1.is_dummy {
                let j = choose|j: int|
                    0 <= j < n && (#[trigger] pairs[j]).0 == session && !pairs[j].1.is_dummy;
                if j < m {
                    assert(map_of(before).dom().contains(session));
                }
            }
        }
        assert forall|j: int| 0 <= j < n && !(#[trigger] pairs[j]).1.is_dummy implies map_of(
            after,
        )[pairs[j].0] == session_layout(kv_args[pairs[j].0], pairs[j].1@) by {
            if j < m && !info.is_dummy {
                assert(pairs[j].0 != pairs[n - 1].0);
            }
        }
    }
}

proof fn lemma_room_layouts(
    pairs: Seq<(Seq<char>, MooncakeTransferInfo)>,
    state: BootstrapState,
    room: u64,
)
    requires
        ascending(pairs),
        state.rooms[room].transfers == map_of(pairs).map_values(|info: MooncakeTransferInfo| info@),
    ensures
        map_of(layouts_upto(pairs, state.kv_args, pairs.len())) == room_layouts(state, room),
{
    let n = pairs.len();
    let transfers = state.rooms[room].transfers;
    let listed = map_of(layouts_upto(pairs, state.kv_args, n));
    lemma_layouts_upto(pairs, state.kv_args, n);
    crate::order::ascending_pairs_are_the_map(pairs);
    assert forall|session: Seq<char>| listed.dom().contains(session) == wanted(
        transfers,
        session,
    ) by {
        if wanted(transfers, session) {
            assert(map_of(pairs).dom().contains(session));
            let j = choose|j: int| 0 <= j < n && (#[trigger] pairs[j]).0 == session;
            assert(pairs[j].0 == session && !pairs[j].1.is_dummy);
        }
        if listed.dom().contains(session) {
            let j = choose|j: int|
                0 <= j < n && (#[trigger] pairs[j]).0 == session && !pairs[j].1.is_dummy;
            assert(map_of(pairs).dom().contains(pairs[j].0));
            assert(map_of(pairs)[pairs[j].0] == pairs[j].1);
        }
    }
    assert forall|session: Seq<char>| listed.dom().contains(session) implies listed[session]
        == room_layouts(state, room)[session] by {
        let j = choose|j: int|
            0 <= j < n && (#[trigger] pairs[j]).0 == session && !pairs[j].1.is_dummy;
        assert(map_of(pairs)[pairs[j].0] == pairs[j].1);
    }
    assert(listed =~= room_layouts(state, room));
}

fn copy_numbers(values: &Vec<u64>) -> (copy: Vec<u64>)
    ensures
        copy@ == values@,
{
    let mut copy: Vec<u64> = Vec::new();
    let mut i: usize = 0;
    while i < values.len()
        invariant
            i <= values@.len(),
            copy@ == values@.take(i as int),
        decreases values@.len() - i,
    {
        copy.push(values[i]);
        i = i + 1;
        proof {
            assert(values@.take(i as int) =~= values@.take(i - 1).push(values@[i - 1]));
        }
    }
    proof {
        assert(values@.take(i as int) =~= values@);
    }
    copy
}

fn copy_indices(values: &Vec<i32>) -> (copy: Vec<i32>)
    ensures
        copy@ == values@,
{
    let mut copy: Vec<i32> = Vec::new();
    let mut i: usize = 0;
    while i < values.len()
        invariant
            i <= values@.len(),
            copy@ == values@.take(i as int),
        decreases values@.len() - i,
    {
        copy.push(values[i]);
        i = i + 1;
        proof {
            assert(values@.take(i as int) =~= values@.take(i - 1).push(values@[i - 1]));
        }
    }
    proof {
        assert(values@.take(i as int) =~= values@);
    }
    copy
}

impl PrefillBootstrapState {
    /// Where the pages of a room go: the layout of each session that asks for pages, in the order
    /// of the sessions. Each such session must have registered its caches.
    pub fn remote_kv_layouts_for_room(&self, room: u64) -> (layouts: Result<
        Vec<(String, MooncakeRemoteKvLayout)>,
        MooncakeRemoteKvLayoutError,
    >)
        requires
            self.wf(),
        ensures
            match layouts {
                Ok(list) => {
                    &&& self@.rooms.dom().contains(room)
                    &&& forall|session: Seq<char>| #[trigger]
                        wanted(self@.rooms[room].transfers, session)
                            ==> self@.kv_args.dom().contains(session)
                    &&& ascending(layout_pairs(list@))
                    &&& map_of(layout_pairs(list@)) == room_layouts(self@, room)
                },
                Err(MooncakeRemoteKvLayoutError::MissingTransferRoom(missing)) => missing == room
                    && !self@.rooms.dom().contains(room),
                Err(
                    MooncakeRemoteKvLayoutError::MissingKvArgsRegistration {
                        room: of,
                        mooncake_session_id,
                    },
                ) => {
                    &&& of == room
                    &&& self@.rooms.dom().contains(room)
                    &&& wanted(self@.rooms[room].transfers, mooncake_session_id@)
                    &&& !self@.kv_args.dom().contains(mooncake_session_id@)
                    &&& forall|session: Seq<char>| #[trigger]
                        wanted(self@.rooms[room].transfers, session) && text_lt(
                            session,
                            mooncake_session_id@,
                        ) ==> self@.kv_args.dom().contains(session)
                },
            },
    {
        let room_state = match self.transfer_rooms.get(room) {
            Some(known) => known,
            None => {
                return Err(MooncakeRemoteKvLayoutError::MissingTransferRoom(room));
            },
        };
        let ghost pairs = room_state.transfers.pairs();
        let ghost kv_args = self@.kv_args;
        let count: usize = room_state.transfers.len();
        let mut layouts: Vec<(String, MooncakeRemoteKvLayout)> = Vec::new();
        let mut i: usize = 0;
        proof {
            assert(layout_pairs(layouts@) =~= Seq::empty());
            crate::order::ascending_pairs_are_the_map(pairs);
        }
        while i < count
            invariant
                i <= count,
                count == pairs.len(),
                self.wf(),
                self@.rooms.dom().contains(room),
                self.transfer_rooms@.dom().contains(room),
                *room_state == self.transfer_rooms@[room],
                room_state.wf(),
                pairs == room_state.transfers.pairs(),
                kv_args == self@.kv_args,
                layout_pairs(layouts@) == layouts_upto(pairs, kv_args, i as nat),
                forall|j: int|
                    0 <= j < i && !(#[trigger] pairs[j]).1.is_dummy ==> kv_args.dom().contains(
                        pairs[j].0,
                    ),
            decreases count - i,
        {
            let transfer = room_state.transfers.value_at(i);
            proof {
                crate::order::ascending_pairs_are_the_map(pairs);
                assert(pairs[i as int].0 == transfer.mooncake_session_id@) by {
                    assert(room_state.transfers@.dom().contains(pairs[i as int].0));
                }
            }
            if !transfer.is_dummy {
                let kv_args_info = match self.decode_kv_args_table.get(
                    transfer.mooncake_session_id.as_str(),
                ) {
                    Some(info) => info,
                    None => {
                        proof {
                            let missing = transfer.mooncake_session_id@;
                            let transfers = self@.rooms[room].transfers;
                            assert(room_state.transfers@.dom().contains(pairs[i as int].0));
                            assert(wanted(transfers, missing));
                            assert forall|session: Seq<char>| #[trigger]
                                wanted(transfers, session) && text_lt(
                                    session,
                                    missing,
                                ) implies kv_args.dom().contains(session) by {
                                assert(map_of(pairs).dom().contains(session));
                                let j = choose|j: int|
                                    0 <= j < pairs.len() && (#[trigger] pairs[j]).0 == session;
                                if j >= i {
                                    crate::order::text_order_irreflexive(session);
                                    if j > i {
                                        assert(text_lt(pairs[i as int].0, pairs[j].0));
                                        crate::order::text_order_transitive(
                                            session,
                                            missing,
                                            session,
                                        );
                                    }
                                }
                            }
                        }
                        return Err(
                            MooncakeRemoteKvLayoutError::MissingKvArgsRegistration {
                                room,
                                mooncake_session_id: transfer.mooncake_session_id.clone(),
                            },
                        );
                    },
                };
                let ghost before = layout_pairs(layouts@);
                let layout = MooncakeRemoteKvLayout {
                    dst_kv_ptrs: copy_numbers(&kv_args_info.dst_kv_ptrs),
                    dst_kv_indices: copy_indices(&transfer.dst_kv_indices),
                    dst_kv_item_len: kv_args_info.dst_kv_item_len,
                };
                layouts.push((transfer.mooncake_session_id.clone(), layout));
                proof {
                    assert(layout_pairs(layouts@) =~= before.push(
                        (
                            pairs[i as int].0,
                            session_layout(kv_args[pairs[i as int].0], pairs[i as int].1@),
                        ),
                    ));
                }
            }
            i = i + 1;
        }
        proof {
            lemma_layouts_upto(pairs, kv_args, count as nat);
            lemma_room_layouts(pairs, self@, room);
            let transfers = self@.rooms[room].transfers;
            assert forall|session: Seq<char>| #[trigger]
                wanted(transfers, session) implies kv_args.dom().contains(session) by {
                crate::order::ascending_pairs_are_the_map(pairs);
                assert(map_of(pairs).dom().contains(session));
                let j = choose|j: int| 0 <= j < pairs.len() && (#[trigger] pairs[j]).0 == session;
                assert(!pairs[j].1.is_dummy);
            }
        }
        Ok(layouts)
    }

    /// Takes in the registration of a prefill rank.
    pub fn register_route(&mut self, registration: PrefillRouteRegistration)
        requires
            old(self).wf(),
            old(self)@.registered_count < usize::MAX,
        ensures
            final(self).wf(),
            final(self)@ == registered(old(self)@, registration),
    {
        let ghost before = self@;
        let ghost ranks_before = self.prefill_port_table@;
        if self.attn_tp_size.is_none() {
            self.attn_tp_size = Some(registration.attn_tp_size);
        }
        if self.attn_cp_size.is_none() {
            self.attn_cp_size = Some(registration.attn_cp_size);
        }
        if self.dp_size.is_none() {
            self.dp_size =
            Some(
                if registration.system_dp_size == 1 {
                    registration.attn_dp_size
                } else {
                    registration.system_dp_size
                },
            );
        }
        if self.pp_size.is_none() {
            self.pp_size = Some(registration.pp_size);
        }
        if self.page_size.is_none() {
            self.page_size = registration.page_size;
        }
        if self.kv_cache_dtype.is_none() {
            self.kv_cache_dtype = copy_optional_text(&registration.kv_cache_dtype);
        }
        if self.follow_bootstrap_room.is_none() {
            self.follow_bootstrap_room =
            Some(
                match &registration.load_balance_method {
                    Some(method) => same_text(method.as_str(), "follow_bootstrap_room"),
                    None => true,
                },
            );
        }
        let dp_group: usize = if registration.system_dp_size == 1 {
            registration.attn_dp_rank
        } else {
            registration.system_dp_rank
        };
        let place = (
            dp_group,
            registration.attn_cp_rank,
            registration.attn_tp_rank,
            registration.pp_rank,
        );
        let info = PrefillRankInfo {
            rank_ip: registration.rank_ip.clone(),
            rank_port: registration.rank_port,
        };
        proof {
            lemma_inserted_values(ranks_before, place, info, |info: PrefillRankInfo| info@);
        }
        self.prefill_port_table.insert(place, info);
        self.registered_count = self.registered_count + 1;
    }

    /// Whether as many ranks have registered as the sizes call for.
    pub fn is_ready(&self) -> (is_ready: bool)
        ensures
            is_ready == ready(self@),
    {
        if let (Some(dp_size), Some(attn_cp_size), Some(attn_tp_size), Some(pp_size)) = (
            self.dp_size,
            self.attn_cp_size,
            self.attn_tp_size,
            self.pp_size,
        ) {
            at_least_product(self.registered_count, dp_size, attn_cp_size, attn_tp_size, pp_size)
        } else {
            false
        }
    }

    /// The sizes of the server, once it is ready.
    pub fn server_info(&self) -> (info: Option<PrefillServerInfo>)
        ensures
            match info {
                Some(sizes) => server_sizes(self@) == Some(sizes@),
                None => server_sizes(self@) is None,
            },
    {
        if !self.is_ready() {
            return None;
        }
        Some(
            PrefillServerInfo {
                attn_tp_size: self.attn_tp_size?,
                attn_cp_size: self.attn_cp_size?,
                dp_size: self.dp_size?,
                pp_size: self.pp_size?,
                page_size: self.page_size,
                kv_cache_dtype: copy_optional_text(&self.kv_cache_dtype),
                follow_bootstrap_room: match self.follow_bootstrap_room {
                    Some(follow) => follow,
                    None => true,
                },
            },
        )
    }

    /// The address of a rank.
    pub fn rank_info(
        &self,
        prefill_dp_rank: usize,
        prefill_cp_rank: usize,
        target_tp_rank: usize,
        target_pp_rank: usize,
    ) -> (info: Option<PrefillRankInfo>)
        requires
            self.wf(),
        ensures
            match info {
                Some(address) => lookup(
                    self@.ranks,
                    (prefill_dp_rank, prefill_cp_rank, target_tp_rank, target_pp_rank),
                ) == Some(address@),
                None => lookup(
                    self@.ranks,
                    (prefill_dp_rank, prefill_cp_rank, target_tp_rank, target_pp_rank),
                ) is None,
            },
    {
        match self.prefill_port_table.get(
            (prefill_dp_rank, prefill_cp_rank, target_tp_rank, target_pp_rank),
        ) {
            Some(info) => Some(info.clone()),
            None => None,
        }
    }

    /// Forgets the ranks that were told too long before `now_secs`. Returns how many were.
    pub fn prune_expired_dp_rank_entries(&mut self, now_secs: u64) -> (pruned: usize)
        requires
            old(self).wf(),
        ensures
            final(self).wf(),
            final(self)@ == (BootstrapState {
                dp_ranks: fresh_ranks(old(self)@.dp_ranks, now_secs),
                ..old(self)@
            }),
            pruned == old(self)@.dp_ranks.len() - final(self)@.dp_ranks.len(),
    {
        let ghost all = self.room_to_dp_rank.pairs();
        let before: usize = self.room_to_dp_rank.len();
        let mut kept: NumberMap<RegisteredDpRank> = NumberMap::new();
        let mut i: usize = 0;
        proof {
            crate::order::unique_pairs_are_the_map(all);
        }
        while i < before
            invariant
                self.room_to_dp_rank.pairs() == all,
                self.wf(),
                i <= before,
                before == all.len(),
                kept.wf(),
                forall|room: u64| #[trigger]
                    kept@.dom().contains(room) ==> map_of(all).dom().contains(room) && kept@[room]
                        == map_of(all)[room] && fresh(map_of(all)[room], now_secs),
                forall|j: int|
                    0 <= j < i && fresh((#[trigger] all[j]).1, now_secs) ==> kept@.dom().contains(
                        all[j].0,
                    ),
                kept@.dom().finite(),
            decreases before - i,
        {
            let room: u64 = self.room_to_dp_rank.key_at(i);
            let entry = *self.room_to_dp_rank.value_at(i);
            proof {
                crate::order::unique_pairs_are_the_map(all);
                assert(all[i as int] == (room, entry));
                assert(map_of(all).dom().contains(all[i as int].0));
            }
            if now_secs.saturating_sub(entry.timestamp_secs)
                <= DP_RANK_ENTRY_CLEANUP_INTERVAL_SECS {
                kept.insert(room, entry);
            }
            i = i + 1;
        }
        proof {
            crate::order::unique_pairs_are_the_map(all);
            let old_ranks = map_of(all);
            assert forall|room: u64| kept@.dom().contains(room) == fresh_ranks(
                old_ranks,
                now_secs,
            ).dom().contains(room) by {
                if fresh_ranks(old_ranks, now_secs).dom().contains(room) {
                    let j = choose|j: int| 0 <= j < all.len() && (#[trigger] all[j]).0 == room;
                    assert(map_of(all)[all[j].0] == all[j].1);
                }
            }
            assert(kept@ =~= fresh_ranks(old_ranks, now_secs));
            vstd::set_lib::lemma_len_subset(kept@.dom(), old_ranks.dom());
        }
        let after: usize = kept.len();
        self.room_to_dp_rank = kept;
        before - after
    }

    /// Remembers which rank serves a room. Ranks that were told too long before `now_secs` are
    /// forgotten first; the new entry counts from `registered_secs`.
    pub fn register_dp_rank(
        &mut self,
        bootstrap_room: u64,
        dp_rank: i32,
        now_secs: u64,
        registered_secs: u64,
    )
        requires
            old(self).wf(),
        ensures
            final(self).wf(),
            final(self)@ == (BootstrapState {
                dp_ranks: fresh_ranks(old(self)@.dp_ranks, now_secs).insert(
                    bootstrap_room,
                    RegisteredDpRank { dp_rank, timestamp_secs: registered_secs },
                ),
                ..old(self)@
            }),
    {
        self.prune_expired_dp_rank_entries(now_secs);
        self.room_to_dp_rank.insert(
            bootstrap_room,
            RegisteredDpRank { dp_rank, timestamp_secs: registered_secs },
        );
    }

    /// Which ranks serve the rooms, as far as it is remembered at `now_secs`.
    pub fn query_dp_ranks(&mut self, bootstrap_rooms: &Vec<u64>, now_secs: u64) -> (answer: Json)
        requires
            old(self).wf(),
        ensures
            final(self).wf(),
            final(self)@ == (BootstrapState {
                dp_ranks: fresh_ranks(old(self)@.dp_ranks, now_secs),
                ..old(self)@
            }),
            answer@ == ranks_answer(final(self)@.dp_ranks, bootstrap_rooms@),
    {
        self.prune_expired_dp_rank_entries(now_secs);
        let mut answer = Json::object();
        let mut i: usize = 0;
        while i < bootstrap_rooms.len()
            invariant
                self.wf(),
                i <= bootstrap_rooms@.len(),
                answer@ == ranks_answer(self@.dp_ranks, bootstrap_rooms@.take(i as int)),
            decreases bootstrap_rooms@.len() - i,
        {
            let room: u64 = bootstrap_rooms[i];
            proof {
                assert(bootstrap_rooms@.take(i + 1).drop_last() =~= bootstrap_rooms@.take(
                    i as int,
                ));
            }
            match self.room_to_dp_rank.get(room) {
                Some(entry) => {
                    answer =
                    answer.with(
                        decimal_u64(room).as_str(),
                        Json::integer(entry.dp_rank as i64),
                    );
                },
                None => {},
            }
            i = i + 1;
        }
        proof {
            assert(bootstrap_rooms@.take(i as int) =~= bootstrap_rooms@);
        }
        answer
    }
}

/// Whether `count` is at least the product of the four sizes.
fn at_least_product(count: usize, a: usize, b: usize, c: usize, d: usize) -> (enough: bool)
    ensures
        enough == (count >= a * b * c * d),
{
    if a == 0 || b == 0 || c == 0 || d == 0 {
        proof {
            assert(a * b * c * d == 0) by (nonlinear_arith)
                requires
                    a == 0 || b == 0 || c == 0 || d == 0,
            ;
        }
        return true;
    }
    let ab: usize = match a.checked_mul(b) {
        Some(n) => n,
        None => {
            proof {
                assert(a * b * c * d >= a * b) by (nonlinear_arith)
                    requires
                        a > 0,
                        b > 0,
                        c > 0,
                        d > 0,
                ;
            }
            return false;
        },
    };
    let abc: usize = match ab.checked_mul(c) {
        Some(n) => n,
        None => {
            proof {
                assert(a * b * c * d >= a * b * c) by (nonlinear_arith)
                    requires
                        a > 0,
                        b > 0,
                        c > 0,
                        d > 0,
                ;
            }
            return false;
        },
    };
    match abc.checked_mul(d) {
        Some(n) => count >= n,
        None => false,
    }
}

} // verus!
