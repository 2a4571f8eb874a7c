//! The bootstrap exchange between prefill and decode servers.
use vstd::prelude::*;
use vstd::string::*;
use vstd::utf8::*;

use crate::bootstrap_frame::{
    ascii_field, fault_of, field, first, i32_lists_in, i32s_in, integer_in, number_in,
    optional_number_in, optional_u32_lists, optional_u32_lists_in, optional_usize,
    parse_bootstrap_room, parse_i32, parse_u16, parse_usize, require_min_fields, text_in,
    too_few_fields, u64_lists_in, u64s_in, unpack_i32_lists, unpack_i32s, unpack_u64_lists,
    unpack_u64s, FrameFault, MooncakeBootstrapFrameError,
};
use crate::text::{
    decimal, decimal_i64, decimal_reads_back, decimal_u64, decimal_usize, signed_decimal,
    signed_decimal_reads_back,
};
use crate::wire::{
    copy_range, i32_bytes, i32_bytes_read_back, pack_i32_lists, pack_i32s, pack_u32_lists,
    pack_u64_lists, pack_u64s, packed_list, packed_list_reads_back, seqs, u32_bytes,
    u32_bytes_read_back, u64_bytes, u64_bytes_read_back,
};

verus! {

/// How far the transfer of a room has come.
#[derive(Clone, Copy, Debug, PartialEq, Eq, Structural)]
pub enum KvPoll {
    Bootstrapping,
    WaitingForInput,
}

/// What a decode server told about its caches.
#[derive(Clone, Debug, PartialEq, Eq)]
pub struct MooncakeKvArgsRegisterInfo {
    pub room: String,
    pub endpoint: String,
    pub dst_port: u16,
    pub mooncake_session_id: String,
    pub dst_kv_ptrs: Vec<u64>,
    pub dst_aux_ptrs: Vec<u64>,
    pub dst_state_data_ptrs: Vec<Vec<u64>>,
    pub dst_tp_rank: i32,
    pub dst_attn_tp_size: usize,
    pub dst_kv_item_len: usize,
    pub dst_state_item_lens: Vec<Vec<u32>>,
    pub dst_state_dim_per_tensor: Vec<Vec<u32>>,
}

/// What a [`MooncakeKvArgsRegisterInfo`] says.
pub struct KvArgs {
    pub room: Seq<char>,
    pub endpoint: Seq<char>,
    pub dst_port: nat,
    pub mooncake_session_id: Seq<char>,
    pub dst_kv_ptrs: Seq<u64>,
    pub dst_aux_ptrs: Seq<u64>,
    pub dst_state_data_ptrs: Seq<Seq<u64>>,
    pub dst_tp_rank: int,
    pub dst_attn_tp_size: nat,
    pub dst_kv_item_len: nat,
    pub dst_state_item_lens: Seq<Seq<u32>>,
    pub dst_state_dim_per_tensor: Seq<Seq<u32>>,
}

impl View for MooncakeKvArgsRegisterInfo {
    type V = KvArgs;

    open spec fn view(&self) -> KvArgs {
        KvArgs {
            room: self.room@,
            endpoint: self.endpoint@,
            dst_port: self.dst_port as nat,
            mooncake_session_id: self.mooncake_session_id@,
            dst_kv_ptrs: self.dst_kv_ptrs@,
            dst_aux_ptrs: self.dst_aux_ptrs@,
            dst_state_data_ptrs: seqs(self.dst_state_data_ptrs@),
            dst_tp_rank: self.dst_tp_rank as int,
            dst_attn_tp_size: self.dst_attn_tp_size as nat,
            dst_kv_item_len: self.dst_kv_item_len as nat,
            dst_state_item_lens: seqs(self.dst_state_item_lens@),
            dst_state_dim_per_tensor: seqs(self.dst_state_dim_per_tensor@),
        }
    }
}

/// The first fault of a cache registration message.
pub open spec fn kv_args_fault(frame: Seq<Seq<u8>>) -> Option<FrameFault> {
    first(
        too_few_fields(frame, 10, "Mooncake KVArgs registration"@),
        first(
            fault_of(text_in(frame, 0, "room"@)),
            first(
                fault_of(text_in(frame, 1, "endpoint"@)),
                first(
                    fault_of(number_in(frame, 2, "dst_port"@, 0xffff)),
                    first(
                        fault_of(text_in(frame, 3, "mooncake_session_id"@)),
                        first(
                            fault_of(u64s_in(frame[4])),
                            first(
                                fault_of(u64s_in(frame[5])),
                                first(
                                    fault_of(u64_lists_in(frame[6])),
                                    first(
                                        fault_of(integer_in(frame, 7, "dst_tp_rank"@)),
                                        first(
                                            fault_of(
                                                number_in(
                                                    frame,
                                                    8,
                                                    "dst_attn_tp_size"@,
                                                    usize::MAX as nat,
                                                ),
                                            ),
                                            first(
                                                fault_of(
                                                    number_in(
                                                        frame,
                                                        9,
                                                        "dst_kv_item_len"@,
                                                        usize::MAX as nat,
                                                    ),
                                                ),
                                                first(
                                                    fault_of(optional_u32_lists_in(frame, 10)),
                                                    fault_of(optional_u32_lists_in(frame, 11)),
                                                ),
                                            ),
                                        ),
                                    ),
                                ),
                            ),
                        ),
                    ),
                ),
            ),
        ),
    )
}

/// What a cache registration message without fault says.
pub open spec fn kv_args_in(frame: Seq<Seq<u8>>) -> KvArgs {
    KvArgs {
        room: text_in(frame, 0, "room"@)->Ok_0,
        endpoint: text_in(frame, 1, "endpoint"@)->Ok_0,
        dst_port: number_in(frame, 2, "dst_port"@, 0xffff)->Ok_0,
        mooncake_session_id: text_in(frame, 3, "mooncake_session_id"@)->Ok_0,
        dst_kv_ptrs: u64s_in(frame[4])->Ok_0,
        dst_aux_ptrs: u64s_in(frame[5])->Ok_0,
        dst_state_data_ptrs: u64_lists_in(frame[6])->Ok_0,
        dst_tp_rank: integer_in(frame, 7, "dst_tp_rank"@)->Ok_0,
        dst_attn_tp_size: number_in(frame, 8, "dst_attn_tp_size"@, usize::MAX as nat)->Ok_0,
        dst_kv_item_len: number_in(frame, 9, "dst_kv_item_len"@, usize::MAX as nat)->Ok_0,
        dst_state_item_lens: optional_u32_lists_in(frame, 10)->Ok_0,
        dst_state_dim_per_tensor: optional_u32_lists_in(frame, 11)->Ok_0,
    }
}

impl MooncakeKvArgsRegisterInfo {
    /// Reads a cache registration message.
    pub fn from_frame(frame: &[Vec<u8>]) -> (info: Result<Self, MooncakeBootstrapFrameError>)
        ensures
            match info {
                Ok(args) => kv_args_fault(seqs(frame@)) is None && args@ == kv_args_in(
                    seqs(frame@),
                ),
                Err(error) => kv_args_fault(seqs(frame@)) == Some(error@),
            },
    {
        require_min_fields(frame, 10, "Mooncake KVArgs registration")?;
        let room = ascii_field(frame, 0, "room")?;
        let endpoint = ascii_field(frame, 1, "endpoint")?;
        let dst_port: u16 = parse_u16(frame, 2, "dst_port")?;
        let mooncake_session_id = ascii_field(frame, 3, "mooncake_session_id")?;
        let dst_kv_ptrs = unpack_u64s(field(frame, 4, "dst_kv_ptrs")?.as_slice())?;
        let dst_aux_ptrs = unpack_u64s(field(frame, 5, "dst_aux_ptrs")?.as_slice())?;
        let dst_state_data_ptrs = unpack_u64_lists(
            field(frame, 6, "dst_state_data_ptrs")?.as_slice(),
        )?;
        let dst_tp_rank: i32 = parse_i32(frame, 7, "dst_tp_rank")?;
        let dst_attn_tp_size: usize = parse_usize(frame, 8, "dst_attn_tp_size")?;
        let dst_kv_item_len: usize = parse_usize(frame, 9, "dst_kv_item_len")?;
        let dst_state_item_lens = optional_u32_lists(frame, 10)?;
        let dst_state_dim_per_tensor = optional_u32_lists(frame, 11)?;
        Ok(
            MooncakeKvArgsRegisterInfo {
                room: room.to_owned(),
                endpoint: endpoint.to_owned(),
                dst_port,
                mooncake_session_id: mooncake_session_id.to_owned(),
                dst_kv_ptrs,
                dst_aux_ptrs,
                dst_state_data_ptrs,
                dst_tp_rank,
                dst_attn_tp_size,
                dst_kv_item_len,
                dst_state_item_lens,
                dst_state_dim_per_tensor,
            },
        )
    }
}

/// Where a decode server wants one request's cache pages.
#[derive(Clone, Debug, PartialEq, Eq)]
pub struct MooncakeTransferInfo {
    pub room: u64,
    pub endpoint: String,
    pub dst_port: u16,
    pub mooncake_session_id: String,
    pub dst_kv_indices: Vec<i32>,
    pub dst_aux_index: Option<i32>,
    pub dst_state_indices: Vec<Vec<i32>>,
    pub required_dst_info_num: usize,
    pub is_dummy: bool,
    pub decode_prefix_len: Option<usize>,
}

/// What a [`MooncakeTransferInfo`] says.
pub struct Transfer {
    pub room: nat,
    pub endpoint: Seq<char>,
    pub dst_port: nat,
    pub mooncake_session_id: Seq<char>,
    pub dst_kv_indices: Seq<i32>,
    pub dst_aux_index: Option<int>,
    pub dst_state_indices: Seq<Seq<i32>>,
    pub required_dst_info_num: nat,
    pub is_dummy: bool,
    pub decode_prefix_len: Option<nat>,
}

/// A size as a natural number.
pub open spec fn optional_nat(size: Option<usize>) -> Option<nat> {
    match size {
        Some(n) => Some(n as nat),
        None => None,
    }
}

/// An index as an integer.
pub open spec fn optional_int(index: Option<i32>) -> Option<int> {
    match index {
        Some(n) => Some(n as int),
        None => None,
    }
}

impl View for MooncakeTransferInfo {
    type V = Transfer;

    open spec fn view(&self) -> Transfer {
        Transfer {
            room: self.room as nat,
            endpoint: self.endpoint@,
            dst_port: self.dst_port as nat,
            mooncake_session_id: self.mooncake_session_id@,
            dst_kv_indices: self.dst_kv_indices@,
            dst_aux_index: optional_int(self.dst_aux_index),
            dst_state_indices: seqs(self.dst_state_indices@),
            required_dst_info_num: self.required_dst_info_num as nat,
            is_dummy: self.is_dummy,
            decode_prefix_len: optional_nat(self.decode_prefix_len),
        }
    }
}

/// Whether a transfer message asks for no pages.
pub open spec fn is_dummy_frame(frame: Seq<Seq<u8>>) -> bool {
    frame[4].len() == 0 && frame[5].len() == 0
}

/// The first fault of a transfer message.
pub open spec fn transfer_fault(frame: Seq<Seq<u8>>) -> Option<FrameFault> {
    first(
        too_few_fields(frame, 8, "Mooncake transfer metadata"@),
        first(
            if is_dummy_frame(frame) {
                None
            } else {
                first(
                    fault_of(i32s_in(frame[4])),
                    first(
                        fault_of(integer_in(frame, 5, "dst_aux_index"@)),
                        fault_of(i32_lists_in(frame[6])),
                    ),
                )
            },
            first(
                fault_of(number_in(frame, 0, "room"@, i64::MAX as nat)),
                first(
                    fault_of(text_in(frame, 1, "endpoint"@)),
                    first(
                        fault_of(number_in(frame, 2, "dst_port"@, 0xffff)),
                        first(
                            fault_of(text_in(frame, 3, "mooncake_session_id"@)),
                            first(
                                fault_of(
                                    number_in(
                                        frame,
                                        7,
                                        "required_dst_info_num"@,
                                        usize::MAX as nat,
                                    ),
                                ),
                                fault_of(optional_number_in(frame, 8, "decode_prefix_len"@)),
                            ),
                        ),
                    ),
                ),
            ),
        ),
    )
}

/// What a transfer message without fault says.
pub open spec fn transfer_in(frame: Seq<Seq<u8>>) -> Transfer {
    let dummy = is_dummy_frame(frame);
    Transfer {
        room: number_in(frame, 0, "room"@, i64::MAX as nat)->Ok_0,
        endpoint: text_in(frame, 1, "endpoint"@)->Ok_0,
        dst_port: number_in(frame, 2, "dst_port"@, 0xffff)->Ok_0,
        mooncake_session_id: text_in(frame, 3, "mooncake_session_id"@)->Ok_0,
        dst_kv_indices: if dummy {
            Seq::empty()
        } else {
            i32s_in(frame[4])->Ok_0
        },
        dst_aux_index: if dummy {
            None
        } else {
            Some(integer_in(frame, 5, "dst_aux_index"@)->Ok_0)
        },
        dst_state_indices: if dummy {
            Seq::empty()
        } else {
            i32_lists_in(frame[6])->Ok_0
        },
        required_dst_info_num: number_in(
            frame,
            7,
            "required_dst_info_num"@,
            usize::MAX as nat,
        )->Ok_0,
        is_dummy: dummy,
        decode_prefix_len: optional_number_in(frame, 8, "decode_prefix_len"@)->Ok_0,
    }
}

impl MooncakeTransferInfo {
    /// Reads a transfer message.
    pub fn from_frame(frame: &[Vec<u8>]) -> (info: Result<Self, MooncakeBootstrapFrameError>)
        ensures
            match info {
                Ok(transfer) => transfer_fault(seqs(frame@)) is None && transfer@ == transfer_in(
                    seqs(frame@),
                ),
                Err(error) => transfer_fault(seqs(frame@)) == Some(error@),
            },
    {
        require_min_fields(frame, 8, "Mooncake transfer metadata")?;
        let kv_field = field(frame, 4, "dst_kv_indices")?;
        let aux_field = field(frame, 5, "dst_aux_index")?;
        let is_dummy = kv_field.len() == 0 && aux_field.len() == 0;
        let mut dst_kv_indices: Vec<i32> = Vec::new();
        let mut dst_aux_index: Option<i32> = None;
        let mut dst_state_indices: Vec<Vec<i32>> = Vec::new();
        proof {
            assert(seqs(dst_state_indices@) =~= Seq::<Seq<i32>>::empty());
        }
        if !is_dummy {
            dst_kv_indices = unpack_i32s(kv_field.as_slice())?;
            dst_aux_index = Some(parse_i32(frame, 5, "dst_aux_index")?);
            dst_state_indices =
            unpack_i32_lists(field(frame, 6, "dst_state_indices")?.as_slice())?;
        }
        let room: u64 = parse_bootstrap_room(frame, 0, "room")?;
        let endpoint = ascii_field(frame, 1, "endpoint")?;
        let dst_port: u16 = parse_u16(frame, 2, "dst_port")?;
        let mooncake_session_id = ascii_field(frame, 3, "mooncake_session_id")?;
        let required_dst_info_num: usize = parse_usize(frame, 7, "required_dst_info_num")?;
        let decode_prefix_len = optional_usize(frame, 8, "decode_prefix_len")?;
        Ok(
            MooncakeTransferInfo {
                room,
                endpoint: endpoint.to_owned(),
                dst_port,
                mooncake_session_id: mooncake_session_id.to_owned(),
                dst_kv_indices,
                dst_aux_index,
                dst_state_indices,
                required_dst_info_num,
                is_dummy,
                decode_prefix_len,
            },
        )
    }
}

/// What a decode server tells about its caches.
#[derive(Clone, Debug, PartialEq, Eq)]
pub struct MooncakeDecodeKvArgsRegistration {
    pub endpoint: String,
    pub dst_port: u16,
    pub mooncake_session_id: String,
    pub dst_kv_ptrs: Vec<u64>,
    pub dst_aux_ptrs: Vec<u64>,
    pub dst_state_data_ptrs: Vec<Vec<u64>>,
    pub dst_tp_rank: i32,
    pub dst_attn_tp_size: usize,
    pub dst_kv_item_len: usize,
    pub dst_state_item_lens: Vec<Vec<u32>>,
    pub dst_state_dim_per_tensor: Vec<Vec<u32>>,
}

impl View for MooncakeDecodeKvArgsRegistration {
    type V = KvArgs;

    /// What the receiver of the registration is to learn.
    open spec fn view(&self) -> KvArgs {
        KvArgs {
            room: "None"@,
            endpoint: self.endpoint@,
            dst_port: self.dst_port as nat,
            mooncake_session_id: self.mooncake_session_id@,
            dst_kv_ptrs: self.dst_kv_ptrs@,
            dst_aux_ptrs: self.dst_aux_ptrs@,
            dst_state_data_ptrs: seqs(self.dst_state_data_ptrs@),
            dst_tp_rank: self.dst_tp_rank as int,
            dst_attn_tp_size: self.dst_attn_tp_size as nat,
            dst_kv_item_len: self.dst_kv_item_len as nat,
            dst_state_item_lens: seqs(self.dst_state_item_lens@),
            dst_state_dim_per_tensor: seqs(self.dst_state_dim_per_tensor@),
        }
    }
}

/// The bytes of a number's numeral.
pub open spec fn numeral(n: nat) -> Seq<u8> {
    encode_utf8(decimal(n))
}

/// The bytes of a signed number's numeral.
pub open spec fn signed_numeral(n: int) -> Seq<u8> {
    encode_utf8(signed_decimal(n))
}

/// The bytes of lists of 64-bit numbers.
pub open spec fn u64_lists_bytes(lists: Seq<Seq<u64>>) -> Seq<u8> {
    packed_list(lists.map_values(|list: Seq<u64>| u64_bytes(list)))
}

/// The bytes of lists of 32-bit numbers.
pub open spec fn u32_lists_bytes(lists: Seq<Seq<u32>>) -> Seq<u8> {
    packed_list(lists.map_values(|list: Seq<u32>| u32_bytes(list)))
}

/// The bytes of lists of signed 32-bit numbers.
pub open spec fn i32_lists_bytes(lists: Seq<Seq<i32>>) -> Seq<u8> {
    packed_list(lists.map_values(|list: Seq<i32>| i32_bytes(list)))
}

/// The message that tells a prefill server about a decode server's caches.
pub open spec fn kv_args_frame(args: KvArgs) -> Seq<Seq<u8>> {
    seq![
        encode_utf8(args.room),
        encode_utf8(args.endpoint),
        numeral(args.dst_port),
        encode_utf8(args.mooncake_session_id),
        u64_bytes(args.dst_kv_ptrs),
        u64_bytes(args.dst_aux_ptrs),
        u64_lists_bytes(args.dst_state_data_ptrs),
        signed_numeral(args.dst_tp_rank),
        numeral(args.dst_attn_tp_size),
        numeral(args.dst_kv_item_len),
        u32_lists_bytes(args.dst_state_item_lens),
        u32_lists_bytes(args.dst_state_dim_per_tensor),
        Seq::<u8>::empty(),
        encode_utf8("0"@),
    ]
}

/// The UTF-8 bytes of a text.
pub fn text_bytes(text: &str) -> (bytes: Vec<u8>)
    ensures
        bytes@ == encode_utf8(text@),
{
    let bytes = text.as_bytes();
    let copy = copy_range(bytes, 0, bytes.len());
    proof {
        assert(copy@ =~= bytes@);
    }
    copy
}

impl MooncakeDecodeKvArgsRegistration {
    /// The message that carries the registration.
    pub fn to_frame(&self) -> (frame: Vec<Vec<u8>>)
        ensures
            seqs(frame@) == kv_args_frame(self@),
    {
        let mut frame: Vec<Vec<u8>> = Vec::new();
        frame.push(text_bytes("None"));
        frame.push(text_bytes(self.endpoint.as_str()));
        frame.push(text_bytes(decimal_u64(self.dst_port as u64).as_str()));
        frame.push(text_bytes(self.mooncake_session_id.as_str()));
        frame.push(pack_u64s(&self.dst_kv_ptrs));
        frame.push(pack_u64s(&self.dst_aux_ptrs));
        frame.push(pack_u64_lists(&self.dst_state_data_ptrs));
        frame.push(text_bytes(decimal_i64(self.dst_tp_rank as i64).as_str()));
        frame.push(text_bytes(decimal_usize(self.dst_attn_tp_size).as_str()));
        frame.push(text_bytes(decimal_usize(self.dst_kv_item_len).as_str()));
        frame.push(pack_u32_lists(&self.dst_state_item_lens));
        frame.push(pack_u32_lists(&self.dst_state_dim_per_tensor));
        frame.push(Vec::new());
        frame.push(text_bytes("0"));
        proof {
            assert(seqs(frame@) =~= kv_args_frame(self@));
        }
        frame
    }
}

/// Where a decode server wants one request's cache pages.
#[derive(Clone, Debug, PartialEq, Eq)]
pub struct MooncakeDecodeTransferMetadata {
    pub room: u64,
    pub endpoint: String,
    pub dst_port: u16,
    pub mooncake_session_id: String,
    pub dst_kv_indices: Vec<i32>,
    pub dst_aux_index: Option<i32>,
    pub dst_state_indices: Vec<Vec<i32>>,
    pub required_dst_info_num: usize,
    pub decode_prefix_len: Option<usize>,
    pub is_dummy: bool,
}

impl View for MooncakeDecodeTransferMetadata {
    type V = Transfer;

    open spec fn view(&self) -> Transfer {
        Transfer {
            room: self.room as nat,
            endpoint: self.endpoint@,
            dst_port: self.dst_port as nat,
            mooncake_session_id: self.mooncake_session_id@,
            dst_kv_indices: self.dst_kv_indices@,
            dst_aux_index: optional_int(self.dst_aux_index),
            dst_state_indices: seqs(self.dst_state_indices@),
            required_dst_info_num: self.required_dst_info_num as nat,
            is_dummy: self.is_dummy,
            decode_prefix_len: optional_nat(self.decode_prefix_len),
        }
    }
}

/// Why a decode server's bootstrap exchange failed.
#[derive(Clone, Debug)]
pub enum MooncakeDecodeBootstrapError {
    HttpStatus { status: u16, body: String },
    InvalidHttpResponse,
    Io(String),
    Json(String),
    MissingAuxIndex { session_id: String },
    TaskJoin(String),
    Zmq(String),
}

/// How often a message is tried to be sent.
pub const SEND_ATTEMPTS: usize = 20;

/// What comes after an attempt to send a message.
#[derive(Debug)]
pub enum SendStep {
    Done,
    Again,
    Failed(MooncakeDecodeBootstrapError),
}

/// What comes after an attempt to send a message, of which `attempts` have been made: it is sent, or
/// it is tried again, or, after the last attempt, sending has failed with the message of that attempt.
pub fn send_step(attempts: usize, outcome: Result<(), String>) -> (step: SendStep)
    ensures
        match outcome {
            Ok(_) => step is Done,
            Err(message) => if attempts < SEND_ATTEMPTS {
                step is Again
            } else {
                step == SendStep::Failed(MooncakeDecodeBootstrapError::Zmq(message))
            },
        },
{
    match outcome {
        Ok(_) => SendStep::Done,
        Err(message) => if attempts < SEND_ATTEMPTS {
            SendStep::Again
        } else {
            SendStep::Failed(MooncakeDecodeBootstrapError::Zmq(message))
        },
    }
}

/// The message that tells a prefill server where a request's pages are wanted.
pub open spec fn transfer_frame(transfer: Transfer) -> Seq<Seq<u8>> {
    seq![
        numeral(transfer.room),
        encode_utf8(transfer.endpoint),
        numeral(transfer.dst_port),
        encode_utf8(transfer.mooncake_session_id),
        if transfer.is_dummy {
            Seq::<u8>::empty()
        } else {
            i32_bytes(transfer.dst_kv_indices)
        },
        if transfer.is_dummy {
            Seq::<u8>::empty()
        } else {
            signed_numeral(transfer.dst_aux_index->0)
        },
        if transfer.is_dummy {
            Seq::<u8>::empty()
        } else {
            i32_lists_bytes(transfer.dst_state_indices)
        },
        numeral(transfer.required_dst_info_num),
        numeral(transfer.decode_prefix_len.unwrap_or(0)),
    ]
}

impl MooncakeDecodeTransferMetadata {
    /// The message that carries the metadata. A request for pages needs an aux index.
    pub fn to_frame(&self) -> (frame: Result<Vec<Vec<u8>>, MooncakeDecodeBootstrapError>)
        ensures
            match frame {
                Ok(fields) => (self.is_dummy || self.dst_aux_index is Some) && seqs(fields@)
                    == transfer_frame(self@),
                Err(MooncakeDecodeBootstrapError::MissingAuxIndex { session_id }) => !self.is_dummy
                    && self.dst_aux_index is None && session_id@ == self.mooncake_session_id@,
                Err(_) => false,
            },
    {
        let mut kv_field: Vec<u8> = Vec::new();
        let mut aux_field: Vec<u8> = Vec::new();
        let mut state_field: Vec<u8> = Vec::new();
        if !self.is_dummy {
            match self.dst_aux_index {
                Some(index) => {
                    kv_field = pack_i32s(&self.dst_kv_indices);
                    aux_field = text_bytes(decimal_i64(index as i64).as_str());
                    state_field = pack_i32_lists(&self.dst_state_indices);
                },
                None => {
                    return Err(
                        MooncakeDecodeBootstrapError::MissingAuxIndex {
                            session_id: self.mooncake_session_id.clone(),
                        },
                    );
                },
            }
        }
        let prefix: usize = match self.decode_prefix_len {
            Some(n) => n,
            None => 0,
        };
        let mut frame: Vec<Vec<u8>> = Vec::new();
        frame.push(text_bytes(decimal_u64(self.room).as_str()));
        frame.push(text_bytes(self.endpoint.as_str()));
        frame.push(text_bytes(decimal_u64(self.dst_port as u64).as_str()));
        frame.push(text_bytes(self.mooncake_session_id.as_str()));
        frame.push(kv_field);
        frame.push(aux_field);
        frame.push(state_field);
        frame.push(text_bytes(decimal_usize(self.required_dst_info_num).as_str()));
        frame.push(text_bytes(decimal_usize(prefix).as_str()));
        proof {
            assert(seqs(frame@) =~= transfer_frame(self@));
        }
        Ok(frame)
    }
}

proof fn lemma_text_field(frame: Seq<Seq<u8>>, index: nat, name: Seq<char>, text: Seq<char>)
    requires
        index < frame.len(),
        frame[index as int] == encode_utf8(text),
    ensures
        text_in(frame, index, name) == Ok::<Seq<char>, FrameFault>(text),
{
    encode_utf8_valid_utf8(text);
    encode_utf8_decode_utf8(text);
}

proof fn lemma_number_field(frame: Seq<Seq<u8>>, index: nat, name: Seq<char>, n: nat, max: nat)
    requires
        index < frame.len(),
        frame[index as int] == numeral(n),
        n <= max,
    ensures
        number_in(frame, index, name, max) == Ok::<nat, FrameFault>(n),
{
    lemma_text_field(frame, index, name, decimal(n));
    decimal_reads_back(n);
}

proof fn lemma_integer_field(frame: Seq<Seq<u8>>, index: nat, name: Seq<char>, n: int)
    requires
        index < frame.len(),
        frame[index as int] == signed_numeral(n),
        i32::MIN <= n <= i32::MAX,
    ensures
        integer_in(frame, index, name) == Ok::<int, FrameFault>(n),
{
    lemma_text_field(frame, index, name, signed_decimal(n));
    signed_decimal_reads_back(n);
}

proof fn lemma_numeral_not_empty(n: nat)
    ensures
        numeral(n).len() > 0,
{
    decimal_reads_back(n);
    encode_utf8_decode_utf8(decimal(n));
    if numeral(n).len() == 0 {
        assert(decode_utf8(numeral(n)) =~= Seq::<char>::empty());
    }
}

proof fn lemma_signed_numeral_not_empty(n: int)
    ensures
        signed_numeral(n).len() > 0,
{
    signed_decimal_reads_back(n);
    if n >= 0 {
        decimal_reads_back(n as nat);
    }
    encode_utf8_decode_utf8(signed_decimal(n));
    if signed_numeral(n).len() == 0 {
        assert(decode_utf8(signed_numeral(n)) =~= Seq::<char>::empty());
    }
}

/// Whether the lists are few and short enough for their lengths to be written down.
pub open spec fn fits<T>(lists: Seq<Seq<T>>, width: nat) -> bool {
    &&& lists.len() < 0x1_0000_0000
    &&& forall|i: int| 0 <= i < lists.len() ==> width * (#[trigger] lists[i]).len() < 0x1_0000_0000
}

proof fn lemma_no_fault<T>(
    buffers: Seq<Seq<u8>>,
    read: spec_fn(Seq<u8>) -> Result<T, FrameFault>,
)
    requires
        forall|i: int| 0 <= i < buffers.len() ==> fault_of(read(#[trigger] buffers[i])) is None,
    ensures
        crate::bootstrap_frame::first_fault_in(buffers, read) is None,
    decreases buffers.len(),
{
    if buffers.len() > 0 {
        assert(fault_of(read(buffers[buffers.len() - 1])) is None);
        assert forall|i: int| 0 <= i < buffers.drop_last().len() implies fault_of(
            read(#[trigger] buffers.drop_last()[i]),
        ) is None by {
            assert(buffers.drop_last()[i] == buffers[i]);
        }
        lemma_no_fault(buffers.drop_last(), read);
    }
}

/// Lists of 64-bit numbers are read back as they were packed.
pub proof fn u64_lists_read_back(lists: Seq<Seq<u64>>)
    requires
        fits(lists, 8),
    ensures
        u64_lists_in(u64_lists_bytes(lists)) == Ok::<Seq<Seq<u64>>, FrameFault>(lists),
{
    let buffers = lists.map_values(|list: Seq<u64>| u64_bytes(list));
    let read = |buffer: Seq<u8>| u64s_in(buffer);
    assert forall|i: int| 0 <= i < buffers.len() implies (#[trigger] buffers[i]).len()
        < 0x1_0000_0000 && read(buffers[i]) == Ok::<Seq<u64>, FrameFault>(lists[i]) by {
        u64_bytes_read_back(lists[i]);
    }
    packed_list_reads_back(buffers);
    lemma_no_fault(buffers, read);
    assert(buffers.map_values(|buffer: Seq<u8>| read(buffer)->Ok_0) =~= lists);
}

/// Lists of 32-bit numbers are read back as they were packed.
pub proof fn u32_lists_read_back(lists: Seq<Seq<u32>>)
    requires
        fits(lists, 4),
    ensures
        crate::bootstrap_frame::u32_lists_in(u32_lists_bytes(lists)) == Ok::<
            Seq<Seq<u32>>,
            FrameFault,
        >(lists),
{
    let buffers = lists.map_values(|list: Seq<u32>| u32_bytes(list));
    let read = |buffer: Seq<u8>| crate::bootstrap_frame::u32s_in(buffer);
    assert forall|i: int| 0 <= i < buffers.len() implies (#[trigger] buffers[i]).len()
        < 0x1_0000_0000 && read(buffers[i]) == Ok::<Seq<u32>, FrameFault>(lists[i]) by {
        u32_bytes_read_back(lists[i]);
    }
    packed_list_reads_back(buffers);
    lemma_no_fault(buffers, read);
    assert(buffers.map_values(|buffer: Seq<u8>| read(buffer)->Ok_0) =~= lists);
}

/// Lists of signed 32-bit numbers are read back as they were packed.
pub proof fn i32_lists_read_back(lists: Seq<Seq<i32>>)
    requires
        fits(lists, 4),
    ensures
        i32_lists_in(i32_lists_bytes(lists)) == Ok::<Seq<Seq<i32>>, FrameFault>(lists),
{
    let buffers = lists.map_values(|list: Seq<i32>| i32_bytes(list));
    let read = |buffer: Seq<u8>| i32s_in(buffer);
    assert forall|i: int| 0 <= i < buffers.len() implies (#[trigger] buffers[i]).len()
        < 0x1_0000_0000 && read(buffers[i]) == Ok::<Seq<i32>, FrameFault>(lists[i]) by {
        i32_bytes_read_back(lists[i]);
    }
    packed_list_reads_back(buffers);
    lemma_no_fault(buffers, read);
    assert(buffers.map_values(|buffer: Seq<u8>| read(buffer)->Ok_0) =~= lists);
}

/// A prefill server reads a cache registration as the decode server sent it, where the lists are
/// few and short enough for their lengths to be written down.
pub proof fn registration_reads_back(registration: MooncakeDecodeKvArgsRegistration)
    requires
        fits(registration@.dst_state_data_ptrs, 8),
        fits(registration@.dst_state_item_lens, 4),
        fits(registration@.dst_state_dim_per_tensor, 4),
    ensures
        kv_args_fault(kv_args_frame(registration@)) is None,
        kv_args_in(kv_args_frame(registration@)) == registration@,
{
    let args = registration@;
    let frame = kv_args_frame(args);
    lemma_text_field(frame, 0, "room"@, args.room);
    lemma_text_field(frame, 1, "endpoint"@, args.endpoint);
    lemma_number_field(frame, 2, "dst_port"@, args.dst_port, 0xffff);
    lemma_text_field(frame, 3, "mooncake_session_id"@, args.mooncake_session_id);
    u64_bytes_read_back(args.dst_kv_ptrs);
    u64_bytes_read_back(args.dst_aux_ptrs);
    u64_lists_read_back(args.dst_state_data_ptrs);
    lemma_integer_field(frame, 7, "dst_tp_rank"@, args.dst_tp_rank);
    lemma_number_field(frame, 8, "dst_attn_tp_size"@, args.dst_attn_tp_size, usize::MAX as nat);
    lemma_number_field(frame, 9, "dst_kv_item_len"@, args.dst_kv_item_len, usize::MAX as nat);
    u32_lists_read_back(args.dst_state_item_lens);
    u32_lists_read_back(args.dst_state_dim_per_tensor);
}

/// A prefill server reads transfer metadata as the decode server sent it, where the room number
/// has at most 63 bits and the lists are few and short enough for their lengths to be written
/// down. A prefix length that was not given is read as zero, and a dummy asks for nothing.
pub proof fn transfer_reads_back(metadata: MooncakeDecodeTransferMetadata)
    requires
        metadata.room <= i64::MAX,
        metadata.is_dummy || metadata.dst_aux_index is Some,
        fits(metadata@.dst_state_indices, 4),
    ensures
        transfer_fault(transfer_frame(metadata@)) is None,
        transfer_in(transfer_frame(metadata@)) == (Transfer {
            decode_prefix_len: Some(metadata@.decode_prefix_len.unwrap_or(0)),
            dst_kv_indices: if metadata.is_dummy {
                Seq::empty()
            } else {
                metadata@.dst_kv_indices
            },
            dst_aux_index: if metadata.is_dummy {
                None
            } else {
                metadata@.dst_aux_index
            },
            dst_state_indices: if metadata.is_dummy {
                Seq::empty()
            } else {
                metadata@.dst_state_indices
            },
            ..metadata@
        }),
{
    let transfer = metadata@;
    let frame = transfer_frame(transfer);
    lemma_number_field(frame, 0, "room"@, transfer.room, i64::MAX as nat);
    lemma_text_field(frame, 1, "endpoint"@, transfer.endpoint);
    lemma_number_field(frame, 2, "dst_port"@, transfer.dst_port, 0xffff);
    lemma_text_field(frame, 3, "mooncake_session_id"@, transfer.mooncake_session_id);
    lemma_number_field(
        frame,
        7,
        "required_dst_info_num"@,
        transfer.required_dst_info_num,
        usize::MAX as nat,
    );
    let prefix = transfer.decode_prefix_len.unwrap_or(0);
    lemma_number_field(frame, 8, "decode_prefix_len"@, prefix, usize::MAX as nat);
    lemma_numeral_not_empty(prefix);
    if !transfer.is_dummy {
        let index = transfer.dst_aux_index->0;
        i32_bytes_read_back(transfer.dst_kv_indices);
        lemma_integer_field(frame, 5, "dst_aux_index"@, index);
        lemma_signed_numeral_not_empty(index);
        i32_lists_read_back(transfer.dst_state_indices);
    }
}

} // verus!
