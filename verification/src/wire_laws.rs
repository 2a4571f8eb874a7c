//! What the frames between servers and the numbers of a checkpoint promise: every field stands at its
//! place, and every number is written with its lowest byte first.
use vstd::prelude::*;
use vstd::utf8::encode_utf8;

use crate::pd_bootstrap::{
    send_step, MooncakeDecodeBootstrapError, MooncakeDecodeKvArgsRegistration,
    MooncakeDecodeTransferMetadata, MooncakeKvArgsRegisterInfo, MooncakeTransferInfo, SendStep,
};
use crate::text::{decimal, signed_decimal};
use crate::wire::{
    le_bytes, pack_i32s, pack_list_of_buffers, pack_u32s, pack_u64s, packed, seqs, u64_bytes,
};

verus! {

proof fn lemma_four(n: nat)
    ensures
        le_bytes(n, 4).len() == 4,
        le_bytes(n, 4)[0] == n % 256,
        le_bytes(n, 4)[1] == n / 256 % 256,
        le_bytes(n, 4)[2] == n / 0x1_0000 % 256,
        le_bytes(n, 4)[3] == n / 0x100_0000 % 256,
{
    reveal_with_fuel(le_bytes, 5);
    assert(n / 256 / 256 == n / 0x1_0000);
    assert(n / 256 / 256 / 256 == n / 0x100_0000);
}

proof fn lemma_eight(n: nat)
    ensures
        le_bytes(n, 8).len() == 8,
        forall|k: int| 0 <= k < 4 ==> le_bytes(n, 8)[k] == #[trigger] le_bytes(n, 4)[k],
        forall|k: int|
            0 <= k < 4 ==> le_bytes(n, 8)[k + 4] == #[trigger] le_bytes(n / 0x1_0000_0000, 4)[k],
{
    reveal_with_fuel(le_bytes, 9);
    lemma_four(n);
    lemma_four(n / 0x1_0000_0000);
    assert(n / 256 / 256 / 256 / 256 == n / 0x1_0000_0000);
    let high = n / 0x1_0000_0000;
    let all = le_bytes(n, 8);
    assert(le_bytes(n / 256 / 256 / 256 / 256, 4) == le_bytes(high, 4));
    assert(all[0] == n % 256);
    assert(all[1] == n / 256 % 256);
    assert(all[2] == n / 256 / 256 % 256);
    assert(all[3] == n / 256 / 256 / 256 % 256);
    assert(all[4] == le_bytes(high, 4)[0]);
    assert(all[5] == le_bytes(high, 4)[1]);
    assert(all[6] == le_bytes(high, 4)[2]);
    assert(all[7] == le_bytes(high, 4)[3]);
    assert forall|k: int| 0 <= k < 4 implies all[k] == #[trigger] le_bytes(n, 4)[k] by {
        if k == 0 {
        } else if k == 1 {
        } else if k == 2 {
        } else {
        }
    }
    assert forall|k: int| 0 <= k < 4 implies all[k + 4] == #[trigger] le_bytes(high, 4)[k] by {
        if k == 0 {
        } else if k == 1 {
        } else if k == 2 {
        } else {
        }
    }
}

proof fn lemma_packed(values: Seq<nat>, width: nat, i: int, k: int)
    requires
        0 < width,
        0 <= i < values.len(),
        0 <= k < width,
        forall|n: nat| (#[trigger] le_bytes(n, width)).len() == width,
    ensures
        packed(values, width).len() == values.len() * width,
        packed(values, width)[i * width + k] == le_bytes(values[i], width)[k],
        0 <= i * width + k < values.len() * width,
    decreases values.len(),
{
    let front = values.drop_last();
    let last = values.len() - 1;
    assert(values.len() * width == last * width + width) by (nonlinear_arith)
        requires
            last == values.len() - 1,
    ;
    lemma_packed_width(front, width);
    if i < last {
        lemma_packed(front, width, i, k);
        assert(front[i] == values[i]);
    } else {
        assert(i * width + k - last * width == k);
        assert(0 <= i * width) by (nonlinear_arith)
            requires
                i >= 0,
                width > 0,
        ;
    }
}

proof fn lemma_packed_width(values: Seq<nat>, width: nat)
    requires
        0 < width,
        forall|n: nat| (#[trigger] le_bytes(n, width)).len() == width,
    ensures
        packed(values, width).len() == values.len() * width,
    decreases values.len(),
{
    if values.len() > 0 {
        lemma_packed_width(values.drop_last(), width);
        let last = values.len() - 1;
        assert(values.len() * width == last * width + width) by (nonlinear_arith)
            requires
                last == values.len() - 1,
        ;
    } else {
        assert(values.len() * width == 0) by (nonlinear_arith)
            requires
                values.len() == 0,
        ;
    }
}

/// Numbers of 32 bits are written one after the other, in four bytes each, the lowest first.
pub proof fn short_numbers_are_written_lowest_byte_first(values: Vec<u32>, bytes: Vec<u8>, i: int)
    requires
        call_ensures(pack_u32s, (&values,), bytes),
        0 <= i < values@.len(),
    ensures
        bytes@.len() == 4 * values@.len(),
        bytes@[4 * i] == values@[i] % 256,
        bytes@[4 * i + 1] == values@[i] / 256 % 256,
        bytes@[4 * i + 2] == values@[i] / 0x1_0000 % 256,
        bytes@[4 * i + 3] == values@[i] / 0x100_0000,
{
    assert forall|n: nat| (#[trigger] le_bytes(n, 4)).len() == 4 by {
        lemma_four(n);
    }
    let nats = crate::wire::u32_nats(values@);
    lemma_four(nats[i]);
    lemma_packed(nats, 4, i, 0);
    lemma_packed(nats, 4, i, 1);
    lemma_packed(nats, 4, i, 2);
    lemma_packed(nats, 4, i, 3);
}

/// Signed numbers of 32 bits are written as the numbers without sign that have the same bits.
pub proof fn signed_numbers_are_written_by_their_bits(
    values: Vec<i32>,
    bits: Vec<u32>,
    bytes: Vec<u8>,
    other: Vec<u8>,
)
    requires
        call_ensures(pack_i32s, (&values,), bytes),
        call_ensures(pack_u32s, (&bits,), other),
        bits@.len() == values@.len(),
        forall|i: int|
            0 <= i < values@.len() ==> #[trigger] bits@[i] == (if values@[i] < 0 {
                values@[i] + 0x1_0000_0000
            } else {
                values@[i] as int
            }),
    ensures
        bytes@ == other@,
{
    assert(crate::wire::i32_nats(values@) =~= crate::wire::u32_nats(bits@));
}

proof fn lemma_halves(n: nat)
    requires
        n <= u64::MAX,
    ensures
        n % 0x1_0000_0000 % 256 == n % 256,
        n % 0x1_0000_0000 / 256 % 256 == n / 256 % 256,
        n % 0x1_0000_0000 / 0x1_0000 % 256 == n / 0x1_0000 % 256,
        n % 0x1_0000_0000 / 0x100_0000 == n / 0x100_0000 % 256,
        n / 0x1_0000_0000 / 0x100_0000 % 256 == n / 0x1_0000_0000 / 0x100_0000,
{
}

proof fn lemma_eight_bytes(n: nat)
    requires
        n <= u64::MAX,
    ensures
        ({
            let low = n % 0x1_0000_0000;
            let high = n / 0x1_0000_0000;
            let bytes = le_bytes(n, 8);
            &&& bytes.len() == 8
            &&& bytes[0] == low % 256
            &&& bytes[1] == low / 256 % 256
            &&& bytes[2] == low / 0x1_0000 % 256
            &&& bytes[3] == low / 0x100_0000
            &&& bytes[4] == high % 256
            &&& bytes[5] == high / 256 % 256
            &&& bytes[6] == high / 0x1_0000 % 256
            &&& bytes[7] == high / 0x100_0000
        }),
{
    lemma_eight(n);
    lemma_four(n);
    lemma_four(n / 0x1_0000_0000);
    lemma_halves(n);
    assert(le_bytes(n, 8)[0int + 4] == le_bytes(n / 0x1_0000_0000, 4)[0]);
    assert(le_bytes(n, 8)[1int + 4] == le_bytes(n / 0x1_0000_0000, 4)[1]);
    assert(le_bytes(n, 8)[2int + 4] == le_bytes(n / 0x1_0000_0000, 4)[2]);
    assert(le_bytes(n, 8)[3int + 4] == le_bytes(n / 0x1_0000_0000, 4)[3]);
    assert(le_bytes(n, 8)[0] == le_bytes(n, 4)[0]);
    assert(le_bytes(n, 8)[1] == le_bytes(n, 4)[1]);
    assert(le_bytes(n, 8)[2] == le_bytes(n, 4)[2]);
    assert(le_bytes(n, 8)[3] == le_bytes(n, 4)[3]);
}

/// Numbers of 64 bits are written one after the other, in eight bytes each, the lowest first.
pub proof fn long_numbers_are_written_lowest_byte_first(values: Vec<u64>, bytes: Vec<u8>, i: int)
    requires
        call_ensures(pack_u64s, (&values,), bytes),
        0 <= i < values@.len(),
    ensures
        bytes@.len() == 8 * values@.len(),
        ({
            let low = values@[i] % 0x1_0000_0000;
            let high = values@[i] / 0x1_0000_0000;
            &&& bytes@[8 * i] == low % 256
            &&& bytes@[8 * i + 1] == low / 256 % 256
            &&& bytes@[8 * i + 2] == low / 0x1_0000 % 256
            &&& bytes@[8 * i + 3] == low / 0x100_0000
            &&& bytes@[8 * i + 4] == high % 256
            &&& bytes@[8 * i + 5] == high / 256 % 256
            &&& bytes@[8 * i + 6] == high / 0x1_0000 % 256
            &&& bytes@[8 * i + 7] == high / 0x100_0000
        }),
{
    assert forall|n: nat| (#[trigger] le_bytes(n, 8)).len() == 8 by {
        lemma_eight(n);
    }
    let nats = crate::wire::u64_nats(values@);
    let n = nats[i];
    lemma_eight_bytes(n);
    lemma_packed(nats, 8, i, 0);
    lemma_packed(nats, 8, i, 1);
    lemma_packed(nats, 8, i, 2);
    lemma_packed(nats, 8, i, 3);
    lemma_packed(nats, 8, i, 4);
    lemma_packed(nats, 8, i, 5);
    lemma_packed(nats, 8, i, 6);
    lemma_packed(nats, 8, i, 7);
}

/// A list of buffers is written as its length, the lengths of the buffers, and the buffers one after the
/// other; an empty list as nothing.
pub proof fn lists_of_buffers_begin_with_their_lengths(
    buffers: Vec<Vec<u8>>,
    counts: Vec<u32>,
    head: Vec<u8>,
    bytes: Vec<u8>,
)
    requires
        call_ensures(pack_list_of_buffers, (&buffers,), bytes),
        call_ensures(pack_u32s, (&counts,), head),
        0 < buffers@.len() < 0x1_0000_0000,
        forall|i: int| 0 <= i < buffers@.len() ==> (#[trigger] buffers@[i])@.len() < 0x1_0000_0000,
        counts@.len() == buffers@.len() + 1,
        counts@[0] == buffers@.len(),
        forall|i: int|
            0 <= i < buffers@.len() ==> #[trigger] counts@[i + 1] == buffers@[i]@.len(),
    ensures
        bytes@ == head@ + concatenated(seqs(buffers@)),
{
    let all = seqs(buffers@);
    let nats = crate::wire::u32_nats(counts@);
    let lengths = crate::wire::lengths_of(all);
    assert(lengths =~= nats.skip(1)) by {
        assert forall|i: int| 0 <= i < lengths.len() implies lengths[i] == nats.skip(1)[i] by {
            assert(counts@[i + 1] == buffers@[i]@.len());
        }
    }
    lemma_packed_front(nats, 4);
    lemma_joined(all);
}

/// Buffers one after the other.
pub open spec fn concatenated(buffers: Seq<Seq<u8>>) -> Seq<u8>
    decreases buffers.len(),
{
    if buffers.len() == 0 {
        Seq::empty()
    } else {
        buffers[0] + concatenated(buffers.skip(1))
    }
}

proof fn lemma_joined(buffers: Seq<Seq<u8>>)
    ensures
        crate::wire::joined(buffers) == concatenated(buffers),
    decreases buffers.len(),
{
    if buffers.len() > 0 {
        let front = buffers.drop_last();
        lemma_joined(front);
        lemma_joined(buffers.skip(1));
        if buffers.len() == 1 {
            assert(front =~= Seq::empty());
            assert(buffers.skip(1) =~= Seq::empty());
            assert(buffers[0] + Seq::<u8>::empty() =~= Seq::<u8>::empty() + buffers[0]);
        } else {
            lemma_joined(front.skip(1));
            assert(buffers.skip(1).drop_last() =~= front.skip(1));
            assert(buffers.skip(1).last() == buffers.last());
            assert(front[0] == buffers[0]);
            assert(front[0] + concatenated(front.skip(1)) + buffers.last() =~= buffers[0] + (
            concatenated(front.skip(1)) + buffers.last()));
        }
    }
}

proof fn lemma_packed_front(values: Seq<nat>, width: nat)
    requires
        values.len() > 0,
    ensures
        packed(values, width) == le_bytes(values[0], width) + packed(values.skip(1), width),
    decreases values.len(),
{
    if values.len() == 1 {
        assert(values.drop_last() =~= Seq::empty());
        assert(values.skip(1) =~= Seq::empty());
        assert(le_bytes(values[0], width) + Seq::<u8>::empty() =~= Seq::<u8>::empty() + le_bytes(
            values[0],
            width,
        ));
    } else {
        lemma_packed_front(values.drop_last(), width);
        assert(values.drop_last().skip(1) =~= values.skip(1).drop_last());
        assert(values.skip(1).last() == values.last());
        let a = le_bytes(values[0], width);
        let b = packed(values.skip(1).drop_last(), width);
        let c = le_bytes(values.last(), width);
        assert(a + b + c =~= a + (b + c));
    }
}

/// Every field of a registration stands at its place of the frame: no room, the endpoint, the port, the
/// session, the addresses of the cache, of the aux data and of the state, the rank, the number of ranks,
/// the length of an item, and the lengths and the dimensions of the state.
pub proof fn registrations_stand_in_their_fields(
    registration: MooncakeDecodeKvArgsRegistration,
    frame: Vec<Vec<u8>>,
)
    requires
        call_ensures(MooncakeDecodeKvArgsRegistration::to_frame, (&registration,), frame),
    ensures
        frame@.len() == 14,
        frame@[0]@ == encode_utf8("None"@),
        frame@[1]@ == encode_utf8(registration.endpoint@),
        frame@[2]@ == encode_utf8(decimal(registration.dst_port as nat)),
        frame@[3]@ == encode_utf8(registration.mooncake_session_id@),
        frame@[4]@ == u64_bytes(registration.dst_kv_ptrs@),
        frame@[5]@ == u64_bytes(registration.dst_aux_ptrs@),
        frame@[6]@ == crate::pd_bootstrap::u64_lists_bytes(
            seqs(registration.dst_state_data_ptrs@),
        ),
        frame@[7]@ == encode_utf8(signed_decimal(registration.dst_tp_rank as int)),
        frame@[8]@ == encode_utf8(decimal(registration.dst_attn_tp_size as nat)),
        frame@[9]@ == encode_utf8(decimal(registration.dst_kv_item_len as nat)),
        frame@[10]@ == crate::pd_bootstrap::u32_lists_bytes(
            seqs(registration.dst_state_item_lens@),
        ),
        frame@[11]@ == crate::pd_bootstrap::u32_lists_bytes(
            seqs(registration.dst_state_dim_per_tensor@),
        ),
        frame@[12]@.len() == 0,
        frame@[13]@ == encode_utf8("0"@),
{
    let fields = seqs(frame@);
    assert(fields.len() == frame@.len());
    assert forall|i: int| 0 <= i < frame@.len() implies fields[i] == (#[trigger] frame@[i])@ by {}
}

/// Every field of transfer metadata stands at its place of the frame: the room, the endpoint, the port,
/// the session, the places in the cache, of the aux data and of the state, the number of those that are
/// asked for, and the length of the prefix. A dummy asks for no places.
pub proof fn transfers_stand_in_their_fields(
    metadata: MooncakeDecodeTransferMetadata,
    frame: Result<Vec<Vec<u8>>, MooncakeDecodeBootstrapError>,
)
    requires
        call_ensures(MooncakeDecodeTransferMetadata::to_frame, (&metadata,), frame),
    ensures
        frame is Ok <==> metadata.is_dummy || metadata.dst_aux_index is Some,
        frame matches Ok(fields) ==> {
            &&& fields@.len() == 9
            &&& fields@[0]@ == encode_utf8(decimal(metadata.room as nat))
            &&& fields@[1]@ == encode_utf8(metadata.endpoint@)
            &&& fields@[2]@ == encode_utf8(decimal(metadata.dst_port as nat))
            &&& fields@[3]@ == encode_utf8(metadata.mooncake_session_id@)
            &&& !metadata.is_dummy ==> fields@[4]@ == crate::wire::i32_bytes(
                metadata.dst_kv_indices@,
            )
            &&& !metadata.is_dummy ==> fields@[5]@ == encode_utf8(
                signed_decimal(metadata.dst_aux_index->0 as int),
            )
            &&& !metadata.is_dummy ==> fields@[6]@ == crate::pd_bootstrap::i32_lists_bytes(
                seqs(metadata.dst_state_indices@),
            )
            &&& metadata.is_dummy ==> fields@[4]@.len() == 0 && fields@[5]@.len() == 0
                && fields@[6]@.len() == 0
            &&& fields@[7]@ == encode_utf8(decimal(metadata.required_dst_info_num as nat))
            &&& fields@[8]@ == encode_utf8(
                decimal(
                    match metadata.decode_prefix_len {
                        Some(n) => n as nat,
                        None => 0nat,
                    },
                ),
            )
        },
{
    if let Ok(fields) = frame {
        let all = seqs(fields@);
        assert(all.len() == fields@.len());
        assert forall|i: int| 0 <= i < fields@.len() implies all[i] == (#[trigger] fields@[i])@ by {}
    }
}

/// A registration is read as it was sent: what one side writes in a field, the other finds in the field
/// of the same name.
pub proof fn registrations_arrive_as_they_were_sent(
    registration: MooncakeDecodeKvArgsRegistration,
    frame: &[Vec<u8>],
    info: Result<MooncakeKvArgsRegisterInfo, crate::bootstrap_frame::MooncakeBootstrapFrameError>,
)
    requires
        seqs(frame@) == crate::pd_bootstrap::kv_args_frame(registration@),
        call_ensures(MooncakeKvArgsRegisterInfo::from_frame, (frame,), info),
        crate::pd_bootstrap::fits(seqs(registration.dst_state_data_ptrs@), 8),
        crate::pd_bootstrap::fits(seqs(registration.dst_state_item_lens@), 4),
        crate::pd_bootstrap::fits(seqs(registration.dst_state_dim_per_tensor@), 4),
    ensures
        info is Ok,
        info->Ok_0.room@ == "None"@,
        info->Ok_0.endpoint@ == registration.endpoint@,
        info->Ok_0.dst_port == registration.dst_port,
        info->Ok_0.mooncake_session_id@ == registration.mooncake_session_id@,
        info->Ok_0.dst_kv_ptrs@ == registration.dst_kv_ptrs@,
        info->Ok_0.dst_aux_ptrs@ == registration.dst_aux_ptrs@,
        seqs(info->Ok_0.dst_state_data_ptrs@) == seqs(registration.dst_state_data_ptrs@),
        info->Ok_0.dst_tp_rank == registration.dst_tp_rank,
        info->Ok_0.dst_attn_tp_size == registration.dst_attn_tp_size,
        info->Ok_0.dst_kv_item_len == registration.dst_kv_item_len,
        seqs(info->Ok_0.dst_state_item_lens@) == seqs(registration.dst_state_item_lens@),
        seqs(info->Ok_0.dst_state_dim_per_tensor@) == seqs(
            registration.dst_state_dim_per_tensor@,
        ),
{
    crate::pd_bootstrap::registration_reads_back(registration);
}

/// Transfer metadata is read as it was sent.
pub proof fn transfers_arrive_as_they_were_sent(
    metadata: MooncakeDecodeTransferMetadata,
    frame: &[Vec<u8>],
    info: Result<MooncakeTransferInfo, crate::bootstrap_frame::MooncakeBootstrapFrameError>,
)
    requires
        seqs(frame@) == crate::pd_bootstrap::transfer_frame(metadata@),
        call_ensures(MooncakeTransferInfo::from_frame, (frame,), info),
        metadata.room <= i64::MAX,
        metadata.is_dummy || metadata.dst_aux_index is Some,
        crate::pd_bootstrap::fits(seqs(metadata.dst_state_indices@), 4),
    ensures
        info is Ok,
        info->Ok_0.room == metadata.room,
        info->Ok_0.endpoint@ == metadata.endpoint@,
        info->Ok_0.dst_port == metadata.dst_port,
        info->Ok_0.mooncake_session_id@ == metadata.mooncake_session_id@,
        info->Ok_0.required_dst_info_num == metadata.required_dst_info_num,
        info->Ok_0.is_dummy == metadata.is_dummy,
        info->Ok_0.decode_prefix_len is Some,
        metadata.decode_prefix_len matches Some(n) ==> info->Ok_0.decode_prefix_len == Some(n),
        metadata.decode_prefix_len is None ==> info->Ok_0.decode_prefix_len == Some(0usize),
        !metadata.is_dummy ==> info->Ok_0.dst_kv_indices@ == metadata.dst_kv_indices@
            && info->Ok_0.dst_aux_index == metadata.dst_aux_index && seqs(
            info->Ok_0.dst_state_indices@,
        ) == seqs(metadata.dst_state_indices@),
{
    crate::pd_bootstrap::transfer_reads_back(metadata);
    let read = info->Ok_0;
    assert(crate::pd_bootstrap::optional_nat(read.decode_prefix_len) is Some
        <==> read.decode_prefix_len is Some);
    assert(crate::pd_bootstrap::optional_int(read.dst_aux_index) is Some <==> read.dst_aux_index
        is Some);
}

/// Sending goes on until it succeeds, and is given up with the last message after twenty attempts.
pub proof fn sending_is_given_up_in_the_end(
    attempts: usize,
    outcome: Result<(), String>,
    step: SendStep,
)
    requires
        call_ensures(send_step, (attempts, outcome), step),
    ensures
        outcome is Ok <==> step is Done,
        outcome is Err && attempts < 20 ==> step is Again,
        outcome matches Err(message) ==> attempts >= 20 ==> step == SendStep::Failed(
            MooncakeDecodeBootstrapError::Zmq(message),
        ),
{
}

} // verus!
