//! Little-endian packing of integers and of lists of byte buffers.
use vstd::prelude::*;

verus! {

/// 256 to the power `width`.
pub open spec fn pow256(width: nat) -> nat
    decreases width,
{
    if width == 0 {
        1
    } else {
        256 * pow256((width - 1) as nat)
    }
}

/// The `width` lowest bytes of `n`, the lowest first.
pub open spec fn le_bytes(n: nat, width: nat) -> Seq<u8>
    decreases width,
{
    if width == 0 {
        Seq::empty()
    } else {
        seq![(n % 256) as u8] + le_bytes(n / 256, (width - 1) as nat)
    }
}

/// The number whose bytes are `bytes`, the lowest first.
pub open spec fn le_value(bytes: Seq<u8>) -> nat
    decreases bytes.len(),
{
    if bytes.len() == 0 {
        0
    } else {
        bytes[0] as nat + 256 * le_value(bytes.skip(1))
    }
}

/// The bytes of several numbers, one after the other.
pub open spec fn packed(values: Seq<nat>, width: nat) -> Seq<u8>
    decreases values.len(),
{
    if values.len() == 0 {
        Seq::empty()
    } else {
        packed(values.drop_last(), width) + le_bytes(values.last(), width)
    }
}

/// The numbers whose bytes stand one after the other in `bytes`.
pub open spec fn unpacked(bytes: Seq<u8>, width: nat) -> Seq<nat> {
    Seq::new(
        bytes.len() / width,
        |i: int| le_value(bytes.subrange(i * width, i * width + width)),
    )
}

/// The bytes of a two's complement number of 32 bits, as a natural number.
pub open spec fn i32_bits(n: i32) -> nat {
    if n < 0 {
        (n + 0x1_0000_0000) as nat
    } else {
        n as nat
    }
}

/// The two's complement number of 32 bits whose bytes are `bits`.
pub open spec fn bits_i32(bits: nat) -> i32 {
    if bits >= 0x8000_0000 {
        (bits - 0x1_0000_0000) as i32
    } else {
        bits as i32
    }
}

/// The values as natural numbers.
pub open spec fn u64_nats(values: Seq<u64>) -> Seq<nat> {
    Seq::new(values.len(), |i: int| values[i] as nat)
}

/// The values as natural numbers.
pub open spec fn u32_nats(values: Seq<u32>) -> Seq<nat> {
    Seq::new(values.len(), |i: int| values[i] as nat)
}

/// The bytes of the values, as natural numbers.
pub open spec fn i32_nats(values: Seq<i32>) -> Seq<nat> {
    Seq::new(values.len(), |i: int| i32_bits(values[i]))
}

/// The bytes of 64-bit numbers.
pub open spec fn u64_bytes(values: Seq<u64>) -> Seq<u8> {
    packed(u64_nats(values), 8)
}

/// The bytes of 32-bit numbers.
pub open spec fn u32_bytes(values: Seq<u32>) -> Seq<u8> {
    packed(u32_nats(values), 4)
}

/// The bytes of signed 32-bit numbers.
pub open spec fn i32_bytes(values: Seq<i32>) -> Seq<u8> {
    packed(i32_nats(values), 4)
}

/// The 64-bit numbers in `bytes`.
pub open spec fn bytes_u64(bytes: Seq<u8>) -> Seq<u64> {
    unpacked(bytes, 8).map_values(|n: nat| n as u64)
}

/// The 32-bit numbers in `bytes`.
pub open spec fn bytes_u32(bytes: Seq<u8>) -> Seq<u32> {
    unpacked(bytes, 4).map_values(|n: nat| n as u32)
}

/// The signed 32-bit numbers in `bytes`.
pub open spec fn bytes_i32(bytes: Seq<u8>) -> Seq<i32> {
    unpacked(bytes, 4).map_values(|n: nat| bits_i32(n))
}

/// The buffers, one after the other.
pub open spec fn joined(buffers: Seq<Seq<u8>>) -> Seq<u8>
    decreases buffers.len(),
{
    if buffers.len() == 0 {
        Seq::empty()
    } else {
        joined(buffers.drop_last()) + buffers.last()
    }
}

/// The lengths of the buffers, each modulo 2^32.
pub open spec fn lengths_of(buffers: Seq<Seq<u8>>) -> Seq<nat> {
    Seq::new(buffers.len(), |i: int| buffers[i].len() % 0x1_0000_0000)
}

/// A list of buffers as one buffer: their number, their lengths, then their bytes.
/// A list without buffers is the empty buffer.
pub open spec fn packed_list(buffers: Seq<Seq<u8>>) -> Seq<u8> {
    if buffers.len() == 0 {
        Seq::empty()
    } else {
        le_bytes(buffers.len() % 0x1_0000_0000, 4) + packed(lengths_of(buffers), 4) + joined(
            buffers,
        )
    }
}

/// The sum of the first `n` numbers.
pub open spec fn sum(values: Seq<nat>, n: nat) -> nat
    decreases n,
{
    if n == 0 || n > values.len() {
        0
    } else {
        sum(values, (n - 1) as nat) + values[n - 1]
    }
}

/// What is wrong with the bytes of a packed list.
#[derive(Clone, Copy, Debug, PartialEq, Eq, Structural)]
pub enum ListFault {
    Header,
    Payload,
}

/// The number of buffers that a packed list announces.
pub open spec fn list_count(bytes: Seq<u8>) -> nat {
    le_value(bytes.subrange(0, 4))
}

/// The buffer lengths that a packed list announces.
pub open spec fn list_lengths(bytes: Seq<u8>) -> Seq<nat> {
    Seq::new(list_count(bytes), |i: int| le_value(bytes.subrange(4 + 4 * i, 8 + 4 * i)))
}

/// Where the bytes of the buffer `i` start.
pub open spec fn list_start(bytes: Seq<u8>, i: nat) -> nat {
    4 + 4 * list_count(bytes) + sum(list_lengths(bytes), i)
}

/// The buffers in a packed list.
pub open spec fn unpacked_list(bytes: Seq<u8>) -> Result<Seq<Seq<u8>>, ListFault> {
    if bytes.len() == 0 {
        Ok(Seq::empty())
    } else if bytes.len() < 4 || bytes.len() < 4 + 4 * list_count(bytes) {
        Err(ListFault::Header)
    } else if bytes.len() < list_start(bytes, list_count(bytes)) {
        Err(ListFault::Payload)
    } else {
        Ok(
            Seq::new(
                list_count(bytes),
                |i: int|
                    bytes.subrange(
                        list_start(bytes, i as nat) as int,
                        list_start(bytes, (i + 1) as nat) as int,
                    ),
            ),
        )
    }
}

/// Four bytes hold the numbers below 2^32.
pub proof fn pow256_of_four()
    ensures
        pow256(4) == 0x1_0000_0000,
{
    reveal_with_fuel(pow256, 9);
}

proof fn lemma_pow256_values()
    ensures
        pow256(0) == 1,
        pow256(4) == 0x1_0000_0000,
        pow256(8) == 0x1_0000_0000_0000_0000,
{
    reveal_with_fuel(pow256, 9);
}

proof fn lemma_le_value_bound(bytes: Seq<u8>)
    ensures
        le_value(bytes) < pow256(bytes.len()),
    decreases bytes.len(),
{
    if bytes.len() > 0 {
        lemma_le_value_bound(bytes.skip(1));
    }
}

proof fn lemma_le_bytes_len(n: nat, width: nat)
    ensures
        le_bytes(n, width).len() == width,
    decreases width,
{
    if width > 0 {
        lemma_le_bytes_len(n / 256, (width - 1) as nat);
    }
}

/// The bytes of a number that fits in them give back the number.
pub proof fn le_bytes_read_back(n: nat, width: nat)
    requires
        n < pow256(width),
    ensures
        le_bytes(n, width).len() == width,
        le_value(le_bytes(n, width)) == n,
    decreases width,
{
    if width > 0 {
        assert(n / 256 < pow256((width - 1) as nat));
        le_bytes_read_back(n / 256, (width - 1) as nat);
        assert(le_bytes(n, width).skip(1) =~= le_bytes(n / 256, (width - 1) as nat));
    }
}

proof fn lemma_packed_len(values: Seq<nat>, width: nat)
    ensures
        packed(values, width).len() == values.len() * width,
    decreases values.len(),
{
    if values.len() > 0 {
        lemma_packed_len(values.drop_last(), width);
        lemma_le_bytes_len(values.last(), width);
        assert((values.len() - 1) * width + width == values.len() * width) by (nonlinear_arith);
    }
}

proof fn lemma_packed_chunk(values: Seq<nat>, width: nat, i: int)
    requires
        0 <= i < values.len(),
    ensures
        packed(values, width).len() == values.len() * width,
        0 <= i * width,
        i * width + width <= packed(values, width).len(),
        packed(values, width).subrange(i * width, i * width + width) == le_bytes(values[i], width),
    decreases values.len(),
{
    lemma_packed_len(values, width);
    lemma_packed_len(values.drop_last(), width);
    lemma_le_bytes_len(values.last(), width);
    assert(0 <= i * width && i * width + width <= values.len() * width) by (nonlinear_arith)
        requires
            0 <= i < values.len(),
    ;
    let whole = packed(values, width);
    let head = packed(values.drop_last(), width);
    if i == values.len() - 1 {
        assert(whole.subrange(i * width, i * width + width) =~= le_bytes(values[i], width));
    } else {
        lemma_packed_chunk(values.drop_last(), width, i);
        assert(whole.subrange(i * width, i * width + width) =~= head.subrange(
            i * width,
            i * width + width,
        ));
    }
}

/// Numbers that fit in `width` bytes are read back as they were packed.
pub proof fn packed_reads_back(values: Seq<nat>, width: nat)
    requires
        width > 0,
        forall|i: int| 0 <= i < values.len() ==> #[trigger] values[i] < pow256(width),
    ensures
        packed(values, width).len() == values.len() * width,
        packed(values, width).len() % width == 0,
        unpacked(packed(values, width), width) == values,
{
    lemma_packed_len(values, width);
    let bytes = packed(values, width);
    let n = values.len();
    vstd::arithmetic::div_mod::lemma_div_multiples_vanish(n as int, width as int);
    vstd::arithmetic::div_mod::lemma_mod_multiples_basic(n as int, width as int);
    assert(n * width == width * n) by (nonlinear_arith);
    assert forall|i: int| 0 <= i < n implies #[trigger] unpacked(bytes, width)[i] == values[i] by {
        lemma_packed_chunk(values, width, i);
        le_bytes_read_back(values[i], width);
    }
    assert(unpacked(bytes, width) =~= values);
}

/// 64-bit numbers are read back as they were packed.
pub proof fn u64_bytes_read_back(values: Seq<u64>)
    ensures
        u64_bytes(values).len() == 8 * values.len(),
        u64_bytes(values).len() % 8 == 0,
        bytes_u64(u64_bytes(values)) == values,
{
    lemma_pow256_values();
    packed_reads_back(u64_nats(values), 8);
    assert(bytes_u64(u64_bytes(values)) =~= values);
}

/// 32-bit numbers are read back as they were packed.
pub proof fn u32_bytes_read_back(values: Seq<u32>)
    ensures
        u32_bytes(values).len() == 4 * values.len(),
        u32_bytes(values).len() % 4 == 0,
        bytes_u32(u32_bytes(values)) == values,
{
    lemma_pow256_values();
    packed_reads_back(u32_nats(values), 4);
    assert(bytes_u32(u32_bytes(values)) =~= values);
}

/// Signed 32-bit numbers are read back as they were packed.
pub proof fn i32_bytes_read_back(values: Seq<i32>)
    ensures
        i32_bytes(values).len() == 4 * values.len(),
        i32_bytes(values).len() % 4 == 0,
        bytes_i32(i32_bytes(values)) == values,
{
    lemma_pow256_values();
    packed_reads_back(i32_nats(values), 4);
    assert(bytes_i32(i32_bytes(values)) =~= values);
}

proof fn lemma_sum_monotone(values: Seq<nat>, i: nat, j: nat)
    requires
        i <= j <= values.len(),
    ensures
        sum(values, i) <= sum(values, j),
    decreases j - i,
{
    if i < j {
        lemma_sum_monotone(values, i, (j - 1) as nat);
    }
}

proof fn lemma_sum_prefix(a: Seq<nat>, b: Seq<nat>, n: nat)
    requires
        n <= a.len(),
        n <= b.len(),
        forall|i: int| 0 <= i < n ==> a[i] == b[i],
    ensures
        sum(a, n) == sum(b, n),
    decreases n,
{
    if n > 0 {
        lemma_sum_prefix(a, b, (n - 1) as nat);
    }
}

proof fn lemma_joined_part(buffers: Seq<Seq<u8>>, lengths: Seq<nat>, i: int)
    requires
        lengths.len() == buffers.len(),
        forall|j: int| 0 <= j < buffers.len() ==> lengths[j] == (#[trigger] buffers[j]).len(),
        0 <= i < buffers.len(),
    ensures
        joined(buffers).len() == sum(lengths, buffers.len()),
        sum(lengths, (i + 1) as nat) <= joined(buffers).len(),
        joined(buffers).subrange(
            sum(lengths, i as nat) as int,
            sum(lengths, (i + 1) as nat) as int,
        ) == buffers[i],
    decreases buffers.len(),
{
    let front = buffers.drop_last();
    let n = buffers.len();
    lemma_joined_len(front, lengths.drop_last());
    lemma_joined_len(buffers, lengths);
    lemma_sum_prefix(lengths, lengths.drop_last(), (n - 1) as nat);
    lemma_sum_monotone(lengths, (i + 1) as nat, n);
    if i == n - 1 {
        assert(joined(buffers).subrange(
            sum(lengths, i as nat) as int,
            sum(lengths, (i + 1) as nat) as int,
        ) =~= buffers[i]);
    } else {
        lemma_joined_part(front, lengths.drop_last(), i);
        lemma_sum_prefix(lengths, lengths.drop_last(), i as nat);
        lemma_sum_prefix(lengths, lengths.drop_last(), (i + 1) as nat);
        assert(joined(buffers).subrange(
            sum(lengths, i as nat) as int,
            sum(lengths, (i + 1) as nat) as int,
        ) =~= joined(front).subrange(
            sum(lengths, i as nat) as int,
            sum(lengths, (i + 1) as nat) as int,
        ));
    }
}

proof fn lemma_joined_len(buffers: Seq<Seq<u8>>, lengths: Seq<nat>)
    requires
        lengths.len() == buffers.len(),
        forall|j: int| 0 <= j < buffers.len() ==> lengths[j] == (#[trigger] buffers[j]).len(),
    ensures
        joined(buffers).len() == sum(lengths, buffers.len()),
    decreases buffers.len(),
{
    if buffers.len() > 0 {
        lemma_joined_len(buffers.drop_last(), lengths.drop_last());
        lemma_sum_prefix(lengths, lengths.drop_last(), (buffers.len() - 1) as nat);
    }
}

/// A list of fewer than 2^32 buffers, each shorter than 2^32 bytes, is read back as it was packed.
#[verifier::spinoff_prover]
#[verifier::rlimit(60)]
pub proof fn packed_list_reads_back(buffers: Seq<Seq<u8>>)
    requires
        buffers.len() < 0x1_0000_0000,
        forall|i: int| 0 <= i < buffers.len() ==> (#[trigger] buffers[i]).len() < 0x1_0000_0000,
    ensures
        unpacked_list(packed_list(buffers)) == Ok::<Seq<Seq<u8>>, ListFault>(buffers),
{
    if buffers.len() == 0 {
        assert(buffers =~= Seq::empty());
    } else {
        lemma_pow256_values();
        let n = buffers.len();
        let bytes = packed_list(buffers);
        let lengths = lengths_of(buffers);
        let count_part = le_bytes(n, 4);
        let length_part = packed(lengths, 4);
        le_bytes_read_back(n, 4);
        packed_reads_back(lengths, 4);
        lemma_joined_len(buffers, lengths);
        assert(bytes.subrange(0, 4) =~= count_part);
        assert(list_count(bytes) == n);
        assert forall|i: int| 0 <= i < n implies #[trigger] list_lengths(bytes)[i] == lengths[i] by {
            assert(bytes.subrange(4 + 4 * i, 8 + 4 * i) =~= length_part.subrange(
                i * 4,
                i * 4 + 4,
            ));
            assert(unpacked(length_part, 4)[i] == lengths[i]);
        }
        assert(list_lengths(bytes) =~= lengths);
        let header: int = 4 + 4 * n as int;
        assert(bytes.skip(header) =~= joined(buffers));
        let read = unpacked_list(bytes)->Ok_0;
        assert forall|i: int| 0 <= i < n implies #[trigger] read[i] == buffers[i] by {
            lemma_joined_part(buffers, lengths, i);
            lemma_sum_monotone(lengths, i as nat, (i + 1) as nat);
            let from = sum(lengths, i as nat) as int;
            let to = sum(lengths, (i + 1) as nat) as int;
            assert(bytes.subrange(header + from, header + to) =~= joined(buffers).subrange(
                from,
                to,
            ));
        }
        assert(read =~= buffers);
    }
}

/// Appends the `width` lowest bytes of `n`, the lowest first.
fn push_le(out: &mut Vec<u8>, n: u64, width: usize)
    ensures
        final(out)@ == old(out)@ + le_bytes(n as nat, width as nat),
{
    let ghost start = out@;
    let mut rest: u64 = n;
    let mut i: usize = 0;
    proof {
        assert(out@ + le_bytes(n as nat, width as nat) =~= start + le_bytes(
            n as nat,
            width as nat,
        ));
    }
    while i < width
        invariant
            i <= width,
            out@ + le_bytes(rest as nat, (width - i) as nat) == start + le_bytes(
                n as nat,
                width as nat,
            ),
        decreases width - i,
    {
        let ghost prefix = out@;
        let byte: u8 = (rest % 256) as u8;
        out.push(byte);
        proof {
            assert(prefix + le_bytes(rest as nat, (width - i) as nat) =~= out@ + le_bytes(
                (rest / 256) as nat,
                (width - i - 1) as nat,
            ));
        }
        rest = rest / 256;
        i = i + 1;
    }
    proof {
        assert(out@ + le_bytes(rest as nat, 0) =~= out@);
    }
}

/// Reads the number whose `width` bytes start at `from`, the lowest first.
pub fn read_le(bytes: &[u8], from: usize, width: usize) -> (n: u64)
    requires
        from + width <= bytes@.len(),
        width <= 8,
    ensures
        n == le_value(bytes@.subrange(from as int, from + width)),
        n < pow256(width as nat),
{
    let total: usize = bytes.len();
    let mut n: u64 = 0;
    let mut i: usize = width;
    proof {
        assert(bytes@.subrange(from + width, from + width).len() == 0);
    }
    while i > 0
        invariant
            i <= width <= 8,
            from + width <= total,
            total == bytes@.len(),
            n == le_value(bytes@.subrange(from + i, from + width)),
        decreases i,
    {
        let ghost tail = bytes@.subrange(from + i, from + width);
        let ghost whole = bytes@.subrange(from + i - 1, from + width);
        proof {
            assert(whole.skip(1) =~= tail);
            lemma_le_value_bound(whole);
            reveal_with_fuel(pow256, 9);
            assert(whole.len() <= 8);
            lemma_pow256_monotone(whole.len(), 8);
        }
        i = i - 1;
        n = bytes[from + i] as u64 + 256 * n;
    }
    proof {
        lemma_le_value_bound(bytes@.subrange(from as int, from + width));
    }
    n
}

proof fn lemma_pow256_monotone(a: nat, b: nat)
    requires
        a <= b,
    ensures
        pow256(a) <= pow256(b),
    decreases b - a,
{
    if a < b {
        lemma_pow256_monotone(a, (b - 1) as nat);
    }
}

proof fn lemma_packed_step(values: Seq<nat>, width: nat, i: int)
    requires
        0 <= i < values.len(),
    ensures
        packed(values.take(i + 1), width) == packed(values.take(i), width) + le_bytes(
            values[i],
            width,
        ),
{
    assert(values.take(i + 1).drop_last() =~= values.take(i));
}

/// Packs 64-bit numbers.
pub fn pack_u64s(values: &Vec<u64>) -> (bytes: Vec<u8>)
    ensures
        bytes@ == u64_bytes(values@),
{
    let mut bytes: Vec<u8> = Vec::new();
    let mut i: usize = 0;
    let ghost nats = u64_nats(values@);
    while i < values.len()
        invariant
            i <= values@.len(),
            nats == u64_nats(values@),
            bytes@ == packed(nats.take(i as int), 8),
        decreases values@.len() - i,
    {
        proof {
            lemma_packed_step(nats, 8, i as int);
        }
        push_le(&mut bytes, values[i], 8);
        i = i + 1;
    }
    proof {
        assert(nats.take(i as int) =~= nats);
    }
    bytes
}

/// Packs 32-bit numbers.
pub fn pack_u32s(values: &Vec<u32>) -> (bytes: Vec<u8>)
    ensures
        bytes@ == u32_bytes(values@),
{
    let mut bytes: Vec<u8> = Vec::new();
    let mut i: usize = 0;
    let ghost nats = u32_nats(values@);
    while i < values.len()
        invariant
            i <= values@.len(),
            nats == u32_nats(values@),
            bytes@ == packed(nats.take(i as int), 4),
        decreases values@.len() - i,
    {
        proof {
            lemma_packed_step(nats, 4, i as int);
        }
        push_le(&mut bytes, values[i] as u64, 4);
        i = i + 1;
    }
    proof {
        assert(nats.take(i as int) =~= nats);
    }
    bytes
}

/// Packs signed 32-bit numbers.
pub fn pack_i32s(values: &Vec<i32>) -> (bytes: Vec<u8>)
    ensures
        bytes@ == i32_bytes(values@),
{
    let mut bytes: Vec<u8> = Vec::new();
    let mut i: usize = 0;
    let ghost nats = i32_nats(values@);
    while i < values.len()
        invariant
            i <= values@.len(),
            nats == i32_nats(values@),
            bytes@ == packed(nats.take(i as int), 4),
        decreases values@.len() - i,
    {
        proof {
            lemma_packed_step(nats, 4, i as int);
        }
        let value: i64 = values[i] as i64;
        let bits: u64 = if value < 0 {
            (value + 0x1_0000_0000) as u64
        } else {
            value as u64
        };
        push_le(&mut bytes, bits, 4);
        i = i + 1;
    }
    proof {
        assert(nats.take(i as int) =~= nats);
    }
    bytes
}

/// Several byte buffers, by what they hold.
pub open spec fn seqs<T>(buffers: Seq<Vec<T>>) -> Seq<Seq<T>> {
    buffers.map_values(|buffer: Vec<T>| buffer@)
}

fn append_all(out: &mut Vec<u8>, bytes: &Vec<u8>)
    ensures
        final(out)@ == old(out)@ + bytes@,
{
    let ghost start = out@;
    let mut i: usize = 0;
    proof {
        assert(start + bytes@.take(0) =~= start);
    }
    while i < bytes.len()
        invariant
            i <= bytes@.len(),
            out@ == start + bytes@.take(i as int),
        decreases bytes@.len() - i,
    {
        out.push(bytes[i]);
        i = i + 1;
        proof {
            assert(start + bytes@.take(i as int) =~= (start + bytes@.take(i - 1)).push(
                bytes@[i - 1],
            ));
        }
    }
    proof {
        assert(bytes@.take(i as int) =~= bytes@);
    }
}

/// Packs a list of buffers.
pub fn pack_list_of_buffers(buffers: &Vec<Vec<u8>>) -> (packed_bytes: Vec<u8>)
    ensures
        packed_bytes@ == packed_list(seqs(buffers@)),
{
    let ghost all = seqs(buffers@);
    if buffers.len() == 0 {
        return Vec::new();
    }
    let mut out: Vec<u8> = Vec::new();
    push_le(&mut out, buffers.len() as u64 % 0x1_0000_0000, 4);
    let ghost head = le_bytes(all.len() % 0x1_0000_0000, 4);
    let ghost lengths = lengths_of(all);
    proof {
        assert(out@ =~= head);
        assert(head + packed(lengths.take(0), 4) =~= head);
    }
    let mut i: usize = 0;
    while i < buffers.len()
        invariant
            i <= buffers@.len(),
            all == seqs(buffers@),
            lengths == lengths_of(all),
            out@ == head + packed(lengths.take(i as int), 4),
        decreases buffers@.len() - i,
    {
        proof {
            lemma_packed_step(lengths, 4, i as int);
        }
        let ghost before = out@;
        push_le(&mut out, buffers[i].len() as u64 % 0x1_0000_0000, 4);
        proof {
            assert(before + le_bytes(lengths[i as int], 4) =~= head + (packed(
                lengths.take(i as int),
                4,
            ) + le_bytes(lengths[i as int], 4)));
        }
        i = i + 1;
    }
    let ghost header = out@;
    proof {
        assert(lengths.take(i as int) =~= lengths);
        assert(header + joined(all.take(0)) =~= header);
    }
    let mut i: usize = 0;
    while i < buffers.len()
        invariant
            i <= buffers@.len(),
            all == seqs(buffers@),
            out@ == header + joined(all.take(i as int)),
        decreases buffers@.len() - i,
    {
        let ghost before = out@;
        append_all(&mut out, &buffers[i]);
        proof {
            assert(all.take(i + 1).drop_last() =~= all.take(i as int));
            assert(before + all[i as int] =~= header + (joined(all.take(i as int))
                + all[i as int]));
        }
        i = i + 1;
    }
    proof {
        assert(all.take(i as int) =~= all);
    }
    out
}

/// Packs a list of lists of 64-bit numbers.
pub fn pack_u64_lists(lists: &Vec<Vec<u64>>) -> (bytes: Vec<u8>)
    ensures
        bytes@ == packed_list(seqs(lists@).map_values(|list: Seq<u64>| u64_bytes(list))),
{
    let mut buffers: Vec<Vec<u8>> = Vec::new();
    let mut i: usize = 0;
    let ghost wanted = seqs(lists@).map_values(|list: Seq<u64>| u64_bytes(list));
    while i < lists.len()
        invariant
            i <= lists@.len(),
            wanted == seqs(lists@).map_values(|list: Seq<u64>| u64_bytes(list)),
            seqs(buffers@) == wanted.take(i as int),
        decreases lists@.len() - i,
    {
        let ghost before = seqs(buffers@);
        buffers.push(pack_u64s(&lists[i]));
        proof {
            assert(seqs(buffers@) =~= before.push(wanted[i as int]));
            assert(wanted.take(i + 1) =~= wanted.take(i as int).push(wanted[i as int]));
        }
        i = i + 1;
    }
    proof {
        assert(wanted.take(i as int) =~= wanted);
    }
    pack_list_of_buffers(&buffers)
}

/// Packs a list of lists of 32-bit numbers.
pub fn pack_u32_lists(lists: &Vec<Vec<u32>>) -> (bytes: Vec<u8>)
    ensures
        bytes@ == packed_list(seqs(lists@).map_values(|list: Seq<u32>| u32_bytes(list))),
{
    let mut buffers: Vec<Vec<u8>> = Vec::new();
    let mut i: usize = 0;
    let ghost wanted = seqs(lists@).map_values(|list: Seq<u32>| u32_bytes(list));
    while i < lists.len()
        invariant
            i <= lists@.len(),
            wanted == seqs(lists@).map_values(|list: Seq<u32>| u32_bytes(list)),
            seqs(buffers@) == wanted.take(i as int),
        decreases lists@.len() - i,
    {
        let ghost before = seqs(buffers@);
        buffers.push(pack_u32s(&lists[i]));
        proof {
            assert(seqs(buffers@) =~= before.push(wanted[i as int]));
            assert(wanted.take(i + 1) =~= wanted.take(i as int).push(wanted[i as int]));
        }
        i = i + 1;
    }
    proof {
        assert(wanted.take(i as int) =~= wanted);
    }
    pack_list_of_buffers(&buffers)
}

/// Packs a list of lists of signed 32-bit numbers.
pub fn pack_i32_lists(lists: &Vec<Vec<i32>>) -> (bytes: Vec<u8>)
    ensures
        bytes@ == packed_list(seqs(lists@).map_values(|list: Seq<i32>| i32_bytes(list))),
{
    let mut buffers: Vec<Vec<u8>> = Vec::new();
    let mut i: usize = 0;
    let ghost wanted = seqs(lists@).map_values(|list: Seq<i32>| i32_bytes(list));
    while i < lists.len()
        invariant
            i <= lists@.len(),
            wanted == seqs(lists@).map_values(|list: Seq<i32>| i32_bytes(list)),
            seqs(buffers@) == wanted.take(i as int),
        decreases lists@.len() - i,
    {
        let ghost before = seqs(buffers@);
        buffers.push(pack_i32s(&lists[i]));
        proof {
            assert(seqs(buffers@) =~= before.push(wanted[i as int]));
            assert(wanted.take(i + 1) =~= wanted.take(i as int).push(wanted[i as int]));
        }
        i = i + 1;
    }
    proof {
        assert(wanted.take(i as int) =~= wanted);
    }
    pack_list_of_buffers(&buffers)
}

/// Copies `bytes[from..to]`.
pub fn copy_range(bytes: &[u8], from: usize, to: usize) -> (part: Vec<u8>)
    requires
        from <= to <= bytes@.len(),
    ensures
        part@ == bytes@.subrange(from as int, to as int),
{
    let mut part: Vec<u8> = Vec::new();
    let mut i: usize = from;
    while i < to
        invariant
            from <= i <= to <= bytes@.len(),
            part@ == bytes@.subrange(from as int, i as int),
        decreases to - i,
    {
        proof {
            assert(bytes@.subrange(from as int, i + 1) =~= bytes@.subrange(
                from as int,
                i as int,
            ).push(bytes@[i as int]));
        }
        part.push(bytes[i]);
        i = i + 1;
    }
    part
}

/// Splits a packed list into its buffers.
pub fn split_list(bytes: &[u8]) -> (buffers: Result<Vec<Vec<u8>>, ListFault>)
    ensures
        match buffers {
            Ok(list) => unpacked_list(bytes@) == Ok::<Seq<Seq<u8>>, ListFault>(seqs(list@)),
            Err(fault) => unpacked_list(bytes@) == Err::<Seq<Seq<u8>>, ListFault>(fault),
        },
{
    let mut buffers: Vec<Vec<u8>> = Vec::new();
    if bytes.len() == 0 {
        proof {
            assert(seqs(buffers@) =~= Seq::<Seq<u8>>::empty());
        }
        return Ok(buffers);
    }
    if bytes.len() < 4 {
        return Err(ListFault::Header);
    }
    let count: u64 = read_le(bytes, 0, 4);
    if (((bytes.len() - 4) / 4) as u64) < count {
        return Err(ListFault::Header);
    }
    let count: usize = count as usize;
    let ghost lengths = list_lengths(bytes@);
    let mut i: usize = 0;
    let mut offset: usize = 4 + 4 * count;
    while i < count
        invariant
            i <= count,
            count == list_count(bytes@),
            4 + 4 * count <= bytes@.len(),
            lengths == list_lengths(bytes@),
            offset == list_start(bytes@, i as nat),
            offset <= bytes@.len(),
            seqs(buffers@).len() == i,
            forall|j: int|
                0 <= j < i ==> #[trigger] seqs(buffers@)[j] == bytes@.subrange(
                    list_start(bytes@, j as nat) as int,
                    list_start(bytes@, (j + 1) as nat) as int,
                ),
        decreases count - i,
    {
        let length: u64 = read_le(bytes, 4 + 4 * i, 4);
        proof {
            assert(bytes@.subrange(4 + 4 * i, 4 + 4 * i + 4) =~= bytes@.subrange(
                4 + 4 * i,
                8 + 4 * i,
            ));
            assert(lengths[i as int] == length);
            assert(list_start(bytes@, (i + 1) as nat) == offset + length);
            lemma_sum_monotone(lengths, (i + 1) as nat, count as nat);
        }
        if ((bytes.len() - offset) as u64) < length {
            return Err(ListFault::Payload);
        }
        let end: usize = offset + length as usize;
        let ghost before = seqs(buffers@);
        buffers.push(copy_range(bytes, offset, end));
        proof {
            assert(seqs(buffers@) =~= before.push(
                bytes@.subrange(offset as int, end as int),
            ));
        }
        offset = end;
        i = i + 1;
    }
    proof {
        assert(seqs(buffers@) =~= unpacked_list(bytes@)->Ok_0);
    }
    Ok(buffers)
}

} // verus!
