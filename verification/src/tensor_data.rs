//! The bytes of a tensor: their checksum, and the binary32 values that they stand for.
use vstd::prelude::*;
use vstd::string::*;

use vstd::arithmetic::power2::{lemma2_to64, lemma_pow2_adds, lemma_pow2_pos, lemma_pow2_unfold, pow2};

use crate::safetensors::{
    byte_width, elements, SafetensorsTensorMetadata, SafetensorsTensorSpan, TensorSpan,
};
use crate::text::{cat3, cat5, decimal, decimal_usize, same_text};
use crate::wire::{le_value, read_le};

verus! {

/// The checksum that stands at the start.
pub const FNV1A64_OFFSET_BASIS: u64 = 0xcbf29ce484222325;

/// The factor by which the checksum grows with each byte.
pub const FNV1A64_PRIME: u64 = 0x100000001b3;

/// The checksum after `bytes`.
pub open spec fn fnv1a64(checksum: u64, bytes: Seq<u8>) -> u64
    decreases bytes.len(),
{
    if bytes.len() == 0 {
        checksum
    } else {
        let before = fnv1a64(checksum, bytes.drop_last());
        ((before ^ (bytes.last() as u64)) as int * 0x100000001b3 % 0x1_0000_0000_0000_0000) as u64
    }
}

/// The checksum after `bytes`.
pub fn fnv1a64_update(checksum: u64, bytes: &[u8]) -> (updated: u64)
    ensures
        updated == fnv1a64(checksum, bytes@),
{
    let mut sum: u64 = checksum;
    let mut i: usize = 0;
    while i < bytes.len()
        invariant
            i <= bytes@.len(),
            sum == fnv1a64(checksum, bytes@.take(i as int)),
        decreases bytes@.len() - i,
    {
        proof {
            assert(bytes@.take(i + 1).drop_last() =~= bytes@.take(i as int));
            assert(bytes@.take(i + 1).last() == bytes@[i as int]);
        }
        sum = (sum ^ (bytes[i] as u64)).wrapping_mul(FNV1A64_PRIME);
        i = i + 1;
    }
    proof {
        assert(bytes@.take(i as int) =~= bytes@);
    }
    sum
}

/// The checksum of bytes that are read in parts is the checksum of all of them.
pub proof fn checksums_follow_each_other(checksum: u64, a: Seq<u8>, b: Seq<u8>)
    ensures
        fnv1a64(fnv1a64(checksum, a), b) == fnv1a64(checksum, a + b),
    decreases b.len(),
{
    if b.len() == 0 {
        assert(a + b =~= a);
    } else {
        checksums_follow_each_other(checksum, a, b.drop_last());
        assert((a + b).drop_last() =~= a + b.drop_last());
        assert((a + b).last() == b.last());
    }
}

/// What a checkpoint holds under the name of a tensor, and the checksum of its bytes.
#[derive(Clone, Debug, PartialEq, Eq)]
pub struct SafetensorsCheckpointFingerprintEntry {
    pub tensor_name: String,
    pub path: String,
    pub dtype: String,
    pub shape: Vec<usize>,
    pub absolute_byte_offset: u64,
    pub byte_len: usize,
    pub fnv1a64: u64,
}

/// What a [`SafetensorsCheckpointFingerprintEntry`] says.
pub struct FingerprintEntry {
    pub tensor_name: Seq<char>,
    pub path: Seq<char>,
    pub dtype: Seq<char>,
    pub shape: Seq<usize>,
    pub absolute_byte_offset: nat,
    pub byte_len: nat,
    pub fnv1a64: u64,
}

impl View for SafetensorsCheckpointFingerprintEntry {
    type V = FingerprintEntry;

    open spec fn view(&self) -> FingerprintEntry {
        FingerprintEntry {
            tensor_name: self.tensor_name@,
            path: self.path@,
            dtype: self.dtype@,
            shape: self.shape@,
            absolute_byte_offset: self.absolute_byte_offset as nat,
            byte_len: self.byte_len as nat,
            fnv1a64: self.fnv1a64,
        }
    }
}

/// The entry of a tensor that lies at `span` and whose bytes have the given checksum.
pub open spec fn fingerprint_of(
    tensor_name: Seq<char>,
    span: TensorSpan,
    fnv1a64: u64,
) -> FingerprintEntry {
    FingerprintEntry {
        tensor_name,
        path: span.path,
        dtype: span.metadata.dtype,
        shape: span.metadata.shape,
        absolute_byte_offset: span.absolute_byte_offset,
        byte_len: span.byte_len,
        fnv1a64,
    }
}

impl SafetensorsCheckpointFingerprintEntry {
    /// The entry of a tensor, from where it lies and the checksum of its bytes.
    pub fn from_span(tensor_name: String, span: SafetensorsTensorSpan, fnv1a64: u64) -> (entry:
        SafetensorsCheckpointFingerprintEntry)
        ensures
            entry@ == fingerprint_of(tensor_name@, span@, fnv1a64),
    {
        SafetensorsCheckpointFingerprintEntry {
            tensor_name,
            path: span.path,
            dtype: span.metadata.dtype,
            shape: span.metadata.shape,
            absolute_byte_offset: span.absolute_byte_offset,
            byte_len: span.byte_len,
            fnv1a64,
        }
    }
}

/// Why the bytes of a tensor have no binary32 values.
#[derive(Clone, Debug, PartialEq, Eq)]
pub enum SafetensorsTensorDecodeError {
    UnsupportedDtype { dtype: String },
    InvalidByteLength { dtype: String, byte_len: usize },
}

/// What a [`SafetensorsTensorDecodeError`] says.
pub enum DecodeFault {
    UnsupportedDtype { dtype: Seq<char> },
    InvalidByteLength { dtype: Seq<char>, byte_len: nat },
}

impl View for SafetensorsTensorDecodeError {
    type V = DecodeFault;

    open spec fn view(&self) -> DecodeFault {
        match *self {
            SafetensorsTensorDecodeError::UnsupportedDtype { dtype } => {
                DecodeFault::UnsupportedDtype { dtype: dtype@ }
            },
            SafetensorsTensorDecodeError::InvalidByteLength { dtype, byte_len } => {
                DecodeFault::InvalidByteLength { dtype: dtype@, byte_len: byte_len as nat }
            },
        }
    }
}

/// The message of an error.
pub open spec fn decode_message(fault: DecodeFault) -> Seq<char> {
    match fault {
        DecodeFault::UnsupportedDtype { dtype } => "cannot decode safetensors dtype "@ + dtype
            + " as f32"@,
        DecodeFault::InvalidByteLength { dtype, byte_len } => "cannot decode safetensors dtype "@
            + dtype + " from "@ + decimal(byte_len) + " bytes"@,
    }
}

impl SafetensorsTensorDecodeError {
    /// The message of the error.
    pub fn to_string(&self) -> (message: String)
        ensures
            message@ == decode_message(self@),
    {
        match self {
            SafetensorsTensorDecodeError::UnsupportedDtype { dtype } => cat3(
                "cannot decode safetensors dtype ",
                dtype.as_str(),
                " as f32",
            ),
            SafetensorsTensorDecodeError::InvalidByteLength { dtype, byte_len } => cat5(
                "cannot decode safetensors dtype ",
                dtype.as_str(),
                " from ",
                decimal_usize(*byte_len).as_str(),
                " bytes",
            ),
        }
    }
}

/// How often `m` has to be doubled to reach 2^23.
pub open spec fn doublings(m: nat) -> nat
    decreases 0x100_0000 - m,
{
    if m == 0 || m >= 0x80_0000 {
        0
    } else {
        1 + doublings(2 * m)
    }
}

/// The bits of the binary32 value of a finite number of a smaller format, which has `k` bits of
/// mantissa and an exponent offset by `bias`: from its sign, its exponent field and its mantissa
/// field.
pub open spec fn widened(sign: nat, e: nat, m: nat, k: nat, bias: nat) -> nat {
    if e > 0 {
        (sign * 0x8000_0000 + (e + 127 - bias) * 0x80_0000 + m * pow2((23 - k) as nat)) as nat
    } else if m == 0 {
        sign * 0x8000_0000
    } else {
        let j = doublings(m);
        (sign * 0x8000_0000 + (151 - bias - k - j) * 0x80_0000 + (m * pow2(j) - 0x80_0000)) as nat
    }
}

/// The bits of a binary32 value that is no number.
pub const NOT_A_NUMBER: u32 = 0x7fc0_0000;

/// The bits of the binary32 value of a brain floating-point number of 16 bits.
pub open spec fn brain_value(bits: u16) -> nat {
    bits as nat * 0x1_0000
}

/// The bits of the binary32 value of a binary16 number.
pub open spec fn half_value(bits: u16) -> nat {
    let sign = (bits / 0x8000) as nat;
    let e = (bits / 0x400 % 0x20) as nat;
    let m = (bits % 0x400) as nat;
    if e < 0x1f {
        widened(sign, e, m, 10, 15)
    } else if m == 0 {
        sign * 0x8000_0000 + 0x7f80_0000
    } else {
        NOT_A_NUMBER as nat
    }
}

/// The bits of the binary32 value of a number of 8 bits, four of them exponent.
pub open spec fn e4m3_value(bits: u8) -> nat {
    let sign = (bits / 0x80) as nat;
    let e = (bits / 8 % 0x10) as nat;
    let m = (bits % 8) as nat;
    if e == 0x0f && m == 7 {
        NOT_A_NUMBER as nat
    } else {
        widened(sign, e, m, 3, 7)
    }
}

/// The magnitude of a finite binary32 value, in units of 2^-149.
pub open spec fn magnitude32(bits: nat) -> nat {
    let e = bits / 0x80_0000 % 0x100;
    let m = bits % 0x80_0000;
    if e == 0 {
        m
    } else {
        (0x80_0000 + m) * pow2((e - 1) as nat)
    }
}

/// The magnitude of a finite number of a format with `k` bits of mantissa, in units of its
/// smallest positive number.
pub open spec fn magnitude(e: nat, m: nat, k: nat) -> nat {
    if e == 0 {
        m
    } else {
        (pow2(k) + m) * pow2((e - 1) as nat)
    }
}

proof fn lemma_doublings(m: nat)
    requires
        0 < m < 0x80_0000,
    ensures
        0 < doublings(m) <= 23,
        0x80_0000 <= m * pow2(doublings(m)) < 0x100_0000,
    decreases 0x80_0000 - m,
{
    lemma2_to64();
    if 2 * m < 0x80_0000 {
        lemma_doublings(2 * m);
        let j = doublings(2 * m);
        lemma_pow2_unfold((j + 1) as nat);
        assert(m * pow2((j + 1) as nat) == 2 * m * pow2(j)) by (nonlinear_arith)
            requires
                pow2((j + 1) as nat) == 2 * pow2(j),
        ;
        if j >= 23 {
            lemma_pow2_adds(23, (j - 23) as nat);
            lemma_pow2_pos((j - 23) as nat);
            assert(2 * m * pow2(j) >= 0x100_0000) by (nonlinear_arith)
                requires
                    m >= 1,
                    pow2(j) == 0x80_0000 * pow2((j - 23) as nat),
                    pow2((j - 23) as nat) >= 1,
            ;
        }
    } else {
        assert(doublings(2 * m) == 0);
    }
}

proof fn lemma_fields(sign: nat, field: nat, rest: nat)
    requires
        sign <= 1,
        field < 0x100,
        rest < 0x80_0000,
    ensures
        ({
            let bits = sign * 0x8000_0000 + field * 0x80_0000 + rest;
            &&& bits <= u32::MAX
            &&& bits / 0x8000_0000 == sign
            &&& bits / 0x80_0000 % 0x100 == field
            &&& bits % 0x80_0000 == rest
        }),
{
    let bits = sign * 0x8000_0000 + field * 0x80_0000 + rest;
    assert(bits % 0x80_0000 == rest);
    assert(bits / 0x80_0000 == sign * 0x100 + field);
}

/// A number keeps its value and its sign when it is widened.
pub proof fn widening_keeps_the_value(sign: nat, e: nat, m: nat, k: nat, bias: nat)
    requires
        sign <= 1,
        0 < k < 23,
        m < pow2(k),
        bias <= 100,
        e + 127 < bias + 255,
        e > 0 ==> bias < e + 127,
        bias + k + 23 < 151,
    ensures
        widened(sign, e, m, k, bias) <= u32::MAX,
        widened(sign, e, m, k, bias) / 0x8000_0000 == sign,
        magnitude32(widened(sign, e, m, k, bias)) == magnitude(e, m, k) * pow2(
            (150 - bias - k) as nat,
        ),
{
    lemma2_to64();
    let bits = widened(sign, e, m, k, bias);
    let unit = pow2((150 - bias - k) as nat);
    lemma_pow2_adds(k, (23 - k) as nat);
    lemma_pow2_pos((23 - k) as nat);
    if e > 0 {
        let shift = pow2((23 - k) as nat);
        assert(m * shift < 0x80_0000) by (nonlinear_arith)
            requires
                m < pow2(k),
                pow2(k) * shift == 0x80_0000,
                shift > 0,
        ;
        let field = (e + 127 - bias) as nat;
        lemma_fields(sign, field, (m * shift) as nat);
        assert(bits == sign * 0x8000_0000 + field * 0x80_0000 + m * shift);
        assert(magnitude32(bits) == (0x80_0000 + m * shift) * pow2((field - 1) as nat));
        let low = pow2((e - 1) as nat);
        lemma_pow2_adds((e - 1) as nat, (150 - bias - k) as nat);
        lemma_pow2_adds((23 - k) as nat, (field - 1) as nat);
        assert((e - 1) + (150 - bias - k) == (23 - k) + (field - 1));
        assert((0x80_0000 + m * shift) * pow2((field - 1) as nat) == (pow2(k) + m) * low * unit)
            by (nonlinear_arith)
            requires
                pow2(k) * shift == 0x80_0000,
                low * unit == shift * pow2((field - 1) as nat),
        ;
        assert(magnitude(e, m, k) == (pow2(k) + m) * low);
    } else if m == 0 {
        lemma_fields(sign, 0, 0);
        assert(bits == sign * 0x8000_0000);
        assert(magnitude32(bits) == 0);
        assert(magnitude(e, m, k) == 0);
        assert(magnitude(e, m, k) * unit == 0) by (nonlinear_arith)
            requires
                magnitude(e, m, k) == 0,
        ;
    } else {
        assert(m < 0x80_0000) by {
            lemma_pow2_pos(k);
            assert(pow2(k) <= 0x80_0000) by (nonlinear_arith)
                requires
                    pow2(k) * pow2((23 - k) as nat) == 0x80_0000,
                    pow2((23 - k) as nat) >= 1,
            ;
        }
        lemma_doublings(m);
        let j = doublings(m);
        let field = (151 - bias - k - j) as nat;
        let rest = (m * pow2(j) - 0x80_0000) as nat;
        lemma_fields(sign, field, rest);
        assert(bits == sign * 0x8000_0000 + field * 0x80_0000 + rest);
        assert(magnitude32(bits) == (0x80_0000 + rest) * pow2((field - 1) as nat));
        assert(0x80_0000 + rest == m * pow2(j));
        lemma_pow2_adds(j, (field - 1) as nat);
        assert(m * pow2(j) * pow2((field - 1) as nat) == m * unit) by (nonlinear_arith)
            requires
                unit == pow2(j) * pow2((field - 1) as nat),
        ;
    }
}

fn widen(sign: u32, e: u32, m: u32, k: u32, bias: u32) -> (bits: u32)
    requires
        sign <= 1,
        0 < k < 23,
        m < pow2(k as nat),
        bias <= 100,
        e + 127 < bias + 255,
        e > 0 ==> bias < e + 127,
        bias + k + 23 < 151,
    ensures
        bits as nat == widened(sign as nat, e as nat, m as nat, k as nat, bias as nat),
{
    proof {
        lemma2_to64();
        lemma_pow2_adds(k as nat, (23 - k) as nat);
        lemma_pow2_pos((23 - k) as nat);
        lemma_pow2_pos(k as nat);
        widening_keeps_the_value(sign as nat, e as nat, m as nat, k as nat, bias as nat);
        assert(m * pow2((23 - k) as nat) < 0x80_0000 && m < 0x80_0000) by (nonlinear_arith)
            requires
                m < pow2(k as nat),
                pow2(k as nat) * pow2((23 - k) as nat) == 0x80_0000,
                pow2((23 - k) as nat) >= 1,
        ;
    }
    if e > 0 {
        let mut shifted: u32 = m;
        let mut i: u32 = k;
        proof {
            assert(pow2((i - k) as nat) == 1);
        }
        while i < 23
            invariant
                k <= i <= 23,
                shifted == m * pow2((i - k) as nat),
                m * pow2((23 - k) as nat) < 0x80_0000,
            decreases 23 - i,
        {
            proof {
                lemma_pow2_unfold((i + 1 - k) as nat);
                lemma_pow2_adds((i - k) as nat, (23 - i) as nat);
                lemma_pow2_pos((23 - i) as nat);
                assert(m * pow2((i - k) as nat) <= m * pow2((23 - k) as nat)) by (nonlinear_arith)
                    requires
                        pow2((23 - k) as nat) == pow2((i - k) as nat) * pow2((23 - i) as nat),
                        pow2((23 - i) as nat) >= 1,
                ;
                assert(m * pow2((i + 1 - k) as nat) == 2 * (m * pow2((i - k) as nat)))
                    by (nonlinear_arith)
                    requires
                        pow2((i + 1 - k) as nat) == 2 * pow2((i - k) as nat),
                ;
            }
            shifted = shifted * 2;
            i = i + 1;
        }
        sign * 0x8000_0000 + (e + 127 - bias) * 0x80_0000 + shifted
    } else if m == 0 {
        sign * 0x8000_0000
    } else {
        let mut shifted: u32 = m;
        let mut j: u32 = 0;
        proof {
            lemma_doublings(m as nat);
        }
        while shifted < 0x80_0000
            invariant
                0 < m < 0x80_0000,
                0 < shifted < 0x100_0000,
                j + doublings(shifted as nat) == doublings(m as nat),
                doublings(m as nat) <= 23,
                shifted == m * pow2(j as nat),
            decreases 0x100_0000 - shifted,
        {
            proof {
                lemma_pow2_unfold((j + 1) as nat);
                assert(m * pow2((j + 1) as nat) == 2 * (m * pow2(j as nat))) by (nonlinear_arith)
                    requires
                        pow2((j + 1) as nat) == 2 * pow2(j as nat),
                ;
            }
            shifted = shifted * 2;
            j = j + 1;
        }
        sign * 0x8000_0000 + (151 - bias - k - j) * 0x80_0000 + (shifted - 0x80_0000)
    }
}

/// The bits of the binary32 value of a brain floating-point number of 16 bits.
pub fn bf16_to_f32(bits: u16) -> (value: u32)
    ensures
        value as nat == brain_value(bits),
{
    bits as u32 * 0x1_0000
}

/// The bits of the binary32 value of a binary16 number.
pub fn f16_to_f32(bits: u16) -> (value: u32)
    ensures
        value as nat == half_value(bits),
{
    let sign: u32 = (bits / 0x8000) as u32;
    let e: u32 = (bits / 0x400 % 0x20) as u32;
    let m: u32 = (bits % 0x400) as u32;
    proof {
        lemma2_to64();
    }
    if e < 0x1f {
        widen(sign, e, m, 10, 15)
    } else if m == 0 {
        sign * 0x8000_0000 + 0x7f80_0000
    } else {
        NOT_A_NUMBER
    }
}

/// The bits of the binary32 value of a number of 8 bits, four of them exponent.
pub fn f8_e4m3fn_to_f32(bits: u8) -> (value: u32)
    ensures
        value as nat == e4m3_value(bits),
{
    let sign: u32 = (bits / 0x80) as u32;
    let e: u32 = (bits / 8 % 0x10) as u32;
    let m: u32 = (bits % 8) as u32;
    proof {
        lemma2_to64();
    }
    if e == 0x0f && m == 7 {
        NOT_A_NUMBER
    } else {
        widen(sign, e, m, 3, 7)
    }
}

/// The two bytes at `i`, the low one first.
pub open spec fn pair_at(bytes: Seq<u8>, i: int) -> u16 {
    (bytes[i] + 0x100 * bytes[i + 1]) as u16
}

/// The bits of the binary32 values that bytes of the type `dtype` stand for.
pub open spec fn decoded(dtype: Seq<char>, bytes: Seq<u8>) -> Result<Seq<nat>, DecodeFault> {
    let len = bytes.len();
    if dtype == "F32"@ {
        if len % 4 == 0 {
            Ok(Seq::new(len / 4, |i: int| le_value(bytes.subrange(4 * i, 4 * i + 4))))
        } else {
            Err(DecodeFault::InvalidByteLength { dtype, byte_len: len })
        }
    } else if dtype == "BF16"@ {
        if len % 2 == 0 {
            Ok(Seq::new(len / 2, |i: int| brain_value(pair_at(bytes, 2 * i))))
        } else {
            Err(DecodeFault::InvalidByteLength { dtype, byte_len: len })
        }
    } else if dtype == "F16"@ {
        if len % 2 == 0 {
            Ok(Seq::new(len / 2, |i: int| half_value(pair_at(bytes, 2 * i))))
        } else {
            Err(DecodeFault::InvalidByteLength { dtype, byte_len: len })
        }
    } else if dtype == "F8_E4M3"@ {
        Ok(Seq::new(len, |i: int| e4m3_value(bytes[i])))
    } else {
        Err(DecodeFault::UnsupportedDtype { dtype })
    }
}

/// Several numbers, by their values.
pub open spec fn numbers(values: Seq<u32>) -> Seq<nat> {
    values.map_values(|value: u32| value as nat)
}

fn decode_words(bytes: &Vec<u8>) -> (values: Vec<u32>)
    requires
        bytes@.len() % 4 == 0,
    ensures
        numbers(values@) == Seq::new(
            bytes@.len() / 4,
            |i: int| le_value(bytes@.subrange(4 * i, 4 * i + 4)),
        ),
{
    let total: usize = bytes.len();
    let mut values: Vec<u32> = Vec::new();
    let mut i: usize = 0;
    while i < total
        invariant
            i <= total,
            total == bytes@.len(),
            i % 4 == 0,
            total % 4 == 0,
            values@.len() == i / 4,
            forall|j: int|
                0 <= j < i / 4 ==> #[trigger] values@[j] == le_value(
                    bytes@.subrange(4 * j, 4 * j + 4),
                ),
        decreases total - i,
    {
        let word: u64 = read_le(bytes.as_slice(), i, 4);
        proof {
            crate::wire::pow256_of_four();
        }
        values.push(word as u32);
        i = i + 4;
    }
    proof {
        assert(numbers(values@) =~= Seq::new(
            bytes@.len() / 4,
            |i: int| le_value(bytes@.subrange(4 * i, 4 * i + 4)),
        ));
    }
    values
}

fn decode_pairs(bytes: &Vec<u8>, brain: bool) -> (values: Vec<u32>)
    requires
        bytes@.len() % 2 == 0,
    ensures
        numbers(values@) == Seq::new(
            bytes@.len() / 2,
            |i: int|
                if brain {
                    brain_value(pair_at(bytes@, 2 * i))
                } else {
                    half_value(pair_at(bytes@, 2 * i))
                },
        ),
{
    let total: usize = bytes.len();
    let mut values: Vec<u32> = Vec::new();
    let mut i: usize = 0;
    while i < total
        invariant
            i <= total,
            total == bytes@.len(),
            i % 2 == 0,
            total % 2 == 0,
            values@.len() == i / 2,
            forall|j: int|
                0 <= j < i / 2 ==> #[trigger] values@[j] == if brain {
                    brain_value(pair_at(bytes@, 2 * j))
                } else {
                    half_value(pair_at(bytes@, 2 * j))
                },
        decreases total - i,
    {
        let bits: u16 = bytes[i] as u16 + 0x100 * bytes[i + 1] as u16;
        let value: u32 = if brain {
            bf16_to_f32(bits)
        } else {
            f16_to_f32(bits)
        };
        values.push(value);
        i = i + 2;
    }
    proof {
        assert(numbers(values@) =~= Seq::new(
            bytes@.len() / 2,
            |i: int|
                if brain {
                    brain_value(pair_at(bytes@, 2 * i))
                } else {
                    half_value(pair_at(bytes@, 2 * i))
                },
        ));
    }
    values
}

fn decode_bytes(bytes: &Vec<u8>) -> (values: Vec<u32>)
    ensures
        numbers(values@) == Seq::new(bytes@.len(), |i: int| e4m3_value(bytes@[i])),
{
    let mut values: Vec<u32> = Vec::new();
    let mut i: usize = 0;
    while i < bytes.len()
        invariant
            i <= bytes@.len(),
            values@.len() == i,
            forall|j: int| 0 <= j < i ==> #[trigger] values@[j] == e4m3_value(bytes@[j]),
        decreases bytes@.len() - i,
    {
        values.push(f8_e4m3fn_to_f32(bytes[i]));
        i = i + 1;
    }
    proof {
        assert(numbers(values@) =~= Seq::new(bytes@.len(), |i: int| e4m3_value(bytes@[i])));
    }
    values
}

/// A tensor that has been read.
#[derive(Clone, Debug, PartialEq, Eq)]
pub struct SafetensorsTensorData {
    pub metadata: SafetensorsTensorMetadata,
    pub bytes: Vec<u8>,
}

impl SafetensorsTensorData {
    /// The number of elements.
    pub fn element_count(&self) -> (count: usize)
        requires
            elements(self.metadata@.shape) is Some,
        ensures
            elements(self.metadata@.shape) == Some(count as nat),
    {
        match self.metadata.element_count() {
            Some(count) => count,
            None => 0,
        }
    }

    /// The number of bytes of an element.
    pub fn dtype_byte_width(&self) -> (width: usize)
        requires
            byte_width(self.metadata@.dtype) is Some,
        ensures
            byte_width(self.metadata@.dtype) == Some(width as nat),
    {
        match self.metadata.dtype_byte_width() {
            Some(width) => width,
            None => 0,
        }
    }

    /// The binary32 values of the elements, by their bits.
    pub fn decode_f32_values(&self) -> (values: Result<Vec<u32>, SafetensorsTensorDecodeError>)
        ensures
            match values {
                Ok(list) => decoded(self.metadata@.dtype, self.bytes@) == Ok::<
                    Seq<nat>,
                    DecodeFault,
                >(numbers(list@)),
                Err(e) => decoded(self.metadata@.dtype, self.bytes@) == Err::<
                    Seq<nat>,
                    DecodeFault,
                >(e@),
            },
    {
        let len: usize = self.bytes.len();
        let dtype = self.metadata.dtype.as_str();
        let ghost bytes = self.bytes@;
        let brain = same_text(dtype, "BF16");
        if same_text(dtype, "F32") {
            if len % 4 != 0 {
                return Err(
                    SafetensorsTensorDecodeError::InvalidByteLength {
                        dtype: dtype.to_owned(),
                        byte_len: len,
                    },
                );
            }
            Ok(decode_words(&self.bytes))
        } else if brain || same_text(dtype, "F16") {
            if len % 2 != 0 {
                return Err(
                    SafetensorsTensorDecodeError::InvalidByteLength {
                        dtype: dtype.to_owned(),
                        byte_len: len,
                    },
                );
            }
            let values = decode_pairs(&self.bytes, brain);
            proof {
                if brain {
                    assert(numbers(values@) =~= Seq::new(
                        bytes.len() / 2,
                        |i: int| brain_value(pair_at(bytes, 2 * i)),
                    ));
                } else {
                    assert(numbers(values@) =~= Seq::new(
                        bytes.len() / 2,
                        |i: int| half_value(pair_at(bytes, 2 * i)),
                    ));
                }
            }
            Ok(values)
        } else if same_text(dtype, "F8_E4M3") {
            Ok(decode_bytes(&self.bytes))
        } else {
            Err(SafetensorsTensorDecodeError::UnsupportedDtype { dtype: dtype.to_owned() })
        }
    }
}

} // verus!
