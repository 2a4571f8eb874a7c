//! What the tensors of a checkpoint promise: where they lie, how long they are, and which numbers their
//! bytes are.
use vstd::arithmetic::power2::pow2;
use vstd::prelude::*;

use crate::artifact_error::ModelArtifactError;
use crate::json::{Json, JsonNumber, JsonView};
use crate::safetensors::{
    expert_dtype_from, header_length, parse_tensor_metadata, product, safetensors_dtype_byte_width,
    shape_element_count, SafetensorsHeader, SafetensorsTensorMetadata, SafetensorsTensorSpan,
    TensorMetadata,
};
use crate::tensor_data::{
    bf16_to_f32, f16_to_f32, f8_e4m3fn_to_f32, fnv1a64_update, magnitude, magnitude32,
    widening_keeps_the_value, SafetensorsCheckpointFingerprintEntry, SafetensorsTensorData,
    SafetensorsTensorDecodeError,
};
use crate::tensor_names::expert_weight_name;
use crate::wire::le_value;

verus! {

/// An element takes one byte where its type has 8 bits, two where it has 16, four where it has 32 and
/// eight where it has 64; other types are not known.
pub proof fn elements_take_the_bytes_of_their_type(dtype: &str, width: Option<usize>)
    requires
        call_ensures(safetensors_dtype_byte_width, (dtype,), width),
    ensures
        dtype@ == "BOOL"@ || dtype@ == "I8"@ || dtype@ == "U8"@ || dtype@ == "F8_E4M3"@ || dtype@
            == "F8_E5M2"@ || dtype@ == "F8_E8M0"@ <==> width == Some(1usize),
        dtype@ == "I16"@ || dtype@ == "U16"@ || dtype@ == "F16"@ || dtype@ == "BF16"@ <==> width
            == Some(2usize),
        dtype@ == "I32"@ || dtype@ == "U32"@ || dtype@ == "F32"@ <==> width == Some(4usize),
        dtype@ == "I64"@ || dtype@ == "U64"@ || dtype@ == "F64"@ <==> width == Some(8usize),
{
    reveal_strlit("BOOL");
    reveal_strlit("I8");
    reveal_strlit("U8");
    reveal_strlit("F8_E4M3");
    reveal_strlit("F8_E5M2");
    reveal_strlit("F8_E8M0");
    reveal_strlit("I16");
    reveal_strlit("U16");
    reveal_strlit("F16");
    reveal_strlit("BF16");
    reveal_strlit("I32");
    reveal_strlit("U32");
    reveal_strlit("F32");
    reveal_strlit("I64");
    reveal_strlit("U64");
    reveal_strlit("F64");
    assert("BOOL"@.len() == 4 && "BF16"@.len() == 4 && "BOOL"@[1] == 'O' && "BF16"@[1] == 'F');
    assert("I16"@[1] == '1' && "U16"@[1] == '1' && "F16"@[1] == '1');
    assert("I32"@[1] == '3' && "U32"@[1] == '3' && "F32"@[1] == '3');
    assert("I64"@[1] == '6' && "U64"@[1] == '6' && "F64"@[1] == '6');
    assert("I8"@.len() == 2 && "U8"@.len() == 2);
    assert("I16"@.len() == 3 && "U16"@.len() == 3 && "F16"@.len() == 3);
    assert("I32"@.len() == 3 && "U32"@.len() == 3 && "F32"@.len() == 3);
    assert("I64"@.len() == 3 && "U64"@.len() == 3 && "F64"@.len() == 3);
    assert("F8_E4M3"@.len() == 7 && "F8_E5M2"@.len() == 7 && "F8_E8M0"@.len() == 7);
}

/// The product of the dimensions of a shape.
pub open spec fn volume(shape: Seq<usize>) -> int
    decreases shape.len(),
{
    if shape.len() == 0 {
        1
    } else {
        shape[0] * volume(shape.skip(1))
    }
}

proof fn lemma_volume(shape: Seq<usize>, n: nat)
    requires
        n <= shape.len(),
    ensures
        product(shape, n) == volume(shape.take(n as int)),
    decreases n,
{
    if n > 0 {
        lemma_volume(shape, (n - 1) as nat);
        lemma_volume_back(shape.take(n as int));
        assert(shape.take(n as int).drop_last() =~= shape.take(n - 1));
    } else {
        assert(shape.take(0) =~= Seq::empty());
    }
}

proof fn lemma_volume_back(shape: Seq<usize>)
    requires
        shape.len() > 0,
    ensures
        volume(shape) == volume(shape.drop_last()) * shape.last(),
    decreases shape.len(),
{
    if shape.len() == 1 {
        assert(shape.skip(1) =~= Seq::empty());
        assert(shape.drop_last() =~= Seq::empty());
        reveal_with_fuel(volume, 2);
        assert(volume(shape.skip(1)) == 1);
        assert(volume(shape.drop_last()) == 1);
        assert(shape[0] * 1 == shape[0]) by (nonlinear_arith);
        assert(1 * shape[0] == shape[0]) by (nonlinear_arith);
    } else {
        let rest = shape.skip(1);
        lemma_volume_back(rest);
        assert(rest.drop_last() =~= shape.drop_last().skip(1));
        assert(rest.last() == shape.last());
        assert(shape.drop_last()[0] == shape[0]);
        let a = shape[0] as int;
        let b = volume(rest.drop_last());
        let c = shape.last() as int;
        assert(a * (b * c) == a * b * c) by (nonlinear_arith);
    }
}

/// A shape has as many elements as the product of its dimensions; it has no number of elements only
/// where the product of some of its first dimensions does not fit.
pub proof fn shapes_have_the_product_of_their_dimensions(
    shape: Vec<usize>,
    count: Option<usize>,
    n: int,
)
    requires
        call_ensures(shape_element_count, (&shape,), count),
    ensures
        count matches Some(elements) ==> elements == volume(shape@),
        count is Some && 0 <= n <= shape@.len() ==> volume(shape@.take(n)) <= usize::MAX,
        count is None ==> exists|k: int|
            0 <= k <= shape@.len() && #[trigger] volume(shape@.take(k)) > usize::MAX,
{
    lemma_volume(shape@, shape@.len());
    assert(shape@.take(shape@.len() as int) =~= shape@);
    if count is Some && 0 <= n <= shape@.len() {
        lemma_volume(shape@, n as nat);
        assert(product(shape@, n as nat) <= usize::MAX);
    }
    if count is None {
        let k = choose|k: nat| k <= shape@.len() && #[trigger] product(shape@, k) > usize::MAX;
        lemma_volume(shape@, k);
        assert(volume(shape@.take(k as int)) > usize::MAX);
    }
}

/// The metadata of a tensor is that of its entry: the type, the dimensions in order, and where its data
/// begin and end.
pub proof fn metadata_are_those_of_the_entry(
    path: &str,
    name: &str,
    entry: Json,
    metadata: Result<SafetensorsTensorMetadata, ModelArtifactError>,
)
    requires
        call_ensures(parse_tensor_metadata, (path, name, &entry), metadata),
        metadata is Ok,
    ensures
        entry@.get("dtype"@) == Some(JsonView::Text(metadata->Ok_0.dtype@)),
        entry@.get("shape"@) matches Some(JsonView::Array(dimensions)) && dimensions.len()
            == metadata->Ok_0.shape@.len() && forall|i: int|
            0 <= i < dimensions.len() ==> #[trigger] dimensions[i] == JsonView::Number(
                JsonNumber::Unsigned(metadata->Ok_0.shape@[i] as u64),
            ),
        entry@.get("data_offsets"@) matches Some(JsonView::Array(offsets)) && offsets.len() == 2
            && offsets[0] == JsonView::Number(
            JsonNumber::Unsigned(metadata->Ok_0.data_offsets@[0] as u64),
        ) && offsets[1] == JsonView::Number(
            JsonNumber::Unsigned(metadata->Ok_0.data_offsets@[1] as u64),
        ),
{
    let dimensions = entry@.get("shape"@)->0.as_items()->0;
    let offsets = entry@.get("data_offsets"@)->0.as_items()->0;
    assert forall|i: int| 0 <= i < dimensions.len() implies #[trigger] dimensions[i]
        == JsonView::Number(JsonNumber::Unsigned(metadata->Ok_0.shape@[i] as u64)) by {
        assert(crate::safetensors::is_usize(dimensions[i]));
    }
    assert(crate::safetensors::is_usize(offsets[0]));
    assert(crate::safetensors::is_usize(offsets[1]));
}

/// A header begins with its length in eight bytes, the lowest first.
pub proof fn headers_begin_with_their_length(
    path: &str,
    prefix: &[u8],
    len: Result<usize, ModelArtifactError>,
)
    requires
        call_ensures(header_length, (path, prefix), len),
        prefix@.len() == 8,
        len is Ok,
    ensures
        len->Ok_0 == prefix@[0] + prefix@[1] * 0x100 + prefix@[2] * 0x1_0000 + prefix@[3]
            * 0x100_0000 + (prefix@[4] + prefix@[5] * 0x100 + prefix@[6] * 0x1_0000 + prefix@[7]
            * 0x100_0000) * 0x1_0000_0000,
{
    lemma_le8(prefix@);
}

proof fn lemma_le4(bytes: Seq<u8>)
    requires
        bytes.len() == 4,
    ensures
        le_value(bytes) == bytes[0] + bytes[1] * 0x100 + bytes[2] * 0x1_0000 + bytes[3]
            * 0x100_0000,
{
    reveal_with_fuel(le_value, 5);
    let a = bytes.skip(1);
    let b = a.skip(1);
    let c = b.skip(1);
    assert(a[0] == bytes[1]);
    assert(b[0] == bytes[2]);
    assert(c[0] == bytes[3]);
    assert(c.skip(1).len() == 0);
}

proof fn lemma_le8(bytes: Seq<u8>)
    requires
        bytes.len() == 8,
    ensures
        le_value(bytes) == bytes[0] + bytes[1] * 0x100 + bytes[2] * 0x1_0000 + bytes[3]
            * 0x100_0000 + (bytes[4] + bytes[5] * 0x100 + bytes[6] * 0x1_0000 + bytes[7]
            * 0x100_0000) * 0x1_0000_0000,
{
    let a = bytes.skip(1);
    let b = a.skip(1);
    let c = b.skip(1);
    let d = c.skip(1);
    assert(a[0] == bytes[1]);
    assert(b[0] == bytes[2]);
    assert(c[0] == bytes[3]);
    assert(d.len() == 4);
    assert(d[0] == bytes[4] && d[1] == bytes[5] && d[2] == bytes[6] && d[3] == bytes[7]);
    lemma_le4(d);
    assert(le_value(c) == c[0] + 256 * le_value(d));
    assert(le_value(b) == b[0] + 256 * le_value(c));
    assert(le_value(a) == a[0] + 256 * le_value(b));
}

/// A tensor lies behind the eight bytes of the length and the header, at the offset of its metadata, has
/// as many bytes as its metadata say, and ends within the file.
pub proof fn tensors_lie_behind_the_header(
    header: SafetensorsHeader,
    path: &str,
    name: &str,
    file_len: u64,
    metadata: Option<SafetensorsTensorMetadata>,
    span: Result<Option<SafetensorsTensorSpan>, ModelArtifactError>,
)
    requires
        header.wf(),
        call_ensures(SafetensorsHeader::tensor_metadata, (&header, name), metadata),
        call_ensures(
            SafetensorsHeader::tensor_span,
            (&header, path, name, &Ok::<u64, String>(file_len)),
            span,
        ),
    ensures
        span matches Ok(None) <==> metadata is None,
        span matches Ok(Some(found)) ==> {
            let data = metadata->0;
            &&& found.path@ == path@
            &&& found.metadata.dtype@ == data.dtype@
            &&& found.metadata.shape@ == data.shape@
            &&& found.absolute_byte_offset == 8 + header@.header_len + data.data_offsets@[0]
            &&& found.byte_len == data.data_offsets@[1] - data.data_offsets@[0]
            &&& found.absolute_byte_offset + found.byte_len <= file_len
        },
{
}

/// A bfloat16 number is the upper half of the binary32 number of the same value.
pub proof fn brain_numbers_are_upper_halves(bits: u16, value: u32)
    requires
        call_ensures(bf16_to_f32, (bits,), value),
    ensures
        value / 0x1_0000 == bits,
        value % 0x1_0000 == 0,
{
}

/// A binary16 number keeps its sign and its value. Infinities stay infinities, and what is no number
/// stays none.
pub proof fn half_numbers_keep_their_value(bits: u16, value: u32)
    requires
        call_ensures(f16_to_f32, (bits,), value),
    ensures
        ({
            let sign = (bits / 0x8000) as nat;
            let exponent = (bits / 0x400 % 0x20) as nat;
            let fraction = (bits % 0x400) as nat;
            &&& exponent < 31 ==> value / 0x8000_0000 == sign && magnitude32(value as nat)
                == magnitude(exponent, fraction, 10) * pow2(125)
            &&& exponent == 31 && fraction == 0 ==> value == sign * 0x8000_0000 + 0x7f80_0000
            &&& exponent == 31 && fraction > 0 ==> value == 0x7fc0_0000
        }),
{
    let sign = (bits / 0x8000) as nat;
    let exponent = (bits / 0x400 % 0x20) as nat;
    let fraction = (bits % 0x400) as nat;
    vstd::arithmetic::power2::lemma2_to64();
    if exponent < 31 {
        widening_keeps_the_value(sign, exponent, fraction, 10, 15);
    }
}

/// An 8 bit number with four bits of exponent keeps its sign and its value, but for the one that is no
/// number.
pub proof fn eighth_numbers_keep_their_value(bits: u8, value: u32)
    requires
        call_ensures(f8_e4m3fn_to_f32, (bits,), value),
    ensures
        ({
            let sign = (bits / 0x80) as nat;
            let exponent = (bits / 8 % 0x10) as nat;
            let fraction = (bits % 8) as nat;
            &&& exponent < 15 || fraction < 7 ==> value / 0x8000_0000 == sign && magnitude32(
                value as nat,
            ) == magnitude(exponent, fraction, 3) * pow2(140)
            &&& exponent == 15 && fraction == 7 ==> value == 0x7fc0_0000
        }),
{
    let sign = (bits / 0x80) as nat;
    let exponent = (bits / 8 % 0x10) as nat;
    let fraction = (bits % 8) as nat;
    vstd::arithmetic::power2::lemma2_to64();
    if exponent < 15 || fraction < 7 {
        widening_keeps_the_value(sign, exponent, fraction, 3, 7);
    }
}

/// A tensor is read as one number for every four, two or one bytes of its type, in order, each from its
/// own bytes with the lowest first.
pub proof fn tensors_are_read_in_order(
    data: SafetensorsTensorData,
    values: Result<Vec<u32>, SafetensorsTensorDecodeError>,
    i: int,
    half: u16,
    brain_value: u32,
    half_value: u32,
    eighth_value: u32,
)
    requires
        call_ensures(SafetensorsTensorData::decode_f32_values, (&data,), values),
        call_ensures(bf16_to_f32, (half,), brain_value),
        call_ensures(f16_to_f32, (half,), half_value),
        0 <= i,
        2 * i + 1 < data.bytes@.len() ==> half == data.bytes@[2 * i] + 0x100 * data.bytes@[2 * i
            + 1],
        i < data.bytes@.len() ==> call_ensures(
            f8_e4m3fn_to_f32,
            (data.bytes@[i],),
            eighth_value,
        ),
    ensures
        data.metadata.dtype@ == "F32"@ ==> (values is Ok <==> data.bytes@.len() % 4 == 0),
        data.metadata.dtype@ == "BF16"@ || data.metadata.dtype@ == "F16"@ ==> (values is Ok
            <==> data.bytes@.len() % 2 == 0),
        data.metadata.dtype@ == "F8_E4M3"@ ==> values is Ok,
        values matches Ok(list) ==> {
            &&& data.metadata.dtype@ == "F32"@ ==> 4 * list@.len() == data.bytes@.len() && (i
                < list@.len() ==> list@[i] == data.bytes@[4 * i] + data.bytes@[4 * i + 1] * 0x100
                + data.bytes@[4 * i + 2] * 0x1_0000 + data.bytes@[4 * i + 3] * 0x100_0000)
            &&& data.metadata.dtype@ == "BF16"@ ==> 2 * list@.len() == data.bytes@.len() && (i
                < list@.len() ==> list@[i] == brain_value)
            &&& data.metadata.dtype@ == "F16"@ ==> 2 * list@.len() == data.bytes@.len() && (i
                < list@.len() ==> list@[i] == half_value)
            &&& data.metadata.dtype@ == "F8_E4M3"@ ==> list@.len() == data.bytes@.len() && (i
                < list@.len() ==> list@[i] == eighth_value)
        },
{
    reveal_strlit("F32");
    reveal_strlit("BF16");
    reveal_strlit("F16");
    reveal_strlit("F8_E4M3");
    assert("F32"@.len() == 3 && "F16"@.len() == 3 && "F32"@[1] == '3' && "F16"@[1] == '1');
    assert("BF16"@.len() == 4 && "F8_E4M3"@.len() == 7);
    if let Ok(list) = values {
        let all = crate::tensor_data::numbers(list@);
        assert(all.len() == list@.len());
        if i < list@.len() {
            assert(all[i] == list@[i] as nat);
            if data.metadata.dtype@ == "F32"@ {
                let word = data.bytes@.subrange(4 * i, 4 * i + 4);
                lemma_le4(word);
                assert(word[0] == data.bytes@[4 * i]);
                assert(word[1] == data.bytes@[4 * i + 1]);
                assert(word[2] == data.bytes@[4 * i + 2]);
                assert(word[3] == data.bytes@[4 * i + 3]);
            }
        }
    }
}

/// The checksum of no bytes is the one it began with. One byte more mixes the byte into the lowest byte
/// and multiplies by the prime of the checksum.
pub proof fn checksums_take_byte_by_byte(
    checksum: u64,
    bytes: &[u8],
    more: &[u8],
    byte: u8,
    before: u64,
    after: u64,
)
    requires
        call_ensures(fnv1a64_update, (checksum, bytes), before),
        call_ensures(fnv1a64_update, (checksum, more), after),
        more@ == bytes@.push(byte),
    ensures
        bytes@.len() == 0 ==> before == checksum,
        after as int == (before ^ (byte as u64)) * 1_099_511_628_211 % 0x1_0000_0000_0000_0000,
{
    assert(more@.drop_last() =~= bytes@);
}

/// The fingerprint of a tensor tells the name, file, type, shape, place, length and checksum that it was
/// made from.
pub proof fn fingerprints_tell_their_tensor(
    tensor_name: String,
    span: SafetensorsTensorSpan,
    checksum: u64,
    entry: SafetensorsCheckpointFingerprintEntry,
)
    requires
        call_ensures(
            SafetensorsCheckpointFingerprintEntry::from_span,
            (tensor_name, span, checksum),
            entry,
        ),
    ensures
        entry@.tensor_name == tensor_name@,
        entry@.path == span@.path,
        entry@.dtype == span@.metadata.dtype,
        entry@.shape == span@.metadata.shape,
        entry@.absolute_byte_offset == span@.absolute_byte_offset,
        entry@.byte_len == span@.byte_len,
        entry@.fnv1a64 == checksum,
{
}

/// The first weight of an expert from a place on is where its type was found.
proof fn lemma_expert_type(tensors: Seq<(Seq<char>, TensorMetadata)>, from: nat, k: int)
    requires
        from <= k < tensors.len(),
        expert_weight_name(tensors[k].0) is Some,
        forall|j: int| from <= j < k ==> expert_weight_name((#[trigger] tensors[j]).0) is None,
    ensures
        expert_dtype_from(tensors, from) == Some(tensors[k].1.dtype),
    decreases k - from,
{
    if from < k {
        assert(expert_weight_name(tensors[from as int].0) is None);
        lemma_expert_type(tensors, from + 1, k);
    }
}

/// The type of the experts of a header is that of its first expert weight.
pub proof fn expert_types_come_from_the_first_weight(
    header: SafetensorsHeader,
    dtype: Option<String>,
    k: int,
)
    requires
        call_ensures(SafetensorsHeader::routed_expert_weight_dtype, (&header,), dtype),
        0 <= k < header@.tensors.len(),
        expert_weight_name(header@.tensors[k].0) is Some,
        forall|j: int|
            0 <= j < k ==> expert_weight_name((#[trigger] header@.tensors[j]).0) is None,
    ensures
        dtype matches Some(text) && text@ == header@.tensors[k].1.dtype,
{
    lemma_expert_type(header@.tensors, 0, k);
}

} // verus!
