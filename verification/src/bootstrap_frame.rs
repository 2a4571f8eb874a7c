//! The fields of bootstrap messages between prefill and decode servers.
//!
//! A message is a list of byte fields. Text and numerals are UTF-8; number lists are packed
//! little-endian.
use vstd::prelude::*;
use vstd::string::*;
use vstd::utf8::*;

use crate::text;
use crate::text::{bounded, bounded_i32, cat2, decimal, decimal_usize, signed_value, unsigned_value};
use crate::wire::{
    bytes_i32, bytes_u32, bytes_u64, read_le, seqs, split_list, unpacked_list, ListFault,
};

verus! {

/// Why a bootstrap message was rejected.
#[derive(Clone, Debug, PartialEq, Eq)]
pub enum MooncakeBootstrapFrameError {
    MissingField { frame: &'static str, expected: usize, actual: usize },
    Utf8Field { field: &'static str },
    IntegerField { field: &'static str, value: String },
    BinaryLength { field: &'static str, width: usize, actual: usize },
    PackedListHeader { field: &'static str },
    PackedListLength { field: &'static str },
}

/// What a [`MooncakeBootstrapFrameError`] says.
pub enum FrameFault {
    MissingField { frame: Seq<char>, expected: nat, actual: nat },
    Utf8Field { field: Seq<char> },
    IntegerField { field: Seq<char>, value: Seq<char> },
    BinaryLength { field: Seq<char>, width: nat, actual: nat },
    PackedListHeader { field: Seq<char> },
    PackedListLength { field: Seq<char> },
}

impl View for MooncakeBootstrapFrameError {
    type V = FrameFault;

    open spec fn view(&self) -> FrameFault {
        match *self {
            MooncakeBootstrapFrameError::MissingField { frame, expected, actual } =>
                FrameFault::MissingField {
                    frame: frame@,
                    expected: expected as nat,
                    actual: actual as nat,
                },
            MooncakeBootstrapFrameError::Utf8Field { field } => FrameFault::Utf8Field {
                field: field@,
            },
            MooncakeBootstrapFrameError::IntegerField { field, value } =>
                FrameFault::IntegerField { field: field@, value: value@ },
            MooncakeBootstrapFrameError::BinaryLength { field, width, actual } =>
                FrameFault::BinaryLength {
                    field: field@,
                    width: width as nat,
                    actual: actual as nat,
                },
            MooncakeBootstrapFrameError::PackedListHeader { field } =>
                FrameFault::PackedListHeader { field: field@ },
            MooncakeBootstrapFrameError::PackedListLength { field } =>
                FrameFault::PackedListLength { field: field@ },
        }
    }
}

/// The message that a rejected frame is reported with.
pub open spec fn frame_fault_message(fault: FrameFault) -> Seq<char> {
    match fault {
        FrameFault::MissingField { frame, expected, actual } => frame
            + " frame requires at least "@ + decimal(expected) + " fields, got "@ + decimal(actual),
        FrameFault::Utf8Field { field } => field + " must be ASCII/UTF-8"@,
        FrameFault::IntegerField { field, value } => field + " must be an integer, got "@ + value,
        FrameFault::BinaryLength { field, width, actual } => field + " byte length "@ + decimal(
            actual,
        ) + " must be divisible by "@ + decimal(width),
        FrameFault::PackedListHeader { field } => field + " packed list header is incomplete"@,
        FrameFault::PackedListLength { field } => field + " packed list payload is incomplete"@,
    }
}

impl MooncakeBootstrapFrameError {
    /// The message that a rejected frame is reported with.
    pub fn to_string(&self) -> (message: String)
        ensures
            message@ == frame_fault_message(self@),
    {
        match self {
            MooncakeBootstrapFrameError::MissingField { frame, expected, actual } => text::cat5(
                frame,
                " frame requires at least ",
                decimal_usize(*expected).as_str(),
                " fields, got ",
                decimal_usize(*actual).as_str(),
            ),
            MooncakeBootstrapFrameError::Utf8Field { field } => cat2(
                field,
                " must be ASCII/UTF-8",
            ),
            MooncakeBootstrapFrameError::IntegerField { field, value } => text::cat3(
                field,
                " must be an integer, got ",
                value.as_str(),
            ),
            MooncakeBootstrapFrameError::BinaryLength { field, width, actual } => text::cat5(
                field,
                " byte length ",
                decimal_usize(*actual).as_str(),
                " must be divisible by ",
                decimal_usize(*width).as_str(),
            ),
            MooncakeBootstrapFrameError::PackedListHeader { field } => cat2(
                field,
                " packed list header is incomplete",
            ),
            MooncakeBootstrapFrameError::PackedListLength { field } => cat2(
                field,
                " packed list payload is incomplete",
            ),
        }
    }
}

/// The fault that a result reports.
pub open spec fn fault_of<T>(result: Result<T, FrameFault>) -> Option<FrameFault> {
    match result {
        Ok(_) => None,
        Err(fault) => Some(fault),
    }
}

/// The first of two faults.
pub open spec fn first(a: Option<FrameFault>, b: Option<FrameFault>) -> Option<FrameFault> {
    if a is Some {
        a
    } else {
        b
    }
}

/// The fault of a message with fewer than `expected` fields.
pub open spec fn too_few_fields(frame: Seq<Seq<u8>>, expected: nat, name: Seq<char>) -> Option<
    FrameFault,
> {
    if frame.len() < expected {
        Some(FrameFault::MissingField { frame: name, expected, actual: frame.len() })
    } else {
        None
    }
}

/// The bytes of a field.
pub open spec fn bytes_in(frame: Seq<Seq<u8>>, index: nat, name: Seq<char>) -> Result<
    Seq<u8>,
    FrameFault,
> {
    if index < frame.len() {
        Ok(frame[index as int])
    } else {
        Err(FrameFault::MissingField { frame: name, expected: index + 1, actual: frame.len() })
    }
}

/// The text of a field.
pub open spec fn text_in(frame: Seq<Seq<u8>>, index: nat, name: Seq<char>) -> Result<
    Seq<char>,
    FrameFault,
> {
    match bytes_in(frame, index, name) {
        Ok(bytes) => if valid_utf8(bytes) {
            Ok(decode_utf8(bytes))
        } else {
            Err(FrameFault::Utf8Field { field: name })
        },
        Err(fault) => Err(fault),
    }
}

/// The number of at most `max` whose numeral a field holds.
pub open spec fn number_in(
    frame: Seq<Seq<u8>>,
    index: nat,
    name: Seq<char>,
    max: nat,
) -> Result<nat, FrameFault> {
    match text_in(frame, index, name) {
        Ok(value) => match bounded(unsigned_value(value), max) {
            Some(n) => Ok(n),
            None => Err(FrameFault::IntegerField { field: name, value }),
        },
        Err(fault) => Err(fault),
    }
}

/// The signed 32-bit number whose numeral a field holds.
pub open spec fn integer_in(frame: Seq<Seq<u8>>, index: nat, name: Seq<char>) -> Result<
    int,
    FrameFault,
> {
    match text_in(frame, index, name) {
        Ok(value) => match bounded_i32(signed_value(value)) {
            Some(n) => Ok(n),
            None => Err(FrameFault::IntegerField { field: name, value }),
        },
        Err(fault) => Err(fault),
    }
}

/// The size whose numeral a field holds; a missing or empty field holds none.
pub open spec fn optional_number_in(frame: Seq<Seq<u8>>, index: nat, name: Seq<char>) -> Result<
    Option<nat>,
    FrameFault,
> {
    if index >= frame.len() || frame[index as int].len() == 0 {
        Ok(None)
    } else {
        match number_in(frame, index, name, usize::MAX as nat) {
            Ok(n) => Ok(Some(n)),
            Err(fault) => Err(fault),
        }
    }
}

/// The fault of bytes that are not a whole number of `width`-byte values.
pub open spec fn width_fault(bytes: Seq<u8>, width: nat, name: Seq<char>) -> Option<FrameFault> {
    if bytes.len() % width != 0 {
        Some(FrameFault::BinaryLength { field: name, width, actual: bytes.len() })
    } else {
        None
    }
}

/// The 64-bit numbers packed in `bytes`.
pub open spec fn u64s_in(bytes: Seq<u8>) -> Result<Seq<u64>, FrameFault> {
    match width_fault(bytes, 8, "u64 values"@) {
        None => Ok(bytes_u64(bytes)),
        Some(fault) => Err(fault),
    }
}

/// The 32-bit numbers packed in `bytes`.
pub open spec fn u32s_in(bytes: Seq<u8>) -> Result<Seq<u32>, FrameFault> {
    match width_fault(bytes, 4, "u32 values"@) {
        None => Ok(bytes_u32(bytes)),
        Some(fault) => Err(fault),
    }
}

/// The signed 32-bit numbers packed in `bytes`.
pub open spec fn i32s_in(bytes: Seq<u8>) -> Result<Seq<i32>, FrameFault> {
    match width_fault(bytes, 4, "i32 values"@) {
        None => Ok(bytes_i32(bytes)),
        Some(fault) => Err(fault),
    }
}

/// The buffers packed in `bytes`.
pub open spec fn buffers_in(bytes: Seq<u8>, name: Seq<char>) -> Result<Seq<Seq<u8>>, FrameFault> {
    match unpacked_list(bytes) {
        Ok(buffers) => Ok(buffers),
        Err(ListFault::Header) => Err(FrameFault::PackedListHeader { field: name }),
        Err(ListFault::Payload) => Err(FrameFault::PackedListLength { field: name }),
    }
}

/// The first fault among the buffers, read by `read`.
pub open spec fn first_fault_in<T>(
    buffers: Seq<Seq<u8>>,
    read: spec_fn(Seq<u8>) -> Result<T, FrameFault>,
) -> Option<FrameFault>
    decreases buffers.len(),
{
    if buffers.len() == 0 {
        None
    } else {
        first(first_fault_in(buffers.drop_last(), read), fault_of(read(buffers.last())))
    }
}

/// What each of the buffers packed in `bytes` holds, read by `read`.
pub open spec fn lists_in<T>(
    bytes: Seq<u8>,
    name: Seq<char>,
    read: spec_fn(Seq<u8>) -> Result<Seq<T>, FrameFault>,
) -> Result<Seq<Seq<T>>, FrameFault> {
    match buffers_in(bytes, name) {
        Ok(buffers) => match first_fault_in(buffers, read) {
            None => Ok(buffers.map_values(|buffer: Seq<u8>| read(buffer)->Ok_0)),
            Some(fault) => Err(fault),
        },
        Err(fault) => Err(fault),
    }
}

/// The lists of 64-bit numbers packed in `bytes`.
pub open spec fn u64_lists_in(bytes: Seq<u8>) -> Result<Seq<Seq<u64>>, FrameFault> {
    lists_in(bytes, "u64 lists"@, |buffer: Seq<u8>| u64s_in(buffer))
}

/// The lists of 32-bit numbers packed in `bytes`.
pub open spec fn u32_lists_in(bytes: Seq<u8>) -> Result<Seq<Seq<u32>>, FrameFault> {
    lists_in(bytes, "u32 lists"@, |buffer: Seq<u8>| u32s_in(buffer))
}

/// The lists of signed 32-bit numbers packed in `bytes`.
pub open spec fn i32_lists_in(bytes: Seq<u8>) -> Result<Seq<Seq<i32>>, FrameFault> {
    lists_in(bytes, "i32 lists"@, |buffer: Seq<u8>| i32s_in(buffer))
}

/// The lists of 32-bit numbers packed in a field; a missing field holds none.
pub open spec fn optional_u32_lists_in(frame: Seq<Seq<u8>>, index: nat) -> Result<
    Seq<Seq<u32>>,
    FrameFault,
> {
    if index < frame.len() {
        u32_lists_in(frame[index as int])
    } else {
        Ok(Seq::empty())
    }
}

/// std's `str::from_utf8`: the text that the bytes encode, where they are valid UTF-8.
#[verifier::external_body]
fn utf8_text(bytes: &[u8]) -> (text: Option<&str>)
    ensures
        match text {
            Some(s) => valid_utf8(bytes@) && s@ == decode_utf8(bytes@),
            None => !valid_utf8(bytes@),
        },
{
    std::str::from_utf8(bytes).ok()
}

/// Checks that a message has at least `expected` fields.
pub fn require_min_fields(
    frame: &[Vec<u8>],
    expected: usize,
    frame_name: &'static str,
) -> (checked: Result<(), MooncakeBootstrapFrameError>)
    ensures
        match checked {
            Ok(_) => too_few_fields(seqs(frame@), expected as nat, frame_name@) is None,
            Err(error) => too_few_fields(seqs(frame@), expected as nat, frame_name@) == Some(
                error@,
            ),
        },
{
    if frame.len() < expected {
        return Err(
            MooncakeBootstrapFrameError::MissingField {
                frame: frame_name,
                expected,
                actual: frame.len(),
            },
        );
    }
    Ok(())
}

/// The bytes of a field.
pub fn field<'a>(frame: &'a [Vec<u8>], index: usize, name: &'static str) -> (bytes: Result<
    &'a Vec<u8>,
    MooncakeBootstrapFrameError,
>)
    requires
        index < usize::MAX,
    ensures
        match bytes {
            Ok(b) => bytes_in(seqs(frame@), index as nat, name@) == Ok::<Seq<u8>, FrameFault>(b@),
            Err(error) => bytes_in(seqs(frame@), index as nat, name@) == Err::<
                Seq<u8>,
                FrameFault,
            >(error@),
        },
{
    if index < frame.len() {
        Ok(&frame[index])
    } else {
        Err(
            MooncakeBootstrapFrameError::MissingField {
                frame: name,
                expected: index + 1,
                actual: frame.len(),
            },
        )
    }
}

/// The text of a field.
pub fn ascii_field<'a>(frame: &'a [Vec<u8>], index: usize, name: &'static str) -> (text: Result<
    &'a str,
    MooncakeBootstrapFrameError,
>)
    requires
        index < usize::MAX,
    ensures
        match text {
            Ok(s) => text_in(seqs(frame@), index as nat, name@) == Ok::<Seq<char>, FrameFault>(s@),
            Err(error) => text_in(seqs(frame@), index as nat, name@) == Err::<
                Seq<char>,
                FrameFault,
            >(error@),
        },
{
    let bytes = field(frame, index, name)?;
    match utf8_text(bytes.as_slice()) {
        Some(s) => Ok(s),
        None => Err(MooncakeBootstrapFrameError::Utf8Field { field: name }),
    }
}

/// The signed number whose numeral a field holds.
pub fn parse_i32(frame: &[Vec<u8>], index: usize, name: &'static str) -> (number: Result<
    i32,
    MooncakeBootstrapFrameError,
>)
    requires
        index < usize::MAX,
    ensures
        match number {
            Ok(n) => integer_in(seqs(frame@), index as nat, name@) == Ok::<int, FrameFault>(
                n as int,
            ),
            Err(error) => integer_in(seqs(frame@), index as nat, name@) == Err::<int, FrameFault>(
                error@,
            ),
        },
{
    let value = ascii_field(frame, index, name)?;
    match text::parse_i32(value) {
        Some(n) => Ok(n),
        None => Err(
            MooncakeBootstrapFrameError::IntegerField { field: name, value: value.to_owned() },
        ),
    }
}

/// The number of at most `max` whose numeral a field holds.
fn parse_number(frame: &[Vec<u8>], index: usize, name: &'static str, max: u64) -> (number: Result<
    u64,
    MooncakeBootstrapFrameError,
>)
    requires
        index < usize::MAX,
    ensures
        match number {
            Ok(n) => n <= max && number_in(seqs(frame@), index as nat, name@, max as nat) == Ok::<
                nat,
                FrameFault,
            >(n as nat),
            Err(error) => number_in(seqs(frame@), index as nat, name@, max as nat) == Err::<
                nat,
                FrameFault,
            >(error@),
        },
{
    let value = ascii_field(frame, index, name)?;
    match text::parse_unsigned(value, max) {
        Some(n) => Ok(n),
        None => Err(
            MooncakeBootstrapFrameError::IntegerField { field: name, value: value.to_owned() },
        ),
    }
}

/// The room number in a field: a numeral of at most 63 bits.
pub fn parse_bootstrap_room(frame: &[Vec<u8>], index: usize, name: &'static str) -> (room: Result<
    u64,
    MooncakeBootstrapFrameError,
>)
    requires
        index < usize::MAX,
    ensures
        match room {
            Ok(n) => number_in(seqs(frame@), index as nat, name@, i64::MAX as nat) == Ok::<
                nat,
                FrameFault,
            >(n as nat),
            Err(error) => number_in(seqs(frame@), index as nat, name@, i64::MAX as nat) == Err::<
                nat,
                FrameFault,
            >(error@),
        },
{
    parse_number(frame, index, name, 0x7fff_ffff_ffff_ffff)
}

/// The port number in a field.
pub fn parse_u16(frame: &[Vec<u8>], index: usize, name: &'static str) -> (port: Result<
    u16,
    MooncakeBootstrapFrameError,
>)
    requires
        index < usize::MAX,
    ensures
        match port {
            Ok(n) => number_in(seqs(frame@), index as nat, name@, 0xffff) == Ok::<nat, FrameFault>(
                n as nat,
            ),
            Err(error) => number_in(seqs(frame@), index as nat, name@, 0xffff) == Err::<
                nat,
                FrameFault,
            >(error@),
        },
{
    let n: u64 = parse_number(frame, index, name, 0xffff)?;
    Ok(n as u16)
}

/// The size in a field.
pub fn parse_usize(frame: &[Vec<u8>], index: usize, name: &'static str) -> (size: Result<
    usize,
    MooncakeBootstrapFrameError,
>)
    requires
        index < usize::MAX,
    ensures
        match size {
            Ok(n) => number_in(seqs(frame@), index as nat, name@, usize::MAX as nat) == Ok::<
                nat,
                FrameFault,
            >(n as nat),
            Err(error) => number_in(seqs(frame@), index as nat, name@, usize::MAX as nat) == Err::<
                nat,
                FrameFault,
            >(error@),
        },
{
    let n: u64 = parse_number(frame, index, name, usize::MAX as u64)?;
    Ok(n as usize)
}

/// The size in a field that may be missing or empty.
pub fn optional_usize(frame: &[Vec<u8>], index: usize, name: &'static str) -> (size: Result<
    Option<usize>,
    MooncakeBootstrapFrameError,
>)
    requires
        index < usize::MAX,
    ensures
        match size {
            Ok(Some(n)) => optional_number_in(seqs(frame@), index as nat, name@) == Ok::<
                Option<nat>,
                FrameFault,
            >(Some(n as nat)),
            Ok(None) => optional_number_in(seqs(frame@), index as nat, name@) == Ok::<
                Option<nat>,
                FrameFault,
            >(None),
            Err(error) => optional_number_in(seqs(frame@), index as nat, name@) == Err::<
                Option<nat>,
                FrameFault,
            >(error@),
        },
{
    if index >= frame.len() {
        return Ok(None);
    }
    if frame[index].len() == 0 {
        return Ok(None);
    }
    let n: usize = parse_usize(frame, index, name)?;
    Ok(Some(n))
}

/// Unpacks 64-bit numbers.
pub fn unpack_u64s(bytes: &[u8]) -> (values: Result<Vec<u64>, MooncakeBootstrapFrameError>)
    ensures
        match values {
            Ok(v) => u64s_in(bytes@) == Ok::<Seq<u64>, FrameFault>(v@),
            Err(error) => u64s_in(bytes@) == Err::<Seq<u64>, FrameFault>(error@),
        },
{
    if bytes.len() % 8 != 0 {
        return Err(
            MooncakeBootstrapFrameError::BinaryLength {
                field: "u64 values",
                width: 8,
                actual: bytes.len(),
            },
        );
    }
    let count: usize = bytes.len() / 8;
    let mut values: Vec<u64> = Vec::new();
    let mut i: usize = 0;
    while i < count
        invariant
            i <= count,
            count * 8 == bytes@.len(),
            bytes@.len() <= usize::MAX,
            values@ == bytes_u64(bytes@).take(i as int),
        decreases count - i,
    {
        let n: u64 = read_le(bytes, i * 8, 8);
        proof {
            assert(bytes_u64(bytes@)[i as int] == n);
            assert(bytes_u64(bytes@).take(i + 1) =~= bytes_u64(bytes@).take(i as int).push(n));
        }
        values.push(n);
        i = i + 1;
    }
    proof {
        assert(bytes_u64(bytes@).take(i as int) =~= bytes_u64(bytes@));
    }
    Ok(values)
}

/// Unpacks 32-bit numbers.
pub fn unpack_u32s(bytes: &[u8]) -> (values: Result<Vec<u32>, MooncakeBootstrapFrameError>)
    ensures
        match values {
            Ok(v) => u32s_in(bytes@) == Ok::<Seq<u32>, FrameFault>(v@),
            Err(error) => u32s_in(bytes@) == Err::<Seq<u32>, FrameFault>(error@),
        },
{
    if bytes.len() % 4 != 0 {
        return Err(
            MooncakeBootstrapFrameError::BinaryLength {
                field: "u32 values",
                width: 4,
                actual: bytes.len(),
            },
        );
    }
    let count: usize = bytes.len() / 4;
    let mut values: Vec<u32> = Vec::new();
    let mut i: usize = 0;
    while i < count
        invariant
            i <= count,
            count * 4 == bytes@.len(),
            bytes@.len() <= usize::MAX,
            values@ == bytes_u32(bytes@).take(i as int),
        decreases count - i,
    {
        let n: u64 = read_le(bytes, i * 4, 4);
        proof {
            crate::wire::pow256_of_four();
            assert(bytes_u32(bytes@)[i as int] == n as u32);
            assert(bytes_u32(bytes@).take(i + 1) =~= bytes_u32(bytes@).take(i as int).push(
                n as u32,
            ));
        }
        values.push(n as u32);
        i = i + 1;
    }
    proof {
        assert(bytes_u32(bytes@).take(i as int) =~= bytes_u32(bytes@));
    }
    Ok(values)
}

/// Unpacks signed 32-bit numbers.
pub fn unpack_i32s(bytes: &[u8]) -> (values: Result<Vec<i32>, MooncakeBootstrapFrameError>)
    ensures
        match values {
            Ok(v) => i32s_in(bytes@) == Ok::<Seq<i32>, FrameFault>(v@),
            Err(error) => i32s_in(bytes@) == Err::<Seq<i32>, FrameFault>(error@),
        },
{
    if bytes.len() % 4 != 0 {
        return Err(
            MooncakeBootstrapFrameError::BinaryLength {
                field: "i32 values",
                width: 4,
                actual: bytes.len(),
            },
        );
    }
    let count: usize = bytes.len() / 4;
    let mut values: Vec<i32> = Vec::new();
    let mut i: usize = 0;
    while i < count
        invariant
            i <= count,
            count * 4 == bytes@.len(),
            bytes@.len() <= usize::MAX,
            values@ == bytes_i32(bytes@).take(i as int),
        decreases count - i,
    {
        let bits: u64 = read_le(bytes, i * 4, 4);
        proof {
            crate::wire::pow256_of_four();
        }
        let n: i32 = if bits >= 0x8000_0000 {
            (bits as i64 - 0x1_0000_0000) as i32
        } else {
            bits as i32
        };
        proof {
            assert(bytes_i32(bytes@)[i as int] == n);
            assert(bytes_i32(bytes@).take(i + 1) =~= bytes_i32(bytes@).take(i as int).push(n));
        }
        values.push(n);
        i = i + 1;
    }
    proof {
        assert(bytes_i32(bytes@).take(i as int) =~= bytes_i32(bytes@));
    }
    Ok(values)
}

/// Splits a packed list into its buffers.
pub fn unpack_list_of_buffers(bytes: &[u8], name: &'static str) -> (buffers: Result<
    Vec<Vec<u8>>,
    MooncakeBootstrapFrameError,
>)
    ensures
        match buffers {
            Ok(list) => buffers_in(bytes@, name@) == Ok::<Seq<Seq<u8>>, FrameFault>(seqs(list@)),
            Err(error) => buffers_in(bytes@, name@) == Err::<Seq<Seq<u8>>, FrameFault>(error@),
        },
{
    match split_list(bytes) {
        Ok(list) => Ok(list),
        Err(ListFault::Header) => Err(
            MooncakeBootstrapFrameError::PackedListHeader { field: name },
        ),
        Err(ListFault::Payload) => Err(
            MooncakeBootstrapFrameError::PackedListLength { field: name },
        ),
    }
}

proof fn lemma_first_fault<T>(
    buffers: Seq<Seq<u8>>,
    read: spec_fn(Seq<u8>) -> Result<T, FrameFault>,
    i: int,
)
    requires
        0 <= i < buffers.len(),
        first_fault_in(buffers.take(i), read) is None,
    ensures
        first_fault_in(buffers.take(i + 1), read) == fault_of(read(buffers[i])),
        first_fault_in(buffers.take(i + 1), read) is Some ==> first_fault_in(buffers, read)
            == first_fault_in(buffers.take(i + 1), read),
{
    assert(buffers.take(i + 1).drop_last() =~= buffers.take(i));
    lemma_fault_stays(buffers, read, i + 1);
}

proof fn lemma_fault_stays<T>(
    buffers: Seq<Seq<u8>>,
    read: spec_fn(Seq<u8>) -> Result<T, FrameFault>,
    i: int,
)
    requires
        0 <= i <= buffers.len(),
    ensures
        first_fault_in(buffers.take(i), read) is Some ==> first_fault_in(buffers, read)
            == first_fault_in(buffers.take(i), read),
    decreases buffers.len() - i,
{
    if i < buffers.len() {
        assert(buffers.take(i + 1).drop_last() =~= buffers.take(i));
        lemma_fault_stays(buffers, read, i + 1);
    } else {
        assert(buffers.take(i) =~= buffers);
    }
}

/// Unpacks lists of 64-bit numbers.
pub fn unpack_u64_lists(bytes: &[u8]) -> (lists: Result<
    Vec<Vec<u64>>,
    MooncakeBootstrapFrameError,
>)
    ensures
        match lists {
            Ok(v) => u64_lists_in(bytes@) == Ok::<Seq<Seq<u64>>, FrameFault>(seqs(v@)),
            Err(error) => u64_lists_in(bytes@) == Err::<Seq<Seq<u64>>, FrameFault>(error@),
        },
{
    let buffers = unpack_list_of_buffers(bytes, "u64 lists")?;
    let ghost all = seqs(buffers@);
    let ghost read = |buffer: Seq<u8>| u64s_in(buffer);
    let ghost wanted = all.map_values(|buffer: Seq<u8>| read(buffer)->Ok_0);
    let mut lists: Vec<Vec<u64>> = Vec::new();
    let mut i: usize = 0;
    while i < buffers.len()
        invariant
            i <= buffers@.len(),
            all == seqs(buffers@),
            read == (|buffer: Seq<u8>| u64s_in(buffer)),
            wanted == all.map_values(|buffer: Seq<u8>| read(buffer)->Ok_0),
            buffers_in(bytes@, "u64 lists"@) == Ok::<Seq<Seq<u8>>, FrameFault>(all),
            first_fault_in(all.take(i as int), read) is None,
            seqs(lists@) == wanted.take(i as int),
        decreases buffers@.len() - i,
    {
        proof {
            lemma_first_fault(all, read, i as int);
        }
        let list = unpack_u64s(buffers[i].as_slice())?;
        let ghost before = seqs(lists@);
        lists.push(list);
        proof {
            assert(seqs(lists@) =~= before.push(wanted[i as int]));
            assert(wanted.take(i + 1) =~= wanted.take(i as int).push(wanted[i as int]));
        }
        i = i + 1;
    }
    proof {
        assert(all.take(i as int) =~= all);
        assert(wanted.take(i as int) =~= wanted);
    }
    Ok(lists)
}

/// Unpacks lists of 32-bit numbers.
pub fn unpack_u32_lists(bytes: &[u8]) -> (lists: Result<
    Vec<Vec<u32>>,
    MooncakeBootstrapFrameError,
>)
    ensures
        match lists {
            Ok(v) => u32_lists_in(bytes@) == Ok::<Seq<Seq<u32>>, FrameFault>(seqs(v@)),
            Err(error) => u32_lists_in(bytes@) == Err::<Seq<Seq<u32>>, FrameFault>(error@),
        },
{
    let buffers = unpack_list_of_buffers(bytes, "u32 lists")?;
    let ghost all = seqs(buffers@);
    let ghost read = |buffer: Seq<u8>| u32s_in(buffer);
    let ghost wanted = all.map_values(|buffer: Seq<u8>| read(buffer)->Ok_0);
    let mut lists: Vec<Vec<u32>> = Vec::new();
    let mut i: usize = 0;
    while i < buffers.len()
        invariant
            i <= buffers@.len(),
            all == seqs(buffers@),
            read == (|buffer: Seq<u8>| u32s_in(buffer)),
            wanted == all.map_values(|buffer: Seq<u8>| read(buffer)->Ok_0),
            buffers_in(bytes@, "u32 lists"@) == Ok::<Seq<Seq<u8>>, FrameFault>(all),
            first_fault_in(all.take(i as int), read) is None,
            seqs(lists@) == wanted.take(i as int),
        decreases buffers@.len() - i,
    {
        proof {
            lemma_first_fault(all, read, i as int);
        }
        let list = unpack_u32s(buffers[i].as_slice())?;
        let ghost before = seqs(lists@);
        lists.push(list);
        proof {
            assert(seqs(lists@) =~= before.push(wanted[i as int]));
            assert(wanted.take(i + 1) =~= wanted.take(i as int).push(wanted[i as int]));
        }
        i = i + 1;
    }
    proof {
        assert(all.take(i as int) =~= all);
        assert(wanted.take(i as int) =~= wanted);
    }
    Ok(lists)
}

/// Unpacks lists of signed 32-bit numbers.
pub fn unpack_i32_lists(bytes: &[u8]) -> (lists: Result<
    Vec<Vec<i32>>,
    MooncakeBootstrapFrameError,
>)
    ensures
        match lists {
            Ok(v) => i32_lists_in(bytes@) == Ok::<Seq<Seq<i32>>, FrameFault>(seqs(v@)),
            Err(error) => i32_lists_in(bytes@) == Err::<Seq<Seq<i32>>, FrameFault>(error@),
        },
{
    let buffers = unpack_list_of_buffers(bytes, "i32 lists")?;
    let ghost all = seqs(buffers@);
    let ghost read = |buffer: Seq<u8>| i32s_in(buffer);
    let ghost wanted = all.map_values(|buffer: Seq<u8>| read(buffer)->Ok_0);
    let mut lists: Vec<Vec<i32>> = Vec::new();
    let mut i: usize = 0;
    while i < buffers.len()
        invariant
            i <= buffers@.len(),
            all == seqs(buffers@),
            read == (|buffer: Seq<u8>| i32s_in(buffer)),
            wanted == all.map_values(|buffer: Seq<u8>| read(buffer)->Ok_0),
            buffers_in(bytes@, "i32 lists"@) == Ok::<Seq<Seq<u8>>, FrameFault>(all),
            first_fault_in(all.take(i as int), read) is None,
            seqs(lists@) == wanted.take(i as int),
        decreases buffers@.len() - i,
    {
        proof {
            lemma_first_fault(all, read, i as int);
        }
        let list = unpack_i32s(buffers[i].as_slice())?;
        let ghost before = seqs(lists@);
        lists.push(list);
        proof {
            assert(seqs(lists@) =~= before.push(wanted[i as int]));
            assert(wanted.take(i + 1) =~= wanted.take(i as int).push(wanted[i as int]));
        }
        i = i + 1;
    }
    proof {
        assert(all.take(i as int) =~= all);
        assert(wanted.take(i as int) =~= wanted);
    }
    Ok(lists)
}

/// The lists of 32-bit numbers in a field that may be missing.
pub fn optional_u32_lists(frame: &[Vec<u8>], index: usize) -> (lists: Result<
    Vec<Vec<u32>>,
    MooncakeBootstrapFrameError,
>)
    ensures
        match lists {
            Ok(v) => optional_u32_lists_in(seqs(frame@), index as nat) == Ok::<
                Seq<Seq<u32>>,
                FrameFault,
            >(seqs(v@)),
            Err(error) => optional_u32_lists_in(seqs(frame@), index as nat) == Err::<
                Seq<Seq<u32>>,
                FrameFault,
            >(error@),
        },
{
    if index >= frame.len() {
        let lists: Vec<Vec<u32>> = Vec::new();
        proof {
            assert(seqs(lists@) =~= Seq::<Seq<u32>>::empty());
        }
        return Ok(lists);
    }
    unpack_u32_lists(frame[index].as_slice())
}

} // verus!
