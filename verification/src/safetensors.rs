//! The header of a safetensors shard, and where the bytes of a tensor lie in it.
use vstd::prelude::*;
use vstd::string::*;

use crate::artifact_error::{
    data_fault, header_fault, invalid_safetensors_data, invalid_safetensors_header, ArtifactFault,
    ModelArtifactError,
};
use crate::json::{Json, JsonView};
use crate::json_text::{parse_json, parsed};
use crate::listing::{in_key_order, value_of_key};
use crate::order::{ascending, map_of, text_lt, TextMap};
use crate::tensor_names::{expert_weight_name, is_routed_expert_weight};
use crate::text::{cat3, cat4, cat7, decimal, decimal_usize, same_text};
use crate::wire::{le_value, read_le};

verus! {

/// What a header says of a tensor.
#[derive(Clone, Debug, PartialEq, Eq)]
pub struct SafetensorsTensorMetadata {
    pub dtype: String,
    pub shape: Vec<usize>,
    pub data_offsets: [usize; 2],
}

/// What a [`SafetensorsTensorMetadata`] says.
pub struct TensorMetadata {
    pub dtype: Seq<char>,
    pub shape: Seq<usize>,
    pub start: usize,
    pub end: usize,
}

impl View for SafetensorsTensorMetadata {
    type V = TensorMetadata;

    open spec fn view(&self) -> TensorMetadata {
        TensorMetadata {
            dtype: self.dtype@,
            shape: self.shape@,
            start: self.data_offsets@[0],
            end: self.data_offsets@[1],
        }
    }
}

/// The product of the first `n` dimensions.
pub open spec fn product(shape: Seq<usize>, n: nat) -> nat
    decreases n,
{
    if n == 0 || n > shape.len() {
        1
    } else {
        product(shape, (n - 1) as nat) * shape[n - 1] as nat
    }
}

/// Whether every product of leading dimensions is within the range of `usize`.
pub open spec fn products_fit(shape: Seq<usize>) -> bool {
    forall|n: nat| n <= shape.len() ==> #[trigger] product(shape, n) <= usize::MAX
}

/// The number of elements of a shape, where it can be counted.
pub open spec fn elements(shape: Seq<usize>) -> Option<nat> {
    if products_fit(shape) {
        Some(product(shape, shape.len()))
    } else {
        None
    }
}

/// The number of elements of a shape.
pub fn shape_element_count(shape: &Vec<usize>) -> (count: Option<usize>)
    ensures
        match count {
            Some(n) => elements(shape@) == Some(n as nat),
            None => elements(shape@) is None,
        },
{
    let mut count: usize = 1;
    let mut i: usize = 0;
    while i < shape.len()
        invariant
            i <= shape@.len(),
            count == product(shape@, i as nat),
            forall|n: nat| n <= i ==> #[trigger] product(shape@, n) <= usize::MAX,
        decreases shape@.len() - i,
    {
        proof {
            assert(product(shape@, (i + 1) as nat) == product(shape@, i as nat)
                * shape@[i as int] as nat);
        }
        match count.checked_mul(shape[i]) {
            Some(next) => {
                count = next;
            },
            None => {
                return None;
            },
        }
        i = i + 1;
    }
    Some(count)
}

/// The number of bytes of an element.
pub open spec fn byte_width(dtype: Seq<char>) -> Option<nat> {
    if dtype == "BOOL"@ || dtype == "I8"@ || dtype == "U8"@ || dtype == "F8_E4M3"@ || dtype
        == "F8_E5M2"@ || dtype == "F8_E8M0"@ {
        Some(1)
    } else if dtype == "I16"@ || dtype == "U16"@ || dtype == "F16"@ || dtype == "BF16"@ {
        Some(2)
    } else if dtype == "I32"@ || dtype == "U32"@ || dtype == "F32"@ {
        Some(4)
    } else if dtype == "I64"@ || dtype == "U64"@ || dtype == "F64"@ {
        Some(8)
    } else {
        None
    }
}

/// The number of bytes of an element.
pub fn safetensors_dtype_byte_width(dtype: &str) -> (width: Option<usize>)
    ensures
        match width {
            Some(n) => byte_width(dtype@) == Some(n as nat),
            None => byte_width(dtype@) is None,
        },
{
    if same_text(dtype, "BOOL") || same_text(dtype, "I8") || same_text(dtype, "U8") || same_text(
        dtype,
        "F8_E4M3",
    ) || same_text(dtype, "F8_E5M2") || same_text(dtype, "F8_E8M0") {
        Some(1)
    } else if same_text(dtype, "I16") || same_text(dtype, "U16") || same_text(dtype, "F16")
        || same_text(dtype, "BF16") {
        Some(2)
    } else if same_text(dtype, "I32") || same_text(dtype, "U32") || same_text(dtype, "F32") {
        Some(4)
    } else if same_text(dtype, "I64") || same_text(dtype, "U64") || same_text(dtype, "F64") {
        Some(8)
    } else {
        None
    }
}

impl SafetensorsTensorMetadata {
    /// The number of elements of the tensor.
    pub fn element_count(&self) -> (count: Option<usize>)
        ensures
            match count {
                Some(n) => elements(self@.shape) == Some(n as nat),
                None => elements(self@.shape) is None,
            },
    {
        shape_element_count(&self.shape)
    }

    /// The number of bytes of an element of the tensor.
    pub fn dtype_byte_width(&self) -> (width: Option<usize>)
        ensures
            match width {
                Some(n) => byte_width(self@.dtype) == Some(n as nat),
                None => byte_width(self@.dtype) is None,
            },
    {
        safetensors_dtype_byte_width(self.dtype.as_str())
    }

    /// A copy of what is said.
    pub fn copy(&self) -> (metadata: SafetensorsTensorMetadata)
        ensures
            metadata@ == self@,
    {
        SafetensorsTensorMetadata {
            dtype: self.dtype.clone(),
            shape: self.shape.clone(),
            data_offsets: [self.data_offsets[0], self.data_offsets[1]],
        }
    }
}

/// What is said of a tensor.
pub open spec fn of_tensor(name: Seq<char>, what: Seq<char>) -> Seq<char> {
    "tensor "@ + name + what
}

fn about_tensor(name: &str, what: &str) -> (text: String)
    ensures
        text@ == of_tensor(name@, what@),
{
    cat3("tensor ", name, what)
}

/// Whether a JSON value is a number within the range of `usize`.
pub open spec fn is_usize(value: JsonView) -> bool {
    value.as_natural() is Some && value.as_natural()->0 <= usize::MAX
}

/// The numbers of a list whose items are all within the range of `usize`.
pub open spec fn usizes(items: Seq<JsonView>) -> Option<Seq<usize>> {
    if forall|i: int| 0 <= i < items.len() ==> is_usize(#[trigger] items[i]) {
        Some(Seq::new(items.len(), |i: int| items[i].as_natural()->0 as usize))
    } else {
        None
    }
}

/// What an entry of a header says of a tensor.
pub open spec fn metadata_of(path: Seq<char>, name: Seq<char>, entry: JsonView) -> Result<
    TensorMetadata,
    ArtifactFault,
> {
    let dtype = match entry.get("dtype"@) {
        Some(value) => value.as_text(),
        None => None,
    };
    let shape = match entry.get("shape"@) {
        Some(value) => value.as_items(),
        None => None,
    };
    let offsets = match entry.get("data_offsets"@) {
        Some(value) => value.as_items(),
        None => None,
    };
    if dtype is None {
        Err(header_fault(path, of_tensor(name, " is missing string dtype"@)))
    } else if shape is None {
        Err(header_fault(path, of_tensor(name, " is missing shape array"@)))
    } else if usizes(shape->0) is None {
        Err(header_fault(path, of_tensor(name, " shape contains a non-usize dimension"@)))
    } else if offsets is None {
        Err(header_fault(path, of_tensor(name, " is missing data_offsets array"@)))
    } else if offsets->0.len() != 2 {
        Err(header_fault(path, of_tensor(name, " data_offsets must have two entries"@)))
    } else if usizes(offsets->0) is None {
        Err(header_fault(path, of_tensor(name, " data_offsets contains a non-usize offset"@)))
    } else {
        Ok(
            TensorMetadata {
                dtype: dtype->0,
                shape: usizes(shape->0)->0,
                start: usizes(offsets->0)->0[0],
                end: usizes(offsets->0)->0[1],
            },
        )
    }
}

fn read_usizes(items: &Vec<Json>) -> (numbers: Option<Vec<usize>>)
    ensures
        match numbers {
            Some(list) => usizes(crate::json::views(items@)) == Some(list@),
            None => usizes(crate::json::views(items@)) is None,
        },
{
    let ghost all = crate::json::views(items@);
    let mut list: Vec<usize> = Vec::new();
    let mut i: usize = 0;
    while i < items.len()
        invariant
            i <= items@.len(),
            all == crate::json::views(items@),
            list@.len() == i,
            forall|j: int| 0 <= j < i ==> is_usize(#[trigger] all[j]),
            forall|j: int| 0 <= j < i ==> #[trigger] list@[j] == all[j].as_natural()->0,
        decreases items@.len() - i,
    {
        proof {
            assert(all[i as int] == items@[i as int]@);
        }
        match items[i].as_u64() {
            Some(n) => {
                if n > usize::MAX as u64 {
                    proof {
                        assert(!is_usize(all[i as int]));
                    }
                    return None;
                }
                list.push(n as usize);
            },
            None => {
                proof {
                    assert(!is_usize(all[i as int]));
                }
                return None;
            },
        }
        i = i + 1;
    }
    proof {
        assert(usizes(all)->0 =~= list@);
    }
    Some(list)
}

/// What an entry of a header says of a tensor.
pub fn parse_tensor_metadata(path: &str, tensor_name: &str, entry: &Json) -> (metadata: Result<
    SafetensorsTensorMetadata,
    ModelArtifactError,
>)
    ensures
        match metadata {
            Ok(m) => metadata_of(path@, tensor_name@, entry@) == Ok::<
                TensorMetadata,
                ArtifactFault,
            >(m@),
            Err(e) => metadata_of(path@, tensor_name@, entry@) == Err::<
                TensorMetadata,
                ArtifactFault,
            >(e@),
        },
{
    let dtype = match entry.get("dtype") {
        Some(value) => value.as_str(),
        None => None,
    };
    let dtype = match dtype {
        Some(text) => text.to_owned(),
        None => {
            return Err(
                invalid_safetensors_header(
                    path,
                    about_tensor(tensor_name, " is missing string dtype"),
                ),
            );
        },
    };
    let shape = match entry.get("shape") {
        Some(value) => value.as_array(),
        None => None,
    };
    let shape = match shape {
        Some(items) => match read_usizes(items) {
            Some(list) => list,
            None => {
                return Err(
                    invalid_safetensors_header(
                        path,
                        about_tensor(tensor_name, " shape contains a non-usize dimension"),
                    ),
                );
            },
        },
        None => {
            return Err(
                invalid_safetensors_header(
                    path,
                    about_tensor(tensor_name, " is missing shape array"),
                ),
            );
        },
    };
    let offsets = match entry.get("data_offsets") {
        Some(value) => value.as_array(),
        None => None,
    };
    let offsets = match offsets {
        Some(items) => items,
        None => {
            return Err(
                invalid_safetensors_header(
                    path,
                    about_tensor(tensor_name, " is missing data_offsets array"),
                ),
            );
        },
    };
    if offsets.len() != 2 {
        return Err(
            invalid_safetensors_header(
                path,
                about_tensor(tensor_name, " data_offsets must have two entries"),
            ),
        );
    }
    match read_usizes(offsets) {
        Some(list) => Ok(
            SafetensorsTensorMetadata { dtype, shape, data_offsets: [list[0], list[1]] },
        ),
        None => Err(
            invalid_safetensors_header(
                path,
                about_tensor(tensor_name, " data_offsets contains a non-usize offset"),
            ),
        ),
    }
}

/// Where a tensor lies in a shard.
#[derive(Clone, Debug, PartialEq, Eq)]
pub struct SafetensorsTensorSpan {
    pub path: String,
    pub metadata: SafetensorsTensorMetadata,
    pub absolute_byte_offset: u64,
    pub byte_len: usize,
}

/// What a [`SafetensorsTensorSpan`] says.
pub struct TensorSpan {
    pub path: Seq<char>,
    pub metadata: TensorMetadata,
    pub absolute_byte_offset: nat,
    pub byte_len: nat,
}

impl View for SafetensorsTensorSpan {
    type V = TensorSpan;

    open spec fn view(&self) -> TensorSpan {
        TensorSpan {
            path: self.path@,
            metadata: self.metadata@,
            absolute_byte_offset: self.absolute_byte_offset as nat,
            byte_len: self.byte_len as nat,
        }
    }
}

impl SafetensorsTensorSpan {
    /// A copy of the span.
    pub fn copy(&self) -> (span: SafetensorsTensorSpan)
        ensures
            span@ == self@,
    {
        SafetensorsTensorSpan {
            path: self.path.clone(),
            metadata: self.metadata.copy(),
            absolute_byte_offset: self.absolute_byte_offset,
            byte_len: self.byte_len,
        }
    }
}

/// The number of bytes that the type and the shape of a tensor ask for.
pub open spec fn expected_bytes(
    path: Seq<char>,
    name: Seq<char>,
    metadata: TensorMetadata,
) -> Result<nat, ArtifactFault> {
    match elements(metadata.shape) {
        Some(count) => match byte_width(metadata.dtype) {
            Some(width) => if count * width <= usize::MAX {
                Ok(count * width)
            } else {
                Err(data_fault(path, of_tensor(name, " byte length overflowed"@)))
            },
            None => Err(
                data_fault(
                    path,
                    "tensor "@ + name + " has unsupported safetensors dtype "@ + metadata.dtype,
                ),
            ),
        },
        None => Err(data_fault(path, of_tensor(name, " element count overflowed"@))),
    }
}

/// The number of bytes that the type and the shape of a tensor ask for.
pub fn expected_tensor_byte_len(
    path: &str,
    tensor_name: &str,
    metadata: &SafetensorsTensorMetadata,
) -> (len: Result<usize, ModelArtifactError>)
    ensures
        match len {
            Ok(n) => expected_bytes(path@, tensor_name@, metadata@) == Ok::<nat, ArtifactFault>(
                n as nat,
            ),
            Err(e) => expected_bytes(path@, tensor_name@, metadata@) == Err::<nat, ArtifactFault>(
                e@,
            ),
        },
{
    let count: usize = match metadata.element_count() {
        Some(count) => count,
        None => {
            return Err(
                invalid_safetensors_data(
                    path,
                    about_tensor(tensor_name, " element count overflowed"),
                ),
            );
        },
    };
    let width: usize = match metadata.dtype_byte_width() {
        Some(width) => width,
        None => {
            return Err(
                invalid_safetensors_data(
                    path,
                    cat4(
                        "tensor ",
                        tensor_name,
                        " has unsupported safetensors dtype ",
                        metadata.dtype.as_str(),
                    ),
                ),
            );
        },
    };
    match count.checked_mul(width) {
        Some(len) => Ok(len),
        None => Err(
            invalid_safetensors_data(path, about_tensor(tensor_name, " byte length overflowed")),
        ),
    }
}

/// The header of a shard: its length in bytes, and what it says of each tensor.
#[derive(Clone, Debug, PartialEq, Eq)]
pub struct SafetensorsHeader {
    header_len: usize,
    tensors: TextMap<SafetensorsTensorMetadata>,
}

/// What a [`SafetensorsHeader`] says, its tensors in the order of their names.
pub struct ShardHeader {
    pub header_len: nat,
    pub tensors: Seq<(Seq<char>, TensorMetadata)>,
}

impl View for SafetensorsHeader {
    type V = ShardHeader;

    closed spec fn view(&self) -> ShardHeader {
        ShardHeader { header_len: self.header_len as nat, tensors: self.tensors.listed() }
    }
}

/// What a header says of the tensors among its entries; `__metadata__`, and what is no object,
/// is passed over.
pub open spec fn tensors_of(path: Seq<char>, entries: Seq<(Seq<char>, JsonView)>) -> Result<
    Seq<(Seq<char>, TensorMetadata)>,
    ArtifactFault,
>
    decreases entries.len(),
{
    if entries.len() == 0 {
        Ok(Seq::empty())
    } else {
        let (name, entry) = entries.last();
        match tensors_of(path, entries.drop_last()) {
            Ok(before) => if name == "__metadata__"@ || !(entry is Object) {
                Ok(before)
            } else {
                match metadata_of(path, name, entry) {
                    Ok(metadata) => Ok(before.push((name, metadata))),
                    Err(fault) => Err(fault),
                }
            },
            Err(fault) => Err(fault),
        }
    }
}

/// The header that a document is.
pub open spec fn header_of(path: Seq<char>, header_len: nat, document: JsonView) -> Result<
    ShardHeader,
    ArtifactFault,
> {
    match document {
        JsonView::Object(entries) => match tensors_of(path, in_key_order(entries)) {
            Ok(tensors) => Ok(ShardHeader { header_len, tensors }),
            Err(fault) => Err(fault),
        },
        _ => Err(header_fault(path, "header must be a JSON object"@)),
    }
}

/// The header that the bytes of a shard behind their length hold.
pub open spec fn header_in(path: Seq<char>, header: Seq<u8>) -> Result<ShardHeader, ArtifactFault> {
    match parsed(header) {
        Ok(document) => header_of(path, header.len(), document),
        Err(message) => Err(header_fault(path, message)),
    }
}

proof fn lemma_fault_stays(path: Seq<char>, entries: Seq<(Seq<char>, JsonView)>, n: int)
    requires
        0 <= n <= entries.len(),
        tensors_of(path, entries.take(n)) is Err,
    ensures
        tensors_of(path, entries) == tensors_of(path, entries.take(n)),
    decreases entries.len() - n,
{
    if n < entries.len() {
        assert(entries.take(n + 1).drop_last() =~= entries.take(n));
        lemma_fault_stays(path, entries, n + 1);
    } else {
        assert(entries.take(n) =~= entries);
    }
}

proof fn lemma_names_are_entries(path: Seq<char>, entries: Seq<(Seq<char>, JsonView)>)
    requires
        ascending(entries),
        tensors_of(path, entries) is Ok,
    ensures
        ascending(tensors_of(path, entries)->Ok_0),
        forall|i: int|
            0 <= i < tensors_of(path, entries)->Ok_0.len() ==> exists|j: int|
                0 <= j < entries.len() && (#[trigger] entries[j]).0 == (#[trigger] tensors_of(
                    path,
                    entries,
                )->Ok_0[i]).0,
    decreases entries.len(),
{
    if entries.len() > 0 {
        let rest = entries.drop_last();
        assert forall|i: int, j: int| 0 <= i < j < rest.len() implies text_lt(
            #[trigger] rest[i].0,
            #[trigger] rest[j].0,
        ) by {
            assert(text_lt(entries[i].0, entries[j].0));
        }
        lemma_names_are_entries(path, rest);
        let before = tensors_of(path, rest)->Ok_0;
        let list = tensors_of(path, entries)->Ok_0;
        assert forall|i: int| 0 <= i < list.len() implies exists|j: int|
            0 <= j < entries.len() && (#[trigger] entries[j]).0 == (#[trigger] list[i]).0 by {
            if i < before.len() {
                assert(list[i] == before[i]);
                let j = choose|j: int| 0 <= j < rest.len() && (#[trigger] rest[j]).0 == before[i].0;
                assert(entries[j].0 == list[i].0);
            } else {
                assert(entries[entries.len() - 1].0 == list[i].0);
            }
        }
        assert forall|i: int, j: int| 0 <= i < j < list.len() implies text_lt(
            #[trigger] list[i].0,
            #[trigger] list[j].0,
        ) by {
            assert(list[i] == before[i]);
            if j < before.len() {
                assert(list[j] == before[j]);
            } else {
                let k = choose|k: int| 0 <= k < rest.len() && (#[trigger] rest[k]).0 == before[i].0;
                assert(text_lt(entries[k].0, entries[entries.len() - 1].0));
            }
        }
    }
}

/// The tensors of a header stand in the order of their names.
pub proof fn headers_are_in_order(path: Seq<char>, header_len: nat, entries: Seq<
    (Seq<char>, JsonView),
>)
    requires
        ascending(entries),
    ensures
        header_of(path, header_len, JsonView::Object(map_of(entries))) is Ok ==> ascending(
            header_of(path, header_len, JsonView::Object(map_of(entries)))->Ok_0.tensors,
        ),
{
    crate::listing::ascending_list_is_in_key_order(entries);
    if tensors_of(path, entries) is Ok {
        lemma_names_are_entries(path, entries);
    }
}

/// The length of a header, from the eight bytes at the start of a shard.
pub fn header_length(path: &str, prefix: &[u8]) -> (len: Result<usize, ModelArtifactError>)
    requires
        prefix@.len() == 8,
    ensures
        match len {
            Ok(n) => le_value(prefix@) == n,
            Err(e) => le_value(prefix@) > usize::MAX && e@ == header_fault(
                path@,
                "header length does not fit in usize"@,
            ),
        },
{
    let n: u64 = read_le(prefix, 0, 8);
    proof {
        assert(prefix@.subrange(0, 8) =~= prefix@);
    }
    if n > usize::MAX as u64 {
        return Err(
            invalid_safetensors_header(path, "header length does not fit in usize".to_owned()),
        );
    }
    Ok(n as usize)
}

impl SafetensorsHeader {
    /// The names of the tensors ascend.
    pub closed spec fn wf(self) -> bool {
        self.tensors.wf()
    }

    /// The names of the tensors ascend.
    pub proof fn lemma_wf(self)
        requires
            self.wf(),
        ensures
            ascending(self@.tensors),
            self@.header_len <= usize::MAX,
    {
        crate::listing::lemma_viewed_ascending(self.tensors.pairs());
    }

    /// The header that a document is.
    pub fn from_document(path: &str, header_len: usize, document: &Json) -> (header: Result<
        SafetensorsHeader,
        ModelArtifactError,
    >)
        ensures
            match header {
                Ok(h) => h.wf() && header_of(path@, header_len as nat, document@) == Ok::<
                    ShardHeader,
                    ArtifactFault,
                >(h@),
                Err(e) => header_of(path@, header_len as nat, document@) == Err::<
                    ShardHeader,
                    ArtifactFault,
                >(e@),
            },
    {
        let entries = match document.sorted_members() {
            Some(entries) => entries,
            None => {
                return Err(
                    invalid_safetensors_header(path, "header must be a JSON object".to_owned()),
                );
            },
        };
        let ghost all = entries.listed();
        let mut tensors: TextMap<SafetensorsTensorMetadata> = TextMap::new();
        let total: usize = entries.len();
        let mut i: usize = 0;
        proof {
            assert(tensors.listed() =~= Seq::<(Seq<char>, TensorMetadata)>::empty());
            assert(tensors_of(path@, all.take(0)) == Ok::<
                Seq<(Seq<char>, TensorMetadata)>,
                ArtifactFault,
            >(Seq::empty()));
        }
        while i < total
            invariant
                i <= total,
                total == entries.pairs().len(),
                entries.wf(),
                all == entries.listed(),
                ascending(all),
                document@ is Object,
                all == in_key_order(document@->Object_0),
                tensors.wf(),
                tensors_of(path@, all.take(i as int)) == Ok::<
                    Seq<(Seq<char>, TensorMetadata)>,
                    ArtifactFault,
                >(tensors.listed()),
            decreases total - i,
        {
            let name = entries.key_at(i);
            let entry = *entries.value_at(i);
            let ghost before = tensors.listed();
            proof {
                assert(all[i as int] == (name@, entry@));
                assert(all.take(i + 1).drop_last() =~= all.take(i as int));
                assert(all.take(i + 1).last() == all[i as int]);
            }
            if !same_text(name, "__metadata__") && entry.is_object() {
                match parse_tensor_metadata(path, name, entry) {
                    Ok(metadata) => {
                        let ghost said = metadata@;
                        tensors.set(name.to_owned(), metadata);
                        proof {
                            let after = before.push((name@, said));
                            lemma_prefix_ascending(all, i + 1);
                            lemma_names_are_entries(path@, all.take(i + 1));
                            assert(after.drop_last() =~= before);
                            assert(map_of(after) == map_of(before).insert(name@, said));
                            crate::listing::key_order_is_unique(tensors.listed(), after);
                        }
                    },
                    Err(error) => {
                        proof {
                            lemma_fault_stays(path@, all, i + 1);
                        }
                        return Err(error);
                    },
                }
            }
            i = i + 1;
        }
        proof {
            assert(all.take(i as int) =~= all);
        }
        Ok(SafetensorsHeader { header_len, tensors })
    }

    /// The header that the bytes of a shard behind their length hold.
    pub fn from_bytes(path: &str, header: &Vec<u8>) -> (result: Result<
        SafetensorsHeader,
        ModelArtifactError,
    >)
        ensures
            match result {
                Ok(h) => h.wf() && header_in(path@, header@) == Ok::<ShardHeader, ArtifactFault>(
                    h@,
                ),
                Err(e) => header_in(path@, header@) == Err::<ShardHeader, ArtifactFault>(e@),
            },
    {
        match parse_json(header.as_slice()) {
            Ok(document) => SafetensorsHeader::from_document(path, header.len(), &document),
            Err(message) => Err(invalid_safetensors_header(path, message)),
        }
    }
}

proof fn lemma_prefix_ascending<T>(entries: Seq<(Seq<char>, T)>, n: int)
    requires
        ascending(entries),
        0 <= n <= entries.len(),
    ensures
        ascending(entries.take(n)),
{
    let part = entries.take(n);
    assert forall|i: int, j: int| 0 <= i < j < part.len() implies text_lt(
        #[trigger] part[i].0,
        #[trigger] part[j].0,
    ) by {
        assert(text_lt(entries[i].0, entries[j].0));
    }
}

/// Where a tensor lies in a shard of `file_len` bytes, if the shard has it; `Err` in place of the
/// length says why it is not known.
pub open spec fn span_in(
    path: Seq<char>,
    header: ShardHeader,
    name: Seq<char>,
    file_len: Result<u64, Seq<char>>,
) -> Result<Option<TensorSpan>, ArtifactFault> {
    match value_of_key(header.tensors, name) {
        None => Ok(None),
        Some(metadata) => {
            let start = metadata.start as nat;
            let end = metadata.end as nat;
            let payload = 8 + header.header_len;
            if end < start {
                Err(data_fault(path, of_tensor(name, " data_offsets start is after end"@)))
            } else {
                match expected_bytes(path, name, metadata) {
                    Err(fault) => Err(fault),
                    Ok(expected) => if end - start != expected {
                        Err(
                            data_fault(
                                path,
                                "tensor "@ + name + " metadata expects "@ + decimal(expected)
                                    + " bytes but data_offsets describe "@ + decimal(
                                    (end - start) as nat,
                                ) + " bytes"@,
                            ),
                        )
                    } else if payload > usize::MAX {
                        Err(data_fault(path, "safetensors payload start offset overflowed"@))
                    } else if payload + start > usize::MAX {
                        Err(data_fault(path, of_tensor(name, " start offset overflowed"@)))
                    } else if payload + end > usize::MAX {
                        Err(data_fault(path, of_tensor(name, " end offset overflowed"@)))
                    } else {
                        match file_len {
                            Err(message) => Err(ArtifactFault::ReadWeightShard { path, message }),
                            Ok(len) => if payload + end > len {
                                Err(
                                    data_fault(
                                        path,
                                        of_tensor(name, " payload extends past end of shard"@),
                                    ),
                                )
                            } else {
                                Ok(
                                    Some(
                                        TensorSpan {
                                            path,
                                            metadata,
                                            absolute_byte_offset: payload + start,
                                            byte_len: (end - start) as nat,
                                        },
                                    ),
                                )
                            },
                        }
                    },
                }
            }
        },
    }
}

/// A span lies within its shard, behind the header, and has the bytes that its tensor asks for.
pub proof fn spans_lie_in_their_shards(
    path: Seq<char>,
    header: ShardHeader,
    name: Seq<char>,
    file_len: u64,
)
    requires
        span_in(path, header, name, Ok(file_len)) is Ok,
        span_in(path, header, name, Ok(file_len))->Ok_0 is Some,
    ensures
        ({
            let span = span_in(path, header, name, Ok(file_len))->Ok_0->0;
            &&& span.path == path
            &&& value_of_key(header.tensors, name) == Some(span.metadata)
            &&& 8 + header.header_len <= span.absolute_byte_offset
            &&& span.absolute_byte_offset + span.byte_len <= file_len
            &&& Some(span.byte_len) == match (
                elements(span.metadata.shape),
                byte_width(span.metadata.dtype),
            ) {
                (Some(count), Some(width)) => Some(count * width),
                _ => None,
            }
        }),
{
}

/// Spans of a shard whose offsets do not meet share no byte.
pub proof fn spans_stand_apart(
    path: Seq<char>,
    header: ShardHeader,
    a: Seq<char>,
    b: Seq<char>,
    file_len: u64,
)
    requires
        span_in(path, header, a, Ok(file_len)) is Ok,
        span_in(path, header, a, Ok(file_len))->Ok_0 is Some,
        span_in(path, header, b, Ok(file_len)) is Ok,
        span_in(path, header, b, Ok(file_len))->Ok_0 is Some,
        value_of_key(header.tensors, a)->0.end <= value_of_key(header.tensors, b)->0.start,
    ensures
        span_in(path, header, a, Ok(file_len))->Ok_0->0.absolute_byte_offset + span_in(
            path,
            header,
            a,
            Ok(file_len),
        )->Ok_0->0.byte_len <= span_in(path, header, b, Ok(file_len))->Ok_0->0.absolute_byte_offset,
{
}

/// The length of a file, or why it is not known.
pub open spec fn known_length(file_len: Result<u64, String>) -> Result<u64, Seq<char>> {
    match file_len {
        Ok(len) => Ok(len),
        Err(message) => Err(message@),
    }
}

/// Whether a list of spans stands for a list of what they say.
pub open spec fn span_entries(entries: Seq<(String, SafetensorsTensorSpan)>) -> Seq<
    (Seq<char>, TensorSpan),
> {
    entries.map_values(|entry: (String, SafetensorsTensorSpan)| (entry.0@, entry.1@))
}

/// The spans of the first `n` tensors of a header.
pub open spec fn spans_in(
    path: Seq<char>,
    header: ShardHeader,
    file_len: Result<u64, Seq<char>>,
    n: nat,
) -> Result<Seq<(Seq<char>, TensorSpan)>, ArtifactFault>
    decreases n,
{
    if n == 0 || n > header.tensors.len() {
        Ok(Seq::empty())
    } else {
        match spans_in(path, header, file_len, (n - 1) as nat) {
            Ok(before) => {
                let name = header.tensors[n - 1].0;
                match span_in(path, header, name, file_len) {
                    Ok(Some(span)) => Ok(before.push((name, span))),
                    Ok(None) => Ok(before),
                    Err(fault) => Err(fault),
                }
            },
            Err(fault) => Err(fault),
        }
    }
}

/// The type of the first weight of a routed expert in a header, from `i` on.
pub open spec fn expert_dtype_from(
    tensors: Seq<(Seq<char>, TensorMetadata)>,
    i: nat,
) -> Option<Seq<char>>
    decreases tensors.len() - i,
{
    if i >= tensors.len() {
        None
    } else if expert_weight_name(tensors[i as int].0) is Some {
        Some(tensors[i as int].1.dtype)
    } else {
        expert_dtype_from(tensors, i + 1)
    }
}

proof fn lemma_span_fault_stays(
    path: Seq<char>,
    header: ShardHeader,
    file_len: Result<u64, Seq<char>>,
    n: nat,
    m: nat,
)
    requires
        n <= m <= header.tensors.len(),
        spans_in(path, header, file_len, n) is Err,
    ensures
        spans_in(path, header, file_len, m) == spans_in(path, header, file_len, n),
    decreases m - n,
{
    if n < m {
        lemma_span_fault_stays(path, header, file_len, n, (m - 1) as nat);
    }
}

impl SafetensorsHeader {
    /// What the header says of a tensor.
    pub fn tensor_metadata(&self, tensor_name: &str) -> (metadata: Option<
        SafetensorsTensorMetadata,
    >)
        requires
            self.wf(),
        ensures
            match metadata {
                Some(m) => value_of_key(self@.tensors, tensor_name@) == Some(m@),
                None => value_of_key(self@.tensors, tensor_name@) is None,
            },
    {
        match self.tensors.lookup(tensor_name) {
            Some(metadata) => Some(metadata.copy()),
            None => None,
        }
    }

    /// The names of the tensors, in their order.
    pub fn tensor_names(&self) -> (names: Vec<String>)
        requires
            self.wf(),
        ensures
            names@.len() == self@.tensors.len(),
            forall|i: int|
                0 <= i < names@.len() ==> (#[trigger] names@[i])@ == self@.tensors[i].0,
    {
        let mut names: Vec<String> = Vec::new();
        let total: usize = self.tensors.len();
        let mut i: usize = 0;
        while i < total
            invariant
                i <= total,
                total == self.tensors.pairs().len(),
                names@.len() == i,
                forall|j: int| 0 <= j < i ==> (#[trigger] names@[j])@ == self@.tensors[j].0,
            decreases total - i,
        {
            names.push(self.tensors.key_at(i).to_owned());
            i = i + 1;
        }
        names
    }

    /// Where a tensor lies in the shard, whose length is given, if the shard has it.
    pub fn tensor_span(
        &self,
        path: &str,
        tensor_name: &str,
        file_len: &Result<u64, String>,
    ) -> (span: Result<Option<SafetensorsTensorSpan>, ModelArtifactError>)
        requires
            self.wf(),
        ensures
            match span {
                Ok(Some(s)) => span_in(path@, self@, tensor_name@, known_length(*file_len)) == Ok::<
                    Option<TensorSpan>,
                    ArtifactFault,
                >(Some(s@)),
                Ok(None) => span_in(path@, self@, tensor_name@, known_length(*file_len)) == Ok::<
                    Option<TensorSpan>,
                    ArtifactFault,
                >(None),
                Err(e) => span_in(path@, self@, tensor_name@, known_length(*file_len)) == Err::<
                    Option<TensorSpan>,
                    ArtifactFault,
                >(e@),
            },
    {
        let metadata = match self.tensors.lookup(tensor_name) {
            Some(metadata) => metadata.copy(),
            None => {
                return Ok(None);
            },
        };
        let start: usize = metadata.data_offsets[0];
        let end: usize = metadata.data_offsets[1];
        if end < start {
            return Err(
                invalid_safetensors_data(
                    path,
                    about_tensor(tensor_name, " data_offsets start is after end"),
                ),
            );
        }
        let tensor_len: usize = end - start;
        let expected: usize = match expected_tensor_byte_len(path, tensor_name, &metadata) {
            Ok(expected) => expected,
            Err(error) => {
                return Err(error);
            },
        };
        if tensor_len != expected {
            return Err(
                invalid_safetensors_data(
                    path,
                    cat7(
                        "tensor ",
                        tensor_name,
                        " metadata expects ",
                        decimal_usize(expected).as_str(),
                        " bytes but data_offsets describe ",
                        decimal_usize(tensor_len).as_str(),
                        " bytes",
                    ),
                ),
            );
        }
        let payload: usize = match self.header_len.checked_add(8) {
            Some(payload) => payload,
            None => {
                return Err(
                    invalid_safetensors_data(
                        path,
                        "safetensors payload start offset overflowed".to_owned(),
                    ),
                );
            },
        };
        let absolute_start: usize = match payload.checked_add(start) {
            Some(offset) => offset,
            None => {
                return Err(
                    invalid_safetensors_data(
                        path,
                        about_tensor(tensor_name, " start offset overflowed"),
                    ),
                );
            },
        };
        let absolute_end: usize = match payload.checked_add(end) {
            Some(offset) => offset,
            None => {
                return Err(
                    invalid_safetensors_data(
                        path,
                        about_tensor(tensor_name, " end offset overflowed"),
                    ),
                );
            },
        };
        match file_len {
            Ok(len) => {
                if absolute_end as u64 > *len {
                    return Err(
                        invalid_safetensors_data(
                            path,
                            about_tensor(tensor_name, " payload extends past end of shard"),
                        ),
                    );
                }
            },
            Err(message) => {
                return Err(
                    ModelArtifactError::ReadWeightShard {
                        path: path.to_owned(),
                        message: message.clone(),
                    },
                );
            },
        }
        Ok(
            Some(
                SafetensorsTensorSpan {
                    path: path.to_owned(),
                    metadata,
                    absolute_byte_offset: absolute_start as u64,
                    byte_len: tensor_len,
                },
            ),
        )
    }

    /// Where every tensor lies in the shard, in the order of their names.
    pub fn tensor_span_entries(&self, path: &str, file_len: &Result<u64, String>) -> (entries:
        Result<Vec<(String, SafetensorsTensorSpan)>, ModelArtifactError>)
        requires
            self.wf(),
        ensures
            match entries {
                Ok(list) => spans_in(
                    path@,
                    self@,
                    known_length(*file_len),
                    self@.tensors.len(),
                ) == Ok::<Seq<(Seq<char>, TensorSpan)>, ArtifactFault>(span_entries(list@)),
                Err(e) => spans_in(
                    path@,
                    self@,
                    known_length(*file_len),
                    self@.tensors.len(),
                ) == Err::<Seq<(Seq<char>, TensorSpan)>, ArtifactFault>(e@),
            },
    {
        let mut entries: Vec<(String, SafetensorsTensorSpan)> = Vec::new();
        let ghost len = known_length(*file_len);
        let total: usize = self.tensors.len();
        let mut i: usize = 0;
        proof {
            assert(span_entries(entries@) =~= Seq::empty());
        }
        while i < total
            invariant
                i <= total,
                self.wf(),
                total == self.tensors.pairs().len(),
                total == self@.tensors.len(),
                len == known_length(*file_len),
                spans_in(path@, self@, len, i as nat) == Ok::<
                    Seq<(Seq<char>, TensorSpan)>,
                    ArtifactFault,
                >(span_entries(entries@)),
            decreases total - i,
        {
            let name = self.tensors.key_at(i);
            proof {
                assert(name@ == self@.tensors[i as int].0);
            }
            match self.tensor_span(path, name, file_len) {
                Ok(Some(span)) => {
                    let ghost before = entries@;
                    entries.push((name.to_owned(), span));
                    proof {
                        assert(span_entries(entries@) =~= span_entries(before).push(
                            (name@, span@),
                        ));
                    }
                },
                Ok(None) => {},
                Err(error) => {
                    proof {
                        lemma_span_fault_stays(
                            path@,
                            self@,
                            len,
                            (i + 1) as nat,
                            self@.tensors.len(),
                        );
                    }
                    return Err(error);
                },
            }
            i = i + 1;
        }
        Ok(entries)
    }

    /// The type of the first weight of a routed expert in the header.
    pub fn routed_expert_weight_dtype(&self) -> (dtype: Option<String>)
        requires
            self.wf(),
        ensures
            match dtype {
                Some(text) => expert_dtype_from(self@.tensors, 0) == Some(text@),
                None => expert_dtype_from(self@.tensors, 0) is None,
            },
    {
        let total: usize = self.tensors.len();
        let mut i: usize = 0;
        while i < total
            invariant
                i <= total,
                total == self.tensors.pairs().len(),
                total == self@.tensors.len(),
                expert_dtype_from(self@.tensors, 0) == expert_dtype_from(self@.tensors, i as nat),
            decreases total - i,
        {
            let name = self.tensors.key_at(i);
            let metadata = self.tensors.value_at(i);
            proof {
                assert(self@.tensors[i as int] == (name@, metadata@));
            }
            if is_routed_expert_weight(name) {
                return Some(metadata.dtype.clone());
            }
            i = i + 1;
        }
        None
    }
}

} // verus!
