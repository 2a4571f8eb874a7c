//! Where each key and value stands in a paged cache.
use std::ops::Range;

use vstd::arithmetic::div_mod::*;
use vstd::arithmetic::mul::*;
use vstd::prelude::*;
use vstd::string::*;

use crate::kv_cache::KvCacheRuntimeLayout;
use crate::text::{cat2, cat3, cat4, cat5, cat7, decimal, decimal_usize};

verus! {

/// Why a paged cache has no layout, or has nothing at the place asked for.
#[derive(Clone, Debug, PartialEq, Eq)]
pub enum PagedKvCacheLayoutError {
    ZeroPageCount,
    ZeroLayoutField(&'static str),
    RuntimePageSizeMismatch { expected: usize, actual: usize },
    UnevenLayerLayout { bytes_per_token: usize, num_layers: usize },
    UnevenTensorLayout { bytes_per_token_per_layer: usize, kv_tensors_per_token: usize },
    SizeOverflow,
    PageOutOfRange { page_index: usize, page_count: usize },
    LayerOutOfRange { layer_index: usize, layer_count: usize },
    TensorOutOfRange { tensor_index: usize, tensor_count: usize },
    TokenOutOfRange { token_index: usize, page_size: usize },
    SlotOutOfRange { slot_index: usize, slot_count: usize },
    EmptySlotMap,
    BatchSlotOutOfRange { batch_index: usize, slot_index: usize, slot_count: usize },
    KvPairRequiresTwoTensors { tensor_count: usize },
    TensorPairRequiresTwoTensors { tensor_count: usize },
    TensorPairSizeMismatch {
        bytes_per_token_per_layer: usize,
        key_token_bytes: usize,
        value_token_bytes: usize,
    },
    UnevenKvPairCopy { key_token_bytes: usize, value_token_bytes: usize },
}

/// The numeral of a size.
pub open spec fn dec(n: usize) -> Seq<char> {
    decimal(n as nat)
}

impl PagedKvCacheLayoutError {
    /// The message that the error is reported with.
    pub open spec fn message(self) -> Seq<char> {
        match self {
            PagedKvCacheLayoutError::ZeroPageCount => "KV cache page count must be non-zero"@,
            PagedKvCacheLayoutError::ZeroLayoutField(field) => "KV cache layout field "@ + field@
                + " must be non-zero"@,
            PagedKvCacheLayoutError::RuntimePageSizeMismatch { expected, actual } =>
                "KV cache runtime page size is "@ + dec(actual)
                    + " bytes but page_size * bytes_per_token requires "@ + dec(expected)
                    + " bytes"@,
            PagedKvCacheLayoutError::UnevenLayerLayout { bytes_per_token, num_layers } =>
                "KV cache token size "@ + dec(bytes_per_token) + " bytes is not divisible by "@
                    + dec(num_layers) + " layers"@,
            PagedKvCacheLayoutError::UnevenTensorLayout {
                bytes_per_token_per_layer,
                kv_tensors_per_token,
            } => "KV cache per-layer token size "@ + dec(bytes_per_token_per_layer)
                + " bytes is not divisible by "@ + dec(kv_tensors_per_token) + " KV tensors"@,
            PagedKvCacheLayoutError::SizeOverflow => "KV cache layout size overflowed"@,
            PagedKvCacheLayoutError::PageOutOfRange { page_index, page_count } =>
                "KV cache page index "@ + dec(page_index) + " is outside "@ + dec(page_count)
                    + " pages"@,
            PagedKvCacheLayoutError::LayerOutOfRange { layer_index, layer_count } =>
                "KV cache layer index "@ + dec(layer_index) + " is outside "@ + dec(layer_count)
                    + " layers"@,
            PagedKvCacheLayoutError::TensorOutOfRange { tensor_index, tensor_count } =>
                "KV cache tensor index "@ + dec(tensor_index) + " is outside "@ + dec(tensor_count)
                    + " tensors per token"@,
            PagedKvCacheLayoutError::TokenOutOfRange { token_index, page_size } =>
                "KV cache token index "@ + dec(token_index) + " is outside page size "@ + dec(
                page_size,
            ),
            PagedKvCacheLayoutError::SlotOutOfRange { slot_index, slot_count } =>
                "KV cache slot index "@ + dec(slot_index) + " is outside "@ + dec(slot_count)
                    + " token slots"@,
            PagedKvCacheLayoutError::EmptySlotMap => "KV cache slot map must not be empty"@,
            PagedKvCacheLayoutError::BatchSlotOutOfRange { batch_index, slot_index, slot_count } =>
                "KV cache batch slot "@ + dec(batch_index) + " references physical slot "@ + dec(
                slot_index,
            ) + ", outside "@ + dec(slot_count) + " token slots"@,
            PagedKvCacheLayoutError::KvPairRequiresTwoTensors { tensor_count } =>
                "KV cache K/V pair layout requires at least two tensors per token, layout has "@
                    + dec(tensor_count),
            PagedKvCacheLayoutError::TensorPairRequiresTwoTensors { tensor_count } =>
                "explicit KV tensor-pair layout requires exactly two tensors per token, layout has "@
                    + dec(tensor_count),
            PagedKvCacheLayoutError::TensorPairSizeMismatch {
                bytes_per_token_per_layer,
                key_token_bytes,
                value_token_bytes,
            } => "KV tensor-pair widths ("@ + dec(key_token_bytes) + " key bytes + "@ + dec(
                value_token_bytes,
            ) + " value bytes) do not match the runtime per-layer token size of "@ + dec(
                bytes_per_token_per_layer,
            ) + " bytes"@,
            PagedKvCacheLayoutError::UnevenKvPairCopy { key_token_bytes, value_token_bytes } =>
                "the selected KV copy/attention kernel requires equal key and value widths, but the layout has "@
                    + dec(key_token_bytes) + " key bytes and "@ + dec(value_token_bytes)
                    + " value bytes per token"@,
        }
    }

    /// The message that the error is reported with.
    pub fn to_string(&self) -> (message: String)
        ensures
            message@ == self.message(),
    {
        match self {
            PagedKvCacheLayoutError::ZeroPageCount =>
                "KV cache page count must be non-zero".to_owned(),
            PagedKvCacheLayoutError::ZeroLayoutField(field) => cat3(
                "KV cache layout field ",
                field,
                " must be non-zero",
            ),
            PagedKvCacheLayoutError::RuntimePageSizeMismatch { expected, actual } => cat5(
                "KV cache runtime page size is ",
                decimal_usize(*actual).as_str(),
                " bytes but page_size * bytes_per_token requires ",
                decimal_usize(*expected).as_str(),
                " bytes",
            ),
            PagedKvCacheLayoutError::UnevenLayerLayout { bytes_per_token, num_layers } => cat5(
                "KV cache token size ",
                decimal_usize(*bytes_per_token).as_str(),
                " bytes is not divisible by ",
                decimal_usize(*num_layers).as_str(),
                " layers",
            ),
            PagedKvCacheLayoutError::UnevenTensorLayout {
                bytes_per_token_per_layer,
                kv_tensors_per_token,
            } => cat5(
                "KV cache per-layer token size ",
                decimal_usize(*bytes_per_token_per_layer).as_str(),
                " bytes is not divisible by ",
                decimal_usize(*kv_tensors_per_token).as_str(),
                " KV tensors",
            ),
            PagedKvCacheLayoutError::SizeOverflow => "KV cache layout size overflowed".to_owned(),
            PagedKvCacheLayoutError::PageOutOfRange { page_index, page_count } => cat5(
                "KV cache page index ",
                decimal_usize(*page_index).as_str(),
                " is outside ",
                decimal_usize(*page_count).as_str(),
                " pages",
            ),
            PagedKvCacheLayoutError::LayerOutOfRange { layer_index, layer_count } => cat5(
                "KV cache layer index ",
                decimal_usize(*layer_index).as_str(),
                " is outside ",
                decimal_usize(*layer_count).as_str(),
                " layers",
            ),
            PagedKvCacheLayoutError::TensorOutOfRange { tensor_index, tensor_count } => cat5(
                "KV cache tensor index ",
                decimal_usize(*tensor_index).as_str(),
                " is outside ",
                decimal_usize(*tensor_count).as_str(),
                " tensors per token",
            ),
            PagedKvCacheLayoutError::TokenOutOfRange { token_index, page_size } => cat4(
                "KV cache token index ",
                decimal_usize(*token_index).as_str(),
                " is outside page size ",
                decimal_usize(*page_size).as_str(),
            ),
            PagedKvCacheLayoutError::SlotOutOfRange { slot_index, slot_count } => cat5(
                "KV cache slot index ",
                decimal_usize(*slot_index).as_str(),
                " is outside ",
                decimal_usize(*slot_count).as_str(),
                " token slots",
            ),
            PagedKvCacheLayoutError::EmptySlotMap =>
                "KV cache slot map must not be empty".to_owned(),
            PagedKvCacheLayoutError::BatchSlotOutOfRange { batch_index, slot_index, slot_count } =>
                cat7(
                "KV cache batch slot ",
                decimal_usize(*batch_index).as_str(),
                " references physical slot ",
                decimal_usize(*slot_index).as_str(),
                ", outside ",
                decimal_usize(*slot_count).as_str(),
                " token slots",
            ),
            PagedKvCacheLayoutError::KvPairRequiresTwoTensors { tensor_count } => cat2(
                "KV cache K/V pair layout requires at least two tensors per token, layout has ",
                decimal_usize(*tensor_count).as_str(),
            ),
            PagedKvCacheLayoutError::TensorPairRequiresTwoTensors { tensor_count } => cat2(
                "explicit KV tensor-pair layout requires exactly two tensors per token, layout has ",
                decimal_usize(*tensor_count).as_str(),
            ),
            PagedKvCacheLayoutError::TensorPairSizeMismatch {
                bytes_per_token_per_layer,
                key_token_bytes,
                value_token_bytes,
            } => cat7(
                "KV tensor-pair widths (",
                decimal_usize(*key_token_bytes).as_str(),
                " key bytes + ",
                decimal_usize(*value_token_bytes).as_str(),
                " value bytes) do not match the runtime per-layer token size of ",
                decimal_usize(*bytes_per_token_per_layer).as_str(),
                " bytes",
            ),
            PagedKvCacheLayoutError::UnevenKvPairCopy { key_token_bytes, value_token_bytes } =>
                cat5(
                "the selected KV copy/attention kernel requires equal key and value widths, but the layout has ",
                decimal_usize(*key_token_bytes).as_str(),
                " key bytes and ",
                decimal_usize(*value_token_bytes).as_str(),
                " value bytes per token",
            ),
        }
    }
}

/// Where a copy of keys and values finds them.
#[derive(Clone, Copy, Debug, PartialEq, Eq, Structural)]
pub struct KvPairCopyGeometry {
    pub page_size: usize,
    pub page_stride_bytes: usize,
    pub key_offset_bytes: usize,
    pub value_offset_bytes: usize,
    pub token_bytes: usize,
}

#[derive(Clone, Copy, Debug, PartialEq, Eq, Structural)]
enum PagedKvTensorGeometry {
    Uniform { token_bytes: usize, page_bytes: usize },
    Pair { key_token_bytes: usize, value_token_bytes: usize, key_page_bytes: usize },
}

/// The layout of a paged cache. A page holds the layers one after the other, a layer its tensors,
/// and a tensor its tokens.
#[derive(Clone, Copy, Debug, PartialEq, Eq, Structural)]
pub struct PagedKvCacheLayout {
    runtime: KvCacheRuntimeLayout,
    page_count: usize,
    bytes_per_token_per_layer: usize,
    bytes_per_layer_page: usize,
    tensor_geometry: PagedKvTensorGeometry,
    total_byte_len: usize,
    slot_count: usize,
}

/// The widths of the tensors of a paged cache.
pub enum Widths {
    /// All tensors have the same width.
    Uniform,
    /// The key and the value have widths of their own.
    Pair { key: nat, value: nat },
}

/// What a [`PagedKvCacheLayout`] is made of.
pub struct Paged {
    pub runtime: KvCacheRuntimeLayout,
    pub page_count: nat,
    pub widths: Widths,
}

impl View for PagedKvCacheLayout {
    type V = Paged;

    closed spec fn view(&self) -> Paged {
        Paged {
            runtime: self.runtime,
            page_count: self.page_count as nat,
            widths: match self.tensor_geometry {
                PagedKvTensorGeometry::Uniform { token_bytes, page_bytes } => Widths::Uniform,
                PagedKvTensorGeometry::Pair {
                    key_token_bytes,
                    value_token_bytes,
                    key_page_bytes,
                } => Widths::Pair { key: key_token_bytes as nat, value: value_token_bytes as nat },
            },
        }
    }
}

/// The bytes of one token in one layer.
pub open spec fn layer_token_bytes(runtime: KvCacheRuntimeLayout) -> nat {
    (runtime.bytes_per_token as nat) / (runtime.num_layers as nat)
}

impl Paged {
    /// The bytes of one token in one layer.
    pub open spec fn layer_token(self) -> nat {
        layer_token_bytes(self.runtime)
    }

    /// The bytes of one layer in one page.
    pub open spec fn layer_page(self) -> nat {
        self.runtime.page_size as nat * self.layer_token()
    }

    /// The bytes of one token in a tensor.
    pub open spec fn tensor_token(self, tensor: nat) -> nat {
        match self.widths {
            Widths::Uniform => self.layer_token() / (self.runtime.kv_tensors_per_token as nat),
            Widths::Pair { key, value } => if tensor == 0 {
                key
            } else {
                value
            },
        }
    }

    /// Where a tensor starts within its layer and page.
    pub open spec fn tensor_offset(self, tensor: nat) -> nat {
        match self.widths {
            Widths::Uniform => tensor * (self.runtime.page_size as nat * self.tensor_token(0)),
            Widths::Pair { key, value } => if tensor == 0 {
                0
            } else {
                self.runtime.page_size as nat * key
            },
        }
    }

    /// The bytes of the cache.
    pub open spec fn total_bytes(self) -> nat {
        self.page_count * self.runtime.page_size_bytes as nat
    }

    /// The token slots of the cache.
    pub open spec fn slots(self) -> nat {
        self.page_count * self.runtime.page_size as nat
    }

    /// Where a token of a tensor starts.
    pub open spec fn start(self, page: nat, layer: nat, tensor: nat, token: nat) -> nat {
        page * self.runtime.page_size_bytes as nat + layer * self.layer_page()
            + self.tensor_offset(tensor) + token * self.tensor_token(tensor)
    }

    /// Where a token of a tensor ends.
    pub open spec fn end(self, page: nat, layer: nat, tensor: nat, token: nat) -> nat {
        self.start(page, layer, tensor, token) + self.tensor_token(tensor)
    }

    /// Whether there is a token at that place.
    pub open spec fn has(self, page: nat, layer: nat, tensor: nat, token: nat) -> bool {
        page < self.page_count && layer < self.runtime.num_layers && tensor
            < self.runtime.kv_tensors_per_token && token < self.runtime.page_size
    }

    /// The sizes fit together, and the cache fits in the address space.
    pub open spec fn valid(self) -> bool {
        &&& 0 < self.page_count <= usize::MAX
        &&& self.runtime.page_size > 0
        &&& self.runtime.num_layers > 0
        &&& self.runtime.kv_tensors_per_token > 0
        &&& self.runtime.bytes_per_token > 0
        &&& self.runtime.page_size_bytes == self.runtime.page_size * self.runtime.bytes_per_token
        &&& self.runtime.bytes_per_token % self.runtime.num_layers == 0
        &&& self.total_bytes() <= usize::MAX
        &&& match self.widths {
            Widths::Uniform => self.layer_token() % (self.runtime.kv_tensors_per_token as nat) == 0,
            Widths::Pair { key, value } => self.runtime.kv_tensors_per_token == 2 && 0 < key && 0
                < value && key + value == self.layer_token(),
        }
    }
}

/// The first size that is zero.
pub open spec fn zero_field(runtime: KvCacheRuntimeLayout) -> Option<&'static str> {
    if runtime.page_size == 0 {
        Some("page_size")
    } else if runtime.num_layers == 0 {
        Some("num_layers")
    } else if runtime.kv_heads == 0 {
        Some("kv_heads")
    } else if runtime.head_dim == 0 {
        Some("head_dim")
    } else if runtime.kv_tensors_per_token == 0 {
        Some("kv_tensors_per_token")
    } else if runtime.bytes_per_token == 0 {
        Some("bytes_per_token")
    } else if runtime.page_size_bytes == 0 {
        Some("page_size_bytes")
    } else {
        None
    }
}

/// What keeps the sizes from fitting together.
pub open spec fn runtime_fault(runtime: KvCacheRuntimeLayout, page_count: usize) -> Option<
    PagedKvCacheLayoutError,
> {
    if page_count == 0 {
        Some(PagedKvCacheLayoutError::ZeroPageCount)
    } else if zero_field(runtime) is Some {
        Some(PagedKvCacheLayoutError::ZeroLayoutField(zero_field(runtime)->0))
    } else if runtime.page_size * runtime.bytes_per_token > usize::MAX {
        Some(PagedKvCacheLayoutError::SizeOverflow)
    } else if runtime.page_size_bytes != runtime.page_size * runtime.bytes_per_token {
        Some(
            PagedKvCacheLayoutError::RuntimePageSizeMismatch {
                expected: (runtime.page_size * runtime.bytes_per_token) as usize,
                actual: runtime.page_size_bytes,
            },
        )
    } else if runtime.bytes_per_token % runtime.num_layers != 0 {
        Some(
            PagedKvCacheLayoutError::UnevenLayerLayout {
                bytes_per_token: runtime.bytes_per_token,
                num_layers: runtime.num_layers,
            },
        )
    } else if page_count * runtime.page_size_bytes > usize::MAX {
        Some(PagedKvCacheLayoutError::SizeOverflow)
    } else {
        None
    }
}

/// What keeps the sizes from a layout with tensors of the same width.
pub open spec fn uniform_fault(runtime: KvCacheRuntimeLayout, page_count: usize) -> Option<
    PagedKvCacheLayoutError,
> {
    if runtime_fault(runtime, page_count) is Some {
        runtime_fault(runtime, page_count)
    } else if layer_token_bytes(runtime) % (runtime.kv_tensors_per_token as nat) != 0 {
        Some(
            PagedKvCacheLayoutError::UnevenTensorLayout {
                bytes_per_token_per_layer: layer_token_bytes(runtime) as usize,
                kv_tensors_per_token: runtime.kv_tensors_per_token,
            },
        )
    } else {
        None
    }
}

/// What keeps the sizes from a layout with a key and a value of their own widths.
pub open spec fn pair_fault(
    runtime: KvCacheRuntimeLayout,
    page_count: usize,
    key_token_bytes: usize,
    value_token_bytes: usize,
) -> Option<PagedKvCacheLayoutError> {
    if runtime_fault(runtime, page_count) is Some {
        runtime_fault(runtime, page_count)
    } else if runtime.kv_tensors_per_token != 2 {
        Some(
            PagedKvCacheLayoutError::TensorPairRequiresTwoTensors {
                tensor_count: runtime.kv_tensors_per_token,
            },
        )
    } else if key_token_bytes == 0 {
        Some(PagedKvCacheLayoutError::ZeroLayoutField("key_token_bytes"))
    } else if value_token_bytes == 0 {
        Some(PagedKvCacheLayoutError::ZeroLayoutField("value_token_bytes"))
    } else if key_token_bytes + value_token_bytes > usize::MAX {
        Some(PagedKvCacheLayoutError::SizeOverflow)
    } else if key_token_bytes + value_token_bytes != layer_token_bytes(runtime) {
        Some(
            PagedKvCacheLayoutError::TensorPairSizeMismatch {
                bytes_per_token_per_layer: layer_token_bytes(runtime) as usize,
                key_token_bytes,
                value_token_bytes,
            },
        )
    } else {
        None
    }
}

/// Why there is no token at a place.
pub open spec fn place_fault(
    layout: Paged,
    page_index: usize,
    layer_index: usize,
    tensor_index: usize,
    token_index: usize,
) -> Option<PagedKvCacheLayoutError> {
    if page_index >= layout.page_count {
        Some(
            PagedKvCacheLayoutError::PageOutOfRange {
                page_index,
                page_count: layout.page_count as usize,
            },
        )
    } else if layer_index >= layout.runtime.num_layers {
        Some(
            PagedKvCacheLayoutError::LayerOutOfRange {
                layer_index,
                layer_count: layout.runtime.num_layers,
            },
        )
    } else if tensor_index >= layout.runtime.kv_tensors_per_token {
        Some(
            PagedKvCacheLayoutError::TensorOutOfRange {
                tensor_index,
                tensor_count: layout.runtime.kv_tensors_per_token,
            },
        )
    } else if token_index >= layout.runtime.page_size {
        Some(
            PagedKvCacheLayoutError::TokenOutOfRange {
                token_index,
                page_size: layout.runtime.page_size,
            },
        )
    } else {
        None
    }
}

/// `a * b` is monotone in `a`.
proof fn lemma_scaled(a: int, b: int, c: int)
    requires
        0 <= a < b,
        0 <= c,
    ensures
        a * c + c <= b * c,
        0 <= a * c,
{
    assert(a * c + c == (a + 1) * c) by (nonlinear_arith);
    assert((a + 1) * c <= b * c) by (nonlinear_arith)
        requires
            a + 1 <= b,
            0 <= c,
    ;
    assert(0 <= a * c) by (nonlinear_arith)
        requires
            0 <= a,
            0 <= c,
    ;
}

impl Paged {
    /// A page is its layers, and a layer page its tensors.
    proof fn lemma_sizes(self)
        requires
            self.valid(),
        ensures
            self.layer_token() > 0,
            self.layer_token() * self.runtime.num_layers == self.runtime.bytes_per_token,
            self.layer_page() * self.runtime.num_layers == self.runtime.page_size_bytes,
            self.widths is Uniform ==> self.tensor_token(0) * self.runtime.kv_tensors_per_token
                == self.layer_token() && self.tensor_token(0) > 0,
            self.widths is Uniform ==> (self.runtime.page_size as nat * self.tensor_token(0))
                * self.runtime.kv_tensors_per_token == self.layer_page(),
            self.widths matches Widths::Pair { key, value } ==> self.runtime.page_size as nat * key
                + self.runtime.page_size as nat * value == self.layer_page(),
            self.layer_page() <= self.runtime.page_size_bytes,
            self.slots() <= self.total_bytes(),
    {
        let bpt = self.runtime.bytes_per_token as int;
        let layers = self.runtime.num_layers as int;
        let page = self.runtime.page_size as int;
        lemma_fundamental_div_mod(bpt, layers);
        let token = self.layer_token() as int;
        assert(token * layers == bpt) by (nonlinear_arith)
            requires
                bpt == layers * token,
        ;
        assert(token > 0) by (nonlinear_arith)
            requires
                token * layers == bpt,
                bpt > 0,
                layers > 0,
        ;
        assert((page * token) * layers == page * bpt) by (nonlinear_arith)
            requires
                token * layers == bpt,
        ;
        assert(page * token <= page * bpt) by (nonlinear_arith)
            requires
                token * layers == bpt,
                layers > 0,
                token > 0,
                page > 0,
        ;
        let count = self.page_count as int;
        assert(count * page <= count * (page * bpt)) by (nonlinear_arith)
            requires
                count > 0,
                page > 0,
                bpt > 0,
        ;
        match self.widths {
            Widths::Uniform => {
                let tensors = self.runtime.kv_tensors_per_token as int;
                lemma_fundamental_div_mod(token, tensors);
                let width = self.tensor_token(0) as int;
                assert(width * tensors == token) by (nonlinear_arith)
                    requires
                        token == tensors * width,
                ;
                assert(width > 0) by (nonlinear_arith)
                    requires
                        width * tensors == token,
                        token > 0,
                        tensors > 0,
                ;
                assert((page * width) * tensors == page * token) by (nonlinear_arith)
                    requires
                        width * tensors == token,
                ;
            },
            Widths::Pair { key, value } => {
                assert(page * key + page * value == page * (key + value)) by (nonlinear_arith);
            },
        }
    }

    /// A tensor page lies within its layer page, and the tensor pages follow each other.
    proof fn lemma_tensor_page(self, tensor: nat)
        requires
            self.valid(),
            tensor < self.runtime.kv_tensors_per_token,
        ensures
            self.tensor_token(tensor) > 0,
            self.tensor_offset(tensor) + self.runtime.page_size as nat * self.tensor_token(tensor)
                <= self.layer_page(),
            tensor + 1 < self.runtime.kv_tensors_per_token ==> self.tensor_offset(tensor)
                + self.runtime.page_size as nat * self.tensor_token(tensor) == self.tensor_offset(
                tensor + 1,
            ),
            tensor + 1 == self.runtime.kv_tensors_per_token ==> self.tensor_offset(tensor)
                + self.runtime.page_size as nat * self.tensor_token(tensor) == self.layer_page(),
    {
        self.lemma_sizes();
        match self.widths {
            Widths::Uniform => {
                let page_bytes = (self.runtime.page_size as nat * self.tensor_token(0)) as int;
                lemma_scaled(tensor as int, self.runtime.kv_tensors_per_token as int, page_bytes);
                assert(tensor * page_bytes + page_bytes == (tensor + 1) * page_bytes)
                    by (nonlinear_arith);
                assert((tensor + 1) * page_bytes == page_bytes * (tensor + 1)) by (nonlinear_arith);
                assert(page_bytes * self.runtime.kv_tensors_per_token
                    == self.runtime.kv_tensors_per_token * page_bytes) by (nonlinear_arith);
            },
            Widths::Pair { key, value } => {
            },
        }
    }

    /// Where a token stands within its page.
    proof fn lemma_place(self, page: nat, layer: nat, tensor: nat, token: nat)
        requires
            self.valid(),
            self.has(page, layer, tensor, token),
        ensures
            self.tensor_token(tensor) > 0,
            token * self.tensor_token(tensor) + self.tensor_token(tensor)
                <= self.runtime.page_size as nat * self.tensor_token(tensor),
            self.tensor_offset(tensor) + token * self.tensor_token(tensor) + self.tensor_token(
                tensor,
            ) <= self.layer_page(),
            layer * self.layer_page() + self.layer_page() <= self.runtime.page_size_bytes,
            page * self.runtime.page_size_bytes + self.runtime.page_size_bytes
                <= self.total_bytes(),
            page * self.runtime.page_size_bytes <= self.start(page, layer, tensor, token),
            self.end(page, layer, tensor, token) <= page * self.runtime.page_size_bytes
                + self.runtime.page_size_bytes,
    {
        self.lemma_sizes();
        self.lemma_tensor_page(tensor);
        lemma_scaled(
            token as int,
            self.runtime.page_size as int,
            self.tensor_token(tensor) as int,
        );
        lemma_scaled(layer as int, self.runtime.num_layers as int, self.layer_page() as int);
        assert(self.runtime.num_layers * self.layer_page() == self.layer_page()
            * self.runtime.num_layers) by (nonlinear_arith);
        lemma_scaled(
            page as int,
            self.page_count as int,
            self.runtime.page_size_bytes as int,
        );
    }

    /// Every token lies within its page, and every page within the cache.
    pub proof fn tokens_lie_in_their_pages(self, page: nat, layer: nat, tensor: nat, token: nat)
        requires
            self.valid(),
            self.has(page, layer, tensor, token),
        ensures
            page * self.runtime.page_size_bytes <= self.start(page, layer, tensor, token),
            self.start(page, layer, tensor, token) < self.end(page, layer, tensor, token),
            self.end(page, layer, tensor, token) <= (page + 1) * self.runtime.page_size_bytes,
            (page + 1) * self.runtime.page_size_bytes <= self.total_bytes(),
    {
        self.lemma_place(page, layer, tensor, token);
        assert((page + 1) * self.runtime.page_size_bytes == page * self.runtime.page_size_bytes
            + self.runtime.page_size_bytes) by (nonlinear_arith);
    }

    /// The tensor pages ascend.
    proof fn lemma_tensor_order(self, a: nat, b: nat)
        requires
            self.valid(),
            a < b < self.runtime.kv_tensors_per_token,
        ensures
            self.tensor_offset(a) + self.runtime.page_size as nat * self.tensor_token(a)
                <= self.tensor_offset(b),
        decreases b - a,
    {
        self.lemma_tensor_page(a);
        if a + 1 < b {
            self.lemma_tensor_order(a + 1, b);
        }
    }

    /// Different tokens share no byte.
    pub proof fn tokens_share_no_byte(
        self,
        page: nat,
        layer: nat,
        tensor: nat,
        token: nat,
        other_page: nat,
        other_layer: nat,
        other_tensor: nat,
        other_token: nat,
    )
        requires
            self.valid(),
            self.has(page, layer, tensor, token),
            self.has(other_page, other_layer, other_tensor, other_token),
            (page, layer, tensor, token) != (other_page, other_layer, other_tensor, other_token),
        ensures
            self.end(page, layer, tensor, token) <= self.start(
                other_page,
                other_layer,
                other_tensor,
                other_token,
            ) || self.end(other_page, other_layer, other_tensor, other_token) <= self.start(
                page,
                layer,
                tensor,
                token,
            ),
    {
        if (page, layer, tensor, token) == (other_page, other_layer, other_tensor, other_token) {
        } else if page < other_page || (page == other_page && (layer < other_layer || (layer
            == other_layer && (tensor < other_tensor || (tensor == other_tensor && token
            < other_token))))) {
            self.lemma_ordered(
                page,
                layer,
                tensor,
                token,
                other_page,
                other_layer,
                other_tensor,
                other_token,
            );
        } else {
            self.lemma_ordered(
                other_page,
                other_layer,
                other_tensor,
                other_token,
                page,
                layer,
                tensor,
                token,
            );
        }
    }

    proof fn lemma_ordered(
        self,
        page: nat,
        layer: nat,
        tensor: nat,
        token: nat,
        later_page: nat,
        later_layer: nat,
        later_tensor: nat,
        later_token: nat,
    )
        requires
            self.valid(),
            self.has(page, layer, tensor, token),
            self.has(later_page, later_layer, later_tensor, later_token),
            page < later_page || (page == later_page && (layer < later_layer || (layer
                == later_layer && (tensor < later_tensor || (tensor == later_tensor && token
                < later_token))))),
        ensures
            self.end(page, layer, tensor, token) <= self.start(
                later_page,
                later_layer,
                later_tensor,
                later_token,
            ),
    {
        self.lemma_place(page, layer, tensor, token);
        self.lemma_place(later_page, later_layer, later_tensor, later_token);
        if page < later_page {
            lemma_scaled(page as int, later_page as int, self.runtime.page_size_bytes as int);
        } else if layer < later_layer {
            lemma_scaled(layer as int, later_layer as int, self.layer_page() as int);
        } else if tensor < later_tensor {
            self.lemma_tensor_order(tensor, later_tensor);
        } else {
            lemma_scaled(token as int, later_token as int, self.tensor_token(tensor) as int);
        }
    }

    /// Every byte of the cache belongs to a token.
    pub proof fn every_byte_belongs_to_a_token(self, byte: nat) -> (place: (nat, nat, nat, nat))
        requires
            self.valid(),
            byte < self.total_bytes(),
        ensures
            self.has(place.0, place.1, place.2, place.3),
            self.start(place.0, place.1, place.2, place.3) <= byte < self.end(
                place.0,
                place.1,
                place.2,
                place.3,
            ),
    {
        self.lemma_sizes();
        let psb = self.runtime.page_size_bytes as int;
        let lp = self.layer_page() as int;
        assert(psb > 0 && lp > 0) by (nonlinear_arith)
            requires
                psb == self.runtime.page_size * self.runtime.bytes_per_token,
                self.runtime.page_size > 0,
                self.runtime.bytes_per_token > 0,
                lp == self.runtime.page_size * self.layer_token(),
                self.layer_token() > 0,
        ;
        let (page, in_page) = lemma_split(byte as int, psb, self.page_count as int);
        assert(self.runtime.num_layers * lp == lp * self.runtime.num_layers) by (nonlinear_arith);
        let (layer, in_layer) = lemma_split(in_page, lp, self.runtime.num_layers as int);
        let tensor = self.tensor_holding(in_layer as nat);
        let in_tensor = in_layer - self.tensor_offset(tensor);
        self.lemma_tensor_page(tensor);
        let (token, rest) = lemma_split(
            in_tensor,
            self.tensor_token(tensor) as int,
            self.runtime.page_size as int,
        );
        (page as nat, layer as nat, tensor, token as nat)
    }

    /// The tensor whose page holds a byte of a layer page.
    proof fn tensor_holding(self, byte: nat) -> (tensor: nat)
        requires
            self.valid(),
            byte < self.layer_page(),
        ensures
            tensor < self.runtime.kv_tensors_per_token,
            self.tensor_offset(tensor) <= byte < self.tensor_offset(tensor)
                + self.runtime.page_size as nat * self.tensor_token(tensor),
    {
        self.lemma_sizes();
        match self.widths {
            Widths::Uniform => {
                let page_bytes = (self.runtime.page_size as nat * self.tensor_token(0)) as int;
                assert(page_bytes > 0) by (nonlinear_arith)
                    requires
                        page_bytes == self.runtime.page_size * self.tensor_token(0),
                        self.runtime.page_size > 0,
                        self.tensor_token(0) > 0,
                ;
                assert(page_bytes * self.runtime.kv_tensors_per_token
                    == self.runtime.kv_tensors_per_token * page_bytes) by (nonlinear_arith);
                let (tensor, rest) = lemma_split(
                    byte as int,
                    page_bytes,
                    self.runtime.kv_tensors_per_token as int,
                );
                tensor as nat
            },
            Widths::Pair { key, value } => {
                if byte < self.runtime.page_size as nat * key {
                    0
                } else {
                    1
                }
            },
        }
    }

    /// A slot and its token name each other.
    pub proof fn slots_are_tokens(self, slot: nat)
        requires
            self.valid(),
            slot < self.slots(),
        ensures
            slot / (self.runtime.page_size as nat) < self.page_count,
            slot % (self.runtime.page_size as nat) < self.runtime.page_size,
            (slot / (self.runtime.page_size as nat)) * self.runtime.page_size as nat + slot % (
            self.runtime.page_size as nat) == slot,
    {
        let (page, token) = lemma_split(
            slot as int,
            self.runtime.page_size as int,
            self.page_count as int,
        );
    }
}

/// Splits `n` into `n / d` and `n % d`.
proof fn lemma_split(n: int, d: int, count: int) -> (parts: (int, int))
    requires
        0 <= n < count * d,
        0 < d,
    ensures
        parts.0 == n / d,
        parts.1 == n % d,
        0 <= parts.0 < count,
        0 <= parts.1 < d,
        parts.0 * d + parts.1 == n,
{
    lemma_fundamental_div_mod(n, d);
    lemma_mod_bound(n, d);
    let q = n / d;
    let r = n % d;
    assert(q * d == d * q) by (nonlinear_arith);
    assert(0 <= q < count) by (nonlinear_arith)
        requires
            q * d + r == n,
            0 <= r < d,
            0 <= n < count * d,
    ;
    (q, r)
}

impl PagedKvCacheLayout {
    /// The stored sizes are those that the layout calls for.
    pub closed spec fn wf(self) -> bool {
        &&& self@.valid()
        &&& self.bytes_per_token_per_layer == self@.layer_token()
        &&& self.bytes_per_layer_page == self@.layer_page()
        &&& self.total_byte_len == self@.total_bytes()
        &&& self.slot_count == self@.slots()
        &&& match self.tensor_geometry {
            PagedKvTensorGeometry::Uniform { token_bytes, page_bytes } => token_bytes
                == self@.tensor_token(0) && page_bytes == self@.runtime.page_size as nat
                * self@.tensor_token(0),
            PagedKvTensorGeometry::Pair { key_token_bytes, value_token_bytes, key_page_bytes } =>
                key_page_bytes == self@.runtime.page_size as nat * key_token_bytes as nat,
        }
    }

    /// The sizes of a layout fit together.
    pub proof fn layouts_are_valid(self)
        requires
            self.wf(),
        ensures
            self@.valid(),
    {
    }

    /// A layout whose tensors all have the same width.
    pub fn new(runtime: KvCacheRuntimeLayout, page_count: usize) -> (layout: Result<
        Self,
        PagedKvCacheLayoutError,
    >)
        ensures
            match layout {
                Ok(paged) => uniform_fault(runtime, page_count) is None && paged.wf() && paged@
                    == (Paged { runtime, page_count: page_count as nat, widths: Widths::Uniform }),
                Err(error) => uniform_fault(runtime, page_count) == Some(error),
            },
    {
        let (bytes_per_token_per_layer, bytes_per_layer_page, total_byte_len, slot_count) =
            Self::validate_runtime(runtime, page_count)?;
        if bytes_per_token_per_layer % runtime.kv_tensors_per_token != 0 {
            return Err(
                PagedKvCacheLayoutError::UnevenTensorLayout {
                    bytes_per_token_per_layer,
                    kv_tensors_per_token: runtime.kv_tensors_per_token,
                },
            );
        }
        let ghost model = Paged { runtime, page_count: page_count as nat, widths: Widths::Uniform };
        proof {
            model.lemma_sizes();
        }
        let token_bytes: usize = bytes_per_token_per_layer / runtime.kv_tensors_per_token;
        proof {
            model.lemma_tensor_page(0);
        }
        let page_bytes: usize = match runtime.page_size.checked_mul(token_bytes) {
            Some(n) => n,
            None => {
                return Err(PagedKvCacheLayoutError::SizeOverflow);
            },
        };
        Ok(
            PagedKvCacheLayout {
                runtime,
                page_count,
                bytes_per_token_per_layer,
                bytes_per_layer_page,
                tensor_geometry: PagedKvTensorGeometry::Uniform { token_bytes, page_bytes },
                total_byte_len,
                slot_count,
            },
        )
    }

    /// A layout with a key and a value of their own widths.
    pub fn new_with_tensor_pair(
        runtime: KvCacheRuntimeLayout,
        page_count: usize,
        key_token_bytes: usize,
        value_token_bytes: usize,
    ) -> (layout: Result<Self, PagedKvCacheLayoutError>)
        ensures
            match layout {
                Ok(paged) => pair_fault(
                    runtime,
                    page_count,
                    key_token_bytes,
                    value_token_bytes,
                ) is None && paged.wf() && paged@ == (Paged {
                    runtime,
                    page_count: page_count as nat,
                    widths: Widths::Pair {
                        key: key_token_bytes as nat,
                        value: value_token_bytes as nat,
                    },
                }),
                Err(error) => pair_fault(runtime, page_count, key_token_bytes, value_token_bytes)
                    == Some(error),
            },
    {
        let (bytes_per_token_per_layer, bytes_per_layer_page, total_byte_len, slot_count) =
            Self::validate_runtime(runtime, page_count)?;
        if runtime.kv_tensors_per_token != 2 {
            return Err(
                PagedKvCacheLayoutError::TensorPairRequiresTwoTensors {
                    tensor_count: runtime.kv_tensors_per_token,
                },
            );
        }
        if key_token_bytes == 0 {
            return Err(PagedKvCacheLayoutError::ZeroLayoutField("key_token_bytes"));
        }
        if value_token_bytes == 0 {
            return Err(PagedKvCacheLayoutError::ZeroLayoutField("value_token_bytes"));
        }
        let pair_bytes: usize = match key_token_bytes.checked_add(value_token_bytes) {
            Some(n) => n,
            None => {
                return Err(PagedKvCacheLayoutError::SizeOverflow);
            },
        };
        if pair_bytes != bytes_per_token_per_layer {
            return Err(
                PagedKvCacheLayoutError::TensorPairSizeMismatch {
                    bytes_per_token_per_layer,
                    key_token_bytes,
                    value_token_bytes,
                },
            );
        }
        let ghost model = Paged {
            runtime,
            page_count: page_count as nat,
            widths: Widths::Pair { key: key_token_bytes as nat, value: value_token_bytes as nat },
        };
        proof {
            model.lemma_sizes();
        }
        let key_page_bytes: usize = match runtime.page_size.checked_mul(key_token_bytes) {
            Some(n) => n,
            None => {
                return Err(PagedKvCacheLayoutError::SizeOverflow);
            },
        };
        Ok(
            PagedKvCacheLayout {
                runtime,
                page_count,
                bytes_per_token_per_layer,
                bytes_per_layer_page,
                tensor_geometry: PagedKvTensorGeometry::Pair {
                    key_token_bytes,
                    value_token_bytes,
                    key_page_bytes,
                },
                total_byte_len,
                slot_count,
            },
        )
    }

    /// The bytes of a token in a layer, of a layer page and of the cache, and the token slots.
    fn validate_runtime(runtime: KvCacheRuntimeLayout, page_count: usize) -> (sizes: Result<
        (usize, usize, usize, usize),
        PagedKvCacheLayoutError,
    >)
        ensures
            match sizes {
                Ok((layer_token, layer_page, total, slots)) => {
                    &&& runtime_fault(runtime, page_count) is None
                    &&& layer_token == layer_token_bytes(runtime)
                    &&& layer_page == runtime.page_size as nat * layer_token_bytes(runtime)
                    &&& total == page_count * runtime.page_size_bytes
                    &&& slots == page_count * runtime.page_size
                },
                Err(error) => runtime_fault(runtime, page_count) == Some(error),
            },
    {
        if page_count == 0 {
            return Err(PagedKvCacheLayoutError::ZeroPageCount);
        }
        if runtime.page_size == 0 {
            return Err(PagedKvCacheLayoutError::ZeroLayoutField("page_size"));
        }
        if runtime.num_layers == 0 {
            return Err(PagedKvCacheLayoutError::ZeroLayoutField("num_layers"));
        }
        if runtime.kv_heads == 0 {
            return Err(PagedKvCacheLayoutError::ZeroLayoutField("kv_heads"));
        }
        if runtime.head_dim == 0 {
            return Err(PagedKvCacheLayoutError::ZeroLayoutField("head_dim"));
        }
        if runtime.kv_tensors_per_token == 0 {
            return Err(PagedKvCacheLayoutError::ZeroLayoutField("kv_tensors_per_token"));
        }
        if runtime.bytes_per_token == 0 {
            return Err(PagedKvCacheLayoutError::ZeroLayoutField("bytes_per_token"));
        }
        if runtime.page_size_bytes == 0 {
            return Err(PagedKvCacheLayoutError::ZeroLayoutField("page_size_bytes"));
        }
        let expected_page_size_bytes: usize = match runtime.page_size.checked_mul(
            runtime.bytes_per_token,
        ) {
            Some(n) => n,
            None => {
                return Err(PagedKvCacheLayoutError::SizeOverflow);
            },
        };
        if runtime.page_size_bytes != expected_page_size_bytes {
            return Err(
                PagedKvCacheLayoutError::RuntimePageSizeMismatch {
                    expected: expected_page_size_bytes,
                    actual: runtime.page_size_bytes,
                },
            );
        }
        if runtime.bytes_per_token % runtime.num_layers != 0 {
            return Err(
                PagedKvCacheLayoutError::UnevenLayerLayout {
                    bytes_per_token: runtime.bytes_per_token,
                    num_layers: runtime.num_layers,
                },
            );
        }
        let bytes_per_token_per_layer: usize = runtime.bytes_per_token / runtime.num_layers;
        proof {
            let token = bytes_per_token_per_layer as int;
            let bpt = runtime.bytes_per_token as int;
            lemma_fundamental_div_mod(bpt, runtime.num_layers as int);
            assert(runtime.page_size * token <= runtime.page_size * bpt) by (nonlinear_arith)
                requires
                    bpt == runtime.num_layers * token,
                    runtime.num_layers > 0,
                    runtime.page_size > 0,
                    token >= 0,
            ;
            assert(page_count * runtime.page_size <= page_count * (runtime.page_size * bpt))
                by (nonlinear_arith)
                requires
                    bpt > 0,
                    runtime.page_size > 0,
                    page_count > 0,
            ;
        }
        let bytes_per_layer_page: usize = match runtime.page_size.checked_mul(
            bytes_per_token_per_layer,
        ) {
            Some(n) => n,
            None => {
                return Err(PagedKvCacheLayoutError::SizeOverflow);
            },
        };
        let total_byte_len: usize = match page_count.checked_mul(runtime.page_size_bytes) {
            Some(n) => n,
            None => {
                return Err(PagedKvCacheLayoutError::SizeOverflow);
            },
        };
        let slot_count: usize = match page_count.checked_mul(runtime.page_size) {
            Some(n) => n,
            None => {
                return Err(PagedKvCacheLayoutError::SizeOverflow);
            },
        };
        Ok((bytes_per_token_per_layer, bytes_per_layer_page, total_byte_len, slot_count))
    }

    /// The sizes that the layout was made from.
    pub fn runtime(&self) -> (runtime: KvCacheRuntimeLayout)
        ensures
            runtime == self@.runtime,
    {
        self.runtime
    }

    /// The number of pages.
    pub fn page_count(&self) -> (count: usize)
        ensures
            count == self@.page_count,
    {
        self.page_count
    }

    /// The bytes of the cache.
    pub fn total_byte_len(&self) -> (bytes: usize)
        requires
            self.wf(),
        ensures
            bytes == self@.total_bytes(),
    {
        self.total_byte_len
    }

    /// The token slots of the cache.
    pub fn slot_count(&self) -> (count: usize)
        requires
            self.wf(),
        ensures
            count == self@.slots(),
    {
        self.slot_count
    }

    /// The bytes of one token in one layer.
    pub fn bytes_per_token_per_layer(&self) -> (bytes: usize)
        requires
            self.wf(),
        ensures
            bytes == self@.layer_token(),
    {
        self.bytes_per_token_per_layer
    }

    /// The bytes of one token in one tensor, where all tensors have the same width.
    pub fn bytes_per_token_per_tensor(&self) -> (bytes: Option<usize>)
        requires
            self.wf(),
        ensures
            match bytes {
                Some(n) => self@.widths is Uniform && n == self@.tensor_token(0),
                None => !(self@.widths is Uniform),
            },
    {
        match self.tensor_geometry {
            PagedKvTensorGeometry::Uniform { token_bytes, .. } => Some(token_bytes),
            PagedKvTensorGeometry::Pair { .. } => None,
        }
    }

    /// The bytes of one layer in one page.
    pub fn bytes_per_layer_page(&self) -> (bytes: usize)
        requires
            self.wf(),
        ensures
            bytes == self@.layer_page(),
    {
        self.bytes_per_layer_page
    }

    /// The bytes of one tensor in one page, where all tensors have the same width.
    pub fn bytes_per_tensor_page(&self) -> (bytes: Option<usize>)
        requires
            self.wf(),
        ensures
            match bytes {
                Some(n) => self@.widths is Uniform && n == self@.runtime.page_size as nat
                    * self@.tensor_token(0),
                None => !(self@.widths is Uniform),
            },
    {
        match self.tensor_geometry {
            PagedKvTensorGeometry::Uniform { page_bytes, .. } => Some(page_bytes),
            PagedKvTensorGeometry::Pair { .. } => None,
        }
    }

    /// Where a page stands.
    pub fn page_byte_range(&self, page_index: usize) -> (range: Result<
        Range<usize>,
        PagedKvCacheLayoutError,
    >)
        requires
            self.wf(),
        ensures
            match range {
                Ok(bytes) => page_index < self@.page_count && bytes.start == page_index
                    * self@.runtime.page_size_bytes && bytes.end == (page_index + 1)
                    * self@.runtime.page_size_bytes,
                Err(error) => page_index >= self@.page_count && error
                    == (PagedKvCacheLayoutError::PageOutOfRange {
                    page_index,
                    page_count: self@.page_count as usize,
                }),
            },
    {
        self.validate_page(page_index)?;
        proof {
            lemma_scaled(
                page_index as int,
                self.page_count as int,
                self.runtime.page_size_bytes as int,
            );
            assert((page_index + 1) * self.runtime.page_size_bytes == page_index
                * self.runtime.page_size_bytes + self.runtime.page_size_bytes) by (nonlinear_arith);
        }
        let start: usize = match page_index.checked_mul(self.runtime.page_size_bytes) {
            Some(n) => n,
            None => {
                return Err(PagedKvCacheLayoutError::SizeOverflow);
            },
        };
        let end: usize = match start.checked_add(self.runtime.page_size_bytes) {
            Some(n) => n,
            None => {
                return Err(PagedKvCacheLayoutError::SizeOverflow);
            },
        };
        Ok(start..end)
    }

    /// Where a token of a tensor stands.
    pub fn tensor_token_byte_range(
        &self,
        page_index: usize,
        layer_index: usize,
        tensor_index: usize,
        token_index: usize,
    ) -> (range: Result<Range<usize>, PagedKvCacheLayoutError>)
        requires
            self.wf(),
        ensures
            match range {
                Ok(bytes) => {
                    &&& self@.has(
                        page_index as nat,
                        layer_index as nat,
                        tensor_index as nat,
                        token_index as nat,
                    )
                    &&& bytes.start == self@.start(
                        page_index as nat,
                        layer_index as nat,
                        tensor_index as nat,
                        token_index as nat,
                    )
                    &&& bytes.end == self@.end(
                        page_index as nat,
                        layer_index as nat,
                        tensor_index as nat,
                        token_index as nat,
                    )
                },
                Err(error) => place_fault(
                    self@,
                    page_index,
                    layer_index,
                    tensor_index,
                    token_index,
                ) == Some(error),
            },
    {
        self.validate_page(page_index)?;
        if layer_index >= self.runtime.num_layers {
            return Err(
                PagedKvCacheLayoutError::LayerOutOfRange {
                    layer_index,
                    layer_count: self.runtime.num_layers,
                },
            );
        }
        if tensor_index >= self.runtime.kv_tensors_per_token {
            return Err(
                PagedKvCacheLayoutError::TensorOutOfRange {
                    tensor_index,
                    tensor_count: self.runtime.kv_tensors_per_token,
                },
            );
        }
        if token_index >= self.runtime.page_size {
            return Err(
                PagedKvCacheLayoutError::TokenOutOfRange {
                    token_index,
                    page_size: self.runtime.page_size,
                },
            );
        }
        proof {
            self@.lemma_place(
                page_index as nat,
                layer_index as nat,
                tensor_index as nat,
                token_index as nat,
            );
        }
        let page_offset: usize = page_index * self.runtime.page_size_bytes;
        let layer_offset: usize = layer_index * self.bytes_per_layer_page;
        let tensor_offset: usize = self.tensor_page_offset(tensor_index)?;
        let tensor_token_bytes: usize = self.tensor_token_bytes(tensor_index)?;
        let token_offset: usize = token_index * tensor_token_bytes;
        let start: usize = page_offset + layer_offset + tensor_offset + token_offset;
        let end: usize = start + tensor_token_bytes;
        Ok(start..end)
    }

    /// Where the token of a slot stands in a tensor.
    pub fn tensor_slot_byte_range(
        &self,
        layer_index: usize,
        tensor_index: usize,
        slot_index: usize,
    ) -> (range: Result<Range<usize>, PagedKvCacheLayoutError>)
        requires
            self.wf(),
        ensures
            slot_index >= self@.slots() ==> range == Err::<Range<usize>, PagedKvCacheLayoutError>(
                PagedKvCacheLayoutError::SlotOutOfRange {
                    slot_index,
                    slot_count: self@.slots() as usize,
                },
            ),
            slot_index < self@.slots() ==> {
                let page = (slot_index as nat / self@.runtime.page_size as nat) as usize;
                let token = (slot_index as nat % self@.runtime.page_size as nat) as usize;
                match range {
                    Ok(bytes) => {
                        &&& self@.has(
                            page as nat,
                            layer_index as nat,
                            tensor_index as nat,
                            token as nat,
                        )
                        &&& bytes.start == self@.start(
                            page as nat,
                            layer_index as nat,
                            tensor_index as nat,
                            token as nat,
                        )
                        &&& bytes.end == self@.end(
                            page as nat,
                            layer_index as nat,
                            tensor_index as nat,
                            token as nat,
                        )
                    },
                    Err(error) => place_fault(self@, page, layer_index, tensor_index, token)
                        == Some(error),
                }
            },
    {
        if slot_index >= self.slot_count {
            return Err(
                PagedKvCacheLayoutError::SlotOutOfRange { slot_index, slot_count: self.slot_count },
            );
        }
        proof {
            self@.slots_are_tokens(slot_index as nat);
        }
        self.tensor_token_byte_range(
            slot_index / self.runtime.page_size,
            layer_index,
            tensor_index,
            slot_index % self.runtime.page_size,
        )
    }

    /// Checks that a batch names at least one slot and only slots of the cache.
    pub fn validate_slot_indices(&self, slots: &[usize]) -> (checked: Result<
        (),
        PagedKvCacheLayoutError,
    >)
        requires
            self.wf(),
        ensures
            match checked {
                Ok(_) => slots@.len() > 0 && forall|i: int|
                    0 <= i < slots@.len() ==> #[trigger] slots@[i] < self@.slots(),
                Err(error) => if slots@.len() == 0 {
                    error == PagedKvCacheLayoutError::EmptySlotMap
                } else {
                    exists|i: int|
                        #![trigger slots@[i]]
                        {
                            &&& 0 <= i < slots@.len()
                            &&& slots@[i] >= self@.slots()
                            &&& forall|j: int| 0 <= j < i ==> #[trigger] slots@[j] < self@.slots()
                            &&& error == (PagedKvCacheLayoutError::BatchSlotOutOfRange {
                                batch_index: i as usize,
                                slot_index: slots@[i],
                                slot_count: self@.slots() as usize,
                            })
                        }
                },
            },
    {
        if slots.len() == 0 {
            return Err(PagedKvCacheLayoutError::EmptySlotMap);
        }
        let mut batch_index: usize = 0;
        while batch_index < slots.len()
            invariant
                self.wf(),
                batch_index <= slots@.len(),
                forall|j: int| 0 <= j < batch_index ==> #[trigger] slots@[j] < self@.slots(),
            decreases slots@.len() - batch_index,
        {
            let slot_index: usize = slots[batch_index];
            if slot_index >= self.slot_count {
                proof {
                    assert(slots@[batch_index as int] >= self@.slots());
                }
                return Err(
                    PagedKvCacheLayoutError::BatchSlotOutOfRange {
                        batch_index,
                        slot_index,
                        slot_count: self.slot_count,
                    },
                );
            }
            batch_index = batch_index + 1;
        }
        Ok(())
    }

    /// Where a copy of the keys and values of a layer finds them.
    pub fn kv_pair_copy_geometry(&self, layer_index: usize) -> (geometry: Result<
        KvPairCopyGeometry,
        PagedKvCacheLayoutError,
    >)
        requires
            self.wf(),
        ensures
            match geometry {
                Ok(copy) => {
                    &&& layer_index < self@.runtime.num_layers
                    &&& self@.runtime.kv_tensors_per_token >= 2
                    &&& self@.tensor_token(0) == self@.tensor_token(1)
                    &&& copy.page_size == self@.runtime.page_size
                    &&& copy.page_stride_bytes == self@.runtime.page_size_bytes
                    &&& copy.key_offset_bytes == self@.start(0, layer_index as nat, 0, 0)
                    &&& copy.value_offset_bytes == self@.start(0, layer_index as nat, 1, 0)
                    &&& copy.token_bytes == self@.tensor_token(0)
                },
                Err(error) => if layer_index >= self@.runtime.num_layers {
                    error == (PagedKvCacheLayoutError::LayerOutOfRange {
                        layer_index,
                        layer_count: self@.runtime.num_layers,
                    })
                } else if self@.runtime.kv_tensors_per_token < 2 {
                    error == (PagedKvCacheLayoutError::KvPairRequiresTwoTensors {
                        tensor_count: self@.runtime.kv_tensors_per_token,
                    })
                } else {
                    &&& self@.tensor_token(0) != self@.tensor_token(1)
                    &&& error == (PagedKvCacheLayoutError::UnevenKvPairCopy {
                        key_token_bytes: self@.tensor_token(0) as usize,
                        value_token_bytes: self@.tensor_token(1) as usize,
                    })
                },
            },
    {
        if layer_index >= self.runtime.num_layers {
            return Err(
                PagedKvCacheLayoutError::LayerOutOfRange {
                    layer_index,
                    layer_count: self.runtime.num_layers,
                },
            );
        }
        if self.runtime.kv_tensors_per_token < 2 {
            return Err(
                PagedKvCacheLayoutError::KvPairRequiresTwoTensors {
                    tensor_count: self.runtime.kv_tensors_per_token,
                },
            );
        }
        proof {
            self@.lemma_place(0, layer_index as nat, 0, 0);
            self@.lemma_place(0, layer_index as nat, 1, 0);
        }
        let layer_offset_bytes: usize = layer_index * self.bytes_per_layer_page;
        let key_token_bytes: usize = self.tensor_token_bytes(0)?;
        let value_token_bytes: usize = self.tensor_token_bytes(1)?;
        if key_token_bytes != value_token_bytes {
            return Err(
                PagedKvCacheLayoutError::UnevenKvPairCopy { key_token_bytes, value_token_bytes },
            );
        }
        let key_offset_bytes: usize = layer_offset_bytes + self.tensor_page_offset(0)?;
        let value_offset_bytes: usize = layer_offset_bytes + self.tensor_page_offset(1)?;
        Ok(
            KvPairCopyGeometry {
                page_size: self.runtime.page_size,
                page_stride_bytes: self.runtime.page_size_bytes,
                key_offset_bytes,
                value_offset_bytes,
                token_bytes: key_token_bytes,
            },
        )
    }

    /// The bytes of one token in a tensor.
    fn tensor_token_bytes(&self, tensor_index: usize) -> (bytes: Result<
        usize,
        PagedKvCacheLayoutError,
    >)
        requires
            self.wf(),
            tensor_index < self@.runtime.kv_tensors_per_token,
        ensures
            bytes matches Ok(n) && n == self@.tensor_token(tensor_index as nat),
    {
        match self.tensor_geometry {
            PagedKvTensorGeometry::Uniform { token_bytes, .. } => Ok(token_bytes),
            PagedKvTensorGeometry::Pair { key_token_bytes, value_token_bytes, .. } => if tensor_index
                == 0 {
                Ok(key_token_bytes)
            } else if tensor_index == 1 {
                Ok(value_token_bytes)
            } else {
                Err(
                    PagedKvCacheLayoutError::TensorOutOfRange {
                        tensor_index,
                        tensor_count: self.runtime.kv_tensors_per_token,
                    },
                )
            },
        }
    }

    /// Where a tensor starts within its layer and page.
    fn tensor_page_offset(&self, tensor_index: usize) -> (offset: Result<
        usize,
        PagedKvCacheLayoutError,
    >)
        requires
            self.wf(),
            tensor_index < self@.runtime.kv_tensors_per_token,
        ensures
            offset matches Ok(n) && n == self@.tensor_offset(tensor_index as nat),
    {
        proof {
            self@.lemma_tensor_page(tensor_index as nat);
            self@.lemma_sizes();
        }
        match self.tensor_geometry {
            PagedKvTensorGeometry::Uniform { page_bytes, .. } => match tensor_index.checked_mul(
                page_bytes,
            ) {
                Some(n) => Ok(n),
                None => Err(PagedKvCacheLayoutError::SizeOverflow),
            },
            PagedKvTensorGeometry::Pair { key_page_bytes, .. } => if tensor_index == 0 {
                Ok(0)
            } else if tensor_index == 1 {
                Ok(key_page_bytes)
            } else {
                Err(
                    PagedKvCacheLayoutError::TensorOutOfRange {
                        tensor_index,
                        tensor_count: self.runtime.kv_tensors_per_token,
                    },
                )
            },
        }
    }

    /// Checks that there is such a page.
    fn validate_page(&self, page_index: usize) -> (checked: Result<(), PagedKvCacheLayoutError>)
        ensures
            match checked {
                Ok(_) => page_index < self@.page_count,
                Err(error) => page_index >= self@.page_count && error
                    == (PagedKvCacheLayoutError::PageOutOfRange {
                    page_index,
                    page_count: self@.page_count as usize,
                }),
            },
    {
        if page_index >= self.page_count {
            Err(PagedKvCacheLayoutError::PageOutOfRange { page_index, page_count: self.page_count })
        } else {
            Ok(())
        }
    }
}

/// Memory that holds a cache.
pub trait KvCacheStorage {
    /// Why the memory cannot be cleared.
    type Error;

    /// The bytes of the memory.
    spec fn bytes(&self) -> usize;

    /// The bytes of the memory.
    fn byte_len(&self) -> (bytes: usize)
        ensures
            bytes == self.bytes(),
    ;

    /// Whether clearing may turn the memory `before` into `after` and answer `cleared`.
    spec fn clears(before: Self, after: Self, cleared: Result<(), Self::Error>) -> bool where
        Self: Sized,
    ;

    /// Clears the memory.
    fn clear(&mut self) -> (cleared: Result<(), Self::Error>) where Self: Sized
        ensures
            Self::clears(*old(self), *final(self), cleared),
    ;
}

/// Why a memory cannot hold a cache.
#[derive(Clone, Debug, PartialEq, Eq, Structural)]
pub enum KvCachePoolError {
    StorageSizeMismatch { expected: usize, actual: usize },
}

impl KvCachePoolError {
    /// The message that the error is reported with.
    pub open spec fn message(self) -> Seq<char> {
        match self {
            KvCachePoolError::StorageSizeMismatch { expected, actual } => "KV cache storage has "@
                + dec(actual) + " bytes but layout requires exactly "@ + dec(expected)
                + " bytes"@,
        }
    }

    /// The message that the error is reported with.
    pub fn to_string(&self) -> (message: String)
        ensures
            message@ == self.message(),
    {
        match self {
            KvCachePoolError::StorageSizeMismatch { expected, actual } => cat5(
                "KV cache storage has ",
                decimal_usize(*actual).as_str(),
                " bytes but layout requires exactly ",
                decimal_usize(*expected).as_str(),
                " bytes",
            ),
        }
    }
}

/// A cache layout and the memory that holds the cache.
pub struct KvCachePool<S> {
    layout: PagedKvCacheLayout,
    storage: S,
}

/// What a [`KvCachePool`] holds.
pub struct Pool<S> {
    pub layout: PagedKvCacheLayout,
    pub storage: S,
}

impl<S> View for KvCachePool<S> {
    type V = Pool<S>;

    closed spec fn view(&self) -> Pool<S> {
        Pool { layout: self.layout, storage: self.storage }
    }
}

impl<S: KvCacheStorage> KvCachePool<S> {
    /// A pool, where the memory is exactly as large as the layout calls for.
    pub fn new(layout: PagedKvCacheLayout, storage: S) -> (pool: Result<Self, KvCachePoolError>)
        requires
            layout.wf(),
        ensures
            match pool {
                Ok(made) => storage.bytes() == layout@.total_bytes() && made@ == (Pool {
                    layout,
                    storage,
                }),
                Err(error) => storage.bytes() != layout@.total_bytes() && error
                    == (KvCachePoolError::StorageSizeMismatch {
                    expected: layout@.total_bytes() as usize,
                    actual: storage.bytes(),
                }),
            },
    {
        let actual: usize = storage.byte_len();
        let expected: usize = layout.total_byte_len();
        if actual != expected {
            return Err(KvCachePoolError::StorageSizeMismatch { expected, actual });
        }
        Ok(KvCachePool { layout, storage })
    }

    /// The layout of the cache.
    pub fn layout(&self) -> (layout: PagedKvCacheLayout)
        ensures
            layout == self@.layout,
    {
        self.layout
    }

    /// The memory that holds the cache.
    pub fn storage(&self) -> (storage: &S)
        ensures
            *storage == self@.storage,
    {
        &self.storage
    }

    /// The memory that holds the cache.
    pub fn storage_mut(&mut self) -> (storage: &mut S)
        ensures
            *storage == old(self)@.storage,
            final(self)@ == (Pool { layout: old(self)@.layout, storage: *final(storage) }),
    {
        &mut self.storage
    }

    /// Clears the memory: what the memory's own `clear` does and returns.
    pub fn clear(&mut self) -> (cleared: Result<(), S::Error>)
        ensures
            final(self)@.layout == old(self)@.layout,
            S::clears(old(self)@.storage, final(self)@.storage, cleared),
    {
        self.storage.clear()
    }

    /// Gives the memory back.
    pub fn into_storage(self) -> (storage: S)
        ensures
            storage == self@.storage,
    {
        self.storage
    }
}

} // verus!
