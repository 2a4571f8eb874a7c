//! How the key/value cache of a model is laid out in memory.
use std::ops::Range;

use vstd::prelude::*;
use vstd::string::*;

use crate::text::{cat2, cat3, decimal, decimal_usize, lower_text, same_text};

verus! {

/// The element type of a cache.
#[derive(Clone, Copy, Debug, PartialEq, Eq, Structural)]
pub enum KvCacheDtype {
    Auto,
    Float32,
    Bfloat16,
    Fp8E4M3,
    Fp8E5M2,
    Fp4E2M1,
}

/// The type that a name stands for, in upper or lower case.
pub open spec fn dtype_named(name: Seq<char>) -> Option<KvCacheDtype> {
    let lower = lower_text(name);
    if lower == "auto"@ {
        Some(KvCacheDtype::Auto)
    } else if lower == "bf16"@ || lower == "bfloat16"@ {
        Some(KvCacheDtype::Bfloat16)
    } else if lower == "fp8_e4m3"@ {
        Some(KvCacheDtype::Fp8E4M3)
    } else if lower == "fp8_e5m2"@ {
        Some(KvCacheDtype::Fp8E5M2)
    } else if lower == "fp4_e2m1"@ {
        Some(KvCacheDtype::Fp4E2M1)
    } else {
        None
    }
}

impl KvCacheDtype {
    /// The name of the type.
    pub open spec fn name(self) -> Seq<char> {
        match self {
            KvCacheDtype::Auto => "auto"@,
            KvCacheDtype::Float32 => "float32"@,
            KvCacheDtype::Bfloat16 => "bfloat16"@,
            KvCacheDtype::Fp8E4M3 => "fp8_e4m3"@,
            KvCacheDtype::Fp8E5M2 => "fp8_e5m2"@,
            KvCacheDtype::Fp4E2M1 => "fp4_e2m1"@,
        }
    }

    /// The bytes of one element, where they are a whole number.
    pub open spec fn element_bytes(self) -> Option<usize> {
        match self {
            KvCacheDtype::Auto | KvCacheDtype::Bfloat16 => Some(2),
            KvCacheDtype::Float32 => Some(4),
            KvCacheDtype::Fp8E4M3 | KvCacheDtype::Fp8E5M2 => Some(1),
            KvCacheDtype::Fp4E2M1 => None,
        }
    }

    /// The type that a name stands for, in upper or lower case.
    pub fn parse(value: &str) -> (dtype: Option<Self>)
        ensures
            dtype == dtype_named(value@),
    {
        let lower = crate::text::to_ascii_lowercase(value);
        let name = lower.as_str();
        if same_text(name, "auto") {
            Some(KvCacheDtype::Auto)
        } else if same_text(name, "bf16") || same_text(name, "bfloat16") {
            Some(KvCacheDtype::Bfloat16)
        } else if same_text(name, "fp8_e4m3") {
            Some(KvCacheDtype::Fp8E4M3)
        } else if same_text(name, "fp8_e5m2") {
            Some(KvCacheDtype::Fp8E5M2)
        } else if same_text(name, "fp4_e2m1") {
            Some(KvCacheDtype::Fp4E2M1)
        } else {
            None
        }
    }

    /// The name of the type.
    pub fn as_str(self) -> (name: &'static str)
        ensures
            name@ == self.name(),
    {
        match self {
            KvCacheDtype::Auto => "auto",
            KvCacheDtype::Float32 => "float32",
            KvCacheDtype::Bfloat16 => "bfloat16",
            KvCacheDtype::Fp8E4M3 => "fp8_e4m3",
            KvCacheDtype::Fp8E5M2 => "fp8_e5m2",
            KvCacheDtype::Fp4E2M1 => "fp4_e2m1",
        }
    }

    /// The bytes of one element, where they are a whole number.
    pub fn bytes_per_element(self) -> (bytes: Option<usize>)
        ensures
            bytes == self.element_bytes(),
    {
        match self {
            KvCacheDtype::Auto | KvCacheDtype::Bfloat16 => Some(2),
            KvCacheDtype::Float32 => Some(4),
            KvCacheDtype::Fp8E4M3 | KvCacheDtype::Fp8E5M2 => Some(1),
            KvCacheDtype::Fp4E2M1 => None,
        }
    }

    /// The type in which values are stored.
    pub fn runtime_storage_dtype(self) -> (dtype: Self)
        ensures
            dtype == (if self == KvCacheDtype::Auto {
                KvCacheDtype::Bfloat16
            } else {
                self
            }),
    {
        match self {
            KvCacheDtype::Auto => KvCacheDtype::Bfloat16,
            dtype => dtype,
        }
    }
}

/// The sizes of a cache at run time.
#[derive(Clone, Copy, Debug, PartialEq, Eq, Structural)]
pub struct KvCacheRuntimeLayout {
    pub dtype: KvCacheDtype,
    pub page_size: usize,
    pub num_layers: usize,
    pub kv_heads: usize,
    pub head_dim: usize,
    pub kv_tensors_per_token: usize,
    pub bytes_per_token: usize,
    pub page_size_bytes: usize,
}

/// How the tensors of one token and layer are sized.
#[derive(Clone, Copy, Debug, PartialEq, Eq, Structural)]
pub enum KvCacheTensorGeometry {
    /// All tensors have the same width.
    Uniform,
    /// A key and a value of different widths.
    Pair { key_elements: usize, value_elements: usize },
    /// One tensor of raw bytes.
    PackedBytes,
}

/// The sizes of a model's cache.
#[derive(Clone, Copy, Debug, PartialEq, Eq, Structural)]
pub struct KvCacheModelLayout {
    pub num_layers: usize,
    pub kv_heads: usize,
    pub head_dim: usize,
    pub kv_tensors_per_token: usize,
    pub bytes_per_token_per_layer: Option<usize>,
    pub tensor_geometry: KvCacheTensorGeometry,
}

/// Why a model's cache has no layout.
#[derive(Clone, Copy, Debug, PartialEq, Eq, Structural)]
pub enum KvCacheLayoutError {
    DtypeRequiresModelMetadata(KvCacheDtype),
    InvalidPackedMlaNopeHeadDim(usize),
    ZeroTensorWidth,
    SizeOverflow,
}

impl KvCacheLayoutError {
    /// The message that the error is reported with.
    pub open spec fn message(self) -> Seq<char> {
        match self {
            KvCacheLayoutError::DtypeRequiresModelMetadata(dtype) => "KV cache dtype "@
                + dtype.name() + " requires model metadata for byte width"@,
            KvCacheLayoutError::InvalidPackedMlaNopeHeadDim(head_dim) =>
                "qk_nope_head_dim must be divisible by 64 for packed MLA KV layout: "@ + decimal(
                head_dim as nat,
            ),
            KvCacheLayoutError::ZeroTensorWidth => "KV cache tensor width must be non-zero"@,
            KvCacheLayoutError::SizeOverflow => "KV cache layout byte size overflowed"@,
        }
    }

    /// The message that the error is reported with.
    pub fn to_string(&self) -> (message: String)
        ensures
            message@ == self.message(),
    {
        match self {
            KvCacheLayoutError::DtypeRequiresModelMetadata(dtype) => cat3(
                "KV cache dtype ",
                dtype.as_str(),
                " requires model metadata for byte width",
            ),
            KvCacheLayoutError::InvalidPackedMlaNopeHeadDim(head_dim) => cat2(
                "qk_nope_head_dim must be divisible by 64 for packed MLA KV layout: ",
                decimal_usize(*head_dim).as_str(),
            ),
            KvCacheLayoutError::ZeroTensorWidth =>
                "KV cache tensor width must be non-zero".to_owned(),
            KvCacheLayoutError::SizeOverflow => "KV cache layout byte size overflowed".to_owned(),
        }
    }
}

/// The elements that one token takes, over all layers. Packed bytes have no elements.
pub open spec fn token_elements(layout: KvCacheModelLayout) -> Option<nat> {
    match layout.tensor_geometry {
        KvCacheTensorGeometry::Uniform => Some(
            (layout.num_layers * (layout.kv_tensors_per_token * layout.kv_heads
                * layout.head_dim)) as nat,
        ),
        KvCacheTensorGeometry::Pair { key_elements, value_elements } => Some(
            (layout.num_layers * (key_elements + value_elements)) as nat,
        ),
        KvCacheTensorGeometry::PackedBytes => None,
    }
}

/// The elements that one token takes in one layer.
pub open spec fn layer_elements(layout: KvCacheModelLayout) -> nat {
    match layout.tensor_geometry {
        KvCacheTensorGeometry::Uniform => (layout.kv_tensors_per_token * layout.kv_heads
            * layout.head_dim) as nat,
        KvCacheTensorGeometry::Pair { key_elements, value_elements } => (key_elements
            + value_elements) as nat,
        KvCacheTensorGeometry::PackedBytes => 0,
    }
}

/// Whether the element counts can be computed without overflow.
pub open spec fn elements_fit(layout: KvCacheModelLayout) -> bool {
    &&& token_elements(layout) is Some
    &&& layout.tensor_geometry == KvCacheTensorGeometry::Uniform ==> layout.kv_tensors_per_token
        * layout.kv_heads <= usize::MAX
    &&& layer_elements(layout) <= usize::MAX
    &&& token_elements(layout)->0 <= usize::MAX
}

/// The bytes that one token takes over all layers, or why they are not known.
pub open spec fn token_bytes_of(layout: KvCacheModelLayout, dtype: KvCacheDtype) -> Result<
    nat,
    KvCacheLayoutError,
> {
    match layout.bytes_per_token_per_layer {
        Some(bytes) => if layout.num_layers * bytes <= usize::MAX {
            Ok((layout.num_layers * bytes) as nat)
        } else {
            Err(KvCacheLayoutError::SizeOverflow)
        },
        None => if !elements_fit(layout) {
            Err(KvCacheLayoutError::SizeOverflow)
        } else {
            match dtype.element_bytes() {
                Some(width) => if token_elements(layout)->0 * width <= usize::MAX {
                    Ok((token_elements(layout)->0 * width) as nat)
                } else {
                    Err(KvCacheLayoutError::SizeOverflow)
                },
                None => Err(KvCacheLayoutError::DtypeRequiresModelMetadata(dtype)),
            }
        },
    }
}

/// The bytes of packed latent attention per token and layer.
pub open spec fn packed_mla_bytes(qk_nope_head_dim: usize, qk_rope_head_dim: usize) -> nat {
    (qk_nope_head_dim + 2 * qk_rope_head_dim + qk_nope_head_dim / 64 + 1) as nat
}

impl KvCacheModelLayout {
    /// A cache whose tensors all have the same width.
    pub fn multi_tensor(
        num_layers: usize,
        kv_heads: usize,
        head_dim: usize,
        kv_tensors_per_token: usize,
    ) -> (layout: Self)
        ensures
            layout == (KvCacheModelLayout {
                num_layers,
                kv_heads,
                head_dim,
                kv_tensors_per_token,
                bytes_per_token_per_layer: None,
                tensor_geometry: KvCacheTensorGeometry::Uniform,
            }),
    {
        KvCacheModelLayout {
            num_layers,
            kv_heads,
            head_dim,
            kv_tensors_per_token,
            bytes_per_token_per_layer: None,
            tensor_geometry: KvCacheTensorGeometry::Uniform,
        }
    }

    /// A cache of keys and values of different widths.
    pub fn tensor_pair(
        num_layers: usize,
        key_heads: usize,
        key_head_dim: usize,
        value_heads: usize,
        value_head_dim: usize,
    ) -> (layout: Result<Self, KvCacheLayoutError>)
        ensures
            match layout {
                Ok(pair) => {
                    &&& 0 < key_heads * key_head_dim <= usize::MAX
                    &&& 0 < value_heads * value_head_dim <= usize::MAX
                    &&& pair == (KvCacheModelLayout {
                        num_layers,
                        kv_heads: key_heads,
                        head_dim: key_head_dim,
                        kv_tensors_per_token: 2,
                        bytes_per_token_per_layer: None,
                        tensor_geometry: KvCacheTensorGeometry::Pair {
                            key_elements: (key_heads * key_head_dim) as usize,
                            value_elements: (value_heads * value_head_dim) as usize,
                        },
                    })
                },
                Err(error) => if key_heads * key_head_dim > usize::MAX || value_heads
                    * value_head_dim > usize::MAX {
                    error == KvCacheLayoutError::SizeOverflow
                } else {
                    (key_heads * key_head_dim == 0 || value_heads * value_head_dim == 0) && error
                        == KvCacheLayoutError::ZeroTensorWidth
                },
            },
    {
        let key_elements: usize = match key_heads.checked_mul(key_head_dim) {
            Some(n) => n,
            None => {
                return Err(KvCacheLayoutError::SizeOverflow);
            },
        };
        let value_elements: usize = match value_heads.checked_mul(value_head_dim) {
            Some(n) => n,
            None => {
                return Err(KvCacheLayoutError::SizeOverflow);
            },
        };
        if key_elements == 0 || value_elements == 0 {
            return Err(KvCacheLayoutError::ZeroTensorWidth);
        }
        Ok(
            KvCacheModelLayout {
                num_layers,
                kv_heads: key_heads,
                head_dim: key_head_dim,
                kv_tensors_per_token: 2,
                bytes_per_token_per_layer: None,
                tensor_geometry: KvCacheTensorGeometry::Pair { key_elements, value_elements },
            },
        )
    }

    /// A cache of raw bytes.
    pub fn packed_bytes_per_layer(num_layers: usize, bytes_per_token_per_layer: usize) -> (layout:
        Self)
        ensures
            layout == (KvCacheModelLayout {
                num_layers,
                kv_heads: 1,
                head_dim: bytes_per_token_per_layer,
                kv_tensors_per_token: 1,
                bytes_per_token_per_layer: Some(bytes_per_token_per_layer),
                tensor_geometry: KvCacheTensorGeometry::PackedBytes,
            }),
    {
        KvCacheModelLayout {
            num_layers,
            kv_heads: 1,
            head_dim: bytes_per_token_per_layer,
            kv_tensors_per_token: 1,
            bytes_per_token_per_layer: Some(bytes_per_token_per_layer),
            tensor_geometry: KvCacheTensorGeometry::PackedBytes,
        }
    }

    /// The elements that one token takes over all layers, where they can be counted.
    pub fn elements_per_token(self) -> (elements: Option<usize>)
        ensures
            match elements {
                Some(n) => elements_fit(self) && token_elements(self) == Some(n as nat),
                None => !elements_fit(self),
            },
    {
        let elements_per_layer: usize = match self.tensor_geometry {
            KvCacheTensorGeometry::Uniform => self.kv_tensors_per_token.checked_mul(
                self.kv_heads,
            )?.checked_mul(self.head_dim)?,
            KvCacheTensorGeometry::Pair { key_elements, value_elements } => key_elements.checked_add(
                value_elements,
            )?,
            KvCacheTensorGeometry::PackedBytes => {
                return None;
            },
        };
        self.num_layers.checked_mul(elements_per_layer)
    }

    /// The bytes that one token takes over all layers.
    pub fn token_size_bytes(self, dtype: KvCacheDtype) -> (bytes: Result<usize, KvCacheLayoutError>)
        ensures
            match bytes {
                Ok(n) => token_bytes_of(self, dtype) == Ok::<nat, KvCacheLayoutError>(n as nat),
                Err(error) => token_bytes_of(self, dtype) == Err::<nat, KvCacheLayoutError>(error),
            },
    {
        if let Some(bytes_per_token_per_layer) = self.bytes_per_token_per_layer {
            return match self.num_layers.checked_mul(bytes_per_token_per_layer) {
                Some(n) => Ok(n),
                None => Err(KvCacheLayoutError::SizeOverflow),
            };
        }
        let elements: usize = match self.elements_per_token() {
            Some(n) => n,
            None => {
                return Err(KvCacheLayoutError::SizeOverflow);
            },
        };
        let width: usize = match dtype.bytes_per_element() {
            Some(n) => n,
            None => {
                return Err(KvCacheLayoutError::DtypeRequiresModelMetadata(dtype));
            },
        };
        match elements.checked_mul(width) {
            Some(n) => Ok(n),
            None => Err(KvCacheLayoutError::SizeOverflow),
        }
    }

    /// The bytes of one key and of one value, where the widths differ.
    pub fn tensor_pair_size_bytes(self, dtype: KvCacheDtype) -> (sizes: Result<
        Option<[usize; 2]>,
        KvCacheLayoutError,
    >)
        ensures
            match self.tensor_geometry {
                KvCacheTensorGeometry::Pair { key_elements, value_elements } => match sizes {
                    Ok(Some(pair)) => dtype.element_bytes() is Some && pair@ == seq![
                        (key_elements * dtype.element_bytes()->0) as usize,
                        (value_elements * dtype.element_bytes()->0) as usize,
                    ] && key_elements * dtype.element_bytes()->0 <= usize::MAX && value_elements
                        * dtype.element_bytes()->0 <= usize::MAX,
                    Ok(None) => false,
                    Err(error) => match dtype.element_bytes() {
                        Some(width) => error == KvCacheLayoutError::SizeOverflow && (key_elements
                            * width > usize::MAX || value_elements * width > usize::MAX),
                        None => error == KvCacheLayoutError::DtypeRequiresModelMetadata(dtype),
                    },
                },
                _ => sizes matches Ok(None),
            },
    {
        match self.tensor_geometry {
            KvCacheTensorGeometry::Pair { key_elements, value_elements } => {
                let element_bytes: usize = match dtype.bytes_per_element() {
                    Some(n) => n,
                    None => {
                        return Err(KvCacheLayoutError::DtypeRequiresModelMetadata(dtype));
                    },
                };
                let key_bytes: usize = match key_elements.checked_mul(element_bytes) {
                    Some(n) => n,
                    None => {
                        return Err(KvCacheLayoutError::SizeOverflow);
                    },
                };
                let value_bytes: usize = match value_elements.checked_mul(element_bytes) {
                    Some(n) => n,
                    None => {
                        return Err(KvCacheLayoutError::SizeOverflow);
                    },
                };
                Ok(Some([key_bytes, value_bytes]))
            },
            _ => Ok(None),
        }
    }

    /// The cache of packed latent attention: 8-bit latents with a scale per 64, 16-bit rotary parts.
    pub fn packed_mla(
        num_layers: usize,
        qk_nope_head_dim: usize,
        qk_rope_head_dim: usize,
    ) -> (layout: Result<Self, KvCacheLayoutError>)
        ensures
            match layout {
                Ok(packed) => {
                    &&& qk_nope_head_dim % 64 == 0
                    &&& packed_mla_bytes(qk_nope_head_dim, qk_rope_head_dim) <= usize::MAX
                    &&& packed == (KvCacheModelLayout {
                        num_layers,
                        kv_heads: 1,
                        head_dim: packed_mla_bytes(qk_nope_head_dim, qk_rope_head_dim) as usize,
                        kv_tensors_per_token: 1,
                        bytes_per_token_per_layer: Some(
                            packed_mla_bytes(qk_nope_head_dim, qk_rope_head_dim) as usize,
                        ),
                        tensor_geometry: KvCacheTensorGeometry::PackedBytes,
                    })
                },
                Err(error) => if qk_nope_head_dim % 64 != 0 {
                    error == KvCacheLayoutError::InvalidPackedMlaNopeHeadDim(qk_nope_head_dim)
                } else {
                    error == KvCacheLayoutError::SizeOverflow && packed_mla_bytes(
                        qk_nope_head_dim,
                        qk_rope_head_dim,
                    ) > usize::MAX
                },
            },
    {
        if qk_nope_head_dim % 64 != 0 {
            return Err(KvCacheLayoutError::InvalidPackedMlaNopeHeadDim(qk_nope_head_dim));
        }
        let rope_bytes: usize = match qk_rope_head_dim.checked_mul(2) {
            Some(n) => n,
            None => {
                return Err(KvCacheLayoutError::SizeOverflow);
            },
        };
        let head_bytes: usize = match qk_nope_head_dim.checked_add(rope_bytes) {
            Some(n) => n,
            None => {
                return Err(KvCacheLayoutError::SizeOverflow);
            },
        };
        let scaled_bytes: usize = match head_bytes.checked_add(qk_nope_head_dim / 64) {
            Some(n) => n,
            None => {
                return Err(KvCacheLayoutError::SizeOverflow);
            },
        };
        match scaled_bytes.checked_add(1) {
            Some(bytes) => Ok(Self::packed_bytes_per_layer(num_layers, bytes)),
            None => Err(KvCacheLayoutError::SizeOverflow),
        }
    }
}

/// The bytes of a token are those of its keys and its values, over all layers.
pub proof fn keys_and_values_make_up_a_token(
    layout: KvCacheModelLayout,
    dtype: KvCacheDtype,
    key_elements: usize,
    value_elements: usize,
)
    requires
        layout.tensor_geometry == (KvCacheTensorGeometry::Pair { key_elements, value_elements }),
        layout.bytes_per_token_per_layer is None,
    ensures
        token_bytes_of(layout, dtype) matches Ok(bytes) ==> dtype.element_bytes() is Some && bytes
            == layout.num_layers * (key_elements * dtype.element_bytes()->0 + value_elements
            * dtype.element_bytes()->0),
{
    if let Some(width) = dtype.element_bytes() {
        let layers = layout.num_layers as int;
        let keys = key_elements as int;
        let values = value_elements as int;
        let w = width as int;
        assert(layers * (keys + values) * w == layers * (keys * w + values * w)) by (nonlinear_arith);
    }
}

} // verus!
