//! What the sizes of a key/value cache promise: the bytes of a token are those of its parts.
use std::ops::Range;

use vstd::prelude::*;

use crate::kv_cache::{KvCacheDtype, KvCacheLayoutError, KvCacheModelLayout};
use crate::paged_kv_cache::{Paged, PagedKvCacheLayout, PagedKvCacheLayoutError, Widths};
use crate::text::lower_text;

verus! {

/// The bytes of one element: two for the types of 16 bits, four for that of 32 bits, one for those of
/// 8 bits, and no whole number for that of 4 bits.
pub proof fn elements_have_their_widths(dtype: KvCacheDtype, width: Option<usize>)
    requires
        call_ensures(KvCacheDtype::bytes_per_element, (dtype,), width),
    ensures
        dtype == KvCacheDtype::Auto ==> width == Some(2usize),
        dtype == KvCacheDtype::Bfloat16 ==> width == Some(2usize),
        dtype == KvCacheDtype::Float32 ==> width == Some(4usize),
        dtype == KvCacheDtype::Fp8E4M3 ==> width == Some(1usize),
        dtype == KvCacheDtype::Fp8E5M2 ==> width == Some(1usize),
        dtype == KvCacheDtype::Fp4E2M1 ==> width is None,
{
}

/// An element is as wide in the type that stores it as in the type that was asked for, and the type
/// that stores it is never left open.
pub proof fn stored_types_are_as_wide(
    dtype: KvCacheDtype,
    stored: KvCacheDtype,
    width: Option<usize>,
    stored_width: Option<usize>,
)
    requires
        call_ensures(KvCacheDtype::runtime_storage_dtype, (dtype,), stored),
        call_ensures(KvCacheDtype::bytes_per_element, (dtype,), width),
        call_ensures(KvCacheDtype::bytes_per_element, (stored,), stored_width),
    ensures
        stored_width == width,
        stored != KvCacheDtype::Auto,
        dtype != KvCacheDtype::Auto ==> stored == dtype,
{
}

/// A token of packed latent attention takes, in every layer, one byte for each latent element, the
/// bytes of a 16 bit element for each rotary element, one byte of scale for every 64 latent elements
/// and one byte more, whatever the type of the cache. It is refused exactly where the latent elements
/// are no multiple of 64 or the bytes do not fit.
pub proof fn packed_tokens_are_their_parts(
    num_layers: usize,
    nope: usize,
    rope: usize,
    layout: Result<KvCacheModelLayout, KvCacheLayoutError>,
    half: Option<usize>,
)
    requires
        call_ensures(KvCacheModelLayout::packed_mla, (num_layers, nope, rope), layout),
        call_ensures(KvCacheDtype::bytes_per_element, (KvCacheDtype::Bfloat16,), half),
    ensures
        layout is Ok <==> nope % 64 == 0 && nope + rope * half->0 + nope / 64 + 1 <= usize::MAX,
        layout matches Ok(packed) ==> {
            &&& packed.num_layers == num_layers
            &&& packed.bytes_per_token_per_layer is Some
            &&& packed.bytes_per_token_per_layer->0 == nope + rope * half->0 + nope / 64 + 1
            &&& nope == 128 && rope == 64 ==> packed.bytes_per_token_per_layer == Some(259usize)
            &&& nope == 512 && rope == 64 ==> packed.bytes_per_token_per_layer == Some(649usize)
        },
        layout matches Err(error) ==> if nope % 64 == 0 {
            error == KvCacheLayoutError::SizeOverflow
        } else {
            error == KvCacheLayoutError::InvalidPackedMlaNopeHeadDim(nope)
        },
{
    assert(rope * 2 == 2 * rope);
    assert(64 * 2 == 128);
}

/// The bytes of a packed token are its bytes in one layer, once for every layer, whatever the type of
/// the cache.
pub proof fn packed_tokens_take_their_bytes_in_every_layer(
    num_layers: usize,
    bytes_per_layer: usize,
    layout: KvCacheModelLayout,
    dtype: KvCacheDtype,
    bytes: Result<usize, KvCacheLayoutError>,
)
    requires
        call_ensures(
            KvCacheModelLayout::packed_bytes_per_layer,
            (num_layers, bytes_per_layer),
            layout,
        ),
        call_ensures(KvCacheModelLayout::token_size_bytes, (layout, dtype), bytes),
    ensures
        bytes is Ok <==> num_layers * bytes_per_layer <= usize::MAX,
        bytes matches Ok(n) ==> n == num_layers * bytes_per_layer,
        bytes matches Err(error) ==> error == KvCacheLayoutError::SizeOverflow,
{
}

/// The bytes of a packed latent token over all layers.
pub proof fn packed_latent_tokens_take_their_bytes_in_every_layer(
    num_layers: usize,
    nope: usize,
    rope: usize,
    layout: Result<KvCacheModelLayout, KvCacheLayoutError>,
    dtype: KvCacheDtype,
    bytes: Result<usize, KvCacheLayoutError>,
)
    requires
        call_ensures(KvCacheModelLayout::packed_mla, (num_layers, nope, rope), layout),
        layout is Ok,
        call_ensures(KvCacheModelLayout::token_size_bytes, (layout->Ok_0, dtype), bytes),
    ensures
        bytes matches Ok(n) ==> n == num_layers * (nope + 2 * rope + nope / 64 + 1),
        num_layers * (nope + 2 * rope + nope / 64 + 1) <= usize::MAX ==> bytes is Ok,
{
}

/// A token of a cache of tensors of one shape has an element for every layer, tensor, head and place
/// in the head, and takes the bytes of so many elements.
pub proof fn uniform_tokens_are_their_elements(
    num_layers: usize,
    kv_heads: usize,
    head_dim: usize,
    tensors: usize,
    layout: KvCacheModelLayout,
    elements: Option<usize>,
    dtype: KvCacheDtype,
    width: Option<usize>,
    bytes: Result<usize, KvCacheLayoutError>,
)
    requires
        call_ensures(
            KvCacheModelLayout::multi_tensor,
            (num_layers, kv_heads, head_dim, tensors),
            layout,
        ),
        call_ensures(KvCacheModelLayout::elements_per_token, (layout,), elements),
        call_ensures(KvCacheDtype::bytes_per_element, (dtype,), width),
        call_ensures(KvCacheModelLayout::token_size_bytes, (layout, dtype), bytes),
    ensures
        elements matches Some(n) ==> n == num_layers * (tensors * kv_heads * head_dim),
        bytes matches Ok(n) ==> elements is Some && width is Some && n == elements->0 * width->0,
        bytes matches Err(error) ==> if elements is Some && width is None {
            error == KvCacheLayoutError::DtypeRequiresModelMetadata(dtype)
        } else {
            error == KvCacheLayoutError::SizeOverflow && (elements is Some ==> elements->0
                * width->0 > usize::MAX)
        },
        layout.num_layers == num_layers,
        layout.kv_heads == kv_heads,
        layout.head_dim == head_dim,
        layout.kv_tensors_per_token == tensors,
{
}

/// Where keys and values differ in shape, a token has an element for every layer and every place of a
/// key head and of a value head, and its keys and its values take the bytes of their own elements.
pub proof fn paired_tokens_are_their_keys_and_values(
    num_layers: usize,
    key_heads: usize,
    key_head_dim: usize,
    value_heads: usize,
    value_head_dim: usize,
    layout: Result<KvCacheModelLayout, KvCacheLayoutError>,
    dtype: KvCacheDtype,
    width: Option<usize>,
    bytes: Result<usize, KvCacheLayoutError>,
    sizes: Result<Option<[usize; 2]>, KvCacheLayoutError>,
)
    requires
        call_ensures(
            KvCacheModelLayout::tensor_pair,
            (num_layers, key_heads, key_head_dim, value_heads, value_head_dim),
            layout,
        ),
        layout is Ok,
        call_ensures(KvCacheDtype::bytes_per_element, (dtype,), width),
        call_ensures(KvCacheModelLayout::token_size_bytes, (layout->Ok_0, dtype), bytes),
        call_ensures(KvCacheModelLayout::tensor_pair_size_bytes, (layout->Ok_0, dtype), sizes),
    ensures
        layout->Ok_0.num_layers == num_layers,
        bytes matches Ok(n) ==> width is Some && n == num_layers * (key_heads * key_head_dim
            + value_heads * value_head_dim) * width->0,
        sizes matches Ok(pair) ==> pair is Some && width is Some && pair->0@.len() == 2
            && pair->0@[0] == key_heads * key_head_dim * width->0 && pair->0@[1] == value_heads
            * value_head_dim * width->0,
        bytes is Ok && sizes is Ok ==> bytes->Ok_0 == num_layers * (sizes->Ok_0->0@[0]
            + sizes->Ok_0->0@[1]),
        width is None ==> bytes is Err && sizes is Err,
{
    let keys = key_heads * key_head_dim;
    let values = value_heads * value_head_dim;
    if width is Some {
        let w = width->0 as int;
        assert(num_layers * (keys + values) * w == num_layers * (keys * w + values * w))
            by (nonlinear_arith);
    }
}

/// A pair of tensors is refused exactly where one of them is empty or too large.
pub proof fn empty_tensors_are_refused(
    num_layers: usize,
    key_heads: usize,
    key_head_dim: usize,
    value_heads: usize,
    value_head_dim: usize,
    layout: Result<KvCacheModelLayout, KvCacheLayoutError>,
)
    requires
        call_ensures(
            KvCacheModelLayout::tensor_pair,
            (num_layers, key_heads, key_head_dim, value_heads, value_head_dim),
            layout,
        ),
    ensures
        layout is Ok <==> 0 < key_heads * key_head_dim <= usize::MAX && 0 < value_heads
            * value_head_dim <= usize::MAX,
        layout == Err::<KvCacheModelLayout, KvCacheLayoutError>(
            KvCacheLayoutError::ZeroTensorWidth,
        ) <==> key_heads * key_head_dim <= usize::MAX && value_heads * value_head_dim <= usize::MAX
            && (key_heads * key_head_dim == 0 || value_heads * value_head_dim == 0),
{
    assert(key_heads * key_head_dim >= 0) by (nonlinear_arith);
    assert(value_heads * value_head_dim >= 0) by (nonlinear_arith);
}

/// A type is found by its name. The type of 32 bits is not among those that are asked for by name.
pub proof fn types_are_found_by_their_names(
    dtype: KvCacheDtype,
    name: &'static str,
    found: Option<KvCacheDtype>,
)
    requires
        call_ensures(KvCacheDtype::as_str, (dtype,), name),
        call_ensures(KvCacheDtype::parse, (name,), found),
    ensures
        found == (if dtype == KvCacheDtype::Float32 {
            None
        } else {
            Some(dtype)
        }),
{
    reveal_strlit("auto");
    reveal_strlit("float32");
    reveal_strlit("bf16");
    reveal_strlit("bfloat16");
    reveal_strlit("fp8_e4m3");
    reveal_strlit("fp8_e5m2");
    reveal_strlit("fp4_e2m1");
    assert(lower_text(name@) =~= name@);
    assert("float32"@.len() == 7);
    assert("auto"@.len() == 4 && "bf16"@.len() == 4 && "auto"@[0] == 'a' && "bf16"@[0] == 'b');
    assert("bfloat16"@[0] == 'b' && "fp8_e4m3"@[0] == 'f' && "fp8_e5m2"@[0] == 'f');
    assert("bfloat16"@.len() == 8 && "fp8_e4m3"@.len() == 8 && "fp8_e5m2"@.len() == 8);
    assert("fp4_e2m1"@.len() == 8 && "fp4_e2m1"@[2] == '4' && "fp4_e2m1"@[0] == 'f');
    assert("fp8_e4m3"@[2] == '8' && "fp8_e5m2"@[2] == '8');
    assert("fp8_e4m3"@[5] == '4' && "fp8_e5m2"@[5] == '5');
}

/// The tensors of a layer divide its bytes.
proof fn lemma_tensors_fill_a_layer(layout: Paged)
    requires
        layout.valid(),
    ensures
        layout.tensor_offset((layout.runtime.kv_tensors_per_token - 1) as nat)
            + layout.runtime.page_size as nat * layout.tensor_token(
            (layout.runtime.kv_tensors_per_token - 1) as nat,
        ) == layout.layer_page(),
{
    let tensors = layout.runtime.kv_tensors_per_token as nat;
    let size = layout.runtime.page_size as nat;
    match layout.widths {
        Widths::Uniform => {
            let width = layout.tensor_token(0);
            vstd::arithmetic::div_mod::lemma_fundamental_div_mod(
                layout.layer_token() as int,
                tensors as int,
            );
            assert(layout.layer_token() == tensors * width);
            assert((tensors - 1) * (size * width) + size * width == size * (tensors * width))
                by (nonlinear_arith);
        },
        Widths::Pair { key, value } => {
            assert(size * key + size * value == size * (key + value)) by (nonlinear_arith);
        },
    }
}

/// The first token begins the cache, and a token takes the bytes of its tensor in a layer: an equal
/// part of the bytes of the token, or those of its key or its value.
pub proof fn tokens_take_their_share(
    layout: PagedKvCacheLayout,
    page: usize,
    layer: usize,
    tensor: usize,
    token: usize,
    range: Result<Range<usize>, PagedKvCacheLayoutError>,
)
    requires
        layout.wf(),
        call_ensures(
            PagedKvCacheLayout::tensor_token_byte_range,
            (&layout, page, layer, tensor, token),
            range,
        ),
    ensures
        range is Ok <==> page < layout@.page_count && layer < layout@.runtime.num_layers && tensor
            < layout@.runtime.kv_tensors_per_token && token < layout@.runtime.page_size,
        range matches Ok(bytes) ==> {
            &&& page == 0 && layer == 0 && tensor == 0 && token == 0 ==> bytes.start == 0
            &&& layout@.widths is Uniform ==> (bytes.end - bytes.start)
                * layout@.runtime.kv_tensors_per_token * layout@.runtime.num_layers
                == layout@.runtime.bytes_per_token
            &&& layout@.widths matches Widths::Pair { key, value } ==> bytes.end - bytes.start == (
            if tensor == 0 {
                key
            } else {
                value
            }) && (key + value) * layout@.runtime.num_layers == layout@.runtime.bytes_per_token
        },
{
    layout.layouts_are_valid();
    let runtime = layout@.runtime;
    let layers = runtime.num_layers as int;
    let tensors = runtime.kv_tensors_per_token as int;
    vstd::arithmetic::div_mod::lemma_fundamental_div_mod(runtime.bytes_per_token as int, layers);
    vstd::arithmetic::div_mod::lemma_fundamental_div_mod(layout@.layer_token() as int, tensors);
    let width = layout@.tensor_token(0) as int;
    let part = layout@.layer_token() as int;
    assert(layers * part == part * layers) by (nonlinear_arith);
    assert(tensors * width == width * tensors) by (nonlinear_arith);
    assert(0 * (runtime.page_size_bytes as int) == 0);
    assert(0 * (layout@.layer_page() as int) == 0);
    assert(0 * ((runtime.page_size as int) * width) == 0);
    assert(0 * width == 0);
}

/// The tokens of a tensor follow each other: a token begins where the one before it ends.
pub proof fn tokens_follow_each_other(
    layout: PagedKvCacheLayout,
    page: usize,
    layer: usize,
    tensor: usize,
    token: usize,
    next_token: usize,
    range: Result<Range<usize>, PagedKvCacheLayoutError>,
    next: Result<Range<usize>, PagedKvCacheLayoutError>,
)
    requires
        layout.wf(),
        call_ensures(
            PagedKvCacheLayout::tensor_token_byte_range,
            (&layout, page, layer, tensor, token),
            range,
        ),
        call_ensures(
            PagedKvCacheLayout::tensor_token_byte_range,
            (&layout, page, layer, tensor, next_token),
            next,
        ),
        next_token == token + 1,
        next is Ok,
    ensures
        range is Ok,
        next->Ok_0.start == range->Ok_0.end,
{
    let width = layout@.tensor_token(tensor as nat) as int;
    assert((token + 1) * width == token * width + width) by (nonlinear_arith);
}

/// The tensors of a layer follow each other: the first token of a tensor begins where the last token
/// of the tensor before it ends.
pub proof fn tensors_follow_each_other(
    layout: PagedKvCacheLayout,
    page: usize,
    layer: usize,
    tensor: usize,
    next_tensor: usize,
    last: usize,
    range: Result<Range<usize>, PagedKvCacheLayoutError>,
    next: Result<Range<usize>, PagedKvCacheLayoutError>,
)
    requires
        layout.wf(),
        call_ensures(
            PagedKvCacheLayout::tensor_token_byte_range,
            (&layout, page, layer, tensor, last),
            range,
        ),
        call_ensures(
            PagedKvCacheLayout::tensor_token_byte_range,
            (&layout, page, layer, next_tensor, 0),
            next,
        ),
        last == layout@.runtime.page_size - 1,
        next_tensor == tensor + 1,
        next is Ok,
    ensures
        range is Ok,
        next->Ok_0.start == range->Ok_0.end,
{
    layout.layouts_are_valid();
    let size = layout@.runtime.page_size as int;
    let width = layout@.tensor_token(tensor as nat) as int;
    let wide = layout@.tensor_token(next_tensor as nat) as int;
    assert((size - 1) * width + width == size * width) by (nonlinear_arith);
    assert((tensor + 1) * (size * width) == tensor * (size * width) + size * width)
        by (nonlinear_arith);
    assert(0 * wide == 0);
}

/// The layers of a page follow each other: the first token of a layer begins where the last token of
/// the last tensor of the layer before it ends.
pub proof fn layers_follow_each_other(
    layout: PagedKvCacheLayout,
    page: usize,
    layer: usize,
    next_layer: usize,
    last_tensor: usize,
    last: usize,
    range: Result<Range<usize>, PagedKvCacheLayoutError>,
    next: Result<Range<usize>, PagedKvCacheLayoutError>,
)
    requires
        layout.wf(),
        call_ensures(
            PagedKvCacheLayout::tensor_token_byte_range,
            (&layout, page, layer, last_tensor, last),
            range,
        ),
        call_ensures(
            PagedKvCacheLayout::tensor_token_byte_range,
            (&layout, page, next_layer, 0, 0),
            next,
        ),
        last == layout@.runtime.page_size - 1,
        last_tensor == layout@.runtime.kv_tensors_per_token - 1,
        next_layer == layer + 1,
        next is Ok,
    ensures
        range is Ok,
        next->Ok_0.start == range->Ok_0.end,
{
    layout.layouts_are_valid();
    lemma_tensors_fill_a_layer(layout@);
    let size = layout@.runtime.page_size as int;
    let width = layout@.tensor_token(last_tensor as nat) as int;
    let layer_page = layout@.layer_page() as int;
    assert((size - 1) * width + width == size * width) by (nonlinear_arith);
    assert((layer + 1) * layer_page == layer * layer_page + layer_page) by (nonlinear_arith);
    assert(0 * (layout@.tensor_token(0) as int) == 0);
    assert(0 * (size * layout@.tensor_token(0)) == 0);
}

/// The pages follow each other: the first token of a page begins where the last token of the last
/// tensor of the last layer of the page before it ends, which is where the page ends.
pub proof fn pages_follow_each_other(
    layout: PagedKvCacheLayout,
    page: usize,
    next_page: usize,
    last_layer: usize,
    last_tensor: usize,
    last: usize,
    range: Result<Range<usize>, PagedKvCacheLayoutError>,
    next: Result<Range<usize>, PagedKvCacheLayoutError>,
    bytes: Result<Range<usize>, PagedKvCacheLayoutError>,
)
    requires
        layout.wf(),
        call_ensures(
            PagedKvCacheLayout::tensor_token_byte_range,
            (&layout, page, last_layer, last_tensor, last),
            range,
        ),
        call_ensures(
            PagedKvCacheLayout::tensor_token_byte_range,
            (&layout, next_page, 0, 0, 0),
            next,
        ),
        call_ensures(PagedKvCacheLayout::page_byte_range, (&layout, next_page), bytes),
        last == layout@.runtime.page_size - 1,
        last_tensor == layout@.runtime.kv_tensors_per_token - 1,
        last_layer == layout@.runtime.num_layers - 1,
        next_page == page + 1,
        next is Ok,
    ensures
        range is Ok,
        next->Ok_0.start == range->Ok_0.end,
        bytes is Ok,
        bytes->Ok_0.start == next->Ok_0.start,
        bytes->Ok_0.end - bytes->Ok_0.start == layout@.runtime.page_size
            * layout@.runtime.bytes_per_token,
{
    layout.layouts_are_valid();
    lemma_tensors_fill_a_layer(layout@);
    let runtime = layout@.runtime;
    let size = runtime.page_size as int;
    let layers = runtime.num_layers as int;
    let width = layout@.tensor_token(last_tensor as nat) as int;
    let part = layout@.layer_token() as int;
    let page_bytes = runtime.page_size_bytes as int;
    vstd::arithmetic::div_mod::lemma_fundamental_div_mod(runtime.bytes_per_token as int, layers);
    assert((size - 1) * width + width == size * width) by (nonlinear_arith);
    assert((layers - 1) * (size * part) + size * part == size * (layers * part))
        by (nonlinear_arith);
    assert((page + 1) * page_bytes == page * page_bytes + page_bytes) by (nonlinear_arith);
    assert((next_page + 1) * page_bytes == next_page * page_bytes + page_bytes)
        by (nonlinear_arith);
    assert(0 * (layout@.tensor_token(0) as int) == 0);
    assert(0 * (size * layout@.tensor_token(0)) == 0);
    assert(0 * (layout@.layer_page() as int) == 0);
}

/// The slots of a cache count the tokens of its pages, page by page.
pub proof fn slots_count_the_tokens_of_the_pages(
    layout: PagedKvCacheLayout,
    page: usize,
    token: usize,
    slot: usize,
    layer: usize,
    tensor: usize,
    by_token: Result<Range<usize>, PagedKvCacheLayoutError>,
    by_slot: Result<Range<usize>, PagedKvCacheLayoutError>,
)
    requires
        layout.wf(),
        slot == page * layout@.runtime.page_size + token,
        token < layout@.runtime.page_size,
        call_ensures(
            PagedKvCacheLayout::tensor_token_byte_range,
            (&layout, page, layer, tensor, token),
            by_token,
        ),
        call_ensures(
            PagedKvCacheLayout::tensor_slot_byte_range,
            (&layout, layer, tensor, slot),
            by_slot,
        ),
    ensures
        by_token is Ok <==> by_slot is Ok,
        by_token is Ok ==> by_slot->Ok_0.start == by_token->Ok_0.start && by_slot->Ok_0.end
            == by_token->Ok_0.end,
{
    layout.layouts_are_valid();
    let size = layout@.runtime.page_size as int;
    let pages = layout@.page_count as int;
    assert(page * size == size * page) by (nonlinear_arith);
    vstd::arithmetic::div_mod::lemma_fundamental_div_mod_converse(
        slot as int,
        size,
        page as int,
        token as int,
    );
    if page < pages {
        assert(page * size + token < pages * size) by (nonlinear_arith)
            requires
                page < pages,
                token < size,
                0 <= page,
                0 < size,
        ;
    } else {
        assert(page * size + token >= pages * size) by (nonlinear_arith)
            requires
                page >= pages,
                token >= 0,
                0 <= pages,
                0 < size,
        ;
    }
}

} // verus!
