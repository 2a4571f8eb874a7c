use sglang_srt::kv_cache::{
    KvCacheDtype, KvCacheLayoutError, KvCacheModelLayout, KvCacheRuntimeLayout,
};
use sglang_srt::model_executor::{
    CachePageId, ForwardMode, ModelWorkerBatch, ScheduleBatch, ScheduledRequest, StopRule,
};
use sglang_srt::model_forward::{
    argmax_token, finish_tokens, total_order_key, validate_model_worker_batch, ModelForwardError,
    ModelForwardOutput, ModelRunner, TransferableKvCacheMemory, TransferableRegion,
};
use sglang_srt::paged_kv_cache::{
    KvCachePool, KvCachePoolError, KvCacheStorage, PagedKvCacheLayout, PagedKvCacheLayoutError,
};
use sglang_srt::types::RequestId;

#[test]
fn cache_types_have_names_and_widths() {
    for (name, dtype, bytes) in [
        ("auto", KvCacheDtype::Auto, Some(2)),
        ("float32", KvCacheDtype::Float32, Some(4)),
        ("bfloat16", KvCacheDtype::Bfloat16, Some(2)),
        ("fp8_e4m3", KvCacheDtype::Fp8E4M3, Some(1)),
        ("fp8_e5m2", KvCacheDtype::Fp8E5M2, Some(1)),
    ] {
        assert_eq!(dtype.as_str(), name);
        assert_eq!(dtype.bytes_per_element(), bytes);
    }
    assert_eq!(KvCacheDtype::Auto.runtime_storage_dtype(), KvCacheDtype::Bfloat16);
    assert_eq!(KvCacheDtype::Fp8E5M2.runtime_storage_dtype(), KvCacheDtype::Fp8E5M2);
    for (name, dtype) in [
        ("AUTO", Some(KvCacheDtype::Auto)),
        ("bf16", Some(KvCacheDtype::Bfloat16)),
        ("bfloat16", Some(KvCacheDtype::Bfloat16)),
        ("Fp8_E4M3", Some(KvCacheDtype::Fp8E4M3)),
        ("fp8_e5m2", Some(KvCacheDtype::Fp8E5M2)),
        ("fp4_e2m1", Some(KvCacheDtype::Fp4E2M1)),
        ("float32", None),
    ] {
        assert_eq!(KvCacheDtype::parse(name), dtype);
    }
}

#[test]
fn cache_layouts_have_sizes() {
    let uniform = KvCacheModelLayout::multi_tensor(2, 3, 4, 2);
    assert_eq!(uniform.elements_per_token(), Some(48));
    assert_eq!(uniform.token_size_bytes(KvCacheDtype::Bfloat16), Ok(96));
    assert_eq!(
        uniform.token_size_bytes(KvCacheDtype::Fp4E2M1),
        Err(KvCacheLayoutError::DtypeRequiresModelMetadata(KvCacheDtype::Fp4E2M1))
    );
    let pair = KvCacheModelLayout::tensor_pair(1, 2, 8, 2, 4).expect("pair");
    assert_eq!(pair.tensor_pair_size_bytes(KvCacheDtype::Float32), Ok(Some([64, 32])));
    assert_eq!(pair.token_size_bytes(KvCacheDtype::Float32), Ok(96));
    assert_eq!(uniform.tensor_pair_size_bytes(KvCacheDtype::Float32), Ok(None));
    assert_eq!(
        KvCacheModelLayout::tensor_pair(1, 0, 8, 2, 4),
        Err(KvCacheLayoutError::ZeroTensorWidth)
    );
    assert_eq!(
        KvCacheModelLayout::tensor_pair(1, usize::MAX, 2, 2, 4),
        Err(KvCacheLayoutError::SizeOverflow)
    );
    let packed = KvCacheModelLayout::packed_bytes_per_layer(3, 10);
    assert_eq!(packed.token_size_bytes(KvCacheDtype::Auto), Ok(30));
    assert_eq!(
        KvCacheModelLayout::packed_mla(1, 1, 64).expect_err("uneven"),
        KvCacheLayoutError::InvalidPackedMlaNopeHeadDim(1)
    );
}

fn runtime_layout() -> KvCacheRuntimeLayout {
    KvCacheRuntimeLayout {
        dtype: KvCacheDtype::Bfloat16,
        page_size: 4,
        num_layers: 2,
        kv_heads: 1,
        head_dim: 3,
        kv_tensors_per_token: 2,
        bytes_per_token: 24,
        page_size_bytes: 96,
    }
}

#[test]
fn tokens_have_their_bytes_in_pages() {
    let layout = PagedKvCacheLayout::new(runtime_layout(), 3).expect("layout");
    assert_eq!(layout.page_count(), 3);
    assert_eq!(layout.total_byte_len(), 288);
    assert_eq!(layout.slot_count(), 12);
    assert_eq!(layout.bytes_per_token_per_layer(), 12);
    assert_eq!(layout.bytes_per_token_per_tensor(), Some(6));
    assert_eq!(layout.bytes_per_layer_page(), 48);
    assert_eq!(layout.bytes_per_tensor_page(), Some(24));
    assert_eq!(layout.page_byte_range(2), Ok(192..288));
    // The second page, the second layer, the second tensor, the fourth token.
    assert_eq!(layout.tensor_token_byte_range(1, 1, 1, 3), Ok(186..192));
    assert_eq!(layout.tensor_slot_byte_range(1, 1, 7), Ok(186..192));
    let geometry = layout.kv_pair_copy_geometry(1).expect("geometry");
    assert_eq!(geometry.page_stride_bytes, 96);
    assert_eq!(geometry.key_offset_bytes, 48);
    assert_eq!(geometry.value_offset_bytes, 72);
    assert_eq!(geometry.token_bytes, 6);
    let mut seen = vec![0; layout.total_byte_len()];
    for layer in 0..2 {
        for tensor in 0..2 {
            for slot in 0..12 {
                for byte in layout.tensor_slot_byte_range(layer, tensor, slot).expect("range") {
                    seen[byte] += 1;
                }
            }
        }
    }
    assert!(seen.iter().all(|count| *count == 1));
}

#[test]
fn places_outside_the_cache_are_refused() {
    let layout = PagedKvCacheLayout::new(runtime_layout(), 3).expect("layout");
    assert_eq!(
        layout.page_byte_range(3),
        Err(PagedKvCacheLayoutError::PageOutOfRange { page_index: 3, page_count: 3 })
    );
    assert_eq!(
        layout.tensor_token_byte_range(0, 2, 0, 0),
        Err(PagedKvCacheLayoutError::LayerOutOfRange { layer_index: 2, layer_count: 2 })
    );
    assert_eq!(
        layout.tensor_token_byte_range(0, 0, 2, 0),
        Err(PagedKvCacheLayoutError::TensorOutOfRange { tensor_index: 2, tensor_count: 2 })
    );
    assert_eq!(
        layout.tensor_token_byte_range(0, 0, 0, 4),
        Err(PagedKvCacheLayoutError::TokenOutOfRange { token_index: 4, page_size: 4 })
    );
    assert_eq!(
        layout.tensor_slot_byte_range(0, 0, 12),
        Err(PagedKvCacheLayoutError::SlotOutOfRange { slot_index: 12, slot_count: 12 })
    );
    assert_eq!(layout.validate_slot_indices(&[]), Err(PagedKvCacheLayoutError::EmptySlotMap));
    assert_eq!(layout.validate_slot_indices(&[0, 11]), Ok(()));
    assert_eq!(
        layout.validate_slot_indices(&[0, 12]),
        Err(PagedKvCacheLayoutError::BatchSlotOutOfRange {
            batch_index: 1,
            slot_index: 12,
            slot_count: 12
        })
    );
}

#[test]
fn impossible_layouts_are_refused() {
    let new = |change: fn(&mut KvCacheRuntimeLayout), pages: usize| {
        let mut runtime = runtime_layout();
        change(&mut runtime);
        PagedKvCacheLayout::new(runtime, pages).expect_err("invalid")
    };
    assert_eq!(new(|_| {}, 0), PagedKvCacheLayoutError::ZeroPageCount);
    assert_eq!(
        new(|runtime| runtime.page_size_bytes = 95, 3),
        PagedKvCacheLayoutError::RuntimePageSizeMismatch { expected: 96, actual: 95 }
    );
    assert_eq!(
        new(
            |runtime| {
                runtime.bytes_per_token = 25;
                runtime.page_size_bytes = 100;
            },
            3
        ),
        PagedKvCacheLayoutError::UnevenLayerLayout { bytes_per_token: 25, num_layers: 2 }
    );
    assert_eq!(new(|_| {}, usize::MAX), PagedKvCacheLayoutError::SizeOverflow);
    assert!(matches!(
        new(|runtime| runtime.num_layers = 0, 3),
        PagedKvCacheLayoutError::ZeroLayoutField(_)
    ));
    assert_eq!(
        PagedKvCacheLayout::new_with_tensor_pair(runtime_layout(), 3, 8, 5).expect_err("sum"),
        PagedKvCacheLayoutError::TensorPairSizeMismatch {
            bytes_per_token_per_layer: 12,
            key_token_bytes: 8,
            value_token_bytes: 5
        }
    );
    let uneven = PagedKvCacheLayout::new_with_tensor_pair(runtime_layout(), 3, 8, 4).expect("layout");
    assert_eq!(uneven.bytes_per_token_per_tensor(), None);
    assert_eq!(
        uneven.kv_pair_copy_geometry(0),
        Err(PagedKvCacheLayoutError::UnevenKvPairCopy {
            key_token_bytes: 8,
            value_token_bytes: 4
        })
    );
    // Behind the keys of the page stand the values.
    assert_eq!(uneven.tensor_token_byte_range(0, 0, 1, 1), Ok(36..40));
}

struct Bytes {
    len: usize,
    cleared: bool,
}

impl KvCacheStorage for Bytes {
    type Error = String;

    fn bytes(&self) -> usize {
        self.len
    }

    fn clears(_before: Self, after: Self, cleared: Result<(), String>) -> bool {
        after.cleared && cleared.is_ok()
    }

    fn byte_len(&self) -> usize {
        self.len
    }

    fn clear(&mut self) -> Result<(), String> {
        self.cleared = true;
        Ok(())
    }
}

#[test]
fn pools_hold_storage_of_their_size() {
    let layout = PagedKvCacheLayout::new(runtime_layout(), 3).expect("layout");
    let storage = |len: usize| Bytes { len, cleared: false };
    let mut pool = KvCachePool::new(layout, storage(288)).expect("pool");
    assert_eq!(pool.layout(), layout);
    assert_eq!(pool.clear(), Ok(()));
    assert!(pool.storage().cleared);
    pool.storage_mut().cleared = false;
    assert!(!pool.into_storage().cleared);
    match KvCachePool::new(layout, storage(287)) {
        Err(KvCachePoolError::StorageSizeMismatch { expected, actual }) => {
            assert_eq!((expected, actual), (288, 287));
        }
        Ok(_) => panic!("expected an error"),
    }
}

fn pages(indices: &[usize]) -> Vec<CachePageId> {
    indices.iter().map(|index| CachePageId { index: *index }).collect()
}

fn request(name: &str, input: &[u32], cached: usize, output: &[u32]) -> ScheduledRequest {
    let total = input.len() + output.len();
    ScheduledRequest {
        request_id: RequestId::from(name),
        input_ids: input.to_vec(),
        uncached_input_ids: input[cached..].to_vec(),
        output_ids: output.to_vec(),
        forward_prefix_token_count: cached,
        prefix_cache_pages: pages(&(0..cached).collect::<Vec<_>>()),
        sequence_cache_pages: pages(&(0..total).collect::<Vec<_>>()),
        forward_cache_pages: pages(&(cached..total).collect::<Vec<_>>()),
        disaggregated_params: None,
        data_parallel_rank: 0,
        stop_rule: StopRule {
            ignore_eos: false,
            stop_token_ids: vec![9],
        },
    }
}

#[test]
fn prefill_batches_hold_uncached_tokens() {
    let batch = ScheduleBatch {
        forward_mode: ForwardMode::Prefill,
        requests: vec![request("a", &[5, 6, 7], 1, &[]), request("b", &[8, 9], 0, &[])],
    };
    let worker = ModelWorkerBatch::from_schedule_batch(&batch);
    assert_eq!(worker.forward_mode(), ForwardMode::Prefill);
    assert_eq!(worker.request_ids()[1].as_str(), "b");
    assert_eq!(worker.input_ids(), &[6, 7, 8, 9]);
    assert_eq!(worker.positions(), &[1, 2, 0, 1]);
    assert_eq!(worker.request_offsets(), &[0, 2]);
    assert_eq!(worker.input_token_counts(), &[2, 2]);
    assert_eq!(worker.cached_token_counts(), &[1, 0]);
    assert_eq!(worker.sequence_lengths(), &[3, 2]);
    assert_eq!(worker.last_input_token_ids(), vec![7, 9]);
    assert_eq!(worker.out_cache_pages().len(), 4);
    assert_eq!(worker.out_cache_pages()[0].as_usize(), 1);
}

#[test]
fn decode_batches_hold_last_tokens() {
    let batch = ScheduleBatch {
        forward_mode: ForwardMode::Decode,
        requests: vec![request("a", &[5, 6, 7], 0, &[3, 4]), request("b", &[8], 0, &[])],
    };
    let worker = ModelWorkerBatch::from_schedule_batch(&batch);
    // A request without output starts from token zero.
    assert_eq!(worker.input_ids(), &[4, 0]);
    assert_eq!(worker.positions(), &[4, 0]);
    assert_eq!(worker.sequence_lengths(), &[5, 1]);
    assert_eq!(worker.last_input_token_ids(), vec![4, 0]);
}

#[test]
fn logits_are_taken_at_the_last_tokens() {
    let batch = ScheduleBatch {
        forward_mode: ForwardMode::Prefill,
        requests: vec![request("a", &[5, 6], 0, &[]), request("b", &[8], 0, &[])],
    };
    let worker = ModelWorkerBatch::from_schedule_batch(&batch);
    let output = ModelForwardOutput::from_token_logits(
        &worker,
        vec![vec![1.0f32, 2.0], vec![3.0, 4.0], vec![5.0, 6.0]],
    )
    .expect("output");
    assert_eq!(output.logits(), &[vec![3.0, 4.0], vec![5.0, 6.0]]);
    assert_eq!(output.check_request_count(2), Ok(()));
    assert_eq!(
        output.check_request_count(3),
        Err(ModelForwardError::BatchSizeMismatch { request_count: 3, output_count: 2 })
    );
    assert_eq!(
        ModelForwardOutput::from_token_logits(&worker, vec![vec![1.0f32]]),
        Err(ModelForwardError::TokenLogitCountMismatch { token_count: 3, logit_count: 1 })
    );
    assert_eq!(
        ModelForwardOutput::new(vec![vec![1.0f32], vec![]]),
        Err(ModelForwardError::RaggedLogits)
    );
    assert_eq!(
        ModelForwardOutput::<f32>::new(vec![vec![]]),
        Err(ModelForwardError::EmptyVocabulary)
    );
}

#[test]
fn batches_with_broken_ranges_are_refused() {
    let batch = ScheduleBatch {
        forward_mode: ForwardMode::Prefill,
        requests: vec![request("a", &[5, 6], 0, &[])],
    };
    let worker = ModelWorkerBatch::from_schedule_batch(&batch);
    assert_eq!(validate_model_worker_batch(&worker), Ok(()));
    let mut short = request("a", &[5, 6], 0, &[]);
    short.forward_cache_pages.pop();
    let batch = ScheduleBatch {
        forward_mode: ForwardMode::Prefill,
        requests: vec![short],
    };
    assert!(validate_model_worker_batch(&ModelWorkerBatch::from_schedule_batch(&batch)).is_err());
}

#[test]
fn greedy_tokens_are_the_last_largest() {
    let keys = |values: &[f32]| values.iter().map(|value| total_order_key(value.to_bits())).collect::<Vec<i32>>();
    assert_eq!(argmax_token(&keys(&[1.0, 3.0, 2.0])), Ok(1));
    assert_eq!(argmax_token(&keys(&[3.0, 1.0, 3.0])), Ok(2));
    assert_eq!(argmax_token(&keys(&[-1.0, -3.0, f32::NEG_INFINITY])), Ok(0));
    assert_eq!(argmax_token(&vec![]), Err(ModelForwardError::EmptyVocabulary));
    let mut floats = vec![f32::NAN, 1.0, -0.0, 0.0, -5.0, f32::INFINITY, f32::NEG_INFINITY];
    let mut bits: Vec<f32> = floats.clone();
    floats.sort_by(|a, b| a.total_cmp(b));
    bits.sort_by_key(|value| total_order_key(value.to_bits()));
    for (a, b) in floats.iter().zip(&bits) {
        assert_eq!(a.to_bits(), b.to_bits());
    }
}

#[test]
fn generated_tokens_end_requests() {
    let batch = ScheduleBatch {
        forward_mode: ForwardMode::Decode,
        requests: vec![request("a", &[5], 0, &[]), request("b", &[5], 0, &[])],
    };
    let tokens = finish_tokens(&batch, &vec![9, 8]).expect("tokens");
    assert!(tokens[0].finished);
    assert!(!tokens[1].finished);
    assert_eq!(
        finish_tokens(&batch, &vec![9]),
        Err(ModelForwardError::BatchSizeMismatch { request_count: 2, output_count: 1 })
    );
}

#[test]
fn runners_reserve_transferable_slots() {
    let layout = KvCacheModelLayout::packed_bytes_per_layer(1, 10);
    assert_eq!(ModelRunner::new("model").kv_cache_layout(), None);
    assert_eq!(
        ModelRunner::new_with_kv_cache_layout("model", Some(layout)).kv_cache_layout(),
        Some(layout)
    );
    let runner = ModelRunner::with_kv_cache_layout("model", "sampler", Some(layout));
    assert_eq!(*runner.model(), "model");
    assert_eq!(runner.kv_cache_layout(), Some(layout));
    let memory = |lengths: &[usize]| TransferableKvCacheMemory {
        page_size_bytes: 20,
        regions: lengths
            .iter()
            .map(|byte_len| TransferableRegion {
                byte_len: *byte_len,
                page_size_bytes: 10,
            })
            .collect(),
    };
    let reserve = |memory: Option<&TransferableKvCacheMemory>, slots: usize, page_size: usize| {
        runner.reserve_transferable_kv_cache_slots(memory, slots, page_size)
    };
    assert_eq!(reserve(Some(&memory(&[40, 40])), 8, 2), Ok(()));
    for (found, slots, page_size, message) in [
        (None, 8, 2, "runtime backend did not allocate transferable KV memory for 8 slots with page size 2"),
        (Some(memory(&[40, 40])), 7, 2, "scheduler KV geometry requires non-zero page-aligned capacity, found 7 slots with page size 2"),
        (Some(memory(&[usize::MAX, 1])), 8, 2, "transferable KV memory byte length overflowed"),
        (Some(memory(&[30, 40])), 8, 2, "transferable KV memory length 70 is not divisible by logical page size 20"),
        (Some(memory(&[])), 8, 2, "transferable KV memory has no regions"),
        (Some(memory(&[30, 50])), 8, 2, "transferable KV memory regions do not contain the same logical page count"),
        (Some(memory(&[40, 40])), 6, 2, "runtime KV allocation has 4 pages but scheduler requires 3 pages for 6 slots with page size 2"),
    ] {
        assert_eq!(reserve(found.as_ref(), slots, page_size), Err(message.to_string()));
    }
    assert_eq!(
        ModelRunner::with_sampler("model", "sampler").reserve_transferable_kv_cache_slots(None, 8, 2),
        Err("model execution definition does not declare KV cache geometry".to_string())
    );
}

#[test]
fn offsets_of_a_batch_are_running_sums() {
    for forward_mode in [ForwardMode::Prefill, ForwardMode::Decode] {
        let batch = ScheduleBatch {
            forward_mode,
            requests: vec![
                request("a", &[5, 6, 7], 1, &[1]),
                request("b", &[8], 1, &[2, 3]),
                request("c", &[9, 9, 9, 9], 0, &[]),
            ],
        };
        let worker = ModelWorkerBatch::from_schedule_batch(&batch);
        let sums = |counts: &[usize]| {
            (0..=counts.len())
                .map(|n| counts[..n].iter().sum::<usize>())
                .collect::<Vec<_>>()
        };
        let inputs = sums(worker.input_token_counts());
        assert_eq!(worker.request_offsets()[..], inputs[..3]);
        assert_eq!(inputs[3], worker.input_ids().len());
        assert_eq!(inputs[3], worker.positions().len());
        let tokens = sums(worker.sequence_token_counts());
        assert_eq!(worker.sequence_offsets()[..], tokens[..3]);
        assert_eq!(tokens[3], worker.sequence_token_ids().len());
        assert_eq!(worker.sequence_lengths(), worker.sequence_token_counts());
        let range = tokens[1]..tokens[2];
        let second: &[u32] = match forward_mode {
            ForwardMode::Prefill => &[8],
            ForwardMode::Decode => &[8, 2, 3],
        };
        assert_eq!(&worker.sequence_token_ids()[range], second);
    }
}
