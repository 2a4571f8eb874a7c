use std::sync::{Arc, Mutex};

use sglang_srt::bootstrap_frame::MooncakeBootstrapFrameError;
use sglang_srt::bootstrap_publisher::{
    DisaggregatedParams, KvCacheTransferSpan, MooncakeDecodeBootstrapPublisher,
    MooncakeKvCacheLayout,
};
use sglang_srt::bootstrap_route::{
    http_get_request, http_success_body, metadata_poll, route_query_path, MetadataPoll,
    RouteAnswer, RouteQuery,
};
use sglang_srt::bootstrap_service::{
    MooncakeBootstrapKvCacheTransferExecutor, PrefillBootstrapService,
};
use sglang_srt::bootstrap_state::{PrefillBootstrapState, PrefillRouteRegistration};
use sglang_srt::json::Json;
use sglang_srt::pd_bootstrap::{
    send_step, KvPoll, MooncakeDecodeBootstrapError, MooncakeDecodeKvArgsRegistration,
    MooncakeDecodeTransferMetadata, MooncakeKvArgsRegisterInfo, MooncakeTransferInfo, SendStep,
};

#[test]
fn query_dp_ranks_prunes_expired_bootstrap_rooms() {
    let service = PrefillBootstrapService::new(Arc::new(Mutex::new(PrefillBootstrapState::default())));
    let now = 1_000_000;
    {
        let mut state = service.state().lock().expect("state lock should be held");
        state.register_dp_rank(41, 3, now - 121, now - 121);
    }

    let response = service
        .state()
        .lock()
        .expect("state lock should be held")
        .query_dp_ranks(&vec![41], now);
    assert_eq!(response, Json::object());
    assert_eq!(
        service
            .state()
            .lock()
            .expect("state lock should be held")
            .prune_expired_dp_rank_entries(now),
        0,
        "expired room-to-dp-rank mappings should be removed"
    );
}

#[test]
fn fresh_rooms_are_answered() {
    let mut state = PrefillBootstrapState::default();
    state.register_dp_rank(41, 3, 500, 500);
    let response = state.query_dp_ranks(&vec![41, 42], 510);
    assert_eq!(response.get("41").and_then(Json::as_i64), Some(3));
    assert!(!response.has("42"));
}

fn registration(rank: usize) -> PrefillRouteRegistration {
    PrefillRouteRegistration {
        attn_tp_size: 2,
        attn_tp_rank: rank,
        attn_cp_size: 1,
        attn_cp_rank: 0,
        attn_dp_size: 1,
        attn_dp_rank: 0,
        pp_size: 1,
        pp_rank: 0,
        system_dp_size: 1,
        system_dp_rank: 0,
        rank_ip: "10.0.0.1".to_string(),
        rank_port: 7000 + rank as u16,
        page_size: Some(16),
        kv_cache_dtype: Some("auto".to_string()),
        load_balance_method: None,
    }
}

#[test]
fn routes_are_answered_when_all_ranks_have_registered() {
    let mut state = PrefillBootstrapState::default();
    state.register_route(registration(0));
    let query = RouteQuery {
        prefill_dp_rank: 0,
        prefill_cp_rank: 0,
        target_tp_rank: 1,
        target_pp_rank: 0,
    };
    assert!(!state.is_ready());
    assert!(matches!(
        state.route(query),
        RouteAnswer::Unavailable(message)
            if message == "Prefill server not fully registered yet (1 workers registered)."
    ));
    state.register_route(registration(1));
    assert!(state.is_ready());
    match state.route(query) {
        RouteAnswer::Rank(info) => {
            assert_eq!(info.rank_port, 7001);
            assert_eq!(info.zmq_endpoint(), "tcp://10.0.0.1:7001");
        }
        _ => panic!("expected rank"),
    }
    let all = RouteQuery {
        prefill_dp_rank: -1,
        prefill_cp_rank: -1,
        target_tp_rank: -1,
        target_pp_rank: -1,
    };
    match state.route(all) {
        RouteAnswer::Server(info) => {
            assert_eq!(info.attn_tp_size, 2);
            assert_eq!(info.page_size, Some(16));
        }
        _ => panic!("expected server info"),
    }
    let half = RouteQuery {
        target_pp_rank: -1,
        ..query
    };
    assert!(matches!(state.route(half), RouteAnswer::BadRequest(_)));
    let far = RouteQuery {
        target_tp_rank: 9,
        ..query
    };
    assert!(matches!(state.route(far), RouteAnswer::NotFound(_)));
}

fn kv_args() -> MooncakeDecodeKvArgsRegistration {
    MooncakeDecodeKvArgsRegistration {
        endpoint: "10.0.0.2".to_string(),
        dst_port: 9000,
        mooncake_session_id: "session".to_string(),
        dst_kv_ptrs: vec![1, u64::MAX],
        dst_aux_ptrs: vec![7],
        dst_state_data_ptrs: vec![vec![3], vec![]],
        dst_tp_rank: 1,
        dst_attn_tp_size: 2,
        dst_kv_item_len: 4096,
        dst_state_item_lens: vec![vec![5, 6]],
        dst_state_dim_per_tensor: vec![],
    }
}

fn transfer() -> MooncakeDecodeTransferMetadata {
    MooncakeDecodeTransferMetadata {
        room: 77,
        endpoint: "10.0.0.2".to_string(),
        dst_port: 9000,
        mooncake_session_id: "session".to_string(),
        dst_kv_indices: vec![4, -1],
        dst_aux_index: Some(2),
        dst_state_indices: vec![vec![8]],
        required_dst_info_num: 1,
        decode_prefix_len: Some(3),
        is_dummy: false,
    }
}

#[test]
fn registrations_read_back_from_their_frames() {
    let sent = kv_args();
    let read = MooncakeKvArgsRegisterInfo::from_frame(&sent.to_frame()).expect("frame");
    assert_eq!(read.dst_kv_ptrs, sent.dst_kv_ptrs);
    assert_eq!(read.dst_state_data_ptrs, sent.dst_state_data_ptrs);
    assert_eq!(read.dst_state_item_lens, sent.dst_state_item_lens);
    assert_eq!(read.dst_kv_item_len, 4096);
    assert_eq!(read.mooncake_session_id, "session");
}

#[test]
fn transfers_read_back_from_their_frames() {
    let sent = transfer();
    let read = MooncakeTransferInfo::from_frame(&sent.to_frame().expect("frame")).expect("read");
    assert_eq!(read.room, 77);
    assert_eq!(read.dst_kv_indices, vec![4, -1]);
    assert_eq!(read.dst_aux_index, Some(2));
    assert_eq!(read.decode_prefix_len, Some(3));
    let missing = MooncakeDecodeTransferMetadata {
        dst_aux_index: None,
        ..transfer()
    };
    assert!(matches!(
        missing.to_frame(),
        Err(MooncakeDecodeBootstrapError::MissingAuxIndex { session_id }) if session_id == "session"
    ));
}

#[test]
fn rooms_wait_for_input_once_their_frames_are_here() {
    let mut state = PrefillBootstrapState::default();
    state
        .ingest_mooncake_bootstrap_frame(&kv_args().to_frame())
        .expect("registration");
    assert_eq!(state.decode_kv_args_registration_count(), 1);
    assert!(state.decode_kv_args("session").is_some());
    assert!(state.remote_kv_layouts_for_room(77).is_err());
    state
        .ingest_mooncake_bootstrap_frame(&transfer().to_frame().expect("frame"))
        .expect("transfer");
    assert_eq!(state.transfer_status(77), Some(KvPoll::WaitingForInput));
    let room = state.transfer_room(77).expect("room");
    assert_eq!(room.required_dst_info_num, 1);
    assert!(room.transfers.contains_key("session"));
    assert!(state.transfer_room(78).is_none());
    let layouts = state.remote_kv_layouts_for_room(77).expect("layouts");
    assert_eq!(layouts.len(), 1);
    assert_eq!(layouts[0].1.dst_kv_indices, vec![4, -1]);
    assert_eq!(layouts[0].1.dst_kv_item_len, 4096);
}

#[test]
fn bad_frames_are_refused_with_their_reason() {
    let mut state = PrefillBootstrapState::default();
    assert!(matches!(
        state.ingest_mooncake_bootstrap_frame(&[]),
        Err(MooncakeBootstrapFrameError::MissingField { .. })
    ));
    let mut frame = transfer().to_frame().expect("frame");
    frame[0] = vec![0xff, 0xfe];
    assert!(matches!(
        MooncakeTransferInfo::from_frame(&frame),
        Err(MooncakeBootstrapFrameError::Utf8Field { .. })
    ));
    let mut frame = transfer().to_frame().expect("frame");
    frame[0] = b"seven".to_vec();
    match MooncakeTransferInfo::from_frame(&frame) {
        Err(error) => assert!(error.to_string().contains("must be an integer, got seven")),
        Ok(_) => panic!("a room is a number"),
    }
}

#[test]
fn a_cache_is_told_once() {
    let mut publisher = MooncakeDecodeBootstrapPublisher::new(
        "10.0.0.2".to_string(),
        9000,
        "session".to_string(),
    )
    .with_kv_cache_layout(MooncakeKvCacheLayout {
        source_base_addr: 4096,
        page_size_bytes: 64,
    })
    .with_dst_aux_index(Some(0))
    .with_required_dst_info_num(1);
    let span = KvCacheTransferSpan {
        disaggregated_params: DisaggregatedParams {
            bootstrap_host: "10.0.0.1".to_string(),
            bootstrap_port: 8998,
            bootstrap_room: 5,
        },
        data_parallel_rank: 0,
        token_offset: 0,
        token_count: 2,
        cache_pages: vec![3, 4],
    };
    let first = publisher.publish_step(&span).expect("step");
    assert!(first.kv_args_registration.is_some());
    assert_eq!(first.bootstrap_addr, "10.0.0.1:8998");
    assert_eq!(first.metadata.dst_kv_indices, vec![3, 4]);
    publisher.step_was_sent(first);
    let second = publisher.publish_step(&span).expect("step");
    assert!(second.kv_args_registration.is_none());
    let other = publisher.with_target_ranks(1, 2);
    let third = other.publish_step(&span).expect("step");
    assert_eq!((third.target_tp_rank, third.target_pp_rank), (1, 2));
    assert!(third.kv_args_registration.is_some(), "another rank has not been told");
    assert_eq!(
        other
            .kv_args_registration_for_test()
            .expect("registration")
            .mooncake_session_id,
        "session"
    );
}

#[test]
fn metadata_is_waited_for() {
    let state = Arc::new(Mutex::new(PrefillBootstrapState::default()));
    let executor = MooncakeBootstrapKvCacheTransferExecutor::new(
        PrefillBootstrapService::new(Arc::clone(&state)),
        "inner",
    );
    assert_eq!(executor.metadata_wait_timeout(), 5_000_000_000);
    assert_eq!(executor.metadata_poll_interval(), 2_000_000);
    let executor = executor.with_metadata_wait_timeout(7);
    assert_eq!(executor.metadata_wait_timeout(), 7);
    assert_eq!(*executor.inner(), "inner");
    assert!(Arc::ptr_eq(executor.bootstrap_service().state(), &state));
    let missing = || state.lock().expect("state").remote_kv_layouts_for_room(3);
    assert!(matches!(metadata_poll(missing(), false), MetadataPoll::Wait));
    match metadata_poll(missing(), true) {
        MetadataPoll::Failed(message) => assert!(message.contains('3')),
        _ => panic!("expected a failure"),
    }
    assert!(matches!(metadata_poll(Ok(vec![]), true), MetadataPoll::Layouts(_)));
}

#[test]
fn bootstrap_requests_are_plain_http() {
    let query = RouteQuery {
        prefill_dp_rank: 0,
        prefill_cp_rank: 1,
        target_tp_rank: 2,
        target_pp_rank: 3,
    };
    let path = route_query_path(query);
    assert!(path.starts_with("/route?"));
    let request = http_get_request("10.0.0.1:8998", &path);
    assert!(request.starts_with(&format!("GET {path} HTTP/1.1\r\n")));
    assert_eq!(
        http_success_body("HTTP/1.1 200 OK\r\nA: b\r\n\r\nbody").expect("body"),
        "body"
    );
    assert!(matches!(
        http_success_body("HTTP/1.1 404 Not Found\r\n\r\nno"),
        Err(MooncakeDecodeBootstrapError::HttpStatus { status: 404, body }) if body == "no"
    ));
    assert!(matches!(
        http_success_body("nonsense"),
        Err(MooncakeDecodeBootstrapError::InvalidHttpResponse)
    ));
}

#[test]
fn messages_are_tried_to_be_sent_twenty_times() {
    assert!(matches!(send_step(1, Ok(())), SendStep::Done));
    assert!(matches!(send_step(20, Ok(())), SendStep::Done));
    assert!(matches!(send_step(19, Err("gone".to_string())), SendStep::Again));
    assert!(matches!(
        send_step(20, Err("gone".to_string())),
        SendStep::Failed(MooncakeDecodeBootstrapError::Zmq(message)) if message == "gone"
    ));
}
