use smg::grpc::backend_client::{
    reject_zmq_multimodal, BackendClient, BackendOperation, RefusalKind, ZmqEngineClient,
};
use smg::grpc::context::{
    ClientSelection, ExecutionPlanKind, RuntimeType, SamplingDefaults, WorkerInfo,
    WorkerSelection, WorkerSelectionMode, DEFAULT_BOOTSTRAP_PORT,
};
use smg::grpc::mode::{grpc_mode, ConnectionMode, Mode, RoutingMode};
use smg::grpc::pipeline::{
    Conclusion, Endpoint, EndpointLabel, FinalResponse, ParserFactories, PipelineDeps,
    RequestPipeline, RunKind, RunStep, StageOutcome,
};
use smg::grpc::proto::{mlx, sglang, tokenspeed, vllm};
use smg::grpc::proto_wrapper::request::{Engine, ProtoGenerateRequest};
use smg::grpc::proto_wrapper::response::{
    ProtoGenerateComplete, ProtoGenerateResponse, ProtoGenerateStreamChunk,
};
use smg::grpc::response_formatting::{build_usage, CompletionTokenTracker};
use smg::grpc::stages::helpers::{
    apply_sampling_defaults_to_generate_request, maybe_inject_pd_metadata,
    maybe_inject_pd_rendezvous, request_id_from, resolve_request_id, RequestType, SamplingKnobs,
};
use smg::grpc::stages::request_building::{
    build_failed, complete_request, ChatRequestBuildingStage, CompletionRequestBuildingStage,
    ExecutionPlan, Preparation,
};
use smg::grpc::stages::request_execution::{
    dual_dispatch_outcome, dual_dispatch_requests, effective_kv_engine_id, kv_connector_mode,
    mooncake_decode_params, mooncake_prefill_params, Dispatch, ExecutionMode, KvConnectorMode,
    single_outcome, Leg, RequestExecutionStage, RequestKind, RpcFailure, SequentialPd,
    MOONCAKE_CONNECTOR, NIXL_CONNECTOR, NIXL_PREFILL_KV_PARAMS,
};
use smg::grpc::stop::TextStopScanner;
use smg::grpc::text_only::validate_text_only_output;

fn worker(url: &str) -> WorkerInfo {
    WorkerInfo {
        url: url.to_string(),
        bootstrap_host: "prefill-host".to_string(),
        bootstrap_port: Some(9001),
        dp_rank: None,
        dp_size: None,
        labels: vec![],
        kv_connector: None,
        kv_engine_id: None,
        multimodal_tensor_transport: None,
        multimodal_shm_min_bytes: None,
        sampling_defaults: None,
    }
}

fn pair(runtime_type: RuntimeType) -> WorkerSelection {
    WorkerSelection::Disaggregated {
        encode_assignments: None,
        prefill: worker("http://p"),
        decode: worker("http://d"),
        runtime_type,
    }
}

// Request ids.

#[test]
fn rid_is_used_exactly_outside_pd() {
    let id = resolve_request_id(Some("client-rid"), Some("chatcmpl-mw"), "chatcmpl-", false);
    assert_eq!(id, "client-rid");
}

#[test]
fn rid_gets_per_attempt_suffix_in_pd() {
    let id = resolve_request_id(Some("client-rid"), None, "chatcmpl-", true);
    assert!(id.starts_with("client-rid-") && id != "client-rid");
}

#[test]
fn middleware_id_is_base_with_per_execution_suffix() {
    let first = resolve_request_id(None, Some("chatcmpl-mw"), "chatcmpl-", false);
    let second = resolve_request_id(None, Some("chatcmpl-mw"), "chatcmpl-", false);
    assert!(first.starts_with("chatcmpl-mw-"));
    assert!(second.starts_with("chatcmpl-mw-"));
    assert_ne!(first, second);
}

#[test]
fn falls_back_to_prefixed_mint_without_rid_or_middleware_id() {
    let id = resolve_request_id(None, None, "chatcmpl-", false);
    assert!(id.starts_with("chatcmpl-"));
    assert!(id.len() > "chatcmpl-".len());
}

#[test]
fn ids_are_made_of_their_parts() {
    assert_eq!(request_id_from(Some("r"), Some("m"), "p-", true, "u"), "r-u");
    assert_eq!(request_id_from(None, Some("m"), "p-", false, "u"), "m-u");
    assert_eq!(request_id_from(None, None, "p-", false, "u"), "p-u");
}

// Sampling defaults.

const ONE: u32 = 0x3f80_0000;

fn knobs() -> SamplingKnobs {
    SamplingKnobs {
        temperature: None,
        top_p: None,
        top_k: None,
        min_p: None,
        repetition_penalty: None,
    }
}

fn with_defaults() -> WorkerSelection {
    let mut w = worker("http://w");
    w.sampling_defaults = Some(SamplingDefaults {
        temperature: Some(0.6f32.to_bits()),
        top_p: Some(0.95f32.to_bits()),
        top_k: Some(20),
        min_p: None,
        repetition_penalty: None,
    });
    WorkerSelection::Single { worker: w }
}

#[test]
fn defaults_fill_what_the_user_left_alone() {
    let workers = with_defaults();
    let mut request = ProtoGenerateRequest::Sglang(Box::new(sglang::GenerateRequest {
        sampling_params: Some(sglang::SamplingParams {
            temperature: ONE,
            top_p: ONE,
            top_k: -1,
            min_p: 0,
            repetition_penalty: ONE,
        }),
        ..Default::default()
    }));
    let mut user = knobs();
    user.top_p = Some(ONE);
    apply_sampling_defaults_to_generate_request(
        &mut request,
        &RequestType::Chat(user),
        Some(&workers),
    );
    let params = request.as_sglang().sampling_params.unwrap();
    assert_eq!(params.temperature, 0.6f32.to_bits());
    assert_eq!(params.top_p, ONE);
    assert_eq!(params.top_k, 20);
    assert_eq!(params.min_p, 0);
}

#[test]
fn responses_requests_take_no_defaults() {
    let workers = with_defaults();
    let mut request = ProtoGenerateRequest::TokenSpeed(Box::new(tokenspeed::GenerateRequest {
        sampling_params: Some(tokenspeed::SamplingParams {
            temperature: None,
            top_p: None,
            top_k: None,
            min_p: None,
            repetition_penalty: None,
        }),
        ..Default::default()
    }));
    apply_sampling_defaults_to_generate_request(
        &mut request,
        &RequestType::Embedding,
        Some(&workers),
    );
    assert_eq!(request.as_tokenspeed().sampling_params.unwrap().top_k, None);
    apply_sampling_defaults_to_generate_request(
        &mut request,
        &RequestType::Chat(knobs()),
        Some(&workers),
    );
    assert_eq!(request.as_tokenspeed().sampling_params.unwrap().top_k, Some(20));
}

// Meeting places.

#[test]
fn both_legs_are_told_where_to_meet() {
    let mut request = ProtoGenerateRequest::Sglang(Box::default());
    maybe_inject_pd_metadata(&mut request, &pair(RuntimeType::Sglang));
    let place = request.as_sglang().disaggregated_params.clone().unwrap();
    assert_eq!(place.bootstrap_host, "prefill-host");
    assert_eq!(place.bootstrap_port, 9001);
    assert!(place.bootstrap_room >= 0);

    let mut request = ProtoGenerateRequest::TokenSpeed(Box::default());
    maybe_inject_pd_rendezvous(&mut request, &pair(RuntimeType::TokenSpeed));
    let place = request.as_tokenspeed().kv_bootstrap_info.clone().unwrap();
    assert_eq!(place.bootstrap_host, "prefill-host");
    assert!(place.bootstrap_room >= 0);

    let mut request = ProtoGenerateRequest::Vllm(Box::default());
    maybe_inject_pd_rendezvous(&mut request, &pair(RuntimeType::Vllm));
    assert!(request.as_vllm().kv_transfer_params.is_none());
}

// Connectors.

#[test]
fn kv_connector_mode_mooncake_uses_bootstrap_metadata() {
    let mode = kv_connector_mode(
        Some(MOONCAKE_CONNECTOR),
        "prefill-host",
        Some(9090),
        Some("engine-1"),
    );
    assert_eq!(
        mode,
        KvConnectorMode::Mooncake {
            host: "prefill-host".to_string(),
            port: 9090,
            engine_id: Some("engine-1".to_string()),
        }
    );
}

#[test]
fn kv_connector_mode_mooncake_defaults_port_and_tolerates_missing_engine_id() {
    let mode = kv_connector_mode(Some(MOONCAKE_CONNECTOR), "prefill-host", None, None);
    assert_eq!(
        mode,
        KvConnectorMode::Mooncake {
            host: "prefill-host".to_string(),
            port: u32::from(DEFAULT_BOOTSTRAP_PORT),
            engine_id: None,
        }
    );
}

#[test]
fn kv_connector_mode_mooncake_empty_engine_id_means_legacy() {
    let mode = kv_connector_mode(Some(MOONCAKE_CONNECTOR), "host", Some(9090), Some(""));
    assert_eq!(
        mode,
        KvConnectorMode::Mooncake { host: "host".to_string(), port: 9090, engine_id: None }
    );
}

#[test]
fn kv_connector_mode_nixl() {
    assert_eq!(
        kv_connector_mode(Some(NIXL_CONNECTOR), "ignored", Some(9090), None),
        KvConnectorMode::Nixl
    );
}

#[test]
fn kv_connector_mode_unknown_or_missing_is_passthrough() {
    assert_eq!(
        kv_connector_mode(Some("LMCacheConnector"), "host", None, None),
        KvConnectorMode::Passthrough
    );
    assert_eq!(kv_connector_mode(None, "host", None, None), KvConnectorMode::Passthrough);
}

#[test]
fn mooncake_prefill_params_carry_transfer_id() {
    let value: serde_json::Value =
        serde_json::from_str(&mooncake_prefill_params("xfer-abc")).unwrap();
    assert_eq!(value["do_remote_decode"], true);
    assert_eq!(value["do_remote_prefill"], false);
    assert_eq!(value["transfer_id"], "xfer-abc");
    assert_eq!(value.as_object().unwrap().len(), 3);
}

#[test]
fn mooncake_decode_params_synthesize_full_handoff() {
    let value: serde_json::Value = serde_json::from_str(&mooncake_decode_params(
        "xfer-abc", "engine-1", "10.0.0.1", 8998,
    ))
    .unwrap();
    assert_eq!(value["do_remote_decode"], false);
    assert_eq!(value["do_remote_prefill"], true);
    assert_eq!(value["transfer_id"], "xfer-abc");
    assert_eq!(value["remote_engine_id"], "engine-1");
    assert_eq!(value["remote_bootstrap_addr"], "http://10.0.0.1:8998");
    assert_eq!(value.as_object().unwrap().len(), 5);
}

#[test]
fn texts_are_escaped_in_handoffs() {
    let value: serde_json::Value =
        serde_json::from_str(&mooncake_prefill_params("a\"b\\c\n\u{1}é")).unwrap();
    assert_eq!(value["transfer_id"], "a\"b\\c\n\u{1}é");
}

#[test]
fn nixl_prefill_kv_params_is_valid_json() {
    let value: serde_json::Value = serde_json::from_str(NIXL_PREFILL_KV_PARAMS).unwrap();
    assert_eq!(value["do_remote_decode"], true);
    assert_eq!(value["do_remote_prefill"], false);
    assert_eq!(value.as_object().unwrap().len(), 2);
}

fn vllm_request(params: vllm::SamplingParams) -> ProtoGenerateRequest {
    ProtoGenerateRequest::Vllm(Box::new(vllm::GenerateRequest {
        sampling_params: Some(params),
        ..Default::default()
    }))
}

#[test]
fn sanitize_sampling_for_prefill_forces_length_capped_finish() {
    let mut request = vllm_request(vllm::SamplingParams {
        max_tokens: Some(128),
        min_tokens: 16,
        n: 4,
        stop: vec!["</s>".to_string()],
        stop_token_ids: vec![2],
        ignore_eos: false,
        ..Default::default()
    });
    request.sanitize_sampling_for_prefill(1);
    let ProtoGenerateRequest::Vllm(req) = request else {
        panic!("expected vLLM request");
    };
    let params = req.sampling_params.unwrap();
    assert_eq!(params.max_tokens, Some(1));
    assert_eq!(params.min_tokens, 0);
    assert_eq!(params.n, 1);
    assert!(params.stop.is_empty());
    assert!(params.stop_token_ids.is_empty());
    assert!(params.ignore_eos);
}

#[test]
fn sampling_n_defaults_to_one() {
    let unset = ProtoGenerateRequest::Vllm(Box::default());
    assert_eq!(unset.sampling_n(), 1);

    let zero = vllm_request(vllm::SamplingParams { n: 0, ..Default::default() });
    assert_eq!(zero.sampling_n(), 1);

    let four = vllm_request(vllm::SamplingParams { n: 4, ..Default::default() });
    assert_eq!(four.sampling_n(), 4);
}

#[test]
fn kv_transfer_params_json_request_roundtrip() {
    let mut request = ProtoGenerateRequest::Vllm(Box::default());
    request.set_kv_transfer_params_json(NIXL_PREFILL_KV_PARAMS.to_string());
    let ProtoGenerateRequest::Vllm(req) = request else {
        panic!("expected vLLM request");
    };
    assert_eq!(req.kv_transfer_params_json.as_deref(), Some(NIXL_PREFILL_KV_PARAMS));
}

#[test]
fn kv_transfer_params_json_complete_accessor_filters_empty() {
    let complete = ProtoGenerateComplete::Vllm(vllm::GenerateComplete {
        kv_transfer_params_json: Some(r#"{"do_remote_prefill":true}"#.to_string()),
        ..Default::default()
    });
    assert_eq!(complete.kv_transfer_params_json(), Some(r#"{"do_remote_prefill":true}"#));

    let empty = ProtoGenerateComplete::Vllm(vllm::GenerateComplete {
        kv_transfer_params_json: Some(String::new()),
        ..Default::default()
    });
    assert_eq!(empty.kv_transfer_params_json(), None);

    let unset = ProtoGenerateComplete::Vllm(vllm::GenerateComplete::default());
    assert_eq!(unset.kv_transfer_params_json(), None);
}

#[test]
fn effective_engine_id_passthrough_when_no_dp() {
    assert_eq!(effective_kv_engine_id(Some("eng"), None, None).as_deref(), Some("eng"));
    assert_eq!(effective_kv_engine_id(Some("eng"), Some(1), None).as_deref(), Some("eng"));
}

#[test]
fn effective_engine_id_suffixes_pinned_dp_rank() {
    assert_eq!(
        effective_kv_engine_id(Some("eng"), Some(2), Some(1)).as_deref(),
        Some("eng_dp1")
    );
    assert_eq!(
        effective_kv_engine_id(Some("eng"), Some(2), Some(0)).as_deref(),
        Some("eng_dp0")
    );
}

#[test]
fn effective_engine_id_none_for_unpinned_dp() {
    assert_eq!(effective_kv_engine_id(Some("eng"), Some(2), None), None);
}

#[test]
fn effective_engine_id_none_for_missing_or_empty_base() {
    assert_eq!(effective_kv_engine_id(None, Some(2), Some(0)), None);
    assert_eq!(effective_kv_engine_id(Some(""), None, None), None);
}

// Execution.

fn mooncake() -> KvConnectorMode {
    KvConnectorMode::Mooncake {
        host: "h".to_string(),
        port: 9090,
        engine_id: Some("eng".to_string()),
    }
}

#[test]
fn a_minted_handoff_reaches_both_legs() {
    let request = vllm_request(vllm::SamplingParams { n: 1, ..Default::default() });
    let (mut pd, prefill) =
        SequentialPd::begin_with(request, mooncake(), Some(0), Some(1), "xfer".to_string());
    let leg = prefill.as_vllm();
    assert!(!leg.stream);
    assert_eq!(leg.data_parallel_rank, Some(0));
    assert_eq!(leg.sampling_params.as_ref().unwrap().max_tokens, Some(1));
    assert_eq!(leg.kv_transfer_params_json.as_deref(), Some(mooncake_prefill_params("xfer").as_str()));

    assert!(pd.on_prefill_start(Ok(())).is_ok());
    let done = vllm::GenerateResponse {
        response: Some(vllm::Response::Complete(vllm::GenerateComplete::default())),
    };
    assert!(pd.on_prefill_message(Ok(ProtoGenerateResponse::Vllm(Box::new(done)))).is_ok());
    let start = pd.on_prefill_end();
    assert!(!start.handoff_missing);
    assert_eq!(start.prefill_status, 200);
    let leg = start.request.as_vllm();
    assert_eq!(leg.data_parallel_rank, Some(1));
    assert_eq!(
        leg.kv_transfer_params_json.as_deref(),
        Some(mooncake_decode_params("xfer", "eng", "h", 9090).as_str())
    );
    let started = pd.on_decode_start(Ok(())).ok().unwrap();
    assert_eq!(started.decode_status, 200);
    assert_eq!(started.connector, "mooncake");
}

#[test]
fn configured_parsers_go_to_their_processors() {
    let deps = PipelineDeps::new(Some("hermes".to_string()), None);
    for endpoint in [Endpoint::Chat, Endpoint::Messages, Endpoint::Harmony] {
        let built = RequestPipeline::build(endpoint, Mode::PrefillDecode, &deps).unwrap();
        let processors = built.processors().unwrap();
        assert_eq!(processors.factories, ParserFactories::Configured);
        assert_eq!(processors.tool_parser.as_deref(), Some("hermes"));
        assert_eq!(processors.reasoning_parser, None);
        assert_eq!(processors.streaming_backend, "pd");
    }
    let built = RequestPipeline::build(Endpoint::Completion, Mode::Regular, &deps).unwrap();
    let processors = built.processors().unwrap();
    assert_eq!(processors.factories, ParserFactories::Default);
    assert_eq!(processors.tool_parser, None);
    assert_eq!(processors.streaming_backend, "regular");
    for endpoint in [Endpoint::Embeddings, Endpoint::Classify] {
        let built = RequestPipeline::build(endpoint, Mode::Regular, &deps).unwrap();
        assert!(built.processors().is_none());
    }
}

#[test]
fn runs_are_metered_under_their_endpoint() {
    assert_eq!(RunKind::Chat.metrics_label(), Some(EndpointLabel::Chat));
    assert_eq!(RunKind::Completion.metrics_label(), Some(EndpointLabel::Completions));
    assert_eq!(RunKind::ChatForResponses.metrics_label(), None);
}

#[test]
fn a_single_call_may_fail() {
    assert!(single_outcome(Ok(()), RequestKind::Generate).is_ok());
    let failed = |kind| {
        let e = RpcFailure { status: 503, message: "down".to_string() };
        single_outcome(Err(e), kind).err().unwrap()
    };
    let answer = failed(RequestKind::Generate);
    assert_eq!(answer.status, 503);
    assert_eq!(answer.code, "start_generation_failed");
    assert_eq!(answer.message, "Failed to start generation: down");
    let answer = failed(RequestKind::Embed);
    assert_eq!(answer.status, 503);
    assert_eq!(answer.code, "start_embedding_failed");
    assert_eq!(answer.message, "Failed to start embedding: down");
}

#[test]
fn a_harvested_handoff_is_relayed() {
    let request = vllm_request(vllm::SamplingParams { n: 1, ..Default::default() });
    let (mut pd, prefill) =
        SequentialPd::begin_with(request, KvConnectorMode::Nixl, None, None, "unused".to_string());
    assert_eq!(prefill.as_vllm().kv_transfer_params_json.as_deref(), Some(NIXL_PREFILL_KV_PARAMS));
    assert!(pd.on_prefill_start(Ok(())).is_ok());
    let complete = vllm::GenerateComplete {
        kv_transfer_params_json: Some("{\"k\":1}".to_string()),
        ..Default::default()
    };
    let response = vllm::GenerateResponse { response: Some(vllm::Response::Complete(complete)) };
    assert!(pd.on_prefill_message(Ok(ProtoGenerateResponse::Vllm(Box::new(response)))).is_ok());
    let start = pd.on_prefill_end();
    assert_eq!(start.request.as_vllm().kv_transfer_params_json.as_deref(), Some("{\"k\":1}"));
}

#[test]
fn a_failed_leg_is_named() {
    let request = vllm_request(vllm::SamplingParams::default());
    let (mut pd, _) = SequentialPd::begin_with(
        request,
        KvConnectorMode::Passthrough,
        None,
        None,
        "unused".to_string(),
    );
    let failure = RpcFailure { status: 503, message: "gone".to_string() };
    let failed = pd.on_prefill_start(Err(failure)).err().unwrap();
    assert_eq!(failed.leg, Leg::Prefill);
    assert_eq!(failed.status, 503);
    assert!(failed.message.contains("gone"));

    let failure = RpcFailure { status: 500, message: "late".to_string() };
    let failed = dual_dispatch_outcome(Ok(()), Err(failure)).err().unwrap();
    assert_eq!(failed.leg, Leg::Decode);
    assert!(dual_dispatch_outcome(Ok(()), Ok(())).is_ok());
}

#[test]
fn both_dispatches_carry_the_request() {
    let mut workers = pair(RuntimeType::Sglang);
    if let WorkerSelection::Disaggregated { prefill, decode, .. } = &mut workers {
        prefill.dp_rank = Some(2);
        decode.dp_rank = Some(3);
    }
    let request = ProtoGenerateRequest::Sglang(Box::new(sglang::GenerateRequest {
        request_id: "id".to_string(),
        ..Default::default()
    }));
    let (prefill, decode) = dual_dispatch_requests(request, &workers);
    assert_eq!(prefill.request_id(), "id");
    assert_eq!(prefill.as_sglang().data_parallel_rank, 2);
    assert_eq!(decode.request_id(), "id");
    assert_eq!(decode.as_sglang().data_parallel_rank, 3);
}

#[test]
fn execution_depends_on_mode_and_runtime() {
    let single = RequestExecutionStage::new(ExecutionMode::Single);
    let alone = WorkerSelection::Single { worker: worker("http://w") };
    assert_eq!(
        single.execute(Some(RequestKind::Generate), Some(false), Some(&alone)).ok(),
        Some(Dispatch::Single)
    );
    assert_eq!(
        single.execute(Some(RequestKind::Embed), Some(false), Some(&alone)).ok(),
        Some(Dispatch::SingleEmbed)
    );
    let dual = RequestExecutionStage::new(ExecutionMode::DualDispatch);
    assert_eq!(
        dual.execute(Some(RequestKind::Generate), Some(true), Some(&pair(RuntimeType::Vllm))).ok(),
        Some(Dispatch::SequentialPd)
    );
    assert_eq!(
        dual.execute(Some(RequestKind::Generate), Some(true), Some(&pair(RuntimeType::Sglang)))
            .ok(),
        Some(Dispatch::DualDispatch)
    );
    assert_eq!(single.execute(None, Some(false), Some(&alone)).err().unwrap().status, 500);
}

// Stop sequences.

#[test]
fn complete_scan_truncates_after_first_match() {
    let mut scanner = TextStopScanner::new(vec![",".to_string()]);
    let (out, stopped) = scanner.scan_complete("1, 2, 3");
    assert_eq!(out, "1,");
    assert!(stopped);
    assert_eq!(scanner.matched(), Some(","));
}

#[test]
fn streaming_holds_back_partial_matches() {
    let mut scanner = TextStopScanner::new(vec!["STOP".to_string()]);
    let scan = scanner.push("abc ST");
    assert_eq!(scan.emit, "abc ");
    assert!(!scan.stopped);
    let scan = scanner.push("OP tail");
    assert_eq!(scan.emit, "STOP");
    assert!(scan.stopped);
    // Post-match pushes are swallowed.
    let scan = scanner.push("more");
    assert_eq!(scan.emit, "");
    assert!(scan.stopped);
}

#[test]
fn flush_releases_unmatched_tail() {
    let mut scanner = TextStopScanner::new(vec!["END".to_string()]);
    let scan = scanner.push("value EN");
    assert_eq!(scan.emit, "value ");
    assert_eq!(scanner.flush(), "EN");
    assert_eq!(scanner.matched(), None);
}

#[test]
fn earliest_match_wins_across_stops() {
    let mut scanner = TextStopScanner::new(vec!["zz".to_string(), "b".to_string()]);
    let (out, stopped) = scanner.scan_complete("abzz");
    assert_eq!(out, "ab");
    assert!(stopped);
    assert_eq!(scanner.matched(), Some("b"));
}

#[test]
fn pieces_scan_like_the_whole() {
    let text = "äb STO STOP x";
    let mut whole = TextStopScanner::new(vec!["STOP".to_string(), "é".to_string()]);
    let (expected, stopped) = whole.scan_complete(text);
    let mut pieces = TextStopScanner::new(vec!["STOP".to_string(), "é".to_string()]);
    let mut out = String::new();
    let mut hit = false;
    for c in text.chars() {
        let scan = pieces.push(&c.to_string());
        out.push_str(&scan.emit);
        hit = scan.stopped;
    }
    out.push_str(&pieces.flush());
    assert_eq!(out, expected);
    assert_eq!(hit, stopped);
}

// Modes and pipelines.

#[test]
fn mode_maps_to_stage_params() {
    let cases = [
        (
            Mode::Regular,
            WorkerSelectionMode::Regular,
            ExecutionPlanKind::Single,
            false,
            "grpc",
        ),
        (
            Mode::PrefillDecode,
            WorkerSelectionMode::PrefillDecode,
            ExecutionPlanKind::PrefillDecode,
            true,
            "grpc_pd",
        ),
        (
            Mode::EncodePrefillDecode,
            WorkerSelectionMode::EncodePrefillDecode,
            ExecutionPlanKind::EncodePrefillDecode,
            false,
            "grpc_epd",
        ),
    ];
    for (m, ws, pk, inject, rt) in cases {
        assert_eq!(m.worker_selection(), ws, "worker_selection {m:?}");
        assert_eq!(m.plan_kind(), pk, "plan_kind {m:?}");
        assert_eq!(m.inject_pd_metadata(), inject, "inject_pd_metadata {m:?}");
        assert_eq!(m.router_type(), rt, "router_type {m:?}");
    }
}

#[test]
fn only_grpc_has_a_mode() {
    assert_eq!(grpc_mode(ConnectionMode::Grpc, RoutingMode::Regular), Some(Mode::Regular));
    assert_eq!(grpc_mode(ConnectionMode::Http, RoutingMode::Regular), None);
    assert_eq!(grpc_mode(ConnectionMode::Grpc, RoutingMode::External), None);
}

#[test]
fn validates_grpc_text_only_output() {
    for modalities in [
        None,
        Some(vec![]),
        Some(vec!["text".to_string()]),
        Some(vec!["text".to_string(), "text".to_string()]),
    ] {
        assert!(validate_text_only_output(None, modalities.as_ref()).is_ok());
    }

    let response = validate_text_only_output(Some(true), None).err().unwrap();
    assert_eq!(response.code, "audio_output_not_supported");

    let modalities = vec!["text".to_string(), "audio".to_string()];
    let response = validate_text_only_output(None, Some(&modalities)).err().unwrap();
    assert_eq!(response.code, "unsupported_output_modality");
}

fn building(name: &str, inject: bool, kind: &str) -> String {
    format!("{name}(inject_pd_metadata={inject}, {kind})")
}

/// The stages and the backend label of each pipeline.
fn golden(endpoint: Endpoint, mode: Mode) -> (Vec<String>, &'static str) {
    let (selection, inject, kind, backend) = match mode {
        Mode::Regular => ("Regular", false, "Single", "regular"),
        Mode::PrefillDecode => ("PrefillDecode", true, "PrefillDecode", "pd"),
        Mode::EncodePrefillDecode => ("EncodePrefillDecode", false, "EncodePrefillDecode", "pd"),
    };
    let (preparation, building_stage, processing) = match endpoint {
        Endpoint::Chat => (
            "ChatGeneratePreparationStage",
            format!(
                "ChatGenerateRequestBuildingStage({}, {})",
                building("ChatRequestBuildingStage", inject, kind),
                building("GenerateRequestBuildingStage", inject, kind)
            ),
            "ChatGenerateResponseProcessingStage",
        ),
        Endpoint::Messages => (
            "MessagePreparationStage",
            building("MessageRequestBuildingStage", inject, kind),
            "MessageResponseProcessingStage",
        ),
        Endpoint::Completion => (
            "CompletionPreparationStage",
            building("CompletionRequestBuildingStage", inject, kind),
            "CompletionResponseProcessingStage",
        ),
        Endpoint::Harmony => (
            "HarmonyPreparationStage",
            building("HarmonyRequestBuildingStage", inject, kind),
            "HarmonyResponseProcessingStage",
        ),
        Endpoint::Embeddings => (
            "EmbeddingPreparationStage",
            "EmbeddingRequestBuildingStage".to_string(),
            "EmbeddingResponseProcessingStage",
        ),
        Endpoint::Classify => (
            "EmbeddingPreparationStage",
            "EmbeddingRequestBuildingStage".to_string(),
            "ClassifyResponseProcessingStage",
        ),
    };
    let mut stages = vec![
        preparation.to_string(),
        format!("WorkerSelectionStage({selection})"),
        "ClientAcquisitionStage".to_string(),
    ];
    if mode == Mode::EncodePrefillDecode {
        stages.push("EncodeStage".to_string());
    }
    stages.push(building_stage);
    stages.push("DispatchMetadataStage".to_string());
    stages.push("RequestExecutionStage".to_string());
    stages.push(processing.to_string());
    (stages, backend)
}

fn assert_parity(endpoint: Endpoint, mode: Mode) {
    let (expected, backend) = golden(endpoint, mode);
    let built = match RequestPipeline::build(endpoint, mode, &PipelineDeps::pair()) {
        Some(p) => p,
        None => panic!("build({endpoint:?}, {mode:?}) should be valid"),
    };
    let signatures: Vec<String> = built.stages().iter().map(|s| s.signature()).collect();
    assert_eq!(signatures, expected, "stage parity for {endpoint:?}/{mode:?}");
    assert_eq!(built.backend_type(), backend, "backend_type parity for {endpoint:?}/{mode:?}");
}

#[test]
fn build_matches_frozen_goldens() {
    for endpoint in [Endpoint::Chat, Endpoint::Messages, Endpoint::Completion] {
        for mode in [Mode::Regular, Mode::PrefillDecode, Mode::EncodePrefillDecode] {
            assert_parity(endpoint, mode);
        }
    }

    assert!(
        RequestPipeline::build(Endpoint::Harmony, Mode::EncodePrefillDecode, &PipelineDeps::pair()).is_none(),
        "Harmony EPD must be invalid"
    );
    assert_parity(Endpoint::Harmony, Mode::Regular);
    assert_parity(Endpoint::Harmony, Mode::PrefillDecode);

    for endpoint in [Endpoint::Embeddings, Endpoint::Classify] {
        assert!(
            RequestPipeline::build(endpoint, Mode::PrefillDecode, &PipelineDeps::pair()).is_none(),
            "{endpoint:?} PD must be invalid"
        );
        assert!(
            RequestPipeline::build(endpoint, Mode::EncodePrefillDecode, &PipelineDeps::pair()).is_none(),
            "{endpoint:?} EPD must be invalid"
        );
        assert_parity(endpoint, Mode::Regular);
    }
}

#[test]
fn one_pipeline_is_written_out() {
    let built = RequestPipeline::build(Endpoint::Chat, Mode::EncodePrefillDecode, &PipelineDeps::pair()).unwrap();
    let signatures: Vec<String> = built.stages().iter().map(|s| s.signature()).collect();
    assert_eq!(
        signatures,
        vec![
            "ChatGeneratePreparationStage",
            "WorkerSelectionStage(EncodePrefillDecode)",
            "ClientAcquisitionStage",
            "EncodeStage",
            "ChatGenerateRequestBuildingStage(ChatRequestBuildingStage(inject_pd_metadata=false, EncodePrefillDecode), GenerateRequestBuildingStage(inject_pd_metadata=false, EncodePrefillDecode))",
            "DispatchMetadataStage",
            "RequestExecutionStage",
            "ChatGenerateResponseProcessingStage",
        ]
    );
}

#[test]
fn a_run_goes_through_all_stages() {
    let pipeline = RequestPipeline::build(Endpoint::Completion, Mode::Regular, &PipelineDeps::pair()).unwrap();
    let mut run = pipeline.execute_completion();
    assert!(matches!(run.start(), RunStep::RunStage(0)));
    for next in 1..7 {
        assert!(matches!(run.step(StageOutcome::Continue), RunStep::RunStage(n) if n == next));
    }
    assert!(matches!(run.step(StageOutcome::Continue), RunStep::Conclude));
    assert!(matches!(run.conclude(Some(FinalResponse::Completion)), Conclusion::Deliver));
    match run.conclude(Some(FinalResponse::Chat)) {
        Conclusion::Refuse { answer, metered } => {
            assert_eq!(answer.code, "wrong_response_type");
            assert!(metered);
        }
        Conclusion::Deliver => panic!("expected a refusal"),
    }
    match run.conclude(None) {
        Conclusion::Refuse { answer, .. } => assert_eq!(answer.code, "no_response_produced"),
        Conclusion::Deliver => panic!("expected a refusal"),
    }
}

#[test]
fn a_run_stops_at_an_answer() {
    let pipeline = RequestPipeline::build(Endpoint::Chat, Mode::Regular, &PipelineDeps::pair()).unwrap();
    let mut run = pipeline.execute_chat();
    assert!(matches!(
        run.step(StageOutcome::Responded),
        RunStep::ReturnAnswer { success: true, metered: true }
    ));
    let mut run = pipeline.execute_chat_for_responses();
    match run.step(StageOutcome::Responded) {
        RunStep::Refuse(answer) => assert_eq!(answer.code, "streaming_not_supported"),
        _ => panic!("expected a refusal"),
    }
}

// Clients.

#[test]
fn a_zmq_client_takes_no_media() {
    assert!(reject_zmq_multimodal(false).is_ok());
    assert!(reject_zmq_multimodal(true).is_err());
    let zmq = BackendClient::Zmq(ZmqEngineClient { runtime: RuntimeType::Vllm, alive: true });
    assert!(zmq.is_vllm());
    assert!(zmq.is_alive());
    assert!(zmq.request_engine(true).is_err());
    let grpc = BackendClient::Grpc(Engine::Sglang);
    assert_eq!(grpc.runtime_type(), RuntimeType::Sglang);
    assert_eq!(grpc.request_engine(true).ok(), Some(Engine::Sglang));
    let refused = zmq.accepts(BackendOperation::FlushCache).err().unwrap();
    assert_eq!(refused.kind, RefusalKind::Unimplemented);
    assert_eq!(refused.message, "FlushCache not supported over ZMQ");
}

fn chunk(index: u32, tokens: Vec<u32>, completion_tokens: u32) -> ProtoGenerateStreamChunk {
    ProtoGenerateStreamChunk::Vllm(vllm::GenerateStreamChunk {
        token_ids: tokens,
        index,
        prompt_tokens: 3,
        completion_tokens,
        cached_tokens: 0,
        output_logprobs: None,
        input_logprobs: None,
    })
}

fn complete(index: u32, completion_tokens: u32) -> ProtoGenerateComplete {
    ProtoGenerateComplete::Vllm(vllm::GenerateComplete {
        index,
        prompt_tokens: 3,
        completion_tokens,
        cached_tokens: 1,
        ..Default::default()
    })
}

#[test]
fn usage_adds_up_over_samples() {
    let usage = build_usage(&vec![complete(0, 5), complete(1, 7)]);
    assert_eq!(usage.prompt_tokens, 6);
    assert_eq!(usage.completion_tokens, 12);
    assert_eq!(usage.total_tokens, 18);
    assert_eq!(usage.cached_tokens, 2);
}

#[test]
fn streamed_tokens_are_counted_per_sample() {
    let mut tracker = CompletionTokenTracker::new();
    tracker.record_chunk(&chunk(0, vec![1, 2], 0));
    tracker.record_chunk(&chunk(1, vec![3], 0));
    tracker.record_complete(&complete(0, 2));
    assert_eq!(tracker.total(), 3);
}

#[test]
fn totals_count_every_choice_once() {
    let reported = |index: u32, completion_tokens: u32| {
        ProtoGenerateComplete::Sglang(sglang::GenerateComplete {
            output_ids: vec![],
            index,
            prompt_tokens: 3,
            completion_tokens,
            cached_tokens: 0,
            reasoning_tokens: 0,
            finish_reason: String::new(),
            matched_stop: None,
            output_logprobs: None,
            input_logprobs: None,
        })
    };
    let mut tracker = CompletionTokenTracker::new();
    assert_eq!(tracker.total(), 0);
    tracker.record_chunk(&chunk(0, vec![1, 2], 0));
    tracker.record_complete(&reported(5, 40));
    // vLLM's count at the end adds and replaces nothing.
    tracker.record_complete(&complete(0, 99));
    tracker.record_chunk(&chunk(0, vec![3], 0));
    // The last reported total counts.
    tracker.record_complete(&reported(5, 7));
    tracker.record_complete(&complete(9, 99));
    assert_eq!(tracker.total(), 10);
}

// Request building.

#[test]
fn chat_requests_are_checked_before_they_are_built() {
    let stage = ChatRequestBuildingStage::new(true, ExecutionPlanKind::Single);
    assert_eq!(stage.name(), "ChatRequestBuilding");
    let single = Some(ClientSelection::Single { client: Engine::Mlx });
    let chat = |has_media| Some(Preparation::Chat { has_media });
    assert_eq!(stage.begin(None, single).err().unwrap().code, "preparation_not_completed");
    assert_eq!(
        stage.begin(chat(false), None).err().unwrap().code,
        "client_acquisition_not_completed"
    );
    assert_eq!(
        stage.begin(Some(Preparation::Other), single).err().unwrap().code,
        "wrong_preparation_type"
    );
    let refused = stage.begin(chat(true), single).err().unwrap();
    assert_eq!(refused.status, 400);
    assert_eq!(refused.code, "multimodal_not_supported");
    let build = stage.begin(chat(false), single).ok().unwrap();
    assert_eq!(build.client, Engine::Mlx);
    assert!(build.request_id.starts_with("chatcmpl-"));
    assert_eq!(build_failed("n").message, "Invalid request parameters: n");
}

#[test]
fn built_requests_are_completed() {
    let stage = ChatRequestBuildingStage::new(true, ExecutionPlanKind::PrefillDecode);
    let plan = stage.finish(
        ProtoGenerateRequest::Sglang(Box::default()),
        &RequestType::Chat(knobs()),
        Some(&pair(RuntimeType::Sglang)),
        None,
    );
    match plan {
        ExecutionPlan::Generate { kind, request, encode_dispatch } => {
            assert_eq!(kind, ExecutionPlanKind::PrefillDecode);
            assert!(encode_dispatch.is_none());
            assert!(request.as_sglang().disaggregated_params.is_some());
        }
        ExecutionPlan::Batch { .. } => panic!("expected one request"),
    }
    let request = complete_request(
        ProtoGenerateRequest::TokenSpeed(Box::default()),
        false,
        &RequestType::Chat(knobs()),
        Some(&pair(RuntimeType::TokenSpeed)),
        None,
        1,
        77,
    );
    assert_eq!(request.as_tokenspeed().kv_bootstrap_info.as_ref().unwrap().bootstrap_room, 77);
}

#[test]
fn each_prompt_gets_a_request() {
    let stage = CompletionRequestBuildingStage::new(false, ExecutionPlanKind::Single);
    assert_eq!(stage.name(), "CompletionRequestBuilding");
    let clients =
        Some(ClientSelection::Disaggregated { prefill: Engine::Vllm, decode: Engine::Vllm });
    let prompts = |prompts| Some(Preparation::Completion { prompts });
    assert_eq!(stage.begin(prompts(0), clients).err().unwrap().message, "No prompts prepared");
    assert_eq!(
        stage.begin(Some(Preparation::Other), clients).err().unwrap().code,
        "unexpected_preparation_output"
    );
    let one = stage.begin(prompts(1), clients).ok().unwrap();
    assert_eq!(one.request_ids, vec![one.shared_request_id.clone()]);
    let three = stage.begin(prompts(3), clients).ok().unwrap();
    assert!(three.shared_request_id.starts_with("cmpl_"));
    assert_eq!(three.request_ids.len(), 3);
    assert_eq!(three.request_ids[2], format!("{}-p2", three.shared_request_id));

    let request = stage.complete(
        ProtoGenerateRequest::Mlx(Box::new(mlx::GenerateRequest::default())),
        &RequestType::Completion(knobs()),
        None,
    );
    let other = ProtoGenerateRequest::Mlx(Box::default());
    match stage.finish("shared".to_string(), vec![request, other]) {
        ExecutionPlan::Batch { shared_request_id, requests, .. } => {
            assert_eq!(shared_request_id, "shared");
            assert_eq!(requests.len(), 2);
        }
        ExecutionPlan::Generate { .. } => panic!("expected a batch"),
    }
}
