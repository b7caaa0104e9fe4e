use smg::grpc::context::{
    ClientSelection, EncodeAssignment, RuntimeType, WorkerInfo, WorkerSelection,
};
use smg::grpc::epd_encode::{
    build_plan, build_plan_from_intermediate, build_plan_with_rooms, encode_outcome,
    prepare_items, EncodeReply, PixelLane, PreparedEncodeItem,
};
use smg::grpc::multimodal::assemble::{
    MediaItem, PrecomputedMultimodalIntermediate, PreprocessedEncoderInputs,
};
use smg::grpc::multimodal::serialize::Tensor;
use smg::grpc::multimodal::transport::{EncoderDtypeEnv, MmTransportDefaults, TransportSetting};
use smg::grpc::multimodal::types::{Modality, PlaceholderRange, TransportMode};
use smg::grpc::proto::common::{Payload, ShmHandle};
use smg::grpc::proto_wrapper::data::{
    TokenSpeedModality, TokenSpeedMultimodalData, TokenSpeedMultimodalItem, TokenSpeedTensor,
};
use smg::grpc::proto_wrapper::request::Engine;
use smg::grpc::rdma::SlotPool;

fn worker(url: &str) -> WorkerInfo {
    WorkerInfo {
        url: url.to_string(),
        bootstrap_host: format!("{url}-host"),
        bootstrap_port: None,
        dp_rank: None,
        dp_size: None,
        labels: vec![],
        kv_connector: None,
        kv_engine_id: None,
        multimodal_tensor_transport: None,
        multimodal_shm_min_bytes: None,
        sampling_defaults: None,
    }
}

fn item(encoder_input: TokenSpeedTensor) -> TokenSpeedMultimodalItem {
    TokenSpeedMultimodalItem {
        modality: TokenSpeedModality::Image,
        encoder_input,
        model_specific_tensors: vec![],
        placeholder_token_id: None,
        mm_placeholders: vec![(0, 1)],
        content_hash: vec![],
    }
}

fn inline() -> TokenSpeedMultimodalItem {
    item(TokenSpeedTensor::inline(vec![1, 2], vec![1], "bfloat16".to_string()))
}

fn data(n: usize) -> TokenSpeedMultimodalData {
    let mut items = Vec::new();
    for _ in 0..n {
        items.push(inline());
    }
    TokenSpeedMultimodalData { items, shm_enabled: true, shm_min_bytes: 5 }
}

fn workers(indices: &[usize]) -> WorkerSelection {
    WorkerSelection::Disaggregated {
        encode_assignments: Some(
            indices
                .iter()
                .map(|i| EncodeAssignment { item_index: *i, worker: worker(&format!("e{i}")) })
                .collect(),
        ),
        prefill: worker("p"),
        decode: worker("d"),
        runtime_type: RuntimeType::TokenSpeed,
    }
}

fn pair(prefill: Engine) -> ClientSelection {
    ClientSelection::Disaggregated { prefill, decode: prefill }
}

#[test]
fn rooms_are_told_to_both_sides() {
    let plan = build_plan_with_rooms(data(2), &workers(&[0, 1]), &vec![11, 22]).unwrap_or_else(|e| {
        panic!("{}", e.message());
    });
    assert!(!plan.is_empty());
    let (info, dispatch) = plan.into_parts();
    assert_eq!(info[1].item_index, 1);
    assert_eq!(info[1].bootstrap_host, "e1-host");
    assert_eq!(info[1].bootstrap_room, 22);
    assert_eq!(dispatch.len(), 2);
    assert!(!dispatch.is_empty());
    let jobs = dispatch.into_jobs();
    assert_eq!(jobs[1].endpoint, "e1");
    assert_eq!(jobs[1].bootstrap_room, 22);
}

#[test]
fn rooms_are_minted() {
    let plan = build_plan(data(2), &workers(&[0, 1])).ok().unwrap();
    let (info, dispatch) = plan.into_parts();
    let jobs = dispatch.into_jobs();
    for i in 0..2 {
        assert!(info[i].bootstrap_room >= 0);
        assert_eq!(info[i].bootstrap_room, jobs[i].bootstrap_room);
    }
    assert!(build_plan(data(0), &workers(&[])).ok().unwrap().is_empty());
}

#[test]
fn plans_are_refused_with_a_reason() {
    let say = |r: Result<smg::grpc::epd_encode::EncodePlan, _>| -> String {
        let e: smg::grpc::epd_encode::EncodePlanError = r.err().unwrap();
        e.message()
    };
    assert_eq!(
        say(build_plan(data(2), &workers(&[0]))),
        "EPD encode item/assignment count mismatch: 2 items, 1 assignments"
    );
    assert_eq!(
        say(build_plan(data(2), &workers(&[1, 0]))),
        "EPD encode assignment order mismatch: expected item 0, got 1"
    );
    assert_eq!(
        say(build_plan(data(1), &workers(&[]))),
        "Encode planning requires EPD worker selection"
    );
    let reason = |selected, clients: Option<&ClientSelection>| {
        prepare_items(selected, clients).unwrap_err().message()
    };
    assert_eq!(reason(false, None), "Worker selection stage not completed");
    assert_eq!(reason(true, None), "Client acquisition stage not completed");
    assert_eq!(
        reason(true, Some(&ClientSelection::Single { client: Engine::TokenSpeed })),
        "Encode planning requires EPD client selection"
    );
    assert_eq!(
        reason(true, Some(&pair(Engine::Vllm))),
        "EPD encode is not implemented for vLLM backend"
    );
    assert!(prepare_items(true, Some(&pair(Engine::TokenSpeed))).is_ok());
}

fn intermediate() -> PrecomputedMultimodalIntermediate {
    PrecomputedMultimodalIntermediate {
        modality: Modality::Image,
        preprocessed: PreprocessedEncoderInputs {
            encoder_input: Tensor { shape: vec![1, 2], bits: vec![0, 0] },
            feature_token_counts: vec![1],
            item_sizes: vec![(1, 1)],
            model_specific: vec![],
        },
        images: vec![MediaItem { raw_bytes: vec![1], hash: "h".to_string() }],
        videos: vec![],
        placeholders: vec![PlaceholderRange { offset: 0, length: 1 }],
        patch_offsets: None,
        placeholder_token_id: None,
        field_layouts: vec![],
        keep_on_cpu_keys: vec![],
    }
}

fn setting() -> TransportSetting {
    TransportSetting {
        defaults: MmTransportDefaults { mode: TransportMode::Inline, shm_min_bytes: 65536 },
        dtypes: EncoderDtypeEnv { image: None, video: None, audio: None, any: None },
        dev_writable: false,
        namespace: None,
    }
}

#[test]
fn preprocessed_media_are_planned() {
    let clients = pair(Engine::TokenSpeed);
    let plan = build_plan_from_intermediate(
        &intermediate(),
        Some(&clients),
        Some(&workers(&[0])),
        &setting(),
    )
    .ok()
    .unwrap();
    assert_eq!(plan.into_parts().1.len(), 1);
    let mut broken = intermediate();
    broken.images.push(MediaItem { raw_bytes: vec![], hash: String::new() });
    let failure =
        build_plan_from_intermediate(&broken, Some(&clients), Some(&workers(&[0])), &setting())
            .err()
            .unwrap();
    assert!(failure.message().contains("token count mismatch"));
}

fn lane(arena: Option<SlotPool>) -> PixelLane {
    PixelLane {
        enabled: arena.is_some(),
        arena,
        listen_ip: "10.0.0.1".to_string(),
        listen_port: 7,
        now: 0,
    }
}

#[test]
fn an_item_is_dispatched_once() {
    let mut prepared = PreparedEncodeItem::tokenspeed(inline(), false, 0);
    let (request, handles) =
        prepared.encode_request(5, &mut lane(None), &vec![]).unwrap_or_else(|e| panic!("{e}"));
    assert!(request.request_id.starts_with("encode-"));
    assert_eq!(request.rooms, vec![5]);
    assert!(handles.is_empty());
    assert_eq!(
        request.mm_inputs.items[0].encoder_input.as_ref().unwrap().payload,
        Some(Payload::Inline(vec![1, 2]))
    );
    assert_eq!(
        prepared.encode_request(5, &mut lane(None), &vec![]).err().unwrap(),
        "encode item was already dispatched"
    );
}

#[test]
fn an_item_goes_to_the_lane() {
    let mut prepared = PreparedEncodeItem::tokenspeed(inline(), false, 0);
    let mut lane = lane(Some(SlotPool::new(4096, vec![0; 64], 64, 1)));
    let (request, _) = prepared.encode_request(5, &mut lane, &vec![]).ok().unwrap();
    match &request.mm_inputs.items[0].encoder_input.as_ref().unwrap().payload {
        Some(Payload::Remote(handle)) => {
            let d = &handle.descriptor;
            assert_eq!(d[8..16], 4096u64.to_le_bytes());
            assert_eq!(d[16..24], 1u64.to_le_bytes());
            assert_eq!(d[24..32], 5i64.to_le_bytes());
            assert_eq!(d[32..34], 7u16.to_le_bytes());
            assert_eq!(&d[34..], b"10.0.0.1");
        }
        _ => panic!("expected a remote payload"),
    }
}

#[test]
fn an_abandoned_item_names_its_segment() {
    let handle = ShmHandle {
        name: "s".to_string(),
        offset: 0,
        nbytes: 2,
        owner_id: "o".to_string(),
    };
    let mut prepared = PreparedEncodeItem::tokenspeed(
        item(TokenSpeedTensor::shm(handle.clone(), vec![1], "bfloat16".to_string())),
        true,
        0,
    );
    assert_eq!(prepared.abandoned(), Some(handle.clone()));
    assert_eq!(prepared.item().unwrap().encoder_input.nbytes(), 2);
    assert!(prepared.wants_segment(0));
    let (_, handles) = prepared.encode_request(1, &mut lane(None), &vec![]).ok().unwrap();
    assert_eq!(handles, vec![handle]);
    assert_eq!(prepared.abandoned(), None);
    assert!(prepared.item().is_none());
}

#[test]
fn replies_of_encode_workers() {
    assert!(encode_outcome("e", EncodeReply::Answered { accepted: true }).is_ok());
    assert_eq!(
        encode_outcome("e", EncodeReply::Answered { accepted: false }).unwrap_err(),
        "encode worker e did not accept the request"
    );
    assert_eq!(
        encode_outcome("e", EncodeReply::NotConnected { error: "x".to_string() }).unwrap_err(),
        "connect to encode worker e failed: x"
    );
    assert_eq!(
        encode_outcome("e", EncodeReply::Failed { message: "y".to_string() }).unwrap_err(),
        "encode RPC to e failed: y"
    );
}
