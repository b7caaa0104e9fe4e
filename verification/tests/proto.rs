use smg::grpc::multimodal::serialize::TensorBytes;
use smg::grpc::multimodal::tokenspeed::{
    cleanup_tokenspeed_items_encoder_shm, PendingTokenSpeedAssembly,
};
use smg::grpc::proto::common::{
    MatchedStop, Modality, OutputLogProbs, Payload, RemoteTensorHandle, ShmHandle, TensorData,
    TopLogProbs,
};
use smg::grpc::proto::{mlx, sglang, tokenspeed, trtllm, vllm};
use smg::grpc::proto_wrapper::data::{
    TokenSpeedModality, TokenSpeedMultimodalData, TokenSpeedMultimodalItem, TokenSpeedTensor,
    TokenSpeedTensorStorage, VllmMultimodalData,
};
use smg::grpc::proto_wrapper::media::{
    cleanup_mm_shm_handles, collect_tokenspeed_generate_request_shm_handles,
    collect_vllm_generate_request_shm_handles, finish_tokenspeed_request, finish_vllm_request,
    is_orphan_shm, mm_tensor_uses_shm, next_tokenspeed_shm_name, resolve_mm_tensor_payload,
    shm_producer, tokenspeed_shm_handle, validate_tokenspeed_shm_name_for_cleanup,
};
use smg::grpc::proto_wrapper::request::{
    EncodeItemBootstrapInfo, ProtoEmbedRequest, ProtoGenerateRequest, ProtoRequest,
};
use smg::grpc::proto_wrapper::response::{
    ProtoEmbedComplete, ProtoGenerateComplete, ProtoGenerateResponse, ProtoGenerateStreamChunk,
    ProtoResponseVariant,
};
use smg::grpc::rdma::SlotPool;

fn grid() -> TensorBytes {
    TensorBytes {
        data: vec![1, 0, 0, 0, 2, 0, 0, 0, 3, 0, 0, 0],
        shape: vec![1, 3],
        dtype: "uint32".to_string(),
    }
}

fn item(
    modality: TokenSpeedModality,
    encoder_input: TokenSpeedTensor,
    tensors: Vec<(String, TensorBytes)>,
    token: u32,
) -> TokenSpeedMultimodalItem {
    TokenSpeedMultimodalItem {
        modality,
        encoder_input,
        model_specific_tensors: tensors,
        placeholder_token_id: Some(token),
        mm_placeholders: vec![(4, 2)],
        content_hash: vec![7; 32],
    }
}

fn inline_tensor_data(tensor: &TensorData) -> &[u8] {
    match tensor.payload.as_ref() {
        Some(Payload::Inline(data)) => data,
        _ => panic!("expected inline TensorData payload"),
    }
}

#[test]
fn tokenspeed_image_into_proto_uses_itemized_payload() {
    let proto = TokenSpeedMultimodalData {
        items: vec![item(
            TokenSpeedModality::Image,
            TokenSpeedTensor::inline(vec![42; 8], vec![1, 2], "float32".to_string()),
            vec![("image_grid_thw".to_string(), grid())],
            151655,
        )],
        shm_enabled: false,
        shm_min_bytes: 0,
    }
    .into_proto(&vec![]);

    assert_eq!(proto.items.len(), 1);
    let item = &proto.items[0];
    assert_eq!(item.modality, Modality::Image);
    assert_eq!(item.placeholder_token_id, Some(151655));
    assert_eq!(item.placeholders[0].offset, 4);
    assert_eq!(item.placeholders[0].length, 2);
    assert_eq!(inline_tensor_data(item.encoder_input.as_ref().unwrap()), &[42; 8]);
    assert!(item.model_specific_tensors.iter().any(|(k, _)| k == "image_grid_thw"));
}

#[test]
fn tokenspeed_video_into_proto_uses_itemized_payload() {
    let proto = TokenSpeedMultimodalData {
        items: vec![item(
            TokenSpeedModality::Video,
            TokenSpeedTensor::inline(vec![42; 8], vec![1, 2], "float32".to_string()),
            vec![("video_grid_thw".to_string(), grid())],
            151656,
        )],
        shm_enabled: false,
        shm_min_bytes: 0,
    }
    .into_proto(&vec![]);

    assert_eq!(proto.items.len(), 1);
    let item = &proto.items[0];
    assert_eq!(item.modality, Modality::Video);
    assert_eq!(item.placeholder_token_id, Some(151656));
    assert_eq!(item.placeholders[0].offset, 4);
    assert_eq!(item.placeholders[0].length, 2);
    assert_eq!(inline_tensor_data(item.encoder_input.as_ref().unwrap()), &[42; 8]);
    assert!(item.model_specific_tensors.iter().any(|(k, _)| k == "video_grid_thw"));
}

fn test_handle() -> ShmHandle {
    ShmHandle {
        name: "smg-test-shm".to_string(),
        offset: 0,
        nbytes: 8,
        owner_id: "smg:test".to_string(),
    }
}

#[test]
fn tokenspeed_shm_encoder_input_into_proto_uses_shm_payload() {
    let proto = TokenSpeedMultimodalData {
        items: vec![item(
            TokenSpeedModality::Image,
            TokenSpeedTensor::shm(test_handle(), vec![1, 2], "bfloat16".to_string()),
            vec![],
            151655,
        )],
        shm_enabled: true,
        shm_min_bytes: 0,
    }
    .into_proto(&vec![]);

    let tensor = proto.items[0].encoder_input.as_ref().unwrap();
    assert_eq!(tensor.shape, vec![1, 2]);
    assert_eq!(tensor.dtype, "bfloat16");
    match tensor.payload.as_ref() {
        Some(Payload::Shm(handle)) => {
            assert_eq!(handle.name, "smg-test-shm");
            assert_eq!(handle.nbytes, 8);
        }
        _ => panic!("expected shm TensorData payload"),
    }
}

#[test]
fn tokenspeed_remote_encoder_input_into_proto_uses_remote_payload() {
    let proto = TokenSpeedMultimodalData {
        items: vec![item(
            TokenSpeedModality::Image,
            TokenSpeedTensor::remote(
                RemoteTensorHandle {
                    transport: "nixl".to_string(),
                    descriptor: vec![1, 2, 3],
                    nbytes: 8,
                },
                vec![1, 2],
                "bfloat16".to_string(),
            ),
            vec![],
            151655,
        )],
        shm_enabled: true,
        shm_min_bytes: 0,
    }
    .into_proto(&vec![]);

    let tensor = proto.items[0].encoder_input.as_ref().unwrap();
    assert_eq!(tensor.shape, vec![1, 2]);
    assert_eq!(tensor.dtype, "bfloat16");
    match tensor.payload.as_ref() {
        Some(Payload::Remote(handle)) => {
            assert_eq!(handle.transport, "nixl");
            assert_eq!(handle.descriptor, vec![1, 2, 3]);
            assert_eq!(handle.nbytes, 8);
        }
        _ => panic!("expected remote TensorData payload"),
    }
}

#[test]
fn set_data_parallel_rank_per_engine() {
    let mut vllm_req = ProtoGenerateRequest::Vllm(Box::default());
    vllm_req.set_data_parallel_rank(2);
    assert!(matches!(
        &vllm_req,
        ProtoGenerateRequest::Vllm(req) if req.data_parallel_rank == Some(2)
    ));

    let mut sglang_req = ProtoGenerateRequest::Sglang(Box::default());
    sglang_req.set_data_parallel_rank(3);
    assert!(matches!(
        &sglang_req,
        ProtoGenerateRequest::Sglang(req) if req.data_parallel_rank == 3
    ));

    // Engines without the proto field ignore the pin
    let mut mlx_req = ProtoGenerateRequest::Mlx(Box::new(mlx::GenerateRequest::default()));
    mlx_req.set_data_parallel_rank(1);
}

fn vllm_mm_data(modality: Modality) -> VllmMultimodalData {
    let is_video = modality == Modality::Video;
    VllmMultimodalData {
        pixel_values: vec![0u8; 16],
        pixel_values_shape: vec![1, 4],
        model_specific_tensors: vec![],
        im_token_id: Some(if is_video { 151656 } else { 151655 }),
        mm_placeholders: vec![(3, 4)],
        mm_hashes: vec!["h0".to_string()],
        batched_keys: vec![],
        flat_keys: vec![],
        keep_on_cpu_keys: vec![],
        modality,
        shm_enabled: false,
        shm_min_bytes: 0,
    }
}

#[test]
fn vllm_modality_round_trips_into_proto() {
    // The video path must set the proto `modality` so the servicer routes to
    // vLLM's video modality; the image path must set image.
    let video = vllm_mm_data(Modality::Video).into_proto(&vec![]);
    assert_eq!(video.modality, Modality::Video);
    assert_eq!(video.im_token_id, Some(151656));

    let image = vllm_mm_data(Modality::Image).into_proto(&vec![]);
    assert_eq!(image.modality, Modality::Image);
}

// Segments.

fn pending_tokenspeed_shm_assembly() -> PendingTokenSpeedAssembly {
    let handle = tokenspeed_shm_handle(next_tokenspeed_shm_name(7, 99, 1), 4, 7);
    let data = TokenSpeedMultimodalData {
        items: vec![TokenSpeedMultimodalItem {
            modality: TokenSpeedModality::Image,
            encoder_input: TokenSpeedTensor::shm(handle, vec![2], "bfloat16".to_string()),
            model_specific_tensors: vec![],
            placeholder_token_id: None,
            mm_placeholders: vec![],
            content_hash: vec![],
        }],
        shm_enabled: true,
        shm_min_bytes: 0,
    };
    PendingTokenSpeedAssembly::new(data)
}

#[test]
fn pending_tokenspeed_assembly_cleans_shm_when_dropped() {
    let pending = pending_tokenspeed_shm_assembly();
    let names = cleanup_mm_shm_handles(&pending.abandoned());
    assert_eq!(names, vec!["smg-tokenspeed-7-99-1".to_string()]);
}

#[test]
fn pending_tokenspeed_assembly_transfers_shm_ownership() {
    let mut pending = pending_tokenspeed_shm_assembly();
    let data = pending.into_inner().unwrap();
    assert!(pending.abandoned().is_empty());

    let handles = cleanup_tokenspeed_items_encoder_shm(&data.items, None);
    assert_eq!(handles.len(), 1);
    assert_eq!(handles[0].name, "smg-tokenspeed-7-99-1");
}

#[test]
fn segment_names_tell_who_made_them() {
    let name = next_tokenspeed_shm_name(42, 1_700_000_000_000_000_000, 3);
    assert_eq!(name, "smg-tokenspeed-42-1700000000000000000-3");
    assert_eq!(shm_producer(&name), Some(42));
    assert_eq!(shm_producer("other-42-1-3"), None);
    assert!(is_orphan_shm(Some(42), 7, false));
    assert!(!is_orphan_shm(Some(42), 7, true));
    assert!(!is_orphan_shm(Some(7), 7, false));
    assert!(!is_orphan_shm(None, 7, false));
}

#[test]
fn only_own_segments_are_cleaned_up() {
    assert!(validate_tokenspeed_shm_name_for_cleanup("smg-tokenspeed-1-2-3").is_some());
    assert!(validate_tokenspeed_shm_name_for_cleanup("smg-tokenspeed-1/../x").is_none());
    assert!(validate_tokenspeed_shm_name_for_cleanup("elsewhere").is_none());
}

#[test]
fn large_tensors_go_into_segments() {
    assert!(mm_tensor_uses_shm(10, true, 10));
    assert!(!mm_tensor_uses_shm(9, true, 10));
    assert!(!mm_tensor_uses_shm(100, false, 10));
    assert_eq!(
        resolve_mm_tensor_payload(vec![1; 10], true, 10, Some(test_handle())),
        Payload::Shm(test_handle())
    );
    // A segment that could not be written falls back to inline.
    assert_eq!(
        resolve_mm_tensor_payload(vec![1; 10], true, 10, None),
        Payload::Inline(vec![1; 10])
    );
}

#[test]
fn all_segments_of_a_request_are_found() {
    let mut data = vllm_mm_data(Modality::Image);
    data.shm_enabled = true;
    data.model_specific_tensors = vec![("grid".to_string(), grid())];
    let second = ShmHandle { name: "second".to_string(), ..test_handle() };
    let inputs = data.into_proto(&vec![Some(test_handle()), Some(second.clone())]);
    let request = vllm::GenerateRequest { mm_inputs: Some(inputs.copy()), ..Default::default() };
    let handles = collect_vllm_generate_request_shm_handles(&request);
    assert_eq!(handles, vec![test_handle(), second]);
    let failed =
        finish_vllm_request(Some(inputs.copy()), |_| Err("no".to_string())).err().unwrap();
    assert_eq!(failed.error, "no");
    assert_eq!(failed.cleanup, handles);
    let built = finish_vllm_request(Some(inputs), |mm| {
        Ok(vllm::GenerateRequest { mm_inputs: mm, ..Default::default() })
    });
    assert!(built.ok().unwrap().as_vllm().mm_inputs.is_some());

    let tokenspeed_request = tokenspeed::GenerateRequest::default();
    assert!(collect_tokenspeed_generate_request_shm_handles(&tokenspeed_request).is_empty());
    assert!(finish_tokenspeed_request(None, |_| Ok(tokenspeed_request)).is_ok());
    let failed = finish_tokenspeed_request(None, |_| Err("no".to_string())).err().unwrap();
    assert!(failed.cleanup.is_empty());
}

#[test]
fn encoder_inputs_move_to_the_lane() {
    let data = TokenSpeedMultimodalData {
        items: vec![item(
            TokenSpeedModality::Image,
            TokenSpeedTensor::inline(vec![5; 8], vec![4], "bfloat16".to_string()),
            vec![],
            1,
        )],
        shm_enabled: false,
        shm_min_bytes: 0,
    };
    let mut arena = Some(SlotPool::new(4096, vec![0; 64], 64, 1));
    let moved = data.try_export_encoder_inputs_nixl_remote(true, &mut arena, "10.0.0.1", 9, 0);
    match &moved.items[0].encoder_input.storage {
        TokenSpeedTensorStorage::Remote(handle) => {
            assert_eq!(handle.transport, "nixl");
            assert_eq!(handle.nbytes, 8);
            // The room is drawn; the rest tells where the slot and its owner are.
            let d = &handle.descriptor;
            assert_eq!(d[8..16], 4096u64.to_le_bytes());
            assert_eq!(d[16..24], 1u64.to_le_bytes());
            assert!(i64::from_le_bytes(d[24..32].try_into().unwrap()) >= 0);
            assert_eq!(d[32..34], 9u16.to_le_bytes());
            assert_eq!(&d[34..], b"10.0.0.1");
        }
        _ => panic!("expected a remote tensor"),
    }
    assert_eq!(moved.items[0].encoder_input.nbytes(), 8);
    let slot = arena.unwrap().bytes_at(4096, 24).unwrap();
    assert_eq!(slot[8..16], [5; 8]);
}

#[test]
fn each_item_has_its_room_on_the_lane() {
    let pixels = |fill: u8| {
        item(
            TokenSpeedModality::Image,
            TokenSpeedTensor::inline(vec![fill; 8], vec![4], "bfloat16".to_string()),
            vec![],
            1,
        )
    };
    let data = TokenSpeedMultimodalData {
        items: vec![pixels(5), pixels(6)],
        shm_enabled: false,
        shm_min_bytes: 0,
    };
    let mut arena = Some(SlotPool::new(4096, vec![0; 128], 64, 2));
    let moved = data.export_encoder_inputs(&vec![42, 43], &mut arena, "10.0.0.1", 9, 0);
    let mut addrs: Vec<u64> = Vec::new();
    for (k, moved) in moved.items.iter().enumerate() {
        let TokenSpeedTensorStorage::Remote(handle) = &moved.encoder_input.storage else {
            panic!("expected a remote tensor");
        };
        let d = &handle.descriptor;
        let addr = u64::from_le_bytes(d[8..16].try_into().unwrap());
        assert_eq!(d[16..24], (k as u64 + 1).to_le_bytes());
        assert_eq!(d[24..32], (42 + k as i64).to_le_bytes());
        let slot = arena.as_ref().unwrap().bytes_at(addr, 24).unwrap();
        assert_eq!(slot[8..16], [5 + k as u8; 8]);
        addrs.push(addr);
    }
    assert_ne!(addrs[0], addrs[1]);
}

#[test]
fn slots_are_taken_one_after_the_other() {
    let pixels = |n: usize| {
        item(
            TokenSpeedModality::Image,
            TokenSpeedTensor::inline(vec![5; n], vec![1], "bfloat16".to_string()),
            vec![],
            1,
        )
    };
    let data = TokenSpeedMultimodalData {
        items: vec![pixels(100), pixels(8), pixels(0), pixels(8)],
        shm_enabled: false,
        shm_min_bytes: 0,
    };
    let mut arena = Some(SlotPool::new(4096, vec![0; 64], 64, 1));
    let moved = data.try_export_encoder_inputs_nixl_remote(true, &mut arena, "10.0.0.1", 9, 0);
    let remote: Vec<bool> = moved
        .items
        .iter()
        .map(|i| matches!(i.encoder_input.storage, TokenSpeedTensorStorage::Remote(_)))
        .collect();
    assert_eq!(remote, vec![false, true, false, false]);
}

// Requests.

#[test]
fn requests_lose_their_pixels_for_decode() {
    let data = TokenSpeedMultimodalData {
        items: vec![item(
            TokenSpeedModality::Image,
            TokenSpeedTensor::inline(vec![5; 8], vec![4], "bfloat16".to_string()),
            vec![],
            1,
        )],
        shm_enabled: false,
        shm_min_bytes: 0,
    };
    let mut request = ProtoGenerateRequest::TokenSpeed(Box::new(tokenspeed::GenerateRequest {
        request_id: "r".to_string(),
        mm_inputs: Some(data.into_proto(&vec![])),
        ..Default::default()
    }));
    request.set_encode_bootstrap_info(&vec![EncodeItemBootstrapInfo {
        item_index: 0,
        bootstrap_host: "h".to_string(),
        bootstrap_port: 1,
        bootstrap_room: 2,
    }]);
    let copy = request.clone_inner();
    request.clear_mm_pixel_values();
    request.clear_encode_bootstrap_info();
    assert!(request.as_tokenspeed().mm_inputs.as_ref().unwrap().items[0].encoder_input.is_none());
    assert!(request.as_tokenspeed().encode_bootstrap_info.is_none());
    assert!(copy.as_tokenspeed().mm_inputs.as_ref().unwrap().items[0].encoder_input.is_some());
    assert_eq!(copy.as_tokenspeed().encode_bootstrap_info.as_ref().unwrap()[0].bootstrap_room, 2);
    request.clear_mm_inputs();
    assert!(request.as_tokenspeed().mm_inputs.is_none());
    assert_eq!(ProtoRequest::Generate(copy).request_id(), "r");
    let embed = ProtoEmbedRequest::Vllm(Box::new(vllm::EmbedRequest { request_id: "e".to_string() }));
    assert_eq!(embed.clone_inner().request_id(), "e");
}

#[test]
fn prefill_keeps_the_metadata_of_its_media() {
    let mut data = vllm_mm_data(Modality::Image);
    data.model_specific_tensors = vec![("grid".to_string(), grid())];
    data.mm_placeholders = vec![(3, 4)];
    let mut request = ProtoGenerateRequest::Vllm(Box::new(vllm::GenerateRequest {
        request_id: "r".to_string(),
        mm_inputs: Some(data.into_proto(&vec![])),
        ..Default::default()
    }));
    assert!(request.as_vllm().mm_inputs.as_ref().unwrap().pixel_values.is_some());
    request.clear_mm_pixel_values();
    let media = request.as_vllm().mm_inputs.as_ref().unwrap();
    assert!(media.pixel_values.is_none());
    assert_eq!(media.model_specific_tensors[0].0, "grid");
    assert_eq!(media.mm_placeholders[0].offset, 3);
    assert_eq!(media.mm_placeholders[0].length, 4);
    assert_eq!(request.request_id(), "r");
}

#[test]
fn requests_are_set_up_per_engine() {
    let mut request = ProtoGenerateRequest::Vllm(Box::default());
    request.set_stream(true);
    request.set_kv_transfer_params("h".to_string(), 7);
    assert!(request.as_vllm().stream);
    assert_eq!(request.as_vllm().kv_transfer_params.as_ref().unwrap().remote_port, 7);
    request.as_vllm_mut().request_id = "x".to_string();
    assert_eq!(request.request_id(), "x");
    let mut trt = ProtoGenerateRequest::Trtllm(Box::new(trtllm::GenerateRequest {
        request_id: "t".to_string(),
        streaming: false,
    }));
    trt.set_stream(true);
    assert!(trt.as_trtllm().streaming);
    assert!(trt.is_trtllm() && !trt.is_vllm());
}

// Responses.

#[test]
fn responses_tell_chunks_from_ends() {
    let chunk = vllm::GenerateStreamChunk {
        token_ids: vec![4, 5],
        index: 1,
        prompt_tokens: 2,
        completion_tokens: 2,
        cached_tokens: 1,
        output_logprobs: Some(OutputLogProbs {
            token_logprobs: vec![1],
            token_ids: vec![4],
            top_logprobs: vec![TopLogProbs { values: vec![1], token_ids: vec![4] }],
        }),
        input_logprobs: None,
    };
    let response = vllm::GenerateResponse { response: Some(vllm::Response::Chunk(chunk)) };
    match ProtoGenerateResponse::Vllm(Box::new(response)).into_response() {
        ProtoResponseVariant::Chunk(c) => {
            assert!(c.is_vllm());
            assert_eq!(c.token_ids(), &[4, 5]);
            assert_eq!(c.index(), 1);
            assert_eq!(c.output_logprobs().unwrap().token_ids, vec![4]);
            assert!(c.input_logprobs().is_none());
        }
        _ => panic!("expected a chunk"),
    }
    let nothing = vllm::GenerateResponse { response: None };
    assert!(matches!(
        ProtoGenerateResponse::Vllm(Box::new(nothing)).into_response(),
        ProtoResponseVariant::Nothing
    ));
    let zero = ProtoGenerateStreamChunk::Mlx(mlx::GenerateStreamChunk {
        token_ids: vec![],
        index: 0,
        prompt_tokens: 0,
        completion_tokens: 0,
        cached_tokens: 0,
        output_logprobs: None,
    });
    assert_eq!(zero.reasoning_tokens(), 0);
}

fn sglang_complete(stop: Option<MatchedStop>) -> ProtoGenerateComplete {
    ProtoGenerateComplete::Sglang(sglang::GenerateComplete {
        output_ids: vec![1, 2, 3],
        index: 0,
        prompt_tokens: 9,
        completion_tokens: 3,
        cached_tokens: 4,
        reasoning_tokens: 2,
        finish_reason: "stop".to_string(),
        matched_stop: stop,
        output_logprobs: None,
        input_logprobs: None,
    })
}

#[test]
fn what_stopped_a_generation_is_json() {
    let by_token = sglang_complete(Some(MatchedStop::MatchedTokenId(13)));
    assert_eq!(by_token.matched_stop_json().as_deref(), Some("13"));
    let by_text = sglang_complete(Some(MatchedStop::MatchedStopStr("a\"b".to_string())));
    assert_eq!(by_text.matched_stop_json().as_deref(), Some("\"a\\\"b\""));
    assert_eq!(sglang_complete(None).matched_stop_json(), None);
    assert_eq!(by_token.output_ids(), &[1, 2, 3]);
    assert_eq!(by_token.finish_reason(), "stop");
    assert_eq!(by_token.reasoning_tokens(), 2);
    assert_eq!(by_token.kv_transfer_params(), None);
}

#[test]
fn embeddings_are_read_from_any_engine() {
    let answer = ProtoEmbedComplete::Sglang(sglang::EmbedResponse {
        embedding: vec![0x3f80_0000],
        prompt_tokens: 3,
        embedding_dim: 1,
    });
    assert_eq!(answer.embedding(), &[0x3f80_0000]);
    assert_eq!(answer.prompt_tokens(), 3);
    assert_eq!(answer.embedding_dim(), 1);
}
