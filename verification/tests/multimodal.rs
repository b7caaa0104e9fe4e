use smg::grpc::context::{EncodeAssignment, RuntimeType, WorkerInfo, WorkerSelection};
use smg::grpc::multimodal::assemble::{
    hash_hex_strings, item_span, precomputed_encode_routing_hashes, AssembleError, FieldLayout,
    MediaItem, PrecomputedMultimodalIntermediate, PreprocessedEncoderInputs,
};
use smg::grpc::multimodal::backends::{
    assemble_multimodal_data, assemble_tokenspeed, batched_keys, flat_keys,
};
use smg::grpc::multimodal::config::{
    load_video_preprocessor_config, model_config, GetOrLoad, ModelFiles,
    MultimodalConfigRegistry, MultimodalModelConfig, VideoConfigSource,
};
use smg::grpc::multimodal::detect::{
    chat_modalities, extract_content_parts, extract_content_parts_messages,
    has_multimodal_content, has_multimodal_content_messages, parse_detail, ChatMessage,
    ContentPart, ImageDetail, ImageSource, ImageUrl, InputContent, InputContentBlock,
    InputMessage, MediaContentPart, MessageContent, Role, VideoUrl,
};
use smg::grpc::multimodal::expand::expand_tokens;
use smg::grpc::multimodal::half::{f32_to_bf16_bits, f32_to_f16_bits};
use smg::grpc::multimodal::process::{
    request_modality, resolve_placeholder_token, retry_preprocessing, ModelFields, MultimodalRun, Preprocessing,
    PromptFields, TrackedMedia, VideoShape,
};
use smg::grpc::multimodal::serialize::{
    canonical_float_dtype, serialize_array_as_dtype, FloatDtype, ModelSpecificValue, Tensor,
    TensorBytes,
};
use smg::grpc::multimodal::tokenspeed::{
    assemble_tokenspeed_with_options, is_assemblable, TokenSpeedAssembly,
    TokenSpeedAssemblyOptions,
};
use smg::grpc::multimodal::transport::{
    env_with_deprecated_alias, log_mm_timing_enabled, mm_default_transport_is_rdma,
    mm_encoder_input_dtype, resolve_mm_shm_enabled, resolve_mm_shm_min_bytes, shm_namespace_id,
    EncoderDtypeEnv, MmTransport, MmTransportDefaults, MmTransportEnv, TransportSetting,
};
use smg::grpc::multimodal::types::{
    Modality, PlaceholderRange, PromptReplacement, TransportMode,
};
use smg::grpc::proto::common::ShmHandle;
use smg::grpc::proto_wrapper::data::{MultimodalData, TokenSpeedModality};
use smg::grpc::proto_wrapper::request::Engine;
use std::sync::Arc;

// Detection.

fn user(parts: Vec<ContentPart>) -> ChatMessage {
    ChatMessage::User { content: MessageContent::Parts(parts), name: None }
}

fn text(s: &str) -> ContentPart {
    ContentPart::Text { text: s.to_string() }
}

fn image(url: &str, detail: Option<&str>) -> ContentPart {
    ContentPart::ImageUrl {
        image_url: ImageUrl { url: url.to_string(), detail: detail.map(str::to_string) },
    }
}

fn video(url: &str) -> ContentPart {
    ContentPart::VideoUrl { video_url: VideoUrl { url: url.to_string() } }
}

#[test]
fn test_has_multimodal_content_with_images() {
    let messages =
        vec![user(vec![text("What is this?"), image("https://example.com/cat.jpg", None)])];
    assert!(has_multimodal_content(&messages));
}

#[test]
fn test_has_multimodal_content_with_video() {
    let messages = vec![user(vec![video("https://example.com/clip.mp4")])];
    assert!(has_multimodal_content(&messages));
    assert_eq!(chat_modalities(&messages), vec![Modality::Video]);
}

#[test]
fn test_has_multimodal_content_text_only() {
    let messages = vec![ChatMessage::User {
        content: MessageContent::Text("Hello".to_string()),
        name: None,
    }];
    assert!(!has_multimodal_content(&messages));
}

#[test]
fn test_has_multimodal_content_parts_text_only() {
    let messages = vec![user(vec![text("Just text")])];
    assert!(!has_multimodal_content(&messages));
}

#[test]
fn test_extract_content_parts() {
    let messages = vec![
        ChatMessage::System {
            content: MessageContent::Text("You are helpful".to_string()),
            name: None,
        },
        user(vec![text("Describe this:"), image("https://example.com/image.jpg", Some("high"))]),
    ];

    let parts = extract_content_parts(&messages);
    assert_eq!(parts.len(), 2);

    match &parts[0] {
        MediaContentPart::Text { text } => assert_eq!(text, "Describe this:"),
        _ => panic!("Expected Text part"),
    }

    match &parts[1] {
        MediaContentPart::ImageUrl { url, detail, .. } => {
            assert_eq!(url, "https://example.com/image.jpg");
            assert_eq!(*detail, Some(ImageDetail::High));
        }
        _ => panic!("Expected ImageUrl part"),
    }
}

#[test]
fn test_extract_video_content_parts() {
    let messages = vec![user(vec![video("https://example.com/video.mp4")])];

    let parts = extract_content_parts(&messages);
    assert_eq!(parts.len(), 1);
    match &parts[0] {
        MediaContentPart::VideoUrl { url, .. } => {
            assert_eq!(url, "https://example.com/video.mp4");
        }
        _ => panic!("Expected VideoUrl part"),
    }
}

#[test]
fn test_parse_detail() {
    assert_eq!(parse_detail("auto"), Some(ImageDetail::Auto));
    assert_eq!(parse_detail("Auto"), Some(ImageDetail::Auto));
    assert_eq!(parse_detail("LOW"), Some(ImageDetail::Low));
    assert_eq!(parse_detail("high"), Some(ImageDetail::High));
    assert_eq!(parse_detail("unknown"), None);
}

#[test]
fn kinds_of_media_are_listed_once() {
    let messages = vec![
        user(vec![video("v"), image("a", None), image("b", None)]),
        ChatMessage::Other,
        ChatMessage::Tool {
            content: MessageContent::Parts(vec![video("w")]),
            tool_call_id: "t".to_string(),
        },
    ];
    assert_eq!(chat_modalities(&messages), vec![Modality::Video, Modality::Image]);
}

#[test]
fn messages_api_images_become_urls() {
    let blocks = vec![
        InputContentBlock::Text { text: "look".to_string() },
        InputContentBlock::Image {
            source: ImageSource::Base64 {
                media_type: "image/png".to_string(),
                data: "QUJD".to_string(),
            },
        },
        InputContentBlock::Other,
        InputContentBlock::Image { source: ImageSource::Url { url: "http://i".to_string() } },
    ];
    let messages = vec![InputMessage { role: Role::User, content: InputContent::Blocks(blocks) }];
    assert!(has_multimodal_content_messages(&messages));
    let parts = extract_content_parts_messages(&messages);
    assert_eq!(parts.len(), 3);
    match &parts[1] {
        MediaContentPart::ImageUrl { url, detail, uuid } => {
            assert_eq!(url, "data:image/png;base64,QUJD");
            assert_eq!(*detail, None);
            assert_eq!(*uuid, None);
        }
        _ => panic!("Expected ImageUrl part"),
    }
    let answer = vec![InputMessage {
        role: Role::Assistant,
        content: InputContent::Blocks(vec![InputContentBlock::Image {
            source: ImageSource::Url { url: "http://i".to_string() },
        }]),
    }];
    assert!(!has_multimodal_content_messages(&answer));
    assert!(extract_content_parts_messages(&answer).is_empty());
}

// Expansion.

fn replacement(tokens: Vec<i32>) -> PromptReplacement {
    PromptReplacement {
        modality: Modality::Image,
        placeholder_token: "<image>".to_string(),
        tokens,
    }
}

fn expands_one() {
    let token_ids = vec![1, 2, 100, 3, 4]; // 100 is the placeholder
    let replacements = vec![replacement(vec![50, 50, 50, 50])];

    let result = expand_tokens(&token_ids, Some(100), None, &replacements);

    assert_eq!(result.token_ids, vec![1, 2, 50, 50, 50, 50, 3, 4]);
    assert_eq!(result.placeholders.len(), 1);
    assert_eq!(result.placeholders[0].offset, 2);
    assert_eq!(result.placeholders[0].length, 4);
    assert!(result.patch_offsets.is_none());
}

fn expands_none() {
    let token_ids = vec![1, 2, 3];
    let result = expand_tokens(&token_ids, None, None, &vec![]);

    assert_eq!(result.token_ids, vec![1, 2, 3]);
    assert!(result.placeholders.is_empty());
    assert!(result.patch_offsets.is_none());
}

fn expands_two() {
    let token_ids = vec![1, 100, 2, 100, 3]; // Two placeholder tokens
    let replacements = vec![replacement(vec![50, 50]), replacement(vec![60, 60, 60])];

    let result = expand_tokens(&token_ids, Some(100), None, &replacements);

    assert_eq!(result.token_ids, vec![1, 50, 50, 2, 60, 60, 60, 3]);
    assert_eq!(result.placeholders.len(), 2);
    assert_eq!(result.placeholders[0].offset, 1);
    assert_eq!(result.placeholders[0].length, 2);
    assert_eq!(result.placeholders[1].offset, 4);
    assert_eq!(result.placeholders[1].length, 3);
}

fn expands_with_structure() {
    // 88=image_start, 92=patch(im_token_id), 93=separator, 89=image_end
    let token_ids = vec![1, 100, 2]; // 100 is the placeholder
    let replacements = vec![replacement(vec![88, 92, 92, 92, 93, 92, 92, 92, 89])];

    let result = expand_tokens(&token_ids, Some(100), Some(92), &replacements);

    // Full structural range
    assert_eq!(result.placeholders.len(), 1);
    assert_eq!(result.placeholders[0].offset, 1);
    assert_eq!(result.placeholders[0].length, 9);

    // Patch-only offsets: two runs of token 92
    let patch = result.patch_offsets.unwrap();
    assert_eq!(patch.len(), 2);
    assert_eq!(patch[0], (2, 3)); // offset=2, length=3
    assert_eq!(patch[1], (6, 3)); // offset=6, length=3
}

#[test]
fn multimodal_test_expand_tokens_basic() {
    expands_one();
}

#[test]
fn multimodal_test_expand_tokens_no_placeholder() {
    expands_none();
}

#[test]
fn multimodal_test_expand_tokens_multiple_images() {
    expands_two();
}

#[test]
fn multimodal_test_expand_tokens_patch_offsets_with_structural() {
    expands_with_structure();
}

#[test]
fn process_test_expand_tokens_basic() {
    expands_one();
}

#[test]
fn process_test_expand_tokens_no_placeholder() {
    expands_none();
}

#[test]
fn process_test_expand_tokens_multiple_images() {
    expands_two();
}

#[test]
fn process_test_expand_tokens_patch_offsets_with_structural() {
    expands_with_structure();
}

#[test]
fn test_expand_tokens_more_placeholders_than_replacements() {
    // Two placeholder tokens but only one replacement: the first is
    // expanded, the second is left in place unchanged.
    let token_ids = vec![1, 100, 2, 100, 3];
    let replacements = vec![replacement(vec![50, 50])];

    let result = expand_tokens(&token_ids, Some(100), None, &replacements);

    assert_eq!(result.token_ids, vec![1, 50, 50, 2, 100, 3]);
    assert_eq!(result.placeholders.len(), 1);
    assert_eq!(result.placeholders[0].offset, 1);
    assert_eq!(result.placeholders[0].length, 2);
}

// Assembly.

fn bits(values: &[f32]) -> Vec<u32> {
    values.iter().map(|v| v.to_bits()).collect()
}

fn media(raw: &[u8], hash: &str) -> MediaItem {
    MediaItem { raw_bytes: raw.to_vec(), hash: hash.to_string() }
}

fn flat_layout(key: &str) -> FieldLayout {
    FieldLayout::Flat { sizes_key: key.to_string() }
}

fn two_items(
    modality: Modality,
    noun: &str,
    offsets: [usize; 2],
    token: u32,
) -> PrecomputedMultimodalIntermediate {
    let sizes = format!("patches_per_{noun}");
    let grid = format!("{noun}_grid_thw");
    let preprocessed = PreprocessedEncoderInputs {
        encoder_input: Tensor {
            shape: vec![4, 2],
            bits: bits(&[1.0, 2.0, 3.0, 4.0, 5.0, 6.0, 7.0, 8.0]),
        },
        feature_token_counts: vec![2, 2],
        item_sizes: vec![(1, 1), (1, 1)],
        model_specific: vec![
            (sizes.clone(), ModelSpecificValue::UintTensor { data: vec![2, 2], shape: vec![2] }),
            (
                grid.clone(),
                ModelSpecificValue::UintTensor {
                    data: vec![1, 2, 3, 4, 5, 6],
                    shape: vec![2, 3],
                },
            ),
        ],
    };
    let (images, videos) = if modality == Modality::Image {
        (vec![media(b"a", "hash-a"), media(b"b", "hash-b")], vec![])
    } else {
        (vec![], vec![media(b"a", "video-hash-a"), media(b"b", "video-hash-b")])
    };
    PrecomputedMultimodalIntermediate {
        modality,
        preprocessed,
        images,
        videos,
        placeholders: vec![
            PlaceholderRange { offset: offsets[0], length: 2 },
            PlaceholderRange { offset: offsets[1], length: 2 },
        ],
        patch_offsets: Some(vec![(offsets[0] as u32, 2), (offsets[1] as u32, 2)]),
        placeholder_token_id: Some(token),
        field_layouts: vec![
            ("pixel_values".to_string(), flat_layout(&sizes)),
            (sizes, FieldLayout::Batched),
            (grid, FieldLayout::Batched),
        ],
        keep_on_cpu_keys: vec![],
    }
}

fn image_items() -> PrecomputedMultimodalIntermediate {
    two_items(Modality::Image, "image", [10, 20], 151655)
}

fn video_items() -> PrecomputedMultimodalIntermediate {
    two_items(Modality::Video, "video", [30, 40], 151656)
}

fn plain_setting() -> TransportSetting {
    TransportSetting {
        defaults: MmTransportDefaults { mode: TransportMode::Inline, shm_min_bytes: 65536 },
        dtypes: EncoderDtypeEnv { image: None, video: None, audio: None, any: None },
        dev_writable: false,
        namespace: None,
    }
}

fn options(dtype: &str) -> TokenSpeedAssemblyOptions {
    TokenSpeedAssemblyOptions {
        shm_enabled: false,
        shm_min_bytes: 65536,
        encoder_input_dtype: dtype.to_string(),
        skip_pixel_values: false,
    }
}

fn shape_of(tensors: &[(String, TensorBytes)], key: &str) -> Vec<u32> {
    tensors.iter().find(|(k, _)| k == key).unwrap().1.shape.clone()
}

fn hash_of(s: &str) -> Vec<u8> {
    hash_hex_strings(&vec![s.to_string()])
}

fn check_images(assembled: smg::grpc::proto_wrapper::data::TokenSpeedMultimodalData, width: usize) {
    assert_eq!(assembled.items.len(), 2);

    let first = &assembled.items[0];
    assert_eq!(first.modality, TokenSpeedModality::Image);
    assert_eq!(first.encoder_input.shape, vec![2, 2]);
    assert_eq!(first.encoder_input.nbytes(), 4 * width);
    assert_eq!(first.mm_placeholders, vec![(10, 2)]);
    assert_eq!(first.content_hash, hash_of("hash-a"));
    assert_eq!(shape_of(&first.model_specific_tensors, "image_grid_thw"), vec![1, 3]);
    assert_eq!(shape_of(&first.model_specific_tensors, "patches_per_image"), vec![1]);

    let second = &assembled.items[1];
    assert_eq!(second.encoder_input.shape, vec![2, 2]);
    assert_eq!(second.mm_placeholders, vec![(20, 2)]);
    assert_eq!(second.content_hash, hash_of("hash-b"));
    assert_eq!(shape_of(&second.model_specific_tensors, "image_grid_thw"), vec![1, 3]);
}

fn check_videos(assembled: smg::grpc::proto_wrapper::data::TokenSpeedMultimodalData, width: usize) {
    assert_eq!(assembled.items.len(), 2);

    let first = &assembled.items[0];
    assert_eq!(first.modality, TokenSpeedModality::Video);
    assert_eq!(first.encoder_input.shape, vec![2, 2]);
    assert_eq!(first.encoder_input.nbytes(), 4 * width);
    assert_eq!(first.mm_placeholders, vec![(30, 2)]);
    assert_eq!(first.content_hash, hash_of("video-hash-a"));
    assert_eq!(shape_of(&first.model_specific_tensors, "video_grid_thw"), vec![1, 3]);
    assert_eq!(shape_of(&first.model_specific_tensors, "patches_per_video"), vec![1]);

    let second = &assembled.items[1];
    assert_eq!(second.encoder_input.shape, vec![2, 2]);
    assert_eq!(second.mm_placeholders, vec![(40, 2)]);
    assert_eq!(second.content_hash, hash_of("video-hash-b"));
    assert_eq!(shape_of(&second.model_specific_tensors, "video_grid_thw"), vec![1, 3]);
}

#[test]
fn multimodal_assemble_tokenspeed_splits_image_items() {
    let assembled = assemble_tokenspeed_with_options(&image_items(), options("float32")).unwrap();
    check_images(assembled, 4);
}

#[test]
fn multimodal_assemble_tokenspeed_splits_video_items() {
    let assembled = assemble_tokenspeed_with_options(&video_items(), options("float32")).unwrap();
    check_videos(assembled, 4);
}

#[test]
fn assemble_assemble_tokenspeed_splits_image_items() {
    // bf16 is the default TokenSpeed encoder_input wire dtype (2 bytes/elem).
    let assembled = assemble_tokenspeed(&image_items(), None, false, &plain_setting()).unwrap();
    check_images(assembled, 2);
}

#[test]
fn assemble_assemble_tokenspeed_splits_video_items() {
    let assembled = assemble_tokenspeed(&video_items(), None, false, &plain_setting()).unwrap();
    check_videos(assembled, 2);
}

#[test]
fn encoder_inputs_are_left_out_after_encode() {
    let assembled = assemble_tokenspeed(&image_items(), None, true, &plain_setting()).unwrap();
    assert_eq!(assembled.items[0].encoder_input.nbytes(), 0);
    assert_eq!(assembled.items[0].encoder_input.dtype, "bfloat16");
}

#[test]
fn a_failed_assembly_names_its_segments() {
    let mut intermediate = image_items();
    // One row too few for the second item.
    intermediate.preprocessed.model_specific[1].1 =
        ModelSpecificValue::UintTensor { data: vec![1, 2, 3], shape: vec![1, 3] };
    let mut opts = options("float32");
    opts.shm_enabled = true;
    opts.shm_min_bytes = 1;
    let mut assembly = TokenSpeedAssembly::begin(&intermediate, opts).ok().unwrap();
    let draft = assembly.next_encoder_input(&intermediate).ok().unwrap().unwrap();
    assert!(draft.wants_shm);
    let handle = |name: &str| ShmHandle {
        name: name.to_string(),
        offset: 0,
        nbytes: 16,
        owner_id: "o".to_string(),
    };
    assert!(assembly.add_item(&intermediate, draft, Some(handle("one"))).is_ok());
    let draft = assembly.next_encoder_input(&intermediate).ok().unwrap().unwrap();
    let failure = assembly.add_item(&intermediate, draft, Some(handle("two"))).err().unwrap();
    assert_eq!(failure.cleanup, vec![handle("one"), handle("two")]);
    assert_eq!(
        failure.error.message(),
        "failed to slice model_specific tensor image_grid_thw"
    );
}

#[test]
fn only_whole_results_are_assembled() {
    assert!(is_assemblable(&image_items(), false));
    let mut short = image_items();
    short.preprocessed.encoder_input.bits.pop();
    assert!(!is_assemblable(&short, false));
    let mut flat = image_items();
    flat.preprocessed.encoder_input.shape.clear();
    assert!(!is_assemblable(&flat, false));
    let mut odd = image_items();
    odd.preprocessed.model_specific[1].1 =
        ModelSpecificValue::IntTensor { data: vec![], shape: vec![usize::MAX, 2, 0] };
    assert!(is_assemblable(&odd, false));
    odd.preprocessed.model_specific[1].1 =
        ModelSpecificValue::IntTensor { data: vec![], shape: vec![usize::MAX, 2] };
    assert!(!is_assemblable(&odd, false));
    let mut far = image_items();
    far.placeholders[1] = PlaceholderRange { offset: u32::MAX as usize, length: 1 };
    assert!(!is_assemblable(&far, false));
}

#[test]
fn an_encoder_input_without_dimensions_has_no_rows() {
    let mut scalar = image_items();
    scalar.preprocessed.encoder_input = Tensor { shape: vec![], bits: vec![0] };
    assert!(is_assemblable(&scalar, false));
    assert_eq!(
        assemble_tokenspeed_with_options(&scalar, options("float32")).err().unwrap().message(),
        "array first-dimension slice 0..2 exceeds 0"
    );
    // Where the pixels are skipped, nobody looks at it.
    let skipping = TokenSpeedAssemblyOptions { skip_pixel_values: true, ..options("float32") };
    assert!(assemble_tokenspeed_with_options(&scalar, skipping).is_ok());
    // An empty range of its rows cannot be taken.
    scalar.preprocessed.model_specific[0].1 = ModelSpecificValue::UintVec(vec![0, 2]);
    assert!(!is_assemblable(&scalar, false));
    assert!(is_assemblable(&scalar, true));
}

#[test]
fn items_must_add_up() {
    let mut intermediate = image_items();
    intermediate.images.pop();
    let error = assemble_tokenspeed(&intermediate, None, false, &plain_setting()).err().unwrap();
    assert_eq!(
        error.message(),
        "precomputed multimodal assembly media count mismatch: modality=image, media_count=1, item_count=2"
    );
    let mut intermediate = image_items();
    intermediate.preprocessed.feature_token_counts = vec![2];
    assert!(matches!(
        precomputed_encode_routing_hashes(&intermediate),
        Err(AssembleError::TokenCountMismatch { token_count: 1, item_count: 2, .. })
    ));
    let mut intermediate = image_items();
    intermediate.placeholders.pop();
    assert!(matches!(
        precomputed_encode_routing_hashes(&intermediate),
        Err(AssembleError::PlaceholderCountMismatch { placeholder_count: 1, .. })
    ));
    let mut intermediate = image_items();
    intermediate.images.clear();
    intermediate.placeholders.clear();
    intermediate.preprocessed.feature_token_counts.clear();
    assert!(matches!(
        precomputed_encode_routing_hashes(&intermediate),
        Err(AssembleError::NoItems)
    ));
}

#[test]
fn spans_follow_the_sizes() {
    assert_eq!(item_span(&vec![2, 5, 3], 2).ok(), Some((7, 3)));
    assert!(matches!(
        item_span(&vec![2], 1),
        Err(AssembleError::MissingFlatSize { item_index: 1 })
    ));
    assert!(matches!(
        item_span(&vec![usize::MAX, 2, 1], 2),
        Err(AssembleError::FlatSizeOffsetOverflow)
    ));
}

#[test]
fn flat_sizes_must_be_there() {
    let mut intermediate = image_items();
    intermediate.field_layouts[0].1 = flat_layout("nowhere");
    let error = assemble_tokenspeed(&intermediate, None, false, &plain_setting()).err().unwrap();
    assert_eq!(error.message(), "missing flat sizes tensor nowhere");

    let mut intermediate = image_items();
    intermediate.preprocessed.model_specific[0].1 = ModelSpecificValue::FloatVec(vec![0, 0]);
    let error = assemble_tokenspeed(&intermediate, None, false, &plain_setting()).err().unwrap();
    assert_eq!(error.message(), "invalid flat sizes tensor patches_per_image");

    let mut intermediate = image_items();
    intermediate.preprocessed.model_specific[0].1 = ModelSpecificValue::IntVec(vec![2, 3]);
    let error = assemble_tokenspeed(&intermediate, None, false, &plain_setting()).err().unwrap();
    assert_eq!(error.message(), "array first-dimension slice 2..5 exceeds 4");
}

#[test]
fn routing_hashes_are_digests() {
    let hashes = precomputed_encode_routing_hashes(&image_items()).unwrap();
    assert_eq!(hashes, vec![hash_of("hash-a"), hash_of("hash-b")]);
    assert_eq!(
        hash_of("hash-a"),
        blake3::hash(b"hash-a").as_bytes().to_vec()
    );
    assert_eq!(
        hash_hex_strings(&vec!["hash".to_string(), "-a".to_string()]),
        hash_of("hash-a")
    );
}

#[test]
fn each_backend_gets_its_own_form() {
    let setting = plain_setting();
    match assemble_multimodal_data(image_items(), Engine::Sglang, None, false, &setting) {
        Ok(MultimodalData::Sglang(data)) => {
            assert_eq!(data.image_data, vec![b"a".to_vec(), b"b".to_vec()]);
            assert_eq!(data.pixel_values.len(), 32);
            assert_eq!(data.pixel_values[..4], 1.0f32.to_le_bytes());
            assert_eq!(data.pixel_values_shape, vec![4, 2]);
            assert_eq!(data.mm_placeholders, vec![(10, 2), (20, 2)]);
            assert_eq!(data.model_specific_tensors.len(), 2);
        }
        _ => panic!("expected SGLang data"),
    }
    match assemble_multimodal_data(image_items(), Engine::Vllm, None, false, &setting) {
        Ok(MultimodalData::Vllm(data)) => {
            assert_eq!(data.mm_hashes, vec!["hash-a".to_string(), "hash-b".to_string()]);
            assert_eq!(
                data.batched_keys,
                vec!["patches_per_image".to_string(), "image_grid_thw".to_string()]
            );
            assert_eq!(
                data.flat_keys,
                vec![("pixel_values".to_string(), "patches_per_image".to_string())]
            );
            assert!(!data.shm_enabled);
            assert_eq!(data.shm_min_bytes, 65536);
        }
        _ => panic!("expected vLLM data"),
    }
    match assemble_multimodal_data(image_items(), Engine::Trtllm, None, false, &setting) {
        Ok(MultimodalData::Trtllm(data)) => assert_eq!(data.image_data.len(), 2),
        _ => panic!("expected TRT-LLM data"),
    }
    match assemble_multimodal_data(video_items(), Engine::Vllm, None, false, &setting) {
        Err(e) => assert_eq!(
            e.message(),
            "vLLM multimodal path currently supports image inputs only; got video"
        ),
        Ok(_) => panic!("expected a refusal"),
    }
    assert_eq!(batched_keys(&vec![]).len(), 0);
    assert_eq!(flat_keys(&vec![]).len(), 0);
}

#[test]
fn sglang_falls_back_to_full_ranges() {
    let mut intermediate = image_items();
    intermediate.patch_offsets = Some(vec![]);
    intermediate.placeholders[0].length = 3;
    match assemble_multimodal_data(intermediate, Engine::Sglang, None, false, &plain_setting()) {
        Ok(MultimodalData::Sglang(data)) => {
            assert_eq!(data.mm_placeholders, vec![(10, 3), (20, 2)]);
        }
        _ => panic!("expected SGLang data"),
    }
}

// Number formats.

#[test]
fn single_precision_is_rounded_to_nearest() {
    assert_eq!(f32_to_bf16_bits(1.0f32.to_bits()), 0x3f80);
    assert_eq!(f32_to_bf16_bits(0x3f80_8000), 0x3f80);
    assert_eq!(f32_to_bf16_bits(0x3f81_8000), 0x3f82);
    assert_eq!(f32_to_f16_bits(1.0f32.to_bits()), 0x3c00);
    assert_eq!(f32_to_f16_bits(65504.0f32.to_bits()), 0x7bff);
    assert_eq!(f32_to_f16_bits(1.0e6f32.to_bits()), 0x7c00);
    assert_eq!(f32_to_f16_bits((-2.0f32).to_bits()), 0xc000);
    assert_eq!(f32_to_f16_bits(5.9604645e-8f32.to_bits()), 0x0001);
    // The middle between the greatest number and the next becomes infinity.
    assert_eq!(f32_to_f16_bits(65520.0f32.to_bits()), 0x7c00);
    assert_eq!(f32_to_f16_bits(65519.0f32.to_bits()), 0x7bff);
    assert_eq!(f32_to_f16_bits(f32::INFINITY.to_bits()), 0x7c00);
    // Half of the least number becomes zero, anything above it does not.
    assert_eq!(f32_to_f16_bits(2.9802322e-8f32.to_bits()), 0x0000);
    assert_eq!(f32_to_f16_bits(2.9802322e-8f32.to_bits() + 1), 0x0001);
    // Ties go to the even number, on both sides of zero.
    assert_eq!(f32_to_f16_bits(2049.0f32.to_bits()), 0x6800);
    assert_eq!(f32_to_f16_bits(2051.0f32.to_bits()), 0x6802);
    for bits in [0u32, 0x3f80_1000, 0x477f_e000, 0x33c0_0000, 0x7f80_0000] {
        assert_eq!(f32_to_f16_bits(bits ^ 0x8000_0000), f32_to_f16_bits(bits) ^ 0x8000);
    }
}

#[test]
fn formats_have_several_names() {
    assert_eq!(canonical_float_dtype(" BF16 "), Some(FloatDtype::Bfloat16));
    assert_eq!(canonical_float_dtype("half"), Some(FloatDtype::Float16));
    assert_eq!(canonical_float_dtype("f32"), Some(FloatDtype::Float32));
    assert_eq!(canonical_float_dtype("int8"), None);
    let t = Tensor { shape: vec![2], bits: bits(&[1.0, -2.0]) };
    let (data, shape, format) = serialize_array_as_dtype(&t, "fp16");
    assert_eq!(data, vec![0x00, 0x3c, 0x00, 0xc0]);
    assert_eq!(shape, vec![2]);
    assert_eq!(format, FloatDtype::Float16);
    let (data, _, format) = serialize_array_as_dtype(&t, "unheard-of");
    assert_eq!(data.len(), 8);
    assert_eq!(format, FloatDtype::Float32);
}

// Transport.

fn worker(labels: &[(&str, &str)]) -> WorkerInfo {
    WorkerInfo {
        url: "http://w".to_string(),
        bootstrap_host: "h".to_string(),
        bootstrap_port: None,
        dp_rank: None,
        dp_size: None,
        labels: labels.iter().map(|(k, v)| (k.to_string(), v.to_string())).collect(),
        kv_connector: None,
        kv_engine_id: None,
        multimodal_tensor_transport: None,
        multimodal_shm_min_bytes: None,
        sampling_defaults: None,
    }
}

fn no_env() -> MmTransportEnv {
    MmTransportEnv {
        tensor_transport: None,
        tensor_transport_alias: None,
        shm_min_bytes: None,
        shm_min_bytes_alias: None,
    }
}

#[test]
fn configuration_wins_over_the_environment() {
    let env = MmTransportEnv {
        tensor_transport: Some("  ".to_string()),
        tensor_transport_alias: Some("SHM".to_string()),
        shm_min_bytes: Some(" 12 ".to_string()),
        shm_min_bytes_alias: Some("99".to_string()),
    };
    let mut transport = MmTransport::new();
    assert_eq!(
        transport.mm_transport_defaults(&env),
        MmTransportDefaults { mode: TransportMode::Shm, shm_min_bytes: 12 }
    );
    assert_eq!(
        transport.mm_transport_defaults(&no_env()),
        MmTransportDefaults { mode: TransportMode::Inline, shm_min_bytes: 65536 }
    );
    transport.init_mm_transport_defaults(Some(TransportMode::Rdma), None, &env);
    // The first call wins.
    transport.init_mm_transport_defaults(Some(TransportMode::Auto), Some(1), &env);
    let defaults = transport.mm_transport_defaults(&no_env());
    assert_eq!(defaults, MmTransportDefaults { mode: TransportMode::Rdma, shm_min_bytes: 12 });
    assert!(mm_default_transport_is_rdma(&defaults));
    let unknown = MmTransportEnv { tensor_transport: Some("pigeon".to_string()), ..no_env() };
    assert_eq!(
        MmTransport::new().mm_transport_defaults(&unknown).mode,
        TransportMode::Inline
    );
    assert_eq!(
        env_with_deprecated_alias(&env.tensor_transport, &env.tensor_transport_alias),
        Some(("SHM".to_string(), true))
    );
}

#[test]
fn auto_needs_a_shared_namespace() {
    let auto = MmTransportDefaults { mode: TransportMode::Auto, shm_min_bytes: 10 };
    let near = worker(&[("shm_namespace_id", "boot:7")]);
    let far = worker(&[("shm_namespace_id", "boot:8")]);
    let single = WorkerSelection::Single { worker: near };
    assert!(resolve_mm_shm_enabled(Some(&single), false, &auto, true, Some("boot:7")));
    assert!(!resolve_mm_shm_enabled(Some(&single), false, &auto, false, Some("boot:7")));
    assert!(!resolve_mm_shm_enabled(Some(&single), false, &auto, true, None));
    assert!(!resolve_mm_shm_enabled(None, false, &auto, true, Some("boot:7")));
    let mixed = WorkerSelection::Disaggregated {
        encode_assignments: Some(vec![
            EncodeAssignment {
                item_index: 0,
                worker: worker(&[("shm_namespace_id", "boot:7")]),
            },
            EncodeAssignment { item_index: 1, worker: far },
        ]),
        prefill: worker(&[("shm_namespace_id", "boot:7")]),
        decode: worker(&[("shm_namespace_id", "boot:7")]),
        runtime_type: RuntimeType::TokenSpeed,
    };
    assert!(!resolve_mm_shm_enabled(Some(&mixed), false, &auto, true, Some("boot:7")));
    // Without pixels only prefill and decode matter.
    assert!(resolve_mm_shm_enabled(Some(&mixed), true, &auto, true, Some("boot:7")));
}

#[test]
fn a_worker_overrides_the_defaults() {
    let inline = MmTransportDefaults { mode: TransportMode::Inline, shm_min_bytes: 10 };
    let mut w = worker(&[("multimodal_encoder_dtype", "float16")]);
    w.multimodal_tensor_transport = Some(TransportMode::Shm);
    w.multimodal_shm_min_bytes = Some(3);
    let single = WorkerSelection::Single { worker: w };
    assert!(resolve_mm_shm_enabled(Some(&single), false, &inline, true, None));
    assert_eq!(resolve_mm_shm_min_bytes(Some(&single), &inline), 3);
    assert_eq!(resolve_mm_shm_min_bytes(None, &inline), 10);
    let nothing = EncoderDtypeEnv { image: None, video: None, audio: None, any: None };
    assert_eq!(mm_encoder_input_dtype(Modality::Image, Some(&single), &nothing), "float16");
    assert_eq!(mm_encoder_input_dtype(Modality::Image, None, &nothing), "bfloat16");
    let env = EncoderDtypeEnv {
        image: Some("float32".to_string()),
        any: Some("half".to_string()),
        video: Some(String::new()),
        audio: None,
    };
    assert_eq!(mm_encoder_input_dtype(Modality::Image, Some(&single), &env), "float32");
    assert_eq!(mm_encoder_input_dtype(Modality::Video, Some(&single), &env), "half");
}

fn namespace_token() {
    let id = shm_namespace_id("0b5f3a52-7f0a-4d5e-9a8e-1c2d3e4f5a6b\n", 24);
    assert!(id.contains(':'), "token must be <boot_id>:<st_dev>, got {id:?}");
    let dev = id.rsplit(':').next().unwrap();
    assert!(dev.parse::<u64>().is_ok(), "st_dev component must be numeric, got {id:?}");
    assert_eq!(id, "0b5f3a52-7f0a-4d5e-9a8e-1c2d3e4f5a6b:24");
}

#[test]
fn multimodal_local_shm_namespace_id_resolves_on_linux() {
    namespace_token();
}

#[test]
fn transport_local_shm_namespace_id_resolves_on_linux() {
    namespace_token();
}

#[test]
fn timing_logs_are_switched_on_by_words() {
    assert!(log_mm_timing_enabled(Some("YES")));
    assert!(log_mm_timing_enabled(Some("1")));
    assert!(!log_mm_timing_enabled(Some("on")));
    assert!(!log_mm_timing_enabled(None));
}

// Processing.

fn shape(frames: usize, rgb: Option<bool>) -> VideoShape {
    VideoShape { frames, rgb }
}

#[test]
fn a_request_has_images_or_one_video() {
    assert_eq!(request_modality(3, 0).ok(), Some(Modality::Image));
    assert_eq!(request_modality(0, 1).ok(), Some(Modality::Video));
    assert_eq!(
        request_modality(1, 1).err().unwrap().message(),
        "Mixed image and video multimodal requests are not supported yet"
    );
    assert_eq!(
        request_modality(0, 0).err().unwrap().message(),
        "No media was successfully fetched for multimodal request"
    );
    assert_eq!(
        request_modality(0, 2).err().unwrap().message(),
        "Exactly one video is supported per request for the initial video path"
    );
}

#[test]
fn a_run_puts_media_and_prompt_together() {
    let run = MultimodalRun::start(
        "model".to_string(),
        vec![1, 100, 2],
        vec![TrackedMedia::Image(media(b"a", "hash-a")), TrackedMedia::Other],
        vec![],
        shape(0, None),
    )
    .ok()
    .unwrap();
    assert_eq!(run.modality(), Modality::Image);
    assert_eq!(
        run.on_model(false, true).err().unwrap().message(),
        "Multimodal not supported for model: model"
    );
    assert_eq!(
        run.on_model(true, false).err().unwrap().message(),
        "No vision processor found for model: model"
    );
    assert_eq!(run.on_model(true, true).ok(), Some(Preprocessing::Images));
    let preprocessed = PreprocessedEncoderInputs {
        encoder_input: Tensor { shape: vec![1, 1], bits: vec![0] },
        feature_token_counts: vec![2],
        item_sizes: vec![(1, 1)],
        model_specific: vec![],
    };
    let fields = PromptFields {
        replacements: Ok(vec![replacement(vec![7, 7])]),
        model: Ok(ModelFields {
            search_token_id: Some(100),
            declared_token_id: Some(7),
            field_layouts: vec![],
            keep_on_cpu_keys: vec!["k".to_string()],
        }),
    };
    let output = run.finish(preprocessed, fields).ok().unwrap();
    assert_eq!(output.expanded_token_ids, vec![1, 7, 7, 2]);
    assert_eq!(output.intermediate.images.len(), 1);
    assert_eq!(output.intermediate.placeholders[0].offset, 1);
    assert_eq!(output.intermediate.patch_offsets, Some(vec![(1, 2)]));
    assert_eq!(output.intermediate.placeholder_token_id, Some(7));
    assert_eq!(output.intermediate.keep_on_cpu_keys, vec!["k".to_string()]);
}

#[test]
fn videos_fall_back_to_frames() {
    let start = |video| {
        MultimodalRun::start(
            "m".to_string(),
            vec![],
            vec![],
            vec![TrackedMedia::Video(media(b"v", "h"))],
            video,
        )
        .ok()
        .unwrap()
        .on_model(true, true)
        .ok()
    };
    assert_eq!(start(shape(3, Some(true))), Some(Preprocessing::Frames));
    assert_eq!(start(shape(0, Some(true))), Some(Preprocessing::RgbPlanes));
    assert_eq!(start(shape(0, Some(false))), Some(Preprocessing::MaterializedFrames));
    assert_eq!(
        retry_preprocessing(Preprocessing::RgbPlanes),
        Some(Preprocessing::MaterializedFrames)
    );
    assert_eq!(retry_preprocessing(Preprocessing::Frames), None);
}

// Model configurations.

fn files(config: Option<&str>, preprocessor: Option<&str>) -> ModelFiles {
    ModelFiles {
        config_path: "/m/config.json".to_string(),
        config: config.map(str::to_string),
        preprocessor_config: preprocessor.map(str::to_string),
        video_preprocessor_config: None,
    }
}

#[test]
fn registry_get_or_load_reads_from_local_dir_and_caches() {
    let mut reg = MultimodalConfigRegistry::new();
    assert!(matches!(reg.get_or_load("tok-uuid-2"), GetOrLoad::Load));
    let first = reg
        .loaded(
            "tok-uuid-2",
            files(
                Some(r#"{"model_type":"phi3_v","image_token_index":32044}"#),
                Some(r#"{"image_processor_type":"Phi3VImageProcessor"}"#),
            ),
        )
        .unwrap();
    let value: serde_json::Value = serde_json::from_str(&first.config).unwrap();
    assert_eq!(value["model_type"].as_str(), Some("phi3_v"));

    match reg.get_or_load("tok-uuid-2") {
        GetOrLoad::Cached(second) => assert!(
            Arc::ptr_eq(&first, &second),
            "second call must hit cache and return same Arc"
        ),
        GetOrLoad::Load => panic!("second call must hit cache"),
    }
}

#[test]
fn registry_get_or_load_falls_back_when_preprocessor_config_missing() {
    let mut reg = MultimodalConfigRegistry::new();
    let loaded = reg
        .loaded("tok-uuid-nopp", files(Some(r#"{"model_type":"llama"}"#), None))
        .expect("must fall back to default preprocessor_config");
    let value: serde_json::Value = serde_json::from_str(&loaded.config).unwrap();
    assert_eq!(value["model_type"].as_str(), Some("llama"));
    assert!(loaded.preprocessor_config.is_none());
    assert!(reg.get("tok-uuid-nopp").is_some());
}

#[test]
fn load_video_preprocessor_config_ignores_missing_video_processor_key() {
    let processor =
        r#"{"image_processor":{"image_processor_type":"Qwen3VLImageProcessor"}}"#.to_string();
    assert!(matches!(
        load_video_preprocessor_config(None, Some(&processor)),
        VideoConfigSource::Nothing
    ));
    assert!(matches!(
        load_video_preprocessor_config(None, Some(&"{".to_string())),
        VideoConfigSource::Nothing
    ));
    assert!(matches!(load_video_preprocessor_config(None, None), VideoConfigSource::Nothing));
}

#[test]
fn load_video_preprocessor_config_reads_video_processor_key() {
    let processor =
        r#"{"video_processor":{"image_processor_type":"Qwen3VLVideoProcessor","do_resize":true}}"#
            .to_string();
    match load_video_preprocessor_config(None, Some(&processor)) {
        VideoConfigSource::Member(text) => {
            let config: serde_json::Value = serde_json::from_str(&text).unwrap();
            assert_eq!(config["image_processor_type"].as_str(), Some("Qwen3VLVideoProcessor"));
            assert_eq!(config["do_resize"].as_bool(), Some(true));
        }
        _ => panic!("video_processor should parse"),
    }
    assert!(matches!(
        load_video_preprocessor_config(Some("{}".to_string()), Some(&processor)),
        VideoConfigSource::OwnFile(text) if text == "{}"
    ));
}

fn phi() -> Arc<MultimodalModelConfig> {
    Arc::new(MultimodalModelConfig {
        config: r#"{"model_type":"phi3_v"}"#.to_string(),
        preprocessor_config: Some(
            r#"{"image_processor_type":"Phi3VImageProcessor"}"#.to_string(),
        ),
        video_preprocessor_config: None,
    })
}

#[test]
fn registry_remove_drops_cached_entry() {
    let mut reg = MultimodalConfigRegistry::new();
    let cfg = phi();
    reg.insert("tok-uuid-rm".to_string(), cfg.clone());
    assert!(reg.get("tok-uuid-rm").is_some());

    let removed = reg.remove("tok-uuid-rm").expect("remove returns the entry");
    assert!(Arc::ptr_eq(&removed, &cfg));
    assert!(reg.get("tok-uuid-rm").is_none());
    assert!(reg.remove("tok-uuid-rm").is_none());
}

#[test]
fn registry_get_or_load_hits_preloaded_entry_without_touching_source() {
    let mut reg = MultimodalConfigRegistry::new();
    let cfg = phi();
    reg.insert("tok-uuid-3".to_string(), cfg.clone());

    match reg.get_or_load("tok-uuid-3") {
        GetOrLoad::Cached(got) => assert!(Arc::ptr_eq(&got, &cfg)),
        GetOrLoad::Load => panic!("preloaded entry must be returned without touching source"),
    }
}

#[test]
fn unusable_model_files_are_refused() {
    let mut reg = MultimodalConfigRegistry::new();
    assert_eq!(
        reg.loaded("t", files(None, None)).unwrap_err(),
        "Failed to read config.json at /m/config.json"
    );
    assert_eq!(
        reg.loaded("t", files(Some("{"), None)).unwrap_err(),
        "Failed to parse config.json at /m/config.json"
    );
    assert!(reg.get("t").is_none());
    assert!(model_config(files(Some("anything"), None), true).is_ok());
}

#[test]
fn placeholder_tokens_are_resolved() {
    assert_eq!(resolve_placeholder_token(None), Ok(None));
    assert_eq!(
        resolve_placeholder_token(Some(Ok("<|image|>".to_string()))),
        Ok(Some("<|image|>".to_string()))
    );
    assert_eq!(
        resolve_placeholder_token(Some(Err("no such modality".to_string()))),
        Err("Failed to get placeholder token: no such modality".to_string())
    );
}
