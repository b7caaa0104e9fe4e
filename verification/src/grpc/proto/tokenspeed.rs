//! Messages of TokenSpeed.

use crate::grpc::proto::common::{
    MatchedStop, Modality, OutputLogProbs, PlaceholderRange, TensorData,
};
use std::sync::Arc;
use vstd::prelude::*;

verus! {

/// How tokens are sampled.
#[derive(Debug, Clone, Copy, PartialEq, Eq, Structural)]
pub struct SamplingParams {
    pub temperature: Option<u32>,
    pub top_p: Option<u32>,
    pub top_k: Option<i32>,
    pub min_p: Option<u32>,
    pub repetition_penalty: Option<u32>,
}

/// Where the embedding of one item is handed over.
#[derive(Debug, Clone, PartialEq, Eq)]
pub struct EncodeItemBootstrapInfo {
    pub item_index: u32,
    pub bootstrap_host: String,
    pub bootstrap_port: i32,
    pub bootstrap_room: i64,
}

/// Where prefill and decode meet.
#[derive(Debug, Clone, PartialEq, Eq)]
pub struct KvBootstrapInfo {
    pub bootstrap_host: String,
    pub bootstrap_port: i32,
    pub bootstrap_room: i64,
}

/// One preprocessed media item.
pub struct MultimodalItem {
    pub modality: Modality,
    pub content_hash: Arc<Vec<u8>>,
    pub encoder_input: Option<Arc<TensorData>>,
    pub model_specific_tensors: Arc<Vec<(String, TensorData)>>,
    pub placeholders: Arc<Vec<PlaceholderRange>>,
    pub placeholder_token_id: Option<u32>,
}

impl MultimodalItem {
    /// An item of its own with the same parts.
    pub fn copy(&self) -> (r: Self)
        ensures
            r == *self,
    {
        MultimodalItem {
            modality: self.modality,
            content_hash: self.content_hash.clone(),
            encoder_input: match &self.encoder_input {
                Some(t) => Some(t.clone()),
                None => None,
            },
            model_specific_tensors: self.model_specific_tensors.clone(),
            placeholders: self.placeholders.clone(),
            placeholder_token_id: self.placeholder_token_id,
        }
    }
}

/// Preprocessed media.
pub struct MultimodalInputs {
    pub items: Vec<MultimodalItem>,
}

/// A request for a generation.
pub struct GenerateRequest {
    pub request_id: String,
    pub stream: bool,
    pub sampling_params: Option<SamplingParams>,
    pub mm_inputs: Option<MultimodalInputs>,
    pub encode_bootstrap_info: Option<Vec<EncodeItemBootstrapInfo>>,
    pub kv_bootstrap_info: Option<KvBootstrapInfo>,
}

impl Default for GenerateRequest {
    fn default() -> (r: Self)
        ensures
            r.request_id@ == Seq::<char>::empty(),
            !r.stream,
            r.sampling_params is None,
            r.mm_inputs is None,
            r.encode_bootstrap_info is None,
            r.kv_bootstrap_info is None,
    {
        GenerateRequest {
            request_id: String::new(),
            stream: false,
            sampling_params: None,
            mm_inputs: None,
            encode_bootstrap_info: None,
            kv_bootstrap_info: None,
        }
    }
}

/// Part of a generation.
pub struct GenerateStreamChunk {
    pub token_ids: Vec<u32>,
    pub index: u32,
    pub prompt_tokens: u32,
    pub completion_tokens: u32,
    pub cached_tokens: u32,
    pub output_logprobs: Option<OutputLogProbs>,
}

/// The end of a generation.
pub struct GenerateComplete {
    pub output_ids: Vec<u32>,
    pub index: u32,
    pub prompt_tokens: u32,
    pub completion_tokens: u32,
    pub cached_tokens: u32,
    pub finish_reason: String,
    pub matched_stop: Option<MatchedStop>,
    pub output_logprobs: Option<OutputLogProbs>,
}

/// What a response holds.
pub enum Response {
    Chunk(GenerateStreamChunk),
    Complete(GenerateComplete),
}

/// One message of a generation.
pub struct GenerateResponse {
    pub response: Option<Response>,
}

} // verus!
