//! Messages of SGLang.

use crate::grpc::multimodal::serialize::TensorBytes;
use crate::grpc::proto::common::{InputLogProbs, MatchedStop, OutputLogProbs, PlaceholderRange};
use std::sync::Arc;
use vstd::prelude::*;

verus! {

/// How tokens are sampled.
#[derive(Debug, Clone, Copy, PartialEq, Eq, Structural)]
pub struct SamplingParams {
    pub temperature: u32,
    pub top_p: u32,
    pub top_k: i32,
    pub min_p: u32,
    pub repetition_penalty: u32,
}

/// Where prefill and decode meet.
#[derive(Debug, Clone, PartialEq, Eq)]
pub struct DisaggregatedParams {
    pub bootstrap_host: String,
    pub bootstrap_port: i32,
    pub bootstrap_room: i32,
}

/// Preprocessed media.
pub struct MultimodalInputs {
    pub image_urls: Arc<Vec<String>>,
    pub video_urls: Arc<Vec<String>>,
    pub audio_urls: Arc<Vec<String>>,
    pub image_data: Arc<Vec<Vec<u8>>>,
    pub video_data: Arc<Vec<Vec<u8>>>,
    pub audio_data: Arc<Vec<Vec<u8>>>,
    pub modalities: Arc<Vec<String>>,
    pub pixel_values: Option<Arc<TensorBytes>>,
    pub model_specific_tensors: Arc<Vec<(String, TensorBytes)>>,
    pub im_token_id: Option<u32>,
    pub mm_placeholders: Arc<Vec<PlaceholderRange>>,
}

impl MultimodalInputs {
    /// Inputs of their own with the same parts.
    pub fn copy(&self) -> (r: Self)
        ensures
            r == *self,
    {
        MultimodalInputs {
            image_urls: self.image_urls.clone(),
            video_urls: self.video_urls.clone(),
            audio_urls: self.audio_urls.clone(),
            image_data: self.image_data.clone(),
            video_data: self.video_data.clone(),
            audio_data: self.audio_data.clone(),
            modalities: self.modalities.clone(),
            pixel_values: match &self.pixel_values {
                Some(t) => Some(t.clone()),
                None => None,
            },
            model_specific_tensors: self.model_specific_tensors.clone(),
            im_token_id: self.im_token_id,
            mm_placeholders: self.mm_placeholders.clone(),
        }
    }
}

/// A request for a generation.
pub struct GenerateRequest {
    pub request_id: String,
    pub stream: bool,
    pub data_parallel_rank: i32,
    pub sampling_params: Option<SamplingParams>,
    pub mm_inputs: Option<MultimodalInputs>,
    pub disaggregated_params: Option<DisaggregatedParams>,
}

impl Default for GenerateRequest {
    fn default() -> (r: Self)
        ensures
            r.request_id@ == Seq::<char>::empty(),
            !r.stream,
            r.data_parallel_rank == 0,
            r.sampling_params is None,
            r.mm_inputs is None,
            r.disaggregated_params is None,
    {
        GenerateRequest {
            request_id: String::new(),
            stream: false,
            data_parallel_rank: 0,
            sampling_params: None,
            mm_inputs: None,
            disaggregated_params: None,
        }
    }
}

/// Part of a generation.
pub struct GenerateStreamChunk {
    pub token_ids: Vec<u32>,
    pub index: u32,
    pub prompt_tokens: u32,
    pub completion_tokens: u32,
    pub cached_tokens: u32,
    pub reasoning_tokens: u32,
    pub output_logprobs: Option<OutputLogProbs>,
    pub input_logprobs: Option<InputLogProbs>,
}

/// The end of a generation.
pub struct GenerateComplete {
    pub output_ids: Vec<u32>,
    pub index: u32,
    pub prompt_tokens: u32,
    pub completion_tokens: u32,
    pub cached_tokens: u32,
    pub reasoning_tokens: u32,
    pub finish_reason: String,
    pub matched_stop: Option<MatchedStop>,
    pub output_logprobs: Option<OutputLogProbs>,
    pub input_logprobs: Option<InputLogProbs>,
}

/// What a response holds.
pub enum Response {
    Chunk(GenerateStreamChunk),
    Complete(GenerateComplete),
}

/// One message of a generation.
pub struct GenerateResponse {
    pub response: Option<Response>,
}

/// A request for an embedding.
pub struct EmbedRequest {
    pub request_id: String,
}

/// An embedding.
pub struct EmbedResponse {
    pub embedding: Vec<u32>,
    pub prompt_tokens: u32,
    pub embedding_dim: u32,
}

} // verus!
