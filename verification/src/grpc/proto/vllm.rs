//! Messages of vLLM.

use crate::grpc::proto::common::{
    InputLogProbs, MatchedStop, Modality, OutputLogProbs, PlaceholderRange, TensorData,
};
use std::sync::Arc;
use vstd::prelude::*;

verus! {

/// How tokens are sampled.
#[derive(Debug, Clone)]
pub struct SamplingParams {
    pub temperature: Option<u32>,
    pub top_p: u32,
    pub top_k: u32,
    pub min_p: u32,
    pub repetition_penalty: u32,
    pub max_tokens: Option<u32>,
    pub min_tokens: u32,
    pub n: u32,
    pub stop: Vec<String>,
    pub stop_token_ids: Vec<u32>,
    pub ignore_eos: bool,
}

impl Default for SamplingParams {
    fn default() -> (r: Self)
        ensures
            r.temperature is None,
            r.top_p == 0,
            r.top_k == 0,
            r.min_p == 0,
            r.repetition_penalty == 0,
            r.max_tokens is None,
            r.min_tokens == 0,
            r.n == 0,
            r.stop@ == Seq::<String>::empty(),
            r.stop_token_ids@ == Seq::<u32>::empty(),
            !r.ignore_eos,
    {
        SamplingParams {
            temperature: None,
            top_p: 0,
            top_k: 0,
            min_p: 0,
            repetition_penalty: 0,
            max_tokens: None,
            min_tokens: 0,
            n: 0,
            stop: Vec::new(),
            stop_token_ids: Vec::new(),
            ignore_eos: false,
        }
    }
}

/// Where the decode worker fetches the cache from.
#[derive(Debug, Clone, PartialEq, Eq)]
pub struct KvTransferParams {
    pub remote_host: String,
    pub remote_port: u32,
}

/// Preprocessed media.
pub struct MultimodalInputs {
    pub pixel_values: Option<Arc<TensorData>>,
    pub model_specific_tensors: Arc<Vec<(String, TensorData)>>,
    pub im_token_id: Option<u32>,
    pub mm_placeholders: Arc<Vec<PlaceholderRange>>,
    pub mm_hashes: Arc<Vec<String>>,
    pub batched_keys: Arc<Vec<String>>,
    pub flat_keys: Arc<Vec<(String, String)>>,
    pub keep_on_cpu_keys: Arc<Vec<String>>,
    pub modality: Modality,
}

impl MultimodalInputs {
    /// Inputs of their own with the same parts.
    pub fn copy(&self) -> (r: Self)
        ensures
            r == *self,
    {
        MultimodalInputs {
            pixel_values: match &self.pixel_values {
                Some(t) => Some(t.clone()),
                None => None,
            },
            model_specific_tensors: self.model_specific_tensors.clone(),
            im_token_id: self.im_token_id,
            mm_placeholders: self.mm_placeholders.clone(),
            mm_hashes: self.mm_hashes.clone(),
            batched_keys: self.batched_keys.clone(),
            flat_keys: self.flat_keys.clone(),
            keep_on_cpu_keys: self.keep_on_cpu_keys.clone(),
            modality: self.modality,
        }
    }
}

/// A request for a generation.
pub struct GenerateRequest {
    pub request_id: String,
    pub stream: bool,
    pub data_parallel_rank: Option<i32>,
    pub sampling_params: Option<SamplingParams>,
    pub mm_inputs: Option<MultimodalInputs>,
    pub kv_transfer_params: Option<KvTransferParams>,
    pub kv_transfer_params_json: Option<String>,
}

impl Default for GenerateRequest {
    fn default() -> (r: Self)
        ensures
            r.request_id@ == Seq::<char>::empty(),
            !r.stream,
            r.data_parallel_rank is None,
            r.sampling_params is None,
            r.mm_inputs is None,
            r.kv_transfer_params is None,
            r.kv_transfer_params_json is None,
    {
        GenerateRequest {
            request_id: String::new(),
            stream: false,
            data_parallel_rank: None,
            sampling_params: None,
            mm_inputs: None,
            kv_transfer_params: None,
            kv_transfer_params_json: None,
        }
    }
}

/// Part of a generation.
pub struct GenerateStreamChunk {
    pub token_ids: Vec<u32>,
    pub index: u32,
    pub prompt_tokens: u32,
    pub completion_tokens: u32,
    pub cached_tokens: u32,
    pub output_logprobs: Option<OutputLogProbs>,
    pub input_logprobs: Option<InputLogProbs>,
}

/// The end of a generation.
pub struct GenerateComplete {
    pub output_ids: Vec<u32>,
    pub index: u32,
    pub prompt_tokens: u32,
    pub completion_tokens: u32,
    pub cached_tokens: u32,
    pub finish_reason: String,
    pub matched_stop: Option<MatchedStop>,
    pub output_logprobs: Option<OutputLogProbs>,
    pub input_logprobs: Option<InputLogProbs>,
    pub kv_transfer_params: Option<KvTransferParams>,
    pub kv_transfer_params_json: Option<String>,
}

impl Default for GenerateComplete {
    fn default() -> (r: Self)
        ensures
            r.output_ids@ == Seq::<u32>::empty(),
            r.index == 0,
            r.prompt_tokens == 0,
            r.completion_tokens == 0,
            r.cached_tokens == 0,
            r.finish_reason@ == Seq::<char>::empty(),
            r.matched_stop is None,
            r.output_logprobs is None,
            r.input_logprobs is None,
            r.kv_transfer_params is None,
            r.kv_transfer_params_json is None,
    {
        GenerateComplete {
            output_ids: Vec::new(),
            index: 0,
            prompt_tokens: 0,
            completion_tokens: 0,
            cached_tokens: 0,
            finish_reason: String::new(),
            matched_stop: None,
            output_logprobs: None,
            input_logprobs: None,
            kv_transfer_params: None,
            kv_transfer_params_json: None,
        }
    }
}

/// What a response holds.
pub enum Response {
    Chunk(GenerateStreamChunk),
    Complete(GenerateComplete),
}

/// One message of a generation.
pub struct GenerateResponse {
    pub response: Option<Response>,
}

/// A request for an embedding.
pub struct EmbedRequest {
    pub request_id: String,
}

/// An embedding.
pub struct EmbedResponse {
    pub embedding: Vec<u32>,
    pub prompt_tokens: u32,
    pub embedding_dim: u32,
}

} // verus!
