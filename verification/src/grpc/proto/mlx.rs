//! Messages of MLX.

use crate::grpc::proto::common::OutputLogProbs;
use vstd::prelude::*;

verus! {

/// How tokens are sampled.
#[derive(Debug, Clone, Copy, PartialEq, Eq, Structural)]
pub struct SamplingParams {
    pub temperature: Option<u32>,
    pub top_p: u32,
    pub top_k: u32,
    pub min_p: u32,
    pub repetition_penalty: u32,
}

/// A request for a generation.
pub struct GenerateRequest {
    pub request_id: String,
    pub stream: bool,
    pub sampling_params: Option<SamplingParams>,
}

impl Default for GenerateRequest {
    fn default() -> (r: Self)
        ensures
            r.request_id@ == Seq::<char>::empty(),
            !r.stream,
            r.sampling_params is None,
    {
        GenerateRequest {
            request_id: String::new(),
            stream: false,
            sampling_params: None,
        }
    }
}

/// Part of a generation.
pub struct GenerateStreamChunk {
    pub token_ids: Vec<u32>,
    pub index: u32,
    pub prompt_tokens: u32,
    pub completion_tokens: u32,
    pub cached_tokens: u32,
    pub output_logprobs: Option<OutputLogProbs>,
}

/// The end of a generation.
pub struct GenerateComplete {
    pub output_ids: Vec<u32>,
    pub index: u32,
    pub prompt_tokens: u32,
    pub completion_tokens: u32,
    pub cached_tokens: u32,
    pub finish_reason: String,
    pub matched_stop_token_id: Option<u32>,
    pub output_logprobs: Option<OutputLogProbs>,
}

/// What a response holds.
pub enum Response {
    Chunk(GenerateStreamChunk),
    Complete(GenerateComplete),
}

/// One message of a generation.
pub struct GenerateResponse {
    pub response: Option<Response>,
}

} // verus!
