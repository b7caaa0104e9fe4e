//! Messages of TensorRT-LLM.

use crate::grpc::proto::common::MatchedStop;
use vstd::prelude::*;

verus! {

/// One of the likeliest tokens at a position.
#[derive(Debug, Clone, Copy, PartialEq, Eq, Structural)]
pub struct TopLogprob {
    pub logprob: u32,
    pub token_id: u32,
}

/// Log probability of a token.
pub struct TokenLogprob {
    pub logprob: u32,
    pub token_id: u32,
    pub top_logprobs: Vec<TopLogprob>,
}

/// Raw media.
pub struct MultimodalInput {
    pub image_data: Vec<Vec<u8>>,
}

/// A request for a generation.
pub struct GenerateRequest {
    pub request_id: String,
    pub streaming: bool,
}

/// Part of a generation.
pub struct GenerateStreamChunk {
    pub token_ids: Vec<u32>,
    pub sequence_index: u32,
    pub prompt_tokens: u32,
    pub completion_tokens: u32,
    pub cached_tokens: u32,
    pub logprobs: Vec<TokenLogprob>,
}

/// The end of a generation.
pub struct GenerateComplete {
    pub output_token_ids: Vec<u32>,
    pub sequence_index: u32,
    pub prompt_tokens: u32,
    pub completion_tokens: u32,
    pub cached_tokens: u32,
    pub finish_reason: String,
    pub matched_stop: Option<MatchedStop>,
    pub logprobs: Vec<TokenLogprob>,
    pub prompt_logprobs: Vec<TokenLogprob>,
}

/// What a response holds.
pub enum Response {
    Chunk(GenerateStreamChunk),
    Complete(GenerateComplete),
}

/// One message of a generation.
pub struct GenerateResponse {
    pub response: Option<Response>,
}

} // verus!
