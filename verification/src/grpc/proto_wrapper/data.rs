//! Multimodal data as each backend takes it.

use crate::grpc::multimodal::serialize::TensorBytes;
use crate::grpc::proto::common::{Modality, RemoteTensorHandle, ShmHandle};
use vstd::prelude::*;

verus! {

/// Where the bytes of a tensor are.
pub enum TokenSpeedTensorStorage {
    Inline(Vec<u8>),
    Shm(ShmHandle),
    Remote(RemoteTensorHandle),
}

/// TokenSpeed tensor with an explicit payload transport.
pub struct TokenSpeedTensor {
    pub storage: TokenSpeedTensorStorage,
    pub shape: Vec<u32>,
    pub dtype: String,
}

#[derive(Debug, Clone, Copy, PartialEq, Eq, Structural)]
pub enum TokenSpeedModality {
    Image,
    Audio,
    Video,
}

pub struct TokenSpeedMultimodalItem {
    pub modality: TokenSpeedModality,
    pub encoder_input: TokenSpeedTensor,
    pub model_specific_tensors: Vec<(String, TensorBytes)>,
    pub placeholder_token_id: Option<u32>,
    pub mm_placeholders: Vec<(u32, u32)>,
    pub content_hash: Vec<u8>,
}

/// TokenSpeed multimodal data: preprocessed encoder input with patch-only placeholders.
pub struct TokenSpeedMultimodalData {
    pub items: Vec<TokenSpeedMultimodalItem>,
    /// May large multimodal tensors use shared memory?
    pub shm_enabled: bool,
    /// Tensors smaller than this stay inline even then.
    pub shm_min_bytes: usize,
}

/// SGLang multimodal data: preprocessed tensors with patch-only placeholders.
pub struct SglangMultimodalData {
    pub image_data: Vec<Vec<u8>>,
    pub pixel_values: Vec<u8>,
    pub pixel_values_shape: Vec<u32>,
    pub model_specific_tensors: Vec<(String, TensorBytes)>,
    pub im_token_id: Option<u32>,
    /// Patch-only placeholder offsets aligned 1:1 with vision encoder output.
    pub mm_placeholders: Vec<(u32, u32)>,
}

/// vLLM multimodal data: preprocessed tensors with hashing and field layout metadata.
pub struct VllmMultimodalData {
    pub pixel_values: Vec<u8>,
    pub pixel_values_shape: Vec<u32>,
    pub model_specific_tensors: Vec<(String, TensorBytes)>,
    pub im_token_id: Option<u32>,
    /// Full structural placeholder offsets.
    pub mm_placeholders: Vec<(u32, u32)>,
    pub mm_hashes: Vec<String>,
    pub batched_keys: Vec<String>,
    pub flat_keys: Vec<(String, String)>,
    /// Tensor keys that should remain on CPU.
    pub keep_on_cpu_keys: Vec<String>,
    /// Input modality.
    pub modality: Modality,
    pub shm_enabled: bool,
    pub shm_min_bytes: usize,
}

/// TRT-LLM multimodal data: raw image bytes only.
pub struct TrtllmMultimodalData {
    pub image_data: Vec<Vec<u8>>,
}

/// Backend-specific multimodal data produced by the assembly stage.
pub enum MultimodalData {
    Sglang(SglangMultimodalData),
    Vllm(VllmMultimodalData),
    Trtllm(TrtllmMultimodalData),
    TokenSpeed(TokenSpeedMultimodalData),
}

impl TokenSpeedTensor {
    pub fn inline(data: Vec<u8>, shape: Vec<u32>, dtype: String) -> (r: Self)
        ensures
            r.storage == TokenSpeedTensorStorage::Inline(data),
            r.shape == shape,
            r.dtype == dtype,
    {
        TokenSpeedTensor { storage: TokenSpeedTensorStorage::Inline(data), shape, dtype }
    }

    pub fn shm(handle: ShmHandle, shape: Vec<u32>, dtype: String) -> (r: Self)
        ensures
            r.storage == TokenSpeedTensorStorage::Shm(handle),
            r.shape == shape,
            r.dtype == dtype,
    {
        TokenSpeedTensor { storage: TokenSpeedTensorStorage::Shm(handle), shape, dtype }
    }

    pub fn remote(handle: RemoteTensorHandle, shape: Vec<u32>, dtype: String) -> (r: Self)
        ensures
            r.storage == TokenSpeedTensorStorage::Remote(handle),
            r.shape == shape,
            r.dtype == dtype,
    {
        TokenSpeedTensor { storage: TokenSpeedTensorStorage::Remote(handle), shape, dtype }
    }

    /// How many bytes the tensor has, wherever they are.
    pub open spec fn size(&self) -> usize {
        match self.storage {
            TokenSpeedTensorStorage::Inline(data) => data@.len() as usize,
            TokenSpeedTensorStorage::Shm(handle) => handle.nbytes as usize,
            TokenSpeedTensorStorage::Remote(handle) => handle.nbytes as usize,
        }
    }

    pub fn nbytes(&self) -> (r: usize)
        ensures
            r == self.size(),
    {
        match &self.storage {
            TokenSpeedTensorStorage::Inline(data) => data.len(),
            TokenSpeedTensorStorage::Shm(handle) => handle.nbytes as usize,
            TokenSpeedTensorStorage::Remote(handle) => handle.nbytes as usize,
        }
    }
}

} // verus!
