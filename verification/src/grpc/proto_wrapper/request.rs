//! Requests to any backend.

use crate::grpc::proto::common::opt_text;
use crate::grpc::proto::{mlx, sglang, tokenspeed, trtllm, vllm};
use crate::text::texts;
use vstd::prelude::*;

verus! {

/// The kinds of backend.
#[derive(Debug, Clone, Copy, PartialEq, Eq, Structural)]
pub enum Engine {
    Sglang,
    Vllm,
    Trtllm,
    Mlx,
    TokenSpeed,
}

/// The name of a backend, as people write it.
pub open spec fn backend_text(engine: Engine) -> Seq<char> {
    match engine {
        Engine::Sglang => "SGLang"@,
        Engine::Vllm => "vLLM"@,
        Engine::Trtllm => "TRT-LLM"@,
        Engine::Mlx => "MLX"@,
        Engine::TokenSpeed => "TokenSpeed"@,
    }
}

pub fn backend_name(engine: Engine) -> (r: &'static str)
    ensures
        r@ == backend_text(engine),
{
    match engine {
        Engine::Sglang => "SGLang",
        Engine::Vllm => "vLLM",
        Engine::Trtllm => "TRT-LLM",
        Engine::Mlx => "MLX",
        Engine::TokenSpeed => "TokenSpeed",
    }
}

/// Encode->prefill bootstrap info for one multimodal item, for any backend.
#[derive(Debug, Clone, PartialEq, Eq)]
pub struct EncodeItemBootstrapInfo {
    pub item_index: u32,
    pub bootstrap_host: String,
    pub bootstrap_port: i32,
    pub bootstrap_room: i64,
}

/// Where two workers meet: host, port and room.
pub type Rendezvous = (Seq<char>, i32, i64);

/// How tokens are sampled, for any backend. A number that the backend always
/// has is always there.
pub struct SamplingText {
    pub temperature: Option<u32>,
    pub top_p: Option<u32>,
    pub top_k: Option<int>,
    pub min_p: Option<u32>,
    pub repetition_penalty: Option<u32>,
    pub max_tokens: Option<u32>,
    pub min_tokens: u32,
    pub n: u32,
    pub stop: Seq<Seq<char>>,
    pub stop_token_ids: Seq<u32>,
    pub ignore_eos: bool,
}

/// What a request says, for any backend. What a backend does not know is not
/// there.
pub struct RequestText {
    pub engine: Engine,
    pub request_id: Seq<char>,
    pub stream: bool,
    pub data_parallel_rank: Option<i32>,
    pub sampling: Option<SamplingText>,
    pub sglang_media: Option<sglang::MultimodalInputs>,
    pub vllm_media: Option<vllm::MultimodalInputs>,
    pub tokenspeed_media: Option<Seq<tokenspeed::MultimodalItem>>,
    pub kv_transfer_params: Option<(Seq<char>, u32)>,
    pub kv_transfer_params_json: Option<Seq<char>>,
    pub disaggregated: Option<(Seq<char>, i32, i32)>,
    pub encode_bootstrap: Option<Seq<(u32, Rendezvous)>>,
    pub kv_bootstrap: Option<Rendezvous>,
}

/// A request that says nothing but its engine, id and stream mode.
pub open spec fn plain_request(engine: Engine, request_id: Seq<char>, stream: bool) -> RequestText {
    RequestText {
        engine,
        request_id,
        stream,
        data_parallel_rank: None,
        sampling: None,
        sglang_media: None,
        vllm_media: None,
        tokenspeed_media: None,
        kv_transfer_params: None,
        kv_transfer_params_json: None,
        disaggregated: None,
        encode_bootstrap: None,
        kv_bootstrap: None,
    }
}

/// The sampling of a backend that knows only the five numbers.
pub open spec fn five_numbers(
    temperature: Option<u32>,
    top_p: Option<u32>,
    top_k: Option<int>,
    min_p: Option<u32>,
    repetition_penalty: Option<u32>,
) -> SamplingText {
    SamplingText {
        temperature,
        top_p,
        top_k,
        min_p,
        repetition_penalty,
        max_tokens: None,
        min_tokens: 0,
        n: 0,
        stop: Seq::empty(),
        stop_token_ids: Seq::empty(),
        ignore_eos: false,
    }
}

impl View for sglang::SamplingParams {
    type V = SamplingText;

    open spec fn view(&self) -> SamplingText {
        five_numbers(
            Some(self.temperature),
            Some(self.top_p),
            Some(self.top_k as int),
            Some(self.min_p),
            Some(self.repetition_penalty),
        )
    }
}

impl View for mlx::SamplingParams {
    type V = SamplingText;

    open spec fn view(&self) -> SamplingText {
        five_numbers(
            self.temperature,
            Some(self.top_p),
            Some(self.top_k as int),
            Some(self.min_p),
            Some(self.repetition_penalty),
        )
    }
}

impl View for tokenspeed::SamplingParams {
    type V = SamplingText;

    open spec fn view(&self) -> SamplingText {
        five_numbers(
            self.temperature,
            self.top_p,
            match self.top_k {
                Some(k) => Some(k as int),
                None => None,
            },
            self.min_p,
            self.repetition_penalty,
        )
    }
}

impl View for vllm::SamplingParams {
    type V = SamplingText;

    open spec fn view(&self) -> SamplingText {
        SamplingText {
            temperature: self.temperature,
            top_p: Some(self.top_p),
            top_k: Some(self.top_k as int),
            min_p: Some(self.min_p),
            repetition_penalty: Some(self.repetition_penalty),
            max_tokens: self.max_tokens,
            min_tokens: self.min_tokens,
            n: self.n,
            stop: texts(self.stop@),
            stop_token_ids: self.stop_token_ids@,
            ignore_eos: self.ignore_eos,
        }
    }
}

/// What encode bootstrap info says.
pub open spec fn encode_text(v: Seq<EncodeItemBootstrapInfo>) -> Seq<(u32, Rendezvous)> {
    v.map_values(
        |i: EncodeItemBootstrapInfo|
            (i.item_index, (i.bootstrap_host@, i.bootstrap_port, i.bootstrap_room)),
    )
}

/// What encode bootstrap info says, as TokenSpeed has it.
pub open spec fn tokenspeed_encode_text(
    v: Seq<tokenspeed::EncodeItemBootstrapInfo>,
) -> Seq<(u32, Rendezvous)> {
    v.map_values(
        |i: tokenspeed::EncodeItemBootstrapInfo|
            (i.item_index, (i.bootstrap_host@, i.bootstrap_port, i.bootstrap_room)),
    )
}

impl View for sglang::GenerateRequest {
    type V = RequestText;

    open spec fn view(&self) -> RequestText {
        RequestText {
            data_parallel_rank: Some(self.data_parallel_rank),
            sampling: match self.sampling_params {
                Some(p) => Some(p@),
                None => None,
            },
            sglang_media: self.mm_inputs,
            disaggregated: match self.disaggregated_params {
                Some(d) => Some((d.bootstrap_host@, d.bootstrap_port, d.bootstrap_room)),
                None => None,
            },
            ..plain_request(Engine::Sglang, self.request_id@, self.stream)
        }
    }
}

impl View for vllm::GenerateRequest {
    type V = RequestText;

    open spec fn view(&self) -> RequestText {
        RequestText {
            data_parallel_rank: self.data_parallel_rank,
            sampling: match self.sampling_params {
                Some(p) => Some(p@),
                None => None,
            },
            vllm_media: self.mm_inputs,
            kv_transfer_params: match self.kv_transfer_params {
                Some(p) => Some((p.remote_host@, p.remote_port)),
                None => None,
            },
            kv_transfer_params_json: opt_text(self.kv_transfer_params_json),
            ..plain_request(Engine::Vllm, self.request_id@, self.stream)
        }
    }
}

impl View for trtllm::GenerateRequest {
    type V = RequestText;

    open spec fn view(&self) -> RequestText {
        plain_request(Engine::Trtllm, self.request_id@, self.streaming)
    }
}

impl View for mlx::GenerateRequest {
    type V = RequestText;

    open spec fn view(&self) -> RequestText {
        RequestText {
            sampling: match self.sampling_params {
                Some(p) => Some(p@),
                None => None,
            },
            ..plain_request(Engine::Mlx, self.request_id@, self.stream)
        }
    }
}

impl View for tokenspeed::GenerateRequest {
    type V = RequestText;

    open spec fn view(&self) -> RequestText {
        RequestText {
            sampling: match self.sampling_params {
                Some(p) => Some(p@),
                None => None,
            },
            tokenspeed_media: match self.mm_inputs {
                Some(m) => Some(m.items@),
                None => None,
            },
            encode_bootstrap: match self.encode_bootstrap_info {
                Some(v) => Some(tokenspeed_encode_text(v@)),
                None => None,
            },
            kv_bootstrap: match self.kv_bootstrap_info {
                Some(k) => Some((k.bootstrap_host@, k.bootstrap_port, k.bootstrap_room)),
                None => None,
            },
            ..plain_request(Engine::TokenSpeed, self.request_id@, self.stream)
        }
    }
}

/// Unified GenerateRequest that works with all backends
pub enum ProtoGenerateRequest {
    Sglang(Box<sglang::GenerateRequest>),
    Vllm(Box<vllm::GenerateRequest>),
    Trtllm(Box<trtllm::GenerateRequest>),
    Mlx(Box<mlx::GenerateRequest>),
    TokenSpeed(Box<tokenspeed::GenerateRequest>),
}

impl View for ProtoGenerateRequest {
    type V = RequestText;

    open spec fn view(&self) -> RequestText {
        match *self {
            ProtoGenerateRequest::Sglang(r) => r@,
            ProtoGenerateRequest::Vllm(r) => r@,
            ProtoGenerateRequest::Trtllm(r) => r@,
            ProtoGenerateRequest::Mlx(r) => r@,
            ProtoGenerateRequest::TokenSpeed(r) => r@,
        }
    }
}

/// `items` without their encoder inputs.
pub open spec fn without_pixels(
    items: Seq<tokenspeed::MultimodalItem>,
) -> Seq<tokenspeed::MultimodalItem> {
    items.map_values(
        |i: tokenspeed::MultimodalItem|
            tokenspeed::MultimodalItem { encoder_input: None, ..i },
    )
}

/// The sampling of a prefill-only leg.
pub open spec fn prefill_sampling(s: SamplingText, max_tokens: u32) -> SamplingText {
    SamplingText {
        max_tokens: Some(max_tokens),
        min_tokens: 0,
        n: 1,
        stop: Seq::empty(),
        stop_token_ids: Seq::empty(),
        ignore_eos: true,
        ..s
    }
}

/// vLLM's sampling where none is set.
pub open spec fn unset_vllm_sampling() -> SamplingText {
    five_numbers(None, Some(0), Some(0), Some(0), Some(0))
}

pub(crate) fn copy_opt(s: &Option<String>) -> (r: Option<String>)
    ensures
        r == *s,
{
    match s {
        Some(s) => Some(s.clone()),
        None => None,
    }
}

fn copy_vllm_sampling(p: &vllm::SamplingParams) -> (r: vllm::SamplingParams)
    ensures
        r@ == p@,
{
    let stop = p.stop.clone();
    let stop_token_ids = p.stop_token_ids.clone();
    assert(stop@ =~= p.stop@);
    assert(stop_token_ids@ =~= p.stop_token_ids@);
    vllm::SamplingParams {
        temperature: p.temperature,
        top_p: p.top_p,
        top_k: p.top_k,
        min_p: p.min_p,
        repetition_penalty: p.repetition_penalty,
        max_tokens: p.max_tokens,
        min_tokens: p.min_tokens,
        n: p.n,
        stop,
        stop_token_ids,
        ignore_eos: p.ignore_eos,
    }
}

fn copy_items(v: &Vec<tokenspeed::MultimodalItem>) -> (r: Vec<tokenspeed::MultimodalItem>)
    ensures
        r@ == v@,
{
    let mut r: Vec<tokenspeed::MultimodalItem> = Vec::new();
    let mut i: usize = 0;
    while i < v.len()
        invariant
            i <= v@.len(),
            r@ =~= v@.take(i as int),
        decreases v@.len() - i,
    {
        r.push(v[i].copy());
        i += 1;
    }
    r
}

fn copy_encode_info(v: &Vec<tokenspeed::EncodeItemBootstrapInfo>) -> (r: Vec<
    tokenspeed::EncodeItemBootstrapInfo,
>)
    ensures
        r@ == v@,
{
    let mut r: Vec<tokenspeed::EncodeItemBootstrapInfo> = Vec::new();
    let mut i: usize = 0;
    while i < v.len()
        invariant
            i <= v@.len(),
            r@ =~= v@.take(i as int),
        decreases v@.len() - i,
    {
        r.push(
            tokenspeed::EncodeItemBootstrapInfo {
                item_index: v[i].item_index,
                bootstrap_host: v[i].bootstrap_host.clone(),
                bootstrap_port: v[i].bootstrap_port,
                bootstrap_room: v[i].bootstrap_room,
            },
        );
        i += 1;
    }
    r
}

impl ProtoGenerateRequest {
    /// Get SGLang variant
    pub fn as_sglang(&self) -> (r: &sglang::GenerateRequest)
        requires
            *self is Sglang,
        ensures
            self->Sglang_0 == *r,
    {
        match self {
            ProtoGenerateRequest::Sglang(req) => req,
            _ => {
                assert(false);
                vstd::pervasive::unreached()
            },
        }
    }

    /// Get vLLM variant
    pub fn as_vllm(&self) -> (r: &vllm::GenerateRequest)
        requires
            *self is Vllm,
        ensures
            self->Vllm_0 == *r,
    {
        match self {
            ProtoGenerateRequest::Vllm(req) => req,
            _ => {
                assert(false);
                vstd::pervasive::unreached()
            },
        }
    }

    /// Get TensorRT-LLM variant
    pub fn as_trtllm(&self) -> (r: &trtllm::GenerateRequest)
        requires
            *self is Trtllm,
        ensures
            self->Trtllm_0 == *r,
    {
        match self {
            ProtoGenerateRequest::Trtllm(req) => req,
            _ => {
                assert(false);
                vstd::pervasive::unreached()
            },
        }
    }

    /// Get TokenSpeed variant
    pub fn as_tokenspeed(&self) -> (r: &tokenspeed::GenerateRequest)
        requires
            *self is TokenSpeed,
        ensures
            self->TokenSpeed_0 == *r,
    {
        match self {
            ProtoGenerateRequest::TokenSpeed(req) => req,
            _ => {
                assert(false);
                vstd::pervasive::unreached()
            },
        }
    }

    /// Get mutable SGLang variant
    pub fn as_sglang_mut(&mut self) -> (r: &mut sglang::GenerateRequest)
        requires
            *old(self) is Sglang,
        ensures
            *r == *old(self)->Sglang_0,
            *final(self) is Sglang,
            *final(self)->Sglang_0 == *final(r),
    {
        match self {
            ProtoGenerateRequest::Sglang(req) => req,
            _ => {
                assert(false);
                vstd::pervasive::unreached()
            },
        }
    }

    /// Get mutable vLLM variant
    pub fn as_vllm_mut(&mut self) -> (r: &mut vllm::GenerateRequest)
        requires
            *old(self) is Vllm,
        ensures
            *r == *old(self)->Vllm_0,
            *final(self) is Vllm,
            *final(self)->Vllm_0 == *final(r),
    {
        match self {
            ProtoGenerateRequest::Vllm(req) => req,
            _ => {
                assert(false);
                vstd::pervasive::unreached()
            },
        }
    }

    /// Get mutable TensorRT-LLM variant
    pub fn as_trtllm_mut(&mut self) -> (r: &mut trtllm::GenerateRequest)
        requires
            *old(self) is Trtllm,
        ensures
            *r == *old(self)->Trtllm_0,
            *final(self) is Trtllm,
            *final(self)->Trtllm_0 == *final(r),
    {
        match self {
            ProtoGenerateRequest::Trtllm(req) => req,
            _ => {
                assert(false);
                vstd::pervasive::unreached()
            },
        }
    }

    /// Get mutable TokenSpeed variant
    pub fn as_tokenspeed_mut(&mut self) -> (r: &mut tokenspeed::GenerateRequest)
        requires
            *old(self) is TokenSpeed,
        ensures
            *r == *old(self)->TokenSpeed_0,
            *final(self) is TokenSpeed,
            *final(self)->TokenSpeed_0 == *final(r),
    {
        match self {
            ProtoGenerateRequest::TokenSpeed(req) => req,
            _ => {
                assert(false);
                vstd::pervasive::unreached()
            },
        }
    }

    /// Check if this is SGLang
    pub fn is_sglang(&self) -> (r: bool)
        ensures
            r == (self@.engine == Engine::Sglang),
    {
        matches!(self, ProtoGenerateRequest::Sglang(_))
    }

    /// Check if this is vLLM
    pub fn is_vllm(&self) -> (r: bool)
        ensures
            r == (self@.engine == Engine::Vllm),
    {
        matches!(self, ProtoGenerateRequest::Vllm(_))
    }

    /// Check if this is TensorRT-LLM
    pub fn is_trtllm(&self) -> (r: bool)
        ensures
            r == (self@.engine == Engine::Trtllm),
    {
        matches!(self, ProtoGenerateRequest::Trtllm(_))
    }

    /// Check if this is TokenSpeed
    pub fn is_tokenspeed(&self) -> (r: bool)
        ensures
            r == (self@.engine == Engine::TokenSpeed),
    {
        matches!(self, ProtoGenerateRequest::TokenSpeed(_))
    }

    /// Sanitize sampling params for the prefill-only leg (vLLM only).
    /// `max_tokens=1` computes the cache without generating; `min_tokens` is
    /// cleared so that the engine accepts it; `n=1` so that the prefill returns a
    /// single handoff. Stop criteria are cleared and the end of text is ignored
    /// so that the leg always finishes length-capped.
    pub fn sanitize_sampling_for_prefill(&mut self, max_tokens: u32)
        ensures
            final(self)@ == if old(self)@.engine == Engine::Vllm {
                (RequestText {
                    sampling: Some(
                        prefill_sampling(
                            match old(self)@.sampling {
                                Some(s) => s,
                                None => unset_vllm_sampling(),
                            },
                            max_tokens,
                        ),
                    ),
                    ..old(self)@
                })
            } else {
                old(self)@
            },
    {
        if let ProtoGenerateRequest::Vllm(req) = self {
            let mut params = match req.sampling_params.take() {
                Some(p) => p,
                None => {
                    let p = vllm::SamplingParams::default();
                    assert(texts(p.stop@) =~= Seq::<Seq<char>>::empty());
                    p
                },
            };
            params.max_tokens = Some(max_tokens);
            params.min_tokens = 0;
            params.n = 1;
            params.stop = Vec::new();
            params.stop_token_ids = Vec::new();
            params.ignore_eos = true;
            assert(texts(params.stop@) =~= Seq::<Seq<char>>::empty());
            assert(params.stop_token_ids@ =~= Seq::<u32>::empty());
            req.sampling_params = Some(params);
        }
    }

    /// Set stream mode on the request.
    pub fn set_stream(&mut self, stream: bool)
        ensures
            final(self)@ == (RequestText { stream, ..old(self)@ }),
    {
        match self {
            ProtoGenerateRequest::Vllm(req) => {
                req.stream = stream;
            },
            ProtoGenerateRequest::Sglang(req) => {
                req.stream = stream;
            },
            ProtoGenerateRequest::Trtllm(req) => {
                req.streaming = stream;
            },
            ProtoGenerateRequest::Mlx(req) => {
                req.stream = stream;
            },
            ProtoGenerateRequest::TokenSpeed(req) => {
                req.stream = stream;
            },
        }
    }

    /// A request of its own that says the same.
    pub fn clone_inner(&self) -> (r: Self)
        ensures
            r@ == self@,
    {
        match self {
            ProtoGenerateRequest::Sglang(req) => ProtoGenerateRequest::Sglang(
                Box::new(
                    sglang::GenerateRequest {
                        request_id: req.request_id.clone(),
                        stream: req.stream,
                        data_parallel_rank: req.data_parallel_rank,
                        sampling_params: req.sampling_params,
                        mm_inputs: match &req.mm_inputs {
                            Some(m) => Some(m.copy()),
                            None => None,
                        },
                        disaggregated_params: match &req.disaggregated_params {
                            Some(d) => Some(
                                sglang::DisaggregatedParams {
                                    bootstrap_host: d.bootstrap_host.clone(),
                                    bootstrap_port: d.bootstrap_port,
                                    bootstrap_room: d.bootstrap_room,
                                },
                            ),
                            None => None,
                        },
                    },
                ),
            ),
            ProtoGenerateRequest::Vllm(req) => ProtoGenerateRequest::Vllm(
                Box::new(
                    vllm::GenerateRequest {
                        request_id: req.request_id.clone(),
                        stream: req.stream,
                        data_parallel_rank: req.data_parallel_rank,
                        sampling_params: match &req.sampling_params {
                            Some(p) => Some(copy_vllm_sampling(p)),
                            None => None,
                        },
                        mm_inputs: match &req.mm_inputs {
                            Some(m) => Some(m.copy()),
                            None => None,
                        },
                        kv_transfer_params: match &req.kv_transfer_params {
                            Some(p) => Some(
                                vllm::KvTransferParams {
                                    remote_host: p.remote_host.clone(),
                                    remote_port: p.remote_port,
                                },
                            ),
                            None => None,
                        },
                        kv_transfer_params_json: copy_opt(&req.kv_transfer_params_json),
                    },
                ),
            ),
            ProtoGenerateRequest::Trtllm(req) => ProtoGenerateRequest::Trtllm(
                Box::new(
                    trtllm::GenerateRequest {
                        request_id: req.request_id.clone(),
                        streaming: req.streaming,
                    },
                ),
            ),
            ProtoGenerateRequest::Mlx(req) => ProtoGenerateRequest::Mlx(
                Box::new(
                    mlx::GenerateRequest {
                        request_id: req.request_id.clone(),
                        stream: req.stream,
                        sampling_params: req.sampling_params,
                    },
                ),
            ),
            ProtoGenerateRequest::TokenSpeed(req) => ProtoGenerateRequest::TokenSpeed(
                Box::new(
                    tokenspeed::GenerateRequest {
                        request_id: req.request_id.clone(),
                        stream: req.stream,
                        sampling_params: req.sampling_params,
                        mm_inputs: match &req.mm_inputs {
                            Some(m) => Some(
                                tokenspeed::MultimodalInputs { items: copy_items(&m.items) },
                            ),
                            None => None,
                        },
                        encode_bootstrap_info: match &req.encode_bootstrap_info {
                            Some(v) => Some(copy_encode_info(v)),
                            None => None,
                        },
                        kv_bootstrap_info: match &req.kv_bootstrap_info {
                            Some(k) => Some(
                                tokenspeed::KvBootstrapInfo {
                                    bootstrap_host: k.bootstrap_host.clone(),
                                    bootstrap_port: k.bootstrap_port,
                                    bootstrap_room: k.bootstrap_room,
                                },
                            ),
                            None => None,
                        },
                    },
                ),
            ),
        }
    }

    /// Drop raw multimodal encoder tensors while keeping item metadata:
    /// embeddings arrive from encode workers, but prefill still needs the
    /// placeholders and the model-specific tensors to slot them.
    pub fn clear_mm_pixel_values(&mut self)
        ensures
            final(self)@ == (RequestText {
                sglang_media: match old(self)@.sglang_media {
                    Some(m) => Some(sglang::MultimodalInputs { pixel_values: None, ..m }),
                    None => None,
                },
                vllm_media: match old(self)@.vllm_media {
                    Some(m) => Some(vllm::MultimodalInputs { pixel_values: None, ..m }),
                    None => None,
                },
                tokenspeed_media: match old(self)@.tokenspeed_media {
                    Some(items) => Some(without_pixels(items)),
                    None => None,
                },
                ..old(self)@
            }),
    {
        match self {
            ProtoGenerateRequest::Sglang(req) => {
                if let Some(mm) = req.mm_inputs.take() {
                    let mut mm = mm;
                    mm.pixel_values = None;
                    req.mm_inputs = Some(mm);
                }
            },
            ProtoGenerateRequest::Vllm(req) => {
                if let Some(mm) = req.mm_inputs.take() {
                    let mut mm = mm;
                    mm.pixel_values = None;
                    req.mm_inputs = Some(mm);
                }
            },
            ProtoGenerateRequest::TokenSpeed(req) => {
                if let Some(mm) = req.mm_inputs.take() {
                    let mut items: Vec<tokenspeed::MultimodalItem> = Vec::new();
                    let mut i: usize = 0;
                    while i < mm.items.len()
                        invariant
                            i <= mm.items@.len(),
                            items@ =~= without_pixels(mm.items@.take(i as int)),
                        decreases mm.items@.len() - i,
                    {
                        let mut item = mm.items[i].copy();
                        item.encoder_input = None;
                        items.push(item);
                        i += 1;
                    }
                    assert(mm.items@.take(mm.items@.len() as int) =~= mm.items@);
                    req.mm_inputs = Some(tokenspeed::MultimodalInputs { items });
                }
            },
            ProtoGenerateRequest::Trtllm(_) => {},
            ProtoGenerateRequest::Mlx(_) => {},
        }
    }

    /// Drop all multimodal data.
    pub fn clear_mm_inputs(&mut self)
        ensures
            final(self)@ == (RequestText {
                sglang_media: None,
                vllm_media: None,
                tokenspeed_media: None,
                ..old(self)@
            }),
    {
        match self {
            ProtoGenerateRequest::Sglang(req) => {
                req.mm_inputs = None;
            },
            ProtoGenerateRequest::Vllm(req) => {
                req.mm_inputs = None;
            },
            ProtoGenerateRequest::TokenSpeed(req) => {
                req.mm_inputs = None;
            },
            ProtoGenerateRequest::Trtllm(_) => {},
            ProtoGenerateRequest::Mlx(_) => {},
        }
    }

    /// Get request ID
    pub fn request_id(&self) -> (r: &str)
        ensures
            r@ == self@.request_id,
    {
        match self {
            ProtoGenerateRequest::Sglang(req) => req.request_id.as_str(),
            ProtoGenerateRequest::Vllm(req) => req.request_id.as_str(),
            ProtoGenerateRequest::Trtllm(req) => req.request_id.as_str(),
            ProtoGenerateRequest::Mlx(req) => req.request_id.as_str(),
            ProtoGenerateRequest::TokenSpeed(req) => req.request_id.as_str(),
        }
    }

    /// Tell the decode worker where to fetch the cache from (vLLM only).
    pub fn set_kv_transfer_params(&mut self, remote_host: String, remote_port: u32)
        ensures
            final(self)@ == if old(self)@.engine == Engine::Vllm {
                (RequestText {
                    kv_transfer_params: Some((remote_host@, remote_port)),
                    ..old(self)@
                })
            } else {
                old(self)@
            },
    {
        if let ProtoGenerateRequest::Vllm(req) = self {
            req.kv_transfer_params = Some(vllm::KvTransferParams { remote_host, remote_port });
        }
    }

    /// Pin the request to a data-parallel rank (engines without the field ignore it).
    pub fn set_data_parallel_rank(&mut self, rank: i32)
        ensures
            final(self)@ == if old(self)@.engine == Engine::Vllm || old(self)@.engine
                == Engine::Sglang {
                (RequestText { data_parallel_rank: Some(rank), ..old(self)@ })
            } else {
                old(self)@
            },
    {
        match self {
            ProtoGenerateRequest::Vllm(req) => {
                req.data_parallel_rank = Some(rank);
            },
            ProtoGenerateRequest::Sglang(req) => {
                req.data_parallel_rank = rank;
            },
            _ => {},
        }
    }

    /// Number of parallel samples requested (vLLM only; 1 when unset).
    pub fn sampling_n(&self) -> (r: u32)
        ensures
            r == requested_samples(self@),
    {
        match self {
            ProtoGenerateRequest::Vllm(req) => match &req.sampling_params {
                Some(p) => if p.n > 0 {
                    p.n
                } else {
                    1
                },
                None => 1,
            },
            _ => 1,
        }
    }

    /// Set opaque connector handoff params as JSON (vLLM only).
    pub fn set_kv_transfer_params_json(&mut self, json: String)
        ensures
            final(self)@ == if old(self)@.engine == Engine::Vllm {
                (RequestText { kv_transfer_params_json: Some(json@), ..old(self)@ })
            } else {
                old(self)@
            },
    {
        if let ProtoGenerateRequest::Vllm(req) = self {
            req.kv_transfer_params_json = Some(json);
        }
    }

    /// Set encode->prefill bootstrap info for backends that receive embeddings
    /// out-of-band from encode workers (TokenSpeed only).
    pub fn set_encode_bootstrap_info(&mut self, items: &Vec<EncodeItemBootstrapInfo>)
        ensures
            final(self)@ == if old(self)@.engine == Engine::TokenSpeed {
                (RequestText { encode_bootstrap: Some(encode_text(items@)), ..old(self)@ })
            } else {
                old(self)@
            },
    {
        if let ProtoGenerateRequest::TokenSpeed(req) = self {
            let mut out: Vec<tokenspeed::EncodeItemBootstrapInfo> = Vec::new();
            let mut i: usize = 0;
            while i < items.len()
                invariant
                    i <= items@.len(),
                    tokenspeed_encode_text(out@) =~= encode_text(items@.take(i as int)),
                decreases items@.len() - i,
            {
                let ghost before = out@;
                out.push(
                    tokenspeed::EncodeItemBootstrapInfo {
                        item_index: items[i].item_index,
                        bootstrap_host: items[i].bootstrap_host.clone(),
                        bootstrap_port: items[i].bootstrap_port,
                        bootstrap_room: items[i].bootstrap_room,
                    },
                );
                proof {
                    let x = items@[i as int];
                    let t = (x.item_index, (x.bootstrap_host@, x.bootstrap_port, x.bootstrap_room));
                    assert(tokenspeed_encode_text(out@) =~= tokenspeed_encode_text(before).push(t));
                    assert(encode_text(items@.take(i + 1)) =~= encode_text(
                        items@.take(i as int),
                    ).push(t));
                }
                i += 1;
            }
            assert(items@.take(items@.len() as int) =~= items@);
            req.encode_bootstrap_info = Some(out);
        }
    }

    /// Clear prefill-only encode bootstrap info from the decode-side request.
    pub fn clear_encode_bootstrap_info(&mut self)
        ensures
            final(self)@ == (RequestText { encode_bootstrap: None, ..old(self)@ }),
    {
        if let ProtoGenerateRequest::TokenSpeed(req) = self {
            req.encode_bootstrap_info = None;
        }
    }

    /// Set the prefill->decode rendezvous (TokenSpeed only). Both workers get
    /// the same: the prefill worker hosts the server, the decode worker finds it
    /// there by its room.
    pub fn set_kv_bootstrap_info(
        &mut self,
        bootstrap_host: String,
        bootstrap_port: i32,
        bootstrap_room: i64,
    )
        ensures
            final(self)@ == if old(self)@.engine == Engine::TokenSpeed {
                (RequestText {
                    kv_bootstrap: Some((bootstrap_host@, bootstrap_port, bootstrap_room)),
                    ..old(self)@
                })
            } else {
                old(self)@
            },
    {
        if let ProtoGenerateRequest::TokenSpeed(req) = self {
            req.kv_bootstrap_info = Some(
                tokenspeed::KvBootstrapInfo { bootstrap_host, bootstrap_port, bootstrap_room },
            );
        }
    }
}

/// How many parallel samples a request asks for.
pub open spec fn requested_samples(r: RequestText) -> u32 {
    match r.sampling {
        Some(s) => if r.engine == Engine::Vllm && s.n > 0 {
            s.n
        } else {
            1
        },
        None => 1,
    }
}

/// Unified EmbedRequest
pub enum ProtoEmbedRequest {
    Sglang(Box<sglang::EmbedRequest>),
    Vllm(Box<vllm::EmbedRequest>),
}

impl View for ProtoEmbedRequest {
    type V = (Engine, Seq<char>);

    open spec fn view(&self) -> (Engine, Seq<char>) {
        match *self {
            ProtoEmbedRequest::Sglang(r) => (Engine::Sglang, r.request_id@),
            ProtoEmbedRequest::Vllm(r) => (Engine::Vllm, r.request_id@),
        }
    }
}

impl ProtoEmbedRequest {
    /// Get SGLang variant
    pub fn as_sglang(&self) -> (r: &sglang::EmbedRequest)
        requires
            *self is Sglang,
        ensures
            self->Sglang_0 == *r,
    {
        match self {
            ProtoEmbedRequest::Sglang(req) => req,
            ProtoEmbedRequest::Vllm(_) => {
                assert(false);
                vstd::pervasive::unreached()
            },
        }
    }

    /// Get mutable SGLang variant
    pub fn as_sglang_mut(&mut self) -> (r: &mut sglang::EmbedRequest)
        requires
            *old(self) is Sglang,
        ensures
            *r == *old(self)->Sglang_0,
            *final(self) is Sglang,
            *final(self)->Sglang_0 == *final(r),
    {
        match self {
            ProtoEmbedRequest::Sglang(req) => req,
            ProtoEmbedRequest::Vllm(_) => {
                assert(false);
                vstd::pervasive::unreached()
            },
        }
    }

    /// Check if this is SGLang
    pub fn is_sglang(&self) -> (r: bool)
        ensures
            r == (self@.0 == Engine::Sglang),
    {
        matches!(self, ProtoEmbedRequest::Sglang(_))
    }

    /// Check if this is vLLM
    pub fn is_vllm(&self) -> (r: bool)
        ensures
            r == (self@.0 == Engine::Vllm),
    {
        matches!(self, ProtoEmbedRequest::Vllm(_))
    }

    /// A request of its own that says the same.
    pub fn clone_inner(&self) -> (r: Self)
        ensures
            r@ == self@,
    {
        match self {
            ProtoEmbedRequest::Sglang(req) => ProtoEmbedRequest::Sglang(
                Box::new(sglang::EmbedRequest { request_id: req.request_id.clone() }),
            ),
            ProtoEmbedRequest::Vllm(req) => ProtoEmbedRequest::Vllm(
                Box::new(vllm::EmbedRequest { request_id: req.request_id.clone() }),
            ),
        }
    }

    /// Get request ID
    pub fn request_id(&self) -> (r: &str)
        ensures
            r@ == self@.1,
    {
        match self {
            ProtoEmbedRequest::Sglang(req) => req.request_id.as_str(),
            ProtoEmbedRequest::Vllm(req) => req.request_id.as_str(),
        }
    }
}

/// Unified ProtoRequest
pub enum ProtoRequest {
    Generate(ProtoGenerateRequest),
    Embed(ProtoEmbedRequest),
}

impl ProtoRequest {
    /// Get request ID from either variant
    pub fn request_id(&self) -> (r: &str)
        ensures
            r@ == match *self {
                ProtoRequest::Generate(req) => req@.request_id,
                ProtoRequest::Embed(req) => req@.1,
            },
    {
        match self {
            ProtoRequest::Generate(req) => req.request_id(),
            ProtoRequest::Embed(req) => req.request_id(),
        }
    }
}

/// What is said of a request is what the engine gets, field by field.
pub proof fn views_say_what_engines_get(
    s: sglang::GenerateRequest,
    v: vllm::GenerateRequest,
    t: tokenspeed::GenerateRequest,
)
    ensures
        s@.engine == Engine::Sglang && s@.request_id == s.request_id@ && s@.stream == s.stream,
        s@.data_parallel_rank == Some(s.data_parallel_rank),
        s@.sglang_media == s.mm_inputs,
        s@.disaggregated is Some <==> s.disaggregated_params is Some,
        s.disaggregated_params matches Some(d) ==> s@.disaggregated == Some(
            (d.bootstrap_host@, d.bootstrap_port, d.bootstrap_room),
        ),
        s.sampling_params matches Some(p) ==> s@.sampling is Some && s@.sampling->0.temperature
            == Some(p.temperature) && s@.sampling->0.top_p == Some(p.top_p)
            && s@.sampling->0.min_p == Some(p.min_p) && s@.sampling->0.repetition_penalty == Some(
            p.repetition_penalty,
        ) && s@.sampling->0.top_k == Some(p.top_k as int),
        s.sampling_params is None ==> s@.sampling is None,
        v@.engine == Engine::Vllm && v@.request_id == v.request_id@ && v@.stream == v.stream,
        v@.data_parallel_rank == v.data_parallel_rank,
        v@.vllm_media == v.mm_inputs,
        v.kv_transfer_params matches Some(k) ==> v@.kv_transfer_params == Some(
            (k.remote_host@, k.remote_port),
        ),
        v.kv_transfer_params is None ==> v@.kv_transfer_params is None,
        v.kv_transfer_params_json matches Some(j) ==> v@.kv_transfer_params_json == Some(j@),
        v.kv_transfer_params_json is None ==> v@.kv_transfer_params_json is None,
        v.sampling_params matches Some(p) ==> v@.sampling is Some && v@.sampling->0.temperature
            == p.temperature && v@.sampling->0.top_p == Some(p.top_p) && v@.sampling->0.n == p.n
            && v@.sampling->0.max_tokens == p.max_tokens && v@.sampling->0.min_tokens
            == p.min_tokens && v@.sampling->0.ignore_eos == p.ignore_eos
            && v@.sampling->0.stop_token_ids == p.stop_token_ids@ && v@.sampling->0.top_k == Some(
            p.top_k as int,
        ) && v@.sampling->0.min_p == Some(p.min_p) && v@.sampling->0.repetition_penalty == Some(
            p.repetition_penalty,
        ),
        v.sampling_params is None ==> v@.sampling is None,
        t@.engine == Engine::TokenSpeed && t@.request_id == t.request_id@ && t@.stream == t.stream,
        t.mm_inputs matches Some(m) ==> t@.tokenspeed_media == Some(m.items@),
        t.mm_inputs is None ==> t@.tokenspeed_media is None,
        t.kv_bootstrap_info matches Some(k) ==> t@.kv_bootstrap == Some(
            (k.bootstrap_host@, k.bootstrap_port, k.bootstrap_room),
        ),
        t.kv_bootstrap_info is None ==> t@.kv_bootstrap is None,
        t.encode_bootstrap_info is None ==> t@.encode_bootstrap is None,
        t.encode_bootstrap_info matches Some(e) ==> t@.encode_bootstrap is Some
            && t@.encode_bootstrap->0.len() == e@.len() && forall|i: int|
            0 <= i < e@.len() ==> #[trigger] t@.encode_bootstrap->0[i] == (
                e@[i].item_index,
                (e@[i].bootstrap_host@, e@[i].bootstrap_port, e@[i].bootstrap_room),
            ),
        t.sampling_params matches Some(p) ==> t@.sampling is Some && t@.sampling->0.temperature
            == p.temperature && t@.sampling->0.top_p == p.top_p && t@.sampling->0.min_p == p.min_p
            && t@.sampling->0.repetition_penalty == p.repetition_penalty,
{
}

/// Dropping pixels drops nothing else: every item stays, with its placeholders, its
/// tensors and its hash.
pub proof fn items_stay_without_pixels(items: Seq<tokenspeed::MultimodalItem>, i: int)
    requires
        0 <= i < items.len(),
    ensures
        without_pixels(items).len() == items.len(),
        without_pixels(items)[i].encoder_input is None,
        without_pixels(items)[i].placeholders == items[i].placeholders,
        without_pixels(items)[i].model_specific_tensors == items[i].model_specific_tensors,
        without_pixels(items)[i].content_hash == items[i].content_hash,
        without_pixels(items)[i].modality == items[i].modality,
        without_pixels(items)[i].placeholder_token_id == items[i].placeholder_token_id,
{
}

/// One sample is asked for unless vLLM is asked for more.
pub proof fn samples_are_counted(r: RequestText)
    ensures
        requested_samples(r) >= 1,
        r.sampling is None || r.engine != Engine::Vllm ==> requested_samples(r) == 1,
        r.sampling is Some && r.engine == Engine::Vllm && r.sampling->0.n >= 1
            ==> requested_samples(r) == r.sampling->0.n,
{
}

/// Backends are named as people write them.
pub proof fn backends_have_names(engine: Engine)
    ensures
        engine is Sglang ==> backend_text(engine) == "SGLang"@,
        engine is Vllm ==> backend_text(engine) == "vLLM"@,
        engine is Trtllm ==> backend_text(engine) == "TRT-LLM"@,
        engine is Mlx ==> backend_text(engine) == "MLX"@,
        engine is TokenSpeed ==> backend_text(engine) == "TokenSpeed"@,
{
}

/// Encode workers are told of in order, each item with its own host, port and room.
pub proof fn encode_items_are_told_in_order(v: Seq<EncodeItemBootstrapInfo>, i: int)
    requires
        0 <= i < v.len(),
    ensures
        encode_text(v).len() == v.len(),
        encode_text(v)[i].0 == v[i].item_index,
        encode_text(v)[i].1.0 == v[i].bootstrap_host@,
        encode_text(v)[i].1.1 == v[i].bootstrap_port,
        encode_text(v)[i].1.2 == v[i].bootstrap_room,
{
}

} // verus!
