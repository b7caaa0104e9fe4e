//! Responses of any backend.

use crate::grpc::proto::common::{
    input_text, opt_text, output_text, stop_text, top_text, InputLogProbs, InputTokenLogProb,
    LogProbsText, MatchedStop, OutputLogProbs, StopText, TopLogProbs,
};
use crate::grpc::proto::{mlx, sglang, tokenspeed, trtllm, vllm};
use crate::grpc::proto_wrapper::request::Engine;
use crate::outside::{json_string, json_text};
use crate::text::{decimal, decimal_text};
use vstd::prelude::*;

verus! {

/// Unified top logprobs per position
pub type ProtoTopLogProbs = TopLogProbs;

/// Unified output logprobs (backend-agnostic)
pub type ProtoOutputLogProbs = OutputLogProbs;

/// Unified input (prompt) logprobs
pub struct ProtoInputLogProbs {
    /// The first token has none.
    pub token_logprobs: Vec<Option<u32>>,
    pub token_ids: Vec<u32>,
    pub top_logprobs: Vec<ProtoTopLogProbs>,
}

impl View for ProtoInputLogProbs {
    type V = LogProbsText;

    open spec fn view(&self) -> LogProbsText {
        LogProbsText {
            token_logprobs: self.token_logprobs@,
            token_ids: self.token_ids@,
            top_logprobs: top_text(self.top_logprobs@),
        }
    }
}

/// The log probabilities of TensorRT-LLM as values and ids.
pub open spec fn trtllm_top(v: Seq<trtllm::TopLogprob>) -> (Seq<u32>, Seq<u32>) {
    (
        v.map_values(|t: trtllm::TopLogprob| t.logprob),
        v.map_values(|t: trtllm::TopLogprob| t.token_id),
    )
}

/// What the log probabilities of TensorRT-LLM say of generated tokens.
pub open spec fn trtllm_output(v: Seq<trtllm::TokenLogprob>) -> Option<LogProbsText> {
    if v.len() == 0 {
        None
    } else {
        Some(
            LogProbsText {
                token_logprobs: v.map_values(|t: trtllm::TokenLogprob| Some(t.logprob)),
                token_ids: v.map_values(|t: trtllm::TokenLogprob| t.token_id),
                top_logprobs: v.map_values(
                    |t: trtllm::TokenLogprob| trtllm_top(t.top_logprobs@),
                ),
            },
        )
    }
}

/// What the log probabilities of TensorRT-LLM say of prompt tokens: nothing of
/// the first one, which has no context.
pub open spec fn trtllm_input(v: Seq<trtllm::TokenLogprob>) -> Option<LogProbsText> {
    match trtllm_output(v) {
        Some(t) => Some(
            LogProbsText { token_logprobs: t.token_logprobs.update(0, None), ..t },
        ),
        None => None,
    }
}

/// What a part of a generation says, for any backend.
pub struct ChunkText {
    pub engine: Engine,
    pub token_ids: Seq<u32>,
    pub index: u32,
    pub prompt_tokens: u32,
    pub completion_tokens: u32,
    pub cached_tokens: u32,
    pub reasoning_tokens: u32,
    pub output_logprobs: Option<LogProbsText>,
    pub input_logprobs: Option<LogProbsText>,
}

/// What the end of a generation says, for any backend.
pub struct CompleteText {
    pub engine: Engine,
    pub token_ids: Seq<u32>,
    pub index: u32,
    pub prompt_tokens: u32,
    pub completion_tokens: u32,
    pub cached_tokens: u32,
    pub reasoning_tokens: u32,
    pub finish_reason: Seq<char>,
    pub matched_stop: Option<StopText>,
    pub output_logprobs: Option<LogProbsText>,
    pub input_logprobs: Option<LogProbsText>,
    pub kv_transfer_params: Option<(Seq<char>, u32)>,
    pub kv_transfer_params_json: Option<Seq<char>>,
}

/// Unified GenerateStreamChunk
pub enum ProtoGenerateStreamChunk {
    Sglang(sglang::GenerateStreamChunk),
    Vllm(vllm::GenerateStreamChunk),
    Trtllm(trtllm::GenerateStreamChunk),
    Mlx(mlx::GenerateStreamChunk),
    TokenSpeed(tokenspeed::GenerateStreamChunk),
}

/// Unified GenerateComplete response
pub enum ProtoGenerateComplete {
    Sglang(sglang::GenerateComplete),
    Vllm(vllm::GenerateComplete),
    Trtllm(trtllm::GenerateComplete),
    Mlx(mlx::GenerateComplete),
    TokenSpeed(tokenspeed::GenerateComplete),
}

impl View for ProtoGenerateStreamChunk {
    type V = ChunkText;

    open spec fn view(&self) -> ChunkText {
        match *self {
            ProtoGenerateStreamChunk::Sglang(c) => ChunkText {
                engine: Engine::Sglang,
                token_ids: c.token_ids@,
                index: c.index,
                prompt_tokens: c.prompt_tokens,
                completion_tokens: c.completion_tokens,
                cached_tokens: c.cached_tokens,
                reasoning_tokens: c.reasoning_tokens,
                output_logprobs: output_text(c.output_logprobs),
                input_logprobs: input_text(c.input_logprobs),
            },
            ProtoGenerateStreamChunk::Vllm(c) => ChunkText {
                engine: Engine::Vllm,
                token_ids: c.token_ids@,
                index: c.index,
                prompt_tokens: c.prompt_tokens,
                completion_tokens: c.completion_tokens,
                cached_tokens: c.cached_tokens,
                reasoning_tokens: 0,
                output_logprobs: output_text(c.output_logprobs),
                input_logprobs: input_text(c.input_logprobs),
            },
            ProtoGenerateStreamChunk::Trtllm(c) => ChunkText {
                engine: Engine::Trtllm,
                token_ids: c.token_ids@,
                index: c.sequence_index,
                prompt_tokens: c.prompt_tokens,
                completion_tokens: c.completion_tokens,
                cached_tokens: c.cached_tokens,
                reasoning_tokens: 0,
                output_logprobs: trtllm_output(c.logprobs@),
                input_logprobs: None,
            },
            ProtoGenerateStreamChunk::Mlx(c) => ChunkText {
                engine: Engine::Mlx,
                token_ids: c.token_ids@,
                index: c.index,
                prompt_tokens: c.prompt_tokens,
                completion_tokens: c.completion_tokens,
                cached_tokens: c.cached_tokens,
                reasoning_tokens: 0,
                output_logprobs: output_text(c.output_logprobs),
                input_logprobs: None,
            },
            ProtoGenerateStreamChunk::TokenSpeed(c) => ChunkText {
                engine: Engine::TokenSpeed,
                token_ids: c.token_ids@,
                index: c.index,
                prompt_tokens: c.prompt_tokens,
                completion_tokens: c.completion_tokens,
                cached_tokens: c.cached_tokens,
                reasoning_tokens: 0,
                output_logprobs: output_text(c.output_logprobs),
                input_logprobs: None,
            },
        }
    }
}

impl View for ProtoGenerateComplete {
    type V = CompleteText;

    open spec fn view(&self) -> CompleteText {
        match *self {
            ProtoGenerateComplete::Sglang(c) => CompleteText {
                engine: Engine::Sglang,
                token_ids: c.output_ids@,
                index: c.index,
                prompt_tokens: c.prompt_tokens,
                completion_tokens: c.completion_tokens,
                cached_tokens: c.cached_tokens,
                reasoning_tokens: c.reasoning_tokens,
                finish_reason: c.finish_reason@,
                matched_stop: stop_text(c.matched_stop),
                output_logprobs: output_text(c.output_logprobs),
                input_logprobs: input_text(c.input_logprobs),
                kv_transfer_params: None,
                kv_transfer_params_json: None,
            },
            ProtoGenerateComplete::Vllm(c) => CompleteText {
                engine: Engine::Vllm,
                token_ids: c.output_ids@,
                index: c.index,
                prompt_tokens: c.prompt_tokens,
                completion_tokens: c.completion_tokens,
                cached_tokens: c.cached_tokens,
                reasoning_tokens: 0,
                finish_reason: c.finish_reason@,
                matched_stop: stop_text(c.matched_stop),
                output_logprobs: output_text(c.output_logprobs),
                input_logprobs: input_text(c.input_logprobs),
                kv_transfer_params: match c.kv_transfer_params {
                    Some(p) => Some((p.remote_host@, p.remote_port)),
                    None => None,
                },
                kv_transfer_params_json: opt_text(c.kv_transfer_params_json),
            },
            ProtoGenerateComplete::Trtllm(c) => CompleteText {
                engine: Engine::Trtllm,
                token_ids: c.output_token_ids@,
                index: c.sequence_index,
                prompt_tokens: c.prompt_tokens,
                completion_tokens: c.completion_tokens,
                cached_tokens: c.cached_tokens,
                reasoning_tokens: 0,
                finish_reason: c.finish_reason@,
                matched_stop: stop_text(c.matched_stop),
                output_logprobs: trtllm_output(c.logprobs@),
                input_logprobs: trtllm_input(c.prompt_logprobs@),
                kv_transfer_params: None,
                kv_transfer_params_json: None,
            },
            ProtoGenerateComplete::Mlx(c) => CompleteText {
                engine: Engine::Mlx,
                token_ids: c.output_ids@,
                index: c.index,
                prompt_tokens: c.prompt_tokens,
                completion_tokens: c.completion_tokens,
                cached_tokens: c.cached_tokens,
                reasoning_tokens: 0,
                finish_reason: c.finish_reason@,
                matched_stop: match c.matched_stop_token_id {
                    Some(id) => Some(StopText::TokenId(id)),
                    None => None,
                },
                output_logprobs: output_text(c.output_logprobs),
                input_logprobs: None,
                kv_transfer_params: None,
                kv_transfer_params_json: None,
            },
            ProtoGenerateComplete::TokenSpeed(c) => CompleteText {
                engine: Engine::TokenSpeed,
                token_ids: c.output_ids@,
                index: c.index,
                prompt_tokens: c.prompt_tokens,
                completion_tokens: c.completion_tokens,
                cached_tokens: c.cached_tokens,
                reasoning_tokens: 0,
                finish_reason: c.finish_reason@,
                matched_stop: stop_text(c.matched_stop),
                output_logprobs: output_text(c.output_logprobs),
                input_logprobs: None,
                kv_transfer_params: None,
                kv_transfer_params_json: None,
            },
        }
    }
}

fn copy_top(v: &Vec<TopLogProbs>) -> (r: Vec<TopLogProbs>)
    ensures
        top_text(r@) == top_text(v@),
{
    let mut r: Vec<TopLogProbs> = Vec::new();
    let mut i: usize = 0;
    while i < v.len()
        invariant
            i <= v@.len(),
            r@.len() == i,
            forall|j: int|
                0 <= j < i ==> (#[trigger] r@[j]).values@ == v@[j].values@ && r@[j].token_ids@
                    == v@[j].token_ids@,
        decreases v@.len() - i,
    {
        let values = v[i].values.clone();
        let token_ids = v[i].token_ids.clone();
        assert(values@ =~= v@[i as int].values@);
        assert(token_ids@ =~= v@[i as int].token_ids@);
        r.push(TopLogProbs { values, token_ids });
        i += 1;
    }
    assert(top_text(r@) =~= top_text(v@));
    r
}

fn convert_output_logprobs(lp: &OutputLogProbs) -> (r: ProtoOutputLogProbs)
    ensures
        r@ == lp@,
{
    let token_logprobs = lp.token_logprobs.clone();
    let token_ids = lp.token_ids.clone();
    assert(token_logprobs@ =~= lp.token_logprobs@);
    assert(token_ids@ =~= lp.token_ids@);
    OutputLogProbs { token_logprobs, token_ids, top_logprobs: copy_top(&lp.top_logprobs) }
}

fn convert_optional_output(lp: &Option<OutputLogProbs>) -> (r: Option<ProtoOutputLogProbs>)
    ensures
        output_text(r) == output_text(*lp),
{
    match lp {
        Some(lp) => Some(convert_output_logprobs(lp)),
        None => None,
    }
}

fn convert_input_logprobs(lp: &InputLogProbs) -> (r: ProtoInputLogProbs)
    ensures
        r@ == lp@,
{
    let mut token_logprobs: Vec<Option<u32>> = Vec::new();
    let mut i: usize = 0;
    while i < lp.token_logprobs.len()
        invariant
            i <= lp.token_logprobs@.len(),
            token_logprobs@ =~= lp.token_logprobs@.take(i as int).map_values(
                |t: InputTokenLogProb| t.value,
            ),
        decreases lp.token_logprobs@.len() - i,
    {
        token_logprobs.push(lp.token_logprobs[i].value);
        i += 1;
    }
    assert(lp.token_logprobs@.take(i as int) =~= lp.token_logprobs@);
    let token_ids = lp.token_ids.clone();
    assert(token_ids@ =~= lp.token_ids@);
    ProtoInputLogProbs { token_logprobs, token_ids, top_logprobs: copy_top(&lp.top_logprobs) }
}

/// What optional input log probabilities say.
pub open spec fn input_view(lp: Option<ProtoInputLogProbs>) -> Option<LogProbsText> {
    match lp {
        Some(lp) => Some(lp@),
        None => None,
    }
}

fn convert_optional_input(lp: &Option<InputLogProbs>) -> (r: Option<ProtoInputLogProbs>)
    ensures
        input_view(r) == input_text(*lp),
{
    match lp {
        Some(lp) => Some(convert_input_logprobs(lp)),
        None => None,
    }
}

fn convert_trtllm_top(v: &Vec<trtllm::TopLogprob>) -> (r: TopLogProbs)
    ensures
        (r.values@, r.token_ids@) == trtllm_top(v@),
{
    let mut values: Vec<u32> = Vec::new();
    let mut token_ids: Vec<u32> = Vec::new();
    let mut i: usize = 0;
    while i < v.len()
        invariant
            i <= v@.len(),
            values@ =~= trtllm_top(v@.take(i as int)).0,
            token_ids@ =~= trtllm_top(v@.take(i as int)).1,
        decreases v@.len() - i,
    {
        values.push(v[i].logprob);
        token_ids.push(v[i].token_id);
        i += 1;
    }
    assert(v@.take(i as int) =~= v@);
    TopLogProbs { values, token_ids }
}

/// The log probabilities of TensorRT-LLM in the unified form; none where the
/// list is empty.
fn convert_trtllm_output_logprobs(v: &Vec<trtllm::TokenLogprob>) -> (r: Option<
    ProtoOutputLogProbs,
>)
    ensures
        output_text(r) == trtllm_output(v@),
{
    if v.len() == 0 {
        return None;
    }
    let mut token_logprobs: Vec<u32> = Vec::new();
    let mut token_ids: Vec<u32> = Vec::new();
    let mut top_logprobs: Vec<TopLogProbs> = Vec::new();
    let mut i: usize = 0;
    while i < v.len()
        invariant
            i <= v@.len(),
            token_logprobs@.len() == i,
            token_ids@.len() == i,
            top_logprobs@.len() == i,
            forall|j: int| 0 <= j < i ==> #[trigger] token_logprobs@[j] == v@[j].logprob,
            forall|j: int| 0 <= j < i ==> #[trigger] token_ids@[j] == v@[j].token_id,
            forall|j: int|
                0 <= j < i ==> ((#[trigger] top_logprobs@[j]).values@, top_logprobs@[j].token_ids@)
                    == trtllm_top(v@[j].top_logprobs@),
        decreases v@.len() - i,
    {
        token_logprobs.push(v[i].logprob);
        token_ids.push(v[i].token_id);
        top_logprobs.push(convert_trtllm_top(&v[i].top_logprobs));
        i += 1;
    }
    let r = OutputLogProbs { token_logprobs, token_ids, top_logprobs };
    proof {
        let t = trtllm_output(v@)->0;
        assert(r@.token_logprobs =~= t.token_logprobs);
        assert(r@.token_ids =~= t.token_ids);
        assert(r@.top_logprobs =~= t.top_logprobs);
    }
    Some(r)
}

fn convert_trtllm_prompt_logprobs(v: &Vec<trtllm::TokenLogprob>) -> (r: Option<
    ProtoInputLogProbs,
>)
    ensures
        input_view(r) == trtllm_input(v@),
{
    match convert_trtllm_output_logprobs(v) {
        None => None,
        Some(out) => {
            let mut token_logprobs: Vec<Option<u32>> = Vec::new();
            let mut i: usize = 0;
            while i < out.token_logprobs.len()
                invariant
                    i <= out.token_logprobs@.len(),
                    token_logprobs@.len() == i,
                    forall|j: int|
                        0 <= j < i ==> #[trigger] token_logprobs@[j] == if j == 0 {
                            None::<u32>
                        } else {
                            Some(out.token_logprobs@[j])
                        },
                decreases out.token_logprobs@.len() - i,
            {
                token_logprobs.push(
                    if i == 0 {
                        None
                    } else {
                        Some(out.token_logprobs[i])
                    },
                );
                i += 1;
            }
            let r = ProtoInputLogProbs {
                token_logprobs,
                token_ids: out.token_ids,
                top_logprobs: out.top_logprobs,
            };
            proof {
                let t = trtllm_output(v@)->0;
                assert(out@ == t);
                assert(r@.token_logprobs =~= t.token_logprobs.update(0, None));
            }
            Some(r)
        },
    }
}

/// The JSON text of what stopped a generation.
pub open spec fn stop_json(m: StopText) -> Seq<char> {
    match m {
        StopText::TokenId(id) => decimal_text(id as nat),
        StopText::Str(s) => json_text(s),
    }
}

fn stop_to_json(m: &Option<MatchedStop>) -> (r: Option<String>)
    ensures
        match stop_text(*m) {
            Some(s) => r is Some && r->0@ == stop_json(s),
            None => r is None,
        },
{
    match m {
        Some(MatchedStop::MatchedTokenId(id)) => Some(decimal(*id as u128)),
        Some(MatchedStop::MatchedStopStr(s)) => Some(json_string(s.as_str())),
        None => None,
    }
}

impl ProtoGenerateStreamChunk {
    /// Get SGLang variant
    pub fn as_sglang(&self) -> (r: &sglang::GenerateStreamChunk)
        requires
            *self is Sglang,
        ensures
            self->Sglang_0 == *r,
    {
        match self {
            ProtoGenerateStreamChunk::Sglang(x) => x,
            _ => {
                assert(false);
                vstd::pervasive::unreached()
            },
        }
    }

    /// Get vLLM variant
    pub fn as_vllm(&self) -> (r: &vllm::GenerateStreamChunk)
        requires
            *self is Vllm,
        ensures
            self->Vllm_0 == *r,
    {
        match self {
            ProtoGenerateStreamChunk::Vllm(x) => x,
            _ => {
                assert(false);
                vstd::pervasive::unreached()
            },
        }
    }

    /// Get TensorRT-LLM variant
    pub fn as_trtllm(&self) -> (r: &trtllm::GenerateStreamChunk)
        requires
            *self is Trtllm,
        ensures
            self->Trtllm_0 == *r,
    {
        match self {
            ProtoGenerateStreamChunk::Trtllm(x) => x,
            _ => {
                assert(false);
                vstd::pervasive::unreached()
            },
        }
    }

    /// Check if this is SGLang
    pub fn is_sglang(&self) -> (r: bool)
        ensures
            r == (self@.engine == Engine::Sglang),
    {
        matches!(self, ProtoGenerateStreamChunk::Sglang(_))
    }

    /// Check if this is vLLM
    pub fn is_vllm(&self) -> (r: bool)
        ensures
            r == (self@.engine == Engine::Vllm),
    {
        matches!(self, ProtoGenerateStreamChunk::Vllm(_))
    }

    /// Check if this is TensorRT-LLM
    pub fn is_trtllm(&self) -> (r: bool)
        ensures
            r == (self@.engine == Engine::Trtllm),
    {
        matches!(self, ProtoGenerateStreamChunk::Trtllm(_))
    }

    /// Check if this is MLX
    pub fn is_mlx(&self) -> (r: bool)
        ensures
            r == (self@.engine == Engine::Mlx),
    {
        matches!(self, ProtoGenerateStreamChunk::Mlx(_))
    }

    /// Check if this is TokenSpeed
    pub fn is_tokenspeed(&self) -> (r: bool)
        ensures
            r == (self@.engine == Engine::TokenSpeed),
    {
        matches!(self, ProtoGenerateStreamChunk::TokenSpeed(_))
    }

    /// Get token IDs from chunk (common field)
    pub fn token_ids(&self) -> (r: &[u32])
        ensures
            r@ == self@.token_ids,
    {
        match self {
            ProtoGenerateStreamChunk::Sglang(c) => c.token_ids.as_slice(),
            ProtoGenerateStreamChunk::Vllm(c) => c.token_ids.as_slice(),
            ProtoGenerateStreamChunk::Trtllm(c) => c.token_ids.as_slice(),
            ProtoGenerateStreamChunk::Mlx(c) => c.token_ids.as_slice(),
            ProtoGenerateStreamChunk::TokenSpeed(c) => c.token_ids.as_slice(),
        }
    }

    /// Get index of this output when more than one was requested
    pub fn index(&self) -> (r: u32)
        ensures
            r == self@.index,
    {
        match self {
            ProtoGenerateStreamChunk::Sglang(c) => c.index,
            ProtoGenerateStreamChunk::Vllm(c) => c.index,
            ProtoGenerateStreamChunk::Trtllm(c) => c.sequence_index,
            ProtoGenerateStreamChunk::Mlx(c) => c.index,
            ProtoGenerateStreamChunk::TokenSpeed(c) => c.index,
        }
    }

    /// Get output logprobs.
    pub fn output_logprobs(&self) -> (r: Option<ProtoOutputLogProbs>)
        ensures
            output_text(r) == self@.output_logprobs,
    {
        match self {
            ProtoGenerateStreamChunk::Sglang(c) => convert_optional_output(&c.output_logprobs),
            ProtoGenerateStreamChunk::Vllm(c) => convert_optional_output(&c.output_logprobs),
            ProtoGenerateStreamChunk::Trtllm(c) => convert_trtllm_output_logprobs(&c.logprobs),
            ProtoGenerateStreamChunk::Mlx(c) => convert_optional_output(&c.output_logprobs),
            ProtoGenerateStreamChunk::TokenSpeed(c) => convert_optional_output(&c.output_logprobs),
        }
    }

    /// Get input logprobs (SGLang and vLLM only)
    pub fn input_logprobs(&self) -> (r: Option<ProtoInputLogProbs>)
        ensures
            input_view(r) == self@.input_logprobs,
    {
        match self {
            ProtoGenerateStreamChunk::Sglang(c) => convert_optional_input(&c.input_logprobs),
            ProtoGenerateStreamChunk::Vllm(c) => convert_optional_input(&c.input_logprobs),
            ProtoGenerateStreamChunk::Trtllm(_) => None,
            ProtoGenerateStreamChunk::Mlx(_) => None,
            ProtoGenerateStreamChunk::TokenSpeed(_) => None,
        }
    }

    /// Get prompt tokens
    pub fn prompt_tokens(&self) -> (r: u32)
        ensures
            r == self@.prompt_tokens,
    {
        match self {
            ProtoGenerateStreamChunk::Sglang(c) => c.prompt_tokens,
            ProtoGenerateStreamChunk::Vllm(c) => c.prompt_tokens,
            ProtoGenerateStreamChunk::Trtllm(c) => c.prompt_tokens,
            ProtoGenerateStreamChunk::Mlx(c) => c.prompt_tokens,
            ProtoGenerateStreamChunk::TokenSpeed(c) => c.prompt_tokens,
        }
    }

    /// Get completion tokens
    pub fn completion_tokens(&self) -> (r: u32)
        ensures
            r == self@.completion_tokens,
    {
        match self {
            ProtoGenerateStreamChunk::Sglang(c) => c.completion_tokens,
            ProtoGenerateStreamChunk::Vllm(c) => c.completion_tokens,
            ProtoGenerateStreamChunk::Trtllm(c) => c.completion_tokens,
            ProtoGenerateStreamChunk::Mlx(c) => c.completion_tokens,
            ProtoGenerateStreamChunk::TokenSpeed(c) => c.completion_tokens,
        }
    }

    /// Get cached tokens
    pub fn cached_tokens(&self) -> (r: u32)
        ensures
            r == self@.cached_tokens,
    {
        match self {
            ProtoGenerateStreamChunk::Sglang(c) => c.cached_tokens,
            ProtoGenerateStreamChunk::Vllm(c) => c.cached_tokens,
            ProtoGenerateStreamChunk::Trtllm(c) => c.cached_tokens,
            ProtoGenerateStreamChunk::Mlx(c) => c.cached_tokens,
            ProtoGenerateStreamChunk::TokenSpeed(c) => c.cached_tokens,
        }
    }

    /// Get reasoning tokens (SGLang only).
    pub fn reasoning_tokens(&self) -> (r: u32)
        ensures
            r == self@.reasoning_tokens,
    {
        match self {
            ProtoGenerateStreamChunk::Sglang(c) => c.reasoning_tokens,
            _ => 0,
        }
    }
}

impl ProtoGenerateComplete {
    /// Get SGLang variant
    pub fn as_sglang(&self) -> (r: &sglang::GenerateComplete)
        requires
            *self is Sglang,
        ensures
            self->Sglang_0 == *r,
    {
        match self {
            ProtoGenerateComplete::Sglang(x) => x,
            _ => {
                assert(false);
                vstd::pervasive::unreached()
            },
        }
    }

    /// Get vLLM variant
    pub fn as_vllm(&self) -> (r: &vllm::GenerateComplete)
        requires
            *self is Vllm,
        ensures
            self->Vllm_0 == *r,
    {
        match self {
            ProtoGenerateComplete::Vllm(x) => x,
            _ => {
                assert(false);
                vstd::pervasive::unreached()
            },
        }
    }

    /// Get TensorRT-LLM variant
    pub fn as_trtllm(&self) -> (r: &trtllm::GenerateComplete)
        requires
            *self is Trtllm,
        ensures
            self->Trtllm_0 == *r,
    {
        match self {
            ProtoGenerateComplete::Trtllm(x) => x,
            _ => {
                assert(false);
                vstd::pervasive::unreached()
            },
        }
    }

    /// Get mutable SGLang variant
    pub fn as_sglang_mut(&mut self) -> (r: &mut sglang::GenerateComplete)
        requires
            *old(self) is Sglang,
        ensures
            *r == old(self)->Sglang_0,
            *final(self) is Sglang,
            final(self)->Sglang_0 == *final(r),
    {
        match self {
            ProtoGenerateComplete::Sglang(x) => x,
            _ => {
                assert(false);
                vstd::pervasive::unreached()
            },
        }
    }

    /// Check if this is SGLang
    pub fn is_sglang(&self) -> (r: bool)
        ensures
            r == (self@.engine == Engine::Sglang),
    {
        matches!(self, ProtoGenerateComplete::Sglang(_))
    }

    /// Check if this is vLLM
    pub fn is_vllm(&self) -> (r: bool)
        ensures
            r == (self@.engine == Engine::Vllm),
    {
        matches!(self, ProtoGenerateComplete::Vllm(_))
    }

    /// Check if this is TensorRT-LLM
    pub fn is_trtllm(&self) -> (r: bool)
        ensures
            r == (self@.engine == Engine::Trtllm),
    {
        matches!(self, ProtoGenerateComplete::Trtllm(_))
    }

    /// Check if this is MLX
    pub fn is_mlx(&self) -> (r: bool)
        ensures
            r == (self@.engine == Engine::Mlx),
    {
        matches!(self, ProtoGenerateComplete::Mlx(_))
    }

    /// Check if this is TokenSpeed
    pub fn is_tokenspeed(&self) -> (r: bool)
        ensures
            r == (self@.engine == Engine::TokenSpeed),
    {
        matches!(self, ProtoGenerateComplete::TokenSpeed(_))
    }

    /// Get the generated token IDs
    pub fn token_ids(&self) -> (r: &[u32])
        ensures
            r@ == self@.token_ids,
    {
        match self {
            ProtoGenerateComplete::Sglang(c) => c.output_ids.as_slice(),
            ProtoGenerateComplete::Vllm(c) => c.output_ids.as_slice(),
            ProtoGenerateComplete::Trtllm(c) => c.output_token_ids.as_slice(),
            ProtoGenerateComplete::Mlx(c) => c.output_ids.as_slice(),
            ProtoGenerateComplete::TokenSpeed(c) => c.output_ids.as_slice(),
        }
    }

    /// Get output IDs (decode tokens only)
    pub fn output_ids(&self) -> (r: &[u32])
        ensures
            r@ == self@.token_ids,
    {
        match self {
            ProtoGenerateComplete::Sglang(c) => c.output_ids.as_slice(),
            ProtoGenerateComplete::Vllm(c) => c.output_ids.as_slice(),
            ProtoGenerateComplete::Trtllm(c) => c.output_token_ids.as_slice(),
            ProtoGenerateComplete::Mlx(c) => c.output_ids.as_slice(),
            ProtoGenerateComplete::TokenSpeed(c) => c.output_ids.as_slice(),
        }
    }

    /// Get prompt tokens
    pub fn prompt_tokens(&self) -> (r: u32)
        ensures
            r == self@.prompt_tokens,
    {
        match self {
            ProtoGenerateComplete::Sglang(c) => c.prompt_tokens,
            ProtoGenerateComplete::Vllm(c) => c.prompt_tokens,
            ProtoGenerateComplete::Trtllm(c) => c.prompt_tokens,
            ProtoGenerateComplete::Mlx(c) => c.prompt_tokens,
            ProtoGenerateComplete::TokenSpeed(c) => c.prompt_tokens,
        }
    }

    /// Get completion tokens
    pub fn completion_tokens(&self) -> (r: u32)
        ensures
            r == self@.completion_tokens,
    {
        match self {
            ProtoGenerateComplete::Sglang(c) => c.completion_tokens,
            ProtoGenerateComplete::Vllm(c) => c.completion_tokens,
            ProtoGenerateComplete::Trtllm(c) => c.completion_tokens,
            ProtoGenerateComplete::Mlx(c) => c.completion_tokens,
            ProtoGenerateComplete::TokenSpeed(c) => c.completion_tokens,
        }
    }

    /// Get cached tokens
    pub fn cached_tokens(&self) -> (r: u32)
        ensures
            r == self@.cached_tokens,
    {
        match self {
            ProtoGenerateComplete::Sglang(c) => c.cached_tokens,
            ProtoGenerateComplete::Vllm(c) => c.cached_tokens,
            ProtoGenerateComplete::Trtllm(c) => c.cached_tokens,
            ProtoGenerateComplete::Mlx(c) => c.cached_tokens,
            ProtoGenerateComplete::TokenSpeed(c) => c.cached_tokens,
        }
    }

    /// Get reasoning tokens (SGLang only).
    pub fn reasoning_tokens(&self) -> (r: u32)
        ensures
            r == self@.reasoning_tokens,
    {
        match self {
            ProtoGenerateComplete::Sglang(c) => c.reasoning_tokens,
            _ => 0,
        }
    }

    /// Get finish reason
    pub fn finish_reason(&self) -> (r: &str)
        ensures
            r@ == self@.finish_reason,
    {
        match self {
            ProtoGenerateComplete::Sglang(c) => c.finish_reason.as_str(),
            ProtoGenerateComplete::Vllm(c) => c.finish_reason.as_str(),
            ProtoGenerateComplete::Trtllm(c) => c.finish_reason.as_str(),
            ProtoGenerateComplete::Mlx(c) => c.finish_reason.as_str(),
            ProtoGenerateComplete::TokenSpeed(c) => c.finish_reason.as_str(),
        }
    }

    /// Get index of this output when more than one was requested
    pub fn index(&self) -> (r: u32)
        ensures
            r == self@.index,
    {
        match self {
            ProtoGenerateComplete::Sglang(c) => c.index,
            ProtoGenerateComplete::Vllm(c) => c.index,
            ProtoGenerateComplete::Trtllm(c) => c.sequence_index,
            ProtoGenerateComplete::Mlx(c) => c.index,
            ProtoGenerateComplete::TokenSpeed(c) => c.index,
        }
    }

    /// Get what stopped the generation as JSON: a token id as a number, a stop
    /// string as a string.
    pub fn matched_stop_json(&self) -> (r: Option<String>)
        ensures
            match self@.matched_stop {
                Some(s) => r is Some && r->0@ == stop_json(s),
                None => r is None,
            },
    {
        match self {
            ProtoGenerateComplete::Sglang(c) => stop_to_json(&c.matched_stop),
            ProtoGenerateComplete::Vllm(c) => stop_to_json(&c.matched_stop),
            ProtoGenerateComplete::Trtllm(c) => stop_to_json(&c.matched_stop),
            ProtoGenerateComplete::Mlx(c) => match c.matched_stop_token_id {
                Some(id) => Some(decimal(id as u128)),
                None => None,
            },
            ProtoGenerateComplete::TokenSpeed(c) => stop_to_json(&c.matched_stop),
        }
    }

    /// Get input/prompt logprobs (SGLang, vLLM, and TensorRT-LLM)
    pub fn input_logprobs(&self) -> (r: Option<ProtoInputLogProbs>)
        ensures
            input_view(r) == self@.input_logprobs,
    {
        match self {
            ProtoGenerateComplete::Sglang(c) => convert_optional_input(&c.input_logprobs),
            ProtoGenerateComplete::Vllm(c) => convert_optional_input(&c.input_logprobs),
            ProtoGenerateComplete::Trtllm(c) => convert_trtllm_prompt_logprobs(&c.prompt_logprobs),
            ProtoGenerateComplete::Mlx(_) => None,
            ProtoGenerateComplete::TokenSpeed(_) => None,
        }
    }

    /// Get output logprobs.
    pub fn output_logprobs(&self) -> (r: Option<ProtoOutputLogProbs>)
        ensures
            output_text(r) == self@.output_logprobs,
    {
        match self {
            ProtoGenerateComplete::Sglang(c) => convert_optional_output(&c.output_logprobs),
            ProtoGenerateComplete::Vllm(c) => convert_optional_output(&c.output_logprobs),
            ProtoGenerateComplete::Trtllm(c) => convert_trtllm_output_logprobs(&c.logprobs),
            ProtoGenerateComplete::Mlx(c) => convert_optional_output(&c.output_logprobs),
            ProtoGenerateComplete::TokenSpeed(c) => convert_optional_output(&c.output_logprobs),
        }
    }

    /// Where the prefill worker says its cache can be fetched (vLLM only).
    pub fn kv_transfer_params(&self) -> (r: Option<(String, u32)>)
        ensures
            match self@.kv_transfer_params {
                Some((host, port)) => r matches Some((h, p)) && h@ == host && p == port,
                None => r is None,
            },
    {
        match self {
            ProtoGenerateComplete::Vllm(c) => match &c.kv_transfer_params {
                Some(p) => Some((p.remote_host.clone(), p.remote_port)),
                None => None,
            },
            _ => None,
        }
    }

    /// Opaque handoff params that the engine returned (vLLM only), unless they
    /// are empty.
    pub fn kv_transfer_params_json(&self) -> (r: Option<&str>)
        ensures
            match handoff_json(self@) {
                Some(json) => r is Some && r->0@ == json,
                None => r is None,
            },
    {
        match self {
            ProtoGenerateComplete::Vllm(c) => match &c.kv_transfer_params_json {
                Some(json) => if json.as_str().is_empty() {
                    None
                } else {
                    Some(json.as_str())
                },
                None => None,
            },
            _ => None,
        }
    }
}

/// The handoff params that a response carries, unless they are empty.
pub open spec fn handoff_json(c: CompleteText) -> Option<Seq<char>> {
    match c.kv_transfer_params_json {
        Some(json) => if json.len() == 0 {
            None
        } else {
            Some(json)
        },
        None => None,
    }
}

/// Unified GenerateResponse from stream
pub enum ProtoGenerateResponse {
    Sglang(Box<sglang::GenerateResponse>),
    Vllm(Box<vllm::GenerateResponse>),
    Trtllm(Box<trtllm::GenerateResponse>),
    Mlx(Box<mlx::GenerateResponse>),
    TokenSpeed(Box<tokenspeed::GenerateResponse>),
}

/// Response variant extracted from GenerateResponse
pub enum ProtoResponseVariant {
    Chunk(ProtoGenerateStreamChunk),
    Complete(ProtoGenerateComplete),
    Nothing,
}

/// What a message of a generation is: a part, the end, or nothing.
pub open spec fn variant_of(r: ProtoGenerateResponse) -> ProtoResponseVariant {
    match r {
        ProtoGenerateResponse::Sglang(r) => match r.response {
            Some(sglang::Response::Chunk(c)) => ProtoResponseVariant::Chunk(
                ProtoGenerateStreamChunk::Sglang(c),
            ),
            Some(sglang::Response::Complete(c)) => ProtoResponseVariant::Complete(
                ProtoGenerateComplete::Sglang(c),
            ),
            None => ProtoResponseVariant::Nothing,
        },
        ProtoGenerateResponse::Vllm(r) => match r.response {
            Some(vllm::Response::Chunk(c)) => ProtoResponseVariant::Chunk(
                ProtoGenerateStreamChunk::Vllm(c),
            ),
            Some(vllm::Response::Complete(c)) => ProtoResponseVariant::Complete(
                ProtoGenerateComplete::Vllm(c),
            ),
            None => ProtoResponseVariant::Nothing,
        },
        ProtoGenerateResponse::Trtllm(r) => match r.response {
            Some(trtllm::Response::Chunk(c)) => ProtoResponseVariant::Chunk(
                ProtoGenerateStreamChunk::Trtllm(c),
            ),
            Some(trtllm::Response::Complete(c)) => ProtoResponseVariant::Complete(
                ProtoGenerateComplete::Trtllm(c),
            ),
            None => ProtoResponseVariant::Nothing,
        },
        ProtoGenerateResponse::Mlx(r) => match r.response {
            Some(mlx::Response::Chunk(c)) => ProtoResponseVariant::Chunk(
                ProtoGenerateStreamChunk::Mlx(c),
            ),
            Some(mlx::Response::Complete(c)) => ProtoResponseVariant::Complete(
                ProtoGenerateComplete::Mlx(c),
            ),
            None => ProtoResponseVariant::Nothing,
        },
        ProtoGenerateResponse::TokenSpeed(r) => match r.response {
            Some(tokenspeed::Response::Chunk(c)) => ProtoResponseVariant::Chunk(
                ProtoGenerateStreamChunk::TokenSpeed(c),
            ),
            Some(tokenspeed::Response::Complete(c)) => ProtoResponseVariant::Complete(
                ProtoGenerateComplete::TokenSpeed(c),
            ),
            None => ProtoResponseVariant::Nothing,
        },
    }
}

impl ProtoGenerateResponse {
    /// Get the response variant (chunk, complete, or nothing)
    pub fn into_response(self) -> (r: ProtoResponseVariant)
        ensures
            r == variant_of(self),
    {
        match self {
            ProtoGenerateResponse::Sglang(resp) => {
                let resp = *resp;
                match resp.response {
                    Some(sglang::Response::Chunk(chunk)) => ProtoResponseVariant::Chunk(
                        ProtoGenerateStreamChunk::Sglang(chunk),
                    ),
                    Some(sglang::Response::Complete(complete)) => ProtoResponseVariant::Complete(
                        ProtoGenerateComplete::Sglang(complete),
                    ),
                    None => ProtoResponseVariant::Nothing,
                }
            },
            ProtoGenerateResponse::Vllm(resp) => {
                let resp = *resp;
                match resp.response {
                    Some(vllm::Response::Chunk(chunk)) => ProtoResponseVariant::Chunk(
                        ProtoGenerateStreamChunk::Vllm(chunk),
                    ),
                    Some(vllm::Response::Complete(complete)) => ProtoResponseVariant::Complete(
                        ProtoGenerateComplete::Vllm(complete),
                    ),
                    None => ProtoResponseVariant::Nothing,
                }
            },
            ProtoGenerateResponse::Trtllm(resp) => {
                let resp = *resp;
                match resp.response {
                    Some(trtllm::Response::Chunk(chunk)) => ProtoResponseVariant::Chunk(
                        ProtoGenerateStreamChunk::Trtllm(chunk),
                    ),
                    Some(trtllm::Response::Complete(complete)) => ProtoResponseVariant::Complete(
                        ProtoGenerateComplete::Trtllm(complete),
                    ),
                    None => ProtoResponseVariant::Nothing,
                }
            },
            ProtoGenerateResponse::Mlx(resp) => {
                let resp = *resp;
                match resp.response {
                    Some(mlx::Response::Chunk(chunk)) => ProtoResponseVariant::Chunk(
                        ProtoGenerateStreamChunk::Mlx(chunk),
                    ),
                    Some(mlx::Response::Complete(complete)) => ProtoResponseVariant::Complete(
                        ProtoGenerateComplete::Mlx(complete),
                    ),
                    None => ProtoResponseVariant::Nothing,
                }
            },
            ProtoGenerateResponse::TokenSpeed(resp) => {
                let resp = *resp;
                match resp.response {
                    Some(tokenspeed::Response::Chunk(chunk)) => ProtoResponseVariant::Chunk(
                        ProtoGenerateStreamChunk::TokenSpeed(chunk),
                    ),
                    Some(tokenspeed::Response::Complete(complete)) => ProtoResponseVariant::Complete(
                        ProtoGenerateComplete::TokenSpeed(complete),
                    ),
                    None => ProtoResponseVariant::Nothing,
                }
            },
        }
    }
}

/// Unified embed completion
pub enum ProtoEmbedComplete {
    Sglang(sglang::EmbedResponse),
    Vllm(vllm::EmbedResponse),
}

/// What an embedding says, for any backend.
pub struct EmbeddingText {
    pub engine: Engine,
    pub embedding: Seq<u32>,
    pub prompt_tokens: u32,
    pub embedding_dim: u32,
}

impl View for ProtoEmbedComplete {
    type V = EmbeddingText;

    open spec fn view(&self) -> EmbeddingText {
        match *self {
            ProtoEmbedComplete::Sglang(r) => EmbeddingText {
                engine: Engine::Sglang,
                embedding: r.embedding@,
                prompt_tokens: r.prompt_tokens,
                embedding_dim: r.embedding_dim,
            },
            ProtoEmbedComplete::Vllm(r) => EmbeddingText {
                engine: Engine::Vllm,
                embedding: r.embedding@,
                prompt_tokens: r.prompt_tokens,
                embedding_dim: r.embedding_dim,
            },
        }
    }
}

impl ProtoEmbedComplete {
    pub fn embedding(&self) -> (r: &[u32])
        ensures
            r@ == self@.embedding,
    {
        match self {
            ProtoEmbedComplete::Sglang(r) => r.embedding.as_slice(),
            ProtoEmbedComplete::Vllm(r) => r.embedding.as_slice(),
        }
    }

    pub fn prompt_tokens(&self) -> (r: u32)
        ensures
            r == self@.prompt_tokens,
    {
        match self {
            ProtoEmbedComplete::Sglang(r) => r.prompt_tokens,
            ProtoEmbedComplete::Vllm(r) => r.prompt_tokens,
        }
    }

    pub fn embedding_dim(&self) -> (r: u32)
        ensures
            r == self@.embedding_dim,
    {
        match self {
            ProtoEmbedComplete::Sglang(r) => r.embedding_dim,
            ProtoEmbedComplete::Vllm(r) => r.embedding_dim,
        }
    }
}

/// A part of a generation says what its backend sent, whichever that is.
pub proof fn chunks_say_what_was_sent(
    sglang: sglang::GenerateStreamChunk,
    vllm: vllm::GenerateStreamChunk,
    trtllm: trtllm::GenerateStreamChunk,
    mlx: mlx::GenerateStreamChunk,
    tokenspeed: tokenspeed::GenerateStreamChunk,
)
    ensures
        ({
            let c = ProtoGenerateStreamChunk::Sglang(sglang)@;
            &&& c.engine is Sglang
            &&& c.token_ids == sglang.token_ids@
            &&& c.index == sglang.index
            &&& c.prompt_tokens == sglang.prompt_tokens
            &&& c.completion_tokens == sglang.completion_tokens
            &&& c.cached_tokens == sglang.cached_tokens
            &&& c.reasoning_tokens == sglang.reasoning_tokens
            &&& c.output_logprobs is Some == sglang.output_logprobs is Some
            &&& c.input_logprobs is Some == sglang.input_logprobs is Some
        }),
        ({
            let c = ProtoGenerateStreamChunk::Vllm(vllm)@;
            &&& c.engine is Vllm
            &&& c.token_ids == vllm.token_ids@
            &&& c.index == vllm.index
            &&& c.prompt_tokens == vllm.prompt_tokens
            &&& c.completion_tokens == vllm.completion_tokens
            &&& c.cached_tokens == vllm.cached_tokens
            &&& c.reasoning_tokens == 0
            &&& c.output_logprobs is Some == vllm.output_logprobs is Some
            &&& c.input_logprobs is Some == vllm.input_logprobs is Some
        }),
        ({
            let c = ProtoGenerateStreamChunk::Trtllm(trtllm)@;
            &&& c.engine is Trtllm
            &&& c.token_ids == trtllm.token_ids@
            &&& c.index == trtllm.sequence_index
            &&& c.prompt_tokens == trtllm.prompt_tokens
            &&& c.completion_tokens == trtllm.completion_tokens
            &&& c.cached_tokens == trtllm.cached_tokens
            &&& c.reasoning_tokens == 0
            &&& c.output_logprobs is Some == (trtllm.logprobs@.len() > 0)
            &&& c.input_logprobs is None
        }),
        ({
            let c = ProtoGenerateStreamChunk::Mlx(mlx)@;
            &&& c.engine is Mlx
            &&& c.token_ids == mlx.token_ids@
            &&& c.index == mlx.index
            &&& c.prompt_tokens == mlx.prompt_tokens
            &&& c.completion_tokens == mlx.completion_tokens
            &&& c.cached_tokens == mlx.cached_tokens
            &&& c.reasoning_tokens == 0
            &&& c.output_logprobs is Some == mlx.output_logprobs is Some
            &&& c.input_logprobs is None
        }),
        ({
            let c = ProtoGenerateStreamChunk::TokenSpeed(tokenspeed)@;
            &&& c.engine is TokenSpeed
            &&& c.token_ids == tokenspeed.token_ids@
            &&& c.index == tokenspeed.index
            &&& c.prompt_tokens == tokenspeed.prompt_tokens
            &&& c.completion_tokens == tokenspeed.completion_tokens
            &&& c.cached_tokens == tokenspeed.cached_tokens
            &&& c.reasoning_tokens == 0
            &&& c.output_logprobs is Some == tokenspeed.output_logprobs is Some
            &&& c.input_logprobs is None
        }),
{
}

/// The end of a generation says what its backend sent, whichever that is.
pub proof fn ends_say_what_was_sent(
    sglang: sglang::GenerateComplete,
    vllm: vllm::GenerateComplete,
    trtllm: trtllm::GenerateComplete,
    mlx: mlx::GenerateComplete,
    tokenspeed: tokenspeed::GenerateComplete,
)
    ensures
        ({
            let c = ProtoGenerateComplete::Sglang(sglang)@;
            &&& c.engine is Sglang
            &&& c.token_ids == sglang.output_ids@
            &&& c.index == sglang.index
            &&& c.prompt_tokens == sglang.prompt_tokens
            &&& c.completion_tokens == sglang.completion_tokens
            &&& c.cached_tokens == sglang.cached_tokens
            &&& c.reasoning_tokens == sglang.reasoning_tokens
            &&& c.finish_reason == sglang.finish_reason@
            &&& c.matched_stop is Some == sglang.matched_stop is Some
            &&& c.output_logprobs is Some == sglang.output_logprobs is Some
            &&& c.input_logprobs is Some == sglang.input_logprobs is Some
            &&& handoff_json(c) is None
        }),
        ({
            let c = ProtoGenerateComplete::Vllm(vllm)@;
            &&& c.engine is Vllm
            &&& c.token_ids == vllm.output_ids@
            &&& c.index == vllm.index
            &&& c.prompt_tokens == vllm.prompt_tokens
            &&& c.completion_tokens == vllm.completion_tokens
            &&& c.cached_tokens == vllm.cached_tokens
            &&& c.reasoning_tokens == 0
            &&& c.finish_reason == vllm.finish_reason@
            &&& c.matched_stop is Some == vllm.matched_stop is Some
            &&& c.output_logprobs is Some == vllm.output_logprobs is Some
            &&& c.input_logprobs is Some == vllm.input_logprobs is Some
            &&& vllm.kv_transfer_params matches Some(p) ==> c.kv_transfer_params == Some(
                (p.remote_host@, p.remote_port),
            )
            &&& handoff_json(c) is Some <==> (vllm.kv_transfer_params_json matches Some(j)
                && j@.len() > 0)
            &&& handoff_json(c) matches Some(json) ==> (vllm.kv_transfer_params_json matches Some(j)
                && j@ == json)
        }),
        ({
            let c = ProtoGenerateComplete::Trtllm(trtllm)@;
            &&& c.engine is Trtllm
            &&& c.token_ids == trtllm.output_token_ids@
            &&& c.index == trtllm.sequence_index
            &&& c.prompt_tokens == trtllm.prompt_tokens
            &&& c.completion_tokens == trtllm.completion_tokens
            &&& c.cached_tokens == trtllm.cached_tokens
            &&& c.reasoning_tokens == 0
            &&& c.finish_reason == trtllm.finish_reason@
            &&& c.matched_stop is Some == trtllm.matched_stop is Some
            &&& c.output_logprobs is Some == (trtllm.logprobs@.len() > 0)
            &&& c.input_logprobs is Some == (trtllm.prompt_logprobs@.len() > 0)
            &&& handoff_json(c) is None
        }),
        ({
            let c = ProtoGenerateComplete::Mlx(mlx)@;
            &&& c.engine is Mlx
            &&& c.token_ids == mlx.output_ids@
            &&& c.index == mlx.index
            &&& c.prompt_tokens == mlx.prompt_tokens
            &&& c.completion_tokens == mlx.completion_tokens
            &&& c.cached_tokens == mlx.cached_tokens
            &&& c.reasoning_tokens == 0
            &&& c.finish_reason == mlx.finish_reason@
            &&& mlx.matched_stop_token_id matches Some(id) ==> (c.matched_stop matches Some(s)
                && s == StopText::TokenId(id))
            &&& mlx.matched_stop_token_id is None ==> c.matched_stop is None
            &&& c.output_logprobs is Some == mlx.output_logprobs is Some
            &&& c.input_logprobs is None
            &&& handoff_json(c) is None
        }),
        ({
            let c = ProtoGenerateComplete::TokenSpeed(tokenspeed)@;
            &&& c.engine is TokenSpeed
            &&& c.token_ids == tokenspeed.output_ids@
            &&& c.index == tokenspeed.index
            &&& c.prompt_tokens == tokenspeed.prompt_tokens
            &&& c.completion_tokens == tokenspeed.completion_tokens
            &&& c.cached_tokens == tokenspeed.cached_tokens
            &&& c.reasoning_tokens == 0
            &&& c.finish_reason == tokenspeed.finish_reason@
            &&& c.matched_stop is Some == tokenspeed.matched_stop is Some
            &&& c.output_logprobs is Some == tokenspeed.output_logprobs is Some
            &&& c.input_logprobs is None
            &&& handoff_json(c) is None
        }),
{
}

/// Log probabilities stay with their tokens: each position keeps its token, its
/// value and its alternatives, and only the first token of a prompt has no value.
pub proof fn logprobs_stay_with_their_tokens(v: Seq<trtllm::TokenLogprob>, i: int, j: int)
    requires
        0 <= i < v.len(),
    ensures
        trtllm_output(v) matches Some(out) && {
            &&& out.token_logprobs.len() == v.len()
            &&& out.token_ids.len() == v.len()
            &&& out.top_logprobs.len() == v.len()
            &&& out.token_logprobs[i] == Some(v[i].logprob)
            &&& out.token_ids[i] == v[i].token_id
            &&& out.top_logprobs[i].0.len() == v[i].top_logprobs@.len()
            &&& out.top_logprobs[i].1.len() == v[i].top_logprobs@.len()
            &&& 0 <= j < v[i].top_logprobs@.len() ==> out.top_logprobs[i].0[j]
                == v[i].top_logprobs@[j].logprob && out.top_logprobs[i].1[j]
                == v[i].top_logprobs@[j].token_id
        },
        trtllm_input(v) matches Some(given) && {
            &&& given.token_logprobs.len() == v.len()
            &&& given.token_ids.len() == v.len()
            &&& given.top_logprobs.len() == v.len()
            &&& i == 0 ==> given.token_logprobs[i] is None
            &&& i > 0 ==> given.token_logprobs[i] == Some(v[i].logprob)
            &&& given.token_ids[i] == v[i].token_id
        },
{
}

/// The same of the form that the other backends share.
pub proof fn shared_logprobs_stay_with_their_tokens(
    out: OutputLogProbs,
    given: InputLogProbs,
    i: int,
)
    ensures
        out@.token_logprobs.len() == out.token_logprobs@.len(),
        0 <= i < out.token_logprobs@.len() ==> out@.token_logprobs[i] == Some(
            out.token_logprobs@[i],
        ),
        out@.token_ids == out.token_ids@,
        out@.top_logprobs.len() == out.top_logprobs@.len(),
        0 <= i < out.top_logprobs@.len() ==> out@.top_logprobs[i].0 == out.top_logprobs@[i].values@
            && out@.top_logprobs[i].1 == out.top_logprobs@[i].token_ids@,
        given@.token_logprobs.len() == given.token_logprobs@.len(),
        0 <= i < given.token_logprobs@.len() ==> given@.token_logprobs[i]
            == given.token_logprobs@[i].value,
        given@.token_ids == given.token_ids@,
        given@.top_logprobs.len() == given.top_logprobs@.len(),
        0 <= i < given.top_logprobs@.len() ==> given@.top_logprobs[i].0
            == given.top_logprobs@[i].values@ && given@.top_logprobs[i].1
            == given.top_logprobs@[i].token_ids@,
{
}

/// A message is a part or the end of a generation as its backend marked it, and
/// nothing is lost of what it carries.
pub proof fn messages_are_what_they_carry(
    sglang: sglang::GenerateResponse,
    vllm: vllm::GenerateResponse,
    trtllm: trtllm::GenerateResponse,
    mlx: mlx::GenerateResponse,
    tokenspeed: tokenspeed::GenerateResponse,
)
    ensures
        match variant_of(ProtoGenerateResponse::Sglang(Box::new(sglang))) {
            ProtoResponseVariant::Chunk(c) => c matches ProtoGenerateStreamChunk::Sglang(c)
                && sglang.response == Some(sglang::Response::Chunk(c)),
            ProtoResponseVariant::Complete(c) => c matches ProtoGenerateComplete::Sglang(c)
                && sglang.response == Some(sglang::Response::Complete(c)),
            ProtoResponseVariant::Nothing => sglang.response is None,
        },
        match variant_of(ProtoGenerateResponse::Vllm(Box::new(vllm))) {
            ProtoResponseVariant::Chunk(c) => c matches ProtoGenerateStreamChunk::Vllm(c)
                && vllm.response == Some(vllm::Response::Chunk(c)),
            ProtoResponseVariant::Complete(c) => c matches ProtoGenerateComplete::Vllm(c)
                && vllm.response == Some(vllm::Response::Complete(c)),
            ProtoResponseVariant::Nothing => vllm.response is None,
        },
        match variant_of(ProtoGenerateResponse::Trtllm(Box::new(trtllm))) {
            ProtoResponseVariant::Chunk(c) => c matches ProtoGenerateStreamChunk::Trtllm(c)
                && trtllm.response == Some(trtllm::Response::Chunk(c)),
            ProtoResponseVariant::Complete(c) => c matches ProtoGenerateComplete::Trtllm(c)
                && trtllm.response == Some(trtllm::Response::Complete(c)),
            ProtoResponseVariant::Nothing => trtllm.response is None,
        },
        match variant_of(ProtoGenerateResponse::Mlx(Box::new(mlx))) {
            ProtoResponseVariant::Chunk(c) => c matches ProtoGenerateStreamChunk::Mlx(c)
                && mlx.response == Some(mlx::Response::Chunk(c)),
            ProtoResponseVariant::Complete(c) => c matches ProtoGenerateComplete::Mlx(c)
                && mlx.response == Some(mlx::Response::Complete(c)),
            ProtoResponseVariant::Nothing => mlx.response is None,
        },
        match variant_of(ProtoGenerateResponse::TokenSpeed(Box::new(tokenspeed))) {
            ProtoResponseVariant::Chunk(c) => c matches ProtoGenerateStreamChunk::TokenSpeed(c)
                && tokenspeed.response == Some(tokenspeed::Response::Chunk(c)),
            ProtoResponseVariant::Complete(c) => c matches ProtoGenerateComplete::TokenSpeed(c)
                && tokenspeed.response == Some(tokenspeed::Response::Complete(c)),
            ProtoResponseVariant::Nothing => tokenspeed.response is None,
        },
{
}

/// What stopped a generation is a bare number for a token and a quoted text for a
/// text.
pub proof fn stops_are_told_apart(stop: MatchedStop)
    ensures
        stop matches MatchedStop::MatchedTokenId(id) ==> stop_text(Some(stop)) == Some(
            StopText::TokenId(id),
        ) && stop_json(stop@) == decimal_text(id as nat),
        stop matches MatchedStop::MatchedStopStr(s) ==> stop_text(Some(stop)) == Some(
            StopText::Str(s@),
        ) && stop_json(stop@) == json_text(s@),
        stop_text(None) is None,
{
}

/// An embedding is what its backend sent.
pub proof fn embeddings_are_what_was_sent(sglang: sglang::EmbedResponse, vllm: vllm::EmbedResponse)
    ensures
        ({
            let e = ProtoEmbedComplete::Sglang(sglang)@;
            &&& e.engine is Sglang
            &&& e.embedding == sglang.embedding@
            &&& e.prompt_tokens == sglang.prompt_tokens
            &&& e.embedding_dim == sglang.embedding_dim
        }),
        ({
            let e = ProtoEmbedComplete::Vllm(vllm)@;
            &&& e.engine is Vllm
            &&& e.embedding == vllm.embedding@
            &&& e.prompt_tokens == vllm.prompt_tokens
            &&& e.embedding_dim == vllm.embedding_dim
        }),
{
}

} // verus!
