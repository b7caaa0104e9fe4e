//! What several stages need: request ids, sampling defaults, and the places
//! where workers meet.

use crate::grpc::context::{RuntimeType, SamplingDefaults, WorkerInfo, WorkerSelection};
use crate::grpc::proto::{mlx, sglang, tokenspeed, vllm};
use crate::grpc::proto_wrapper::request::{
    Engine, ProtoGenerateRequest, RequestText, SamplingText,
};
use crate::outside::{is_uuid_text, random_room, random_room_32, uuid_v7_text};
use vstd::prelude::*;

verus! {

/// The sampling knobs that a user may set.
#[derive(Debug, Clone, Copy, PartialEq, Eq, Structural)]
pub struct SamplingKnobs {
    pub temperature: Option<u32>,
    pub top_p: Option<u32>,
    pub top_k: Option<i32>,
    pub min_p: Option<u32>,
    pub repetition_penalty: Option<u32>,
}

/// The sampling knobs of the Messages API.
#[derive(Debug, Clone, Copy, PartialEq, Eq, Structural)]
pub struct MessageKnobs {
    pub temperature: Option<u32>,
    pub top_p: Option<u32>,
    pub top_k: Option<i32>,
}

/// What kind of request it is, with the knobs the user set.
#[derive(Debug, Clone, Copy, PartialEq, Eq, Structural)]
pub enum RequestType {
    Chat(SamplingKnobs),
    Completion(SamplingKnobs),
    Generate(Option<SamplingKnobs>),
    Messages(MessageKnobs),
    Responses,
    Embedding,
    Classify,
}

/// Which knobs the user left alone.
#[derive(Debug, Clone, Copy, PartialEq, Eq, Structural)]
pub struct SamplingDefaultsMask {
    pub temperature: bool,
    pub top_p: bool,
    pub top_k: bool,
    pub min_p: bool,
    pub repetition_penalty: bool,
}

/// Which of `k` the user left alone.
pub open spec fn left_alone(k: SamplingKnobs) -> SamplingDefaultsMask {
    SamplingDefaultsMask {
        temperature: k.temperature is None,
        top_p: k.top_p is None,
        top_k: k.top_k is None,
        min_p: k.min_p is None,
        repetition_penalty: k.repetition_penalty is None,
    }
}

/// Which knobs the user left alone; none for requests that sample nothing
/// themselves. Messages does not have the last two knobs, so there they count
/// as left alone.
pub open spec fn mask_of(t: RequestType) -> Option<SamplingDefaultsMask> {
    match t {
        RequestType::Chat(k) => Some(left_alone(k)),
        RequestType::Completion(k) => Some(left_alone(k)),
        RequestType::Generate(Some(k)) => Some(left_alone(k)),
        RequestType::Generate(None) => Some(
            SamplingDefaultsMask {
                temperature: true,
                top_p: true,
                top_k: true,
                min_p: true,
                repetition_penalty: true,
            },
        ),
        RequestType::Messages(k) => Some(
            SamplingDefaultsMask {
                temperature: k.temperature is None,
                top_p: k.top_p is None,
                top_k: k.top_k is None,
                min_p: true,
                repetition_penalty: true,
            },
        ),
        RequestType::Responses | RequestType::Embedding | RequestType::Classify => None,
    }
}

impl SamplingDefaultsMask {
    fn from_knobs(k: &SamplingKnobs) -> (r: Self)
        ensures
            r == left_alone(*k),
    {
        SamplingDefaultsMask {
            temperature: k.temperature.is_none(),
            top_p: k.top_p.is_none(),
            top_k: k.top_k.is_none(),
            min_p: k.min_p.is_none(),
            repetition_penalty: k.repetition_penalty.is_none(),
        }
    }

    pub fn from_request_type(request_type: &RequestType) -> (r: Option<Self>)
        ensures
            r == mask_of(*request_type),
    {
        match request_type {
            RequestType::Chat(k) => Some(Self::from_knobs(k)),
            RequestType::Completion(k) => Some(Self::from_knobs(k)),
            RequestType::Generate(Some(k)) => Some(Self::from_knobs(k)),
            RequestType::Generate(None) => Some(
                SamplingDefaultsMask {
                    temperature: true,
                    top_p: true,
                    top_k: true,
                    min_p: true,
                    repetition_penalty: true,
                },
            ),
            RequestType::Messages(k) => Some(
                SamplingDefaultsMask {
                    temperature: k.temperature.is_none(),
                    top_p: k.top_p.is_none(),
                    top_k: k.top_k.is_none(),
                    min_p: true,
                    repetition_penalty: true,
                },
            ),
            RequestType::Responses | RequestType::Embedding | RequestType::Classify => None,
        }
    }

    /// Whether the user left any knob alone.
    pub fn any(self) -> (r: bool)
        ensures
            r == (self.temperature || self.top_p || self.top_k || self.min_p
                || self.repetition_penalty),
    {
        self.temperature || self.top_p || self.top_k || self.min_p || self.repetition_penalty
    }
}

/// A knob after defaults: the default where the user left it alone and there is
/// one.
pub open spec fn filled<T>(value: Option<T>, masked: bool, default: Option<T>) -> Option<T> {
    if masked && default is Some {
        default
    } else {
        value
    }
}

/// A default as the engine takes it: vLLM and MLX know no negative `top_k`.
pub open spec fn engine_top_k(engine: Engine, k: Option<i32>) -> Option<int> {
    match k {
        Some(k) => if (engine == Engine::Vllm || engine == Engine::Mlx) && k < 0 {
            Some(0)
        } else {
            Some(k as int)
        },
        None => None,
    }
}

/// The sampling of a request after defaults.
pub open spec fn with_defaults(
    s: SamplingText,
    d: SamplingDefaults,
    mask: SamplingDefaultsMask,
    engine: Engine,
) -> SamplingText {
    SamplingText {
        temperature: filled(s.temperature, mask.temperature, d.temperature),
        top_p: filled(s.top_p, mask.top_p, d.top_p),
        top_k: filled(s.top_k, mask.top_k, engine_top_k(engine, d.top_k)),
        min_p: filled(s.min_p, mask.min_p, d.min_p),
        repetition_penalty: filled(
            s.repetition_penalty,
            mask.repetition_penalty,
            d.repetition_penalty,
        ),
        ..s
    }
}

/// The defaults of the worker that produces visible tokens.
pub open spec fn defaults_of(workers: Option<WorkerSelection>) -> Option<SamplingDefaults> {
    match workers {
        None => None,
        Some(WorkerSelection::Single { worker }) => worker.sampling_defaults,
        Some(WorkerSelection::Disaggregated { decode, .. }) => decode.sampling_defaults,
    }
}

/// The selection behind an optional reference.
pub open spec fn selection(workers: Option<&WorkerSelection>) -> Option<WorkerSelection> {
    match workers {
        Some(w) => Some(*w),
        None => None,
    }
}

/// The sampling defaults that apply to a request. Of two workers the decode
/// one decides, because it produces the visible tokens.
pub fn sampling_defaults_for_request(workers: Option<&WorkerSelection>) -> (r: Option<
    SamplingDefaults,
>)
    ensures
        r == defaults_of(selection(workers)),
{
    match workers {
        None => None,
        Some(w) => match w {
            WorkerSelection::Single { worker } => worker.sampling_defaults,
            WorkerSelection::Disaggregated { decode, .. } => decode.sampling_defaults,
        },
    }
}

fn fill(value: u32, masked: bool, default: Option<u32>) -> (r: u32)
    ensures
        Some(r) == filled(Some(value), masked, default),
{
    match default {
        Some(d) => if masked {
            d
        } else {
            value
        },
        None => value,
    }
}

fn fill_opt<T: Copy>(value: Option<T>, masked: bool, default: Option<T>) -> (r: Option<T>)
    ensures
        r == filled(value, masked, default),
{
    match default {
        Some(d) => if masked {
            Some(d)
        } else {
            value
        },
        None => value,
    }
}

fn fill_unsigned_top_k(value: u32, masked: bool, default: Option<i32>) -> (r: u32)
    ensures
        Some(r as int) == filled(
            Some(value as int),
            masked,
            engine_top_k(Engine::Vllm, default),
        ),
{
    match default {
        Some(d) => if masked {
            if d < 0 {
                0
            } else {
                d as u32
            }
        } else {
            value
        },
        None => value,
    }
}

fn apply_sglang_sampling_defaults(
    params: sglang::SamplingParams,
    d: SamplingDefaults,
    mask: SamplingDefaultsMask,
) -> (r: sglang::SamplingParams)
    ensures
        r@ == with_defaults(params@, d, mask, Engine::Sglang),
{
    sglang::SamplingParams {
        temperature: fill(params.temperature, mask.temperature, d.temperature),
        top_p: fill(params.top_p, mask.top_p, d.top_p),
        top_k: match d.top_k {
            Some(k) => if mask.top_k {
                k
            } else {
                params.top_k
            },
            None => params.top_k,
        },
        min_p: fill(params.min_p, mask.min_p, d.min_p),
        repetition_penalty: fill(
            params.repetition_penalty,
            mask.repetition_penalty,
            d.repetition_penalty,
        ),
    }
}

fn apply_vllm_sampling_defaults(
    params: vllm::SamplingParams,
    d: SamplingDefaults,
    mask: SamplingDefaultsMask,
) -> (r: vllm::SamplingParams)
    ensures
        r@ == with_defaults(params@, d, mask, Engine::Vllm),
{
    let mut params = params;
    params.temperature = fill_opt(params.temperature, mask.temperature, d.temperature);
    params.top_p = fill(params.top_p, mask.top_p, d.top_p);
    params.top_k = fill_unsigned_top_k(params.top_k, mask.top_k, d.top_k);
    params.min_p = fill(params.min_p, mask.min_p, d.min_p);
    params.repetition_penalty = fill(
        params.repetition_penalty,
        mask.repetition_penalty,
        d.repetition_penalty,
    );
    params
}

fn apply_mlx_sampling_defaults(
    params: mlx::SamplingParams,
    d: SamplingDefaults,
    mask: SamplingDefaultsMask,
) -> (r: mlx::SamplingParams)
    ensures
        r@ == with_defaults(params@, d, mask, Engine::Mlx),
{
    mlx::SamplingParams {
        temperature: fill_opt(params.temperature, mask.temperature, d.temperature),
        top_p: fill(params.top_p, mask.top_p, d.top_p),
        top_k: fill_unsigned_top_k(params.top_k, mask.top_k, d.top_k),
        min_p: fill(params.min_p, mask.min_p, d.min_p),
        repetition_penalty: fill(
            params.repetition_penalty,
            mask.repetition_penalty,
            d.repetition_penalty,
        ),
    }
}

/// TokenSpeed tells "set to zero" from "not set", so every knob is optional.
fn apply_tokenspeed_sampling_defaults(
    params: tokenspeed::SamplingParams,
    d: SamplingDefaults,
    mask: SamplingDefaultsMask,
) -> (r: tokenspeed::SamplingParams)
    ensures
        r@ == with_defaults(params@, d, mask, Engine::TokenSpeed),
{
    tokenspeed::SamplingParams {
        temperature: fill_opt(params.temperature, mask.temperature, d.temperature),
        top_p: fill_opt(params.top_p, mask.top_p, d.top_p),
        top_k: fill_opt(params.top_k, mask.top_k, d.top_k),
        min_p: fill_opt(params.min_p, mask.min_p, d.min_p),
        repetition_penalty: fill_opt(
            params.repetition_penalty,
            mask.repetition_penalty,
            d.repetition_penalty,
        ),
    }
}

/// A request after the model's sampling defaults: they fill the knobs that the
/// user left alone. TensorRT-LLM takes none, and a request without sampling
/// parameters keeps none.
pub open spec fn request_with_defaults(
    r: RequestText,
    t: RequestType,
    workers: Option<WorkerSelection>,
) -> RequestText {
    match (mask_of(t), defaults_of(workers), r.sampling) {
        (Some(mask), Some(d), Some(s)) => if r.engine == Engine::Trtllm {
            r
        } else {
            RequestText { sampling: Some(with_defaults(s, d, mask, r.engine)), ..r }
        },
        _ => r,
    }
}

/// Apply model sampling defaults to a built request.
///
/// The request already contains fallback values of the backend, so
/// `request_type` says which knobs the user left alone.
pub fn apply_sampling_defaults_to_generate_request(
    request: &mut ProtoGenerateRequest,
    request_type: &RequestType,
    workers: Option<&WorkerSelection>,
)
    ensures
        final(request)@ == request_with_defaults(
            old(request)@,
            *request_type,
            selection(workers),
        ),
{
    if request.is_trtllm() {
        return;
    }
    let mask: SamplingDefaultsMask = match SamplingDefaultsMask::from_request_type(request_type) {
        Some(mask) => mask,
        None => {
            return;
        },
    };
    if !mask.any() {
        proof {
            if let (Some(d), Some(s)) = (defaults_of(selection(workers)), old(request)@.sampling) {
                assert(with_defaults(s, d, mask, old(request)@.engine) == s);
            }
        }
        return;
    }
    let defaults: SamplingDefaults = match sampling_defaults_for_request(workers) {
        Some(d) => d,
        None => {
            return;
        },
    };
    match request {
        ProtoGenerateRequest::Sglang(req) => {
            if let Some(params) = req.sampling_params.take() {
                req.sampling_params = Some(apply_sglang_sampling_defaults(params, defaults, mask));
            }
        },
        ProtoGenerateRequest::Vllm(req) => {
            if let Some(params) = req.sampling_params.take() {
                req.sampling_params = Some(apply_vllm_sampling_defaults(params, defaults, mask));
            }
        },
        ProtoGenerateRequest::Mlx(req) => {
            if let Some(params) = req.sampling_params.take() {
                req.sampling_params = Some(apply_mlx_sampling_defaults(params, defaults, mask));
            }
        },
        ProtoGenerateRequest::TokenSpeed(req) => {
            if let Some(params) = req.sampling_params.take() {
                req.sampling_params = Some(
                    apply_tokenspeed_sampling_defaults(params, defaults, mask),
                );
            }
        },
        ProtoGenerateRequest::Trtllm(_) => {},
    }
}

/// What the user set is never overwritten, and filling in the same defaults
/// twice is filling them in once.
pub proof fn defaults_respect_the_user(
    s: SamplingText,
    d: SamplingDefaults,
    mask: SamplingDefaultsMask,
    engine: Engine,
)
    ensures
        !mask.temperature ==> with_defaults(s, d, mask, engine).temperature == s.temperature,
        !mask.top_p ==> with_defaults(s, d, mask, engine).top_p == s.top_p,
        !mask.top_k ==> with_defaults(s, d, mask, engine).top_k == s.top_k,
        !mask.min_p ==> with_defaults(s, d, mask, engine).min_p == s.min_p,
        !mask.repetition_penalty ==> with_defaults(s, d, mask, engine).repetition_penalty
            == s.repetition_penalty,
        with_defaults(with_defaults(s, d, mask, engine), d, mask, engine) == with_defaults(
            s,
            d,
            mask,
            engine,
        ),
{
}

/// The id under which a request goes to its backend, given a fresh id: the
/// caller's own, exactly, unless the request is disaggregated; else one that
/// the fresh id makes unique.
pub open spec fn request_id_text(
    rid: Option<Seq<char>>,
    middleware_id: Option<Seq<char>>,
    prefix: Seq<char>,
    disaggregated: bool,
    fresh: Seq<char>,
) -> Seq<char> {
    match (rid, middleware_id) {
        (Some(rid), _) => if disaggregated {
            rid + "-"@ + fresh
        } else {
            rid
        },
        (None, Some(id)) => id + "-"@ + fresh,
        (None, None) => prefix + fresh,
    }
}

/// What an optional text says.
pub open spec fn opt_str(s: Option<&str>) -> Option<Seq<char>> {
    match s {
        Some(s) => Some(s@),
        None => None,
    }
}

/// The id under which a request goes to its backend, given a fresh id.
pub fn request_id_from(
    rid: Option<&str>,
    middleware_id: Option<&str>,
    prefix: &str,
    disaggregated: bool,
    fresh: &str,
) -> (r: String)
    ensures
        r@ == request_id_text(
            opt_str(rid),
            opt_str(middleware_id),
            prefix@,
            disaggregated,
            fresh@,
        ),
{
    match rid {
        Some(rid) => {
            let mut id = rid.to_owned();
            if disaggregated {
                id.append("-");
                id.append(fresh);
            }
            id
        },
        None => match middleware_id {
            Some(base) => {
                let mut id = base.to_owned();
                id.append("-");
                id.append(fresh);
                id
            },
            None => {
                let mut id = prefix.to_owned();
                id.append(fresh);
                id
            },
        },
    }
}

/// Backend request id for any endpoint.
///
/// Engine ids must be unique per dispatch, because a retry re-runs request
/// building while the engine may still hold the id; so every id but a bare
/// `rid` outside disaggregated serving gets a fresh suffix. A bare `rid` is the
/// caller's contract.
pub fn resolve_request_id(
    rid: Option<&str>,
    middleware_id: Option<&str>,
    prefix: &str,
    disaggregated: bool,
) -> (r: String)
    ensures
        exists|fresh: Seq<char>|
            #![trigger is_uuid_text(fresh, '7')]
            is_uuid_text(fresh, '7') && r@ == request_id_text(
                opt_str(rid),
                opt_str(middleware_id),
                prefix@,
                disaggregated,
                fresh,
            ),
{
    let fresh = uuid_v7_text();
    assert(is_uuid_text(fresh@, '7'));
    request_id_from(rid, middleware_id, prefix, disaggregated, fresh.as_str())
}

/// An id is the caller's own outside disaggregated serving; in it, the caller's id
/// and more. Without one it begins with the middleware's id and a dash, else with
/// the prefix.
pub proof fn ids_say_where_they_come_from(
    rid: Option<Seq<char>>,
    middleware_id: Option<Seq<char>>,
    prefix: Seq<char>,
    disaggregated: bool,
    fresh: Seq<char>,
)
    requires
        is_uuid_text(fresh, '7'),
    ensures
        ({
            let id = request_id_text(rid, middleware_id, prefix, disaggregated, fresh);
            match (rid, middleware_id) {
                (Some(rid), _) => if disaggregated {
                    (rid + "-"@).is_prefix_of(id) && id.len() > rid.len() + 1
                } else {
                    id == rid
                },
                (None, Some(mid)) => (mid + "-"@).is_prefix_of(id) && id.len() > mid.len() + 1,
                (None, None) => prefix.is_prefix_of(id) && id.len() > prefix.len(),
            }
        }),
{
    reveal_strlit("-");
    let id = request_id_text(rid, middleware_id, prefix, disaggregated, fresh);
    let base = match (rid, middleware_id) {
        (Some(rid), _) => rid + "-"@,
        (None, Some(mid)) => mid + "-"@,
        (None, None) => prefix,
    };
    assert((base + fresh).subrange(0, base.len() as int) =~= base);
}

/// Two dispatches with different fresh ids go out under different ids, unless
/// the caller fixed the id.
pub proof fn dispatches_have_their_own_ids(
    rid: Option<Seq<char>>,
    middleware_id: Option<Seq<char>>,
    prefix: Seq<char>,
    disaggregated: bool,
    fresh1: Seq<char>,
    fresh2: Seq<char>,
)
    requires
        fresh1 != fresh2,
        rid is None || disaggregated,
    ensures
        request_id_text(rid, middleware_id, prefix, disaggregated, fresh1) != request_id_text(
            rid,
            middleware_id,
            prefix,
            disaggregated,
            fresh2,
        ),
{
    let base = match (rid, middleware_id) {
        (Some(rid), _) => rid + "-"@,
        (None, Some(id)) => id + "-"@,
        (None, None) => prefix,
    };
    let a = base + fresh1;
    let b = base + fresh2;
    if a == b {
        assert(fresh1 =~= a.skip(base.len() as int));
        assert(fresh2 =~= b.skip(base.len() as int));
    }
}

/// A request with the place where an SGLang prefill worker meets its decode
/// worker.
pub open spec fn with_bootstrap(r: RequestText, prefill: WorkerInfo, room: i32) -> RequestText {
    RequestText {
        disaggregated: Some((prefill.bootstrap_host@, prefill.bootstrap() as i32, room)),
        ..r
    }
}

/// Sets the place where an SGLang prefill worker meets its decode worker.
pub fn inject_sglang_bootstrap_metadata(
    request: &mut ProtoGenerateRequest,
    prefill: &WorkerInfo,
    room_id: i32,
)
    requires
        *old(request) is Sglang,
    ensures
        *final(request) is Sglang,
        final(request)@ == with_bootstrap(old(request)@, *prefill, room_id),
{
    let params = sglang::DisaggregatedParams {
        bootstrap_host: prefill.bootstrap_host.clone(),
        bootstrap_port: prefill.bootstrap_port_or_default() as i32,
        bootstrap_room: room_id,
    };
    if let ProtoGenerateRequest::Sglang(req) = request {
        req.disaggregated_params = Some(params);
    }
}

/// A request for these workers: with the meeting place, if they are
/// disaggregated and run SGLang.
pub open spec fn with_pd_metadata(r: RequestText, workers: WorkerSelection, room: i32) -> RequestText {
    if workers.runtime() == Some(RuntimeType::Sglang) {
        with_bootstrap(r, workers->prefill, room)
    } else {
        r
    }
}

/// Set the meeting place, with a given room, if the workers are disaggregated
/// and run SGLang.
pub fn inject_pd_metadata(
    request: &mut ProtoGenerateRequest,
    workers: &WorkerSelection,
    room: i32,
)
    requires
        workers.runtime() == Some(RuntimeType::Sglang) ==> *old(request) is Sglang,
    ensures
        final(request)@ == with_pd_metadata(old(request)@, *workers, room),
{
    if let WorkerSelection::Disaggregated { prefill, runtime_type, .. } = workers {
        if *runtime_type == RuntimeType::Sglang {
            inject_sglang_bootstrap_metadata(request, prefill, room);
        }
    }
}

/// Set the meeting place if the workers are disaggregated and run SGLang.
pub fn maybe_inject_pd_metadata(request: &mut ProtoGenerateRequest, workers: &WorkerSelection)
    requires
        workers.runtime() == Some(RuntimeType::Sglang) ==> *old(request) is Sglang,
    ensures
        exists|room: i32|
            0 <= room < i32::MAX && final(request)@ == #[trigger] with_pd_metadata(
                old(request)@,
                *workers,
                room,
            ),
{
    let room: i32 = random_room_32();
    inject_pd_metadata(request, workers, room);
}

/// A request with the place where a TokenSpeed prefill worker meets its decode
/// worker.
pub open spec fn with_rendezvous(r: RequestText, prefill: WorkerInfo, room: i64) -> RequestText {
    if r.engine == Engine::TokenSpeed {
        RequestText {
            kv_bootstrap: Some((prefill.bootstrap_host@, prefill.bootstrap() as i32, room)),
            ..r
        }
    } else {
        r
    }
}

/// A request for these workers: with the rendezvous, if they are disaggregated
/// and run TokenSpeed.
pub open spec fn with_pd_rendezvous(
    r: RequestText,
    workers: WorkerSelection,
    room: i64,
) -> RequestText {
    if workers.runtime() == Some(RuntimeType::TokenSpeed) {
        with_rendezvous(r, workers->prefill, room)
    } else {
        r
    }
}

/// Set the prefill->decode rendezvous, with a given room, if the workers are
/// disaggregated and run TokenSpeed. Host and port are those of the prefill
/// worker, which has the data.
pub fn inject_pd_rendezvous(
    request: &mut ProtoGenerateRequest,
    workers: &WorkerSelection,
    room: i64,
)
    ensures
        final(request)@ == with_pd_rendezvous(old(request)@, *workers, room),
{
    if let WorkerSelection::Disaggregated { prefill, runtime_type, .. } = workers {
        if *runtime_type == RuntimeType::TokenSpeed {
            request.set_kv_bootstrap_info(
                prefill.bootstrap_host.clone(),
                prefill.bootstrap_port_or_default() as i32,
                room,
            );
        }
    }
}

/// Set the prefill->decode rendezvous if the workers are disaggregated and run
/// TokenSpeed. The room is minted once, so that both workers carry the same.
pub fn maybe_inject_pd_rendezvous(request: &mut ProtoGenerateRequest, workers: &WorkerSelection)
    ensures
        exists|room: i64|
            0 <= room < i64::MAX && final(request)@ == #[trigger] with_pd_rendezvous(
                old(request)@,
                *workers,
                room,
            ),
{
    let room: i64 = random_room();
    inject_pd_rendezvous(request, workers, room);
}

/// What becomes of one knob: the user's stays what it was, and a default is taken
/// where the user set nothing.
pub open spec fn is_settled<T>(
    user: bool,
    before: Option<T>,
    default: Option<T>,
    after: Option<T>,
) -> bool {
    &&& user || default is None ==> after == before
    &&& !user && default is Some ==> after == default
}

/// For every kind of request and every knob it has, what the user set is what the
/// engine is told, and what the user left alone is the default of the worker that
/// produces the visible tokens, if it has one. Nothing else of the request changes.
pub proof fn users_settings_win(
    before: RequestText,
    t: RequestType,
    worker: WorkerInfo,
    workers: WorkerSelection,
)
    requires
        workers matches WorkerSelection::Single { worker: w } ==> w == worker,
        workers matches WorkerSelection::Disaggregated { decode, .. } ==> decode == worker,
        worker.sampling_defaults is Some,
        before.sampling is Some,
        before.engine != Engine::Trtllm,
        !(t is Responses || t is Embedding || t is Classify),
    ensures
        ({
            let after = request_with_defaults(before, t, Some(workers));
            let d = worker.sampling_defaults->0;
            let b = before.sampling->0;
            let a = after.sampling->0;
            let (temperature, top_p, top_k, min_p, penalty) = match t {
                RequestType::Chat(k) | RequestType::Completion(k) | RequestType::Generate(
                    Some(k),
                ) => (
                    k.temperature is Some,
                    k.top_p is Some,
                    k.top_k is Some,
                    k.min_p is Some,
                    k.repetition_penalty is Some,
                ),
                RequestType::Messages(k) => (
                    k.temperature is Some,
                    k.top_p is Some,
                    k.top_k is Some,
                    false,
                    false,
                ),
                _ => (false, false, false, false, false),
            };
            let unsigned = before.engine == Engine::Vllm || before.engine == Engine::Mlx;
            let default_top_k: Option<int> = match d.top_k {
                Some(k) => if unsigned && k < 0 {
                    Some(0)
                } else {
                    Some(k as int)
                },
                None => None,
            };
            &&& after.sampling is Some
            &&& is_settled(temperature, b.temperature, d.temperature, a.temperature)
            &&& is_settled(top_p, b.top_p, d.top_p, a.top_p)
            &&& is_settled(top_k, b.top_k, default_top_k, a.top_k)
            &&& is_settled(min_p, b.min_p, d.min_p, a.min_p)
            &&& is_settled(
                penalty,
                b.repetition_penalty,
                d.repetition_penalty,
                a.repetition_penalty,
            )
            &&& a.max_tokens == b.max_tokens
            &&& a.min_tokens == b.min_tokens
            &&& a.n == b.n
            &&& a.stop == b.stop
            &&& a.stop_token_ids == b.stop_token_ids
            &&& a.ignore_eos == b.ignore_eos
            &&& after == (RequestText { sampling: Some(a), ..before })
        }),
{
}

/// Without sampling parameters, without defaults, for requests that sample nothing
/// themselves and for TensorRT-LLM, a request stays as it is.
pub proof fn nothing_to_fill_in(
    before: RequestText,
    t: RequestType,
    workers: Option<WorkerSelection>,
)
    requires
        before.sampling is None || before.engine == Engine::Trtllm || workers is None || t
            is Responses || t is Embedding || t is Classify || (workers->0 matches
            WorkerSelection::Single { worker } && worker.sampling_defaults is None) || (workers->0
            matches WorkerSelection::Disaggregated { decode, .. }
            && decode.sampling_defaults is None),
    ensures
        request_with_defaults(before, t, workers) == before,
{
}

/// Prefill and decode meet at the prefill worker, in the room that was drawn: each
/// engine is told its own way, and nothing else of the request changes. Workers that
/// are not disaggregated meet nowhere.
pub proof fn legs_meet_at_the_prefill_worker(
    r: RequestText,
    workers: WorkerSelection,
    small_room: i32,
    room: i64,
)
    ensures
        workers is Single ==> with_pd_metadata(r, workers, small_room) == r && with_pd_rendezvous(
            r,
            workers,
            room,
        ) == r,
        workers matches WorkerSelection::Disaggregated { prefill, runtime_type, .. } ==> {
            let port = match prefill.bootstrap_port {
                Some(p) => p as int,
                None => 8998,
            };
            let m = with_pd_metadata(r, workers, small_room);
            let v = with_pd_rendezvous(r, workers, room);
            &&& runtime_type != RuntimeType::Sglang ==> m == r
            &&& runtime_type == RuntimeType::Sglang ==> {
                &&& m.disaggregated matches Some((host, p, n))
                &&& host == prefill.bootstrap_host@ && p == port && n == small_room
                &&& m == (RequestText { disaggregated: m.disaggregated, ..r })
            }
            &&& runtime_type != RuntimeType::TokenSpeed || r.engine != Engine::TokenSpeed ==> v
                == r
            &&& runtime_type == RuntimeType::TokenSpeed && r.engine == Engine::TokenSpeed ==> {
                &&& v.kv_bootstrap matches Some((host, p, n))
                &&& host == prefill.bootstrap_host@ && p == port && n == room
                &&& v == (RequestText { kv_bootstrap: v.kv_bootstrap, ..r })
            }
        },
{
}

/// A knob that the user set is never among those that defaults may fill in, whatever
/// the kind of request; one that the user left alone always is, where the request
/// samples at all.
pub proof fn set_knobs_are_not_filled_in(t: RequestType, r: Option<SamplingDefaultsMask>)
    requires
        call_ensures(SamplingDefaultsMask::from_request_type, (&t,), r),
    ensures
        r is None <==> t is Responses || t is Embedding || t is Classify,
        r matches Some(mask) ==> match t {
            RequestType::Messages(k) => (k.temperature is Some <==> !mask.temperature) && (
            k.top_p is Some <==> !mask.top_p) && (k.top_k is Some <==> !mask.top_k) && mask.min_p
                && mask.repetition_penalty,
            RequestType::Generate(None) => mask.temperature && mask.top_p && mask.top_k
                && mask.min_p && mask.repetition_penalty,
            RequestType::Chat(k) | RequestType::Completion(k) | RequestType::Generate(Some(k)) => (
            k.temperature is Some <==> !mask.temperature) && (k.top_p is Some <==> !mask.top_p) && (
            k.top_k is Some <==> !mask.top_k) && (k.min_p is Some <==> !mask.min_p) && (
            k.repetition_penalty is Some <==> !mask.repetition_penalty),
            _ => false,
        },
{
}

} // verus!
