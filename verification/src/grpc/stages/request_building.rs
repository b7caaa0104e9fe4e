//! Request building: the checks before a backend request is built, and what is
//! added to it once it is.
//!
//! The request itself is built by the client of the backend.

use crate::grpc::context::{ClientSelection, ExecutionPlanKind, RuntimeType, WorkerSelection};
use crate::grpc::epd_encode::{EncodeDispatchPlan, EncodePlan};
use crate::grpc::error::{
    bad_request, bad_request_text, internal_error, internal_error_text, ErrorAnswer, ErrorText,
};
use crate::grpc::proto_wrapper::request::{
    encode_text, EncodeItemBootstrapInfo, Engine, ProtoGenerateRequest, RequestText,
};
use crate::grpc::stages::helpers::{
    apply_sampling_defaults_to_generate_request, inject_pd_metadata, inject_pd_rendezvous,
    request_with_defaults, selection, with_pd_metadata, with_pd_rendezvous, RequestType,
};
use crate::outside::{is_uuid_text, random_room, random_room_32, uuid_v7_text};
use crate::text::{decimal, decimal_round_trip, decimal_text, texts};
use vstd::prelude::*;

verus! {

/// What the preparation stage left behind, as far as it matters here.
#[derive(Debug, Clone, Copy, PartialEq, Eq, Structural)]
pub enum Preparation {
    Chat { has_media: bool },
    Completion { prompts: usize },
    Other,
}

/// What a request is executed from.
pub enum ExecutionPlan {
    Generate {
        kind: ExecutionPlanKind,
        request: ProtoGenerateRequest,
        encode_dispatch: Option<EncodeDispatchPlan>,
    },
    Batch {
        kind: ExecutionPlanKind,
        shared_request_id: String,
        requests: Vec<ProtoGenerateRequest>,
    },
}

/// Builds requests from chat requests.
pub struct ChatRequestBuildingStage {
    inject_pd_metadata: bool,
    plan_kind: ExecutionPlanKind,
}

/// Builds requests from completion requests, one for each prompt.
pub struct CompletionRequestBuildingStage {
    inject_pd_metadata: bool,
    plan_kind: ExecutionPlanKind,
}

/// With which client a request is to be built, and under which id.
pub struct ChatBuild {
    pub request_id: String,
    pub client: Engine,
}

/// With which client requests are to be built, and under which ids.
pub struct CompletionBuild {
    pub shared_request_id: String,
    pub request_ids: Vec<String>,
    pub client: Engine,
}

/// The workers are of a kind that `request` can be sent to.
pub open spec fn fits_workers(
    request: ProtoGenerateRequest,
    inject: bool,
    workers: Option<&WorkerSelection>,
) -> bool {
    inject && workers is Some && workers->0.runtime() == Some(RuntimeType::Sglang) ==> request
        is Sglang
}

/// A request that was built, with the model's sampling defaults, the meeting
/// place of prefill and decode, and the items that come from encode workers.
pub open spec fn completed(
    built: RequestText,
    inject: bool,
    request_type: RequestType,
    workers: Option<&WorkerSelection>,
    encode: Option<Seq<EncodeItemBootstrapInfo>>,
    small_room: i32,
    room: i64,
) -> RequestText {
    let a = request_with_defaults(built, request_type, selection(workers));
    let b = match workers {
        Some(w) => if inject {
            with_pd_metadata(a, *w, small_room)
        } else {
            a
        },
        None => a,
    };
    let c = match encode {
        Some(items) => if b.engine == Engine::TokenSpeed {
            RequestText { encode_bootstrap: Some(encode_text(items)), ..b }
        } else {
            b
        },
        None => b,
    };
    match workers {
        Some(w) => with_pd_rendezvous(c, *w, room),
        None => c,
    }
}

/// What the prefill worker is told of a plan's items.
pub open spec fn info_of(plan: Option<EncodePlan>) -> Option<Seq<EncodeItemBootstrapInfo>> {
    match plan {
        Some(plan) => Some(plan.info()),
        None => None,
    }
}

/// Completes a request that was built, under given rooms.
pub fn complete_request(
    request: ProtoGenerateRequest,
    inject: bool,
    request_type: &RequestType,
    workers: Option<&WorkerSelection>,
    encode: Option<&Vec<EncodeItemBootstrapInfo>>,
    small_room: i32,
    room: i64,
) -> (r: ProtoGenerateRequest)
    requires
        fits_workers(request, inject, workers),
    ensures
        r@ == completed(
            request@,
            inject,
            *request_type,
            workers,
            match encode {
                Some(v) => Some(v@),
                None => None,
            },
            small_room,
            room,
        ),
{
    let mut request = request;
    apply_sampling_defaults_to_generate_request(&mut request, request_type, workers);
    if inject {
        if let Some(workers) = workers {
            inject_pd_metadata(&mut request, workers, small_room);
        }
    }
    if let Some(items) = encode {
        request.set_encode_bootstrap_info(items);
    }
    if let Some(workers) = workers {
        inject_pd_rendezvous(&mut request, workers, room);
    }
    request
}

/// What is answered when the client refuses to build a request.
pub fn build_failed(error: &str) -> (r: ErrorAnswer)
    ensures
        r@ == bad_request_text(
            "invalid_request_parameters"@,
            "Invalid request parameters: "@ + error@,
        ),
{
    let mut message = "Invalid request parameters: ".to_owned();
    message.append(error);
    bad_request("invalid_request_parameters", message.as_str())
}

/// What is answered when a request's media cannot be encoded or assembled.
pub fn media_failed(error: &str) -> (r: ErrorAnswer)
    ensures
        r@ == bad_request_text("multimodal_not_supported"@, error@),
{
    bad_request("multimodal_not_supported", error)
}

/// Why a chat request cannot be built.
pub open spec fn chat_problem(
    prep: Option<Preparation>,
    clients: Option<ClientSelection>,
) -> Option<ErrorText> {
    match (prep, clients) {
        (None, _) => Some(
            internal_error_text("preparation_not_completed"@, "Preparation not completed"@),
        ),
        (_, None) => Some(
            internal_error_text(
                "client_acquisition_not_completed"@,
                "Client acquisition not completed"@,
            ),
        ),
        (Some(Preparation::Chat { has_media }), Some(c)) => if has_media && c.builder()
            == Engine::Mlx {
            Some(
                bad_request_text(
                    "multimodal_not_supported"@,
                    "MLX backend does not support multimodal inputs"@,
                ),
            )
        } else {
            None
        },
        _ => Some(
            internal_error_text("wrong_preparation_type"@, "Expected Chat preparation output"@),
        ),
    }
}

impl ChatRequestBuildingStage {
    pub closed spec fn injects(&self) -> bool {
        self.inject_pd_metadata
    }

    pub closed spec fn kind(&self) -> ExecutionPlanKind {
        self.plan_kind
    }

    pub fn new(inject_pd_metadata: bool, plan_kind: ExecutionPlanKind) -> (r: Self)
        ensures
            r.injects() == inject_pd_metadata,
            r.kind() == plan_kind,
    {
        ChatRequestBuildingStage { inject_pd_metadata, plan_kind }
    }

    pub fn name(&self) -> (r: &'static str)
        ensures
            r@ == "ChatRequestBuilding"@,
    {
        "ChatRequestBuilding"
    }

    /// Checks what the stages before left behind. Media are refused here for a
    /// backend that takes none, before they are assembled.
    pub fn begin(&self, prep: Option<Preparation>, clients: Option<ClientSelection>) -> (r: Result<
        ChatBuild,
        ErrorAnswer,
    >)
        ensures
            match chat_problem(prep, clients) {
                Some(e) => r is Err && r->Err_0@ == e,
                None => {
                    &&& r matches Ok(build)
                    &&& build.client == clients->0.builder()
                    &&& exists|fresh: Seq<char>|
                        #![trigger is_uuid_text(fresh, '7')]
                        is_uuid_text(fresh, '7') && build.request_id@ == "chatcmpl-"@ + fresh
                },
            },
    {
        let prep: Preparation = match prep {
            Some(p) => p,
            None => {
                return Err(
                    internal_error("preparation_not_completed", "Preparation not completed"),
                );
            },
        };
        let client: Engine = match clients {
            Some(c) => c.builder_client(),
            None => {
                return Err(
                    internal_error(
                        "client_acquisition_not_completed",
                        "Client acquisition not completed",
                    ),
                );
            },
        };
        let has_media: bool = match prep {
            Preparation::Chat { has_media } => has_media,
            _ => {
                return Err(
                    internal_error("wrong_preparation_type", "Expected Chat preparation output"),
                );
            },
        };
        let fresh = uuid_v7_text();
        let mut request_id = "chatcmpl-".to_owned();
        request_id.append(fresh.as_str());
        assert(is_uuid_text(fresh@, '7'));
        if has_media && client == Engine::Mlx {
            return Err(
                bad_request(
                    "multimodal_not_supported",
                    "MLX backend does not support multimodal inputs",
                ),
            );
        }
        Ok(ChatBuild { request_id, client })
    }

    /// The plan to execute a request that was built. The rooms are minted once,
    /// so that both legs of a dispatch carry the same.
    pub fn finish(
        &self,
        request: ProtoGenerateRequest,
        request_type: &RequestType,
        workers: Option<&WorkerSelection>,
        encode_plan: Option<EncodePlan>,
    ) -> (r: ExecutionPlan)
        requires
            fits_workers(request, self.injects(), workers),
        ensures
            r is Generate,
            r->Generate_kind == self.kind(),
            match (encode_plan, r->Generate_encode_dispatch) {
                (Some(plan), Some(dispatch)) => dispatch.job_list() == plan.job_list(),
                (None, None) => true,
                _ => false,
            },
            exists|small_room: i32, room: i64|
                0 <= small_room < i32::MAX && 0 <= room < i64::MAX && r->Generate_request@
                    == #[trigger] completed(
                    request@,
                    self.injects(),
                    *request_type,
                    workers,
                    info_of(encode_plan),
                    small_room,
                    room,
                ),
    {
        let small_room: i32 = random_room_32();
        let room: i64 = random_room();
        match encode_plan {
            Some(plan) => {
                let (info, dispatch) = plan.into_parts();
                let request = complete_request(
                    request,
                    self.inject_pd_metadata,
                    request_type,
                    workers,
                    Some(&info),
                    small_room,
                    room,
                );
                ExecutionPlan::Generate {
                    kind: self.plan_kind,
                    request,
                    encode_dispatch: Some(dispatch),
                }
            },
            None => {
                let request = complete_request(
                    request,
                    self.inject_pd_metadata,
                    request_type,
                    workers,
                    None,
                    small_room,
                    room,
                );
                ExecutionPlan::Generate { kind: self.plan_kind, request, encode_dispatch: None }
            },
        }
    }
}

/// Why a completion request cannot be built.
pub open spec fn completion_problem(
    prep: Option<Preparation>,
    clients: Option<ClientSelection>,
) -> Option<ErrorText> {
    match prep {
        None => Some(
            internal_error_text("preparation_not_completed"@, "Preparation not completed"@),
        ),
        Some(Preparation::Completion { prompts }) => if clients is None {
            Some(
                internal_error_text(
                    "client_acquisition_not_completed"@,
                    "Client acquisition not completed"@,
                ),
            )
        } else if prompts == 0 {
            Some(internal_error_text("preparation_not_completed"@, "No prompts prepared"@))
        } else {
            None
        },
        Some(_) => Some(
            internal_error_text(
                "unexpected_preparation_output"@,
                "Preparation output is not a completion"@,
            ),
        ),
    }
}

/// The ids of the requests for `n` prompts: the shared one for a single
/// prompt, else one for each.
pub open spec fn prompt_ids(shared: Seq<char>, n: nat) -> Seq<Seq<char>> {
    if n == 1 {
        seq![shared]
    } else {
        Seq::new(n, |i: int| shared + "-p"@ + decimal_text(i as nat))
    }
}

impl CompletionRequestBuildingStage {
    pub closed spec fn injects(&self) -> bool {
        self.inject_pd_metadata
    }

    pub closed spec fn kind(&self) -> ExecutionPlanKind {
        self.plan_kind
    }

    pub fn new(inject_pd_metadata: bool, plan_kind: ExecutionPlanKind) -> (r: Self)
        ensures
            r.injects() == inject_pd_metadata,
            r.kind() == plan_kind,
    {
        CompletionRequestBuildingStage { inject_pd_metadata, plan_kind }
    }

    pub fn name(&self) -> (r: &'static str)
        ensures
            r@ == "CompletionRequestBuilding"@,
    {
        "CompletionRequestBuilding"
    }

    /// Checks what the stages before left behind.
    pub fn begin(&self, prep: Option<Preparation>, clients: Option<ClientSelection>) -> (r: Result<
        CompletionBuild,
        ErrorAnswer,
    >)
        ensures
            match completion_problem(prep, clients) {
                Some(e) => r is Err && r->Err_0@ == e,
                None => {
                    &&& r matches Ok(build)
                    &&& build.client == clients->0.builder()
                    &&& texts(build.request_ids@) == prompt_ids(
                        build.shared_request_id@,
                        prep->0->prompts as nat,
                    )
                    &&& exists|fresh: Seq<char>|
                        #![trigger is_uuid_text(fresh, '7')]
                        is_uuid_text(fresh, '7') && build.shared_request_id@ == "cmpl_"@ + fresh
                },
            },
    {
        let prep: Preparation = match prep {
            Some(p) => p,
            None => {
                return Err(
                    internal_error("preparation_not_completed", "Preparation not completed"),
                );
            },
        };
        let prompts: usize = match prep {
            Preparation::Completion { prompts } => prompts,
            _ => {
                return Err(
                    internal_error(
                        "unexpected_preparation_output",
                        "Preparation output is not a completion",
                    ),
                );
            },
        };
        let client: Engine = match clients {
            Some(c) => c.builder_client(),
            None => {
                return Err(
                    internal_error(
                        "client_acquisition_not_completed",
                        "Client acquisition not completed",
                    ),
                );
            },
        };
        if prompts == 0 {
            return Err(internal_error("preparation_not_completed", "No prompts prepared"));
        }
        let fresh = uuid_v7_text();
        let mut shared_request_id = "cmpl_".to_owned();
        shared_request_id.append(fresh.as_str());
        assert(is_uuid_text(fresh@, '7'));
        let mut request_ids: Vec<String> = Vec::new();
        if prompts == 1 {
            request_ids.push(shared_request_id.clone());
            assert(texts(request_ids@) =~= prompt_ids(shared_request_id@, 1));
        } else {
            let mut i: usize = 0;
            while i < prompts
                invariant
                    i <= prompts,
                    prompts != 1,
                    texts(request_ids@) =~= prompt_ids(
                        shared_request_id@,
                        prompts as nat,
                    ).take(i as int),
                decreases prompts - i,
            {
                let ghost before = request_ids@;
                let mut id = shared_request_id.clone();
                id.append("-p");
                id.append(decimal(i as u128).as_str());
                request_ids.push(id);
                assert(texts(request_ids@) =~= texts(before).push(id@));
                i += 1;
            }
        }
        Ok(CompletionBuild { shared_request_id, request_ids, client })
    }

    /// Completes the request for one prompt. Rooms are minted for each.
    pub fn complete(
        &self,
        request: ProtoGenerateRequest,
        request_type: &RequestType,
        workers: Option<&WorkerSelection>,
    ) -> (r: ProtoGenerateRequest)
        requires
            fits_workers(request, self.injects(), workers),
        ensures
            exists|small_room: i32, room: i64|
                0 <= small_room < i32::MAX && 0 <= room < i64::MAX && r@ == #[trigger] completed(
                    request@,
                    self.injects(),
                    *request_type,
                    workers,
                    None,
                    small_room,
                    room,
                ),
    {
        let small_room: i32 = random_room_32();
        let room: i64 = random_room();
        complete_request(
            request,
            self.inject_pd_metadata,
            request_type,
            workers,
            None,
            small_room,
            room,
        )
    }

    /// The plan to execute the requests of all prompts.
    pub fn finish(&self, shared_request_id: String, requests: Vec<ProtoGenerateRequest>) -> (r:
        ExecutionPlan)
        ensures
            if requests@.len() == 1 {
                r == (ExecutionPlan::Generate {
                    kind: self.kind(),
                    request: requests@[0],
                    encode_dispatch: None,
                })
            } else {
                r == (ExecutionPlan::Batch { kind: self.kind(), shared_request_id, requests })
            },
    {
        let mut requests = requests;
        if requests.len() == 1 {
            if let Some(request) = requests.pop() {
                return ExecutionPlan::Generate {
                    kind: self.plan_kind,
                    request,
                    encode_dispatch: None,
                };
            }
        }
        ExecutionPlan::Batch { kind: self.plan_kind, shared_request_id, requests }
    }
}

/// No two prompts of a request share an id.
pub proof fn prompts_have_their_own_ids(shared: Seq<char>, n: nat)
    ensures
        prompt_ids(shared, n).no_duplicates(),
        prompt_ids(shared, n).len() == n,
{
    let ids = prompt_ids(shared, n);
    assert forall|i: int, j: int| 0 <= i < j < ids.len() implies ids[i] != ids[j] by {
        let front = shared + "-p"@;
        assert(ids[i] =~= front + decimal_text(i as nat));
        assert(ids[j] =~= front + decimal_text(j as nat));
        if ids[i] == ids[j] {
            assert(ids[i].skip(front.len() as int) =~= decimal_text(i as nat));
            assert(ids[j].skip(front.len() as int) =~= decimal_text(j as nat));
            decimal_round_trip(i as nat, n);
            decimal_round_trip(j as nat, n);
        }
    }
}

/// Completing a request adds what its workers need and keeps the rest: the id, the
/// stream mode and the media are those that were built, and the prefill worker is told
/// of every item that an encode worker holds, in order.
pub proof fn completion_keeps_the_request(
    built: RequestText,
    inject: bool,
    request_type: RequestType,
    workers: Option<&WorkerSelection>,
    encode: Option<Seq<EncodeItemBootstrapInfo>>,
    small_room: i32,
    room: i64,
    i: int,
)
    ensures
        ({
            let r = completed(
                built,
                inject,
                request_type,
                workers,
                encode,
                small_room,
                room,
            );
            &&& r.engine == built.engine && r.request_id == built.request_id && r.stream
                == built.stream && r.data_parallel_rank == built.data_parallel_rank
            &&& r.sglang_media == built.sglang_media && r.vllm_media == built.vllm_media
                && r.tokenspeed_media == built.tokenspeed_media
            &&& r.kv_transfer_params == built.kv_transfer_params && r.kv_transfer_params_json
                == built.kv_transfer_params_json
            &&& !inject || workers is None ==> r.disaggregated == built.disaggregated
            &&& workers is None ==> r.sampling == built.sampling && r.kv_bootstrap
                == built.kv_bootstrap
            &&& encode is None || built.engine != Engine::TokenSpeed ==> r.encode_bootstrap
                == built.encode_bootstrap
            &&& encode is Some && built.engine == Engine::TokenSpeed ==> {
                &&& r.encode_bootstrap is Some
                &&& r.encode_bootstrap->0.len() == encode->0.len()
                &&& 0 <= i < encode->0.len() ==> r.encode_bootstrap->0[i] == (
                    encode->0[i].item_index,
                    (
                        encode->0[i].bootstrap_host@,
                        encode->0[i].bootstrap_port,
                        encode->0[i].bootstrap_room,
                    ),
                )
            }
        }),
{
}

/// A chat request is built where it was prepared as one and has a client, unless it
/// carries media for a backend that takes none.
pub proof fn chats_are_built_where_they_can_be(
    prep: Option<Preparation>,
    clients: Option<ClientSelection>,
)
    ensures
        chat_problem(prep, clients) is None <==> prep is Some && prep->0 is Chat && clients is Some
            && !(prep->0->has_media && (clients->0 == (ClientSelection::Single {
            client: Engine::Mlx,
        }) || (clients->0 matches ClientSelection::Disaggregated { prefill, .. } && prefill
            == Engine::Mlx))),
        completion_problem(prep, clients) is None <==> prep is Some && prep->0 is Completion
            && clients is Some && prep->0->prompts > 0,
{
}

/// A request that cannot be built is the client's error, and says why.
pub proof fn clients_are_told_what_is_wrong(error: &str, built: ErrorAnswer, media: ErrorAnswer)
    requires
        call_ensures(build_failed, (error,), built),
        call_ensures(media_failed, (error,), media),
    ensures
        built.status == 400,
        media.status == 400,
        media.message@ == error@,
        built.message@.len() >= error@.len(),
        built.message@.skip(built.message@.len() - error@.len()) == error@,
        built.code@ == "invalid_request_parameters"@,
        media.code@ == "multimodal_not_supported"@,
{
    assert(built.message@.skip(built.message@.len() - error@.len()) =~= error@);
}

} // verus!
