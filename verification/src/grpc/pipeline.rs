//! The pipeline of a request: which stages it goes through, and what becomes
//! of what they produce.

use crate::grpc::context::{ExecutionPlanKind, WorkerSelectionMode};
use crate::grpc::error::{
    bad_request, bad_request_text, internal_error, internal_error_text, ErrorAnswer, ErrorText,
};
use crate::grpc::mode::Mode;
use crate::grpc::proto::common::opt_text;
use crate::grpc::proto_wrapper::request::copy_opt;
use vstd::prelude::*;

verus! {

/// Which endpoint a pipeline serves. Selects the endpoint-specific stages; the
/// mode then selects their disaggregation parameters.
#[derive(Clone, Copy, Debug, PartialEq, Eq, Structural)]
pub enum Endpoint {
    Chat,
    Messages,
    Completion,
    Harmony,
    Embeddings,
    Classify,
}

/// A stage of a pipeline, with the parameters that vary with the mode.
#[derive(Clone, Copy, Debug, PartialEq, Eq, Structural)]
pub enum Stage {
    ChatGeneratePreparation,
    MessagePreparation,
    CompletionPreparation,
    HarmonyPreparation,
    EmbeddingPreparation,
    WorkerSelection(WorkerSelectionMode),
    ClientAcquisition,
    Encode,
    ChatGenerateRequestBuilding { inject_pd_metadata: bool, plan_kind: ExecutionPlanKind },
    MessageRequestBuilding { inject_pd_metadata: bool, plan_kind: ExecutionPlanKind },
    CompletionRequestBuilding { inject_pd_metadata: bool, plan_kind: ExecutionPlanKind },
    HarmonyRequestBuilding { inject_pd_metadata: bool, plan_kind: ExecutionPlanKind },
    EmbeddingRequestBuilding,
    DispatchMetadata,
    RequestExecution,
    ChatGenerateResponseProcessing,
    MessageResponseProcessing,
    CompletionResponseProcessing,
    HarmonyResponseProcessing,
    EmbeddingResponseProcessing,
    ClassifyResponseProcessing,
}

/// The endpoint has a pipeline in the mode: Harmony has none with encode
/// workers, and embeddings and classification are for single workers.
pub open spec fn is_served(endpoint: Endpoint, mode: Mode) -> bool {
    match endpoint {
        Endpoint::Chat | Endpoint::Messages | Endpoint::Completion => true,
        Endpoint::Harmony => mode != Mode::EncodePrefillDecode,
        Endpoint::Embeddings | Endpoint::Classify => mode == Mode::Regular,
    }
}

/// How an endpoint prepares a request.
pub open spec fn preparation_of(endpoint: Endpoint) -> Stage {
    match endpoint {
        Endpoint::Chat => Stage::ChatGeneratePreparation,
        Endpoint::Messages => Stage::MessagePreparation,
        Endpoint::Completion => Stage::CompletionPreparation,
        Endpoint::Harmony => Stage::HarmonyPreparation,
        Endpoint::Embeddings | Endpoint::Classify => Stage::EmbeddingPreparation,
    }
}

/// How an endpoint builds a request in a mode.
pub open spec fn building_of(endpoint: Endpoint, mode: Mode) -> Stage {
    let inject_pd_metadata = mode == Mode::PrefillDecode;
    let plan_kind = mode.plans();
    match endpoint {
        Endpoint::Chat => Stage::ChatGenerateRequestBuilding { inject_pd_metadata, plan_kind },
        Endpoint::Messages => Stage::MessageRequestBuilding { inject_pd_metadata, plan_kind },
        Endpoint::Completion => Stage::CompletionRequestBuilding { inject_pd_metadata, plan_kind },
        Endpoint::Harmony => Stage::HarmonyRequestBuilding { inject_pd_metadata, plan_kind },
        Endpoint::Embeddings | Endpoint::Classify => Stage::EmbeddingRequestBuilding,
    }
}

/// How an endpoint processes a response.
pub open spec fn processing_of(endpoint: Endpoint) -> Stage {
    match endpoint {
        Endpoint::Chat => Stage::ChatGenerateResponseProcessing,
        Endpoint::Messages => Stage::MessageResponseProcessing,
        Endpoint::Completion => Stage::CompletionResponseProcessing,
        Endpoint::Harmony => Stage::HarmonyResponseProcessing,
        Endpoint::Embeddings => Stage::EmbeddingResponseProcessing,
        Endpoint::Classify => Stage::ClassifyResponseProcessing,
    }
}

/// The stages of an endpoint in a mode: prepare, select workers, acquire
/// clients, encode where there are encode workers, build, dispatch, execute,
/// process.
pub open spec fn stages_of(endpoint: Endpoint, mode: Mode) -> Seq<Stage> {
    let front = seq![
        preparation_of(endpoint),
        Stage::WorkerSelection(mode.selects()),
        Stage::ClientAcquisition,
    ];
    let encode = if mode == Mode::EncodePrefillDecode {
        seq![Stage::Encode]
    } else {
        Seq::empty()
    };
    let back = seq![
        building_of(endpoint, mode),
        Stage::DispatchMetadata,
        Stage::RequestExecution,
        processing_of(endpoint),
    ];
    front + encode + back
}

/// The metrics bucket of a mode: only the regular one is its own.
pub open spec fn backend_of(mode: Mode) -> Seq<char> {
    if mode == Mode::Regular {
        "regular"@
    } else {
        "pd"@
    }
}

/// Where the parsers of a response come from.
#[derive(Clone, Copy, Debug, PartialEq, Eq, Structural)]
pub enum ParserFactories {
    /// Those that the gateway was set up with.
    Configured,
    Default,
}

/// The processors of a pipeline's responses, for whole ones and for streams: how
/// both find their parsers, and the label that the one for streams reports under.
pub struct Processors {
    pub factories: ParserFactories,
    /// The parser of tool calls that is always taken, if one is.
    pub tool_parser: Option<String>,
    /// The parser of reasoning that is always taken, if one is.
    pub reasoning_parser: Option<String>,
    pub streaming_backend: &'static str,
}

/// What [`Processors`] says.
pub struct ProcessorsText {
    pub factories: ParserFactories,
    pub tool_parser: Option<Seq<char>>,
    pub reasoning_parser: Option<Seq<char>>,
    pub streaming_backend: Seq<char>,
}

impl View for Processors {
    type V = ProcessorsText;

    open spec fn view(&self) -> ProcessorsText {
        ProcessorsText {
            factories: self.factories,
            tool_parser: opt_text(self.tool_parser),
            reasoning_parser: opt_text(self.reasoning_parser),
            streaming_backend: self.streaming_backend@,
        }
    }
}

/// What pipelines are built from. The configured parsers are for the chat,
/// messages and Harmony processors; completion has default ones, and embeddings
/// and classification have none.
pub struct PipelineDeps {
    configured_tool_parser: Option<String>,
    configured_reasoning_parser: Option<String>,
}

impl PipelineDeps {
    pub closed spec fn tool_parser(&self) -> Option<Seq<char>> {
        opt_text(self.configured_tool_parser)
    }

    pub closed spec fn reasoning_parser(&self) -> Option<Seq<char>> {
        opt_text(self.configured_reasoning_parser)
    }

    /// For the endpoints that use the configured parsers.
    pub fn new(
        configured_tool_parser: Option<String>,
        configured_reasoning_parser: Option<String>,
    ) -> (r: Self)
        ensures
            r.tool_parser() == opt_text(configured_tool_parser),
            r.reasoning_parser() == opt_text(configured_reasoning_parser),
    {
        PipelineDeps { configured_tool_parser, configured_reasoning_parser }
    }

    /// For the endpoints that do not.
    pub fn pair() -> (r: Self)
        ensures
            r.tool_parser() is None,
            r.reasoning_parser() is None,
    {
        PipelineDeps { configured_tool_parser: None, configured_reasoning_parser: None }
    }

    fn configured_processors(&self, backend: &'static str) -> (r: Processors)
        ensures
            r@ == (ProcessorsText {
                factories: ParserFactories::Configured,
                tool_parser: self.tool_parser(),
                reasoning_parser: self.reasoning_parser(),
                streaming_backend: backend@,
            }),
    {
        Processors {
            factories: ParserFactories::Configured,
            tool_parser: copy_opt(&self.configured_tool_parser),
            reasoning_parser: copy_opt(&self.configured_reasoning_parser),
            streaming_backend: backend,
        }
    }

    fn default_processors(backend: &'static str) -> (r: Processors)
        ensures
            r@ == (ProcessorsText {
                factories: ParserFactories::Default,
                tool_parser: None,
                reasoning_parser: None,
                streaming_backend: backend@,
            }),
    {
        Processors {
            factories: ParserFactories::Default,
            tool_parser: None,
            reasoning_parser: None,
            streaming_backend: backend,
        }
    }
}

/// The processors of an endpoint's responses in a mode.
pub open spec fn processors_of(endpoint: Endpoint, mode: Mode, deps: PipelineDeps) -> Option<
    ProcessorsText,
> {
    match endpoint {
        Endpoint::Chat | Endpoint::Messages | Endpoint::Harmony => Some(
            ProcessorsText {
                factories: ParserFactories::Configured,
                tool_parser: deps.tool_parser(),
                reasoning_parser: deps.reasoning_parser(),
                streaming_backend: backend_of(mode),
            },
        ),
        Endpoint::Completion => Some(
            ProcessorsText {
                factories: ParserFactories::Default,
                tool_parser: None,
                reasoning_parser: None,
                streaming_backend: backend_of(mode),
            },
        ),
        Endpoint::Embeddings | Endpoint::Classify => None,
    }
}

/// A request pipeline.
pub struct RequestPipeline {
    stages: Vec<Stage>,
    processors: Option<Processors>,
    /// Backend type for metrics labeling
    backend_type: &'static str,
}

fn plan_name(kind: ExecutionPlanKind) -> (r: &'static str)
    ensures
        r@ == match kind {
            ExecutionPlanKind::Single => "Single"@,
            ExecutionPlanKind::PrefillDecode => "PrefillDecode"@,
            ExecutionPlanKind::EncodePrefillDecode => "EncodePrefillDecode"@,
        },
{
    match kind {
        ExecutionPlanKind::Single => "Single",
        ExecutionPlanKind::PrefillDecode => "PrefillDecode",
        ExecutionPlanKind::EncodePrefillDecode => "EncodePrefillDecode",
    }
}

/// The parameters of a request-building stage, in words.
pub open spec fn building_args(inject_pd_metadata: bool, kind: ExecutionPlanKind) -> Seq<char> {
    "(inject_pd_metadata="@ + (if inject_pd_metadata {
        "true"@
    } else {
        "false"@
    }) + ", "@ + (match kind {
        ExecutionPlanKind::Single => "Single"@,
        ExecutionPlanKind::PrefillDecode => "PrefillDecode"@,
        ExecutionPlanKind::EncodePrefillDecode => "EncodePrefillDecode"@,
    }) + ")"@
}

fn building_signature(name: &str, inject_pd_metadata: bool, kind: ExecutionPlanKind) -> (r: String)
    ensures
        r@ == name@ + building_args(inject_pd_metadata, kind),
{
    let mut s = "(inject_pd_metadata=".to_owned();
    s.append(
        if inject_pd_metadata {
            "true"
        } else {
            "false"
        },
    );
    s.append(", ");
    s.append(plan_name(kind));
    s.append(")");
    let mut r = name.to_owned();
    r.append(s.as_str());
    r
}

impl Stage {
    /// The stage and its parameters, in words.
    pub open spec fn text(self) -> Seq<char> {
        match self {
            Stage::ChatGeneratePreparation => "ChatGeneratePreparationStage"@,
            Stage::MessagePreparation => "MessagePreparationStage"@,
            Stage::CompletionPreparation => "CompletionPreparationStage"@,
            Stage::HarmonyPreparation => "HarmonyPreparationStage"@,
            Stage::EmbeddingPreparation => "EmbeddingPreparationStage"@,
            Stage::WorkerSelection(WorkerSelectionMode::Regular) =>
                "WorkerSelectionStage(Regular)"@,
            Stage::WorkerSelection(WorkerSelectionMode::PrefillDecode) =>
                "WorkerSelectionStage(PrefillDecode)"@,
            Stage::WorkerSelection(WorkerSelectionMode::EncodePrefillDecode) =>
                "WorkerSelectionStage(EncodePrefillDecode)"@,
            Stage::ClientAcquisition => "ClientAcquisitionStage"@,
            Stage::Encode => "EncodeStage"@,
            Stage::ChatGenerateRequestBuilding { inject_pd_metadata, plan_kind } =>
                "ChatGenerateRequestBuildingStage("@ + ("ChatRequestBuildingStage"@
                + building_args(inject_pd_metadata, plan_kind)) + ", "@ + (
            "GenerateRequestBuildingStage"@ + building_args(inject_pd_metadata, plan_kind)) + ")"@,
            Stage::MessageRequestBuilding { inject_pd_metadata, plan_kind } =>
                "MessageRequestBuildingStage"@ + building_args(inject_pd_metadata, plan_kind),
            Stage::CompletionRequestBuilding { inject_pd_metadata, plan_kind } =>
                "CompletionRequestBuildingStage"@ + building_args(inject_pd_metadata, plan_kind),
            Stage::HarmonyRequestBuilding { inject_pd_metadata, plan_kind } =>
                "HarmonyRequestBuildingStage"@ + building_args(inject_pd_metadata, plan_kind),
            Stage::EmbeddingRequestBuilding => "EmbeddingRequestBuildingStage"@,
            Stage::DispatchMetadata => "DispatchMetadataStage"@,
            Stage::RequestExecution => "RequestExecutionStage"@,
            Stage::ChatGenerateResponseProcessing => "ChatGenerateResponseProcessingStage"@,
            Stage::MessageResponseProcessing => "MessageResponseProcessingStage"@,
            Stage::CompletionResponseProcessing => "CompletionResponseProcessingStage"@,
            Stage::HarmonyResponseProcessing => "HarmonyResponseProcessingStage"@,
            Stage::EmbeddingResponseProcessing => "EmbeddingResponseProcessingStage"@,
            Stage::ClassifyResponseProcessing => "ClassifyResponseProcessingStage"@,
        }
    }

    /// The stage and its parameters, in words.
    pub fn signature(&self) -> (r: String)
        ensures
            r@ == self.text(),
    {
        match self {
            Stage::ChatGeneratePreparation => "ChatGeneratePreparationStage".to_owned(),
            Stage::MessagePreparation => "MessagePreparationStage".to_owned(),
            Stage::CompletionPreparation => "CompletionPreparationStage".to_owned(),
            Stage::HarmonyPreparation => "HarmonyPreparationStage".to_owned(),
            Stage::EmbeddingPreparation => "EmbeddingPreparationStage".to_owned(),
            Stage::WorkerSelection(mode) => match mode {
                WorkerSelectionMode::Regular => "WorkerSelectionStage(Regular)".to_owned(),
                WorkerSelectionMode::PrefillDecode =>
                    "WorkerSelectionStage(PrefillDecode)".to_owned(),
                WorkerSelectionMode::EncodePrefillDecode =>
                    "WorkerSelectionStage(EncodePrefillDecode)".to_owned(),
            },
            Stage::ClientAcquisition => "ClientAcquisitionStage".to_owned(),
            Stage::Encode => "EncodeStage".to_owned(),
            Stage::ChatGenerateRequestBuilding { inject_pd_metadata, plan_kind } => {
                let mut s = "ChatGenerateRequestBuildingStage(".to_owned();
                let chat = building_signature(
                    "ChatRequestBuildingStage",
                    *inject_pd_metadata,
                    *plan_kind,
                );
                s.append(chat.as_str());
                s.append(", ");
                let generate = building_signature(
                    "GenerateRequestBuildingStage",
                    *inject_pd_metadata,
                    *plan_kind,
                );
                s.append(generate.as_str());
                s.append(")");
                s
            },
            Stage::MessageRequestBuilding { inject_pd_metadata, plan_kind } => building_signature(
                "MessageRequestBuildingStage",
                *inject_pd_metadata,
                *plan_kind,
            ),
            Stage::CompletionRequestBuilding { inject_pd_metadata, plan_kind } =>
                building_signature(
                "CompletionRequestBuildingStage",
                *inject_pd_metadata,
                *plan_kind,
            ),
            Stage::HarmonyRequestBuilding { inject_pd_metadata, plan_kind } => building_signature(
                "HarmonyRequestBuildingStage",
                *inject_pd_metadata,
                *plan_kind,
            ),
            Stage::EmbeddingRequestBuilding => "EmbeddingRequestBuildingStage".to_owned(),
            Stage::DispatchMetadata => "DispatchMetadataStage".to_owned(),
            Stage::RequestExecution => "RequestExecutionStage".to_owned(),
            Stage::ChatGenerateResponseProcessing =>
                "ChatGenerateResponseProcessingStage".to_owned(),
            Stage::MessageResponseProcessing => "MessageResponseProcessingStage".to_owned(),
            Stage::CompletionResponseProcessing => "CompletionResponseProcessingStage".to_owned(),
            Stage::HarmonyResponseProcessing => "HarmonyResponseProcessingStage".to_owned(),
            Stage::EmbeddingResponseProcessing => "EmbeddingResponseProcessingStage".to_owned(),
            Stage::ClassifyResponseProcessing => "ClassifyResponseProcessingStage".to_owned(),
        }
    }
}

/// What a stage made of a request.
#[derive(Clone, Copy, Debug, PartialEq, Eq, Structural)]
pub enum StageOutcome {
    /// The next stage goes on.
    Continue,
    /// The stage answered the request itself.
    Responded,
    /// The stage failed, with an answer.
    Failed,
}

/// What a run of the pipeline is for: the response it must end with, and the
/// label under which it is metered.
#[derive(Clone, Copy, Debug, PartialEq, Eq, Structural)]
pub enum RunKind {
    Chat,
    Generate,
    Completion,
    Embeddings,
    Classify,
    Messages,
    /// A chat for the Responses endpoint, which does not stream this way.
    ChatForResponses,
    /// One iteration for the Responses endpoint.
    HarmonyResponses,
    /// One iteration for the Responses endpoint that is streamed.
    HarmonyResponsesStreaming,
}

/// What a pipeline can end with.
#[derive(Clone, Copy, Debug, PartialEq, Eq, Structural)]
pub enum FinalResponse {
    Chat,
    Generate,
    Completion,
    Embedding,
    Classify,
    Messages,
    IterationResult,
    ExecutionResult,
}

/// The label of an endpoint in the metrics.
#[derive(Clone, Copy, Debug, PartialEq, Eq, Structural)]
pub enum EndpointLabel {
    Chat,
    Generate,
    Completions,
    Embeddings,
    Classify,
    Messages,
}

impl RunKind {
    /// The label under which the run is metered, none where it is not.
    pub fn metrics_label(self) -> (r: Option<EndpointLabel>)
        ensures
            r is Some <==> self.is_metered(),
            r == match self {
                RunKind::Chat => Some(EndpointLabel::Chat),
                RunKind::Generate => Some(EndpointLabel::Generate),
                RunKind::Completion => Some(EndpointLabel::Completions),
                RunKind::Embeddings => Some(EndpointLabel::Embeddings),
                RunKind::Classify => Some(EndpointLabel::Classify),
                RunKind::Messages => Some(EndpointLabel::Messages),
                _ => None,
            },
    {
        match self {
            RunKind::Chat => Some(EndpointLabel::Chat),
            RunKind::Generate => Some(EndpointLabel::Generate),
            RunKind::Completion => Some(EndpointLabel::Completions),
            RunKind::Embeddings => Some(EndpointLabel::Embeddings),
            RunKind::Classify => Some(EndpointLabel::Classify),
            RunKind::Messages => Some(EndpointLabel::Messages),
            RunKind::ChatForResponses => None,
            RunKind::HarmonyResponses => None,
            RunKind::HarmonyResponsesStreaming => None,
        }
    }

    /// The response the run must end with.
    pub open spec fn expects(self) -> FinalResponse {
        match self {
            RunKind::Chat | RunKind::ChatForResponses => FinalResponse::Chat,
            RunKind::Generate => FinalResponse::Generate,
            RunKind::Completion => FinalResponse::Completion,
            RunKind::Embeddings => FinalResponse::Embedding,
            RunKind::Classify => FinalResponse::Classify,
            RunKind::Messages => FinalResponse::Messages,
            RunKind::HarmonyResponses => FinalResponse::IterationResult,
            RunKind::HarmonyResponsesStreaming => FinalResponse::ExecutionResult,
        }
    }

    /// The run answers a client directly, and is metered as such.
    pub open spec fn is_metered(self) -> bool {
        !(self is ChatForResponses || self is HarmonyResponses
            || self is HarmonyResponsesStreaming)
    }

    /// A missing or wrong response counts as a router error.
    pub open spec fn meters_missing_response(self) -> bool {
        self is Chat || self is Generate || self is Completion || self is Messages
    }

    /// What is said where the response is missing.
    pub open spec fn missing(self) -> ErrorText {
        match self {
            RunKind::HarmonyResponses => internal_error_text(
                "no_responses_iteration_result"@,
                "No ResponsesIterationResult produced by pipeline"@,
            ),
            RunKind::HarmonyResponsesStreaming => internal_error_text(
                "no_execution_result_produced"@,
                "No ExecutionResult produced by pipeline"@,
            ),
            _ => internal_error_text("no_response_produced"@, "No response produced"@),
        }
    }
}

/// What to do after a stage.
pub enum RunStep {
    /// Run the stage at this position.
    RunStage(usize),
    /// All stages ran: the request ends with what they left.
    Conclude,
    /// The stage's answer is the answer to the request.
    ReturnAnswer {
        /// It answers the request well.
        success: bool,
        /// It is metered.
        metered: bool,
    },
    /// The request is refused.
    Refuse(ErrorAnswer),
}

/// What a run of the pipeline comes to.
pub enum Conclusion {
    Deliver,
    Refuse {
        answer: ErrorAnswer,
        /// It counts as a router error.
        metered: bool,
    },
}

/// A request on its way through the pipeline.
pub struct PipelineRun {
    kind: RunKind,
    next: usize,
    stage_count: usize,
    /// The run was answered, refused or concluded.
    over: bool,
}

impl PipelineRun {
    pub closed spec fn run_kind(&self) -> RunKind {
        self.kind
    }

    /// The stage that is running.
    pub closed spec fn position(&self) -> int {
        self.next as int
    }

    pub closed spec fn stage_total(&self) -> int {
        self.stage_count as int
    }

    pub closed spec fn is_over(&self) -> bool {
        self.over
    }

    /// A stage is running, or there is none left.
    pub open spec fn wf(&self) -> bool {
        0 <= self.position() <= self.stage_total()
    }

    /// What comes first: the first stage, or the end where there is none.
    pub fn start(&self) -> (r: RunStep)
        requires
            self.wf(),
            self.position() == 0,
        ensures
            r == if self.stage_total() > 0 {
                RunStep::RunStage(0)
            } else {
                RunStep::Conclude
            },
    {
        if self.stage_count > 0 {
            RunStep::RunStage(0)
        } else {
            RunStep::Conclude
        }
    }

    /// What to do after the running stage: go on until one answers or fails.
    /// For the Responses endpoint an answer in between is not expected: a chat
    /// that streams is refused, and an iteration fails with the answer.
    pub fn step(&mut self, outcome: StageOutcome) -> (r: RunStep)
        requires
            old(self).wf(),
            !old(self).is_over(),
            old(self).position() < old(self).stage_total(),
        ensures
            final(self).wf(),
            final(self).run_kind() == old(self).run_kind(),
            final(self).stage_total() == old(self).stage_total(),
            outcome == StageOutcome::Continue ==> {
                &&& final(self).position() == old(self).position() + 1
                &&& !final(self).is_over()
                &&& r == if final(self).position() < final(self).stage_total() {
                    RunStep::RunStage(final(self).position() as usize)
                } else {
                    RunStep::Conclude
                }
            },
            outcome != StageOutcome::Continue ==> final(self).is_over(),
            outcome == StageOutcome::Failed ==> r == (RunStep::ReturnAnswer {
                success: false,
                metered: old(self).run_kind().is_metered(),
            }),
            outcome == StageOutcome::Responded ==> match old(self).run_kind() {
                RunKind::ChatForResponses => r is Refuse && r->Refuse_0@ == bad_request_text(
                    "streaming_not_supported"@,
                    "Streaming is not supported in this context"@,
                ),
                kind => r == (RunStep::ReturnAnswer {
                    success: kind.is_metered(),
                    metered: kind.is_metered(),
                }),
            },
    {
        let metered = !matches!(
            self.kind,
            RunKind::ChatForResponses | RunKind::HarmonyResponses
                | RunKind::HarmonyResponsesStreaming
        );
        match outcome {
            StageOutcome::Continue => {
                self.next = self.next + 1;
                if self.next < self.stage_count {
                    RunStep::RunStage(self.next)
                } else {
                    RunStep::Conclude
                }
            },
            StageOutcome::Failed => {
                self.over = true;
                RunStep::ReturnAnswer { success: false, metered }
            },
            StageOutcome::Responded => {
                self.over = true;
                match self.kind {
                    RunKind::ChatForResponses => RunStep::Refuse(
                        bad_request(
                            "streaming_not_supported",
                            "Streaming is not supported in this context",
                        ),
                    ),
                    _ => RunStep::ReturnAnswer { success: metered, metered },
                }
            },
        }
    }

    /// What the request ends with, once all stages ran.
    pub fn conclude(&self, found: Option<FinalResponse>) -> (r: Conclusion)
        requires
            self.wf(),
            self.position() == self.stage_total(),
        ensures
            match found {
                Some(response) => if response == self.run_kind().expects() {
                    r is Deliver
                } else {
                    &&& r is Refuse
                    &&& r->answer@ == internal_error_text(
                        "wrong_response_type"@,
                        "Internal error: wrong response type"@,
                    )
                    &&& r->metered == self.run_kind().meters_missing_response()
                },
                None => {
                    &&& r is Refuse
                    &&& r->answer@ == self.run_kind().missing()
                    &&& r->metered == self.run_kind().meters_missing_response()
                },
            },
    {
        let expected: FinalResponse = match self.kind {
            RunKind::Chat | RunKind::ChatForResponses => FinalResponse::Chat,
            RunKind::Generate => FinalResponse::Generate,
            RunKind::Completion => FinalResponse::Completion,
            RunKind::Embeddings => FinalResponse::Embedding,
            RunKind::Classify => FinalResponse::Classify,
            RunKind::Messages => FinalResponse::Messages,
            RunKind::HarmonyResponses => FinalResponse::IterationResult,
            RunKind::HarmonyResponsesStreaming => FinalResponse::ExecutionResult,
        };
        let metered = matches!(
            self.kind,
            RunKind::Chat | RunKind::Generate | RunKind::Completion | RunKind::Messages
        );
        match found {
            Some(response) => if response == expected {
                Conclusion::Deliver
            } else {
                Conclusion::Refuse {
                    answer: internal_error(
                        "wrong_response_type",
                        "Internal error: wrong response type",
                    ),
                    metered,
                }
            },
            None => Conclusion::Refuse {
                answer: match self.kind {
                    RunKind::HarmonyResponses => internal_error(
                        "no_responses_iteration_result",
                        "No ResponsesIterationResult produced by pipeline",
                    ),
                    RunKind::HarmonyResponsesStreaming => internal_error(
                        "no_execution_result_produced",
                        "No ExecutionResult produced by pipeline",
                    ),
                    _ => internal_error("no_response_produced", "No response produced"),
                },
                metered,
            },
        }
    }
}

impl RequestPipeline {
    pub closed spec fn stage_list(&self) -> Seq<Stage> {
        self.stages@
    }

    pub closed spec fn backend(&self) -> Seq<char> {
        self.backend_type@
    }

    pub closed spec fn processing(&self) -> Option<ProcessorsText> {
        match self.processors {
            Some(p) => Some(p@),
            None => None,
        }
    }

    /// Build the pipeline for `endpoint` in the given disaggregation `mode`.
    /// `None` for combinations that have no pipeline.
    pub fn build(endpoint: Endpoint, mode: Mode, deps: &PipelineDeps) -> (r: Option<Self>)
        ensures
            r is Some <==> is_served(endpoint, mode),
            r matches Some(p) ==> {
                &&& p.stage_list() == stages_of(endpoint, mode)
                &&& p.backend() == backend_of(mode)
                &&& p.processing() == processors_of(endpoint, mode, *deps)
            },
    {
        let regular = matches!(mode, Mode::Regular);
        let epd = matches!(mode, Mode::EncodePrefillDecode);
        // Both disaggregated modes report to one metrics bucket.
        let backend_type: &'static str = if regular {
            "regular"
        } else {
            "pd"
        };
        let inject_pd_metadata = mode.inject_pd_metadata();
        let plan_kind = mode.plan_kind();
        let served = match endpoint {
            Endpoint::Chat | Endpoint::Messages | Endpoint::Completion => true,
            Endpoint::Harmony => !epd,
            Endpoint::Embeddings | Endpoint::Classify => regular,
        };
        if !served {
            return None;
        }
        let preparation: Stage = match endpoint {
            Endpoint::Chat => Stage::ChatGeneratePreparation,
            Endpoint::Messages => Stage::MessagePreparation,
            Endpoint::Completion => Stage::CompletionPreparation,
            Endpoint::Harmony => Stage::HarmonyPreparation,
            Endpoint::Embeddings | Endpoint::Classify => Stage::EmbeddingPreparation,
        };
        let building: Stage = match endpoint {
            Endpoint::Chat => Stage::ChatGenerateRequestBuilding { inject_pd_metadata, plan_kind },
            Endpoint::Messages => Stage::MessageRequestBuilding { inject_pd_metadata, plan_kind },
            Endpoint::Completion => Stage::CompletionRequestBuilding {
                inject_pd_metadata,
                plan_kind,
            },
            Endpoint::Harmony => Stage::HarmonyRequestBuilding { inject_pd_metadata, plan_kind },
            Endpoint::Embeddings | Endpoint::Classify => Stage::EmbeddingRequestBuilding,
        };
        let processing: Stage = match endpoint {
            Endpoint::Chat => Stage::ChatGenerateResponseProcessing,
            Endpoint::Messages => Stage::MessageResponseProcessing,
            Endpoint::Completion => Stage::CompletionResponseProcessing,
            Endpoint::Harmony => Stage::HarmonyResponseProcessing,
            Endpoint::Embeddings => Stage::EmbeddingResponseProcessing,
            Endpoint::Classify => Stage::ClassifyResponseProcessing,
        };
        let mut stages: Vec<Stage> = Vec::new();
        stages.push(preparation);
        stages.push(Stage::WorkerSelection(mode.worker_selection()));
        stages.push(Stage::ClientAcquisition);
        if epd {
            stages.push(Stage::Encode);
        }
        stages.push(building);
        stages.push(Stage::DispatchMetadata);
        stages.push(Stage::RequestExecution);
        stages.push(processing);
        assert(stages@ =~= stages_of(endpoint, mode));
        let processors: Option<Processors> = match endpoint {
            Endpoint::Chat | Endpoint::Messages | Endpoint::Harmony => Some(
                deps.configured_processors(backend_type),
            ),
            Endpoint::Completion => Some(PipelineDeps::default_processors(backend_type)),
            Endpoint::Embeddings | Endpoint::Classify => None,
        };
        Some(RequestPipeline { stages, processors, backend_type })
    }

    /// The processors of responses; none where a response needs no parsing.
    pub fn processors(&self) -> (r: Option<&Processors>)
        ensures
            self.processing() == match r {
                Some(p) => Some(p@),
                None => None,
            },
    {
        match &self.processors {
            Some(p) => Some(p),
            None => None,
        }
    }

    /// The stages, in order.
    pub fn stages(&self) -> (r: &Vec<Stage>)
        ensures
            r@ == self.stage_list(),
    {
        &self.stages
    }

    pub fn backend_type(&self) -> (r: &'static str)
        ensures
            r@ == self.backend(),
    {
        self.backend_type
    }

    fn run(&self, kind: RunKind) -> (r: PipelineRun)
        ensures
            r.wf(),
            !r.is_over(),
            r.position() == 0,
            r.stage_total() == self.stage_list().len(),
            r.run_kind() == kind,
    {
        PipelineRun { kind, next: 0, stage_count: self.stages.len(), over: false }
    }

    /// Execute the pipeline for a chat request.
    pub fn execute_chat(&self) -> (r: PipelineRun)
        ensures
            r.wf(),
            !r.is_over(),
            r.position() == 0,
            r.stage_total() == self.stage_list().len(),
            r.run_kind() == RunKind::Chat,
    {
        self.run(RunKind::Chat)
    }

    /// Execute the pipeline for a generate request.
    pub fn execute_generate(&self) -> (r: PipelineRun)
        ensures
            r.wf(),
            !r.is_over(),
            r.position() == 0,
            r.stage_total() == self.stage_list().len(),
            r.run_kind() == RunKind::Generate,
    {
        self.run(RunKind::Generate)
    }

    /// Execute the pipeline for a completion request.
    pub fn execute_completion(&self) -> (r: PipelineRun)
        ensures
            r.wf(),
            !r.is_over(),
            r.position() == 0,
            r.stage_total() == self.stage_list().len(),
            r.run_kind() == RunKind::Completion,
    {
        self.run(RunKind::Completion)
    }

    /// Execute the pipeline for an embedding request.
    pub fn execute_embeddings(&self) -> (r: PipelineRun)
        ensures
            r.wf(),
            !r.is_over(),
            r.position() == 0,
            r.stage_total() == self.stage_list().len(),
            r.run_kind() == RunKind::Embeddings,
    {
        self.run(RunKind::Embeddings)
    }

    /// Execute the pipeline for a classify request.
    pub fn execute_classify(&self) -> (r: PipelineRun)
        ensures
            r.wf(),
            !r.is_over(),
            r.position() == 0,
            r.stage_total() == self.stage_list().len(),
            r.run_kind() == RunKind::Classify,
    {
        self.run(RunKind::Classify)
    }

    /// Execute the pipeline for a Messages API request.
    pub fn execute_messages(&self) -> (r: PipelineRun)
        ensures
            r.wf(),
            !r.is_over(),
            r.position() == 0,
            r.stage_total() == self.stage_list().len(),
            r.run_kind() == RunKind::Messages,
    {
        self.run(RunKind::Messages)
    }

    /// Execute the pipeline for a chat for the Responses endpoint, which
    /// does not stream this way.
    pub fn execute_chat_for_responses(&self) -> (r: PipelineRun)
        ensures
            r.wf(),
            !r.is_over(),
            r.position() == 0,
            r.stage_total() == self.stage_list().len(),
            r.run_kind() == RunKind::ChatForResponses,
    {
        self.run(RunKind::ChatForResponses)
    }

    /// Execute the pipeline for one iteration for the Responses endpoint.
    pub fn execute_harmony_responses(&self) -> (r: PipelineRun)
        ensures
            r.wf(),
            !r.is_over(),
            r.position() == 0,
            r.stage_total() == self.stage_list().len(),
            r.run_kind() == RunKind::HarmonyResponses,
    {
        self.run(RunKind::HarmonyResponses)
    }

    /// Execute the pipeline for one streamed iteration for the Responses
    /// endpoint.
    pub fn execute_harmony_responses_streaming(&self) -> (r: PipelineRun)
        ensures
            r.wf(),
            !r.is_over(),
            r.position() == 0,
            r.stage_total() == self.stage_list().len(),
            r.run_kind() == RunKind::HarmonyResponsesStreaming,
    {
        self.run(RunKind::HarmonyResponsesStreaming)
    }
}

/// Every pipeline begins by preparing the request, executes it once and ends by
/// processing the response; what needs workers comes after they were selected.
pub proof fn stages_are_in_order(endpoint: Endpoint, mode: Mode)
    ensures
        ({
            let s = stages_of(endpoint, mode);
            &&& s.len() == if mode == Mode::EncodePrefillDecode {
                8nat
            } else {
                7nat
            }
            &&& s[0] == preparation_of(endpoint)
            &&& s[1] == Stage::WorkerSelection(mode.selects())
            &&& s[2] == Stage::ClientAcquisition
            &&& s.last() == processing_of(endpoint)
            &&& forall|i: int|
                0 <= i < s.len() ==> (#[trigger] s[i] == Stage::RequestExecution <==> i == s.len()
                    - 2)
            &&& forall|i: int|
                0 <= i < s.len() ==> (#[trigger] s[i] == Stage::Encode <==> mode
                    == Mode::EncodePrefillDecode && i == 3)
        }),
{
}

/// Every endpoint is served by single workers; with a prefill and a decode worker,
/// those that generate are; with encode workers, those that may carry media.
pub proof fn generation_is_served_in_every_mode(endpoint: Endpoint)
    ensures
        is_served(endpoint, Mode::Regular),
        is_served(endpoint, Mode::PrefillDecode) <==> !(endpoint is Embeddings
            || endpoint is Classify),
        is_served(endpoint, Mode::EncodePrefillDecode) <==> endpoint is Chat || endpoint is Messages
            || endpoint is Completion,
{
}

/// The stages of a pipeline follow its mode: workers are selected for it, the plan
/// is for it, and bootstrap metadata is injected where there is a prefill worker
/// but no encode worker.
pub proof fn stages_follow_the_mode(endpoint: Endpoint, mode: Mode, i: int)
    requires
        0 <= i < stages_of(endpoint, mode).len(),
    ensures
        stages_of(endpoint, mode)[i] matches Stage::WorkerSelection(m) ==> (m is Regular <==> mode
            is Regular) && (m is PrefillDecode <==> mode is PrefillDecode) && (m
            is EncodePrefillDecode <==> mode is EncodePrefillDecode),
        ({
            let built = match stages_of(endpoint, mode)[i] {
                Stage::ChatGenerateRequestBuilding { inject_pd_metadata, plan_kind } => Some(
                    (inject_pd_metadata, plan_kind),
                ),
                Stage::MessageRequestBuilding { inject_pd_metadata, plan_kind } => Some(
                    (inject_pd_metadata, plan_kind),
                ),
                Stage::CompletionRequestBuilding { inject_pd_metadata, plan_kind } => Some(
                    (inject_pd_metadata, plan_kind),
                ),
                Stage::HarmonyRequestBuilding { inject_pd_metadata, plan_kind } => Some(
                    (inject_pd_metadata, plan_kind),
                ),
                _ => None,
            };
            built matches Some((inject, plan)) ==> {
                &&& inject <==> mode is PrefillDecode
                &&& plan is Single <==> mode is Regular
                &&& plan is PrefillDecode <==> mode is PrefillDecode
                &&& plan is EncodePrefillDecode <==> mode is EncodePrefillDecode
            }
        }),
{
}

/// The stages that an endpoint has of its own are its own: a request is prepared,
/// built and answered as one of its endpoint.
pub proof fn stages_follow_the_endpoint(endpoint: Endpoint, mode: Mode)
    ensures
        ({
            let s = stages_of(endpoint, mode);
            let build = s[s.len() - 4];
            let last = s[s.len() - 1];
            &&& s[s.len() - 3] is DispatchMetadata
            &&& s[s.len() - 2] is RequestExecution
            &&& endpoint is Chat <==> s[0] is ChatGeneratePreparation
            &&& endpoint is Chat <==> build is ChatGenerateRequestBuilding
            &&& endpoint is Chat <==> last is ChatGenerateResponseProcessing
            &&& endpoint is Messages <==> s[0] is MessagePreparation
            &&& endpoint is Messages <==> build is MessageRequestBuilding
            &&& endpoint is Messages <==> last is MessageResponseProcessing
            &&& endpoint is Completion <==> s[0] is CompletionPreparation
            &&& endpoint is Completion <==> build is CompletionRequestBuilding
            &&& endpoint is Completion <==> last is CompletionResponseProcessing
            &&& endpoint is Harmony <==> s[0] is HarmonyPreparation
            &&& endpoint is Harmony <==> build is HarmonyRequestBuilding
            &&& endpoint is Harmony <==> last is HarmonyResponseProcessing
            &&& endpoint is Embeddings || endpoint is Classify <==> s[0] is EmbeddingPreparation
            &&& endpoint is Embeddings || endpoint is Classify <==> build
                is EmbeddingRequestBuilding
            &&& endpoint is Embeddings <==> last is EmbeddingResponseProcessing
            &&& endpoint is Classify <==> last is ClassifyResponseProcessing
        }),
{
}

/// Responses are parsed as configured for the endpoints of chats, plainly for
/// completions, and not at all for the others; streams report under the label of
/// the mode.
pub proof fn configured_parsers_are_for_chats(endpoint: Endpoint, mode: Mode, deps: PipelineDeps)
    ensures
        processors_of(endpoint, mode, deps) is None <==> endpoint is Embeddings || endpoint
            is Classify,
        processors_of(endpoint, mode, deps) matches Some(p) ==> {
            &&& p.factories is Default <==> endpoint is Completion
            &&& endpoint is Completion ==> p.tool_parser is None && p.reasoning_parser is None
            &&& !(endpoint is Completion) ==> p.tool_parser == deps.tool_parser()
                && p.reasoning_parser == deps.reasoning_parser()
            &&& mode is Regular ==> p.streaming_backend == "regular"@
            &&& !(mode is Regular) ==> p.streaming_backend == "pd"@
        },
{
}

/// A run ends with a response of its own kind; no two kinds end with the same one,
/// but for chats, which the Responses endpoint runs too.
pub proof fn runs_end_with_their_own_response(a: RunKind, b: RunKind)
    ensures
        a.expects() == b.expects() ==> a == b || ((a is Chat || a is ChatForResponses) && (b is Chat
            || b is ChatForResponses)),
        RunKind::Chat.expects() is Chat,
        RunKind::ChatForResponses.expects() is Chat,
        RunKind::Generate.expects() is Generate,
        RunKind::Completion.expects() is Completion,
        RunKind::Embeddings.expects() is Embedding,
        RunKind::Classify.expects() is Classify,
        RunKind::Messages.expects() is Messages,
{
}

/// What the Responses endpoint runs is not metered as a request; an error of a run
/// that is not metered is not either.
pub proof fn inner_runs_are_not_metered(kind: RunKind)
    ensures
        kind is ChatForResponses || kind is HarmonyResponses || kind is HarmonyResponsesStreaming
            <==> !kind.is_metered(),
        kind.meters_missing_response() ==> kind.is_metered(),
        kind is Embeddings || kind is Classify ==> kind.is_metered()
            && !kind.meters_missing_response(),
        kind.is_metered() && !(kind is Embeddings || kind is Classify)
            ==> kind.meters_missing_response(),
        kind.missing().status == 500,
        kind is HarmonyResponses ==> kind.missing().code == "no_responses_iteration_result"@,
        kind is HarmonyResponsesStreaming ==> kind.missing().code
            == "no_execution_result_produced"@,
        !(kind is HarmonyResponses || kind is HarmonyResponsesStreaming) ==> kind.missing().code
            == "no_response_produced"@,
{
}

/// A run goes on, stage by stage, until one answers or fails; then it is over. A
/// failure is the answer and no success; an answer in between is a success for a
/// client, and a refusal for a chat of the Responses endpoint.
pub proof fn runs_stop_at_the_first_answer(run: &mut PipelineRun, outcome: StageOutcome, r: RunStep)
    requires
        call_ensures(PipelineRun::step, (run, outcome), r),
        old(run).position() < old(run).stage_total() <= usize::MAX,
    ensures
        final(run).run_kind() == old(run).run_kind(),
        outcome is Continue <==> !final(run).is_over(),
        outcome is Continue ==> final(run).position() == old(run).position() + 1 && (r is RunStage
            || r is Conclude),
        outcome is Continue ==> (r matches RunStep::RunStage(at) ==> at == old(run).position() + 1
            && at < old(run).stage_total()),
        outcome is Continue ==> (r is Conclude <==> old(run).position() + 1 == old(
            run,
        ).stage_total()),
        outcome is Failed ==> (r matches RunStep::ReturnAnswer { success, metered } && !success && (
        metered <==> !(old(run).run_kind() is ChatForResponses || old(run).run_kind()
            is HarmonyResponses || old(run).run_kind() is HarmonyResponsesStreaming))),
        outcome is Responded && old(run).run_kind() is ChatForResponses ==> (r matches
            RunStep::Refuse(e) && e@.status == 400),
        outcome is Responded && (old(run).run_kind() is HarmonyResponses || old(run).run_kind()
            is HarmonyResponsesStreaming) ==> (r matches RunStep::ReturnAnswer { success, metered }
            && !success && !metered),
        outcome is Responded && (old(run).run_kind() is Chat || old(run).run_kind() is Generate
            || old(run).run_kind() is Completion || old(run).run_kind() is Messages || old(
            run,
        ).run_kind() is Embeddings || old(run).run_kind() is Classify) ==> (r matches
            RunStep::ReturnAnswer { success, metered } && success && metered),
{
}

/// A run that went through delivers the response it is for; any other, and none, is
/// an error of the gateway.
pub proof fn runs_deliver_what_they_are_for(
    run: PipelineRun,
    found: Option<FinalResponse>,
    r: Conclusion,
)
    requires
        call_ensures(PipelineRun::conclude, (&run, found), r),
    ensures
        found is None ==> r is Refuse,
        r matches Conclusion::Refuse { answer, .. } ==> answer@.status == 500,
        run.run_kind() is Chat || run.run_kind() is ChatForResponses ==> (r is Deliver <==> found
            == Some(FinalResponse::Chat)),
        run.run_kind() is Generate ==> (r is Deliver <==> found == Some(FinalResponse::Generate)),
        run.run_kind() is Completion ==> (r is Deliver <==> found == Some(
            FinalResponse::Completion,
        )),
        run.run_kind() is Embeddings ==> (r is Deliver <==> found == Some(
            FinalResponse::Embedding,
        )),
        run.run_kind() is Classify ==> (r is Deliver <==> found == Some(FinalResponse::Classify)),
        run.run_kind() is Messages ==> (r is Deliver <==> found == Some(FinalResponse::Messages)),
        run.run_kind() is HarmonyResponses ==> (r is Deliver <==> found == Some(
            FinalResponse::IterationResult,
        )),
        run.run_kind() is HarmonyResponsesStreaming ==> (r is Deliver <==> found == Some(
            FinalResponse::ExecutionResult,
        )),
{
}

/// Runs that are metered have labels of their own.
pub proof fn labels_tell_runs_apart(
    a: RunKind,
    b: RunKind,
    x: Option<EndpointLabel>,
    y: Option<EndpointLabel>,
)
    requires
        call_ensures(RunKind::metrics_label, (a,), x),
        call_ensures(RunKind::metrics_label, (b,), y),
    ensures
        x is Some && x == y ==> a == b,
        a is Chat ==> x == Some(EndpointLabel::Chat),
        a is Messages ==> x == Some(EndpointLabel::Messages),
        a is Generate ==> x == Some(EndpointLabel::Generate),
        a is Completion ==> x == Some(EndpointLabel::Completions),
        a is Embeddings ==> x == Some(EndpointLabel::Embeddings),
        a is Classify ==> x == Some(EndpointLabel::Classify),
{
}

} // verus!
