//! What the stages of a request know of the workers and clients that were
//! chosen for it.

use crate::grpc::multimodal::types::TransportMode;
use crate::grpc::proto_wrapper::request::Engine;
use vstd::prelude::*;

verus! {

/// Where a worker's bootstrap server listens unless it says otherwise.
pub const DEFAULT_BOOTSTRAP_PORT: u16 = 8998;

/// The engines that workers run.
#[derive(Debug, Clone, Copy, PartialEq, Eq, Structural)]
pub enum RuntimeType {
    Sglang,
    Vllm,
    Trtllm,
    Mlx,
    TokenSpeed,
    External,
    Unspecified,
}

/// How a model wants to be sampled where the user does not say.
#[derive(Debug, Clone, Copy, PartialEq, Eq, Structural)]
pub struct SamplingDefaults {
    pub temperature: Option<u32>,
    pub top_p: Option<u32>,
    pub top_k: Option<i32>,
    pub min_p: Option<u32>,
    pub repetition_penalty: Option<u32>,
}

/// What is known of a worker.
pub struct WorkerInfo {
    pub url: String,
    pub bootstrap_host: String,
    pub bootstrap_port: Option<u16>,
    pub dp_rank: Option<usize>,
    pub dp_size: Option<usize>,
    pub labels: Vec<(String, String)>,
    pub kv_connector: Option<String>,
    pub kv_engine_id: Option<String>,
    pub multimodal_tensor_transport: Option<TransportMode>,
    pub multimodal_shm_min_bytes: Option<usize>,
    /// The worker's sampling defaults, none where its label is missing or
    /// cannot be read.
    pub sampling_defaults: Option<SamplingDefaults>,
}

impl WorkerInfo {
    /// The port of the worker's bootstrap server.
    pub open spec fn bootstrap(&self) -> u16 {
        match self.bootstrap_port {
            Some(port) => port,
            None => DEFAULT_BOOTSTRAP_PORT,
        }
    }

    pub fn bootstrap_port_or_default(&self) -> (r: u16)
        ensures
            r == self.bootstrap(),
    {
        match self.bootstrap_port {
            Some(port) => port,
            None => DEFAULT_BOOTSTRAP_PORT,
        }
    }
}

/// The worker that encodes one item.
pub struct EncodeAssignment {
    pub item_index: usize,
    pub worker: WorkerInfo,
}

/// The workers that were chosen for a request.
pub enum WorkerSelection {
    Single { worker: WorkerInfo },
    Disaggregated {
        encode_assignments: Option<Vec<EncodeAssignment>>,
        prefill: WorkerInfo,
        decode: WorkerInfo,
        runtime_type: RuntimeType,
    },
}

/// The clients that were acquired for a request.
#[derive(Debug, Clone, Copy, PartialEq, Eq, Structural)]
pub enum ClientSelection {
    Single { client: Engine },
    Disaggregated { prefill: Engine, decode: Engine },
}

impl ClientSelection {
    /// The client that requests are built with: the prefill one, where there
    /// are two.
    pub open spec fn builder(self) -> Engine {
        match self {
            ClientSelection::Single { client } => client,
            ClientSelection::Disaggregated { prefill, .. } => prefill,
        }
    }

    pub fn builder_client(&self) -> (r: Engine)
        ensures
            r == self.builder(),
    {
        match self {
            ClientSelection::Single { client } => *client,
            ClientSelection::Disaggregated { prefill, .. } => *prefill,
        }
    }
}

/// How a request is executed.
#[derive(Debug, Clone, Copy, PartialEq, Eq, Structural)]
pub enum ExecutionPlanKind {
    Single,
    PrefillDecode,
    EncodePrefillDecode,
}

/// Which workers are chosen for a request.
#[derive(Debug, Clone, Copy, PartialEq, Eq, Structural)]
pub enum WorkerSelectionMode {
    Regular,
    PrefillDecode,
    EncodePrefillDecode,
}

impl WorkerSelection {
    /// The engine of a disaggregated selection.
    pub open spec fn runtime(&self) -> Option<RuntimeType> {
        match *self {
            WorkerSelection::Single { .. } => None,
            WorkerSelection::Disaggregated { runtime_type, .. } => Some(runtime_type),
        }
    }

    /// The rank that the prefill worker is pinned to.
    pub open spec fn prefill_rank(&self) -> Option<usize> {
        match *self {
            WorkerSelection::Single { .. } => None,
            WorkerSelection::Disaggregated { prefill, .. } => prefill.dp_rank,
        }
    }

    /// The rank that the decode worker is pinned to.
    pub open spec fn decode_rank(&self) -> Option<usize> {
        match *self {
            WorkerSelection::Single { .. } => None,
            WorkerSelection::Disaggregated { decode, .. } => decode.dp_rank,
        }
    }

    /// The rank that the only worker is pinned to.
    pub open spec fn single_rank(&self) -> Option<usize> {
        match *self {
            WorkerSelection::Single { worker } => worker.dp_rank,
            WorkerSelection::Disaggregated { .. } => None,
        }
    }

    pub fn pd_runtime_type(&self) -> (r: Option<RuntimeType>)
        ensures
            r == self.runtime(),
    {
        match self {
            WorkerSelection::Single { .. } => None,
            WorkerSelection::Disaggregated { runtime_type, .. } => Some(*runtime_type),
        }
    }

    pub fn pinned_prefill_rank(&self) -> (r: Option<usize>)
        ensures
            r == self.prefill_rank(),
    {
        match self {
            WorkerSelection::Single { .. } => None,
            WorkerSelection::Disaggregated { prefill, .. } => prefill.dp_rank,
        }
    }

    pub fn pinned_decode_rank(&self) -> (r: Option<usize>)
        ensures
            r == self.decode_rank(),
    {
        match self {
            WorkerSelection::Single { .. } => None,
            WorkerSelection::Disaggregated { decode, .. } => decode.dp_rank,
        }
    }

    pub fn pinned_single_rank(&self) -> (r: Option<usize>)
        ensures
            r == self.single_rank(),
    {
        match self {
            WorkerSelection::Single { worker } => worker.dp_rank,
            WorkerSelection::Disaggregated { .. } => None,
        }
    }
}

/// A worker's own bootstrap port is used where it has one.
pub proof fn own_ports_win(worker: WorkerInfo)
    ensures
        worker.bootstrap_port matches Some(port) ==> worker.bootstrap() == port,
        worker.bootstrap_port is None ==> worker.bootstrap() == 8998,
{
}

/// A request is pinned to the rank of the worker it goes to, and no leg to the
/// rank of another.
pub proof fn legs_are_pinned_to_their_workers(workers: WorkerSelection)
    ensures
        workers matches WorkerSelection::Single { worker } ==> {
            &&& workers.single_rank() == worker.dp_rank
            &&& workers.prefill_rank() is None
            &&& workers.decode_rank() is None
            &&& workers.runtime() is None
        },
        workers matches WorkerSelection::Disaggregated { prefill, decode, runtime_type, .. } ==> {
            &&& workers.single_rank() is None
            &&& workers.prefill_rank() == prefill.dp_rank
            &&& workers.decode_rank() == decode.dp_rank
            &&& workers.runtime() == Some(runtime_type)
        },
{
}

/// Requests are built for the engine that reads them first.
pub proof fn requests_are_built_for_the_first_leg(prefill: Engine, decode: Engine)
    ensures
        (ClientSelection::Single { client: prefill }).builder() == prefill,
        (ClientSelection::Disaggregated { prefill, decode }).builder() == prefill,
{
}

} // verus!
