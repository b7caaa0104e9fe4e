//! A worker's backend, reached over gRPC or by a direct connection to a
//! same-host engine.

use crate::grpc::context::RuntimeType;
use crate::grpc::proto_wrapper::request::Engine;
use vstd::prelude::*;

verus! {

/// A direct connection to an engine.
#[derive(Debug, Clone, Copy, PartialEq, Eq, Structural)]
pub struct ZmqEngineClient {
    pub runtime: RuntimeType,
    pub alive: bool,
}

/// A backend connection: gRPC (any engine) or direct.
#[derive(Debug, Clone, Copy, PartialEq, Eq, Structural)]
pub enum BackendClient {
    Grpc(Engine),
    Zmq(ZmqEngineClient),
}

/// What a backend can be asked.
#[derive(Debug, Clone, Copy, PartialEq, Eq, Structural)]
pub enum BackendOperation {
    HealthCheck,
    GetModelInfo,
    GetServerInfo,
    GetLoads,
    FlushCache,
    StartProfile,
    StopProfile,
    SubscribeKvEvents,
    GetTokenizer,
    Generate(Engine),
    Embed,
}

/// Why a backend cannot be asked.
#[derive(Debug, Clone, Copy, PartialEq, Eq, Structural)]
pub enum RefusalKind {
    Unimplemented,
    Internal,
    Unavailable,
}

/// A refusal, with what it says.
pub struct Refusal {
    pub kind: RefusalKind,
    pub message: String,
}

/// The runtime that an engine is.
pub open spec fn runtime_of(engine: Engine) -> RuntimeType {
    match engine {
        Engine::Sglang => RuntimeType::Sglang,
        Engine::Vllm => RuntimeType::Vllm,
        Engine::Trtllm => RuntimeType::Trtllm,
        Engine::Mlx => RuntimeType::Mlx,
        Engine::TokenSpeed => RuntimeType::TokenSpeed,
    }
}

/// Why a direct connection cannot be asked for `op`.
pub open spec fn zmq_refusal(op: BackendOperation) -> Option<(RefusalKind, Seq<char>)> {
    match op {
        BackendOperation::FlushCache => Some(
            (RefusalKind::Unimplemented, "FlushCache not supported over ZMQ"@),
        ),
        BackendOperation::StartProfile => Some(
            (RefusalKind::Unimplemented, "StartProfile not supported over ZMQ"@),
        ),
        BackendOperation::StopProfile => Some(
            (RefusalKind::Unimplemented, "StopProfile not supported over ZMQ"@),
        ),
        BackendOperation::SubscribeKvEvents => Some(
            (RefusalKind::Unimplemented, "SubscribeKvEvents not supported over ZMQ"@),
        ),
        BackendOperation::GetTokenizer => Some(
            (RefusalKind::Unavailable, "ZMQ backend does not serve a tokenizer bundle"@),
        ),
        BackendOperation::Embed => Some(
            (RefusalKind::Unimplemented, "ZMQ backend does not support embedding yet"@),
        ),
        BackendOperation::Generate(engine) => if engine == Engine::Vllm {
            None
        } else {
            Some((RefusalKind::Internal, "ZMQ backend expects a vLLM generate request"@))
        },
        _ => None,
    }
}

impl BackendClient {
    /// Runtime type backing this client.
    pub fn runtime_type(&self) -> (r: RuntimeType)
        ensures
            r == match *self {
                BackendClient::Grpc(engine) => runtime_of(engine),
                BackendClient::Zmq(client) => client.runtime,
            },
    {
        match self {
            BackendClient::Grpc(engine) => match engine {
                Engine::Sglang => RuntimeType::Sglang,
                Engine::Vllm => RuntimeType::Vllm,
                Engine::Trtllm => RuntimeType::Trtllm,
                Engine::Mlx => RuntimeType::Mlx,
                Engine::TokenSpeed => RuntimeType::TokenSpeed,
            },
            BackendClient::Zmq(client) => client.runtime,
        }
    }

    /// True if this backend speaks the vLLM protocol: every direct connection
    /// does.
    pub fn is_vllm(&self) -> (r: bool)
        ensures
            r == (*self is Zmq || *self == BackendClient::Grpc(Engine::Vllm)),
    {
        match self {
            BackendClient::Grpc(engine) => matches!(engine, Engine::Vllm),
            BackendClient::Zmq(_) => true,
        }
    }

    /// Local liveness. gRPC has no local flag, so it counts as alive; a direct
    /// connection knows.
    pub fn is_alive(&self) -> (r: bool)
        ensures
            r == (*self matches BackendClient::Zmq(client) ==> client.alive),
    {
        match self {
            BackendClient::Grpc(_) => true,
            BackendClient::Zmq(client) => client.alive,
        }
    }

    /// Whether the backend can be asked for `op` at all. Over gRPC it can; a
    /// direct connection refuses what it does not carry.
    pub fn accepts(&self, op: BackendOperation) -> (r: Result<(), Refusal>)
        ensures
            match *self {
                BackendClient::Grpc(_) => r is Ok,
                BackendClient::Zmq(_) => match zmq_refusal(op) {
                    None => r is Ok,
                    Some((kind, message)) => r matches Err(e) && e.kind == kind && e.message@
                        == message,
                },
            },
    {
        if let BackendClient::Grpc(_) = self {
            return Ok(());
        }
        match op {
            BackendOperation::FlushCache => Err(
                Refusal {
                    kind: RefusalKind::Unimplemented,
                    message: "FlushCache not supported over ZMQ".to_owned(),
                },
            ),
            BackendOperation::StartProfile => Err(
                Refusal {
                    kind: RefusalKind::Unimplemented,
                    message: "StartProfile not supported over ZMQ".to_owned(),
                },
            ),
            BackendOperation::StopProfile => Err(
                Refusal {
                    kind: RefusalKind::Unimplemented,
                    message: "StopProfile not supported over ZMQ".to_owned(),
                },
            ),
            BackendOperation::SubscribeKvEvents => Err(
                Refusal {
                    kind: RefusalKind::Unimplemented,
                    message: "SubscribeKvEvents not supported over ZMQ".to_owned(),
                },
            ),
            BackendOperation::GetTokenizer => Err(
                Refusal {
                    kind: RefusalKind::Unavailable,
                    message: "ZMQ backend does not serve a tokenizer bundle".to_owned(),
                },
            ),
            BackendOperation::Embed => Err(
                Refusal {
                    kind: RefusalKind::Unimplemented,
                    message: "ZMQ backend does not support embedding yet".to_owned(),
                },
            ),
            BackendOperation::Generate(engine) => match engine {
                Engine::Vllm => Ok(()),
                _ => Err(
                    Refusal {
                        kind: RefusalKind::Internal,
                        message: "ZMQ backend expects a vLLM generate request".to_owned(),
                    },
                ),
            },
            _ => Ok(()),
        }
    }

    /// The engine that requests for this backend are built for; a direct
    /// connection takes vLLM's, without media.
    pub fn request_engine(&self, has_media: bool) -> (r: Result<Engine, String>)
        ensures
            match *self {
                BackendClient::Grpc(engine) => r == Ok::<Engine, String>(engine),
                BackendClient::Zmq(_) => if has_media {
                    r matches Err(e) && e@
                        == "ZMQ backend does not support multimodal inputs yet"@
                } else {
                    r == Ok::<Engine, String>(Engine::Vllm)
                },
            },
    {
        match self {
            BackendClient::Grpc(engine) => Ok(*engine),
            BackendClient::Zmq(_) => match reject_zmq_multimodal(has_media) {
                Ok(_) => Ok(Engine::Vllm),
                Err(e) => Err(e),
            },
        }
    }
}

/// A direct connection does not carry multimodal inputs.
pub fn reject_zmq_multimodal(has_media: bool) -> (r: Result<(), String>)
    ensures
        r is Err <==> has_media,
        r matches Err(e) ==> e@ == "ZMQ backend does not support multimodal inputs yet"@,
{
    if has_media {
        return Err("ZMQ backend does not support multimodal inputs yet".to_owned());
    }
    Ok(())
}

/// Engines are told apart by their runtimes.
pub proof fn engines_have_their_runtimes(engine: Engine)
    ensures
        engine is Sglang <==> runtime_of(engine) is Sglang,
        engine is Vllm <==> runtime_of(engine) is Vllm,
        engine is Trtllm <==> runtime_of(engine) is Trtllm,
        engine is Mlx <==> runtime_of(engine) is Mlx,
        engine is TokenSpeed <==> runtime_of(engine) is TokenSpeed,
{
}

/// A direct connection carries health checks, information, loads and vLLM's own
/// generation requests, and nothing else; only the request of another engine is a
/// fault of the gateway.
pub proof fn direct_connections_generate(op: BackendOperation)
    ensures
        zmq_refusal(op) is None <==> op is HealthCheck || op is GetModelInfo || op is GetServerInfo
            || op is GetLoads || op == BackendOperation::Generate(Engine::Vllm),
        zmq_refusal(op) matches Some((kind, _)) ==> {
            &&& kind is Internal <==> op is Generate
            &&& kind is Unavailable <==> op is GetTokenizer
        },
{
}

/// A direct connection speaks vLLM's protocol and carries no media; any other backend
/// is asked in its own, and counts as alive.
pub proof fn direct_connections_speak_vllm(
    client: BackendClient,
    vllm: bool,
    alive: bool,
    runtime: RuntimeType,
    has_media: bool,
    engine: Result<Engine, String>,
)
    requires
        call_ensures(BackendClient::is_vllm, (&client,), vllm),
        call_ensures(BackendClient::is_alive, (&client,), alive),
        call_ensures(BackendClient::runtime_type, (&client,), runtime),
        call_ensures(BackendClient::request_engine, (&client, has_media), engine),
    ensures
        client matches BackendClient::Zmq(z) ==> vllm && alive == z.alive && runtime == z.runtime && (
        engine is Ok <==> !has_media) && (engine matches Ok(e) ==> e is Vllm),
        client matches BackendClient::Grpc(e) ==> alive && (vllm <==> e is Vllm) && engine == Ok::<
            Engine,
            String,
        >(e) && (e is Vllm <==> runtime is Vllm) && (e is Sglang <==> runtime is Sglang),
{
}

/// Over gRPC everything can be asked for; over a direct connection what it carries.
pub proof fn refusals_are_for_direct_connections(
    client: BackendClient,
    op: BackendOperation,
    r: Result<(), Refusal>,
)
    requires
        call_ensures(BackendClient::accepts, (&client, op), r),
    ensures
        client is Grpc ==> r is Ok,
        client is Zmq ==> (r is Ok <==> op is HealthCheck || op is GetModelInfo || op
            is GetServerInfo || op is GetLoads || op == BackendOperation::Generate(Engine::Vllm)),
{
}

} // verus!
