//! The disaggregation mode of the gateway.

use crate::grpc::context::{ExecutionPlanKind, WorkerSelectionMode};
use vstd::prelude::*;

verus! {

#[derive(Clone, Copy, Debug, PartialEq, Eq, Structural)]
pub enum Mode {
    Regular,
    PrefillDecode,
    EncodePrefillDecode,
}

/// How the gateway is connected to its workers.
#[derive(Clone, Copy, Debug, PartialEq, Eq, Structural)]
pub enum ConnectionMode {
    Http,
    Grpc,
    Zmq,
}

/// How the gateway routes.
#[derive(Clone, Copy, Debug, PartialEq, Eq, Structural)]
pub enum RoutingMode {
    Regular,
    PrefillDecode,
    EncodePrefillDecode,
    External,
}

impl Mode {
    /// Which workers the mode asks for.
    pub open spec fn selects(self) -> WorkerSelectionMode {
        match self {
            Mode::Regular => WorkerSelectionMode::Regular,
            Mode::PrefillDecode => WorkerSelectionMode::PrefillDecode,
            Mode::EncodePrefillDecode => WorkerSelectionMode::EncodePrefillDecode,
        }
    }

    /// How the mode executes.
    pub open spec fn plans(self) -> ExecutionPlanKind {
        match self {
            Mode::Regular => ExecutionPlanKind::Single,
            Mode::PrefillDecode => ExecutionPlanKind::PrefillDecode,
            Mode::EncodePrefillDecode => ExecutionPlanKind::EncodePrefillDecode,
        }
    }

    pub fn worker_selection(self) -> (r: WorkerSelectionMode)
        ensures
            r == self.selects(),
    {
        match self {
            Mode::Regular => WorkerSelectionMode::Regular,
            Mode::PrefillDecode => WorkerSelectionMode::PrefillDecode,
            Mode::EncodePrefillDecode => WorkerSelectionMode::EncodePrefillDecode,
        }
    }

    pub fn plan_kind(self) -> (r: ExecutionPlanKind)
        ensures
            r == self.plans(),
    {
        match self {
            Mode::Regular => ExecutionPlanKind::Single,
            Mode::PrefillDecode => ExecutionPlanKind::PrefillDecode,
            Mode::EncodePrefillDecode => ExecutionPlanKind::EncodePrefillDecode,
        }
    }

    /// Prefill-decode only: with encode workers the bootstrap info is injected
    /// otherwise, so this must stay false there to avoid double injection.
    pub fn inject_pd_metadata(self) -> (r: bool)
        ensures
            r == (self == Mode::PrefillDecode),
    {
        matches!(self, Mode::PrefillDecode)
    }

    /// Metrics/introspection label.
    pub fn router_type(self) -> (r: &'static str)
        ensures
            r@ == match self {
                Mode::Regular => "grpc"@,
                Mode::PrefillDecode => "grpc_pd"@,
                Mode::EncodePrefillDecode => "grpc_epd"@,
            },
    {
        match self {
            Mode::Regular => "grpc",
            Mode::PrefillDecode => "grpc_pd",
            Mode::EncodePrefillDecode => "grpc_epd",
        }
    }
}

/// Derive the mode from how the gateway connects and routes. `None` for
/// backends that are not reached over gRPC.
pub fn grpc_mode(connection: ConnectionMode, routing: RoutingMode) -> (r: Option<Mode>)
    ensures
        r == if connection != ConnectionMode::Grpc {
            None
        } else {
            match routing {
                RoutingMode::Regular => Some(Mode::Regular),
                RoutingMode::PrefillDecode => Some(Mode::PrefillDecode),
                RoutingMode::EncodePrefillDecode => Some(Mode::EncodePrefillDecode),
                RoutingMode::External => None,
            }
        },
{
    if connection != ConnectionMode::Grpc {
        return None;
    }
    match routing {
        RoutingMode::Regular => Some(Mode::Regular),
        RoutingMode::PrefillDecode => Some(Mode::PrefillDecode),
        RoutingMode::EncodePrefillDecode => Some(Mode::EncodePrefillDecode),
        RoutingMode::External => None,
    }
}

/// Modes ask for the workers and the plan that they are named for.
pub proof fn modes_are_told_apart(mode: Mode)
    ensures
        mode is Regular <==> mode.selects() is Regular,
        mode is PrefillDecode <==> mode.selects() is PrefillDecode,
        mode is EncodePrefillDecode <==> mode.selects() is EncodePrefillDecode,
        mode is Regular <==> mode.plans() is Single,
        mode is PrefillDecode <==> mode.plans() is PrefillDecode,
        mode is EncodePrefillDecode <==> mode.plans() is EncodePrefillDecode,
{
}

/// The mode is that of the routing, for gRPC backends only.
pub proof fn only_grpc_has_modes(connection: ConnectionMode, routing: RoutingMode, r: Option<Mode>)
    requires
        call_ensures(grpc_mode, (connection, routing), r),
    ensures
        r is Some <==> connection is Grpc && !(routing is External),
        r matches Some(mode) ==> {
            &&& mode is Regular <==> routing is Regular
            &&& mode is PrefillDecode <==> routing is PrefillDecode
            &&& mode is EncodePrefillDecode <==> routing is EncodePrefillDecode
        },
{
}

/// Routers report under a type for each mode, and metadata is injected for a prefill
/// worker alone.
pub proof fn modes_report_apart(a: Mode, b: Mode, x: &'static str, y: &'static str, inject: bool)
    requires
        call_ensures(Mode::router_type, (a,), x),
        call_ensures(Mode::router_type, (b,), y),
        call_ensures(Mode::inject_pd_metadata, (a,), inject),
    ensures
        x@ == y@ ==> a == b,
        inject <==> a is PrefillDecode,
        a is Regular ==> x@ == "grpc"@,
{
    reveal_strlit("grpc");
    reveal_strlit("grpc_pd");
    reveal_strlit("grpc_epd");
    assert("grpc"@.len() == 4 && "grpc_pd"@.len() == 7 && "grpc_epd"@.len() == 8);
}

} // verus!
