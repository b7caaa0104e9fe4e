//! Request execution: what is sent to which worker, in which order, and what a
//! prefill worker hands over to the decode worker.

use crate::grpc::context::{RuntimeType, WorkerInfo, WorkerSelection, DEFAULT_BOOTSTRAP_PORT};
use crate::grpc::error::{
    bad_request, bad_request_text, internal_error, internal_error_text, ErrorAnswer,
};
use crate::grpc::multimodal::assemble::{entry_of, find_entry, first_entry_is_found};
use crate::grpc::proto::common::opt_text;
use crate::grpc::proto_wrapper::request::{
    prefill_sampling, requested_samples, unset_vllm_sampling, Engine, ProtoGenerateRequest,
    RequestText,
};
use crate::grpc::proto_wrapper::response::{
    handoff_json, variant_of, ProtoGenerateResponse, ProtoResponseVariant,
};
use crate::grpc::stages::helpers::opt_str;
use crate::outside::{is_uuid_text, json_string, json_text, uuid_v7_text};
use crate::text::{decimal, decimal_text, parse_unsigned, same, unsigned_value};
use vstd::prelude::*;

verus! {

pub const MOONCAKE_CONNECTOR: &'static str = "MooncakeConnector";

pub const NIXL_CONNECTOR: &'static str = "NixlConnector";

/// Handoff params tagged onto the NIXL prefill leg, so that the engine pins its
/// blocks and returns the params for the decode worker.
pub const NIXL_PREFILL_KV_PARAMS: &'static str =
    "{\"do_remote_decode\":true,\"do_remote_prefill\":false}";

/// How the cache gets from a prefill worker to a decode worker.
#[derive(Debug, Clone, PartialEq)]
pub enum KvConnectorMode {
    /// Mint a transfer id, tag both legs, and synthesize decode params from
    /// worker metadata; or, where the engine's id is not known, inject host and
    /// port.
    Mooncake { host: String, port: u32, engine_id: Option<String> },
    /// Tag prefill, relay the params it returns to decode.
    Nixl,
    /// Unknown connector: relay params if the engine returns some.
    Passthrough,
}

/// What a [`KvConnectorMode`] says.
pub enum ConnectorText {
    Mooncake { host: Seq<char>, port: int, engine_id: Option<Seq<char>> },
    Nixl,
    Passthrough,
}

impl View for KvConnectorMode {
    type V = ConnectorText;

    open spec fn view(&self) -> ConnectorText {
        match *self {
            KvConnectorMode::Mooncake { host, port, engine_id } => ConnectorText::Mooncake {
                host: host@,
                port: port as int,
                engine_id: opt_text(engine_id),
            },
            KvConnectorMode::Nixl => ConnectorText::Nixl,
            KvConnectorMode::Passthrough => ConnectorText::Passthrough,
        }
    }
}

/// The label of a connector.
pub open spec fn connector_label(mode: ConnectorText) -> Seq<char> {
    match mode {
        ConnectorText::Mooncake { .. } => "mooncake"@,
        ConnectorText::Nixl => "nixl"@,
        ConnectorText::Passthrough => "passthrough"@,
    }
}

impl KvConnectorMode {
    pub fn metrics_label(&self) -> (r: &'static str)
        ensures
            r@ == connector_label(self@),
    {
        match self {
            KvConnectorMode::Mooncake { .. } => "mooncake",
            KvConnectorMode::Nixl => "nixl",
            KvConnectorMode::Passthrough => "passthrough",
        }
    }
}

/// `s` unless it is empty.
pub open spec fn nonempty(s: Option<Seq<char>>) -> Option<Seq<char>> {
    match s {
        Some(s) => if s.len() == 0 {
            None
        } else {
            Some(s)
        },
        None => None,
    }
}

/// How the cache travels with a given connector. An empty engine id counts as
/// unknown.
pub open spec fn connector_text(
    kv_connector: Option<Seq<char>>,
    host: Seq<char>,
    port: Option<u16>,
    engine_id: Option<Seq<char>>,
) -> ConnectorText {
    match kv_connector {
        Some(c) => if c == MOONCAKE_CONNECTOR@ {
            ConnectorText::Mooncake {
                host,
                port: match port {
                    Some(p) => p as int,
                    None => DEFAULT_BOOTSTRAP_PORT as int,
                },
                engine_id: nonempty(engine_id),
            }
        } else if c == NIXL_CONNECTOR@ {
            ConnectorText::Nixl
        } else {
            ConnectorText::Passthrough
        },
        None => ConnectorText::Passthrough,
    }
}

pub fn kv_connector_mode(
    kv_connector: Option<&str>,
    bootstrap_host: &str,
    bootstrap_port: Option<u16>,
    kv_engine_id: Option<&str>,
) -> (r: KvConnectorMode)
    ensures
        r@ == connector_text(
            opt_str(kv_connector),
            bootstrap_host@,
            bootstrap_port,
            opt_str(kv_engine_id),
        ),
{
    match kv_connector {
        Some(c) => if same(c, MOONCAKE_CONNECTOR) {
            KvConnectorMode::Mooncake {
                host: bootstrap_host.to_owned(),
                port: match bootstrap_port {
                    Some(p) => p as u32,
                    None => DEFAULT_BOOTSTRAP_PORT as u32,
                },
                engine_id: match kv_engine_id {
                    Some(id) => if id.is_empty() {
                        None
                    } else {
                        Some(id.to_owned())
                    },
                    None => None,
                },
            }
        } else if same(c, NIXL_CONNECTOR) {
            KvConnectorMode::Nixl
        } else {
            KvConnectorMode::Passthrough
        },
        None => KvConnectorMode::Passthrough,
    }
}

/// The id of the engine core that serves the prefill leg. With data
/// parallelism a core's id ends in its rank, so a rank must be pinned.
pub open spec fn engine_id_text(
    base: Option<Seq<char>>,
    dp_size: Option<usize>,
    dp_rank: Option<usize>,
) -> Option<Seq<char>> {
    match nonempty(base) {
        None => None,
        Some(base) => if dp_size is Some && dp_size->0 > 1 {
            match dp_rank {
                Some(rank) => Some(base + "_dp"@ + decimal_text(rank as nat)),
                None => None,
            }
        } else {
            Some(base)
        },
    }
}

pub fn effective_kv_engine_id(
    base: Option<&str>,
    dp_size: Option<usize>,
    dp_rank: Option<usize>,
) -> (r: Option<String>)
    ensures
        opt_text(r) == engine_id_text(opt_str(base), dp_size, dp_rank),
{
    let base: &str = match base {
        Some(b) => b,
        None => {
            return None;
        },
    };
    if base.is_empty() {
        return None;
    }
    let parallel = match dp_size {
        Some(n) => n > 1,
        None => false,
    };
    if parallel {
        match dp_rank {
            Some(rank) => {
                let mut id = base.to_owned();
                id.append("_dp");
                id.append(decimal(rank as u128).as_str());
                Some(id)
            },
            None => None,
        }
    } else {
        Some(base.to_owned())
    }
}

/// The handoff params of a Mooncake prefill leg.
pub open spec fn prefill_params_text(transfer_id: Seq<char>) -> Seq<char> {
    "{\"do_remote_decode\":true,\"do_remote_prefill\":false,\"transfer_id\":"@ + json_text(
        transfer_id,
    ) + "}"@
}

/// The handoff params of a Mooncake decode leg.
pub open spec fn decode_params_text(
    transfer_id: Seq<char>,
    engine_id: Seq<char>,
    host: Seq<char>,
    port: int,
) -> Seq<char> {
    "{\"do_remote_decode\":false,\"do_remote_prefill\":true,\"remote_bootstrap_addr\":"@
        + json_text("http://"@ + host + ":"@ + decimal_text(port as nat))
        + ",\"remote_engine_id\":"@ + json_text(engine_id) + ",\"transfer_id\":"@ + json_text(
        transfer_id,
    ) + "}"@
}

/// Prefill-leg params for Mooncake: the engine pins blocks under the minted id.
pub fn mooncake_prefill_params(transfer_id: &str) -> (r: String)
    ensures
        r@ == prefill_params_text(transfer_id@),
{
    let mut s =
        "{\"do_remote_decode\":true,\"do_remote_prefill\":false,\"transfer_id\":".to_owned();
    s.append(json_string(transfer_id).as_str());
    s.append("}");
    s
}

/// Decode-leg params for Mooncake, synthesized from prefill worker metadata
/// (the engine returns nothing to relay).
pub fn mooncake_decode_params(transfer_id: &str, engine_id: &str, host: &str, port: u32) -> (r:
    String)
    ensures
        r@ == decode_params_text(transfer_id@, engine_id@, host@, port as int),
{
    let mut addr = "http://".to_owned();
    addr.append(host);
    addr.append(":");
    addr.append(decimal(port as u128).as_str());
    let mut s =
        "{\"do_remote_decode\":false,\"do_remote_prefill\":true,\"remote_bootstrap_addr\":".to_owned();
    s.append(json_string(addr.as_str()).as_str());
    s.append(",\"remote_engine_id\":");
    s.append(json_string(engine_id).as_str());
    s.append(",\"transfer_id\":");
    s.append(json_string(transfer_id).as_str());
    s.append("}");
    s
}

/// How many cores the engine behind a worker has, where that is known: from
/// the worker, else from its label.
pub open spec fn known_dp_size(w: WorkerInfo) -> Option<usize> {
    match w.dp_size {
        Some(n) => Some(n),
        None => match entry_of(w.labels@, "dp_size"@) {
            Some(i) => match unsigned_value(w.labels@[i].1@, usize::MAX as nat) {
                Some(n) => Some(n as usize),
                None => None,
            },
            None => None,
        },
    }
}

/// How the cache leaves a prefill worker.
pub open spec fn worker_connector(w: WorkerInfo) -> ConnectorText {
    connector_text(
        opt_text(w.kv_connector),
        w.bootstrap_host@,
        w.bootstrap_port,
        engine_id_text(opt_text(w.kv_engine_id), known_dp_size(w), w.dp_rank),
    )
}

fn as_str_opt(s: &Option<String>) -> (r: Option<&str>)
    ensures
        opt_str(r) == opt_text(*s),
{
    match s {
        Some(s) => Some(s.as_str()),
        None => None,
    }
}

/// How the cache leaves a prefill worker.
pub fn prefill_connector_mode(w: &WorkerInfo) -> (r: KvConnectorMode)
    ensures
        r@ == worker_connector(*w),
{
    // A label counts too: a parallel engine behind a worker that was not
    // expanded must not be minted for.
    let dp_size: Option<usize> = match w.dp_size {
        Some(n) => Some(n),
        None => match find_entry(&w.labels, "dp_size") {
            Some(i) => match parse_unsigned(w.labels[i].1.as_str(), usize::MAX as u64) {
                Some(n) => Some(n as usize),
                None => None,
            },
            None => None,
        },
    };
    let engine_id = effective_kv_engine_id(as_str_opt(&w.kv_engine_id), dp_size, w.dp_rank);
    kv_connector_mode(
        as_str_opt(&w.kv_connector),
        w.bootstrap_host.as_str(),
        w.bootstrap_port,
        as_str_opt(&engine_id),
    )
}

/// A transfer id is minted: the handoff is Mooncake's with a known engine, and
/// only one sample will consume it.
pub open spec fn mints(mode: ConnectorText, relay: bool) -> bool {
    match mode {
        ConnectorText::Mooncake { engine_id, .. } => relay && engine_id is Some,
        _ => false,
    }
}

/// A request pinned to a rank, where there is one and the engine knows ranks.
pub open spec fn pinned(r: RequestText, rank: Option<usize>) -> RequestText {
    match rank {
        Some(rank) => if r.engine == Engine::Vllm || r.engine == Engine::Sglang {
            RequestText { data_parallel_rank: Some(rank as i32), ..r }
        } else {
            r
        },
        None => r,
    }
}

fn pin(request: &mut ProtoGenerateRequest, rank: Option<usize>)
    ensures
        final(request)@ == pinned(old(request)@, rank),
{
    if let Some(rank) = rank {
        request.set_data_parallel_rank(rank as i32);
    }
}

/// A request that carries handoff params, where the engine takes them.
pub open spec fn with_handoff(r: RequestText, json: Seq<char>) -> RequestText {
    if r.engine == Engine::Vllm {
        RequestText { kv_transfer_params_json: Some(json), ..r }
    } else {
        r
    }
}

/// A request for a prefill only: one token, where the engine can be told so, and
/// not streamed.
pub open spec fn shortened(r: RequestText) -> RequestText {
    if r.engine == Engine::Vllm {
        RequestText {
            sampling: Some(
                prefill_sampling(
                    match r.sampling {
                        Some(s) => s,
                        None => unset_vllm_sampling(),
                    },
                    1,
                ),
            ),
            stream: false,
            ..r
        }
    } else {
        RequestText { stream: false, ..r }
    }
}

/// The prefill leg of a request: shortened, pinned to its rank, and tagged for the
/// handoff.
pub open spec fn prefill_leg(
    r: RequestText,
    mode: ConnectorText,
    relay: bool,
    transfer_id: Option<Seq<char>>,
    rank: Option<usize>,
) -> RequestText {
    let short = pinned(shortened(r), rank);
    match transfer_id {
        Some(id) => with_handoff(short, prefill_params_text(id)),
        None => if mode is Nixl && relay {
            with_handoff(short, NIXL_PREFILL_KV_PARAMS@)
        } else {
            short
        },
    }
}

/// The decode leg of a request, given what the prefill engine handed over.
pub open spec fn decode_leg(
    r: RequestText,
    mode: ConnectorText,
    relay: bool,
    transfer_id: Option<Seq<char>>,
    harvested: Option<Seq<char>>,
    rank: Option<usize>,
) -> RequestText {
    let r = pinned(r, rank);
    match mode {
        ConnectorText::Mooncake { host, port, engine_id } => match (transfer_id, engine_id) {
            (Some(id), Some(engine)) => with_handoff(
                r,
                decode_params_text(id, engine, host, port),
            ),
            _ => if r.engine == Engine::Vllm {
                RequestText { kv_transfer_params: Some((host, port as u32)), ..r }
            } else {
                r
            },
        },
        _ => match harvested {
            Some(json) => if relay {
                with_handoff(r, json)
            } else {
                r
            },
            None => r,
        },
    }
}

/// The worker that a leg of a request goes to.
#[derive(Debug, Clone, Copy, PartialEq, Eq, Structural)]
pub enum Leg {
    Prefill,
    Decode,
}

/// A failed call: the status it counts as and what it said.
pub struct RpcFailure {
    pub status: u16,
    pub message: String,
}

/// A leg that failed: which, the status to record for its worker, and the code
/// and message to answer with.
pub struct LegFailure {
    pub leg: Leg,
    pub status: u16,
    pub code: String,
    pub message: String,
}

/// `f` says that `leg` failed with `e`, under `code` and `what`.
pub open spec fn is_leg_failure(
    f: LegFailure,
    leg: Leg,
    e: RpcFailure,
    code: Seq<char>,
    what: Seq<char>,
) -> bool {
    &&& f.leg == leg
    &&& f.status == e.status
    &&& f.code@ == code
    &&& f.message@ == what + e.message@
}

fn leg_failure(leg: Leg, e: &RpcFailure, code: &str, what: &str) -> (f: LegFailure)
    ensures
        is_leg_failure(f, leg, *e, code@, what@),
{
    let mut message = what.to_owned();
    message.append(e.message.as_str());
    LegFailure { leg, status: e.status, code: code.to_owned(), message }
}

/// Where a sequential prefill-then-decode execution is.
#[derive(Debug, Clone, Copy, PartialEq, Eq, Structural)]
pub enum PdState {
    PrefillSent,
    Draining,
    DecodeSent,
    Done,
    Failed,
}

/// A sequential prefill-then-decode execution: prefill is run to its end, what
/// it hands over is harvested, and only then decode is started.
pub struct SequentialPd {
    request: ProtoGenerateRequest,
    mode: KvConnectorMode,
    relay: bool,
    transfer_id: Option<String>,
    decode_rank: Option<usize>,
    harvested: Option<String>,
    state: PdState,
}

/// The decode request, the status to record for the prefill worker, and whether
/// its engine failed to hand over what it was asked for.
pub struct DecodeStart {
    pub request: ProtoGenerateRequest,
    pub prefill_status: u16,
    pub handoff_missing: bool,
}

/// What is recorded once decode has started: the status of its worker, and the
/// label of the connector that was used.
pub struct DecodeStarted {
    pub decode_status: u16,
    pub connector: &'static str,
}

impl SequentialPd {
    /// What the user asked for.
    pub closed spec fn asked(&self) -> RequestText {
        self.request@
    }

    pub closed spec fn connector(&self) -> ConnectorText {
        self.mode@
    }

    /// The handoff is relayed: only one sample will consume it.
    pub closed spec fn relays(&self) -> bool {
        self.relay
    }

    pub closed spec fn minted(&self) -> Option<Seq<char>> {
        opt_text(self.transfer_id)
    }

    pub closed spec fn rank(&self) -> Option<usize> {
        self.decode_rank
    }

    /// What the prefill engine handed over so far.
    pub closed spec fn harvest(&self) -> Option<Seq<char>> {
        opt_text(self.harvested)
    }

    pub closed spec fn at(&self) -> PdState {
        self.state
    }

    /// An id is minted exactly where one is needed.
    pub open spec fn wf(&self) -> bool {
        &&& self.relays() == (requested_samples(self.asked()) <= 1)
        &&& self.minted() is Some == mints(self.connector(), self.relays())
    }

    /// Everything but the state and the harvest is the same.
    pub open spec fn same_execution(&self, other: &Self) -> bool {
        &&& self.asked() == other.asked()
        &&& self.connector() == other.connector()
        &&& self.relays() == other.relays()
        &&& self.minted() == other.minted()
        &&& self.rank() == other.rank()
    }

    /// Starts an execution under a given transfer id, which is used if one is
    /// needed. Returns the request for the prefill worker.
    ///
    /// The handoff is single-consumer: with several samples each of them would
    /// pull, and the first to complete would free the blocks under the others.
    pub fn begin_with(
        request: ProtoGenerateRequest,
        mode: KvConnectorMode,
        prefill_rank: Option<usize>,
        decode_rank: Option<usize>,
        transfer_id: String,
    ) -> (r: (Self, ProtoGenerateRequest))
        ensures
            r.0.wf(),
            r.0.at() == PdState::PrefillSent,
            r.0.asked() == request@,
            r.0.connector() == mode@,
            r.0.rank() == decode_rank,
            r.0.harvest() is None,
            r.0.minted() is Some ==> r.0.minted() == Some(transfer_id@),
            r.1@ == prefill_leg(
                request@,
                mode@,
                r.0.relays(),
                r.0.minted(),
                prefill_rank,
            ),
    {
        let relay = request.sampling_n() <= 1;
        let minted: Option<String> = match &mode {
            KvConnectorMode::Mooncake { engine_id, .. } => if relay && engine_id.is_some() {
                Some(transfer_id)
            } else {
                None
            },
            _ => None,
        };
        let mut prefill = request.clone_inner();
        prefill.sanitize_sampling_for_prefill(1);
        prefill.set_stream(false);
        pin(&mut prefill, prefill_rank);
        let nixl = matches!(mode, KvConnectorMode::Nixl);
        if nixl && relay {
            prefill.set_kv_transfer_params_json(NIXL_PREFILL_KV_PARAMS.to_owned());
        }
        if let Some(id) = &minted {
            prefill.set_kv_transfer_params_json(mooncake_prefill_params(id.as_str()));
        }
        let execution = SequentialPd {
            request,
            mode,
            relay,
            transfer_id: minted,
            decode_rank,
            harvested: None,
            state: PdState::PrefillSent,
        };
        (execution, prefill)
    }

    /// Starts an execution for the chosen workers.
    pub fn begin(request: ProtoGenerateRequest, workers: &WorkerSelection) -> (r: (
        Self,
        ProtoGenerateRequest,
    ))
        ensures
            r.0.wf(),
            r.0.at() == PdState::PrefillSent,
            r.0.asked() == request@,
            r.0.connector() == match *workers {
                WorkerSelection::Disaggregated { prefill, .. } => worker_connector(prefill),
                WorkerSelection::Single { .. } => ConnectorText::Passthrough,
            },
            r.0.rank() == workers.decode_rank(),
            r.0.harvest() is None,
            r.0.minted() is Some ==> exists|fresh: Seq<char>|
                #![trigger is_uuid_text(fresh, '7')]
                is_uuid_text(fresh, '7') && r.0.minted() == Some("xfer-"@ + fresh),
            r.1@ == prefill_leg(
                request@,
                r.0.connector(),
                r.0.relays(),
                r.0.minted(),
                workers.prefill_rank(),
            ),
    {
        let mode: KvConnectorMode = match workers {
            WorkerSelection::Disaggregated { prefill, .. } => prefill_connector_mode(prefill),
            WorkerSelection::Single { .. } => KvConnectorMode::Passthrough,
        };
        let fresh = uuid_v7_text();
        let mut transfer_id = "xfer-".to_owned();
        transfer_id.append(fresh.as_str());
        assert(is_uuid_text(fresh@, '7') && transfer_id@ == "xfer-"@ + fresh@);
        Self::begin_with(
            request,
            mode,
            workers.pinned_prefill_rank(),
            workers.pinned_decode_rank(),
            transfer_id,
        )
    }

    /// The prefill worker answered the call.
    pub fn on_prefill_start(&mut self, result: Result<(), RpcFailure>) -> (r: Result<
        (),
        LegFailure,
    >)
        requires
            old(self).wf(),
            old(self).at() == PdState::PrefillSent,
        ensures
            final(self).wf(),
            final(self).same_execution(old(self)),
            final(self).harvest() == old(self).harvest(),
            match result {
                Ok(_) => r is Ok && final(self).at() == PdState::Draining,
                Err(e) => {
                    &&& final(self).at() == PdState::Failed
                    &&& r is Err
                    &&& is_leg_failure(r->Err_0, Leg::Prefill, e, "prefill_worker_failed_to_start"@, "Prefill worker failed to start: "@)
                },
            },
    {
        match result {
            Ok(_) => {
                self.state = PdState::Draining;
                Ok(())
            },
            Err(e) => {
                self.state = PdState::Failed;
                Err(
                    leg_failure(
                        Leg::Prefill,
                        &e,
                        "prefill_worker_failed_to_start",
                        "Prefill worker failed to start: ",
                    ),
                )
            },
        }
    }

    /// The prefill worker sent a message: the end of the generation may carry
    /// what it hands over.
    pub fn on_prefill_message(&mut self, result: Result<ProtoGenerateResponse, RpcFailure>) -> (r:
        Result<(), LegFailure>)
        requires
            old(self).wf(),
            old(self).at() == PdState::Draining,
        ensures
            final(self).wf(),
            final(self).same_execution(old(self)),
            match result {
                Ok(response) => {
                    &&& r is Ok
                    &&& final(self).at() == PdState::Draining
                    &&& final(self).harvest() == after_message(
                        old(self).harvest(),
                        variant_of(response),
                    )
                },
                Err(e) => {
                    &&& final(self).harvest() == old(self).harvest()
                    &&& final(self).at() == PdState::Failed
                    &&& r is Err
                    &&& is_leg_failure(r->Err_0, Leg::Prefill, e, "prefill_stream_error"@, "Prefill stream error: "@)
                },
            },
    {
        match result {
            Ok(response) => {
                if let ProtoResponseVariant::Complete(complete) = response.into_response() {
                    if let Some(json) = complete.kv_transfer_params_json() {
                        self.harvested = Some(json.to_owned());
                    }
                }
                Ok(())
            },
            Err(e) => {
                self.state = PdState::Failed;
                Err(
                    leg_failure(
                        Leg::Prefill,
                        &e,
                        "prefill_stream_error",
                        "Prefill stream error: ",
                    ),
                )
            },
        }
    }

    /// The prefill worker is done. Returns the request for the decode worker,
    /// which has the same id as that of the prefill worker.
    pub fn on_prefill_end(&mut self) -> (r: DecodeStart)
        requires
            old(self).wf(),
            old(self).at() == PdState::Draining,
        ensures
            final(self).wf(),
            final(self).same_execution(old(self)),
            final(self).harvest() == old(self).harvest(),
            final(self).at() == PdState::DecodeSent,
            r.request@ == decode_leg(
                old(self).asked(),
                old(self).connector(),
                old(self).relays(),
                old(self).minted(),
                old(self).harvest(),
                old(self).rank(),
            ),
            r.prefill_status == 200,
            r.handoff_missing == (old(self).connector() is Nixl && old(self).relays() && old(
                self,
            ).harvest() is None),
    {
        self.state = PdState::DecodeSent;
        let mut decode = self.request.clone_inner();
        pin(&mut decode, self.decode_rank);
        let mut handoff_missing = false;
        match &self.mode {
            KvConnectorMode::Mooncake { host, port, engine_id } => match (
                &self.transfer_id,
                engine_id,
            ) {
                (Some(id), Some(engine)) => {
                    decode.set_kv_transfer_params_json(
                        mooncake_decode_params(
                            id.as_str(),
                            engine.as_str(),
                            host.as_str(),
                            *port,
                        ),
                    );
                },
                _ => {
                    decode.set_kv_transfer_params(host.clone(), *port);
                },
            },
            KvConnectorMode::Nixl => match &self.harvested {
                Some(json) => if self.relay {
                    decode.set_kv_transfer_params_json(json.clone());
                },
                None => {
                    handoff_missing = self.relay;
                },
            },
            KvConnectorMode::Passthrough => if let Some(json) = &self.harvested {
                if self.relay {
                    decode.set_kv_transfer_params_json(json.clone());
                }
            },
        }
        DecodeStart { request: decode, prefill_status: 200, handoff_missing }
    }

    /// The decode worker answered the call.
    pub fn on_decode_start(&mut self, result: Result<(), RpcFailure>) -> (r: Result<
        DecodeStarted,
        LegFailure,
    >)
        requires
            old(self).wf(),
            old(self).at() == PdState::DecodeSent,
        ensures
            final(self).wf(),
            final(self).same_execution(old(self)),
            final(self).harvest() == old(self).harvest(),
            match result {
                Ok(_) => {
                    &&& final(self).at() == PdState::Done
                    &&& r is Ok
                    &&& r->Ok_0.decode_status == 200
                    &&& r->Ok_0.connector@ == connector_label(old(self).connector())
                },
                Err(e) => {
                    &&& final(self).at() == PdState::Failed
                    &&& r is Err
                    &&& is_leg_failure(r->Err_0, Leg::Decode, e, "decode_worker_failed_to_start"@, "Decode worker failed to start: "@)
                },
            },
    {
        match result {
            Ok(_) => {
                self.state = PdState::Done;
                Ok(DecodeStarted { decode_status: 200, connector: self.mode.metrics_label() })
            },
            Err(e) => {
                self.state = PdState::Failed;
                Err(
                    leg_failure(
                        Leg::Decode,
                        &e,
                        "decode_worker_failed_to_start",
                        "Decode worker failed to start: ",
                    ),
                )
            },
        }
    }
}

/// What is harvested after a message of the prefill worker: what the message
/// hands over, else what there was.
pub open spec fn after_message(
    harvest: Option<Seq<char>>,
    message: ProtoResponseVariant,
) -> Option<Seq<char>> {
    match message {
        ProtoResponseVariant::Complete(c) => match handoff_json(c@) {
            Some(json) => Some(json),
            None => harvest,
        },
        _ => harvest,
    }
}

/// The legs of a request: the prefill one as it is, the decode one without
/// media, each pinned to its rank.
pub fn dual_dispatch_requests(request: ProtoGenerateRequest, workers: &WorkerSelection) -> (r: (
    ProtoGenerateRequest,
    ProtoGenerateRequest,
))
    ensures
        r.0@ == pinned(request@, workers.prefill_rank()),
        r.1@ == pinned(
            RequestText {
                sglang_media: None,
                vllm_media: None,
                tokenspeed_media: None,
                ..request@
            },
            workers.decode_rank(),
        ),
{
    let mut prefill = request.clone_inner();
    // The decode worker only needs the cache of the prefill worker.
    let mut decode = request;
    decode.clear_mm_inputs();
    pin(&mut prefill, workers.pinned_prefill_rank());
    pin(&mut decode, workers.pinned_decode_rank());
    (prefill, decode)
}

/// What comes of starting both legs at once: a failure of the prefill leg is
/// told before one of the decode leg.
pub fn dual_dispatch_outcome(
    prefill: Result<(), RpcFailure>,
    decode: Result<(), RpcFailure>,
) -> (r: Result<(), LegFailure>)
    ensures
        match (prefill, decode) {
            (Err(e), _) => r matches Err(f) && is_leg_failure(
                f,
                Leg::Prefill,
                e,
                "prefill_worker_failed_to_start"@,
                "Prefill worker failed to start: "@,
            ),
            (Ok(_), Err(e)) => r matches Err(f) && is_leg_failure(
                f,
                Leg::Decode,
                e,
                "decode_worker_failed_to_start"@,
                "Decode worker failed to start: "@,
            ),
            (Ok(_), Ok(_)) => r is Ok,
        },
{
    if let Err(e) = &prefill {
        return Err(
            leg_failure(
                Leg::Prefill,
                e,
                "prefill_worker_failed_to_start",
                "Prefill worker failed to start: ",
            ),
        );
    }
    if let Err(e) = &decode {
        return Err(
            leg_failure(
                Leg::Decode,
                e,
                "decode_worker_failed_to_start",
                "Decode worker failed to start: ",
            ),
        );
    }
    Ok(())
}

/// The request for a single worker, pinned to its rank.
pub fn single_request(request: ProtoGenerateRequest, workers: &WorkerSelection) -> (r:
    ProtoGenerateRequest)
    ensures
        r@ == pinned(request@, workers.single_rank()),
{
    let mut request = request;
    pin(&mut request, workers.pinned_single_rank());
    request
}

/// What is answered where a call to a single worker fails: the code.
pub open spec fn start_failure_code(kind: RequestKind) -> Seq<char> {
    match kind {
        RequestKind::Generate => "start_generation_failed"@,
        RequestKind::Embed => "start_embedding_failed"@,
    }
}

/// What is answered where a call to a single worker fails: what the message
/// begins with.
pub open spec fn start_failure_text(kind: RequestKind) -> Seq<char> {
    match kind {
        RequestKind::Generate => "Failed to start generation: "@,
        RequestKind::Embed => "Failed to start embedding: "@,
    }
}

/// What comes of a call to a single worker.
pub fn single_outcome(result: Result<(), RpcFailure>, kind: RequestKind) -> (r: Result<
    (),
    ErrorAnswer,
>)
    ensures
        match result {
            Ok(_) => r is Ok,
            Err(e) => {
                &&& r is Err
                &&& r->Err_0.status == e.status
                &&& r->Err_0.code@ == start_failure_code(kind)
                &&& r->Err_0.message@ == start_failure_text(kind) + e.message@
            },
        },
{
    match result {
        Ok(_) => Ok(()),
        Err(e) => {
            let (code, what): (&str, &str) = match kind {
                RequestKind::Generate => (
                    "start_generation_failed",
                    "Failed to start generation: ",
                ),
                RequestKind::Embed => ("start_embedding_failed", "Failed to start embedding: "),
            };
            let mut message = what.to_owned();
            message.append(e.message.as_str());
            Err(ErrorAnswer { status: e.status, code: code.to_owned(), message })
        },
    }
}

#[derive(Debug, Clone, Copy, PartialEq, Eq, Structural)]
pub enum ExecutionMode {
    /// Regular mode: single worker execution
    Single,
    /// Dual dispatch to prefill + decode workers
    DualDispatch,
}

/// What kind of request was built.
#[derive(Debug, Clone, Copy, PartialEq, Eq, Structural)]
pub enum RequestKind {
    Generate,
    Embed,
}

/// How a request is executed.
#[derive(Debug, Clone, Copy, PartialEq, Eq, Structural)]
pub enum Dispatch {
    Single,
    SingleEmbed,
    /// Prefill first, then decode.
    SequentialPd,
    /// Prefill and decode at once.
    DualDispatch,
}

/// Request execution stage: Execute requests (single or dual dispatch)
pub struct RequestExecutionStage {
    mode: ExecutionMode,
}

impl RequestExecutionStage {
    pub closed spec fn execution_mode(&self) -> ExecutionMode {
        self.mode
    }

    pub fn new(mode: ExecutionMode) -> (r: Self)
        ensures
            r.execution_mode() == mode,
    {
        RequestExecutionStage { mode }
    }

    /// How a request is executed, or why it cannot be. The request must have
    /// been built, clients acquired and workers selected; `dual_clients` says
    /// whether two clients were acquired.
    pub fn execute(
        &self,
        request: Option<RequestKind>,
        dual_clients: Option<bool>,
        workers: Option<&WorkerSelection>,
    ) -> (r: Result<Dispatch, ErrorAnswer>)
        ensures
            match execution(
                self.execution_mode(),
                request,
                dual_clients,
                match workers {
                    Some(w) => Some(w.runtime()),
                    None => None,
                },
            ) {
                Ok(d) => r == Ok::<Dispatch, ErrorAnswer>(d),
                Err(e) => r matches Err(a) && a@ == e,
            },
    {
        let kind: RequestKind = match request {
            Some(kind) => kind,
            None => {
                return Err(internal_error("proto_request_not_built", "Proto request not built"));
            },
        };
        let dual: bool = match dual_clients {
            Some(dual) => dual,
            None => {
                return Err(
                    internal_error(
                        "client_acquisition_not_completed",
                        "Client acquisition not completed",
                    ),
                );
            },
        };
        let workers: &WorkerSelection = match workers {
            Some(w) => w,
            None => {
                return Err(
                    internal_error(
                        "worker_selection_not_completed",
                        "Worker selection not completed",
                    ),
                );
            },
        };
        let dispatch: Dispatch = match kind {
            RequestKind::Embed => Dispatch::SingleEmbed,
            RequestKind::Generate => match self.mode {
                ExecutionMode::Single => Dispatch::Single,
                ExecutionMode::DualDispatch => match workers.pd_runtime_type() {
                    Some(RuntimeType::Vllm) => Dispatch::SequentialPd,
                    Some(RuntimeType::Sglang) => Dispatch::DualDispatch,
                    Some(_) => {
                        return Err(
                            bad_request(
                                "runtime_pd_not_supported",
                                "This runtime does not support PD disaggregated mode",
                            ),
                        );
                    },
                    None => {
                        return Err(
                            internal_error(
                                "pd_mode_requires_dual_workers",
                                "PD mode requires dual worker selection",
                            ),
                        );
                    },
                },
            },
        };
        let wants_dual = matches!(dispatch, Dispatch::SequentialPd | Dispatch::DualDispatch);
        if wants_dual && !dual {
            return Err(
                internal_error(
                    "expected_dual_clients_got_single",
                    "Expected dual clients but got single",
                ),
            );
        }
        if !wants_dual && dual {
            return Err(
                internal_error(
                    "expected_single_client_got_dual",
                    "Expected single client but got dual",
                ),
            );
        }
        Ok(dispatch)
    }
}

/// How a request is executed: an embedding by one worker; a generation by one,
/// or disaggregated as the runtime does it, if it does. The clients must fit.
pub open spec fn execution(
    mode: ExecutionMode,
    request: Option<RequestKind>,
    dual_clients: Option<bool>,
    runtime: Option<Option<RuntimeType>>,
) -> Result<Dispatch, crate::grpc::error::ErrorText> {
    if request is None {
        Err(internal_error_text("proto_request_not_built"@, "Proto request not built"@))
    } else if dual_clients is None {
        Err(
            internal_error_text(
                "client_acquisition_not_completed"@,
                "Client acquisition not completed"@,
            ),
        )
    } else if runtime is None {
        Err(
            internal_error_text(
                "worker_selection_not_completed"@,
                "Worker selection not completed"@,
            ),
        )
    } else if request == Some(RequestKind::Generate) && mode == ExecutionMode::DualDispatch {
        match runtime->0 {
            Some(RuntimeType::Vllm) | Some(RuntimeType::Sglang) => if dual_clients->0 {
                Ok(
                    if runtime->0 == Some(RuntimeType::Vllm) {
                        Dispatch::SequentialPd
                    } else {
                        Dispatch::DualDispatch
                    },
                )
            } else {
                Err(
                    internal_error_text(
                        "expected_dual_clients_got_single"@,
                        "Expected dual clients but got single"@,
                    ),
                )
            },
            Some(_) => Err(
                bad_request_text(
                    "runtime_pd_not_supported"@,
                    "This runtime does not support PD disaggregated mode"@,
                ),
            ),
            None => Err(
                internal_error_text(
                    "pd_mode_requires_dual_workers"@,
                    "PD mode requires dual worker selection"@,
                ),
            ),
        }
    } else if dual_clients->0 {
        Err(
            internal_error_text(
                "expected_single_client_got_dual"@,
                "Expected single client but got dual"@,
            ),
        )
    } else {
        Ok(
            if request == Some(RequestKind::Embed) {
                Dispatch::SingleEmbed
            } else {
                Dispatch::Single
            },
        )
    }
}

/// The legs of a disaggregated request go out under the id of the request, and
/// the prefill leg generates one token for one sample.
pub proof fn legs_match(
    r: RequestText,
    mode: ConnectorText,
    relay: bool,
    transfer_id: Option<Seq<char>>,
    harvested: Option<Seq<char>>,
    prefill_rank: Option<usize>,
    decode_rank: Option<usize>,
)
    ensures
        ({
            let prefill = prefill_leg(r, mode, relay, transfer_id, prefill_rank);
            let decode = decode_leg(r, mode, relay, transfer_id, harvested, decode_rank);
            &&& prefill.request_id == r.request_id
            &&& decode.request_id == r.request_id
            &&& requested_samples(prefill) == 1
            &&& r.engine == Engine::Vllm ==> prefill.sampling->0.max_tokens == Some(1u32)
            &&& !prefill.stream
            &&& decode.stream == r.stream
            &&& decode.sampling == r.sampling
        }),
{
}

/// With several samples nothing that the prefill engine holds is handed to the
/// decode leg: no id is minted, and returned params are not relayed.
pub proof fn several_samples_get_no_handoff(
    r: RequestText,
    mode: ConnectorText,
    transfer_id: Option<Seq<char>>,
    harvested: Option<Seq<char>>,
    prefill_rank: Option<usize>,
    decode_rank: Option<usize>,
)
    requires
        transfer_id is Some ==> mints(mode, false),
    ensures
        prefill_leg(r, mode, false, transfer_id, prefill_rank).kv_transfer_params_json
            == r.kv_transfer_params_json,
        decode_leg(r, mode, false, transfer_id, harvested, decode_rank).kv_transfer_params_json
            == r.kv_transfer_params_json,
{
}

/// The prefill leg computes the cache and nothing else: one token of one sample, whatever
/// the user asked to stop at, and not streamed. Media and the other sampling numbers
/// stay, and it is pinned to the prefill worker's rank.
pub proof fn prefill_generates_nothing(
    r: RequestText,
    mode: ConnectorText,
    relay: bool,
    transfer_id: Option<Seq<char>>,
    rank: Option<usize>,
)
    requires
        r.engine == Engine::Vllm,
    ensures
        ({
            let p = prefill_leg(r, mode, relay, transfer_id, rank);
            let s = p.sampling->0;
            &&& p.sampling is Some
            &&& s.max_tokens == Some(1u32) && s.min_tokens == 0 && s.n == 1
            &&& s.stop.len() == 0 && s.stop_token_ids.len() == 0 && s.ignore_eos
            &&& !p.stream
            &&& r.sampling matches Some(o) ==> s.temperature == o.temperature && s.top_p
                == o.top_p && s.top_k == o.top_k && s.min_p == o.min_p && s.repetition_penalty
                == o.repetition_penalty
            &&& p.request_id == r.request_id && p.engine == r.engine
            &&& p.vllm_media == r.vllm_media
            &&& p.kv_transfer_params == r.kv_transfer_params
            &&& rank matches Some(k) ==> (k <= i32::MAX ==> p.data_parallel_rank is Some
                && p.data_parallel_rank->0 == k)
            &&& rank is None ==> p.data_parallel_rank == r.data_parallel_rank
        }),
{
}

/// The decode leg is the user's request: sampled and streamed as asked, with all its
/// media, pinned to the decode worker's rank. What the prefill engine handed over is
/// handed on where it is relayed.
pub proof fn decode_is_the_users_request(
    r: RequestText,
    mode: ConnectorText,
    relay: bool,
    transfer_id: Option<Seq<char>>,
    harvested: Option<Seq<char>>,
    rank: Option<usize>,
)
    requires
        r.engine == Engine::Vllm,
    ensures
        ({
            let d = decode_leg(r, mode, relay, transfer_id, harvested, rank);
            &&& d.sampling == r.sampling && d.stream == r.stream && d.request_id == r.request_id
                && d.engine == r.engine && d.vllm_media == r.vllm_media
            &&& rank matches Some(k) ==> (k <= i32::MAX ==> d.data_parallel_rank is Some
                && d.data_parallel_rank->0 == k)
            &&& rank is None ==> d.data_parallel_rank == r.data_parallel_rank
            &&& !(mode is Mooncake) && relay && harvested is Some ==> d.kv_transfer_params_json
                == harvested && d.kv_transfer_params == r.kv_transfer_params
            &&& !(mode is Mooncake) && (!relay || harvested is None) ==> d.kv_transfer_params_json
                == r.kv_transfer_params_json && d.kv_transfer_params == r.kv_transfer_params
        }),
{
}

/// Under Mooncake both legs name the same transfer: the prefill leg is told to serve
/// it, the decode leg to fetch it from the prefill worker's engine and address. Where
/// no transfer is named, the decode leg is told the address only.
pub proof fn mooncake_legs_name_one_transfer(
    r: RequestText,
    host: Seq<char>,
    port: u16,
    engine: Seq<char>,
    id: Seq<char>,
    harvested: Option<Seq<char>>,
    ranks: (Option<usize>, Option<usize>),
)
    requires
        r.engine == Engine::Vllm,
    ensures
        ({
            let mode = ConnectorText::Mooncake { host, port: port as int, engine_id: Some(engine) };
            let p = prefill_leg(r, mode, true, Some(id), ranks.0);
            let d = decode_leg(r, mode, true, Some(id), harvested, ranks.1);
            let bare = decode_leg(r, mode, false, None, harvested, ranks.1);
            &&& p.kv_transfer_params_json == Some(
                "{\"do_remote_decode\":true,\"do_remote_prefill\":false,\"transfer_id\":"@
                    + json_text(id) + "}"@,
            )
            &&& d.kv_transfer_params_json == Some(
                "{\"do_remote_decode\":false,\"do_remote_prefill\":true,\"remote_bootstrap_addr\":"@
                    + json_text("http://"@ + host + ":"@ + decimal_text(port as nat))
                    + ",\"remote_engine_id\":"@ + json_text(engine) + ",\"transfer_id\":"@
                    + json_text(id) + "}"@,
            )
            &&& bare.kv_transfer_params == Some((host, port as u32))
            &&& bare.kv_transfer_params_json == r.kv_transfer_params_json
        }),
{
}

/// Under NIXL the prefill engine is asked to hand over, unless several samples would
/// take it.
pub proof fn nixl_prefill_is_asked_to_hand_over(r: RequestText, relay: bool, rank: Option<usize>)
    requires
        r.engine == Engine::Vllm,
    ensures
        relay ==> prefill_leg(r, ConnectorText::Nixl, relay, None, rank).kv_transfer_params_json
            == Some("{\"do_remote_decode\":true,\"do_remote_prefill\":false}"@),
        !relay ==> prefill_leg(r, ConnectorText::Nixl, relay, None, rank).kv_transfer_params_json
            == r.kv_transfer_params_json,
{
}

/// How the cache travels is what the prefill worker announces: by Mooncake at its own
/// address, by NIXL, or as the engine says. An id is known of a core only where its
/// rank is, if there are several.
pub proof fn connectors_are_announced(w: WorkerInfo)
    ensures
        w.kv_connector is None ==> worker_connector(w) is Passthrough,
        w.kv_connector is Some && w.kv_connector->0@ == NIXL_CONNECTOR@ && NIXL_CONNECTOR@
            != MOONCAKE_CONNECTOR@ ==> worker_connector(w) is Nixl,
        w.kv_connector is Some && w.kv_connector->0@ != NIXL_CONNECTOR@ && w.kv_connector->0@
            != MOONCAKE_CONNECTOR@ ==> worker_connector(w) is Passthrough,
        w.kv_connector is Some && w.kv_connector->0@ == MOONCAKE_CONNECTOR@ ==> {
            &&& worker_connector(w) matches ConnectorText::Mooncake { host, port, engine_id }
            &&& host == w.bootstrap_host@
            &&& w.bootstrap_port matches Some(p) ==> port == p
            &&& w.kv_engine_id is None || w.kv_engine_id->0@.len() == 0 ==> engine_id is None
            &&& w.kv_engine_id is Some && w.kv_engine_id->0@.len() > 0 && w.dp_size is Some ==> {
                &&& w.dp_size->0 <= 1 ==> engine_id == Some(w.kv_engine_id->0@)
                &&& w.dp_size->0 > 1 && w.dp_rank is None ==> engine_id is None
                &&& w.dp_size->0 > 1 && w.dp_rank is Some ==> engine_id == Some(
                    w.kv_engine_id->0@ + "_dp"@ + decimal_text(w.dp_rank->0 as nat),
                )
            }
        },
{
}

/// An embedding goes to one worker; a generation to one, or to two where it is
/// disaggregated: one after the other under vLLM, at once under SGLang. Nothing goes
/// out before it was built, its clients acquired and its workers selected.
pub proof fn dispatches_fit_their_workers(
    mode: ExecutionMode,
    request: Option<RequestKind>,
    dual_clients: Option<bool>,
    runtime: Option<Option<RuntimeType>>,
)
    ensures
        execution(mode, request, dual_clients, runtime) matches Ok(d) ==> {
            &&& request is Some && dual_clients is Some && runtime is Some
            &&& d == Dispatch::SingleEmbed <==> request == Some(RequestKind::Embed)
            &&& d == Dispatch::SequentialPd ==> runtime->0 == Some(RuntimeType::Vllm)
            &&& d == Dispatch::DualDispatch ==> runtime->0 == Some(RuntimeType::Sglang)
            &&& d == Dispatch::SequentialPd || d == Dispatch::DualDispatch <==> request == Some(
                RequestKind::Generate,
            ) && mode == ExecutionMode::DualDispatch
            &&& dual_clients->0 <==> d == Dispatch::SequentialPd || d == Dispatch::DualDispatch
        },
        request == Some(RequestKind::Generate) && dual_clients == Some(false) && runtime is Some
            && mode == ExecutionMode::Single ==> execution(mode, request, dual_clients, runtime)
            is Ok,
        request == Some(RequestKind::Embed) && dual_clients == Some(false) && runtime is Some
            ==> execution(mode, request, dual_clients, runtime) is Ok,
        request == Some(RequestKind::Generate) && dual_clients == Some(true) && mode
            == ExecutionMode::DualDispatch && (runtime == Some(Some(RuntimeType::Vllm)) || runtime
            == Some(Some(RuntimeType::Sglang))) ==> execution(mode, request, dual_clients, runtime)
            is Ok,
{
}

/// What was harvested last counts: a message that hands something over replaces what
/// there was, and any other leaves it.
pub proof fn the_last_handoff_counts(harvest: Option<Seq<char>>, message: ProtoResponseVariant)
    ensures
        message matches ProtoResponseVariant::Complete(c) ==> (match handoff_json(c@) {
            Some(json) => after_message(harvest, message) == Some(json),
            None => after_message(harvest, message) == harvest,
        }),
        !(message is Complete) ==> after_message(harvest, message) == harvest,
{
}

/// What a leg fails with is told of that leg, with the status it failed with and what
/// it said; the prefill leg's failure comes first.
pub proof fn failures_name_their_leg(
    prefill: Result<(), RpcFailure>,
    decode: Result<(), RpcFailure>,
    r: Result<(), LegFailure>,
)
    requires
        call_ensures(dual_dispatch_outcome, (prefill, decode), r),
    ensures
        r is Ok <==> prefill is Ok && decode is Ok,
        prefill matches Err(e) ==> (r matches Err(f) && f.leg is Prefill && f.status == e.status
            && f.code@ == "prefill_worker_failed_to_start"@ && f.message@
            == "Prefill worker failed to start: "@ + e.message@),
        prefill is Ok ==> (decode matches Err(e) ==> (r matches Err(f) && f.leg is Decode
            && f.status == e.status && f.code@ == "decode_worker_failed_to_start"@ && f.message@
            == "Decode worker failed to start: "@ + e.message@)),
{
}

/// Both legs get the request, each on the rank of its own worker; only the prefill
/// leg gets the media.
pub proof fn both_legs_get_the_request(
    request: ProtoGenerateRequest,
    workers: WorkerSelection,
    r: (ProtoGenerateRequest, ProtoGenerateRequest),
)
    requires
        call_ensures(dual_dispatch_requests, (request, &workers), r),
    ensures
        r.0@.request_id == request@.request_id,
        r.1@.request_id == request@.request_id,
        r.0@.sampling == request@.sampling,
        r.1@.sampling == request@.sampling,
        r.0@.stream == request@.stream,
        r.1@.stream == request@.stream,
        r.0@.sglang_media == request@.sglang_media,
        r.0@.vllm_media == request@.vllm_media,
        r.0@.tokenspeed_media == request@.tokenspeed_media,
        r.1@.sglang_media is None,
        r.1@.vllm_media is None,
        r.1@.tokenspeed_media is None,
{
}

/// A call to a single worker that fails is answered with the worker's status and
/// words, under a code for what was asked.
pub proof fn single_failures_are_told(
    result: Result<(), RpcFailure>,
    kind: RequestKind,
    r: Result<(), ErrorAnswer>,
)
    requires
        call_ensures(single_outcome, (result, kind), r),
    ensures
        r is Ok <==> result is Ok,
        result matches Err(e) ==> (r matches Err(a) && a.status == e.status && a.message@.len()
            >= e.message@.len() && a.message@.skip(a.message@.len() - e.message@.len())
            == e.message@ && (kind is Generate ==> a.code@ == "start_generation_failed"@) && (kind
            is Embed ==> a.code@ == "start_embedding_failed"@)),
{
    if let Err(e) = result {
        let a = r->Err_0;
        assert(a.message@.skip(a.message@.len() - e.message@.len()) =~= e.message@);
    }
}

/// The legs follow each other: the prefill leg starts, is drained, and only then the
/// decode leg is sent; a failure on the way ends it.
pub proof fn legs_follow_each_other(
    pd: &mut SequentialPd,
    drained: &mut SequentialPd,
    result: Result<(), RpcFailure>,
    started: Result<(), LegFailure>,
    decode: DecodeStart,
)
    requires
        call_ensures(SequentialPd::on_prefill_start, (pd, result), started),
        *final(pd) == *old(drained),
        result is Ok ==> call_ensures(SequentialPd::on_prefill_end, (drained,), decode),
    ensures
        started is Ok <==> result is Ok,
        result is Ok ==> final(pd).at() is Draining && final(drained).at() is DecodeSent,
        result is Err ==> final(pd).at() is Failed,
        result matches Err(e) ==> (started matches Err(f) && f.leg is Prefill && f.status
            == e.status),
        result is Ok ==> decode.request@.request_id == decode_leg(
            old(pd).asked(),
            old(pd).connector(),
            old(pd).relays(),
            old(pd).minted(),
            old(pd).harvest(),
            old(pd).rank(),
        ).request_id,
{
}

/// Connectors are told apart: each has a view and a label of its own, and is found
/// under the name that the engines have for it; Mooncake is looked for at the default
/// port where the worker names none.
pub proof fn connectors_are_told_apart(
    mode: KvConnectorMode,
    label: &'static str,
    host: Seq<char>,
    port: Option<u16>,
    engine_id: Option<Seq<char>>,
)
    requires
        call_ensures(KvConnectorMode::metrics_label, (&mode,), label),
    ensures
        mode is Mooncake <==> mode@ is Mooncake,
        mode is Nixl <==> mode@ is Nixl,
        mode is Passthrough <==> mode@ is Passthrough,
        mode matches KvConnectorMode::Mooncake { host: h, port: p, engine_id: e } ==> (mode@ matches
            ConnectorText::Mooncake { host: vh, port: vp, engine_id: ve } && vh == h@ && vp == p && (
        e matches Some(s) ==> ve == Some(s@)) && (e is None ==> ve is None)),
        mode is Mooncake ==> label@ == "mooncake"@,
        mode is Nixl ==> label@ == "nixl"@,
        mode is Passthrough ==> label@ == "passthrough"@,
        connector_text(Some("MooncakeConnector"@), host, port, engine_id) is Mooncake,
        connector_text(Some("NixlConnector"@), host, port, engine_id) is Nixl,
        connector_text(None, host, port, engine_id) is Passthrough,
        connector_text(Some("MooncakeConnector"@), host, None, engine_id) matches
            ConnectorText::Mooncake { host: h, port: p, .. } && h == host && p == 8998,
        connector_text(Some("MooncakeConnector"@), host, port, engine_id) matches
            ConnectorText::Mooncake { host: h, port: p, engine_id: e } && h == host && (port matches
            Some(own) ==> p == own) && (engine_id matches Some(id) ==> (id.len() > 0 ==> e == Some(
            id,
        )) && (id.len() == 0 ==> e is None)) && (engine_id is None ==> e is None),
{
    reveal_strlit("MooncakeConnector");
    reveal_strlit("NixlConnector");
    assert("MooncakeConnector"@.len() == 17 && "NixlConnector"@.len() == 13);
}

/// A request is pinned where its engine knows ranks, and nothing else of it changes.
pub proof fn ranks_are_for_engines_that_know_them(r: RequestText, rank: usize)
    requires
        rank <= i32::MAX,
    ensures
        r.engine is Vllm || r.engine is Sglang ==> pinned(r, Some(rank)).data_parallel_rank == Some(
            rank as i32,
        ),
        !(r.engine is Vllm || r.engine is Sglang) ==> pinned(r, Some(rank)) == r,
        pinned(r, None) == r,
        pinned(r, Some(rank)).engine == r.engine,
        pinned(r, Some(rank)).request_id == r.request_id,
        pinned(r, Some(rank)).sampling == r.sampling,
        pinned(r, Some(rank)).stream == r.stream,
        pinned(r, Some(rank)).kv_transfer_params == r.kv_transfer_params,
        pinned(r, Some(rank)).kv_transfer_params_json == r.kv_transfer_params_json,
        pinned(r, Some(rank)).disaggregated == r.disaggregated,
        pinned(r, Some(rank)).encode_bootstrap == r.encode_bootstrap,
{
}

/// What was decided at the start is what the decode leg is built from, whatever
/// happens in between; the legs fail under codes of their own, with what the worker
/// said behind them.
pub proof fn decisions_last_to_the_decode_leg(
    pd: &mut SequentialPd,
    drained: &mut SequentialPd,
    sent: &mut SequentialPd,
    message: Result<ProtoGenerateResponse, RpcFailure>,
    outcome: Result<(), LegFailure>,
    decode: DecodeStart,
    result: Result<(), RpcFailure>,
    started: Result<DecodeStarted, LegFailure>,
)
    requires
        call_ensures(SequentialPd::on_prefill_message, (pd, message), outcome),
        *final(pd) == *old(drained),
        call_ensures(SequentialPd::on_prefill_end, (drained,), decode),
        *final(drained) == *old(sent),
        call_ensures(SequentialPd::on_decode_start, (sent, result), started),
    ensures
        decode.request@ == decode_leg(
            old(pd).asked(),
            old(pd).connector(),
            old(pd).relays(),
            old(pd).minted(),
            final(pd).harvest(),
            old(pd).rank(),
        ),
        decode.prefill_status == 200,
        decode.handoff_missing <==> old(pd).connector() is Nixl && old(pd).relays()
            && final(pd).harvest() is None,
        message is Err ==> final(pd).harvest() == old(pd).harvest() && outcome is Err,
        message matches Err(e) ==> (outcome matches Err(f) && f.leg is Prefill && f.status
            == e.status && f.code@ == "prefill_stream_error"@ && f.message@
            == "Prefill stream error: "@ + e.message@),
        started is Ok <==> result is Ok,
        result matches Err(e) ==> (started matches Err(f) && f.leg is Decode && f.status == e.status
            && f.code@ == "decode_worker_failed_to_start"@ && f.message@
            == "Decode worker failed to start: "@ + e.message@),
        result is Ok ==> final(sent).at() is Done && (old(pd).connector() is Nixl
            ==> started->Ok_0.connector@ == "nixl"@) && (old(pd).connector() is Mooncake
            ==> started->Ok_0.connector@ == "mooncake"@),
        result is Err ==> final(sent).at() is Failed,
{
}

/// How many cores an engine has is taken from its worker, and only where the worker
/// does not say, from its label.
pub proof fn sizes_are_announced(w: WorkerInfo, i: int)
    ensures
        w.dp_size matches Some(n) ==> known_dp_size(w) == Some(n),
        w.dp_size is None && 0 <= i < w.labels@.len() && w.labels@[i].0@ == "dp_size"@ && (forall|
            j: int,
        |
            0 <= j < i ==> (#[trigger] w.labels@[j]).0@ != "dp_size"@) ==> match unsigned_value(
            w.labels@[i].1@,
            usize::MAX as nat,
        ) {
            Some(n) => known_dp_size(w) == Some(n as usize),
            None => known_dp_size(w) is None,
        },
        w.dp_size is None && (forall|j: int|
            0 <= j < w.labels@.len() ==> (#[trigger] w.labels@[j]).0@ != "dp_size"@)
            ==> known_dp_size(w) is None,
{
    first_entry_is_found(w.labels@, "dp_size"@);
}

} // verus!
