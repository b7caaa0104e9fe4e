//! How large multimodal tensors travel from the gateway to the worker.
//!
//! For the transport mode and the size threshold a worker's own setting wins,
//! then the router's configuration, then the environment, then the built-in
//! default.

use crate::grpc::context::{EncodeAssignment, WorkerInfo, WorkerSelection};
use crate::grpc::multimodal::assemble::{entry_of, find_entry, first_entry_is_found};
use crate::grpc::multimodal::tokenspeed::TokenSpeedAssemblyOptions;
use crate::grpc::multimodal::types::{Modality, TransportMode};
use crate::text::{
    decimal, decimal_text, lowered, parse_unsigned, same, to_ascii_lowercase, trim, trimmed,
    unsigned_value,
};
use vstd::prelude::*;

verus! {

/// Tensors smaller than this stay inline unless something else is configured.
pub const DEFAULT_SHM_MIN_BYTES: usize = 65536;

/// The transport that a name stands for.
pub open spec fn transport_named(name: Seq<char>) -> Option<TransportMode> {
    let s = lowered(name);
    if s == "inline"@ {
        Some(TransportMode::Inline)
    } else if s == "shm"@ {
        Some(TransportMode::Shm)
    } else if s == "auto"@ {
        Some(TransportMode::Auto)
    } else if s == "rdma"@ {
        Some(TransportMode::Rdma)
    } else {
        None
    }
}

impl TransportMode {
    pub fn parse(name: &str) -> (r: Option<Self>)
        ensures
            r == transport_named(name@),
    {
        let s = to_ascii_lowercase(name);
        let s = s.as_str();
        if same(s, "inline") {
            Some(TransportMode::Inline)
        } else if same(s, "shm") {
            Some(TransportMode::Shm)
        } else if same(s, "auto") {
            Some(TransportMode::Auto)
        } else if same(s, "rdma") {
            Some(TransportMode::Rdma)
        } else {
            None
        }
    }
}

/// The router-level defaults.
#[derive(Debug, Clone, Copy, PartialEq, Eq, Structural)]
pub struct MmTransportDefaults {
    pub mode: TransportMode,
    pub shm_min_bytes: usize,
}

/// The environment variables that bear on the transport: each under its name
/// and under the name it used to have.
pub struct MmTransportEnv {
    pub tensor_transport: Option<String>,
    pub tensor_transport_alias: Option<String>,
    pub shm_min_bytes: Option<String>,
    pub shm_min_bytes_alias: Option<String>,
}

/// A variable's value without the white space around it; none if nothing is
/// left.
pub open spec fn env_value(value: Option<String>) -> Option<Seq<char>> {
    match value {
        Some(s) => if trimmed(s@).len() > 0 {
            Some(trimmed(s@))
        } else {
            None
        },
        None => None,
    }
}

fn read_env_nonempty(value: &Option<String>) -> (r: Option<String>)
    ensures
        match r {
            Some(s) => env_value(*value) == Some(s@),
            None => env_value(*value) is None,
        },
{
    match value {
        Some(s) => {
            let t = trim(s.as_str());
            if same(t.as_str(), "") {
                proof {
                    reveal_strlit("");
                }
                None
            } else {
                proof {
                    reveal_strlit("");
                    assert(t@.len() == 0 ==> t@ =~= ""@);
                }
                Some(t)
            }
        },
        None => None,
    }
}

/// The value of a variable that has an older name too.
pub open spec fn aliased_value(
    canonical: Option<String>,
    deprecated: Option<String>,
) -> Option<Seq<char>> {
    match env_value(canonical) {
        Some(s) => Some(s),
        None => env_value(deprecated),
    }
}

/// The value of a variable, which may still be set under its older name; `true`
/// beside it says that it was.
pub fn env_with_deprecated_alias(
    canonical: &Option<String>,
    deprecated: &Option<String>,
) -> (r: Option<(String, bool)>)
    ensures
        match r {
            Some((s, old_name)) => {
                &&& aliased_value(*canonical, *deprecated) == Some(s@)
                &&& old_name == (env_value(*canonical) is None)
            },
            None => aliased_value(*canonical, *deprecated) is None,
        },
{
    match read_env_nonempty(canonical) {
        Some(s) => Some((s, false)),
        None => match read_env_nonempty(deprecated) {
            Some(s) => Some((s, true)),
            None => None,
        },
    }
}

impl MmTransportEnv {
    /// The mode that the environment asks for; one that is not known counts as
    /// none.
    pub open spec fn mode(&self) -> Option<TransportMode> {
        match aliased_value(self.tensor_transport, self.tensor_transport_alias) {
            Some(s) => transport_named(s),
            None => None,
        }
    }

    /// The threshold that the environment asks for; one that is not a number
    /// counts as none.
    pub open spec fn min_bytes(&self) -> Option<nat> {
        match aliased_value(self.shm_min_bytes, self.shm_min_bytes_alias) {
            Some(s) => unsigned_value(s, usize::MAX as nat),
            None => None,
        }
    }
}

pub fn mm_tensor_transport_mode_from_env(env: &MmTransportEnv) -> (r: Option<TransportMode>)
    ensures
        r == env.mode(),
{
    match env_with_deprecated_alias(&env.tensor_transport, &env.tensor_transport_alias) {
        Some((s, _)) => TransportMode::parse(s.as_str()),
        None => None,
    }
}

pub fn mm_shm_min_bytes_from_env(env: &MmTransportEnv) -> (r: Option<usize>)
    ensures
        match r {
            Some(n) => env.min_bytes() == Some(n as nat),
            None => env.min_bytes() is None,
        },
{
    match env_with_deprecated_alias(&env.shm_min_bytes, &env.shm_min_bytes_alias) {
        Some((s, _)) => match parse_unsigned(s.as_str(), usize::MAX as u64) {
            Some(n) => Some(n as usize),
            None => None,
        },
        None => None,
    }
}

/// The defaults that follow from a configuration and the environment.
pub open spec fn resolved_defaults(
    mode: Option<TransportMode>,
    shm_min_bytes: Option<usize>,
    env: MmTransportEnv,
) -> MmTransportDefaults {
    MmTransportDefaults {
        mode: match mode {
            Some(m) => m,
            None => match env.mode() {
                Some(m) => m,
                None => TransportMode::Inline,
            },
        },
        shm_min_bytes: match shm_min_bytes {
            Some(n) => n,
            None => match env.min_bytes() {
                Some(n) => n as usize,
                None => DEFAULT_SHM_MIN_BYTES,
            },
        },
    }
}

fn resolve_defaults(
    mode: Option<TransportMode>,
    shm_min_bytes: Option<usize>,
    env: &MmTransportEnv,
) -> (r: MmTransportDefaults)
    ensures
        r == resolved_defaults(mode, shm_min_bytes, *env),
{
    let mode: TransportMode = match mode {
        Some(m) => m,
        None => match mm_tensor_transport_mode_from_env(env) {
            Some(m) => m,
            None => TransportMode::default(),
        },
    };
    let shm_min_bytes: usize = match shm_min_bytes {
        Some(n) => n,
        None => match mm_shm_min_bytes_from_env(env) {
            Some(n) => n,
            None => DEFAULT_SHM_MIN_BYTES,
        },
    };
    MmTransportDefaults { mode, shm_min_bytes }
}

/// The defaults of this process, once they are seeded.
pub struct MmTransport {
    seeded: Option<MmTransportDefaults>,
}

impl MmTransport {
    pub closed spec fn seed(&self) -> Option<MmTransportDefaults> {
        self.seeded
    }

    /// The defaults in force: the seeded ones, or what the environment says.
    pub open spec fn in_force(&self, env: MmTransportEnv) -> MmTransportDefaults {
        match self.seed() {
            Some(d) => d,
            None => resolved_defaults(None, None, env),
        }
    }

    pub fn new() -> (r: Self)
        ensures
            r.seed() is None,
    {
        MmTransport { seeded: None }
    }

    /// Seeds the defaults from the router's configuration. The first call wins.
    pub fn init_mm_transport_defaults(
        &mut self,
        mode: Option<TransportMode>,
        shm_min_bytes: Option<usize>,
        env: &MmTransportEnv,
    )
        ensures
            final(self).seed() == match old(self).seed() {
                Some(d) => Some(d),
                None => Some(resolved_defaults(mode, shm_min_bytes, *env)),
            },
    {
        if self.seeded.is_none() {
            self.seeded = Some(resolve_defaults(mode, shm_min_bytes, env));
        }
    }

    pub fn mm_transport_defaults(&self, env: &MmTransportEnv) -> (r: MmTransportDefaults)
        ensures
            r == self.in_force(*env),
    {
        match self.seeded {
            Some(d) => d,
            None => resolve_defaults(None, None, env),
        }
    }
}

/// The worker whose settings apply: the one that runs the vision encoder.
pub open spec fn primary(workers: Option<&WorkerSelection>) -> Option<WorkerInfo> {
    match workers {
        None => None,
        Some(w) => Some(primary_of(*w)),
    }
}

/// The worker that runs the vision encoder: the first encode worker, where
/// there is one; else the only one, or the prefill one.
pub open spec fn primary_of(workers: WorkerSelection) -> WorkerInfo {
    match workers {
        WorkerSelection::Single { worker } => worker,
        WorkerSelection::Disaggregated { encode_assignments, prefill, .. } => {
            match encode_assignments {
                Some(v) => if v@.len() > 0 {
                    v@[0].worker
                } else {
                    prefill
                },
                None => prefill,
            }
        },
    }
}

pub fn primary_worker<'a>(workers: Option<&'a WorkerSelection>) -> (r: Option<&'a WorkerInfo>)
    ensures
        match r {
            Some(w) => primary(workers) == Some(*w),
            None => primary(workers) is None,
        },
{
    match workers {
        None => None,
        Some(WorkerSelection::Single { worker }) => Some(worker),
        Some(WorkerSelection::Disaggregated { encode_assignments, prefill, .. }) => {
            match encode_assignments {
                Some(v) => if v.len() > 0 {
                    Some(&v[0].worker)
                } else {
                    Some(prefill)
                },
                None => Some(prefill),
            }
        },
    }
}

/// The value of a worker's label.
pub open spec fn label(worker: WorkerInfo, name: Seq<char>) -> Option<Seq<char>> {
    match entry_of(worker.labels@, name) {
        Some(i) => Some(worker.labels@[i].1@),
        None => None,
    }
}

/// The worker says that it shares the shared memory `local` stands for.
pub open spec fn matches_namespace(worker: WorkerInfo, local: Seq<char>) -> bool {
    label(worker, "shm_namespace_id"@) == Some(local) && local.len() > 0
}

fn worker_matches_shm_namespace(worker: &WorkerInfo, local: &str) -> (r: bool)
    ensures
        r == matches_namespace(*worker, local@),
{
    match find_entry(&worker.labels, "shm_namespace_id") {
        Some(i) => {
            let id = worker.labels[i].1.as_str();
            proof {
                reveal_strlit("");
                assert(id@.len() == 0 ==> id@ =~= ""@);
            }
            !same(id, "") && same(id, local)
        },
        None => false,
    }
}

/// Every worker in `assignments` shares the shared memory of `local`.
pub open spec fn all_match(assignments: Seq<EncodeAssignment>, local: Seq<char>) -> bool {
    forall|i: int|
        0 <= i < assignments.len() ==> matches_namespace(
            (#[trigger] assignments[i]).worker,
            local,
        )
}

/// The workers that would have to read a segment are all known to share the
/// gateway's shared memory.
pub open spec fn shares(
    workers: Option<&WorkerSelection>,
    skip_pixel_values: bool,
    local: Option<Seq<char>>,
) -> bool {
    match (local, workers) {
        (Some(local), Some(w)) => readers_share(*w, skip_pixel_values, local),
        _ => false,
    }
}

/// A text that may be missing.
pub open spec fn text_of(s: Option<&str>) -> Option<Seq<char>> {
    match s {
        Some(s) => Some(s@),
        None => None,
    }
}

fn every_worker_matches(assignments: &Vec<EncodeAssignment>, local: &str) -> (r: bool)
    ensures
        r == all_match(assignments@, local@),
{
    let mut i: usize = 0;
    while i < assignments.len()
        invariant
            i <= assignments@.len(),
            forall|j: int|
                0 <= j < i ==> matches_namespace((#[trigger] assignments@[j]).worker, local@),
        decreases assignments@.len() - i,
    {
        if !worker_matches_shm_namespace(&assignments[i].worker, local) {
            assert(!matches_namespace(assignments@[i as int].worker, local@));
            return false;
        }
        i += 1;
    }
    true
}

/// The pixels go to the encode workers, where there are any and the pixels are
/// sent at all; what else there is goes to prefill and decode.
pub open spec fn readers_share(
    workers: WorkerSelection,
    skip_pixel_values: bool,
    local: Seq<char>,
) -> bool {
    match workers {
        WorkerSelection::Single { worker } => matches_namespace(worker, local),
        WorkerSelection::Disaggregated { encode_assignments, prefill, decode, .. } => {
            if !skip_pixel_values && encode_assignments is Some {
                all_match(encode_assignments->0@, local)
            } else {
                matches_namespace(prefill, local) && matches_namespace(decode, local)
            }
        },
    }
}

/// Whether the workers that would have to read a segment are all known to share
/// the gateway's shared memory.
///
/// Each worker announces the identity of its `/dev/shm`; `local` is the
/// gateway's own, if it could be found out. A mixed fan-out does not share.
pub fn worker_shares_dev_shm(
    workers: Option<&WorkerSelection>,
    skip_pixel_values: bool,
    local: Option<&str>,
) -> (r: bool)
    ensures
        r == shares(workers, skip_pixel_values, text_of(local)),
{
    let local: &str = match local {
        Some(l) => l,
        None => {
            return false;
        },
    };
    match workers {
        Some(WorkerSelection::Single { worker }) => worker_matches_shm_namespace(worker, local),
        Some(WorkerSelection::Disaggregated { encode_assignments, prefill, decode, .. }) => {
            if !skip_pixel_values {
                if let Some(v) = encode_assignments {
                    return every_worker_matches(v, local);
                }
            }
            worker_matches_shm_namespace(prefill, local) && worker_matches_shm_namespace(
                decode,
                local,
            )
        },
        None => false,
    }
}

/// The mode for a request.
pub open spec fn mode_for(
    workers: Option<&WorkerSelection>,
    defaults: MmTransportDefaults,
) -> TransportMode {
    match primary(workers) {
        Some(WorkerInfo { multimodal_tensor_transport: Some(m), .. }) => m,
        _ => defaults.mode,
    }
}

/// The threshold for a request.
pub open spec fn min_bytes_for(
    workers: Option<&WorkerSelection>,
    defaults: MmTransportDefaults,
) -> usize {
    match primary(workers) {
        Some(WorkerInfo { multimodal_shm_min_bytes: Some(n), .. }) => n,
        _ => defaults.shm_min_bytes,
    }
}

/// Large tensors of a request may use shared memory.
pub open spec fn shm_enabled_for(
    workers: Option<&WorkerSelection>,
    skip_pixel_values: bool,
    defaults: MmTransportDefaults,
    dev_writable: bool,
    local: Option<Seq<char>>,
) -> bool {
    match mode_for(workers, defaults) {
        TransportMode::Shm => dev_writable,
        TransportMode::Auto => shares(workers, skip_pixel_values, local) && dev_writable,
        TransportMode::Inline | TransportMode::Rdma => false,
    }
}

/// Whether large tensors of a request may use shared memory. `shm` takes the
/// operator's word that the workers share it; `auto` verifies.
pub fn resolve_mm_shm_enabled(
    workers: Option<&WorkerSelection>,
    skip_pixel_values: bool,
    defaults: &MmTransportDefaults,
    dev_writable: bool,
    local: Option<&str>,
) -> (r: bool)
    ensures
        r == shm_enabled_for(workers, skip_pixel_values, *defaults, dev_writable, text_of(local)),
{
    let mode: TransportMode = match primary_worker(workers) {
        Some(w) => match w.multimodal_tensor_transport {
            Some(m) => m,
            None => defaults.mode,
        },
        None => defaults.mode,
    };
    match mode {
        TransportMode::Shm => dev_writable,
        TransportMode::Auto => worker_shares_dev_shm(workers, skip_pixel_values, local)
            && dev_writable,
        // Large tensors go through the pixel lane there.
        TransportMode::Inline | TransportMode::Rdma => false,
    }
}

/// The size from which tensors of a request use shared memory.
pub fn resolve_mm_shm_min_bytes(
    workers: Option<&WorkerSelection>,
    defaults: &MmTransportDefaults,
) -> (r: usize)
    ensures
        r == min_bytes_for(workers, *defaults),
{
    match primary_worker(workers) {
        Some(w) => match w.multimodal_shm_min_bytes {
            Some(n) => n,
            None => defaults.shm_min_bytes,
        },
        None => defaults.shm_min_bytes,
    }
}

/// Whether the router-level mode selects the RDMA pixel lane.
pub fn mm_default_transport_is_rdma(defaults: &MmTransportDefaults) -> (r: bool)
    ensures
        r == (defaults.mode == TransportMode::Rdma),
{
    matches!(defaults.mode, TransportMode::Rdma)
}

/// The environment variables that fix the number format of encoder inputs.
pub struct EncoderDtypeEnv {
    pub image: Option<String>,
    pub video: Option<String>,
    pub audio: Option<String>,
    pub any: Option<String>,
}

/// A text, unless it is empty.
pub open spec fn unless_empty(value: Option<String>) -> Option<Seq<char>> {
    match value {
        Some(s) => if s@.len() > 0 {
            Some(s@)
        } else {
            None
        },
        None => None,
    }
}

fn nonempty(value: &Option<String>) -> (r: Option<String>)
    ensures
        match r {
            Some(s) => unless_empty(*value) == Some(s@),
            None => unless_empty(*value) is None,
        },
{
    match value {
        Some(s) => {
            proof {
                reveal_strlit("");
                assert(s@.len() == 0 ==> s@ =~= ""@);
            }
            if same(s.as_str(), "") {
                None
            } else {
                Some(s.clone())
            }
        },
        None => None,
    }
}

impl EncoderDtypeEnv {
    /// The variable for a modality.
    pub open spec fn specific(&self, modality: Modality) -> Option<String> {
        match modality {
            Modality::Image | Modality::ImageEmbeds => self.image,
            Modality::Video => self.video,
            Modality::Audio => self.audio,
        }
    }

    /// The format that the environment asks for.
    pub open spec fn dtype(&self, modality: Modality) -> Option<Seq<char>> {
        match unless_empty(self.specific(modality)) {
            Some(d) => Some(d),
            None => unless_empty(self.any),
        }
    }
}

/// The format that a worker asks for.
pub open spec fn worker_dtype(workers: Option<&WorkerSelection>) -> Option<Seq<char>> {
    match primary(workers) {
        Some(w) => match label(w, "multimodal_encoder_dtype"@) {
            Some(d) => if d.len() > 0 {
                Some(d)
            } else {
                None
            },
            None => None,
        },
        None => None,
    }
}

/// The number format of a request's encoder inputs.
pub open spec fn encoder_dtype(
    modality: Modality,
    workers: Option<&WorkerSelection>,
    env: EncoderDtypeEnv,
) -> Seq<char> {
    match env.dtype(modality) {
        Some(d) => d,
        None => match worker_dtype(workers) {
            Some(d) => d,
            None => "bfloat16"@,
        },
    }
}

fn mm_encoder_input_dtype_from_env(modality: Modality, env: &EncoderDtypeEnv) -> (r: Option<
    String,
>)
    ensures
        match r {
            Some(d) => env.dtype(modality) == Some(d@),
            None => env.dtype(modality) is None,
        },
{
    let specific: Option<String> = match modality {
        Modality::Image | Modality::ImageEmbeds => nonempty(&env.image),
        Modality::Video => nonempty(&env.video),
        Modality::Audio => nonempty(&env.audio),
    };
    match specific {
        Some(d) => Some(d),
        None => nonempty(&env.any),
    }
}

fn mm_encoder_input_dtype_from_worker(workers: Option<&WorkerSelection>) -> (r: Option<String>)
    ensures
        match r {
            Some(d) => worker_dtype(workers) == Some(d@),
            None => worker_dtype(workers) is None,
        },
{
    match primary_worker(workers) {
        Some(w) => match find_entry(&w.labels, "multimodal_encoder_dtype") {
            Some(i) => {
                let d = w.labels[i].1.as_str();
                proof {
                    reveal_strlit("");
                    assert(d@.len() == 0 ==> d@ =~= ""@);
                }
                if same(d, "") {
                    None
                } else {
                    Some(d.to_owned())
                }
            },
            None => None,
        },
        None => None,
    }
}

/// The number format of a request's encoder inputs: what the environment says,
/// else what the worker says, else half the size of single precision.
pub fn mm_encoder_input_dtype(
    modality: Modality,
    workers: Option<&WorkerSelection>,
    env: &EncoderDtypeEnv,
) -> (r: String)
    ensures
        r@ == encoder_dtype(modality, workers, *env),
{
    if let Some(d) = mm_encoder_input_dtype_from_env(modality, env) {
        return d;
    }
    if let Some(d) = mm_encoder_input_dtype_from_worker(workers) {
        return d;
    }
    "bfloat16".to_owned()
}

/// What is known of this machine, beside the workers.
pub struct TransportSetting {
    pub defaults: MmTransportDefaults,
    pub dtypes: EncoderDtypeEnv,
    /// May segments be created here?
    pub dev_writable: bool,
    /// The identity of this process's `/dev/shm`.
    pub namespace: Option<String>,
}

/// The identity of this process's `/dev/shm`, as a text.
pub open spec fn namespace_of(setting: TransportSetting) -> Option<Seq<char>> {
    match setting.namespace {
        Some(s) => Some(s@),
        None => None,
    }
}

/// Shared memory is enabled for a request, on this machine.
pub open spec fn shm_enabled_here(
    workers: Option<&WorkerSelection>,
    skip_pixel_values: bool,
    setting: TransportSetting,
) -> bool {
    shm_enabled_for(
        workers,
        skip_pixel_values,
        setting.defaults,
        setting.dev_writable,
        namespace_of(setting),
    )
}

impl TransportSetting {
    pub fn shm_enabled(
        &self,
        workers: Option<&WorkerSelection>,
        skip_pixel_values: bool,
    ) -> (r: bool)
        ensures
            r == shm_enabled_here(workers, skip_pixel_values, *self),
    {
        let local: Option<&str> = match &self.namespace {
            Some(s) => Some(s.as_str()),
            None => None,
        };
        resolve_mm_shm_enabled(
            workers,
            skip_pixel_values,
            &self.defaults,
            self.dev_writable,
            local,
        )
    }
}

/// What is decided for all items of a request.
pub open spec fn options_for(
    options: TokenSpeedAssemblyOptions,
    modality: Modality,
    workers: Option<&WorkerSelection>,
    skip_pixel_values: bool,
    setting: TransportSetting,
) -> bool {
    &&& options.shm_enabled == shm_enabled_here(workers, skip_pixel_values, setting)
    &&& options.shm_min_bytes == min_bytes_for(workers, setting.defaults)
    &&& options.encoder_input_dtype@ == encoder_dtype(modality, workers, setting.dtypes)
    &&& options.skip_pixel_values == skip_pixel_values
}

pub fn tokenspeed_assembly_options(
    modality: Modality,
    workers: Option<&WorkerSelection>,
    skip_pixel_values: bool,
    setting: &TransportSetting,
) -> (r: TokenSpeedAssemblyOptions)
    ensures
        options_for(r, modality, workers, skip_pixel_values, *setting),
{
    TokenSpeedAssemblyOptions {
        shm_enabled: setting.shm_enabled(workers, skip_pixel_values),
        shm_min_bytes: resolve_mm_shm_min_bytes(workers, &setting.defaults),
        encoder_input_dtype: mm_encoder_input_dtype(modality, workers, &setting.dtypes),
        skip_pixel_values,
    }
}

/// The identity of a `/dev/shm`: the host's boot, and the device of the file
/// system behind it.
pub fn shm_namespace_id(boot_id: &str, shm_dev: u64) -> (r: String)
    ensures
        r@ == trimmed(boot_id@) + ":"@ + decimal_text(shm_dev as nat),
{
    let mut id = trim(boot_id);
    id.append(":");
    id.append(decimal(shm_dev as u128).as_str());
    id
}

/// Whether a variable turns verbose timing logs on.
pub fn log_mm_timing_enabled(value: Option<&str>) -> (r: bool)
    ensures
        r == match value {
            Some(s) => lowered(s@) == "1"@ || lowered(s@) == "true"@ || lowered(s@) == "yes"@,
            None => false,
        },
{
    match value {
        Some(s) => {
            let s = to_ascii_lowercase(s);
            same(s.as_str(), "1") || same(s.as_str(), "true") || same(s.as_str(), "yes")
        },
        None => false,
    }
}

/// Where the operator has not vouched for it, no worker is handed a segment
/// that it is not known to share.
pub proof fn auto_never_strands_a_worker(
    workers: WorkerSelection,
    setting: TransportSetting,
)
    requires
        mode_for(Some(&workers), setting.defaults) == TransportMode::Auto,
        shm_enabled_here(Some(&workers), false, setting),
    ensures
        setting.namespace is Some,
        match workers {
            WorkerSelection::Single { worker } => label(worker, "shm_namespace_id"@) == Some(
                setting.namespace->0@,
            ),
            WorkerSelection::Disaggregated { encode_assignments: Some(v), .. } => {
                forall|i: int|
                    0 <= i < v@.len() ==> label(
                        (#[trigger] v@[i]).worker,
                        "shm_namespace_id"@,
                    ) == Some(setting.namespace->0@)
            },
            WorkerSelection::Disaggregated { prefill, decode, .. } => {
                label(prefill, "shm_namespace_id"@) == Some(setting.namespace->0@) && label(
                    decode,
                    "shm_namespace_id"@,
                ) == Some(setting.namespace->0@)
            },
        },
{
}

/// The settings of the worker that runs the vision encoder win over the router's:
/// the first encode worker's, where there are encode workers; else the only
/// worker's, or the prefill worker's.
pub proof fn the_encoders_settings_win(
    workers: WorkerSelection,
    encoder: WorkerInfo,
    defaults: MmTransportDefaults,
)
    requires
        match workers {
            WorkerSelection::Single { worker } => encoder == worker,
            WorkerSelection::Disaggregated { encode_assignments, prefill, .. } => {
                if encode_assignments is Some && encode_assignments->0@.len() > 0 {
                    encoder == encode_assignments->0@[0].worker
                } else {
                    encoder == prefill
                }
            },
        },
    ensures
        encoder.multimodal_tensor_transport matches Some(m) ==> mode_for(Some(&workers), defaults)
            == m,
        encoder.multimodal_tensor_transport is None ==> mode_for(Some(&workers), defaults)
            == defaults.mode,
        encoder.multimodal_shm_min_bytes matches Some(n) ==> min_bytes_for(
            Some(&workers),
            defaults,
        ) == n,
        encoder.multimodal_shm_min_bytes is None ==> min_bytes_for(Some(&workers), defaults)
            == defaults.shm_min_bytes,
        mode_for(None, defaults) == defaults.mode,
        min_bytes_for(None, defaults) == defaults.shm_min_bytes,
{
}

/// The configuration wins over the environment, a variable over its older name, and
/// where nothing is said tensors stay inline below sixty-four kilobytes.
pub proof fn the_configuration_wins(
    mode: Option<TransportMode>,
    shm_min_bytes: Option<usize>,
    env: MmTransportEnv,
)
    ensures
        ({
            let d = resolved_defaults(mode, shm_min_bytes, env);
            &&& mode matches Some(m) ==> d.mode == m
            &&& shm_min_bytes matches Some(n) ==> d.shm_min_bytes == n
            &&& mode is None && env.tensor_transport is None && env.tensor_transport_alias is None
                ==> d.mode == TransportMode::Inline
            &&& shm_min_bytes is None && env.shm_min_bytes is None && env.shm_min_bytes_alias
                is None ==> d.shm_min_bytes == 65536
            &&& mode is None && env.tensor_transport is Some && trimmed(
                env.tensor_transport->0@,
            ).len() > 0 && transport_named(trimmed(env.tensor_transport->0@)) is Some ==> d.mode
                == transport_named(trimmed(env.tensor_transport->0@))->0
            &&& mode is None && env.tensor_transport is None && env.tensor_transport_alias is Some
                && trimmed(env.tensor_transport_alias->0@).len() > 0 && transport_named(
                trimmed(env.tensor_transport_alias->0@),
            ) is Some ==> d.mode == transport_named(trimmed(env.tensor_transport_alias->0@))->0
            &&& shm_min_bytes is None && env.shm_min_bytes is Some && trimmed(
                env.shm_min_bytes->0@,
            ).len() > 0 && unsigned_value(trimmed(env.shm_min_bytes->0@), usize::MAX as nat)
                is Some ==> d.shm_min_bytes == unsigned_value(
                trimmed(env.shm_min_bytes->0@),
                usize::MAX as nat,
            )->0
            &&& shm_min_bytes is None && env.shm_min_bytes is None && env.shm_min_bytes_alias
                is Some && trimmed(env.shm_min_bytes_alias->0@).len() > 0 && unsigned_value(
                trimmed(env.shm_min_bytes_alias->0@),
                usize::MAX as nat,
            ) is Some ==> d.shm_min_bytes == unsigned_value(
                trimmed(env.shm_min_bytes_alias->0@),
                usize::MAX as nat,
            )->0
        }),
{
}

/// Segments are used only where they can be written and the mode is for them; where
/// the operator vouches for the workers, that is enough; and `auto` uses them exactly
/// where every worker that reads them announces the same memory.
pub proof fn segments_are_used_where_shared(
    workers: WorkerSelection,
    skip_pixel_values: bool,
    setting: TransportSetting,
)
    ensures
        ({
            let mode = mode_for(Some(&workers), setting.defaults);
            let used = shm_enabled_here(Some(&workers), skip_pixel_values, setting);
            let announces = |w: WorkerInfo|
                setting.namespace is Some && setting.namespace->0@.len() > 0 && label(
                    w,
                    "shm_namespace_id"@,
                ) == Some(setting.namespace->0@);
            &&& used ==> setting.dev_writable
            &&& mode == TransportMode::Inline || mode == TransportMode::Rdma ==> !used
            &&& mode == TransportMode::Shm ==> used == setting.dev_writable
            &&& mode == TransportMode::Auto ==> match workers {
                WorkerSelection::Single { worker } => used == (setting.dev_writable && announces(
                    worker,
                )),
                WorkerSelection::Disaggregated { encode_assignments, prefill, decode, .. } => {
                    if !skip_pixel_values && encode_assignments is Some
                        && encode_assignments->0@.len() > 0 {
                        used == (setting.dev_writable && forall|i: int|
                            0 <= i < encode_assignments->0@.len() ==> announces(
                                (#[trigger] encode_assignments->0@[i]).worker,
                            ))
                    } else if skip_pixel_values || encode_assignments is None {
                        used == (setting.dev_writable && announces(prefill) && announces(decode))
                    } else {
                        true
                    }
                },
            }
        }),
{
    let mode = mode_for(Some(&workers), setting.defaults);
    if mode == TransportMode::Auto {
        if let WorkerSelection::Disaggregated { encode_assignments: Some(v), .. } = workers {
            if !skip_pixel_values && v@.len() > 0 {
                if setting.namespace is None {
                    assert(!shm_enabled_here(Some(&workers), skip_pixel_values, setting));
                    let w = v@[0].worker;
                } else {
                    let local = setting.namespace->0@;
                    if all_match(v@, local) {
                        assert forall|i: int| 0 <= i < v@.len() implies label(
                            (#[trigger] v@[i]).worker,
                            "shm_namespace_id"@,
                        ) == Some(local) && local.len() > 0 by {
                            assert(matches_namespace(v@[i].worker, local));
                        }
                    }
                }
            }
        }
    }
}

/// The number format is what the environment says of the modality, else of all, else
/// what the worker that runs the vision encoder announces, else bfloat16.
pub proof fn formats_are_asked_for(
    modality: Modality,
    workers: WorkerSelection,
    encoder: WorkerInfo,
    env: EncoderDtypeEnv,
)
    requires
        match workers {
            WorkerSelection::Single { worker } => encoder == worker,
            WorkerSelection::Disaggregated { encode_assignments, prefill, .. } => {
                if encode_assignments is Some && encode_assignments->0@.len() > 0 {
                    encoder == encode_assignments->0@[0].worker
                } else {
                    encoder == prefill
                }
            },
        },
    ensures
        ({
            let own = match modality {
                Modality::Image | Modality::ImageEmbeds => env.image,
                Modality::Video => env.video,
                Modality::Audio => env.audio,
            };
            let d = encoder_dtype(modality, Some(&workers), env);
            let own_set = own is Some && own->0@.len() > 0;
            let any_set = env.any is Some && env.any->0@.len() > 0;
            let announced = label(encoder, "multimodal_encoder_dtype"@);
            &&& own_set ==> d == own->0@
            &&& !own_set && any_set ==> d == env.any->0@
            &&& !own_set && !any_set && announced is Some && announced->0.len() > 0 ==> d
                == announced->0
            &&& !own_set && !any_set && (announced is None || announced->0.len() == 0) ==> d
                == "bfloat16"@
        }),
{
}

/// A label is the value of the first label of that name.
pub proof fn labels_are_found_by_name(worker: WorkerInfo, name: Seq<char>, i: int)
    requires
        0 <= i < worker.labels@.len(),
        worker.labels@[i].0@ == name,
        forall|j: int| 0 <= j < i ==> (#[trigger] worker.labels@[j]).0@ != name,
    ensures
        label(worker, name) == Some(worker.labels@[i].1@),
{
    first_entry_is_found(worker.labels@, name);
}

/// Each mode has a name of its own, in any case.
pub proof fn modes_are_found_by_name(name: Seq<char>)
    ensures
        lowered(name) == "inline"@ ==> transport_named(name) == Some(TransportMode::Inline),
        lowered(name) == "shm"@ ==> transport_named(name) == Some(TransportMode::Shm),
        lowered(name) == "auto"@ ==> transport_named(name) == Some(TransportMode::Auto),
        lowered(name) == "rdma"@ ==> transport_named(name) == Some(TransportMode::Rdma),
        transport_named(name) is Some ==> lowered(name) == "inline"@ || lowered(name) == "shm"@
            || lowered(name) == "auto"@ || lowered(name) == "rdma"@,
{
    reveal_strlit("inline");
    reveal_strlit("shm");
    reveal_strlit("auto");
    reveal_strlit("rdma");
    assert("auto"@[0] == 'a' && "rdma"@[0] == 'r');
    assert("auto"@ != "rdma"@);
    assert("inline"@.len() == 6 && "shm"@.len() == 3 && "auto"@.len() == 4);
    assert("shm"@ != "inline"@ && "auto"@ != "shm"@ && "auto"@ != "inline"@);
}

/// What is decided for a request follows from its workers and this machine alone, and
/// pixels are left out exactly where that is asked for.
pub proof fn options_are_decided_once(
    a: TokenSpeedAssemblyOptions,
    b: TokenSpeedAssemblyOptions,
    modality: Modality,
    workers: Option<&WorkerSelection>,
    skip_pixel_values: bool,
    setting: TransportSetting,
)
    requires
        options_for(a, modality, workers, skip_pixel_values, setting),
        options_for(b, modality, workers, skip_pixel_values, setting),
    ensures
        a.skip_pixel_values == skip_pixel_values,
        a.shm_enabled == b.shm_enabled,
        a.shm_min_bytes == b.shm_min_bytes,
        a.encoder_input_dtype@ == b.encoder_input_dtype@,
        a.shm_enabled ==> setting.dev_writable,
        workers is None ==> a.shm_min_bytes == setting.defaults.shm_min_bytes,
{
}

/// A variable that is blank counts as not set: its older name counts then, and where
/// that is blank too, the default.
pub proof fn blank_variables_count_for_nothing(blank: String, other: Option<String>)
    requires
        trimmed(blank@).len() == 0,
    ensures
        env_value(Some(blank)) is None,
        env_value(None) is None,
        aliased_value(Some(blank), other) == aliased_value(None, other),
        aliased_value(other, Some(blank)) == aliased_value(other, None),
        other matches Some(s) ==> (trimmed(s@).len() > 0 ==> aliased_value(Some(blank), other)
            == Some(trimmed(s@)) && aliased_value(other, Some(blank)) == Some(trimmed(s@))),
{
}

} // verus!
