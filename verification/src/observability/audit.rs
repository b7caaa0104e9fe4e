//! Audit log: which requests are audited, what is recorded of each, and when
//! records are sent on in batches.
//!
//! Sample rates and draws are carried as the bits of a single-precision
//! number: between zero and one those bits order as the numbers do.

use crate::outside::{base64_encode, base64_text, is_uuid_text, utf8_text, uuid_v4_text};
use crate::text::{
    lowered, parse_unsigned, prefixes_are_taken, same, stripped, to_ascii_lowercase,
    trim_start_matches, unsigned_value,
};
use vstd::prelude::*;
use vstd::utf8::{decode_utf8, valid_utf8};

verus! {

/// The bits of one.
pub const ONE_BITS: u32 = 0x3f80_0000;

/// The bits of one tenth, the default sample rate.
pub const DEFAULT_SAMPLE_RATE: u32 = 0x3dcc_cccd;

/// The bits of infinity; above them only those of what is no number.
pub const INFINITY_BITS: u32 = 0x7f80_0000;

/// The bits of minus zero; from here on the sign is set.
pub const SIGN_BITS: u32 = 0x8000_0000;

/// `bits` are those of what is no number.
pub open spec fn is_nan(bits: u32) -> bool {
    INFINITY_BITS < bits < SIGN_BITS || bits > SIGN_BITS + INFINITY_BITS
}

/// `bits` clamped between zero and one. Minus zero is zero and what is no
/// number cannot be clamped: both stay.
pub open spec fn clamped(bits: u32) -> u32 {
    if is_nan(bits) || bits == SIGN_BITS {
        bits
    } else if bits > SIGN_BITS {
        0
    } else if bits > ONE_BITS {
        ONE_BITS
    } else {
        bits
    }
}

/// A draw from zero to below one is not below `rate`.
pub open spec fn not_below(draw: u32, rate: u32) -> bool {
    !is_nan(rate) && (rate >= SIGN_BITS || draw >= rate)
}

/// Configuration of the audit log.
pub struct AuditConfig {
    /// Remote endpoint.
    pub endpoint: String,
    /// Max in-flight queue depth. Above this, new logs are dropped.
    pub queue_capacity: usize,
    /// Flush when this many logs accumulated.
    pub batch_size: usize,
    /// Flush at least this often even if the batch is not full.
    pub flush_interval_ms: u64,
    /// Timeout of a POST to the endpoint.
    pub request_timeout_ms: u64,
    /// Share of the requests that are audited.
    pub sample_rate: u32,
}

pub const DEFAULT_ENDPOINT: &'static str =
    "http://audit-service.kubesphere-controls-system.svc.cluster.local:12346/audit/log/v2";

pub const DEFAULT_QUEUE_CAPACITY: usize = 10_000;

pub const DEFAULT_BATCH_SIZE: usize = 64;

pub const DEFAULT_FLUSH_MS: u64 = 1_000;

pub const DEFAULT_TIMEOUT_MS: u64 = 3_000;

/// The values that the environment sets, as they stand there; the sample rate
/// where it is a number.
pub struct AuditEnv<'a> {
    pub endpoint: Option<&'a str>,
    pub sample_rate: Option<u32>,
    pub queue_capacity: Option<&'a str>,
    pub batch_size: Option<&'a str>,
    pub flush_ms: Option<&'a str>,
    pub timeout_ms: Option<&'a str>,
}

/// The number in `raw`, raised to `least`; `default` where there is none.
pub open spec fn number_setting(
    raw: Option<&str>,
    max: nat,
    least: nat,
    default: nat,
) -> nat {
    match raw {
        Some(s) => match unsigned_value(s@, max) {
            Some(v) => if v < least {
                least
            } else {
                v
            },
            None => default,
        },
        None => default,
    }
}

fn number_or(raw: Option<&str>, max: u64, least: u64, default: u64) -> (r: u64)
    requires
        least <= max,
        default <= max,
    ensures
        r == number_setting(raw, max as nat, least as nat, default as nat),
        r <= max,
{
    match raw {
        Some(s) => match parse_unsigned(s, max) {
            Some(v) => if v < least {
                least
            } else {
                v
            },
            None => default,
        },
        None => default,
    }
}

impl Default for AuditConfig {
    fn default() -> (r: Self)
        ensures
            r.endpoint@ == DEFAULT_ENDPOINT@,
            r.queue_capacity == 10_000,
            r.batch_size == 64,
            r.flush_interval_ms == 1_000,
            r.request_timeout_ms == 3_000,
            r.sample_rate == DEFAULT_SAMPLE_RATE,
    {
        AuditConfig {
            endpoint: DEFAULT_ENDPOINT.to_owned(),
            queue_capacity: DEFAULT_QUEUE_CAPACITY,
            batch_size: DEFAULT_BATCH_SIZE,
            flush_interval_ms: DEFAULT_FLUSH_MS,
            request_timeout_ms: DEFAULT_TIMEOUT_MS,
            sample_rate: DEFAULT_SAMPLE_RATE,
        }
    }
}

impl AuditConfig {
    /// Construct from environment values, falling back to the defaults for any
    /// that is not set. The feature is disabled only when the endpoint is
    /// explicitly set to `disabled`, in any case.
    pub fn from_env(env: &AuditEnv) -> (r: Option<Self>)
        ensures
            r is None <==> env.endpoint is Some && lowered(env.endpoint->0@) == "disabled"@,
            r matches Some(cfg) ==> {
                &&& cfg.endpoint@ == if env.endpoint is Some {
                    env.endpoint->0@
                } else {
                    DEFAULT_ENDPOINT@
                }
                &&& cfg.sample_rate == if env.sample_rate is Some {
                    clamped(env.sample_rate->0)
                } else {
                    DEFAULT_SAMPLE_RATE
                }
                &&& cfg.queue_capacity == number_setting(
                    env.queue_capacity,
                    usize::MAX as nat,
                    1,
                    10_000,
                )
                &&& cfg.batch_size == number_setting(env.batch_size, usize::MAX as nat, 1, 64)
                &&& cfg.flush_interval_ms == number_setting(
                    env.flush_ms,
                    u64::MAX as nat,
                    50,
                    1_000,
                )
                &&& cfg.request_timeout_ms == number_setting(
                    env.timeout_ms,
                    u64::MAX as nat,
                    100,
                    3_000,
                )
            },
    {
        let mut cfg = AuditConfig::default();
        if let Some(endpoint) = env.endpoint {
            if same(to_ascii_lowercase(endpoint).as_str(), "disabled") {
                return None;
            }
            cfg.endpoint = endpoint.to_owned();
        }
        if let Some(rate) = env.sample_rate {
            cfg.sample_rate = clamp_unit(rate);
        }
        cfg.queue_capacity = number_or(
            env.queue_capacity,
            usize::MAX as u64,
            1,
            DEFAULT_QUEUE_CAPACITY as u64,
        ) as usize;
        cfg.batch_size = number_or(
            env.batch_size,
            usize::MAX as u64,
            1,
            DEFAULT_BATCH_SIZE as u64,
        ) as usize;
        cfg.flush_interval_ms = number_or(env.flush_ms, u64::MAX, 50, DEFAULT_FLUSH_MS);
        cfg.request_timeout_ms = number_or(env.timeout_ms, u64::MAX, 100, DEFAULT_TIMEOUT_MS);
        Some(cfg)
    }
}

fn clamp_unit(bits: u32) -> (r: u32)
    ensures
        r == clamped(bits),
{
    let nan = (INFINITY_BITS < bits && bits < SIGN_BITS) || bits > SIGN_BITS + INFINITY_BITS;
    if nan || bits == SIGN_BITS {
        bits
    } else if bits > SIGN_BITS {
        0
    } else if bits > ONE_BITS {
        ONE_BITS
    } else {
        bits
    }
}

/// One audit record.
pub struct AuditLog {
    pub request_id: String,
    pub api_key: String,
    pub user_id: String,
    pub model: String,
    pub endpoint: String,
    pub is_streaming: bool,
    /// Raw request body (typically the original JSON sent by the client).
    pub raw_request: Vec<u8>,
    /// Raw response body.
    pub raw_response: Vec<u8>,
    pub status_code: u16,
    pub request_start_ms: u64,
    pub response_end_ms: u64,
    pub time_to_first_byte_ms: Option<u64>,
    /// Set when the upstream / client terminated the stream prematurely.
    pub error: Option<String>,
}

/// A body as it stands in a record: as text where it is UTF-8, else in
/// base64, so that the record stays valid JSON.
pub fn bytes_as_str(bytes: &Vec<u8>) -> (r: String)
    requires
        bytes@.len() / 3 * 4 + 4 <= usize::MAX,
    ensures
        r@ == if valid_utf8(bytes@) {
            decode_utf8(bytes@)
        } else {
            base64_text(bytes@)
        },
{
    match utf8_text(bytes) {
        Some(s) => s.to_owned(),
        None => base64_encode(bytes),
    }
}

/// `path` is audited.
pub open spec fn audited(path: Seq<char>) -> bool {
    path == "/v1/chat/completions"@
}

/// HTTP paths eligible for auditing: only chat completions.
pub fn is_audited_path(path: &str) -> (r: bool)
    ensures
        r == audited(path@),
{
    same(path, "/v1/chat/completions")
}

/// Public stats snapshot.
#[derive(Debug, Clone, Copy, PartialEq, Eq, Structural)]
pub struct AuditStats {
    pub accepted: u64,
    pub sampled_out: u64,
    pub path_filtered: u64,
    pub dropped_full: u64,
}

impl Default for AuditStats {
    fn default() -> (r: Self)
        ensures
            r == (AuditStats { accepted: 0, sampled_out: 0, path_filtered: 0, dropped_full: 0 }),
    {
        AuditStats { accepted: 0, sampled_out: 0, path_filtered: 0, dropped_full: 0 }
    }
}

/// `n` counted up by one; a full counter starts over.
pub open spec fn counted(n: u64) -> u64 {
    if n == u64::MAX {
        0
    } else {
        (n + 1) as u64
    }
}

/// What became of a record that was put on the queue.
#[derive(Debug, Clone, Copy, PartialEq, Eq, Structural)]
pub enum SendOutcome {
    Accepted,
    Full,
    Closed,
}

/// Decides which requests are audited and counts what becomes of them.
pub struct AuditSink {
    sample_rate: u32,
    stats: AuditStats,
}

/// What is recorded of a request before its response is known: the parts of
/// [`PendingAudit`].
pub struct RequestFacts<'a> {
    pub path: &'a str,
    pub x_request_id: Option<&'a str>,
    pub authorization: Option<&'a str>,
    pub user: Option<&'a str>,
    pub model: &'a str,
    pub stream: bool,
}

/// The text of `s`, empty where there is none.
pub open spec fn text_or_empty(s: Option<&str>) -> Seq<char> {
    match s {
        Some(s) => s@,
        None => Seq::empty(),
    }
}

/// The counters after a request on `path` was considered.
pub open spec fn after_draw(c: AuditStats, path: Seq<char>, draw: u32, rate: u32) -> AuditStats {
    if !audited(path) {
        AuditStats { path_filtered: counted(c.path_filtered), ..c }
    } else if not_below(draw, rate) {
        AuditStats { sampled_out: counted(c.sampled_out), ..c }
    } else {
        c
    }
}

impl AuditSink {
    pub closed spec fn rate(&self) -> u32 {
        self.sample_rate
    }

    pub closed spec fn counters(&self) -> AuditStats {
        self.stats
    }

    pub fn new(cfg: &AuditConfig) -> (r: Self)
        ensures
            r.rate() == cfg.sample_rate,
            r.counters() == (AuditStats {
                accepted: 0,
                sampled_out: 0,
                path_filtered: 0,
                dropped_full: 0,
            }),
    {
        AuditSink { sample_rate: cfg.sample_rate, stats: AuditStats::default() }
    }

    /// Counts what became of a record that was put on the queue. A closed
    /// queue (the process is shutting down) counts nowhere.
    pub fn count_send(&mut self, outcome: SendOutcome)
        ensures
            final(self).rate() == old(self).rate(),
            final(self).counters() == match outcome {
                SendOutcome::Accepted => (AuditStats {
                    accepted: counted(old(self).counters().accepted),
                    ..old(self).counters()
                }),
                SendOutcome::Full => (AuditStats {
                    dropped_full: counted(old(self).counters().dropped_full),
                    ..old(self).counters()
                }),
                SendOutcome::Closed => old(self).counters(),
            },
    {
        match outcome {
            SendOutcome::Accepted => {
                self.stats.accepted = self.stats.accepted.wrapping_add(1);
            },
            SendOutcome::Full => {
                self.stats.dropped_full = self.stats.dropped_full.wrapping_add(1);
            },
            SendOutcome::Closed => {},
        }
    }

    /// Returns `true` when the request should be audited given `draw`, a
    /// number from zero to below one, and path policy. Path filtering is hard
    /// (cannot be sampled in).
    pub fn should_audit(&mut self, path: &str, draw: u32) -> (r: bool)
        ensures
            final(self).rate() == old(self).rate(),
            r == (audited(path@) && !not_below(draw, old(self).rate())),
            final(self).counters() == after_draw(old(self).counters(), path@, draw, old(self).rate()),
    {
        if !is_audited_path(path) {
            self.stats.path_filtered = self.stats.path_filtered.wrapping_add(1);
            return false;
        }
        let rate: u32 = self.sample_rate;
        let nan = (INFINITY_BITS < rate && rate < SIGN_BITS) || rate > SIGN_BITS + INFINITY_BITS;
        if !nan && (rate >= SIGN_BITS || draw >= rate) {
            self.stats.sampled_out = self.stats.sampled_out.wrapping_add(1);
            return false;
        }
        true
    }

    /// Starts the record of a request, unless sampling or path policy says to
    /// skip it.
    fn prepare(
        &mut self,
        facts: &RequestFacts,
        raw_request: Vec<u8>,
        draw: u32,
        now_ms: u64,
    ) -> (r: Option<PendingAudit>)
        ensures
            final(self).rate() == old(self).rate(),
            final(self).counters() == after_draw(
                old(self).counters(),
                facts.path@,
                draw,
                old(self).rate(),
            ),
            r is Some <==> audited(facts.path@) && !not_below(draw, old(self).rate()),
            r matches Some(p) ==> {
                &&& match facts.x_request_id {
                    Some(id) => p.id() == id@,
                    None => is_uuid_text(p.id(), '4'),
                }
                &&& p.facts_are(
                    stripped(text_or_empty(facts.authorization), "Bearer "@),
                    text_or_empty(facts.user),
                    facts.model@,
                    facts.path@,
                    facts.stream,
                    raw_request@,
                    now_ms,
                )
                &&& p.response() == Seq::<u8>::empty()
                &&& p.first_byte() is None
                &&& p.status() == 0
                &&& !p.is_finalized()
            },
    {
        if !self.should_audit(facts.path, draw) {
            return None;
        }
        let request_id = match facts.x_request_id {
            Some(id) => id.to_owned(),
            None => uuid_v4_text(),
        };
        let api_key = match facts.authorization {
            Some(value) => trim_start_matches(value, "Bearer "),
            None => {
                let none = String::new();
                proof {
                    reveal_strlit("Bearer ");
                    assert(stripped(none@, "Bearer "@) == none@);
                }
                none
            },
        };
        let user_id = match facts.user {
            Some(user) => user.to_owned(),
            None => String::new(),
        };
        Some(
            PendingAudit {
                request_id,
                api_key,
                user_id,
                model: facts.model.to_owned(),
                endpoint: facts.path.to_owned(),
                is_streaming: facts.stream,
                raw_request,
                start_ms: now_ms,
                raw_response: Vec::new(),
                ttft_ms: None,
                status_code: 0,
                finalized: false,
            },
        )
    }

    /// Starts the record of a chat completion request, unless sampling or path policy
    /// says to skip it.
    pub fn prepare_chat(
        &mut self,
        path: &str,
        x_request_id: Option<&str>,
        authorization: Option<&str>,
        safety_identifier: Option<&str>,
        model: &str,
        stream: bool,
        raw_request: Vec<u8>,
        draw: u32,
        now_ms: u64,
    ) -> (r: Option<PendingAudit>)
        ensures
            final(self).rate() == old(self).rate(),
            final(self).counters() == after_draw(
                old(self).counters(),
                path@,
                draw,
                old(self).rate(),
            ),
            r is Some <==> audited(path@) && !not_below(draw, old(self).rate()),
            r matches Some(p) ==> {
                &&& match x_request_id {
                    Some(id) => p.id() == id@,
                    None => is_uuid_text(p.id(), '4'),
                }
                &&& p.facts_are(
                    stripped(text_or_empty(authorization), "Bearer "@),
                    text_or_empty(safety_identifier),
                    model@,
                    path@,
                    stream,
                    raw_request@,
                    now_ms,
                )
                &&& p.response() == Seq::<u8>::empty()
                &&& p.first_byte() is None
                &&& p.status() == 0
                &&& !p.is_finalized()
            },
    {
        let facts = RequestFacts {
            path,
            x_request_id,
            authorization,
            user: safety_identifier,
            model,
            stream: stream,
        };
        self.prepare(&facts, raw_request, draw, now_ms)
    }

    /// Starts the record of a rerank request, unless sampling or path policy
    /// says to skip it.
    pub fn prepare_rerank(
        &mut self,
        path: &str,
        x_request_id: Option<&str>,
        authorization: Option<&str>,
        user: Option<&str>,
        model: &str,
        raw_request: Vec<u8>,
        draw: u32,
        now_ms: u64,
    ) -> (r: Option<PendingAudit>)
        ensures
            final(self).rate() == old(self).rate(),
            final(self).counters() == after_draw(
                old(self).counters(),
                path@,
                draw,
                old(self).rate(),
            ),
            r is Some <==> audited(path@) && !not_below(draw, old(self).rate()),
            r matches Some(p) ==> {
                &&& match x_request_id {
                    Some(id) => p.id() == id@,
                    None => is_uuid_text(p.id(), '4'),
                }
                &&& p.facts_are(
                    stripped(text_or_empty(authorization), "Bearer "@),
                    text_or_empty(user),
                    model@,
                    path@,
                    false,
                    raw_request@,
                    now_ms,
                )
                &&& p.response() == Seq::<u8>::empty()
                &&& p.first_byte() is None
                &&& p.status() == 0
                &&& !p.is_finalized()
            },
    {
        let facts = RequestFacts {
            path,
            x_request_id,
            authorization,
            user: user,
            model,
            stream: false,
        };
        self.prepare(&facts, raw_request, draw, now_ms)
    }

    /// Starts the record of an embedding request, unless sampling or path policy
    /// says to skip it.
    pub fn prepare_embeddings(
        &mut self,
        path: &str,
        x_request_id: Option<&str>,
        authorization: Option<&str>,
        user: Option<&str>,
        model: &str,
        raw_request: Vec<u8>,
        draw: u32,
        now_ms: u64,
    ) -> (r: Option<PendingAudit>)
        ensures
            final(self).rate() == old(self).rate(),
            final(self).counters() == after_draw(
                old(self).counters(),
                path@,
                draw,
                old(self).rate(),
            ),
            r is Some <==> audited(path@) && !not_below(draw, old(self).rate()),
            r matches Some(p) ==> {
                &&& match x_request_id {
                    Some(id) => p.id() == id@,
                    None => is_uuid_text(p.id(), '4'),
                }
                &&& p.facts_are(
                    stripped(text_or_empty(authorization), "Bearer "@),
                    text_or_empty(user),
                    model@,
                    path@,
                    false,
                    raw_request@,
                    now_ms,
                )
                &&& p.response() == Seq::<u8>::empty()
                &&& p.first_byte() is None
                &&& p.status() == 0
                &&& !p.is_finalized()
            },
    {
        let facts = RequestFacts {
            path,
            x_request_id,
            authorization,
            user: user,
            model,
            stream: false,
        };
        self.prepare(&facts, raw_request, draw, now_ms)
    }

    /// Snapshot of the counters.
    pub fn stats(&self) -> (r: AuditStats)
        ensures
            r == self.counters(),
    {
        self.stats
    }
}

/// The record of a request whose response is not complete yet.
pub struct PendingAudit {
    request_id: String,
    api_key: String,
    user_id: String,
    model: String,
    endpoint: String,
    is_streaming: bool,
    raw_request: Vec<u8>,
    start_ms: u64,
    /// The response so far.
    raw_response: Vec<u8>,
    /// Time to the first byte, from the start.
    ttft_ms: Option<u64>,
    /// Status of the response, `0` until it is known.
    status_code: u16,
    /// The record was turned in.
    finalized: bool,
}

impl PendingAudit {
    pub closed spec fn id(&self) -> Seq<char> {
        self.request_id@
    }

    pub closed spec fn response(&self) -> Seq<u8> {
        self.raw_response@
    }

    pub closed spec fn first_byte(&self) -> Option<u64> {
        self.ttft_ms
    }

    pub closed spec fn status(&self) -> u16 {
        self.status_code
    }

    /// The record was turned in.
    pub closed spec fn is_finalized(&self) -> bool {
        self.finalized
    }

    pub closed spec fn started(&self) -> u64 {
        self.start_ms
    }

    pub closed spec fn key(&self) -> Seq<char> {
        self.api_key@
    }

    pub closed spec fn user(&self) -> Seq<char> {
        self.user_id@
    }

    pub closed spec fn model_name(&self) -> Seq<char> {
        self.model@
    }

    pub closed spec fn path(&self) -> Seq<char> {
        self.endpoint@
    }

    pub closed spec fn streams(&self) -> bool {
        self.is_streaming
    }

    pub closed spec fn request(&self) -> Seq<u8> {
        self.raw_request@
    }

    /// What was recorded of the request.
    pub open spec fn facts_are(
        &self,
        api_key: Seq<char>,
        user_id: Seq<char>,
        model: Seq<char>,
        endpoint: Seq<char>,
        is_streaming: bool,
        raw_request: Seq<u8>,
        start_ms: u64,
    ) -> bool {
        &&& self.key() == api_key
        &&& self.user() == user_id
        &&& self.model_name() == model
        &&& self.path() == endpoint
        &&& self.streams() == is_streaming
        &&& self.request() == raw_request
        &&& self.started() == start_ms
    }

    /// What was recorded of the request is the same.
    pub open spec fn same_request(&self, other: &Self) -> bool {
        &&& self.id() == other.id()
        &&& self.facts_are(
            other.key(),
            other.user(),
            other.model_name(),
            other.path(),
            other.streams(),
            other.request(),
            other.started(),
        )
    }

    /// `log` says of the request and its response what was recorded.
    pub open spec fn recorded_in(&self, log: AuditLog) -> bool {
        &&& log.request_id@ == self.id()
        &&& log.api_key@ == self.key()
        &&& log.user_id@ == self.user()
        &&& log.model@ == self.model_name()
        &&& log.endpoint@ == self.path()
        &&& log.is_streaming == self.streams()
        &&& log.raw_request@ == self.request()
        &&& log.raw_response@ == self.response()
        &&& log.status_code == self.status()
        &&& log.request_start_ms == self.started()
        &&& log.time_to_first_byte_ms == self.first_byte()
    }

    pub fn request_id(&self) -> (r: &str)
        ensures
            r@ == self.id(),
    {
        self.request_id.as_str()
    }

    /// Set the status of the response.
    pub fn set_status_code(&mut self, code: u16)
        ensures
            final(self).same_request(old(self)),
            final(self).is_finalized() == old(self).is_finalized(),
            final(self).status() == code,
            final(self).response() == old(self).response(),
            final(self).first_byte() == old(self).first_byte(),
    {
        self.status_code = code;
    }

    /// Record the time to the first byte on the very first invocation.
    /// Subsequent calls are no-ops, so it is safe to call this on every chunk.
    pub fn record_first_byte(&mut self, now_ms: u64)
        ensures
            final(self).same_request(old(self)),
            final(self).is_finalized() == old(self).is_finalized(),
            final(self).status() == old(self).status(),
            final(self).response() == old(self).response(),
            final(self).first_byte() == if old(self).first_byte() is Some {
                old(self).first_byte()
            } else if now_ms > old(self).started() {
                Some((now_ms - old(self).started()) as u64)
            } else {
                Some(0)
            },
    {
        if self.ttft_ms.is_none() {
            self.ttft_ms = Some(now_ms.saturating_sub(self.start_ms));
        }
    }

    /// Append a response chunk.
    pub fn append_response_chunk(&mut self, chunk: &Vec<u8>)
        ensures
            final(self).same_request(old(self)),
            final(self).is_finalized() == old(self).is_finalized(),
            final(self).status() == old(self).status(),
            final(self).response() == old(self).response() + chunk@,
            final(self).first_byte() == old(self).first_byte(),
    {
        self.raw_response.extend_from_slice(chunk.as_slice());
        assert(self.raw_response@ =~= old(self).raw_response@ + chunk@);
    }

    /// Overwrite the accumulated response with a complete one.
    pub fn set_raw_response(&mut self, raw: &Vec<u8>)
        ensures
            final(self).same_request(old(self)),
            final(self).is_finalized() == old(self).is_finalized(),
            final(self).status() == old(self).status(),
            final(self).response() == raw@,
            final(self).first_byte() == old(self).first_byte(),
    {
        self.raw_response.clear();
        self.raw_response.extend_from_slice(raw.as_slice());
        assert(self.raw_response@ =~= raw@);
    }

    /// Turns the record in, once.
    pub fn finalize(&mut self, error: Option<String>, now_ms: u64) -> (log: AuditLog)
        requires
            !old(self).is_finalized(),
        ensures
            old(self).recorded_in(log),
            log.response_end_ms == now_ms,
            log.error == error,
            final(self).is_finalized(),
    {
        let log = AuditLog {
            request_id: self.request_id.clone(),
            api_key: self.api_key.clone(),
            user_id: self.user_id.clone(),
            model: self.model.clone(),
            endpoint: self.endpoint.clone(),
            is_streaming: self.is_streaming,
            raw_request: take_bytes(&mut self.raw_request),
            raw_response: take_bytes(&mut self.raw_response),
            status_code: self.status_code,
            request_start_ms: self.start_ms,
            response_end_ms: now_ms,
            time_to_first_byte_ms: self.ttft_ms,
            error,
        };
        self.finalized = true;
        log
    }

    /// The record of a request that was given up before it was finalized:
    /// whatever was accumulated, marked as such. None once it is finalized.
    pub fn abandon(&mut self, now_ms: u64) -> (r: Option<AuditLog>)
        ensures
            r is Some <==> !old(self).is_finalized(),
            final(self).is_finalized(),
            r matches Some(log) ==> {
                &&& old(self).recorded_in(log)
                &&& log.response_end_ms == now_ms
                &&& log.error is Some
                &&& log.error->0@ == "dropped_without_finalize"@
            },
    {
        if self.finalized {
            return None;
        }
        Some(self.finalize(Some("dropped_without_finalize".to_owned()), now_ms))
    }
}

fn take_bytes(v: &mut Vec<u8>) -> (r: Vec<u8>)
    ensures
        r@ == old(v)@,
        final(v)@ == Seq::<u8>::empty(),
{
    let mut r: Vec<u8> = Vec::new();
    std::mem::swap(v, &mut r);
    r
}

/// The record of a response that is passed on chunk by chunk: it is turned in
/// exactly once, when the stream ends, fails or is dropped.
pub struct AuditedBody {
    pending: Option<PendingAudit>,
}

impl AuditedBody {
    pub closed spec fn record(&self) -> Option<PendingAudit> {
        self.pending
    }

    /// A record that was not turned in yet, or none.
    pub open spec fn wf(&self) -> bool {
        self.record() matches Some(p) ==> !p.is_finalized()
    }

    pub fn new(pending: PendingAudit, status_code: u16) -> (r: Self)
        requires
            !pending.is_finalized(),
        ensures
            r.wf(),
            r.record() matches Some(p) && p.same_request(&pending) && p.status() == status_code
                && p.response() == pending.response() && p.first_byte()
                == pending.first_byte(),
    {
        let mut p = pending;
        p.set_status_code(status_code);
        AuditedBody { pending: Some(p) }
    }

    /// A chunk passed.
    pub fn on_chunk(&mut self, chunk: &Vec<u8>, now_ms: u64)
        requires
            old(self).wf(),
        ensures
            final(self).wf(),
            old(self).record() is None ==> final(self).record() is None,
            old(self).record() matches Some(p) ==> {
                &&& final(self).record() is Some
                &&& final(self).record()->0.same_request(&p)
                &&& final(self).record()->0.status() == p.status()
                &&& final(self).record()->0.response() == p.response() + chunk@
                &&& final(self).record()->0.first_byte() == if p.first_byte() is Some {
                    p.first_byte()
                } else if now_ms > p.started() {
                    Some((now_ms - p.started()) as u64)
                } else {
                    Some(0)
                }
            },
    {
        if let Some(p) = &mut self.pending {
            p.record_first_byte(now_ms);
            p.append_response_chunk(chunk);
        }
    }

    /// Turns the record in, if that was not done yet.
    fn finalize(&mut self, error: Option<String>, now_ms: u64) -> (r: Option<AuditLog>)
        requires
            old(self).wf(),
        ensures
            final(self).wf(),
            final(self).record() is None,
            r is Some <==> old(self).record() is Some,
            r matches Some(log) ==> old(self).record()->0.recorded_in(log) && log.error == error
                && log.response_end_ms == now_ms,
    {
        match self.pending.take() {
            Some(p) => {
                let mut p = p;
                Some(p.finalize(error, now_ms))
            },
            None => None,
        }
    }

    /// The stream failed.
    pub fn on_error(&mut self, error: &str, now_ms: u64) -> (r: Option<AuditLog>)
        requires
            old(self).wf(),
        ensures
            final(self).wf(),
            final(self).record() is None,
            r is Some <==> old(self).record() is Some,
            r matches Some(log) ==> {
                &&& old(self).record()->0.recorded_in(log)
                &&& log.error is Some
                &&& log.error->0@ == "stream_error: "@ + error@
                &&& log.response_end_ms == now_ms
            },
    {
        let mut msg = "stream_error: ".to_owned();
        msg.append(error);
        self.finalize(Some(msg), now_ms)
    }

    /// The stream ended.
    pub fn on_end(&mut self, now_ms: u64) -> (r: Option<AuditLog>)
        requires
            old(self).wf(),
        ensures
            final(self).wf(),
            final(self).record() is None,
            r is Some <==> old(self).record() is Some,
            r matches Some(log) ==> {
                &&& old(self).record()->0.recorded_in(log)
                &&& log.error is None
                &&& log.response_end_ms == now_ms
            },
    {
        self.finalize(None, now_ms)
    }

    /// The stream was dropped, typically because the client disconnected.
    pub fn on_drop(&mut self, now_ms: u64) -> (r: Option<AuditLog>)
        requires
            old(self).wf(),
        ensures
            final(self).wf(),
            final(self).record() is None,
            r is Some <==> old(self).record() is Some,
            r matches Some(log) ==> {
                &&& old(self).record()->0.recorded_in(log)
                &&& log.error is Some
                &&& log.error->0@ == "client_disconnected"@
                &&& log.response_end_ms == now_ms
            },
    {
        self.finalize(Some("client_disconnected".to_owned()), now_ms)
    }
}

/// Records that wait for their batch to fill up.
pub struct FlushBuffer {
    buf: Vec<AuditLog>,
    batch_size: usize,
}

impl FlushBuffer {
    pub closed spec fn waiting(&self) -> Seq<AuditLog> {
        self.buf@
    }

    pub closed spec fn size(&self) -> usize {
        self.batch_size
    }

    /// Less than a batch is waiting.
    pub open spec fn wf(&self) -> bool {
        self.size() >= 1 && self.waiting().len() < self.size()
    }

    pub fn new(batch_size: usize) -> (r: Self)
        requires
            batch_size >= 1,
        ensures
            r.wf(),
            r.size() == batch_size,
            r.waiting() == Seq::<AuditLog>::empty(),
    {
        FlushBuffer { buf: Vec::new(), batch_size }
    }

    fn take(&mut self) -> (r: Vec<AuditLog>)
        ensures
            r@ == old(self).waiting(),
            final(self).waiting() == Seq::<AuditLog>::empty(),
            final(self).size() == old(self).size(),
    {
        let mut r: Vec<AuditLog> = Vec::new();
        std::mem::swap(&mut self.buf, &mut r);
        r
    }

    /// A record came: it waits, unless it completes a batch, which then goes.
    pub fn on_log(&mut self, log: AuditLog) -> (r: Option<Vec<AuditLog>>)
        requires
            old(self).wf(),
        ensures
            final(self).wf(),
            final(self).size() == old(self).size(),
            r is Some <==> old(self).waiting().len() + 1 == old(self).size(),
            match r {
                Some(batch) => batch@ == old(self).waiting().push(log) && final(self).waiting()
                    == Seq::<AuditLog>::empty(),
                None => final(self).waiting() == old(self).waiting().push(log),
            },
    {
        self.buf.push(log);
        if self.buf.len() >= self.batch_size {
            Some(self.take())
        } else {
            None
        }
    }

    /// The flush interval passed, or the queue closed: what waits goes.
    pub fn on_tick(&mut self) -> (r: Option<Vec<AuditLog>>)
        requires
            old(self).wf(),
        ensures
            final(self).wf(),
            final(self).size() == old(self).size(),
            final(self).waiting() == Seq::<AuditLog>::empty(),
            r is Some <==> old(self).waiting().len() > 0,
            r matches Some(batch) ==> batch@ == old(self).waiting(),
    {
        if self.buf.len() > 0 {
            Some(self.take())
        } else {
            assert(self.buf@ =~= Seq::<AuditLog>::empty());
            None
        }
    }
}

/// Whether the endpoint took a batch: it answered, with success.
pub fn batch_accepted(status: Option<u16>) -> (r: bool)
    ensures
        r == (status is Some && 200 <= status->0 < 300),
{
    match status {
        Some(code) => 200 <= code && code < 300,
        None => false,
    }
}

/// A sample rate of zero or below audits nothing; of one or above, every request
/// that may be audited, whatever is drawn below one.
pub proof fn extreme_rates(draw: u32, rate: u32)
    requires
        draw < ONE_BITS,
        !is_nan(rate),
    ensures
        rate == 0 || rate >= SIGN_BITS ==> not_below(draw, rate),
        ONE_BITS <= rate < SIGN_BITS ==> !not_below(draw, rate),
{
}

/// Only chat completions are audited, whatever is drawn; health checks, metrics and
/// other paths never are.
pub proof fn other_paths_are_never_audited(c: AuditStats, path: Seq<char>, draw: u32, rate: u32)
    ensures
        audited(path) ==> path == "/v1/chat/completions"@,
        path != "/v1/chat/completions"@ ==> {
            let a = after_draw(c, path, draw, rate);
            &&& c.path_filtered < u64::MAX ==> a.path_filtered == c.path_filtered + 1
            &&& a.sampled_out == c.sampled_out && a.accepted == c.accepted && a.dropped_full
                == c.dropped_full
        },
        path == "/v1/chat/completions"@ ==> {
            let a = after_draw(c, path, draw, rate);
            &&& a.path_filtered == c.path_filtered && a.accepted == c.accepted && a.dropped_full
                == c.dropped_full
            &&& a.sampled_out == c.sampled_out || c.sampled_out == u64::MAX || a.sampled_out
                == c.sampled_out + 1
            &&& draw < rate < SIGN_BITS && !is_nan(rate) ==> a.sampled_out == c.sampled_out
            &&& rate <= draw < SIGN_BITS && c.sampled_out < u64::MAX ==> a.sampled_out
                == c.sampled_out + 1 || is_nan(rate)
        },
{
}

/// A draw is audited exactly where it is below the rate: for numbers that are not
/// negative, bits are in the order of the numbers.
pub proof fn sampling_follows_the_rate(draw: u32, rate: u32)
    requires
        draw <= 0x7f80_0000,
        rate <= 0x7f80_0000,
    ensures
        not_below(draw, rate) <==> draw >= rate,
{
}

/// A clamped rate is between zero and one, and a rate that is already there stays.
pub proof fn rates_are_clamped(bits: u32)
    requires
        !is_nan(bits),
        bits != 0x8000_0000,
    ensures
        clamped(bits) <= 0x3f80_0000,
        bits <= 0x3f80_0000 ==> clamped(bits) == bits,
        0x3f80_0000 < bits <= 0x7f80_0000 ==> clamped(bits) == 0x3f80_0000,
        bits > 0x8000_0000 ==> clamped(bits) == 0,
{
}

/// A number in the environment is taken, but not below the least; what is not there
/// or is no number gives the default.
pub proof fn settings_are_taken(raw: Option<&str>, max: nat, least: nat, default: nat)
    ensures
        raw is None ==> number_setting(raw, max, least, default) == default,
        raw is Some ==> match unsigned_value(raw->0@, max) {
            Some(v) => number_setting(raw, max, least, default) >= least && number_setting(
                raw,
                max,
                least,
                default,
            ) >= v && (v >= least ==> number_setting(raw, max, least, default) == v),
            None => number_setting(raw, max, least, default) == default,
        },
{
}

/// The key of an authorization is what follows `Bearer `, and all of it where it does
/// not begin so.
pub proof fn keys_follow_the_scheme(authorization: Seq<char>)
    ensures
        !"Bearer "@.is_prefix_of(authorization) ==> stripped(authorization, "Bearer "@)
            == authorization,
        forall|key: Seq<char>|
            authorization == "Bearer "@ + key && !"Bearer "@.is_prefix_of(key) ==> stripped(
                authorization,
                "Bearer "@,
            ) == key,
{
    reveal_strlit("Bearer ");
    prefixes_are_taken(authorization, "Bearer "@);
}

/// A record says of its request what was known when the record was started, each
/// thing in its own place.
pub proof fn records_say_what_was_known(
    pending: PendingAudit,
    log: AuditLog,
    api_key: Seq<char>,
    user_id: Seq<char>,
    model: Seq<char>,
    endpoint: Seq<char>,
    is_streaming: bool,
    raw_request: Seq<u8>,
    start_ms: u64,
)
    requires
        pending.facts_are(
            api_key,
            user_id,
            model,
            endpoint,
            is_streaming,
            raw_request,
            start_ms,
        ),
        pending.recorded_in(log),
    ensures
        log.request_id@ == pending.id(),
        log.api_key@ == api_key,
        log.user_id@ == user_id,
        log.model@ == model,
        log.endpoint@ == endpoint,
        log.is_streaming == is_streaming,
        log.raw_request@ == raw_request,
        log.request_start_ms == start_ms,
        log.raw_response@ == pending.response(),
        log.status_code == pending.status(),
        log.time_to_first_byte_ms == pending.first_byte(),
{
}

/// What comes in of a response leaves what is known of the request alone.
pub proof fn responses_leave_requests_alone(
    before: PendingAudit,
    after: PendingAudit,
    api_key: Seq<char>,
    user_id: Seq<char>,
    model: Seq<char>,
    endpoint: Seq<char>,
    is_streaming: bool,
    raw_request: Seq<u8>,
    start_ms: u64,
)
    requires
        after.same_request(&before),
        before.facts_are(api_key, user_id, model, endpoint, is_streaming, raw_request, start_ms),
    ensures
        after.id() == before.id(),
        after.facts_are(api_key, user_id, model, endpoint, is_streaming, raw_request, start_ms),
        after.key() == api_key,
        after.user() == user_id,
        after.model_name() == model,
        after.path() == endpoint,
        after.streams() == is_streaming,
        after.request() == raw_request,
        after.started() == start_ms,
{
}

/// A request that is considered counts at most once: as filtered where its path is
/// not audited, as sampled out where its path is but the draw is not, and not at all
/// where it is audited.
pub proof fn requests_count_once(c: AuditStats, path: Seq<char>, draw: u32, rate: u32)
    ensures
        ({
            let after = after_draw(c, path, draw, rate);
            &&& after.accepted == c.accepted
            &&& after.dropped_full == c.dropped_full
            &&& path != "/v1/chat/completions"@ ==> after.sampled_out == c.sampled_out && (
            c.path_filtered < u64::MAX ==> after.path_filtered == c.path_filtered + 1)
            &&& path == "/v1/chat/completions"@ ==> after.path_filtered == c.path_filtered
            &&& path == "/v1/chat/completions"@ && rate < ONE_BITS && draw >= rate ==> (
            c.sampled_out < u64::MAX ==> after.sampled_out == c.sampled_out + 1)
            &&& path == "/v1/chat/completions"@ && rate <= ONE_BITS && draw < rate ==> after == c
        }),
        counted(u64::MAX) == 0,
{
}

/// What is not given of a request is recorded as empty.
pub proof fn missing_texts_are_empty(s: &str)
    ensures
        text_or_empty(Some(s)) == s@,
        text_or_empty(None).len() == 0,
{
}

/// A response is recorded as it came: what came in before and then the chunk, with
/// the time to the first byte taken once, and an end, an error and a client that left
/// each told as what it is.
pub proof fn responses_are_recorded_as_they_came(
    body: &mut AuditedBody,
    rest: &mut AuditedBody,
    chunk: Vec<u8>,
    error: &str,
    at_ms: u64,
    now_ms: u64,
    ended: Option<AuditLog>,
    failed: Option<AuditLog>,
    dropped: Option<AuditLog>,
)
    requires
        old(body).record() is Some,
        call_ensures(AuditedBody::on_chunk, (body, &chunk, at_ms), ()),
        *final(body) == *old(rest),
        call_ensures(AuditedBody::on_end, (rest, now_ms), ended),
        call_ensures(AuditedBody::on_error, (rest, error, now_ms), failed),
        call_ensures(AuditedBody::on_drop, (rest, now_ms), dropped),
    ensures
        ended matches Some(log) && log.error is None && log.raw_response@ == old(
            body,
        ).record()->0.response() + chunk@ && log.response_end_ms == now_ms,
        failed matches Some(log) && (log.error matches Some(e) && e@ == "stream_error: "@ + error@)
            && log.raw_response@ == old(body).record()->0.response() + chunk@,
        dropped matches Some(log) && (log.error matches Some(e) && e@ == "client_disconnected"@)
            && log.raw_response@ == old(body).record()->0.response() + chunk@,
        ended->0.request_id@ == old(body).record()->0.id(),
        ended->0.status_code == old(body).record()->0.status(),
        old(body).record()->0.first_byte() is Some ==> ended->0.time_to_first_byte_ms == old(
            body,
        ).record()->0.first_byte(),
        old(body).record()->0.first_byte() is None && at_ms >= old(body).record()->0.started()
            ==> ended->0.time_to_first_byte_ms == Some(
            (at_ms - old(body).record()->0.started()) as u64,
        ),
        final(rest).record() is None,
{
}

/// No record is lost on its way out, and none is sent twice: what leaves and what
/// stays is, in order, what was there and the new one. A full batch leaves at once,
/// and a tick leaves nothing behind.
pub proof fn no_record_is_lost(
    buffer: &mut FlushBuffer,
    later: &mut FlushBuffer,
    log: AuditLog,
    batch: Option<Vec<AuditLog>>,
    ticked: Option<Vec<AuditLog>>,
)
    requires
        call_ensures(FlushBuffer::on_log, (buffer, log), batch),
        *final(buffer) == *old(later),
        call_ensures(FlushBuffer::on_tick, (later,), ticked),
    ensures
        (match batch {
            Some(b) => b@,
            None => Seq::empty(),
        }) + final(buffer).waiting() == old(buffer).waiting().push(log),
        (match ticked {
            Some(b) => b@,
            None => Seq::empty(),
        }) == final(buffer).waiting(),
        final(later).waiting().len() == 0,
        batch matches Some(b) ==> b@.len() == old(buffer).size(),
        ticked matches Some(b) ==> b@.len() > 0,
{
    let all = old(buffer).waiting().push(log);
    assert(all + Seq::<AuditLog>::empty() =~= all);
    assert(Seq::<AuditLog>::empty() + all =~= all);
}

/// What becomes of a record counts in one place: where it was taken, or where it was
/// dropped over a full queue.
pub proof fn sends_count_once(sink: &mut AuditSink, outcome: SendOutcome)
    requires
        call_ensures(AuditSink::count_send, (sink, outcome), ()),
        old(sink).counters().accepted < u64::MAX,
        old(sink).counters().dropped_full < u64::MAX,
    ensures
        final(sink).counters().accepted == old(sink).counters().accepted + (if outcome is Accepted {
            1int
        } else {
            0
        }),
        final(sink).counters().dropped_full == old(sink).counters().dropped_full + (if outcome
            is Full {
            1int
        } else {
            0
        }),
        final(sink).counters().sampled_out == old(sink).counters().sampled_out,
        final(sink).counters().path_filtered == old(sink).counters().path_filtered,
        final(sink).rate() == old(sink).rate(),
{
}

/// A record that was turned in is not turned in again by dropping it.
pub proof fn records_are_turned_in_once(
    pending: &mut PendingAudit,
    later: &mut PendingAudit,
    error: Option<String>,
    now_ms: u64,
    log: AuditLog,
    dropped: Option<AuditLog>,
)
    requires
        call_ensures(PendingAudit::finalize, (pending, error, now_ms), log),
        *final(pending) == *old(later),
        call_ensures(PendingAudit::abandon, (later, now_ms), dropped),
    ensures
        dropped is None,
        log.error == error,
        log.response_end_ms == now_ms,
        log.request_id@ == old(pending).id(),
        log.api_key@ == old(pending).key(),
        log.user_id@ == old(pending).user(),
{
}

/// Only an answer from two hundred on and below three hundred takes a batch.
pub proof fn batches_are_taken_by_success(status: Option<u16>, r: bool)
    requires
        call_ensures(batch_accepted, (status,), r),
    ensures
        status is None ==> !r,
        status matches Some(code) ==> (r <==> code / 100 == 2),
{
}

} // verus!
