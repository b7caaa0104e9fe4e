//! Native Cohere chat.
//!
//! Only routing metadata is read from `/v1/chat` and `/v2/chat` requests. The
//! JSON bytes are forwarded unchanged.

use crate::grpc::error::{
    internal_error, internal_error_text, service_unavailable, ErrorAnswer, ErrorText,
};
use crate::outside::{fields_text, json_fields, json_read};
use crate::text::{
    from_chars, lowered, same, to_ascii_lowercase, to_chars, trim, trimmed, trimming_is_idempotent,
};
use vstd::prelude::*;
use vstd::utf8::encode_utf8;

verus! {

/// Cohere chat endpoint version.
#[derive(Debug, Clone, Copy, PartialEq, Eq, Structural)]
pub enum CohereChatEndpoint {
    V1,
    V2,
}

impl CohereChatEndpoint {
    /// The upstream path of the endpoint.
    pub open spec fn upstream(self) -> Seq<char> {
        match self {
            CohereChatEndpoint::V1 => "/v1/chat"@,
            CohereChatEndpoint::V2 => "/v2/chat"@,
        }
    }

    /// Return the upstream path that should be preserved for this endpoint.
    pub fn path(self) -> (r: &'static str)
        ensures
            r@ == self.upstream(),
    {
        match self {
            CohereChatEndpoint::V1 => "/v1/chat",
            CohereChatEndpoint::V2 => "/v2/chat",
        }
    }

    /// Return the metrics endpoint label for this Cohere route.
    pub fn metrics_label(self) -> (r: &'static str)
        ensures
            r@ == match self {
                CohereChatEndpoint::V1 => "cohere_chat_v1"@,
                CohereChatEndpoint::V2 => "cohere_chat_v2"@,
            },
    {
        match self {
            CohereChatEndpoint::V1 => "cohere_chat_v1",
            CohereChatEndpoint::V2 => "cohere_chat_v2",
        }
    }
}

/// Routing metadata extracted from a native Cohere chat request.
#[derive(Debug, Clone, PartialEq, Eq)]
pub struct CohereChatMetadata {
    model: String,
    stream: bool,
}

/// Raw Cohere chat request plus the minimal metadata needed for routing.
#[derive(Debug, Clone)]
pub struct CohereChatRequest {
    endpoint: CohereChatEndpoint,
    body: Vec<u8>,
    metadata: CohereChatMetadata,
}

/// Error returned when Cohere routing metadata cannot be extracted.
#[derive(Debug, Clone, PartialEq, Eq)]
pub struct CohereChatRequestError {
    message: String,
}

impl CohereChatRequestError {
    pub closed spec fn text(&self) -> Seq<char> {
        self.message@
    }

    fn new(message: String) -> (r: Self)
        ensures
            r.text() == message@,
    {
        CohereChatRequestError { message }
    }

    /// What is said of the error.
    pub fn message(&self) -> (r: &str)
        ensures
            r@ == self.text(),
    {
        self.message.as_str()
    }
}

/// What the members found in a body come to: the model and whether to stream,
/// or what is said of the error.
pub open spec fn metadata_in(
    fields: Result<(Option<Seq<char>>, Option<bool>), Seq<char>>,
) -> Result<(Seq<char>, bool), Seq<char>> {
    match fields {
        Err(e) => Err("Invalid Cohere JSON body: "@ + e),
        Ok((Some(model), stream)) => if trimmed(model).len() > 0 {
            Ok(
                (
                    trimmed(model),
                    match stream {
                        Some(b) => b,
                        None => false,
                    },
                ),
            )
        } else {
            Err("Cohere chat routing requires a non-empty 'model' field"@)
        },
        Ok((None, _)) => Err("Cohere chat routing requires a non-empty 'model' field"@),
    }
}

impl CohereChatRequest {
    pub closed spec fn version(&self) -> CohereChatEndpoint {
        self.endpoint
    }

    pub closed spec fn bytes(&self) -> Seq<u8> {
        self.body@
    }

    pub closed spec fn model_id(&self) -> Seq<char> {
        self.metadata.model@
    }

    pub closed spec fn streams(&self) -> bool {
        self.metadata.stream
    }

    /// The request that `body` with such members is.
    pub fn from_fields(
        endpoint: CohereChatEndpoint,
        body: Vec<u8>,
        fields: Result<(Option<String>, Option<bool>), String>,
    ) -> (r: Result<Self, CohereChatRequestError>)
        ensures
            match metadata_in(fields_text(fields)) {
                Ok((model, stream)) => {
                    &&& r matches Ok(req)
                    &&& req.version() == endpoint
                    &&& req.bytes() == body@
                    &&& req.model_id() == model
                    &&& req.streams() == stream
                },
                Err(text) => r matches Err(e) && e.text() == text,
            },
    {
        let (model, stream) = match fields {
            Ok(found) => found,
            Err(e) => {
                let mut message = "Invalid Cohere JSON body: ".to_owned();
                message.append(e.as_str());
                return Err(CohereChatRequestError::new(message));
            },
        };
        if let Some(model) = model {
            let model = trim(model.as_str());
            proof {
                reveal_strlit("");
                assert(model@.len() == 0 ==> model@ =~= ""@);
            }
            if !same(model.as_str(), "") {
                let stream: bool = match stream {
                    Some(b) => b,
                    None => false,
                };
                return Ok(
                    CohereChatRequest {
                        endpoint,
                        body,
                        metadata: CohereChatMetadata { model, stream },
                    },
                );
            }
        }
        Err(
            CohereChatRequestError::new(
                "Cohere chat routing requires a non-empty 'model' field".to_owned(),
            ),
        )
    }

    /// Parse only routing metadata while retaining the original request bytes.
    pub fn from_bytes(endpoint: CohereChatEndpoint, body: Vec<u8>) -> (r: Result<
        Self,
        CohereChatRequestError,
    >)
        ensures
            match metadata_in(json_fields(body@, "model"@, "stream"@)) {
                Ok((model, stream)) => {
                    &&& r matches Ok(req)
                    &&& req.version() == endpoint
                    &&& req.bytes() == body@
                    &&& req.model_id() == model
                    &&& req.streams() == stream
                },
                Err(text) => r matches Err(e) && e.text() == text,
            },
    {
        let fields = json_read(&body, "model", "stream");
        CohereChatRequest::from_fields(endpoint, body, fields)
    }

    /// Return the endpoint version and path for this request.
    pub fn endpoint(&self) -> (r: CohereChatEndpoint)
        ensures
            r == self.version(),
    {
        self.endpoint
    }

    /// Return the original raw JSON request bytes.
    pub fn body(&self) -> (r: &Vec<u8>)
        ensures
            r@ == self.bytes(),
    {
        &self.body
    }

    /// Return the model id used for worker selection.
    pub fn model(&self) -> (r: &str)
        ensures
            r@ == self.model_id(),
    {
        self.metadata.model.as_str()
    }

    /// Return whether the request asks for streaming.
    pub fn stream(&self) -> (r: bool)
        ensures
            r == self.streams(),
    {
        self.metadata.stream
    }
}

/// A header of a request.
pub struct Header {
    pub name: String,
    pub value: Vec<u8>,
    /// Headers of this name are passed on to workers.
    pub forwardable: bool,
}

/// `s` without the slashes at its end.
pub open spec fn without_slashes(s: Seq<char>) -> Seq<char>
    decreases s.len(),
{
    if s.len() > 0 && s.last() == '/' {
        without_slashes(s.drop_last())
    } else {
        s
    }
}

/// Where a request goes upstream.
pub fn upstream_url(worker_url: &str, endpoint: CohereChatEndpoint) -> (r: String)
    ensures
        r@ == without_slashes(worker_url@) + endpoint.upstream(),
{
    let chars = to_chars(worker_url);
    let mut end: usize = chars.len();
    assert(chars@.take(end as int) =~= chars@);
    while end > 0 && chars[end - 1] == '/'
        invariant
            end <= chars@.len(),
            without_slashes(chars@) == without_slashes(chars@.take(end as int)),
        decreases end,
    {
        assert(chars@.take(end as int).drop_last() =~= chars@.take(end - 1));
        end = end - 1;
    }
    let mut url = from_chars(&chars, 0, end);
    assert(url@ =~= chars@.take(end as int));
    url.append(endpoint.path());
    url
}

/// The header is passed on: it may be, and it is no authorization, which the
/// gateway sets itself.
pub open spec fn passed_on(h: Header) -> bool {
    h.forwardable && lowered(h.name@) != "authorization"@
}

/// The positions of the headers that are passed on, among the first `n`.
pub open spec fn passed_positions(headers: Seq<Header>, n: int) -> Seq<usize>
    decreases n,
{
    if n <= 0 {
        Seq::empty()
    } else {
        let before = passed_positions(headers, n - 1);
        if passed_on(headers[n - 1]) {
            before.push((n - 1) as usize)
        } else {
            before
        }
    }
}

/// Which headers are passed on, by their positions.
pub fn forwarded_headers(headers: &Vec<Header>) -> (r: Vec<usize>)
    ensures
        r@ == passed_positions(headers@, headers@.len() as int),
{
    let mut out: Vec<usize> = Vec::new();
    let mut i: usize = 0;
    while i < headers.len()
        invariant
            i <= headers@.len(),
            out@ == passed_positions(headers@, i as int),
        decreases headers@.len() - i,
    {
        let name = to_ascii_lowercase(headers[i].name.as_str());
        if headers[i].forwardable && !same(name.as_str(), "authorization") {
            out.push(i);
        }
        i += 1;
    }
    out
}

/// The value of the first content type among the first `n` headers.
pub open spec fn content_type_in(headers: Seq<Header>, n: int) -> Option<Seq<u8>>
    decreases n,
{
    if n <= 0 {
        None
    } else {
        match content_type_in(headers, n - 1) {
            Some(v) => Some(v),
            None => if lowered(headers[n - 1].name@) == "content-type"@ {
                Some(headers[n - 1].value@)
            } else {
                None
            },
        }
    }
}

proof fn lemma_content_type_stays(headers: Seq<Header>, m: int, n: int)
    requires
        0 <= m <= n,
    ensures
        content_type_in(headers, m) is Some ==> content_type_in(headers, n) == content_type_in(
            headers,
            m,
        ),
    decreases n,
{
    if m < n {
        lemma_content_type_stays(headers, m, n - 1);
    }
}

/// The client's content type, or JSON.
pub open spec fn sent_content_type(headers: Seq<Header>) -> Seq<u8> {
    match content_type_in(headers, headers.len() as int) {
        Some(v) => v,
        None => encode_utf8("application/json"@),
    }
}

fn copy_bytes(v: &[u8]) -> (r: Vec<u8>)
    ensures
        r@ == v@,
{
    let mut r: Vec<u8> = Vec::new();
    r.extend_from_slice(v);
    assert(r@ =~= v@);
    r
}

/// The client's content type, or JSON.
pub fn original_content_type(headers: &Vec<Header>) -> (r: Vec<u8>)
    ensures
        r@ == sent_content_type(headers@),
{
    let mut i: usize = 0;
    while i < headers.len()
        invariant
            i <= headers@.len(),
            content_type_in(headers@, i as int) is None,
        decreases headers@.len() - i,
    {
        proof {
            lemma_content_type_stays(headers@, i + 1, headers@.len() as int);
        }
        let name = to_ascii_lowercase(headers[i].name.as_str());
        if same(name.as_str(), "content-type") {
            return copy_bytes(headers[i].value.as_slice());
        }
        i += 1;
    }
    copy_bytes("application/json".as_bytes())
}

/// A request as it goes upstream.
pub struct UpstreamRequest {
    pub url: String,
    pub content_type: Vec<u8>,
    /// Positions of the client's headers that go along.
    pub forwarded: Vec<usize>,
    /// What is accepted, where that is said.
    pub accept: Option<&'static str>,
    pub body: Vec<u8>,
}

/// The request that goes upstream for a client's: its bytes are unchanged.
pub fn upstream_request(
    request: &CohereChatRequest,
    worker_url: &str,
    headers: &Vec<Header>,
) -> (r: UpstreamRequest)
    ensures
        is_upstream(r, *request, worker_url@, headers@),
{
    let body: Vec<u8> = copy_bytes(request.body.as_slice());
    UpstreamRequest {
        url: upstream_url(worker_url, request.endpoint),
        content_type: original_content_type(headers),
        forwarded: forwarded_headers(headers),
        accept: if request.metadata.stream {
            Some("text/event-stream")
        } else {
            None
        },
        body,
    }
}

/// What came of sending a request upstream.
#[allow(inconsistent_fields)]
pub enum Sent {
    Failed { error: String },
    /// The answer's body is passed on as it comes in.
    Streaming { status: u16, content_type: Option<Vec<u8>> },
    Answered { status: u16, content_type: Option<Vec<u8>>, body: Result<Vec<u8>, String> },
}

/// What the client is answered.
#[allow(inconsistent_fields)]
pub enum Answer {
    Upstream { status: u16, content_type: Option<Vec<u8>>, body: Vec<u8> },
    Stream { status: u16, content_type: Option<Vec<u8>> },
    Error { answer: ErrorAnswer },
}

/// A status code that can be passed on; any other becomes an internal error.
pub open spec fn passable(status: u16) -> u16 {
    if 100 <= status < 1000 {
        status
    } else {
        500
    }
}

fn pass(status: u16) -> (r: u16)
    ensures
        r == passable(status),
{
    if 100 <= status && status < 1000 {
        status
    } else {
        500
    }
}

/// The answer to a client, and the status that is held against the worker.
pub fn attempt(sent: Sent) -> (r: (u16, Answer))
    ensures
        match sent {
            Sent::Failed { error } => {
                &&& r.0 == 503
                &&& r.1 is Error
                &&& r.1->answer@ == (ErrorText {
                    status: 503,
                    code: "upstream_error"@,
                    message: "Failed to contact upstream: "@ + error@,
                })
            },
            Sent::Streaming { status, content_type } => r == (
                passable(status),
                Answer::Stream { status: passable(status), content_type },
            ),
            Sent::Answered { status, content_type, body } => {
                &&& r.0 == passable(status)
                &&& match body {
                    Ok(bytes) => r.1 == (Answer::Upstream {
                        status: passable(status),
                        content_type,
                        body: bytes,
                    }),
                    Err(error) => r.1 is Error && r.1->answer@ == internal_error_text(
                        "upstream_error"@,
                        "Failed to read response: "@ + error@,
                    ),
                }
            },
        },
{
    match sent {
        Sent::Failed { error } => {
            let mut message = "Failed to contact upstream: ".to_owned();
            message.append(error.as_str());
            (503, Answer::Error { answer: service_unavailable("upstream_error", message.as_str()) })
        },
        Sent::Streaming { status, content_type } => {
            let status: u16 = pass(status);
            (status, Answer::Stream { status, content_type })
        },
        Sent::Answered { status, content_type, body } => {
            let status: u16 = pass(status);
            match body {
                Ok(body) => (status, Answer::Upstream { status, content_type, body }),
                Err(error) => {
                    let mut message = "Failed to read response: ".to_owned();
                    message.append(error.as_str());
                    (
                        status,
                        Answer::Error {
                            answer: internal_error("upstream_error", message.as_str()),
                        },
                    )
                },
            }
        },
    }
}

impl Answer {
    /// The status the client sees.
    pub open spec fn code(&self) -> int {
        match *self {
            Answer::Upstream { status, .. } => status as int,
            Answer::Stream { status, .. } => status as int,
            Answer::Error { answer } => answer@.status,
        }
    }

    /// Whether the request counts as served.
    pub fn is_success(&self) -> (r: bool)
        ensures
            r == (200 <= self.code() < 300),
    {
        let status: u16 = match self {
            Answer::Upstream { status, .. } => *status,
            Answer::Stream { status, .. } => *status,
            Answer::Error { answer } => answer.status,
        };
        200 <= status && status < 300
    }
}

/// What is counted of a request.
#[derive(Debug, Clone, Copy, PartialEq, Eq, Structural)]
pub enum RouteMetric {
    /// A request for an endpoint, streaming or not.
    Request { endpoint: CohereChatEndpoint, streaming: bool },
    /// No worker could be selected.
    NoWorkers { endpoint: CohereChatEndpoint },
    /// An attempt is repeated.
    Retry { endpoint: CohereChatEndpoint },
    /// No further attempt is made.
    RetriesExhausted { endpoint: CohereChatEndpoint },
    /// The request was served; its duration counts.
    Duration { endpoint: CohereChatEndpoint },
    /// The backend failed.
    BackendError { endpoint: CohereChatEndpoint },
}

/// Where a request is on its way.
#[derive(Debug, Clone, Copy, PartialEq, Eq, Structural)]
pub enum RouteState {
    SelectingWorker,
    Sending,
    Answered,
}

/// A request on its way to a worker and back.
pub struct CohereRoute {
    request: CohereChatRequest,
    state: RouteState,
}

/// `r` is what goes upstream for `request`.
pub open spec fn is_upstream(
    r: UpstreamRequest,
    request: CohereChatRequest,
    worker_url: Seq<char>,
    headers: Seq<Header>,
) -> bool {
    &&& r.url@ == without_slashes(worker_url) + request.version().upstream()
    &&& r.content_type@ == sent_content_type(headers)
    &&& r.forwarded@ == passed_positions(headers, headers.len() as int)
    &&& (r.accept is Some <==> request.streams())
    &&& (r.accept is Some ==> r.accept->0@ == "text/event-stream"@)
    &&& r.body@ == request.bytes()
}

impl CohereRoute {
    pub closed spec fn routed(&self) -> CohereChatRequest {
        self.request
    }

    pub closed spec fn at(&self) -> RouteState {
        self.state
    }

    /// Starts routing a request, which is counted.
    pub fn begin(request: CohereChatRequest) -> (r: (Self, RouteMetric))
        ensures
            r.0.routed() == request,
            r.0.at() == RouteState::SelectingWorker,
            r.1 == (RouteMetric::Request {
                endpoint: request.version(),
                streaming: request.streams(),
            }),
    {
        let metric = RouteMetric::Request {
            endpoint: request.endpoint,
            streaming: request.metadata.stream,
        };
        (CohereRoute { request, state: RouteState::SelectingWorker }, metric)
    }

    /// Takes in the worker that was selected: what goes to it, or, where there
    /// is none, what is counted.
    pub fn on_worker(&mut self, worker_url: Option<&str>, headers: &Vec<Header>) -> (r: Result<
        UpstreamRequest,
        RouteMetric,
    >)
        requires
            old(self).at() == RouteState::SelectingWorker,
        ensures
            final(self).routed() == old(self).routed(),
            match worker_url {
                Some(url) => {
                    &&& final(self).at() == RouteState::Sending
                    &&& r is Ok
                    &&& is_upstream(r->Ok_0, old(self).routed(), url@, headers@)
                },
                None => {
                    &&& final(self).at() == RouteState::Answered
                    &&& r == Err::<UpstreamRequest, RouteMetric>(
                        RouteMetric::NoWorkers { endpoint: old(self).routed().version() },
                    )
                },
            },
    {
        match worker_url {
            Some(url) => {
                self.state = RouteState::Sending;
                Ok(upstream_request(&self.request, url, headers))
            },
            None => {
                self.state = RouteState::Answered;
                Err(RouteMetric::NoWorkers { endpoint: self.request.endpoint })
            },
        }
    }

    /// What is counted when an attempt is repeated after a retryable answer, or
    /// cannot be repeated any more.
    pub fn on_retryable(&self, attempts_left: bool) -> (r: RouteMetric)
        requires
            self.at() == RouteState::Sending,
        ensures
            r == if attempts_left {
                RouteMetric::Retry { endpoint: self.routed().version() }
            } else {
                RouteMetric::RetriesExhausted { endpoint: self.routed().version() }
            },
    {
        if attempts_left {
            RouteMetric::Retry { endpoint: self.request.endpoint }
        } else {
            RouteMetric::RetriesExhausted { endpoint: self.request.endpoint }
        }
    }

    /// Takes in the last attempt's answer: what is counted of it.
    pub fn conclude(&mut self, answer: &Answer) -> (r: RouteMetric)
        requires
            old(self).at() == RouteState::Sending,
        ensures
            final(self).routed() == old(self).routed(),
            final(self).at() == RouteState::Answered,
            r == if 200 <= answer.code() < 300 {
                RouteMetric::Duration { endpoint: old(self).routed().version() }
            } else {
                RouteMetric::BackendError { endpoint: old(self).routed().version() }
            },
    {
        self.state = RouteState::Answered;
        if answer.is_success() {
            RouteMetric::Duration { endpoint: self.request.endpoint }
        } else {
            RouteMetric::BackendError { endpoint: self.request.endpoint }
        }
    }
}

/// A model that is accepted is not empty and has no white space around it.
pub proof fn accepted_model_is_bare(
    fields: Result<(Option<Seq<char>>, Option<bool>), Seq<char>>,
)
    requires
        metadata_in(fields) is Ok,
    ensures
        metadata_in(fields)->Ok_0.0.len() > 0,
        trimmed(metadata_in(fields)->Ok_0.0) == metadata_in(fields)->Ok_0.0,
{
    trimming_is_idempotent(fields->Ok_0.0->0);
}

/// The path stands behind the worker's address with one slash between them, however
/// many the address ends with; the slashes at its end are all that it loses.
pub proof fn one_slash_stands_before_the_path(url: Seq<char>)
    ensures
        without_slashes(url.push('/')) == without_slashes(url),
        without_slashes(url).len() > 0 ==> without_slashes(url).last() != '/',
        without_slashes(url).len() <= url.len(),
        url.take(without_slashes(url).len() as int) == without_slashes(url),
        forall|i: int| without_slashes(url).len() <= i < url.len() ==> #[trigger] url[i] == '/',
        CohereChatEndpoint::V1.upstream()[0] == '/',
        CohereChatEndpoint::V2.upstream()[0] == '/',
        CohereChatEndpoint::V1.upstream() == "/v1/chat"@,
        CohereChatEndpoint::V2.upstream() == "/v2/chat"@,
    decreases url.len(),
{
    reveal_strlit("/v1/chat");
    reveal_strlit("/v2/chat");
    assert(url.push('/').drop_last() =~= url);
    if url.len() > 0 && url.last() == '/' {
        let front = url.drop_last();
        one_slash_stands_before_the_path(front);
        let n = without_slashes(url).len() as int;
        assert(url.take(n) =~= front.take(n));
        assert forall|i: int| n <= i < url.len() implies #[trigger] url[i] == '/' by {
            if i < front.len() {
                assert(front[i] == '/');
            }
        }
    } else {
        assert(url.take(url.len() as int) =~= url);
    }
}

/// Of the client's headers those go along, in their order and each once, that may
/// be forwarded and are no authorization, in whatever case that is written.
pub proof fn credentials_are_never_passed_on(headers: Seq<Header>, n: int)
    requires
        0 <= n <= headers.len(),
        headers.len() <= usize::MAX,
    ensures
        forall|k: int|
            0 <= k < passed_positions(headers, n).len() ==> {
                let at = #[trigger] passed_positions(headers, n)[k];
                &&& at < n
                &&& headers[at as int].forwardable
                &&& lowered(headers[at as int].name@) != "authorization"@
            },
        forall|j: int, k: int|
            0 <= j < k < passed_positions(headers, n).len() ==> (#[trigger] passed_positions(
                headers,
                n,
            )[j]) < #[trigger] passed_positions(headers, n)[k],
        forall|i: int|
            0 <= i < n && (#[trigger] headers[i]).forwardable && lowered(headers[i].name@)
                != "authorization"@ ==> passed_positions(headers, n).contains(i as usize),
    decreases n,
{
    if n > 0 {
        credentials_are_never_passed_on(headers, n - 1);
        let before = passed_positions(headers, n - 1);
        let all = passed_positions(headers, n);
        assert forall|i: int|
            0 <= i < n && (#[trigger] headers[i]).forwardable && lowered(headers[i].name@)
                != "authorization"@ implies all.contains(i as usize) by {
            if i < n - 1 {
                assert(before.contains(i as usize));
                let k = before.index_of(i as usize);
                assert(all[k] == i as usize);
            } else {
                assert(all[all.len() - 1] == i as usize);
            }
        }
    }
}

/// The content type is that of the first header of the name, in whatever case it is
/// written, and JSON where there is none.
pub proof fn the_first_content_type_counts(headers: Seq<Header>, at: int)
    ensures
        0 <= at < headers.len() && lowered(headers[at].name@) == "content-type"@ && (forall|i: int|
            0 <= i < at ==> lowered((#[trigger] headers[i]).name@) != "content-type"@)
            ==> sent_content_type(headers) == headers[at].value@,
        (forall|i: int|
            0 <= i < headers.len() ==> lowered((#[trigger] headers[i]).name@) != "content-type"@)
            ==> sent_content_type(headers) == encode_utf8("application/json"@),
{
    if forall|i: int|
        0 <= i < headers.len() ==> lowered((#[trigger] headers[i]).name@) != "content-type"@ {
        lemma_no_content_type(headers, headers.len() as int);
    }
    if 0 <= at < headers.len() && lowered(headers[at].name@) == "content-type"@ && (forall|i: int|
        0 <= i < at ==> lowered((#[trigger] headers[i]).name@) != "content-type"@) {
        lemma_no_content_type(headers, at);
        lemma_content_type_stays(headers, at + 1, headers.len() as int);
    }
}

proof fn lemma_no_content_type(headers: Seq<Header>, n: int)
    requires
        0 <= n <= headers.len(),
        forall|i: int|
            0 <= i < n ==> lowered((#[trigger] headers[i]).name@) != "content-type"@,
    ensures
        content_type_in(headers, n) is None,
    decreases n,
{
    if n > 0 {
        lemma_no_content_type(headers, n - 1);
        assert(lowered(headers[n - 1].name@) != "content-type"@);
    }
}

/// What goes upstream is the client's request: its bytes unchanged, to the path it
/// came in on, asking for a stream exactly where the client does.
pub proof fn requests_go_upstream_unchanged(
    r: UpstreamRequest,
    request: CohereChatRequest,
    worker_url: Seq<char>,
    headers: Seq<Header>,
)
    requires
        is_upstream(r, request, worker_url, headers),
    ensures
        r.body@ == request.bytes(),
        request.streams() ==> (r.accept matches Some(a) && a@ == "text/event-stream"@),
        !request.streams() ==> r.accept is None,
        r.content_type@ == sent_content_type(headers),
        r.forwarded@ == passed_positions(headers, headers.len() as int),
        r.url@.len() >= 8,
        request.version() is V1 ==> r.url@.skip(r.url@.len() - 8) == "/v1/chat"@,
        request.version() is V2 ==> r.url@.skip(r.url@.len() - 8) == "/v2/chat"@,
        worker_url.len() > 0 && worker_url.last() != '/' ==> r.url@.take(r.url@.len() - 8)
            == worker_url,
{
    reveal_strlit("/v1/chat");
    reveal_strlit("/v2/chat");
    let bare = without_slashes(worker_url);
    assert(r.url@.skip(bare.len() as int) =~= request.version().upstream());
    assert(r.url@.take(bare.len() as int) =~= bare);
}

/// A body names its model; white space around the name does not count, a body
/// without a name is refused, and nothing streams unless it is asked to.
pub proof fn bodies_name_their_model(
    model: Option<Seq<char>>,
    stream: Option<bool>,
    error: Seq<char>,
)
    ensures
        ({
            let found = metadata_in(Ok((model, stream)));
            &&& found is Ok <==> (model matches Some(m) && trimmed(m).len() > 0)
            &&& found matches Ok(got) ==> (model matches Some(m) && got.0 == trimmed(m))
            &&& found matches Ok(got) ==> (got.1 <==> stream == Some(true))
        }),
        metadata_in(Err(error)) matches Err(text) && text == "Invalid Cohere JSON body: "@ + error,
{
}

/// Upstream statuses that can be sent are passed on as they are.
pub proof fn statuses_are_passed_on(status: u16)
    ensures
        100 <= passable(status) <= 999,
        100 <= status <= 999 ==> passable(status) == status,
        !(100 <= status <= 999) ==> passable(status) == 500,
{
}

/// What a worker answers is what the client is answered, status, content type and
/// body; where no answer comes, that is an error of the gateway, and the worker is
/// held to have failed.
pub proof fn answers_are_passed_on(sent: Sent, r: (u16, Answer))
    requires
        call_ensures(attempt, (sent,), r),
    ensures
        match sent {
            Sent::Failed { error } => r.0 == 503 && r.1.code() == 503,
            Sent::Streaming { status, content_type } => 100 <= status <= 999 ==> r.0 == status && (
            r.1 matches Answer::Stream { status: s, content_type: c } && s == status && c
                == content_type),
            Sent::Answered { status, content_type, body } => 100 <= status <= 999 ==> r.0 == status
                && (body matches Ok(bytes) ==> (r.1 matches Answer::Upstream {
                status: s,
                content_type: c,
                body: b,
            } && s == status && c == content_type && b == bytes)),
        },
        sent matches Sent::Answered { body: Err(_), .. } ==> r.1.code() == 500,
        r.0 >= 100,
{
}

/// A request counts as served exactly where the client sees success, and is counted
/// under its own endpoint.
pub proof fn requests_are_counted_by_their_answer(
    route: &mut CohereRoute,
    answer: Answer,
    metric: RouteMetric,
    success: bool,
)
    requires
        call_ensures(CohereRoute::conclude, (route, &answer), metric),
        call_ensures(Answer::is_success, (&answer,), success),
    ensures
        success <==> metric is Duration,
        !success <==> metric is BackendError,
        success <==> answer.code() / 100 == 2,
        metric matches RouteMetric::Duration { endpoint } ==> endpoint == old(
            route,
        ).routed().version(),
        metric matches RouteMetric::BackendError { endpoint } ==> endpoint == old(
            route,
        ).routed().version(),
        final(route).at() is Answered,
{
}

/// A repeated attempt counts as a retry, and the last one as the end of them.
pub proof fn retries_are_counted(route: CohereRoute, left: bool, metric: RouteMetric)
    requires
        call_ensures(CohereRoute::on_retryable, (&route, left), metric),
    ensures
        left ==> metric is Retry,
        !left ==> metric is RetriesExhausted,
{
}

} // verus!
