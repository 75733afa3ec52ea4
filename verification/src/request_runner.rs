use vstd::prelude::*;
use vstd::string::StringExecFns;

use crate::request::Request;

verus! {

// ---------------------------------------------------------------------------
// The request executor: build one GET for a request of the corpus, run the
// ordered chain of request-preparation steps over it, send it, and report
// success or failure. Only the send itself, and the handles it needs, are
// outside code.
// ---------------------------------------------------------------------------

/// Declares the single-threaded async runtime a worker owns; opaque here.
#[verifier::external_type_specification]
#[verifier::external_body]
pub struct ExRuntime(tokio::runtime::Runtime);

/// Declares the HTTP client type; opaque here.
#[verifier::external_type_specification]
#[verifier::external_body]
#[verifier::reject_recursive_types(C)]
#[verifier::reject_recursive_types(B)]
pub struct ExClient<C, B>(hyper::Client<C, B>);

/// Declares the TCP connector the client dials with; opaque here.
#[verifier::external_type_specification]
#[verifier::external_body]
#[verifier::reject_recursive_types(R)]
pub struct ExHttpConnector<R>(hyper::client::HttpConnector<R>);

/// Declares the name resolver the connector uses; opaque here.
#[verifier::external_type_specification]
#[verifier::external_body]
pub struct ExGaiResolver(hyper::client::connect::dns::GaiResolver);

/// Declares the outgoing request body type; opaque here.
#[verifier::external_type_specification]
#[verifier::external_body]
pub struct ExBody(hyper::Body);

/// Relies on tokio::runtime::Builder: builds a single-threaded runtime with
/// timers and network I/O enabled, or reports that none could be built.
#[verifier::external_body]
fn runtime_new() -> Option<tokio::runtime::Runtime> {
    tokio::runtime::Builder::new_current_thread().enable_all().build().ok()
}

/// Relies on hyper::Client::new: a fresh HTTP/1 client over a plain TCP
/// connector, owned by the caller alone.
#[verifier::external_body]
fn client_new() -> hyper::Client<hyper::client::HttpConnector, hyper::Body> {
    hyper::Client::new()
}

/// Relies on hyper::Request::builder and tokio::runtime::Runtime::block_on
/// driving hyper::Client::request: assembles a GET for `uri` carrying
/// exactly the given headers in order and performs one HTTP exchange.
/// `Ok(true)` is any completed exchange whatever its status code,
/// `Ok(false)` a URI or header the builder refused, `Err` a failed
/// exchange — including a URI the builder accepted but the client could
/// not dial.
#[verifier::external_body]
fn send_get(
    rt: &tokio::runtime::Runtime,
    client: &hyper::Client<hyper::client::HttpConnector, hyper::Body>,
    uri: &String,
    headers: &Vec<(String, String)>,
) -> Result<bool, hyper::Error> {
    let mut b = hyper::Request::builder().method(hyper::Method::GET).uri(uri.as_str());
    for (name, value) in headers.iter() {
        b = b.header(name.as_str(), value.as_str());
    }
    let req = match b.body(hyper::Body::empty()) {
        Ok(req) => req,
        Err(_) => return Ok(false),
    };
    match rt.block_on(client.request(req)) {
        Ok(_) => Ok(true),
        Err(e) => Err(e),
    }
}

/// Declares the client's error type; opaque here, mapped to
/// `ExecutionError` right after each call.
#[verifier::external_type_specification]
#[verifier::external_body]
pub struct ExHyperError(hyper::Error);

/// The value of a request plan: its URI and header list as character
/// sequences.
pub struct PlanView {
    pub uri: Seq<char>,
    pub headers: Seq<(Seq<char>, Seq<char>)>,
}

/// The outgoing request as the library models it: the URI to dial and the
/// ordered list of headers to attach. The preparation chain edits this
/// value; only the send turns it into a wire request.
pub struct RequestPlan {
    pub uri: String,
    pub headers: Vec<(String, String)>,
}

impl View for RequestPlan {
    type V = PlanView;

    open spec fn view(&self) -> PlanView {
        PlanView {
            uri: self.uri@,
            headers: self.headers@.map_values(|p: (String, String)| (p.0@, p.1@)),
        }
    }
}

/// One request-preparation step: may add or overwrite what the outgoing
/// request carries. An embedder appends steps of its own after the
/// built-in ones.
pub trait PrepareHttpRequest {
    fn call(&self, req_def: &Request, plan: RequestPlan) -> RequestPlan;
}

/// An ordered collection of steps is itself a step: it applies its members
/// in order.
impl<T: PrepareHttpRequest> PrepareHttpRequest for Vec<T> {
    fn call(&self, req_def: &Request, plan: RequestPlan) -> RequestPlan {
        let mut p = plan;
        let mut i: usize = 0;
        while i < self.len()
            decreases self@.len() - i,
        {
            p = (&self[i]).call(req_def, p);
            i += 1;
        }
        p
    }
}

/// An optional step: applied when present, the identity when absent.
impl<T: PrepareHttpRequest> PrepareHttpRequest for Option<T> {
    fn call(&self, req_def: &Request, plan: RequestPlan) -> RequestPlan {
        match self {
            Some(step) => step.call(req_def, plan),
            None => plan,
        }
    }
}

/// Appends one header to a plan.
pub fn push_header(plan: &mut RequestPlan, name: String, value: String)
    ensures
        final(plan)@.uri == old(plan)@.uri,
        final(plan)@.headers == old(plan)@.headers.push((name@, value@)),
{
    let ghost old_headers = plan.headers@;
    plan.headers.push((name, value));
    proof {
        assert(final(plan)@.headers =~= old(plan)@.headers.push(
            (final(plan).headers@.last().0@, final(plan).headers@.last().1@),
        ));
    }
}

/// The plan the built-in preparation steps produce: a GET for the host and
/// the request's path, over a non-persistent connection, marked as
/// benchmark traffic, authenticated with the request's bearer token. The
/// URI is the host followed by the path exactly: the path was captured
/// verbatim from the log and already begins with its slash.
pub fn base_plan(host: &String, request: &Request) -> (p: RequestPlan)
    ensures
        p@.uri == host@ + request.url@,
        p@.headers == seq![
            ("Connection"@, "close"@),
            ("X-Benchmark-Request"@, "true"@),
            ("Authorization"@, "Bearer "@ + request.access_token@),
        ],
{
    let mut uri = host.clone();
    uri.append(request.url.as_str());
    let mut auth = String::from_str("Bearer ");
    auth.append(request.access_token.as_str());
    let mut p = RequestPlan { uri, headers: Vec::new() };
    proof {
        assert(p@.headers =~= Seq::<(Seq<char>, Seq<char>)>::empty());
    }
    push_header(&mut p, String::from_str("Connection"), String::from_str("close"));
    push_header(&mut p, String::from_str("X-Benchmark-Request"), String::from_str("true"));
    push_header(&mut p, String::from_str("Authorization"), auth);
    proof {
        assert(p@.headers =~= seq![
            ("Connection"@, "close"@),
            ("X-Benchmark-Request"@, "true"@),
            ("Authorization"@, "Bearer "@ + request.access_token@),
        ]);
    }
    p
}

/// Why one replay attempt failed. A completed exchange is never a failure,
/// whatever its status code.
#[derive(Clone, Copy, Debug, PartialEq, Eq, Structural)]
pub enum ExecutionError {
    /// The URI or a header value could not form a wire request.
    InvalidRequest,
    /// The exchange did not complete: connection, name resolution, timeout
    /// or TLS failure.
    Transport,
}

/// One worker's executor: its own runtime and client — never shared with
/// another worker — and the embedder's preparation step, applied after the
/// built-in ones.
pub struct RequestRunner<T: PrepareHttpRequest> {
    pub rt: tokio::runtime::Runtime,
    pub client: hyper::Client<hyper::client::HttpConnector, hyper::Body>,
    pub prepare_http_request: T,
}

/// How one exchange outcome reads as an attempt result: a completed
/// exchange is success whatever its status code; a request the builder
/// refused is `InvalidRequest`; a failed exchange is `Transport`. Exactly
/// one of the three, never anything else.
pub fn classify_exchange(outcome: Result<bool, hyper::Error>) -> (r: Result<(), ExecutionError>)
    ensures
        (r is Ok) <==> (outcome matches Ok(true)),
        (r matches Err(e) && e == ExecutionError::InvalidRequest) <==> (outcome matches Ok(
            false,
        )),
        (r matches Err(e) && e == ExecutionError::Transport) <==> (outcome is Err),
{
    match outcome {
        Ok(true) => Ok(()),
        Ok(false) => Err(ExecutionError::InvalidRequest),
        Err(_) => Err(ExecutionError::Transport),
    }
}

impl<T: PrepareHttpRequest> RequestRunner<T> {
    /// A fresh executor — its runtime and client built inside this call,
    /// owned by it alone — carrying the given preparation step unchanged;
    /// `None` when no runtime could be built.
    pub fn new(prepare_http_request: T) -> (r: Option<RequestRunner<T>>)
        ensures
            r matches Some(rr) ==> rr.prepare_http_request == prepare_http_request,
    {
        match runtime_new() {
            Some(rt) => Some(
                RequestRunner { rt, client: client_new(), prepare_http_request },
            ),
            None => None,
        }
    }

    /// Builds the plan for `host` and `request` — `base_plan`, then the
    /// embedder's chain — sends the GET once, and reports the outcome as
    /// `classify_exchange` reads it.
    pub fn run_request(&mut self, host: &String, request: &Request) -> Result<(), ExecutionError> {
        let plan = base_plan(host, request);
        let plan = self.prepare_http_request.call(request, plan);
        classify_exchange(send_get(&self.rt, &self.client, &plan.uri, &plan.headers))
    }
}

} // verus!
