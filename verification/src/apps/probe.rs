use crate::apps::store::Key;
use crate::clock::clock_now;
use crate::models::service::Service;
use crate::models::time::{Timestamp, NANOS_PER_MINUTE};
use crate::models::web_host_meta::{WebHostMeta, WebHostMetaView};
use vstd::prelude::*;
use vstd::string::StringExecFns;

verus! {

/// How asking one service for its document ended.
#[derive(Debug)]
pub enum ProbeOutcome {
    /// The service answered with a body that could be read.
    Document(WebHostMeta),
    /// The service answered with a body that could not be read.
    Unparseable,
    /// The request did not get through to the service.
    TransportError,
    /// No forwarder to the service could be had.
    NoForwarder,
}

pub enum ProbeOutcomeView {
    Document(WebHostMetaView),
    Unparseable,
    TransportError,
    NoForwarder,
}

impl View for ProbeOutcome {
    type V = ProbeOutcomeView;

    open spec fn view(&self) -> ProbeOutcomeView {
        match self {
            ProbeOutcome::Document(meta) => ProbeOutcomeView::Document(meta@),
            ProbeOutcome::Unparseable => ProbeOutcomeView::Unparseable,
            ProbeOutcome::TransportError => ProbeOutcomeView::TransportError,
            ProbeOutcome::NoForwarder => ProbeOutcomeView::NoForwarder,
        }
    }
}

/// A service that has run this long, in nanoseconds, is taken to have no
/// document when it cannot be reached.
pub open spec fn service_settled_after() -> int {
    300_000_000_000
}

/// The process has to run this long, in nanoseconds, before it gives up on a
/// service.
pub open spec fn process_settled_after() -> int {
    60_000_000_000
}

/// What a transport error says of the service's document: none is to be
/// expected once both the service and this process have run long enough;
/// until then nothing is known.
pub open spec fn after_transport_error(
    service_uptime: int,
    process_uptime: int,
) -> WebHostMetaView {
    if service_uptime >= service_settled_after() && process_uptime >= process_settled_after() {
        WebHostMetaView::empty()
    } else {
        WebHostMetaView::invalid()
    }
}

/// The document that an outcome stands for. The two uptimes are in
/// nanoseconds.
pub open spec fn classified(
    outcome: ProbeOutcomeView,
    service_uptime: int,
    process_uptime: int,
) -> WebHostMetaView {
    match outcome {
        ProbeOutcomeView::Document(meta) => meta,
        ProbeOutcomeView::Unparseable => WebHostMetaView::empty(),
        ProbeOutcomeView::NoForwarder => WebHostMetaView::empty(),
        ProbeOutcomeView::TransportError => after_transport_error(service_uptime, process_uptime),
    }
}

/// A process that has run for less than a minute never gives up on a
/// service: a transport error then leaves the document unknown.
pub proof fn lemma_young_process_keeps_asking(service_uptime: int, process_uptime: int)
    requires
        process_uptime < process_settled_after(),
    ensures
        after_transport_error(service_uptime, process_uptime) == WebHostMetaView::invalid(),
{
}

/// No document that follows from a transport error is valid.
pub proof fn lemma_transport_error_is_never_valid(service_uptime: int, process_uptime: int)
    ensures
        !after_transport_error(service_uptime, process_uptime).is_valid(),
{
}

/// Decides what a transport error means, from how long the service and the
/// process have run.
pub fn classify_transport_error(service_uptime: i128, process_uptime: i128) -> (meta: WebHostMeta)
    ensures
        meta@ == after_transport_error(service_uptime as int, process_uptime as int),
{
    if service_uptime >= 5 * NANOS_PER_MINUTE && process_uptime >= NANOS_PER_MINUTE {
        WebHostMeta::empty()
    } else {
        WebHostMeta::invalid()
    }
}

/// Turns the outcome of one probe into the document to consider for the
/// cache, with `now` as the time at which the outcome is judged.
pub fn resolve_web_host_meta_at(
    key: Key,
    service: Service,
    outcome: ProbeOutcome,
    now: Timestamp,
    duration_prevant_startup: i128,
) -> (resolved: (Key, Service, WebHostMeta))
    ensures
        resolved.0 == key,
        resolved.1 == service,
        resolved.2@ == classified(
            outcome@,
            now@ - service@.started_at@,
            duration_prevant_startup as int,
        ),
{
    let meta = match outcome {
        ProbeOutcome::Document(meta) => meta,
        ProbeOutcome::Unparseable => WebHostMeta::empty(),
        ProbeOutcome::NoForwarder => WebHostMeta::empty(),
        ProbeOutcome::TransportError => {
            let started_at = service.started_at();
            classify_transport_error(now.nanos_since(&started_at), duration_prevant_startup)
        },
    };
    (key, service, meta)
}

/// Turns the outcome of one probe into the document to consider for the
/// cache, judged at the time of the call. Whatever the clock shows, the
/// result is the one that `resolve_web_host_meta_at` gives for that time.
pub fn resolve_web_host_meta(
    key: Key,
    service: Service,
    outcome: ProbeOutcome,
    duration_prevant_startup: i128,
) -> (resolved: (Key, Service, WebHostMeta))
    ensures
        resolved.0 == key,
        resolved.1 == service,
        exists|now: Timestamp|
            resolved.2@ == #[trigger] classified(
                outcome@,
                now@ - service@.started_at@,
                duration_prevant_startup as int,
            ),
        !(outcome@ is TransportError) ==> resolved.2@ == classified(outcome@, 0, 0),
        outcome@ is TransportError ==> !resolved.2@.is_valid(),
        outcome@ is TransportError && duration_prevant_startup < process_settled_after()
            ==> resolved.2@ == WebHostMetaView::invalid(),
{
    let now = clock_now();
    resolve_web_host_meta_at(key, service, outcome, now, duration_prevant_startup)
}

/// One header of a request: its name and its value.
pub type Header = (String, String);

/// The request that asks a service for its document.
#[derive(Debug)]
pub struct ProbeRequest {
    pub method: String,
    pub path: String,
    pub headers: Vec<Header>,
}

pub struct ProbeRequestView {
    pub method: Seq<char>,
    pub path: Seq<char>,
    pub headers: Seq<(Seq<char>, Seq<char>)>,
}

impl View for ProbeRequest {
    type V = ProbeRequestView;

    open spec fn view(&self) -> ProbeRequestView {
        ProbeRequestView {
            method: self.method@,
            path: self.path@,
            headers: self.headers.deep_view(),
        }
    }
}

/// The prefix under which the service is reachable from outside:
/// `/<app>/<service>`.
pub open spec fn forwarded_prefix(app_name: Seq<char>, service_name: Seq<char>) -> Seq<char> {
    "/"@ + app_name + "/"@ + service_name
}

/// The request for the document of one service. Only two header values
/// depend on the arguments: the user agent, which names the given version,
/// and the forwarded prefix.
pub open spec fn host_meta_request_of(
    app_name: Seq<char>,
    service_name: Seq<char>,
    version: Seq<char>,
) -> ProbeRequestView {
    ProbeRequestView {
        method: "GET"@,
        path: "/.well-known/host-meta.json"@,
        headers: seq![
            ("Host"@, "127.0.0.1"@),
            ("Connection"@, "close"@),
            ("Accept"@, "application/json"@),
            ("User-Agent"@, "PREvant/"@ + version),
            ("Forwarded"@, "host=www.prevant.example.com;proto=http"@),
            ("X-Forwarded-Prefix"@, forwarded_prefix(app_name, service_name)),
        ],
    }
}

fn header(name: &str, value: String) -> (h: Header)
    ensures
        h.deep_view() == (name@, value@),
{
    (String::from_str(name), value)
}

/// Builds the request that asks the service `service_name` of `app_name` for
/// its document.
pub fn host_meta_request(app_name: &String, service_name: &String, version: &str) -> (request:
    ProbeRequest)
    ensures
        request@ == host_meta_request_of(app_name@, service_name@, version@),
{
    let prefix = String::from_str("/").concat(app_name.as_str()).concat("/").concat(
        service_name.as_str(),
    );
    let mut headers: Vec<Header> = Vec::new();
    headers.push(header("Host", String::from_str("127.0.0.1")));
    headers.push(header("Connection", String::from_str("close")));
    headers.push(header("Accept", String::from_str("application/json")));
    headers.push(header("User-Agent", String::from_str("PREvant/").concat(version)));
    headers.push(header("Forwarded", String::from_str("host=www.prevant.example.com;proto=http")));
    headers.push(header("X-Forwarded-Prefix", prefix));
    let request = ProbeRequest {
        method: String::from_str("GET"),
        path: String::from_str("/.well-known/host-meta.json"),
        headers,
    };
    assert(request@.headers =~= host_meta_request_of(app_name@, service_name@, version@).headers);
    request
}

} // verus!
