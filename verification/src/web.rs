//! HTTP GET requests, made with `ureq`. A request is first built as plain
//! values (URL, headers, timeouts), which the contracts fix; one trusted
//! call then performs it.

use std::io::Read;
use std::time::Duration;
use vstd::prelude::*;

verus! {

/// The timeouts the HTTP agent is built with, in seconds.
#[derive(Debug, Clone, Copy)]
pub struct AgentSettings {
    pub connect_secs: u64,
    pub read_secs: u64,
    pub total_secs: u64,
}

/// A GET request: the URL, the headers in the order they are set, and the
/// agent's timeouts.
pub struct GetRequest {
    pub url: String,
    pub headers: Vec<(String, String)>,
    pub settings: AgentSettings,
}

/// The `User-Agent` header sent with every request.
pub const USER_AGENT: &'static str = "Mozilla/5.0 (compatible; NonogramFetcher/1.0)";

/// The `Accept` header sent when a page is fetched.
pub const HTML_ACCEPT: &'static str = "text/html,application/xhtml+xml";

/// The headers of a request as name and value texts.
pub open spec fn header_views(h: Seq<(String, String)>) -> Seq<(Seq<char>, Seq<char>)> {
    h.map_values(|p: (String, String)| (p.0@, p.1@))
}

/// The timeouts of the HTTP agent: 8 s to connect, 15 s per read, 25 s in
/// all.
pub fn build_agent() -> (s: AgentSettings)
    ensures
        s.connect_secs == 8,
        s.read_secs == 15,
        s.total_secs == 25,
{
    AgentSettings { connect_secs: 8, read_secs: 15, total_secs: 25 }
}

fn header(name: &str, value: &str) -> (h: (String, String))
    ensures
        h.0@ == name@,
        h.1@ == value@,
{
    (String::from_str(name), String::from_str(value))
}

/// The request for a page: `url`, with `User-Agent: USER_AGENT` and
/// `Accept: HTML_ACCEPT`, on an agent built by `build_agent`.
pub fn html_request(url: &str) -> (r: GetRequest)
    ensures
        r.url@ == url@,
        header_views(r.headers@) == seq![("User-Agent"@, USER_AGENT@), ("Accept"@, HTML_ACCEPT@)],
        r.settings.connect_secs == 8,
        r.settings.read_secs == 15,
        r.settings.total_secs == 25,
{
    let mut headers: Vec<(String, String)> = Vec::new();
    headers.push(header("User-Agent", USER_AGENT));
    headers.push(header("Accept", HTML_ACCEPT));
    assert(header_views(headers@) =~= seq![("User-Agent"@, USER_AGENT@), ("Accept"@, HTML_ACCEPT@)]);
    GetRequest { url: String::from_str(url), headers, settings: build_agent() }
}

/// The request for a resource read as bytes: `url`, with
/// `User-Agent: USER_AGENT`, on an agent built by `build_agent`.
pub fn bytes_request(url: &str) -> (r: GetRequest)
    ensures
        r.url@ == url@,
        header_views(r.headers@) == seq![("User-Agent"@, USER_AGENT@)],
        r.settings.connect_secs == 8,
        r.settings.read_secs == 15,
        r.settings.total_secs == 25,
{
    let mut headers: Vec<(String, String)> = Vec::new();
    headers.push(header("User-Agent", USER_AGENT));
    assert(header_views(headers@) =~= seq![("User-Agent"@, USER_AGENT@)]);
    GetRequest { url: String::from_str(url), headers, settings: build_agent() }
}

/// Performs `r` with ureq and reads the body as text: an agent with the
/// timeouts of `r.settings` (`AgentBuilder::timeout_connect`,
/// `timeout_read`, `timeout`), `Agent::get(r.url)`, `Request::set` for each
/// header in order, `Request::call`, `Response::into_string`. A failure comes
/// back as its display text. What the server answers is not claimed: nothing
/// is promised of the result.
#[verifier::external_body]
fn perform_text(r: &GetRequest) -> Result<String, String> {
    let s = &r.settings;
    let agent = ureq::AgentBuilder::new().timeout_connect(Duration::from_secs(s.connect_secs))
        .timeout_read(Duration::from_secs(s.read_secs)).timeout(Duration::from_secs(s.total_secs)).build();
    let mut req = agent.get(&r.url);
    for (name, value) in r.headers.iter() {
        req = req.set(name, value);
    }
    let resp = req.call().map_err(|e| e.to_string())?;
    resp.into_string().map_err(|e| e.to_string())
}

/// Performs `r` with ureq as `perform_text` does, but reads the whole body
/// as bytes (`Response::into_reader`, `Read::read_to_end`). Nothing is
/// promised of the result.
#[verifier::external_body]
fn perform_bytes(r: &GetRequest) -> Result<Vec<u8>, String> {
    let s = &r.settings;
    let agent = ureq::AgentBuilder::new().timeout_connect(Duration::from_secs(s.connect_secs))
        .timeout_read(Duration::from_secs(s.read_secs)).timeout(Duration::from_secs(s.total_secs)).build();
    let mut req = agent.get(&r.url);
    for (name, value) in r.headers.iter() {
        req = req.set(name, value);
    }
    let resp = req.call().map_err(|e| e.to_string())?;
    let mut bytes: Vec<u8> = Vec::new();
    resp.into_reader().read_to_end(&mut bytes).map_err(|e| e.to_string())?;
    Ok(bytes)
}

/// Fetches the page at `url` as text with the request `html_request(url)`.
/// A failed request or read gives its description.
pub fn fetch_html(url: &str) -> (r: Result<String, String>) {
    let req = html_request(url);
    perform_text(&req)
}

/// Fetches the resource at `url` as bytes with the request
/// `bytes_request(url)`. A failed request or read gives its description.
pub fn fetch_bytes(url: &str) -> (r: Result<Vec<u8>, String>) {
    let req = bytes_request(url);
    perform_bytes(&req)
}

} // verus!
