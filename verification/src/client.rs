//! The client: the transport configuration, the wire requests it
//! issues, and the reading of what comes back.
//!
//! A [`Client`] is immutable once built: its url and headers never
//! change, so any number of outstanding calls may share one client
//! without locking.  The client does not perform the network send
//! itself — it builds an [`HttpRequest`] saying exactly what to send,
//! and turns the raw status and body that came back into the response
//! model.  The embedding program owns the socket work and may run it
//! on whatever scheduler it likes; dropping that work cancels the
//! call with nothing held here.

use vstd::prelude::*;

use crate::error::ClientError;
use crate::error::ClientErrorV;
use crate::executor::ExecResponse;
use crate::executor::Executor;
use crate::json::parse_json;
use crate::json::push_u64_dec;
use crate::json::spec_executor_json_doc;
use crate::json::spec_nat_chars;
use crate::json::spec_parse_json;
use crate::json::spec_write_value;
use crate::json::write_json;
use crate::models::Runtime;
use crate::wire::response_of_json;
use crate::wire::runtimes_of_json;
use crate::wire::spec_response_of_json;
use crate::wire::spec_runtimes_of_json;

verus! {

/// Mathematical view of a [`Client`].
pub struct ClientV {
    pub url: Seq<char>,
    pub api_key: Option<Seq<char>>,
    pub headers: Seq<(Seq<char>, Seq<char>)>,
}

/// The url of the public production instance, used when none is
/// given.
pub open spec fn spec_default_url() -> Seq<char> {
    "https://emkc.org/api/v2/piston"@
}

/// The headers every request carries: the JSON content type, and the
/// api key as an authorization header when one was supplied.
pub open spec fn spec_headers_for(key: Option<Seq<char>>) -> Seq<(Seq<char>, Seq<char>)> {
    match key {
        None => seq![("Content-Type"@, "application/json"@)],
        Some(k) => seq![("Content-Type"@, "application/json"@), ("Authorization"@, k)],
    }
}

/// A client holding the configuration every request is sent with:
/// the base url of the service and the header set.  Both are fixed
/// at construction.
pub struct Client {
    url: String,
    api_key: Option<String>,
    headers: Vec<(String, String)>,
}

impl View for Client {
    type V = ClientV;

    closed spec fn view(&self) -> ClientV {
        ClientV {
            url: self.url@,
            api_key: match &self.api_key {
                Some(k) => Some(k@),
                None => None,
            },
            headers: self.headers.deep_view(),
        }
    }
}

/// The two request shapes the service knows.
#[derive(Clone, Copy, PartialEq, Eq, Structural, Debug)]
pub enum HttpMethod {
    Get,
    Post,
}

/// One wire request, ready to be sent by the embedding program: the
/// method, the full url, the headers, and the body if the method
/// carries one.
#[derive(Debug)]
pub struct HttpRequest {
    pub method: HttpMethod,
    pub url: String,
    pub headers: Vec<(String, String)>,
    pub body: Option<String>,
}

/// The header pairs, cloned so that the result is known to hold the
/// same text.
fn clone_header_vec(v: &Vec<(String, String)>) -> (r: Vec<(String, String)>)
    ensures
        r.deep_view() == v.deep_view(),
{
    let mut out: Vec<(String, String)> = Vec::new();
    let n = v.len();
    let mut i: usize = 0;
    while i < n
        invariant
            i <= n,
            n == v.len(),
            out.len() == i,
            forall|j: int| 0 <= j < i ==> out.deep_view()[j] == v.deep_view()[j],
        decreases n - i,
    {
        out.push((v[i].0.clone(), v[i].1.clone()));
        i = i + 1;
    }
    assert(out.deep_view() =~= v.deep_view());
    out
}

/// The header set for a request without an api key.
fn base_headers() -> (r: Vec<(String, String)>)
    ensures
        r.deep_view() == spec_headers_for(None),
{
    let mut out: Vec<(String, String)> = Vec::new();
    out.push((String::from_str("Content-Type"), String::from_str("application/json")));
    proof {
        assert(out.deep_view() =~= spec_headers_for(None));
    }
    out
}

/// The header set for a request with an api key.
fn keyed_headers(key: &String) -> (r: Vec<(String, String)>)
    ensures
        r.deep_view() == spec_headers_for(Some(key@)),
{
    let ghost base = spec_headers_for(None);
    let mut out = base_headers();
    out.push((String::from_str("Authorization"), key.clone()));
    proof {
        assert(base.len() == 1);
        assert(out@.len() == 2);
        assert(out.deep_view().len() == 2);
        assert(out.deep_view()[0] == base[0]);
        assert(out.deep_view()[1] == ("Authorization"@, key@));
        assert(out.deep_view() =~= spec_headers_for(Some(key@)));
    }
    out
}

impl Client {
    /// A client for the public production instance, with no api key.
    pub fn new() -> (r: Self)
        ensures
            r@ == (ClientV {
                url: spec_default_url(),
                api_key: None,
                headers: spec_headers_for(None),
            }),
    {
        Client {
            url: String::from_str("https://emkc.org/api/v2/piston"),
            api_key: None,
            headers: base_headers(),
        }
    }

    /// A client for a self-hosted instance at the given url, with no
    /// api key.
    pub fn with_url(url: String) -> (r: Self)
        ensures
            r@ == (ClientV { url: url@, api_key: None, headers: spec_headers_for(None) }),
    {
        Client { url, api_key: None, headers: base_headers() }
    }

    /// A client for the public production instance, with an api key.
    pub fn with_key(key: String) -> (r: Self)
        ensures
            r@ == (ClientV {
                url: spec_default_url(),
                api_key: Some(key@),
                headers: spec_headers_for(Some(key@)),
            }),
    {
        let headers = keyed_headers(&key);
        Client {
            url: String::from_str("https://emkc.org/api/v2/piston"),
            api_key: Some(key),
            headers,
        }
    }

    /// A client for a self-hosted instance at the given url, with an
    /// api key.
    pub fn with_url_and_key(url: String, key: String) -> (r: Self)
        ensures
            r@ == (ClientV {
                url: url@,
                api_key: Some(key@),
                headers: spec_headers_for(Some(key@)),
            }),
    {
        let headers = keyed_headers(&key);
        Client { url, api_key: Some(key), headers }
    }

    /// The base url requests are sent to.
    pub fn url(&self) -> (r: String)
        ensures
            r@ == self@.url,
    {
        self.url.clone()
    }

    /// The base url requests are sent to.
    pub fn get_url(&self) -> (r: String)
        ensures
            r@ == self@.url,
    {
        self.url()
    }

    /// The headers sent with every request.
    pub fn headers(&self) -> (r: Vec<(String, String)>)
        ensures
            r.deep_view() == self@.headers,
    {
        clone_header_vec(&self.headers)
    }

    /// The headers sent with every request.
    pub fn get_headers(&self) -> (r: Vec<(String, String)>)
        ensures
            r.deep_view() == self@.headers,
    {
        self.headers()
    }

    /// The wire request of the discovery call: a GET of the runtimes
    /// endpoint, with this client's headers and no body.
    pub fn runtimes_request(&self) -> (r: HttpRequest)
        ensures
            r.method is Get,
            r.url@ == self@.url + "/runtimes"@,
            r.headers.deep_view() == self@.headers,
            r.body is None,
    {
        HttpRequest {
            method: HttpMethod::Get,
            url: self.url.clone().concat("/runtimes"),
            headers: clone_header_vec(&self.headers),
            body: None,
        }
    }

    /// The wire request of an execute call: a POST of the execute
    /// endpoint, with this client's headers and the executor's
    /// current field values written as the JSON body.
    pub fn execute_request(&self, executor: &Executor) -> (r: HttpRequest)
        ensures
            r.method is Post,
            r.url@ == self@.url + "/execute"@,
            r.headers.deep_view() == self@.headers,
            r.body matches Some(b) && b@ == spec_write_value(spec_executor_json_doc(executor@)),
    {
        let doc = executor.to_json();
        HttpRequest {
            method: HttpMethod::Post,
            url: self.url.clone().concat("/execute"),
            headers: clone_header_vec(&self.headers),
            body: Some(write_json(&doc)),
        }
    }

    /// Reads the raw answer of an execute call.  A status other than
    /// 200 is a transport failure carrying the status and the raw
    /// body; a 200 body must be a JSON document describing an
    /// execution response, else the call is a transport failure too.
    pub fn process_execute_response(status: u16, body: &str) -> (r: Result<
        ExecResponse,
        ClientError,
    >)
        ensures
            status != 200 ==> (r matches Err(e) && e@ == (ClientErrorV::TransportError {
                details: spec_nat_chars(status as nat) + ": "@ + body@,
            })),
            status == 200 ==> (match spec_parse_json(body@) {
                None => r matches Err(e) && e@ == (ClientErrorV::TransportError {
                    details: "the response body is not a JSON document"@,
                }),
                Some(doc) => match spec_response_of_json(doc, status as int) {
                    None => r matches Err(e) && e@ == (ClientErrorV::TransportError {
                        details: "the response body does not describe an execution response"@,
                    }),
                    Some(rv) => r matches Ok(resp) && resp@ == rv,
                },
            }),
    {
        if status != 200 {
            return Err(transport_status_error(status, body));
        }
        match parse_json(body) {
            None => Err(
                ClientError::TransportError {
                    details: String::from_str("the response body is not a JSON document"),
                },
            ),
            Some(doc) => match response_of_json(&doc, status) {
                None => Err(
                    ClientError::TransportError {
                        details: String::from_str(
                            "the response body does not describe an execution response",
                        ),
                    },
                ),
                Some(resp) => Ok(resp),
            },
        }
    }

    /// Reads the raw answer of a discovery call.  A status other than
    /// 200 is a transport failure carrying the status and the raw
    /// body; a 200 body must be a JSON array describing runtimes, in
    /// the service's order, else the call is a transport failure too.
    pub fn process_runtimes_response(status: u16, body: &str) -> (r: Result<
        Vec<Runtime>,
        ClientError,
    >)
        ensures
            status != 200 ==> (r matches Err(e) && e@ == (ClientErrorV::TransportError {
                details: spec_nat_chars(status as nat) + ": "@ + body@,
            })),
            status == 200 ==> (match spec_parse_json(body@) {
                None => r matches Err(e) && e@ == (ClientErrorV::TransportError {
                    details: "the response body is not a JSON document"@,
                }),
                Some(doc) => match spec_runtimes_of_json(doc) {
                    None => r matches Err(e) && e@ == (ClientErrorV::TransportError {
                        details: "the response body does not describe a runtime listing"@,
                    }),
                    Some(rs) => r matches Ok(v) && v.deep_view() == rs,
                },
            }),
    {
        if status != 200 {
            return Err(transport_status_error(status, body));
        }
        match parse_json(body) {
            None => Err(
                ClientError::TransportError {
                    details: String::from_str("the response body is not a JSON document"),
                },
            ),
            Some(doc) => match runtimes_of_json(&doc) {
                None => Err(
                    ClientError::TransportError {
                        details: String::from_str(
                            "the response body does not describe a runtime listing",
                        ),
                    },
                ),
                Some(v) => Ok(v),
            },
        }
    }
}

/// The transport failure for an answer whose status was not 200: the
/// status and the raw body, so that nothing the service said is
/// lost.
fn transport_status_error(status: u16, body: &str) -> (e: ClientError)
    ensures
        e@ == (ClientErrorV::TransportError {
            details: spec_nat_chars(status as nat) + ": "@ + body@,
        }),
{
    let mut d = String::new();
    push_u64_dec(&mut d, status as u64);
    d.append(": ");
    d.append(body);
    proof {
        assert(d@ =~= spec_nat_chars(status as nat) + ": "@ + body@);
    }
    ClientError::TransportError { details: d }
}

} // verus!
