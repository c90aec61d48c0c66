use http::HeaderMap;
use http::HeaderValue;
use vstd::prelude::*;

verus! {

#[verifier::external_type_specification]
#[verifier::external_body]
#[verifier::reject_recursive_types(T)]
pub struct ExHeaderMap<T>(HeaderMap<T>);

#[verifier::external_type_specification]
#[verifier::external_body]
pub struct ExHeaderValue(HeaderValue);

/// What a header map holds, as far as lookups see it: for each header name
/// present (in its lowercase form), the bytes of the first value stored under it.
pub uninterp spec fn first_header_values(h: HeaderMap) -> Map<Seq<char>, Seq<u8>>;

/// Text decoded from bytes, with each invalid UTF-8 sequence replaced by U+FFFD.
pub uninterp spec fn lossy_utf8(b: Seq<u8>) -> Seq<char>;

pub open spec fn has_no_uppercase(s: Seq<char>) -> bool {
    forall|i: int| 0 <= i < s.len() ==> !('A' <= s[i] && s[i] <= 'Z')
}

/// Relies on `http::HeaderMap::get` with a `&str` name, which lowercases the
/// name and returns the first value stored under it, and on
/// `HeaderValue::as_bytes` for that value's bytes.
#[verifier::external_body]
fn first_header_value(headers: &HeaderMap, name: &str) -> (r: Option<Vec<u8>>)
    requires
        has_no_uppercase(name@),
    ensures
        match r {
            Some(v) => first_header_values(*headers).contains_key(name@)
                && v@ == first_header_values(*headers)[name@],
            None => !first_header_values(*headers).contains_key(name@),
        },
{
    match headers.get(name) {
        Some(v) => Some(v.as_bytes().to_vec()),
        None => None,
    }
}

/// Relies on `String::from_utf8_lossy`: the result depends on the bytes alone.
#[verifier::external_body]
fn lossy_string(b: &[u8]) -> (r: String)
    ensures
        r@ == lossy_utf8(b@),
{
    String::from_utf8_lossy(b).into_owned()
}

/// The parts of a request URI that error classification reads.
#[derive(Debug, Clone, PartialEq, Eq)]
pub struct RequestUri {
    pub host: Option<String>,
    pub path: String,
}

impl RequestUri {
    pub fn new(host: Option<String>, path: String) -> (r: RequestUri)
        ensures
            r.host == host,
            r.path == path,
    {
        RequestUri { host, path }
    }
}

/// Errors reported by the vpnless gateway agent through response headers.
#[derive(Debug, Clone, PartialEq, Eq)]
pub enum X2PAgentError {
    ForbiddenHost { host: String, message: String },
    Connection { host: String, message: String },
    AccessDenied { host: String, path: String },
    Error(String),
}

/// The mathematical value of an `X2PAgentError`.
pub enum X2PAgentErrorView {
    ForbiddenHost { host: Seq<char>, message: Seq<char> },
    Connection { host: Seq<char>, message: Seq<char> },
    AccessDenied { host: Seq<char>, path: Seq<char> },
    Error(Seq<char>),
}

impl View for X2PAgentError {
    type V = X2PAgentErrorView;

    open spec fn view(&self) -> X2PAgentErrorView {
        match self {
            X2PAgentError::ForbiddenHost { host, message } => X2PAgentErrorView::ForbiddenHost {
                host: host@,
                message: message@,
            },
            X2PAgentError::Connection { host, message } => X2PAgentErrorView::Connection {
                host: host@,
                message: message@,
            },
            X2PAgentError::AccessDenied { host, path } => X2PAgentErrorView::AccessDenied {
                host: host@,
                path: path@,
            },
            X2PAgentError::Error(m) => X2PAgentErrorView::Error(m@),
        }
    }
}

pub open spec fn opt_error_view(e: Option<X2PAgentError>) -> Option<X2PAgentErrorView> {
    match e {
        Some(x) => Some(x@),
        None => None,
    }
}

pub open spec fn ascii(s: Seq<char>) -> Seq<u8> {
    Seq::new(s.len(), |i: int| s[i] as u8)
}

/// Header carrying the gateway's authorisation decision.
pub open spec fn auth_decision_header() -> Seq<char> {
    seq!['x', '-', 'f', 'b', '-', 'v', 'a', 'l', 'i', 'd', 'a', 't', 'e', 'd', '-', 'x', '2', 'p',
        'a', 'u', 't', 'h', '-', 'd', 'e', 'c', 'i', 's', 'i', 'o', 'n']
}

/// Header carrying the kind of error the agent met.
pub open spec fn error_type_header() -> Seq<char> {
    seq!['x', '-', 'x', '2', 'p', 'a', 'g', 'e', 'n', 't', 'd', '-', 'e', 'r', 'r', 'o', 'r', '-',
        't', 'y', 'p', 'e']
}

/// Header carrying the agent's error message.
pub open spec fn error_msg_header() -> Seq<char> {
    seq!['x', '-', 'x', '2', 'p', 'a', 'g', 'e', 'n', 't', 'd', '-', 'e', 'r', 'r', 'o', 'r', '-',
        'm', 's', 'g']
}

pub open spec fn deny_bytes() -> Seq<u8> {
    seq![100u8, 101u8, 110u8, 121u8]
}

pub open spec fn forbidden_host_bytes() -> Seq<u8> {
    ascii(seq!['F', 'O', 'R', 'B', 'I', 'D', 'D', 'E', 'N', '_', 'H', 'O', 'S', 'T'])
}

pub open spec fn connection_bytes() -> Seq<u8> {
    ascii(seq!['C', 'O', 'N', 'N', 'E', 'C', 'T', 'I', 'O', 'N'])
}

pub open spec fn no_host() -> Seq<char> {
    seq!['<', 'n', 'o', ' ', 'h', 'o', 's', 't', '>']
}

/// The host named in error reports: the URI's host, or a placeholder.
pub open spec fn reported_host(uri: RequestUri) -> Seq<char> {
    match uri.host {
        Some(h) => h@,
        None => no_host(),
    }
}

/// Classification of a gateway response, in priority order: a "deny"
/// decision, then a typed error with a message, then a bare message.
pub open spec fn classification(
    uri: RequestUri,
    decision: Option<Seq<u8>>,
    error_type: Option<Seq<u8>>,
    message: Option<Seq<char>>,
) -> Option<X2PAgentErrorView> {
    let host = reported_host(uri);
    if decision == Some(deny_bytes()) {
        Some(X2PAgentErrorView::AccessDenied { host, path: uri.path@ })
    } else if error_type == Some(forbidden_host_bytes()) && message is Some {
        Some(X2PAgentErrorView::ForbiddenHost { host, message: message->0 })
    } else if error_type == Some(connection_bytes()) && message is Some {
        Some(X2PAgentErrorView::Connection { host, message: message->0 })
    } else if message is Some {
        Some(X2PAgentErrorView::Error(message->0))
    } else {
        None
    }
}

pub open spec fn opt_bytes(v: Option<Vec<u8>>) -> Option<Seq<u8>> {
    match v {
        Some(b) => Some(b@),
        None => None,
    }
}

pub open spec fn opt_chars(v: Option<String>) -> Option<Seq<char>> {
    match v {
        Some(s) => Some(s@),
        None => None,
    }
}

fn bytes_eq(a: &Vec<u8>, b: &[u8]) -> (r: bool)
    ensures
        r == (a@ == b@),
{
    if a.len() != b.len() {
        return false;
    }
    let mut i: usize = 0;
    while i < a.len()
        invariant
            a@.len() == b@.len(),
            0 <= i <= a@.len(),
            forall|k: int| 0 <= k < i ==> a@[k] == b@[k],
        decreases a@.len() - i,
    {
        if a[i] != b[i] {
            return false;
        }
        i = i + 1;
    }
    assert(a@ =~= b@);
    true
}

fn host_of(uri: &RequestUri) -> (r: String)
    ensures
        r@ == reported_host(*uri),
{
    match &uri.host {
        Some(h) => h.clone(),
        None => {
            proof {
                reveal_strlit("<no host>");
            }
            let s = "<no host>".to_string();
            assert(s@ =~= no_host());
            s
        },
    }
}

/// Classifies a response from the header values it carries: `decision`,
/// `error_type` and `message` are the values of the decision, error-type and
/// error-message headers, the last one already decoded to text.
pub fn classify_response(
    uri: &RequestUri,
    decision: Option<Vec<u8>>,
    error_type: Option<Vec<u8>>,
    message: Option<String>,
) -> (r: Option<X2PAgentError>)
    ensures
        opt_error_view(r) == classification(
            *uri,
            opt_bytes(decision),
            opt_bytes(error_type),
            opt_chars(message),
        ),
{
    let deny: [u8; 4] = [100u8, 101u8, 110u8, 121u8];
    let forbidden: [u8; 14] = [70u8, 79u8, 82u8, 66u8, 73u8, 68u8, 68u8, 69u8, 78u8, 95u8, 72u8, 79u8, 83u8, 84u8];
    let connection: [u8; 10] = [67u8, 79u8, 78u8, 78u8, 69u8, 67u8, 84u8, 73u8, 79u8, 78u8];
    assert(deny@ =~= deny_bytes());
    assert(forbidden@ =~= forbidden_host_bytes());
    assert(connection@ =~= connection_bytes());
    let host = host_of(uri);
    let denied = match &decision {
        Some(d) => bytes_eq(d, deny.as_slice()),
        None => false,
    };
    if denied {
        return Some(X2PAgentError::AccessDenied { host, path: uri.path.clone() });
    }
    let (is_forbidden, is_connection) = match &error_type {
        Some(t) => (bytes_eq(t, forbidden.as_slice()), bytes_eq(t, connection.as_slice())),
        None => (false, false),
    };
    match message {
        Some(message) => {
            if is_forbidden {
                Some(X2PAgentError::ForbiddenHost { host, message })
            } else if is_connection {
                Some(X2PAgentError::Connection { host, message })
            } else {
                Some(X2PAgentError::Error(message))
            }
        },
        None => None,
    }
}

pub open spec fn header_in(h: HeaderMap, name: Seq<char>) -> Option<Seq<u8>> {
    if first_header_values(h).contains_key(name) {
        Some(first_header_values(h)[name])
    } else {
        None
    }
}

pub open spec fn decoded(v: Option<Seq<u8>>) -> Option<Seq<char>> {
    match v {
        Some(b) => Some(lossy_utf8(b)),
        None => None,
    }
}

impl X2PAgentError {
    /// Reads the gateway agent's verdict from a response's headers; `None`
    /// when the headers carry none.
    pub fn from_headers(uri: &RequestUri, headers: &HeaderMap) -> (r: Option<X2PAgentError>)
        ensures
            opt_error_view(r) == classification(
                *uri,
                header_in(*headers, auth_decision_header()),
                header_in(*headers, error_type_header()),
                decoded(header_in(*headers, error_msg_header())),
            ),
    {
        proof {
            reveal_strlit("x-fb-validated-x2pauth-decision");
            reveal_strlit("x-x2pagentd-error-type");
            reveal_strlit("x-x2pagentd-error-msg");
        }
        let decision_name = "x-fb-validated-x2pauth-decision";
        let kind_name = "x-x2pagentd-error-type";
        let msg_name = "x-x2pagentd-error-msg";
        assert(decision_name@ =~= auth_decision_header());
        assert(kind_name@ =~= error_type_header());
        assert(msg_name@ =~= error_msg_header());
        let decision = first_header_value(headers, decision_name);
        let error_type = first_header_value(headers, kind_name);
        let message = match first_header_value(headers, msg_name) {
            Some(m) => Some(lossy_string(m.as_slice())),
            None => None,
        };
        classify_response(uri, decision, error_type, message)
    }
}

} // verus!
