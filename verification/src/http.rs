//! Plain models of subgraph requests, responses, and their fingerprints.
//!
//! A fingerprint is the deterministic key derived from a request's
//! identifying fields (method, target, headers, body); two requests with
//! equal fingerprints are interchangeable for in-flight coalescing.

use vstd::prelude::*;

use crate::OperationKind;

verus! {

/// Per-caller execution state (tracing and operation metadata handle).
/// It is carried through the layer unchanged and must never be shared
/// across callers.
#[derive(Clone, Copy, PartialEq, Eq, Structural, Debug)]
pub struct ExecutionContext {
    pub id: u64,
}

/// The identifying fields of an outbound subgraph HTTP request.
pub struct HttpRequestParts {
    pub method: String,
    pub target: String,
    pub headers: Vec<(String, String)>,
    pub body: String,
}

/// The shareable fields of a downstream HTTP response.
pub struct HttpResponseParts {
    pub status: u16,
    pub headers: Vec<(String, String)>,
    pub body: String,
}

/// Mathematical image of a header list: pairs of character sequences.
pub open spec fn headers_view(h: Seq<(String, String)>) -> Seq<(Seq<char>, Seq<char>)> {
    h.map_values(|p: (String, String)| (p.0@, p.1@))
}

/// Mathematical image of a response: status, headers, body.
pub ghost struct HttpResponseView {
    pub status: u16,
    pub headers: Seq<(Seq<char>, Seq<char>)>,
    pub body: Seq<char>,
}

impl View for HttpResponseParts {
    type V = HttpResponseView;

    open spec fn view(&self) -> HttpResponseView {
        HttpResponseView {
            status: self.status,
            headers: headers_view(self.headers@),
            body: self.body@,
        }
    }
}

/// An outbound call unit: the request's identifying fields, the operation
/// kind that decides coalescing eligibility, and the caller's own context.
pub struct SubgraphRequest {
    pub subgraph_request: HttpRequestParts,
    pub operation_kind: OperationKind,
    pub context: ExecutionContext,
}

/// A downstream response paired with one caller's execution context.
pub struct SubgraphResponse {
    pub response: HttpResponseParts,
    pub context: ExecutionContext,
}

/// Mathematical image of a response bound to a context.
pub ghost struct SubgraphResponseView {
    pub response: HttpResponseView,
    pub context: ExecutionContext,
}

impl View for SubgraphResponse {
    type V = SubgraphResponseView;

    open spec fn view(&self) -> SubgraphResponseView {
        SubgraphResponseView { response: self.response@, context: self.context }
    }
}

impl SubgraphResponse {
    /// Binds a response payload to the given caller's own context.
    pub fn new_from_response(response: HttpResponseParts, context: ExecutionContext) -> (r: Self)
        ensures
            r.response@ == response@,
            r.context == context,
    {
        SubgraphResponse { response, context }
    }
}

/// The error reported when a downstream call fails. The leader keeps the
/// structured error; followers receive one rebuilt from its rendered text.
#[derive(Debug)]
pub struct FetchError {
    pub message: String,
}

impl FetchError {
    /// The rendered text of the error, shareable across tasks.
    pub fn rendered(&self) -> (r: String)
        ensures
            r@ == self.message@,
    {
        self.message.clone()
    }
}

/// The deterministic key under which concurrent identical requests coalesce.
pub struct Fingerprint {
    pub method: String,
    pub target: String,
    pub headers: Vec<(String, String)>,
    pub body: String,
}

/// Mathematical image of a fingerprint.
pub ghost struct FingerprintView {
    pub method: Seq<char>,
    pub target: Seq<char>,
    pub headers: Seq<(Seq<char>, Seq<char>)>,
    pub body: Seq<char>,
}

impl View for Fingerprint {
    type V = FingerprintView;

    open spec fn view(&self) -> FingerprintView {
        FingerprintView {
            method: self.method@,
            target: self.target@,
            headers: headers_view(self.headers@),
            body: self.body@,
        }
    }
}

impl HttpRequestParts {
    /// The fingerprint a request would coalesce under.
    pub open spec fn fingerprint_view(&self) -> FingerprintView {
        FingerprintView {
            method: self.method@,
            target: self.target@,
            headers: headers_view(self.headers@),
            body: self.body@,
        }
    }
}

/// Copies a header list; the copy holds the same headers.
pub(crate) fn clone_headers(h: &Vec<(String, String)>) -> (r: Vec<(String, String)>)
    ensures
        r@ == h@,
{
    let mut out: Vec<(String, String)> = Vec::new();
    let mut i: usize = 0;
    while i < h.len()
        invariant
            i <= h@.len(),
            out@.len() == i,
            forall|j: int| 0 <= j < i ==> #[trigger] out@[j] == h@[j],
        decreases h@.len() - i,
    {
        let name = h[i].0.clone();
        let value = h[i].1.clone();
        out.push((name, value));
        i = i + 1;
    }
    proof {
        assert(out@ =~= h@);
    }
    out
}

/// Derives the fingerprint of a request from its identifying fields alone.
/// Structurally identical requests yield equal fingerprints.
pub fn fingerprint_of(request: &SubgraphRequest) -> (r: Fingerprint)
    ensures
        r@ == request.subgraph_request.fingerprint_view(),
{
    Fingerprint {
        method: request.subgraph_request.method.clone(),
        target: request.subgraph_request.target.clone(),
        headers: clone_headers(&request.subgraph_request.headers),
        body: request.subgraph_request.body.clone(),
    }
}

/// Copies a fingerprint; the copy has the same mathematical image.
pub fn clone_fingerprint(fp: &Fingerprint) -> (r: Fingerprint)
    ensures
        r@ == fp@,
{
    Fingerprint {
        method: fp.method.clone(),
        target: fp.target.clone(),
        headers: clone_headers(&fp.headers),
        body: fp.body.clone(),
    }
}

/// Decides equality of two header lists by content.
fn headers_eq(a: &Vec<(String, String)>, b: &Vec<(String, String)>) -> (r: bool)
    ensures
        r == (headers_view(a@) == headers_view(b@)),
{
    if a.len() != b.len() {
        assert(headers_view(a@).len() != headers_view(b@).len());
        return false;
    }
    let mut i: usize = 0;
    while i < a.len()
        invariant
            i <= a@.len(),
            a@.len() == b@.len(),
            forall|j: int|
                0 <= j < i ==> (#[trigger] a@[j]).0@ == b@[j].0@ && a@[j].1@ == b@[j].1@,
        decreases a@.len() - i,
    {
        if a[i].0 != b[i].0 || a[i].1 != b[i].1 {
            assert(headers_view(a@)[i as int] != headers_view(b@)[i as int]);
            return false;
        }
        i = i + 1;
    }
    proof {
        assert(headers_view(a@) =~= headers_view(b@));
    }
    true
}

/// Decides whether two fingerprints are equal, i.e. whether the requests
/// they were derived from are safe to treat as one downstream call.
pub fn fingerprint_matches(a: &Fingerprint, b: &Fingerprint) -> (r: bool)
    ensures
        r == (a@ == b@),
{
    let r = a.method == b.method && a.target == b.target && a.body == b.body
        && headers_eq(&a.headers, &b.headers);
    proof {
        if r {
            assert(a@ =~= b@);
        }
    }
    r
}

} // verus!
