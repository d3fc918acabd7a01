//! The endpoint matcher: decides whether a request's method and path fall
//! under any rule of the configured allow-list.

use vstd::prelude::*;
use crate::method::{Method, method_in};
use crate::text::{pattern_segments, decompose_pattern, texts_view};

verus! {

/// One allow-list entry: the methods it applies to, and its path pattern.
/// A pattern segment beginning with `:` is a wildcard that matches any
/// single request segment, as in `/foo/:bar` against `/foo/123`.
pub type CORSEndpoint = (Vec<Method>, String);

/// The CORS gate: only requests matching one of these endpoints are given
/// CORS headers. The rule list is fixed at construction and read-only
/// afterwards.
pub struct CORS {
    pub allowed_endpoints: Vec<CORSEndpoint>,
}

/// An incoming request as the filter sees it: its method, and its URL path
/// already decomposed into segments.
pub struct Request {
    pub method: Method,
    pub path: Vec<String>,
}

impl Request {
    /// The request path as a sequence of character sequences.
    pub open spec fn path_view(&self) -> Seq<Seq<char>> {
        texts_view(self.path@)
    }
}

/// The view of one rule: its method list and its pattern's characters.
pub open spec fn rule_view(e: CORSEndpoint) -> (Seq<Method>, Seq<char>) {
    (e.0@, e.1@)
}

/// Whether the request method `m` passes a rule's method filter:
/// `OPTIONS` always does, so that CORS preflight requests stay eligible
/// whatever method the follow-up request will use.
pub open spec fn method_passes(methods: Seq<Method>, m: Method) -> bool {
    methods.contains(m) || m == Method::Options
}

/// A wildcard pattern segment: one beginning with `:`.
pub open spec fn is_wildcard(seg: Seq<char>) -> bool {
    seg.len() > 0 && seg[0] == ':'
}

/// Whether one pattern segment accepts one request segment: wildcards
/// accept anything, literals only their exact text.
pub open spec fn seg_matches(rule_seg: Seq<char>, req_seg: Seq<char>) -> bool {
    is_wildcard(rule_seg) || rule_seg == req_seg
}

/// Whether one rule matches a request: the method filter passes, the
/// segment counts agree, and every pattern segment accepts the request
/// segment at its position.
pub open spec fn rule_matches(rule: (Seq<Method>, Seq<char>), m: Method, path: Seq<Seq<char>>) -> bool {
    &&& method_passes(rule.0, m)
    &&& pattern_segments(rule.1).len() == path.len()
    &&& forall|i: int| 0 <= i < path.len() ==> seg_matches(pattern_segments(rule.1)[i], path[i])
}

/// Whether any rule of the list matches the request.
pub open spec fn allowed(rules: Seq<(Seq<Method>, Seq<char>)>, m: Method, path: Seq<Seq<char>>) -> bool {
    exists|k: int| 0 <= k < rules.len() && rule_matches(rules[k], m, path)
}

fn starts_with_colon(s: &str) -> (r: bool)
    ensures
        r == is_wildcard(s@),
{
    s.unicode_len() > 0 && s.get_char(0) == ':'
}

/// Checks one rule against the request, abandoning it at the first
/// mismatching position. Because any mismatch aborts the walk at once,
/// keeping only the outcome of the last compared position is the same as
/// requiring every position to match, which is what `rule_matches` states.
fn endpoint_matches(endpoint: &CORSEndpoint, req: &Request) -> (r: bool)
    ensures
        r == rule_matches(rule_view(*endpoint), req.method, req.path_view()),
{
    if !method_in(&endpoint.0, req.method) && !(req.method == Method::Options) {
        return false;
    }
    let pat: Vec<String> = decompose_pattern(endpoint.1.as_str());
    if pat.len() != req.path.len() {
        return false;
    }
    let n = pat.len();
    let mut i: usize = 0;
    while i < n
        invariant
            n == pat@.len() == req.path@.len(),
            i <= n,
            texts_view(pat@) == pattern_segments(endpoint.1@),
            forall|j: int| 0 <= j < i ==> seg_matches(texts_view(pat@)[j], req.path_view()[j]),
        decreases n - i,
    {
        if !starts_with_colon(pat[i].as_str()) && !(pat[i] == req.path[i]) {
            assert(!seg_matches(texts_view(pat@)[i as int], req.path_view()[i as int]));
            return false;
        }
        assert(seg_matches(texts_view(pat@)[i as int], req.path_view()[i as int]));
        i = i + 1;
    }
    true
}

impl CORS {
    /// A filter allowing exactly the given endpoints, in the given order.
    pub fn new(endpoints: Vec<CORSEndpoint>) -> (c: CORS)
        ensures
            c.allowed_endpoints == endpoints,
    {
        CORS { allowed_endpoints: endpoints }
    }

    /// The rule list as a value: each entry's method list and pattern text.
    pub open spec fn rules(&self) -> Seq<(Seq<Method>, Seq<char>)> {
        self.allowed_endpoints@.map_values(|e: CORSEndpoint| rule_view(e))
    }

    /// Whether the request designates a CORS-enabled endpoint: true exactly
    /// when some configured rule matches its method and path.
    pub fn is_allowed(&self, req: &Request) -> (r: bool)
        ensures
            r == allowed(self.rules(), req.method, req.path_view()),
    {
        let n = self.allowed_endpoints.len();
        let mut k: usize = 0;
        while k < n
            invariant
                n == self.allowed_endpoints@.len(),
                k <= n,
                forall|j: int| 0 <= j < k ==> !rule_matches(#[trigger] self.rules()[j], req.method, req.path_view()),
            decreases n - k,
        {
            if endpoint_matches(&self.allowed_endpoints[k], req) {
                assert(rule_matches(self.rules()[k as int], req.method, req.path_view()));
                return true;
            }
            assert(!rule_matches(self.rules()[k as int], req.method, req.path_view()));
            k = k + 1;
        }
        false
    }
}

/// Matching is a pure function of its inputs: rule lists and requests that
/// agree as values always yield the same decision, and `is_allowed` returns
/// exactly this value, so two calls on equal inputs agree.
pub proof fn lemma_allowed_deterministic(
    rules1: Seq<(Seq<Method>, Seq<char>)>,
    rules2: Seq<(Seq<Method>, Seq<char>)>,
    m1: Method,
    m2: Method,
    path1: Seq<Seq<char>>,
    path2: Seq<Seq<char>>,
)
    requires
        rules1 == rules2,
        m1 == m2,
        path1 == path2,
    ensures
        allowed(rules1, m1, path1) == allowed(rules2, m2, path2),
{
}

/// A rule whose method list excludes the request's method can never cause a
/// match for that request, unless the method is `OPTIONS`.
pub proof fn lemma_method_filter_excludes(
    rule: (Seq<Method>, Seq<char>),
    m: Method,
    path: Seq<Seq<char>>,
)
    requires
        !rule.0.contains(m),
        m != Method::Options,
    ensures
        !rule_matches(rule, m, path),
{
}

/// `OPTIONS` passes the method filter of every rule, whatever methods the
/// rule declares.
pub proof fn lemma_options_passes_method_filter(methods: Seq<Method>)
    ensures
        method_passes(methods, Method::Options),
{
}

/// A rule whose pattern has a different number of segments than the request
/// path never matches, whatever its segments hold.
pub proof fn lemma_segment_count_mismatch(
    rule: (Seq<Method>, Seq<char>),
    m: Method,
    path: Seq<Seq<char>>,
)
    requires
        pattern_segments(rule.1).len() != path.len(),
    ensures
        !rule_matches(rule, m, path),
{
}

/// In a matching rule, a literal (non-wildcard) pattern segment equals the
/// request segment at its position exactly; a literal that differs rejects
/// the rule.
pub proof fn lemma_literal_segment_exact(
    rule: (Seq<Method>, Seq<char>),
    m: Method,
    path: Seq<Seq<char>>,
    i: int,
)
    requires
        rule_matches(rule, m, path),
        0 <= i < path.len(),
        !is_wildcard(pattern_segments(rule.1)[i]),
    ensures
        pattern_segments(rule.1)[i] == path[i],
{
    assert(seg_matches(pattern_segments(rule.1)[i], path[i]));
}

/// A wildcard pattern segment accepts any request segment at its position.
pub proof fn lemma_wildcard_matches_any(rule_seg: Seq<char>, req_seg: Seq<char>)
    requires
        is_wildcard(rule_seg),
    ensures
        seg_matches(rule_seg, req_seg),
{
}

} // verus!
