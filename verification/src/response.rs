//! The response annotator: a response with a status, a body, and a header
//! collection keyed by case-insensitive names, and the operation that
//! attaches the standard CORS permission headers to it.

use vstd::prelude::*;
use crate::text::{ci_eq, eq_ignore_case, lower, texts_view};

verus! {

/// One response header: a name and its list of values.
pub struct Header {
    pub name: String,
    pub values: Vec<String>,
}

/// The value of one header entry: the name's and the values' characters.
pub ghost struct HeaderV {
    pub name: Seq<char>,
    pub values: Seq<Seq<char>>,
}

impl View for Header {
    type V = HeaderV;

    open spec fn view(&self) -> HeaderV {
        HeaderV { name: self.name@, values: texts_view(self.values@) }
    }
}

/// The view of a header list: each entry replaced by its value.
pub open spec fn headers_view(h: Seq<Header>) -> Seq<HeaderV> {
    h.map_values(|e: Header| e@)
}

/// The values stored under the first entry whose name equals `n` up to
/// ASCII case, if any: header names are case-insensitive.
pub open spec fn lookup(h: Seq<HeaderV>, n: Seq<char>) -> Option<Seq<Seq<char>>>
    decreases h.len(),
{
    if h.len() == 0 {
        None
    } else if ci_eq(h[0].name, n) {
        Some(h[0].values)
    } else {
        lookup(h.skip(1), n)
    }
}

proof fn lemma_lookup_push(h: Seq<HeaderV>, e: HeaderV, n: Seq<char>)
    ensures
        lookup(h.push(e), n) == (if lookup(h, n) is Some {
            lookup(h, n)
        } else if ci_eq(e.name, n) {
            Some(e.values)
        } else {
            None::<Seq<Seq<char>>>
        }),
    decreases h.len(),
{
    if h.len() == 0 {
        assert(h.push(e)[0] == e);
        assert(h.push(e).skip(1) =~= Seq::<HeaderV>::empty());
        assert(lookup(h, n) is None);
        assert(lookup(h.push(e).skip(1), n) is None);
    } else {
        assert(h.push(e)[0] == h[0]);
        assert(h.push(e).skip(1) =~= h.skip(1).push(e));
        lemma_lookup_push(h.skip(1), e, n);
    }
}

/// The name of the header granting an origin leave to read the response.
pub open spec fn allow_origin_name() -> Seq<char> {
    "access-control-allow-origin"@
}

/// The name of the header listing the request headers a cross-origin
/// request may carry.
pub open spec fn allow_headers_name() -> Seq<char> {
    "access-control-allow-headers"@
}

/// The name of the header listing the methods a cross-origin request may
/// use.
pub open spec fn allow_methods_name() -> Seq<char> {
    "access-control-allow-methods"@
}

/// The one allowed-origin value the filter grants: any origin.
pub open spec fn allow_origin_values() -> Seq<Seq<char>> {
    seq!["*"@]
}

/// The request headers the filter allows, as a case-insensitive set held in
/// lower case.
pub open spec fn allow_headers_values() -> Seq<Seq<char>> {
    seq!["accept"@, "authorization"@, "content-type"@]
}

/// The fixed method list the filter advertises, independent of the matched
/// rule's own method set.
pub open spec fn allow_methods_values() -> Seq<Seq<char>> {
    seq!["GET"@, "POST"@, "PUT"@, "DELETE"@]
}

/// What annotation leaves behind: the three CORS headers hold exactly their
/// fixed values, and every header under any other name keeps the values it
/// had in `base`.
pub open spec fn cors_annotated(base: Seq<HeaderV>, h: Seq<HeaderV>) -> bool {
    &&& lookup(h, allow_origin_name()) == Some(allow_origin_values())
    &&& lookup(h, allow_headers_name()) == Some(allow_headers_values())
    &&& lookup(h, allow_methods_name()) == Some(allow_methods_values())
    &&& forall|n: Seq<char>|
        !ci_eq(n, allow_origin_name()) && !ci_eq(n, allow_headers_name())
            && !ci_eq(n, allow_methods_name()) ==> #[trigger] lookup(h, n) == lookup(base, n)
}

/// The three CORS header names differ even up to case: the first differs
/// from the others in length, the last two at the character after
/// `access-control-allow-`.
pub proof fn lemma_cors_names_distinct()
    ensures
        !ci_eq(allow_origin_name(), allow_headers_name()),
        !ci_eq(allow_origin_name(), allow_methods_name()),
        !ci_eq(allow_headers_name(), allow_methods_name()),
{
    reveal_strlit("access-control-allow-origin");
    reveal_strlit("access-control-allow-headers");
    reveal_strlit("access-control-allow-methods");
    assert(lower(allow_origin_name()).len() == 27);
    assert(lower(allow_headers_name()).len() == 28);
    assert(lower(allow_methods_name()).len() == 28);
    assert(allow_headers_name()[21] == 'h');
    assert(allow_methods_name()[21] == 'm');
    assert(lower(allow_headers_name())[21] == 'h');
    assert(lower(allow_methods_name())[21] == 'm');
}

/// A response as the filter sees it: a mutable status, a body, and a header
/// collection supporting set/overwrite by name.
pub struct Response {
    pub status: u16,
    pub headers: Vec<Header>,
    pub body: String,
}

/// The value of a response: its status, headers, and body text.
pub ghost struct ResponseV {
    pub status: u16,
    pub headers: Seq<HeaderV>,
    pub body: Seq<char>,
}

impl View for Response {
    type V = ResponseV;

    open spec fn view(&self) -> ResponseV {
        ResponseV {
            status: self.status,
            headers: headers_view(self.headers@),
            body: self.body@,
        }
    }
}

impl Response {
    /// A fresh response with the given status, no headers, and an empty
    /// body.
    pub fn new(status: u16) -> (r: Response)
        ensures
            r@.status == status,
            r@.headers == Seq::<HeaderV>::empty(),
            r@.body == Seq::<char>::empty(),
    {
        let r = Response { status, headers: Vec::new(), body: String::new() };
        proof {
            assert(r@.headers =~= Seq::<HeaderV>::empty());
        }
        r
    }

    /// Stores `values` under `name`, overwriting any entry whose name is
    /// equal up to ASCII case; every other entry keeps its values.
    pub fn set_header(&mut self, name: String, values: Vec<String>)
        ensures
            final(self)@.status == old(self)@.status,
            final(self)@.body == old(self)@.body,
            forall|n: Seq<char>| ci_eq(n, name@) ==> #[trigger] lookup(final(self)@.headers, n)
                == Some(texts_view(values@)),
            forall|n: Seq<char>| !ci_eq(n, name@) ==> #[trigger] lookup(final(self)@.headers, n)
                == lookup(old(self)@.headers, n),
    {
        let ghost all = headers_view(old(self).headers@);
        let mut rest: Vec<Header> = Vec::new();
        core::mem::swap(&mut self.headers, &mut rest);
        let ghost total = rest@.len() as int;
        proof {
            assert(headers_view(self.headers@) =~= Seq::<HeaderV>::empty());
            assert(headers_view(rest@) =~= all);
            assert(all.take(0) =~= Seq::<HeaderV>::empty());
        }
        while rest.len() > 0
            invariant
                self.status == old(self).status,
                self.body == old(self).body,
                headers_view(rest@) =~= all.skip(total - rest@.len()),
                0 <= total - rest@.len() <= total == all.len(),
                forall|n: Seq<char>| ci_eq(n, name@) ==> #[trigger] lookup(
                    headers_view(self.headers@), n) is None,
                forall|n: Seq<char>| !ci_eq(n, name@) ==> #[trigger] lookup(
                    headers_view(self.headers@), n)
                    == lookup(all.take(total - rest@.len()), n),
            decreases rest@.len(),
        {
            let ghost p = total - rest@.len();
            let ghost rest0 = rest@;
            let ghost kept = headers_view(self.headers@);
            let entry = rest.remove(0);
            proof {
                assert(rest@ =~= rest0.skip(1));
                assert(headers_view(rest@) =~= headers_view(rest0).skip(1));
                assert(headers_view(rest0).skip(1) =~= all.skip(p).skip(1));
                assert(all.skip(p).skip(1) =~= all.skip(p + 1));
                assert(entry@ == all.skip(p)[0]);
                assert(all.skip(p)[0] == all[p]);
                assert(all.take(p + 1) =~= all.take(p).push(all[p]));
            }
            if !eq_ignore_case(entry.name.as_str(), name.as_str()) {
                proof {
                    assert forall|n: Seq<char>| ci_eq(n, name@) implies lookup(
                        kept.push(entry@), n) is None by {
                        lemma_lookup_push(kept, entry@, n);
                    }
                    assert forall|n: Seq<char>| !ci_eq(n, name@) implies lookup(
                        kept.push(entry@), n) == lookup(all.take(p + 1), n) by {
                        lemma_lookup_push(kept, entry@, n);
                        lemma_lookup_push(all.take(p), all[p], n);
                    }
                    assert(headers_view(self.headers@.push(entry)) =~= kept.push(entry@));
                }
                self.headers.push(entry);
            } else {
                proof {
                    assert forall|n: Seq<char>| !ci_eq(n, name@) implies lookup(
                        kept, n) == lookup(all.take(p + 1), n) by {
                        lemma_lookup_push(all.take(p), all[p], n);
                        assert(!ci_eq(entry@.name, n));
                    }
                }
            }
        }
        proof {
            assert(all.take(total) =~= all);
        }
        let ghost kept = headers_view(self.headers@);
        let entry = Header { name, values };
        let ghost entry_v = entry@;
        self.headers.push(entry);
        proof {
            assert(headers_view(self.headers@) =~= kept.push(entry_v));
            assert forall|n: Seq<char>| ci_eq(n, name@) implies #[trigger] lookup(
                headers_view(self.headers@), n) == Some(texts_view(values@)) by {
                lemma_lookup_push(kept, entry_v, n);
                assert(lookup(headers_view(self.headers@), n) == lookup(kept.push(entry_v), n));
            }
            assert forall|n: Seq<char>| !ci_eq(n, name@) implies #[trigger] lookup(
                headers_view(self.headers@), n) == lookup(all, n) by {
                lemma_lookup_push(kept, entry_v, n);
                assert(lookup(headers_view(self.headers@), n) == lookup(kept.push(entry_v), n));
            }
        }
    }

    /// The values stored under `name`, compared case-insensitively, if any.
    pub fn get_header<'a>(&'a self, name: &str) -> (r: Option<&'a Vec<String>>)
        ensures
            match r {
                Some(v) => lookup(self@.headers, name@) == Some(texts_view(v@)),
                None => lookup(self@.headers, name@) is None,
            },
    {
        let n = self.headers.len();
        let mut i: usize = 0;
        proof {
            assert(headers_view(self.headers@).skip(0) =~= headers_view(self.headers@));
        }
        while i < n
            invariant
                n == self.headers@.len(),
                i <= n,
                lookup(self@.headers, name@) == lookup(
                    headers_view(self.headers@).skip(i as int), name@),
            decreases n - i,
        {
            proof {
                let h = headers_view(self.headers@);
                assert(h.skip(i as int)[0] == h[i as int]);
                assert(h.skip(i as int).skip(1) =~= h.skip(i + 1));
            }
            if eq_ignore_case(self.headers[i].name.as_str(), name) {
                return Some(&self.headers[i].values);
            }
            i = i + 1;
        }
        proof {
            assert(headers_view(self.headers@).skip(n as int) =~= Seq::<HeaderV>::empty());
        }
        None
    }
}

impl crate::matching::CORS {
    /// Attaches the standard CORS permission headers, overwriting any prior
    /// values: any origin, the accepted request headers, and a fixed method
    /// list independent of whatever rule matched. Status, body, and all
    /// other headers stay as they were.
    pub fn add_headers(res: &mut Response)
        ensures
            final(res)@.status == old(res)@.status,
            final(res)@.body == old(res)@.body,
            cors_annotated(old(res)@.headers, final(res)@.headers),
    {
        proof {
            lemma_cors_names_distinct();
        }
        let mut origin_values: Vec<String> = Vec::new();
        origin_values.push(String::from_str("*"));
        proof {
            assert(texts_view(origin_values@) =~= allow_origin_values());
        }
        res.set_header(String::from_str("access-control-allow-origin"), origin_values);

        let mut header_values: Vec<String> = Vec::new();
        header_values.push(String::from_str("accept"));
        header_values.push(String::from_str("authorization"));
        header_values.push(String::from_str("content-type"));
        proof {
            assert(texts_view(header_values@) =~= allow_headers_values());
        }
        res.set_header(String::from_str("access-control-allow-headers"), header_values);

        let mut method_values: Vec<String> = Vec::new();
        method_values.push(String::from_str("GET"));
        method_values.push(String::from_str("POST"));
        method_values.push(String::from_str("PUT"));
        method_values.push(String::from_str("DELETE"));
        proof {
            assert(texts_view(method_values@) =~= allow_methods_values());
        }
        res.set_header(String::from_str("access-control-allow-methods"), method_values);
    }
}

} // verus!
