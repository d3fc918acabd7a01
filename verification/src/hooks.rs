//! The two lifecycle reactions the host server calls back into: one after a
//! downstream handler produced a response, one when it failed. Both are pure
//! value-to-value functions; the host owns the request loop and the wire.

use vstd::prelude::*;
use crate::matching::{CORS, Request, allowed};
use crate::method::Method;
use crate::response::{HeaderV, Response, ResponseV, cors_annotated};

verus! {

/// A failed handler outcome: the error's embedded response, which still
/// travels to the client and therefore needs CORS headers like any other.
pub struct HandlerError {
    pub response: Response,
}

impl CORS {
    /// Reaction to a successful downstream response. A preflight `OPTIONS`
    /// request discards the downstream response for a fresh empty `200 OK`;
    /// then, if the request matches a rule, the CORS headers are attached
    /// to whatever response is about to go out.
    pub fn after(&self, req: &Request, res: Response) -> (out: Response)
        ensures
            ({
                let base = if req.method == Method::Options {
                    ResponseV {
                        status: 200,
                        headers: Seq::<HeaderV>::empty(),
                        body: Seq::<char>::empty(),
                    }
                } else {
                    res@
                };
                if allowed(self.rules(), req.method, req.path_view()) {
                    &&& out@.status == base.status
                    &&& out@.body == base.body
                    &&& cors_annotated(base.headers, out@.headers)
                } else {
                    out@ == base
                }
            }),
    {
        let mut out = if req.method == Method::Options {
            Response::new(200)
        } else {
            res
        };
        if self.is_allowed(req) {
            CORS::add_headers(&mut out);
        }
        out
    }

    /// Reaction to a handler failure: if the request matches a rule, the
    /// CORS headers are attached to the error's embedded response, and the
    /// error itself travels on unchanged — annotation never swallows a
    /// failure.
    pub fn catch(&self, req: &Request, err: HandlerError) -> (out: HandlerError)
        ensures
            if allowed(self.rules(), req.method, req.path_view()) {
                &&& out.response@.status == err.response@.status
                &&& out.response@.body == err.response@.body
                &&& cors_annotated(err.response@.headers, out.response@.headers)
            } else {
                out.response@ == err.response@
            },
    {
        let mut out = err;
        if self.is_allowed(req) {
            CORS::add_headers(&mut out.response);
        }
        out
    }
}

} // verus!
