//! Request handlers: from a decoded query to an optional response.
//!
//! A handler may answer with `None`, meaning the datagram is dropped in
//! silence; that outcome is reserved for unsupported input and is not an
//! error. The provided [`StaticAHandler`] answers every A-type question with
//! one fixed address, and [`RuleHandler`] does the same only for names that
//! stand in the domain index; both answer a request without questions with a
//! format-error response, so the requester can still correlate the reply.

use vstd::prelude::*;
use crate::matcher::{spec_search, DomainRule};
use crate::message::{
    AnswerView, DnsAnswer, DnsQuestion, DnsRequest, DnsResponse, Ipv4, QTYPE_A, Rcode,
    RequestView, ResponseView,
};

verus! {

/// Time-to-live of the fixed answer record, in seconds.
pub const STATIC_TTL: u32 = 60;

/// The fixed address returned for every A-type question.
pub open spec fn spec_static_addr() -> Ipv4 {
    Ipv4 { a: 127, b: 0, c: 0, d: 1 }
}

/// A capability that turns a decoded query, together with the address it
/// came from, into an optional response. `spec_handle` pins each
/// implementation's behaviour; `handle` must return exactly that value.
pub trait DnsRequestHandler {
    /// What this handler answers to `req` from `peer`.
    spec fn spec_handle(&self, req: RequestView, peer: Seq<char>) -> Option<ResponseView>;

    /// Answer `req`, sent by `peer` (its rendered address), or drop it in
    /// silence with `None`.
    fn handle(&self, req: &DnsRequest, peer: &str) -> (r: Option<DnsResponse>)
        ensures
            match r {
                Some(resp) => self.spec_handle(req@, peer@) == Some(resp@),
                None => self.spec_handle(req@, peer@) is None,
            },
    ;
}

/// The response the static responder gives: echo the transaction id, the
/// recursion-desired flag and every question; answer the first question with
/// the fixed address when it asks for an A record, with no answer otherwise;
/// report format-error when the request carries no question at all.
pub open spec fn spec_static_response(req: RequestView) -> ResponseView {
    if req.questions.len() == 0 {
        ResponseView {
            id: req.id,
            recursion_desired: req.recursion_desired,
            recursion_available: true,
            authoritative: true,
            rcode: Rcode::FormErr,
            questions: Seq::empty(),
            answers: Seq::empty(),
        }
    } else {
        ResponseView {
            id: req.id,
            recursion_desired: req.recursion_desired,
            recursion_available: true,
            authoritative: true,
            rcode: Rcode::NoError,
            questions: req.questions,
            answers: if req.questions[0].qtype == QTYPE_A {
                seq![AnswerView {
                    name: req.questions[0].name,
                    ttl: STATIC_TTL,
                    addr: spec_static_addr(),
                }]
            } else {
                Seq::empty()
            },
        }
    }
}

/// Build the static responder's reply to `req`.
pub fn build_static_response(req: &DnsRequest) -> (resp: DnsResponse)
    ensures
        resp@ == spec_static_response(req@),
{
    if req.questions.len() == 0 {
        let resp = DnsResponse {
            id: req.id,
            recursion_desired: req.recursion_desired,
            recursion_available: true,
            authoritative: true,
            rcode: Rcode::FormErr,
            questions: Vec::new(),
            answers: Vec::new(),
        };
        proof {
            assert(resp@ =~= spec_static_response(req@));
        }
        resp
    } else {
        let mut questions: Vec<DnsQuestion> = Vec::new();
        let mut i: usize = 0;
        while i < req.questions.len()
            invariant
                i <= req.questions@.len(),
                questions@.len() == i as int,
                forall|k: int| 0 <= k < i ==> #[trigger] questions@[k]@ == req.questions@[k]@,
            decreases req.questions@.len() - i,
        {
            let q = &req.questions[i];
            questions.push(DnsQuestion { name: q.name.clone(), qtype: q.qtype });
            i += 1;
        }
        let first = &req.questions[0];
        let mut answers: Vec<DnsAnswer> = Vec::new();
        if first.qtype == QTYPE_A {
            answers.push(DnsAnswer {
                name: first.name.clone(),
                ttl: STATIC_TTL,
                addr: Ipv4 { a: 127, b: 0, c: 0, d: 1 },
            });
        }
        let resp = DnsResponse {
            id: req.id,
            recursion_desired: req.recursion_desired,
            recursion_available: true,
            authoritative: true,
            rcode: Rcode::NoError,
            questions,
            answers,
        };
        proof {
            assert(resp@.questions =~= spec_static_response(req@).questions);
            assert(resp@.answers =~= spec_static_response(req@).answers);
            assert(resp@ =~= spec_static_response(req@));
        }
        resp
    }
}

/// The provided handler: a fixed address for any A-type question.
pub struct StaticAHandler;

impl DnsRequestHandler for StaticAHandler {
    open spec fn spec_handle(&self, req: RequestView, peer: Seq<char>) -> Option<ResponseView> {
        Some(spec_static_response(req))
    }

    fn handle(&self, req: &DnsRequest, peer: &str) -> (r: Option<DnsResponse>) {
        Some(build_static_response(req))
    }
}

/// The response the index-backed responder gives: as the static responder,
/// except that an A-type question is answered only when its name stands in
/// the dictionary.
pub open spec fn spec_rule_response(dict: Seq<Seq<char>>, req: RequestView) -> ResponseView {
    if req.questions.len() > 0 && req.questions[0].qtype == QTYPE_A
        && spec_search(dict, req.questions[0].name) is None {
        ResponseView { answers: Seq::empty(), ..spec_static_response(req) }
    } else {
        spec_static_response(req)
    }
}

/// A responder that consults the domain index. An A-type question whose name
/// is a key of the dictionary is answered with the fixed address; a question
/// for any other name, or of any other type, falls through to a success
/// response with no answer — the index never blocks a query, it only decides
/// whether the address is attached. A request without questions is answered
/// format-error, as with [`StaticAHandler`].
pub struct RuleHandler {
    rule: DomainRule,
}

impl RuleHandler {
    /// The dictionary the handler consults.
    pub closed spec fn dict(&self) -> Seq<Seq<char>> {
        self.rule@
    }

    /// Wrap the built index.
    pub fn new(rule: DomainRule) -> (h: RuleHandler)
        ensures
            h.dict() == rule@,
    {
        RuleHandler { rule }
    }
}

impl DnsRequestHandler for RuleHandler {
    open spec fn spec_handle(&self, req: RequestView, peer: Seq<char>) -> Option<ResponseView> {
        Some(spec_rule_response(self.dict(), req))
    }

    fn handle(&self, req: &DnsRequest, peer: &str) -> (r: Option<DnsResponse>) {
        let mut resp = build_static_response(req);
        if req.questions.len() > 0 {
            let q = &req.questions[0];
            if q.qtype == QTYPE_A && self.rule.search_domain(q.name.as_str()).is_none() {
                resp.answers = Vec::new();
                proof {
                    assert(resp@ =~= spec_rule_response(self.dict(), req@));
                }
            }
        }
        Some(resp)
    }
}

} // verus!
