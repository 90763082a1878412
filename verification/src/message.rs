//! Plain model of the DNS messages this server reads and writes.
//!
//! A datagram is decoded into a [`DnsRequest`] and a reply is encoded from a
//! [`DnsResponse`]; both hold nothing but plain values, so the logic over
//! them is verified. The wire codec itself comes from the `hickory_proto`
//! crate and is trusted through the two wrappers at the end of this file:
//! parsing and encoding are functions of the bytes and of the response value
//! alone, named by `parsed_request` and `encoded_response`.

use vstd::prelude::*;
use hickory_proto::op::{Message, MessageType, OpCode, Query, ResponseCode};
use hickory_proto::rr::rdata::A;
use hickory_proto::rr::{Name, RData, Record, RecordType};

verus! {

/// DNS record-type code of an A record.
pub const QTYPE_A: u16 = 1;

/// One question of a request: the queried name and the record-type code.
#[derive(Clone)]
pub struct DnsQuestion {
    pub name: String,
    pub qtype: u16,
}

/// Spec-level value of a [`DnsQuestion`].
#[verifier::ext_equal]
pub struct QuestionView {
    pub name: Seq<char>,
    pub qtype: u16,
}

impl View for DnsQuestion {
    type V = QuestionView;

    open spec fn view(&self) -> QuestionView {
        QuestionView { name: self.name@, qtype: self.qtype }
    }
}

/// An IPv4 address as four plain octets.
#[derive(Clone, Copy, PartialEq, Eq, Structural, Debug)]
pub struct Ipv4 {
    pub a: u8,
    pub b: u8,
    pub c: u8,
    pub d: u8,
}

/// One answer record: only address records are ever produced here.
pub struct DnsAnswer {
    pub name: String,
    pub ttl: u32,
    pub addr: Ipv4,
}

/// Spec-level value of a [`DnsAnswer`].
#[verifier::ext_equal]
pub struct AnswerView {
    pub name: Seq<char>,
    pub ttl: u32,
    pub addr: Ipv4,
}

impl View for DnsAnswer {
    type V = AnswerView;

    open spec fn view(&self) -> AnswerView {
        AnswerView { name: self.name@, ttl: self.ttl, addr: self.addr }
    }
}

/// A decoded query message: transaction id, the recursion-desired flag, and
/// the question section.
pub struct DnsRequest {
    pub id: u16,
    pub recursion_desired: bool,
    pub questions: Vec<DnsQuestion>,
}

/// Spec-level value of a [`DnsRequest`].
#[verifier::ext_equal]
pub struct RequestView {
    pub id: u16,
    pub recursion_desired: bool,
    pub questions: Seq<QuestionView>,
}

/// The views of a sequence of questions.
pub open spec fn question_views(qs: Seq<DnsQuestion>) -> Seq<QuestionView> {
    qs.map_values(|q: DnsQuestion| q@)
}

impl View for DnsRequest {
    type V = RequestView;

    open spec fn view(&self) -> RequestView {
        RequestView {
            id: self.id,
            recursion_desired: self.recursion_desired,
            questions: question_views(self.questions@),
        }
    }
}

/// The response codes this server uses: success, and format-error for a
/// well-formed envelope that carries no question.
#[derive(Clone, Copy, PartialEq, Eq, Structural, Debug)]
pub enum Rcode {
    NoError,
    FormErr,
}

/// The RCODE value a response code stands for on the wire.
pub open spec fn spec_wire_code(rc: Rcode) -> u8 {
    match rc {
        Rcode::NoError => 0u8,
        Rcode::FormErr => 1u8,
    }
}

impl Rcode {
    /// The wire RCODE value: 0 for success, 1 for format-error.
    pub fn wire_code(&self) -> (c: u8)
        ensures
            c == spec_wire_code(*self),
    {
        match self {
            Rcode::NoError => 0,
            Rcode::FormErr => 1,
        }
    }
}

/// A response message about to be encoded.
pub struct DnsResponse {
    pub id: u16,
    pub recursion_desired: bool,
    pub recursion_available: bool,
    pub authoritative: bool,
    pub rcode: Rcode,
    pub questions: Vec<DnsQuestion>,
    pub answers: Vec<DnsAnswer>,
}

/// Spec-level value of a [`DnsResponse`].
#[verifier::ext_equal]
pub struct ResponseView {
    pub id: u16,
    pub recursion_desired: bool,
    pub recursion_available: bool,
    pub authoritative: bool,
    pub rcode: Rcode,
    pub questions: Seq<QuestionView>,
    pub answers: Seq<AnswerView>,
}

impl View for DnsResponse {
    type V = ResponseView;

    open spec fn view(&self) -> ResponseView {
        ResponseView {
            id: self.id,
            recursion_desired: self.recursion_desired,
            recursion_available: self.recursion_available,
            authoritative: self.authoritative,
            rcode: self.rcode,
            questions: question_views(self.questions@),
            answers: self.answers@.map_values(|a: DnsAnswer| a@),
        }
    }
}

/// The request that a byte sequence parses to, or `None` when the bytes are
/// not a well-formed DNS message.
pub uninterp spec fn parsed_request(bytes: Seq<u8>) -> Option<RequestView>;

/// The bytes a response value encodes to, or `None` when it cannot be
/// encoded (a question name that is not a valid DNS name, say).
pub uninterp spec fn encoded_response(resp: ResponseView) -> Option<Seq<u8>>;

/// Relies on `hickory_proto::op::Message::from_vec` together with the
/// accessors `Message::{id, recursion_desired, queries}`,
/// `Query::{name, query_type}` and `Name::to_ascii`: parsing is a function of
/// the bytes alone, and the wrapper only copies the parsed fields out.
#[verifier::external_body]
pub(crate) fn decode_request(payload: &[u8]) -> (r: Option<DnsRequest>)
    ensures
        match r {
            Some(req) => parsed_request(payload@) == Some(req@),
            None => parsed_request(payload@) is None,
        },
{
    let msg = match Message::from_vec(payload) {
        Ok(m) => m,
        Err(_) => return None,
    };
    let questions = msg
        .queries()
        .iter()
        .map(|q| DnsQuestion { name: q.name().to_ascii(), qtype: u16::from(q.query_type()) })
        .collect();
    Some(DnsRequest { id: msg.id(), recursion_desired: msg.recursion_desired(), questions })
}

/// hickory_proto's DNS message, held opaque: it is only built up and
/// serialized inside the trusted wrappers below.
#[verifier::external_type_specification]
#[verifier::external_body]
pub struct ExMessage(Message);

/// Relies on `Message::add_query` with `Query::query`, `Name::from_ascii` and
/// `From<u16> for RecordType`: append each question to the message's question
/// section; false when a name is not a valid DNS name.
#[verifier::external_body]
fn add_questions(msg: &mut Message, questions: &Vec<DnsQuestion>) -> (ok: bool)
{
    for q in questions.iter() {
        let name = match Name::from_ascii(&q.name) { Ok(n) => n, Err(_) => return false };
        msg.add_query(Query::query(name, RecordType::from(q.qtype)));
    }
    true
}

/// Relies on `Message::add_answer` with `Record::from_rdata`, `A::new` and
/// `Name::from_ascii`: append each answer as an A record to the message's
/// answer section; false when a name is not a valid DNS name.
#[verifier::external_body]
fn add_answers(msg: &mut Message, answers: &Vec<DnsAnswer>) -> (ok: bool)
{
    for a in answers.iter() {
        let name = match Name::from_ascii(&a.name) { Ok(n) => n, Err(_) => return false };
        let ip = A::new(a.addr.a, a.addr.b, a.addr.c, a.addr.d);
        msg.add_answer(Record::from_rdata(name, a.ttl, RData::A(ip)));
    }
    true
}

/// Relies on `hickory_proto::op::Message::to_vec` together with the `Message`
/// setters and `ResponseCode::from_low`: encoding is a function of the
/// response value alone, and the wrapper only copies the fields in.
#[verifier::external_body]
pub(crate) fn encode_response(resp: &DnsResponse) -> (r: Option<Vec<u8>>)
    ensures
        match r {
            Some(bytes) => encoded_response(resp@) == Some(bytes@),
            None => encoded_response(resp@) is None,
        },
{
    let mut msg = Message::new();
    msg.set_id(resp.id).set_message_type(MessageType::Response).set_op_code(OpCode::Query);
    msg.set_recursion_desired(resp.recursion_desired).set_recursion_available(resp.recursion_available);
    msg.set_authoritative(resp.authoritative).set_response_code(ResponseCode::from_low(resp.rcode.wire_code()));
    if !add_questions(&mut msg, &resp.questions) {
        return None;
    }
    if !add_answers(&mut msg, &resp.answers) {
        return None;
    }
    msg.to_vec().ok()
}

} // verus!
