use dns_gate::server::handle_query;
use hickory_proto::op::{Message, MessageType, OpCode, Query, ResponseCode};
use hickory_proto::rr::{Name, RData, RecordType};

fn query_bytes(id: u16, questions: &[(&str, RecordType)]) -> Vec<u8> {
    let mut msg = Message::new();
    msg.set_id(id);
    msg.set_message_type(MessageType::Query);
    msg.set_op_code(OpCode::Query);
    msg.set_recursion_desired(true);
    for (name, rtype) in questions {
        msg.add_query(Query::query(Name::from_ascii(name).unwrap(), *rtype));
    }
    msg.to_vec().unwrap()
}

#[test]
fn a_query_is_answered_with_the_fixed_address() {
    let bytes = query_bytes(0x1234, &[("a.test.", RecordType::A)]);
    let reply = handle_query(&bytes, "192.0.2.1:53").expect("an A query deserves a reply");
    let resp = Message::from_vec(&reply).unwrap();

    assert_eq!(resp.id(), 0x1234);
    assert_eq!(resp.message_type(), MessageType::Response);
    assert_eq!(resp.response_code(), ResponseCode::NoError);
    assert!(resp.recursion_available());
    assert!(resp.authoritative());
    assert_eq!(resp.queries().len(), 1);
    assert_eq!(resp.answers().len(), 1);

    let answer = &resp.answers()[0];
    assert_eq!(answer.record_type(), RecordType::A);
    assert_eq!(answer.ttl(), 60);
    match answer.data() {
        Some(RData::A(a)) => assert_eq!(a.0.octets(), [127, 0, 0, 1]),
        other => panic!("expected an A record, got {:?}", other),
    }
}

#[test]
fn non_a_query_is_answered_without_records() {
    let bytes = query_bytes(0x2345, &[("a.test.", RecordType::AAAA)]);
    let reply = handle_query(&bytes, "192.0.2.1:53").unwrap();
    let resp = Message::from_vec(&reply).unwrap();

    assert_eq!(resp.id(), 0x2345);
    assert_eq!(resp.response_code(), ResponseCode::NoError);
    assert_eq!(resp.answers().len(), 0);
    assert_eq!(resp.queries().len(), 1);
}

#[test]
fn zero_questions_get_a_format_error_reply() {
    let mut msg = Message::new();
    msg.set_id(0x0BAD);
    msg.set_message_type(MessageType::Query);
    msg.set_op_code(OpCode::Query);
    let bytes = msg.to_vec().unwrap();

    let reply = handle_query(&bytes, "192.0.2.1:53").expect("a questionless envelope still gets a reply");
    let resp = Message::from_vec(&reply).unwrap();
    assert_eq!(resp.id(), 0x0BAD);
    assert_eq!(resp.response_code(), ResponseCode::FormErr);
    assert_eq!(resp.answers().len(), 0);
    assert_eq!(resp.queries().len(), 0);
}

#[test]
fn undecodable_bytes_are_dropped_in_silence() {
    assert!(handle_query(&[], "192.0.2.1:53").is_none());
    assert!(handle_query(&[0xff, 0x00, 0x13], "192.0.2.1:53").is_none());
    let truncated = {
        let bytes = query_bytes(1, &[("a.test.", RecordType::A)]);
        bytes[..10].to_vec()
    };
    assert!(handle_query(&truncated, "192.0.2.1:53").is_none());
}

#[test]
fn all_questions_are_echoed_back() {
    let bytes = query_bytes(
        0x3456,
        &[("a.test.", RecordType::A), ("b.test.", RecordType::AAAA)],
    );
    let reply = handle_query(&bytes, "192.0.2.1:53").unwrap();
    let resp = Message::from_vec(&reply).unwrap();
    assert_eq!(resp.queries().len(), 2);
    assert_eq!(resp.answers().len(), 1);
}
