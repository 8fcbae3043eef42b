use bups::snmp::{reply_for_status, SnmpAction, SnmpReply, SnmpRequest, GEN_ERR, NO_SUCH_NAME};
use rasn::types::{Integer, ObjectIdentifier, OctetString};
use rasn_smi::v1::{ObjectSyntax, SimpleSyntax};
use rasn_snmp::v1::{GetNextRequest, GetRequest, Message, Pdu, Pdus, VarBind};

const STATUS_OID: [u32; 14] = [1, 3, 6, 1, 4, 1, 2435, 3, 3, 9, 1, 6, 1, 0];
const SYS_DESCR: [u32; 9] = [1, 3, 6, 1, 2, 1, 1, 1, 0];

fn binding(oid: &[u32], value: ObjectSyntax) -> VarBind {
    VarBind { name: ObjectIdentifier::new_unchecked(oid.to_vec().into()), value }
}

fn null() -> ObjectSyntax {
    ObjectSyntax::Simple(SimpleSyntax::Empty)
}

fn pdu(request_id: i64, bindings: Vec<VarBind>) -> Pdu {
    Pdu {
        request_id: Integer::from(request_id),
        error_status: Integer::from(0),
        error_index: Integer::from(0),
        variable_bindings: bindings,
    }
}

fn datagram(data: Pdus) -> Vec<u8> {
    let msg = Message { version: Integer::from(0), community: OctetString::from(b"public".to_vec()), data };
    rasn::ber::encode(&msg).unwrap()
}

fn get_request(request_id: i64, bindings: Vec<VarBind>) -> Vec<u8> {
    datagram(Pdus::GetRequest(GetRequest(pdu(request_id, bindings))))
}

/// Decodes an answer and returns its community and GetResponse PDU.
fn response(bytes: &[u8]) -> (Vec<u8>, Pdu) {
    let msg: Message<Pdus> = rasn::ber::decode(bytes).expect("the answer decodes");
    assert_eq!(msg.version, Integer::from(0));
    match msg.data {
        Pdus::GetResponse(r) => (msg.community.to_vec(), r.0),
        other => panic!("not a GetResponse: {other:?}"),
    }
}

#[test]
fn a_get_for_the_status_oid_reads_the_printer() {
    let req = SnmpRequest::decode(&get_request(1, vec![binding(&STATUS_OID, null())])).expect("decodes");
    assert_eq!(req.community(), &b"public".to_vec());
    assert_eq!(req.action(), SnmpAction::ReadStatus);
}

#[test]
fn the_request_keeps_every_binding() {
    let bindings = vec![binding(&SYS_DESCR, null()), binding(&STATUS_OID, null())];
    let req = SnmpRequest::decode(&get_request(9, bindings)).expect("decodes");
    let get = req.get().as_ref().expect("a GetRequest");
    assert_eq!(get.request_id, vec![9]);
    assert_eq!(get.bindings.len(), 2);
    assert_eq!(get.bindings[0].name, SYS_DESCR.to_vec());
    assert_eq!(get.bindings[1].name, STATUS_OID.to_vec());
    // NULL in BER.
    assert_eq!(get.bindings[0].value, vec![0x05, 0x00]);
    // Only the first binding decides.
    assert_eq!(req.action(), SnmpAction::Reply(SnmpReply::Error { status: NO_SUCH_NAME, index: 1 }));
}

#[test]
fn a_get_for_another_oid_is_no_such_name() {
    let bindings = vec![binding(&SYS_DESCR, null())];
    let req = SnmpRequest::decode(&get_request(1, bindings.clone())).expect("decodes");
    assert_eq!(req.action(), SnmpAction::Reply(SnmpReply::Error { status: NO_SUCH_NAME, index: 1 }));
    let bytes = req.encode(&SnmpReply::Error { status: NO_SUCH_NAME, index: 1 }).expect("encodes");
    let back = SnmpRequest::decode(&bytes).expect("the answer decodes");
    assert_eq!(back.community(), &b"public".to_vec());
    // A GetResponse is not a GetRequest, so a responder would not answer it.
    assert_eq!(back.action(), SnmpAction::Ignore);
}

#[test]
fn an_error_answer_echoes_the_request() {
    let bindings = vec![
        binding(&SYS_DESCR, null()),
        binding(&STATUS_OID, ObjectSyntax::Simple(SimpleSyntax::Number(Integer::from(-7)))),
    ];
    let req = SnmpRequest::decode(&get_request(-123_456, bindings.clone())).expect("decodes");
    let bytes = req.encode(&SnmpReply::Error { status: NO_SUCH_NAME, index: 1 }).expect("encodes");
    let (community, answer) = response(&bytes);
    assert_eq!(community, b"public".to_vec());
    assert_eq!(answer.request_id, Integer::from(-123_456));
    assert_eq!(answer.error_status, Integer::from(2));
    assert_eq!(answer.error_index, Integer::from(1));
    assert_eq!(answer.variable_bindings, bindings);
}

#[test]
fn a_get_without_bindings_is_general_error_at_zero() {
    let req = SnmpRequest::decode(&get_request(77, vec![])).expect("decodes");
    assert_eq!(req.action(), SnmpAction::Reply(SnmpReply::Error { status: GEN_ERR, index: 0 }));
    let bytes = req.encode(&SnmpReply::Error { status: GEN_ERR, index: 0 }).expect("encodes");
    let (_, answer) = response(&bytes);
    assert_eq!(answer.request_id, Integer::from(77));
    assert_eq!(answer.error_status, Integer::from(5));
    assert_eq!(answer.error_index, Integer::from(0));
    assert!(answer.variable_bindings.is_empty());
}

#[test]
fn a_get_next_is_ignored() {
    let data = Pdus::GetNextRequest(GetNextRequest(pdu(1, vec![binding(&STATUS_OID, null())])));
    let req = SnmpRequest::decode(&datagram(data)).expect("decodes");
    assert!(req.get().is_none());
    assert_eq!(req.action(), SnmpAction::Ignore);
    assert!(req.encode(&SnmpReply::Value(vec![1, 2])).is_none());
}

#[test]
fn garbage_is_not_a_message() {
    assert!(SnmpRequest::decode(&[0xff, 0x00, 0x12]).is_none());
    assert!(SnmpRequest::decode(&[]).is_none());
}

#[test]
fn the_status_value_is_carried_in_the_answer() {
    let req = SnmpRequest::decode(&get_request(4242, vec![binding(&STATUS_OID, null())])).expect("decodes");
    let mut frame = vec![0u8; 32];
    frame[0] = 0x80;
    frame[1] = 0x20;
    let reply = reply_for_status(Some(frame.clone()));
    assert_eq!(reply, SnmpReply::Value(frame.clone()));
    let bytes = req.encode(&reply).expect("encodes");
    let (community, answer) = response(&bytes);
    assert_eq!(community, b"public".to_vec());
    assert_eq!(answer.request_id, Integer::from(4242));
    assert_eq!(answer.error_status, Integer::from(0));
    assert_eq!(answer.error_index, Integer::from(0));
    let expected = binding(&STATUS_OID, ObjectSyntax::Simple(SimpleSyntax::String(OctetString::from(frame))));
    assert_eq!(answer.variable_bindings, vec![expected]);
}

#[test]
fn a_busy_printer_is_general_error() {
    let reply = reply_for_status(None);
    assert_eq!(reply, SnmpReply::Error { status: GEN_ERR, index: 1 });
    let req = SnmpRequest::decode(&get_request(3, vec![binding(&STATUS_OID, null())])).expect("decodes");
    let (_, answer) = response(&req.encode(&reply).expect("encodes"));
    assert_eq!(answer.request_id, Integer::from(3));
    assert_eq!(answer.error_status, Integer::from(5));
    assert_eq!(answer.error_index, Integer::from(1));
    assert_eq!(answer.variable_bindings, vec![binding(&STATUS_OID, null())]);
}
