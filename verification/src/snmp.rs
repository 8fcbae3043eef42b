//! SNMP answers for printer status queries.
//!
//! The responder serves one object, the Brother status OID
//! `1.3.6.1.4.1.2435.3.3.9.1.6.1.0`, whose value is the raw 32-byte status
//! frame. Messages are SNMPv1 in BER, which `rasn` decodes and encodes; what
//! is answered is decided here.
use vstd::prelude::*;
use rasn_snmp::v1::GetRequest;
use rasn_snmp::v1::GetResponse;
use rasn_snmp::v1::Message;
use rasn_snmp::v1::Pdu;
use rasn_snmp::v1::Pdus;
use rasn_snmp::v1::VarBind;
use rasn::types::Integer;
use rasn::types::IntegerType;
use rasn::Codec;
use rasn::types::ObjectIdentifier;
use rasn::types::OctetString;
use rasn_smi::v1::ObjectSyntax;
use rasn_smi::v1::SimpleSyntax;

verus! {

/// RFC 1157 error-status `noSuchName`.
pub const NO_SUCH_NAME: u32 = 2;

/// RFC 1157 error-status `genErr`.
pub const GEN_ERR: u32 = 5;

/// The Brother status OID.
pub open spec fn brother_status_oid() -> Seq<u32> {
    seq![1, 3, 6, 1, 4, 1, 2435, 3, 3, 9, 1, 6, 1, 0]
}

/// The arcs of the Brother status OID.
pub fn brother_status_arcs() -> (r: Vec<u32>)
    ensures
        r@ == brother_status_oid(),
{
    let r: Vec<u32> = vec![1, 3, 6, 1, 4, 1, 2435, 3, 3, 9, 1, 6, 1, 0];
    assert(r@ =~= brother_status_oid());
    r
}

/// The view of a variable binding: its OID, and its value in BER.
pub type BindingView = (Seq<u32>, Seq<u8>);

/// The view of a GetRequest PDU: its request ID, and its bindings.
pub type GetView = (Seq<u8>, Seq<BindingView>);

/// The view of a received message: its community, and the PDU when the
/// message is a GetRequest.
pub type RequestView = (Seq<u8>, Option<GetView>);

/// One SNMPv1 variable binding as the responder carries it: the OID, and the
/// value (an SMI `ObjectSyntax`) in its BER encoding, which the responder
/// never reads and only echoes.
#[derive(Clone, Debug, PartialEq, Eq)]
pub struct SnmpBinding {
    pub name: Vec<u32>,
    pub value: Vec<u8>,
}

impl View for SnmpBinding {
    type V = BindingView;

    open spec fn view(&self) -> BindingView {
        (self.name@, self.value@)
    }
}

/// The views of a list of bindings.
pub open spec fn binding_views(bindings: Seq<SnmpBinding>) -> Seq<BindingView> {
    bindings.map_values(|b: SnmpBinding| b@)
}

/// The PDU of a GetRequest: the request ID, an INTEGER held as its
/// two's-complement big-endian octets, and the variable bindings.
#[derive(Clone, Debug, PartialEq, Eq)]
pub struct SnmpGet {
    pub request_id: Vec<u8>,
    pub bindings: Vec<SnmpBinding>,
}

impl View for SnmpGet {
    type V = GetView;

    open spec fn view(&self) -> GetView {
        (self.request_id@, binding_views(self.bindings@))
    }
}

/// The view of an optional GetRequest PDU.
pub open spec fn get_view(get: Option<SnmpGet>) -> Option<GetView> {
    match get {
        Some(g) => Some(g@),
        None => None,
    }
}

/// An OID that `rasn`'s BER encoder accepts: at least two arcs, a first arc
/// of at most 2, and the first two arcs packed as `first * 40 + second`
/// within a `u32`.
pub open spec fn oid_encodable(oid: Seq<u32>) -> bool {
    &&& oid.len() >= 2
    &&& oid[0] <= 2
    &&& oid[0] * 40 + oid[1] <= u32::MAX
}

/// Whether `rasn::ber::decode::<ObjectSyntax>` accepts these bytes.
pub uninterp spec fn value_decodes(bytes: Seq<u8>) -> bool;

/// What a decoded GetRequest PDU always satisfies: a request ID of at least
/// one octet, encodable OIDs, and values that decode again.
pub open spec fn get_wf(get: GetView) -> bool {
    &&& get.0.len() > 0
    &&& forall|i: int|
        0 <= i < get.1.len() ==> oid_encodable(#[trigger] get.1[i].0) && value_decodes(get.1[i].1)
}

/// What a decoded request always satisfies.
pub open spec fn request_wf(req: RequestView) -> bool {
    match req.1 {
        Some(g) => get_wf(g),
        None => true,
    }
}

/// What `rasn::ber::decode::<Message<Pdus>>` makes of a datagram, read as
/// the responder reads it: nothing when decoding fails, else the community
/// and, for a GetRequest, its request ID and bindings (each value
/// re-encoded in BER).
pub uninterp spec fn ber_message(bytes: Seq<u8>) -> Option<(Seq<u8>, Option<(Seq<u8>, Seq<(Seq<u32>, Seq<u8>)>)>)>;

/// What `rasn::ber::encode` makes of the SNMPv1 message with this version
/// and community whose PDU is a GetResponse with this request ID (octets of
/// an INTEGER), error status, error index and bindings (values in BER):
/// nothing when encoding fails.
pub uninterp spec fn ber_get_response(
    version: u32,
    community: Seq<u8>,
    request_id: Seq<u8>,
    error_status: u32,
    error_index: u32,
    bindings: Seq<(Seq<u32>, Seq<u8>)>,
) -> Option<Seq<u8>>;

/// What `rasn::ber::encode` makes of an SMI value that is an OCTET STRING
/// holding these bytes.
pub uninterp spec fn ber_string_value(bytes: Seq<u8>) -> Seq<u8>;

/// The view of optional bytes.
pub open spec fn opt_bytes(r: Option<Vec<u8>>) -> Option<Seq<u8>> {
    match r {
        Some(b) => Some(b@),
        None => None,
    }
}

/// Decodes a datagram as an SNMPv1 message: its community and, for a
/// GetRequest, the request ID and every variable binding, in order.
///
/// Wraps `rasn::ber::decode::<Message<Pdus>>`; the request ID is converted
/// with `to_signed_bytes_be` and each value with `rasn::ber::encode`. The
/// contract claims that the result is what [`ber_message`] names, and what
/// `rasn`'s decoder guarantees of what it produces: the request ID has at
/// least one octet (the fewest that hold it), each OID has at least two arcs
/// with the first two packed in a `u32` (`ber/de.rs` splits the first
/// subidentifier into them), and each value's encoding decodes again.
#[verifier::external_body]
fn ber_decode_message(bytes: &[u8]) -> (r: Option<(Vec<u8>, Option<SnmpGet>)>)
    ensures
        match r {
            Some((community, get)) => {
                &&& ber_message(bytes@) == Some((community@, get_view(get)))
                &&& get matches Some(g) ==> get_wf(g@)
            },
            None => ber_message(bytes@) is None,
        },
{
    let m = rasn::ber::decode::<Message<Pdus>>(bytes).ok()?;
    let Pdus::GetRequest(GetRequest(pdu)) = m.data else {
        return Some((m.community.to_vec(), None));
    };
    let (id, len) = pdu.request_id.to_signed_bytes_be();
    let bindings = pdu.variable_bindings.iter().map(|vb| Some(SnmpBinding {
        name: vb.name.to_vec(),
        value: rasn::ber::encode(&vb.value).ok()?,
    })).collect::<Option<Vec<SnmpBinding>>>()?;
    let get = SnmpGet { request_id: id.as_ref()[..len].to_vec(), bindings };
    Some((m.community.to_vec(), Some(get)))
}

/// Encodes the SNMPv1 message with `version` and `community` whose PDU is a
/// GetResponse with `request_id`, `error_status`, `error_index` and
/// `bindings`.
///
/// Wraps `rasn::ber::encode::<Message<GetResponse>>`; the request ID is
/// converted with `Integer::try_from_signed_bytes` and each value with
/// `rasn::ber::decode::<ObjectSyntax>`. The contract claims that the result
/// is what [`ber_get_response`] names; that it is produced when the request
/// ID has an octet and every value decodes (the BER encoder fails only on an
/// OID that `oid_encodable` rules out, and the conversions fail only on an
/// empty ID or an undecodable value); and that the bytes decode again as a
/// message for `community` that is no GetRequest.
#[verifier::external_body]
fn ber_encode_get_response(
    version: u32,
    community: &Vec<u8>,
    request_id: &Vec<u8>,
    error_status: u32,
    error_index: u32,
    bindings: &Vec<SnmpBinding>,
) -> (r: Option<Vec<u8>>)
    requires
        forall|i: int| 0 <= i < bindings.len() ==> oid_encodable(#[trigger] bindings@[i].name@),
    ensures
        opt_bytes(r) == ber_get_response(
            version,
            community@,
            request_id@,
            error_status,
            error_index,
            binding_views(bindings@),
        ),
        request_id@.len() > 0 && (forall|i: int|
            0 <= i < bindings.len() ==> value_decodes(#[trigger] bindings@[i].value@)) ==> r is Some,
        r matches Some(b) ==> ber_message(b@) == Some((community@, None::<GetView>)),
{
    let variable_bindings = bindings.iter().map(|b| Some(VarBind {
        name: ObjectIdentifier::new_unchecked(b.name.clone().into()),
        value: rasn::ber::decode::<ObjectSyntax>(&b.value).ok()?,
    })).collect::<Option<Vec<VarBind>>>()?;
    let request_id = Integer::try_from_signed_bytes(request_id, Codec::Ber).ok()?;
    let (error_status, error_index) = (Integer::from(error_status), Integer::from(error_index));
    let data = GetResponse(Pdu { request_id, error_status, error_index, variable_bindings });
    let message = Message { version: Integer::from(version), community: OctetString::from(community.clone()), data };
    rasn::ber::encode(&message).ok()
}

/// The BER encoding of the SMI value that is an OCTET STRING holding
/// `bytes`.
///
/// Wraps `rasn::ber::encode::<ObjectSyntax>`. The contract claims that the
/// encoding is produced (an unconstrained OCTET STRING has nothing to fail
/// on), that it is what [`ber_string_value`] names, and that it decodes
/// again.
#[verifier::external_body]
fn ber_octet_string_value(bytes: &Vec<u8>) -> (r: Option<Vec<u8>>)
    ensures
        r is Some,
        r.unwrap()@ == ber_string_value(bytes@),
        value_decodes(r.unwrap()@),
{
    let value = ObjectSyntax::Simple(SimpleSyntax::String(OctetString::from(bytes.clone())));
    rasn::ber::encode(&value).ok()
}

/// What is answered.
#[derive(Clone, Debug, PartialEq, Eq)]
pub enum SnmpReply {
    /// A GetResponse with this error status and index, echoing the bindings.
    Error { status: u32, index: u32 },
    /// A GetResponse binding the status OID to these bytes.
    Value(Vec<u8>),
}

/// What the responder does with a request.
#[derive(Clone, Debug, PartialEq, Eq)]
pub enum SnmpAction {
    /// Not a GetRequest: no answer.
    Ignore,
    /// Answer at once.
    Reply(SnmpReply),
    /// Ask the printer for its status, then answer with [`reply_for_status`].
    ReadStatus,
}

/// The action for a request: only a GetRequest is answered; one without a
/// binding gets `genErr` at index 0, one whose first binding names another
/// OID `noSuchName` at index 1, and one for the status OID the printer's
/// status.
pub open spec fn action_for(req: RequestView) -> SnmpAction {
    match req.1 {
        None => SnmpAction::Ignore,
        Some(get) => if get.1.len() == 0 {
            SnmpAction::Reply(SnmpReply::Error { status: GEN_ERR, index: 0 })
        } else if get.1[0].0 == brother_status_oid() {
            SnmpAction::ReadStatus
        } else {
            SnmpAction::Reply(SnmpReply::Error { status: NO_SUCH_NAME, index: 1 })
        },
    }
}

/// The bytes answering `req` with `reply`: a GetResponse of SNMPv1
/// (version 0) for the request's community and request ID. An error carries
/// its status and index and echoes the request's bindings; a value carries
/// error status and index 0 and the single binding of the status OID to the
/// bytes. A message that is no GetRequest is not answered.
pub open spec fn answer_bytes(req: RequestView, reply: SnmpReply) -> Option<Seq<u8>> {
    match req.1 {
        None => None,
        Some(get) => match reply {
            SnmpReply::Error { status, index } => ber_get_response(0, req.0, get.0, status, index, get.1),
            SnmpReply::Value(frame) => ber_get_response(
                0,
                req.0,
                get.0,
                0,
                0,
                seq![(brother_status_oid(), ber_string_value(frame@))],
            ),
        },
    }
}

fn same_arcs(a: &Vec<u32>, b: &Vec<u32>) -> (r: bool)
    ensures
        r == (a@ == b@),
{
    if a.len() != b.len() {
        return false;
    }
    let n = a.len();
    for i in 0..n
        invariant
            n == a.len() == b.len(),
            forall|k: int| 0 <= k < i ==> a@[k] == b@[k],
    {
        if a[i] != b[i] {
            return false;
        }
    }
    assert(a@ =~= b@);
    true
}

/// A received SNMPv1 message, as the responder reads it.
pub struct SnmpRequest {
    community: Vec<u8>,
    get: Option<SnmpGet>,
}

impl View for SnmpRequest {
    type V = RequestView;

    closed spec fn view(&self) -> RequestView {
        (self.community@, get_view(self.get))
    }
}

impl SnmpRequest {
    #[verifier::type_invariant]
    spec fn decoded(&self) -> bool {
        request_wf(self@)
    }

    /// Decodes a received datagram; `None` when it is no SNMPv1 message.
    pub fn decode(bytes: &[u8]) -> (r: Option<SnmpRequest>)
        ensures
            match r {
                Some(q) => ber_message(bytes@) == Some(q@),
                None => ber_message(bytes@) is None,
            },
    {
        match ber_decode_message(bytes) {
            Some((community, get)) => Some(SnmpRequest { community, get }),
            None => None,
        }
    }

    /// The community string.
    pub fn community(&self) -> (r: &Vec<u8>)
        ensures
            r@ == self@.0,
    {
        &self.community
    }

    /// The PDU, when the message is a GetRequest.
    pub fn get(&self) -> (r: &Option<SnmpGet>)
        ensures
            get_view(*r) == self@.1,
    {
        &self.get
    }

    /// Decides what to do with the request.
    pub fn action(&self) -> (r: SnmpAction)
        ensures
            r == action_for(self@),
    {
        match &self.get {
            None => SnmpAction::Ignore,
            Some(get) => {
                if get.bindings.len() == 0 {
                    SnmpAction::Reply(SnmpReply::Error { status: GEN_ERR, index: 0 })
                } else if same_arcs(&get.bindings[0].name, &brother_status_arcs()) {
                    SnmpAction::ReadStatus
                } else {
                    SnmpAction::Reply(SnmpReply::Error { status: NO_SUCH_NAME, index: 1 })
                }
            },
        }
    }

    /// Encodes `reply` as the GetResponse to this request (see
    /// [`answer_bytes`]). Every GetRequest is answered; anything else is
    /// not.
    pub fn encode(&self, reply: &SnmpReply) -> (r: Option<Vec<u8>>)
        ensures
            opt_bytes(r) == answer_bytes(self@, *reply),
            r is Some <==> self@.1 is Some,
            // An answer is for the request's own community, and is no
            // request that a responder would answer.
            r matches Some(b) ==> ber_message(b@) == Some((self@.0, None::<GetView>)),
            r matches Some(b) ==> action_for(ber_message(b@)->0) == SnmpAction::Ignore,
    {
        proof {
            use_type_invariant(self);
        }
        match &self.get {
            None => None,
            Some(get) => match reply {
                SnmpReply::Error { status, index } => {
                    assert forall|i: int| 0 <= i < get.bindings.len() implies oid_encodable(
                        #[trigger] get.bindings@[i].name@,
                    ) && value_decodes(get.bindings@[i].value@) by {
                        let views = binding_views(get.bindings@);
                        assert(views[i] == get.bindings@[i]@);
                        assert(oid_encodable(views[i].0) && value_decodes(views[i].1));
                    }
                    assert forall|i: int| 0 <= i < get.bindings.len() implies value_decodes(
                        #[trigger] get.bindings@[i].value@,
                    ) by {
                        assert(oid_encodable(get.bindings@[i].name@));
                    }
                    assert(get.request_id@.len() > 0);
                    ber_encode_get_response(0, &self.community, &get.request_id, *status, *index, &get.bindings)
                },
                SnmpReply::Value(frame) => {
                    let value = match ber_octet_string_value(frame) {
                        Some(v) => v,
                        None => return None,
                    };
                    let answer: Vec<SnmpBinding> = vec![SnmpBinding { name: brother_status_arcs(), value }];
                    assert(binding_views(answer@) =~= seq![(brother_status_oid(), ber_string_value(frame@))]);
                    assert(get.request_id@.len() > 0);
                    assert(forall|i: int| 0 <= i < answer.len() ==> value_decodes(#[trigger] answer@[i].value@));
                    ber_encode_get_response(0, &self.community, &get.request_id, 0, 0, &answer)
                },
            },
        }
    }
}

/// The answer once the printer has been asked: its status frame, or
/// `genErr` at index 1 when the printer is busy, absent or did not answer.
pub fn reply_for_status(frame: Option<Vec<u8>>) -> (r: SnmpReply)
    ensures
        match frame {
            Some(f) => r matches SnmpReply::Value(v) && v@ == f@,
            None => r == (SnmpReply::Error { status: GEN_ERR, index: 1 }),
        },
{
    match frame {
        Some(f) => SnmpReply::Value(f),
        None => SnmpReply::Error { status: GEN_ERR, index: 1 },
    }
}

/// The printer's status is read only for a GetRequest whose first binding
/// names the status OID; every other GetRequest is answered with an error,
/// and anything else not at all.
pub proof fn lemma_only_the_status_oid_is_served(req: RequestView)
    ensures
        (action_for(req) == SnmpAction::ReadStatus) <==> (req.1 matches Some(get) && get.1.len() > 0
            && get.1[0].0 == brother_status_oid()),
        (action_for(req) == SnmpAction::Ignore) <==> req.1 is None,
{
}

} // verus!
