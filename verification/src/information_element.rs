//! The information-element layer: the tagged union over every record the
//! wire format carries, the tag-dispatched parser for one element, and the
//! frame parser for a whole message's element sequence.

use crate::errors::Error;
use crate::imei::Imei;
use crate::mo;
use crate::mo::location_information::{parse_location_body, LocationInformation};
use crate::mt;
use crate::wire::{be16_bytes, be16_val, copy_bytes, push_be_u16, push_bytes, read_be_u16};
use vstd::prelude::*;

verus! {

/// A mobile-originated or mobile-terminated header.
#[derive(Clone, Debug, PartialEq, Eq)]
pub enum Header {
    /// A mobile-originated header.
    MOHeader(mo::Header),
    /// A mobile-terminated header.
    MTHeader(mt::Header),
}

/// The mathematical content of a header of either variant.
pub enum HeaderView {
    MO(mo::header::HeaderView),
    MT(mt::header::HeaderView),
}

impl View for Header {
    type V = HeaderView;

    open spec fn view(&self) -> HeaderView {
        match self {
            Header::MOHeader(h) => HeaderView::MO(h@),
            Header::MTHeader(h) => HeaderView::MT(h@),
        }
    }
}

impl HeaderView {
    /// The header's wire bytes, tag-and-length prefix included.
    pub open spec fn bytes(self) -> Seq<u8> {
        match self {
            HeaderView::MO(h) => mo::header::header_bytes(h),
            HeaderView::MT(h) => mt::header::header_bytes(h),
        }
    }

    /// The header's wire size, tag-and-length prefix included.
    pub open spec fn wire_len(self) -> int {
        match self {
            HeaderView::MO(_) => 31,
            HeaderView::MT(_) => 24,
        }
    }

    /// The device identifier the header carries.
    pub open spec fn imei(self) -> Seq<u8> {
        match self {
            HeaderView::MO(h) => h.imei,
            HeaderView::MT(h) => h.imei,
        }
    }

    /// The header can be encoded and decoded back exactly.
    pub open spec fn encodable(self) -> bool {
        match self {
            HeaderView::MO(h) => h.encodable(),
            HeaderView::MT(h) => h.encodable(),
        }
    }

    /// Whether encoding the header succeeds: only a mobile-originated
    /// header with a pre-epoch timestamp is rejected.
    pub open spec fn write_result(self) -> Result<(), Error> {
        match self {
            HeaderView::MO(h) => if h.time_of_session < 0 {
                Err(Error::NegativeTimestamp(h.time_of_session))
            } else {
                Ok(())
            },
            HeaderView::MT(_) => Ok(()),
        }
    }
}

impl Header {
    /// Appends the header's wire bytes; a mobile-originated header with a
    /// pre-epoch timestamp is rejected before anything is written.
    pub fn write_to(&self, out: &mut Vec<u8>) -> (r: Result<(), Error>)
        ensures
            r == self@.write_result(),
            r is Ok ==> final(out)@ == old(out)@ + self@.bytes(),
            r is Err ==> final(out)@ == old(out)@,
    {
        match self {
            Header::MOHeader(h) => h.write_to(out),
            Header::MTHeader(h) => {
                h.write_to(out);
                Ok(())
            },
        }
    }

    /// The device identifier the header carries.
    pub fn imei(&self) -> (r: &Imei)
        ensures
            r@ == self@.imei(),
    {
        match self {
            Header::MOHeader(h) => h.imei(),
            Header::MTHeader(h) => h.imei(),
        }
    }

    /// The header's wire size, tag-and-length prefix included.
    pub fn len(&self) -> (r: usize)
        ensures
            r as int == self@.wire_len(),
    {
        match self {
            Header::MOHeader(h) => h.len(),
            Header::MTHeader(h) => h.len(),
        }
    }

    /// The mobile-originated header, if this is one.
    pub fn as_mo(&self) -> (r: Option<&mo::Header>)
        ensures
            match r {
                Some(h) => self@ == HeaderView::MO(h@),
                None => self@ is MT,
            },
    {
        match self {
            Header::MOHeader(h) => Some(h),
            Header::MTHeader(_) => None,
        }
    }

    /// The mobile-terminated header, if this is one.
    pub fn as_mt(&self) -> (r: Option<&mt::Header>)
        ensures
            match r {
                Some(h) => self@ == HeaderView::MT(h@),
                None => self@ is MO,
            },
    {
        match self {
            Header::MOHeader(_) => None,
            Header::MTHeader(h) => Some(h),
        }
    }
}

impl From<mo::Header> for Header {
    fn from(header: mo::Header) -> (r: Header) {
        Header::MOHeader(header)
    }
}

impl vstd::std_specs::convert::FromSpecImpl<mo::Header> for Header {
    open spec fn obeys_from_spec() -> bool {
        true
    }

    open spec fn from_spec(header: mo::Header) -> Header {
        Header::MOHeader(header)
    }
}

impl From<mt::Header> for Header {
    fn from(header: mt::Header) -> (r: Header) {
        Header::MTHeader(header)
    }
}

impl vstd::std_specs::convert::FromSpecImpl<mt::Header> for Header {
    open spec fn obeys_from_spec() -> bool {
        true
    }

    open spec fn from_spec(header: mt::Header) -> Header {
        Header::MTHeader(header)
    }
}

/// A mobile-originated or mobile-terminated delivery confirmation.
#[derive(Clone, Debug, PartialEq, Eq)]
pub enum Status {
    /// A mobile-originated confirmation.
    MOStatus(mo::ConfirmationStatus),
    /// A mobile-terminated confirmation.
    MTStatus(mt::ConfirmationStatus),
}

/// The mathematical content of a confirmation of either variant.
pub enum StatusView {
    MO(bool),
    MT(mt::confirmation_status::ConfirmationStatusView),
}

impl View for Status {
    type V = StatusView;

    open spec fn view(&self) -> StatusView {
        match self {
            Status::MOStatus(s) => StatusView::MO(s.status),
            Status::MTStatus(s) => StatusView::MT(s@),
        }
    }
}

impl StatusView {
    /// The confirmation's wire bytes, tag-and-length prefix included.
    pub open spec fn bytes(self) -> Seq<u8> {
        match self {
            StatusView::MO(s) => mo::confirmation_status::status_bytes(s),
            StatusView::MT(c) => mt::confirmation_status::status_bytes(c),
        }
    }

    /// The confirmation's wire size, tag-and-length prefix included.
    pub open spec fn wire_len(self) -> int {
        match self {
            StatusView::MO(_) => 4,
            StatusView::MT(_) => 28,
        }
    }

    /// The confirmation can be encoded and decoded back exactly.
    pub open spec fn encodable(self) -> bool {
        match self {
            StatusView::MO(_) => true,
            StatusView::MT(c) => c.encodable(),
        }
    }
}

impl Status {
    /// Appends the confirmation's wire bytes.
    pub fn write_to(&self, out: &mut Vec<u8>)
        ensures
            final(out)@ == old(out)@ + self@.bytes(),
    {
        match self {
            Status::MOStatus(s) => s.write_to(out),
            Status::MTStatus(s) => s.write_to(out),
        }
    }

    /// The confirmation's wire size, tag-and-length prefix included.
    pub fn len(&self) -> (r: usize)
        ensures
            r as int == self@.wire_len(),
    {
        match self {
            Status::MOStatus(s) => s.len(),
            Status::MTStatus(s) => s.len(),
        }
    }
}

impl From<mo::ConfirmationStatus> for Status {
    fn from(status: mo::ConfirmationStatus) -> (r: Status) {
        Status::MOStatus(status)
    }
}

impl vstd::std_specs::convert::FromSpecImpl<mo::ConfirmationStatus> for Status {
    open spec fn obeys_from_spec() -> bool {
        true
    }

    open spec fn from_spec(status: mo::ConfirmationStatus) -> Status {
        Status::MOStatus(status)
    }
}

impl From<mt::ConfirmationStatus> for Status {
    fn from(status: mt::ConfirmationStatus) -> (r: Status) {
        Status::MTStatus(status)
    }
}

impl vstd::std_specs::convert::FromSpecImpl<mt::ConfirmationStatus> for Status {
    open spec fn obeys_from_spec() -> bool {
        true
    }

    open spec fn from_spec(status: mt::ConfirmationStatus) -> Status {
        Status::MTStatus(status)
    }
}

/// An information element: the unit one tag-length-body triple decodes to,
/// and the unit a message is assembled from.
#[derive(Clone, Debug, PartialEq, Eq)]
pub enum InformationElement {
    /// A header of either variant.
    Header(Header),
    /// A mobile-originated payload.
    MOPayload(Vec<u8>),
    /// A mobile-terminated payload.
    MTPayload(Vec<u8>),
    /// A delivery confirmation of either variant.
    Status(Status),
    /// A location sub-record.
    LocationInformation(LocationInformation),
}

/// The mathematical content of an information element.
pub enum IeView {
    Header(HeaderView),
    MOPayload(Seq<u8>),
    MTPayload(Seq<u8>),
    Status(StatusView),
    LocationInformation(LocationInformation),
}

impl View for InformationElement {
    type V = IeView;

    open spec fn view(&self) -> IeView {
        match self {
            InformationElement::Header(h) => IeView::Header(h@),
            InformationElement::MOPayload(p) => IeView::MOPayload(p@),
            InformationElement::MTPayload(p) => IeView::MTPayload(p@),
            InformationElement::Status(s) => IeView::Status(s@),
            InformationElement::LocationInformation(l) => IeView::LocationInformation(*l),
        }
    }
}

impl From<mo::Header> for InformationElement {
    fn from(header: mo::Header) -> (r: InformationElement) {
        InformationElement::Header(Header::MOHeader(header))
    }
}

impl vstd::std_specs::convert::FromSpecImpl<mo::Header> for InformationElement {
    open spec fn obeys_from_spec() -> bool {
        true
    }

    open spec fn from_spec(header: mo::Header) -> InformationElement {
        InformationElement::Header(Header::MOHeader(header))
    }
}

impl From<mt::Header> for InformationElement {
    fn from(header: mt::Header) -> (r: InformationElement) {
        InformationElement::Header(Header::MTHeader(header))
    }
}

impl vstd::std_specs::convert::FromSpecImpl<mt::Header> for InformationElement {
    open spec fn obeys_from_spec() -> bool {
        true
    }

    open spec fn from_spec(header: mt::Header) -> InformationElement {
        InformationElement::Header(Header::MTHeader(header))
    }
}

impl From<mo::ConfirmationStatus> for InformationElement {
    fn from(status: mo::ConfirmationStatus) -> (r: InformationElement) {
        InformationElement::Status(Status::MOStatus(status))
    }
}

impl vstd::std_specs::convert::FromSpecImpl<mo::ConfirmationStatus> for InformationElement {
    open spec fn obeys_from_spec() -> bool {
        true
    }

    open spec fn from_spec(status: mo::ConfirmationStatus) -> InformationElement {
        InformationElement::Status(Status::MOStatus(status))
    }
}

impl From<mt::ConfirmationStatus> for InformationElement {
    fn from(status: mt::ConfirmationStatus) -> (r: InformationElement) {
        InformationElement::Status(Status::MTStatus(status))
    }
}

impl vstd::std_specs::convert::FromSpecImpl<mt::ConfirmationStatus> for InformationElement {
    open spec fn obeys_from_spec() -> bool {
        true
    }

    open spec fn from_spec(status: mt::ConfirmationStatus) -> InformationElement {
        InformationElement::Status(Status::MTStatus(status))
    }
}

impl From<mo::LocationInformation> for InformationElement {
    fn from(location: mo::LocationInformation) -> (r: InformationElement) {
        InformationElement::LocationInformation(location)
    }
}

impl vstd::std_specs::convert::FromSpecImpl<mo::LocationInformation> for InformationElement {
    open spec fn obeys_from_spec() -> bool {
        true
    }

    open spec fn from_spec(location: mo::LocationInformation) -> InformationElement {
        InformationElement::LocationInformation(location)
    }
}

/// The contents of a sequence of information elements.
pub open spec fn views(s: Seq<InformationElement>) -> Seq<IeView> {
    s.map_values(|ie: InformationElement| ie@)
}

impl IeView {
    /// The element's wire bytes, tag-and-length prefix included.
    pub open spec fn bytes(self) -> Seq<u8> {
        match self {
            IeView::Header(h) => h.bytes(),
            IeView::MOPayload(p) => seq![2u8] + be16_bytes(p.len() as u16) + p,
            IeView::MTPayload(p) => seq![0x42u8] + be16_bytes(p.len() as u16) + p,
            IeView::Status(s) => s.bytes(),
            IeView::LocationInformation(l) => mo::location_information::location_bytes(l),
        }
    }

    /// The element's wire size, tag-and-length prefix included.
    pub open spec fn wire_len(self) -> int {
        match self {
            IeView::Header(h) => h.wire_len(),
            IeView::MOPayload(p) => p.len() + 3int,
            IeView::MTPayload(p) => p.len() + 3int,
            IeView::Status(s) => s.wire_len(),
            IeView::LocationInformation(l) => if l.radius is Some {
                14
            } else {
                10
            },
        }
    }

    /// The element can be encoded and decoded back exactly: identifiers
    /// are full width, a payload fits its 16-bit length field, and a
    /// mobile-originated timestamp fits its four-byte field.
    pub open spec fn encodable(self) -> bool {
        match self {
            IeView::Header(h) => h.encodable(),
            IeView::MOPayload(p) => p.len() <= 0xFFFF,
            IeView::MTPayload(p) => p.len() <= 0xFFFF,
            IeView::Status(s) => s.encodable(),
            IeView::LocationInformation(_) => true,
        }
    }

    /// Whether encoding the element succeeds: an oversized payload and a
    /// mobile-originated header with a pre-epoch timestamp are rejected.
    pub open spec fn write_result(self) -> Result<(), Error> {
        match self {
            IeView::Header(h) => h.write_result(),
            IeView::MOPayload(p) => if p.len() > 0xFFFF {
                Err(Error::PayloadTooLong(p.len() as usize))
            } else {
                Ok(())
            },
            IeView::MTPayload(p) => if p.len() > 0xFFFF {
                Err(Error::PayloadTooLong(p.len() as usize))
            } else {
                Ok(())
            },
            IeView::Status(_) => Ok(()),
            IeView::LocationInformation(_) => Ok(()),
        }
    }
}

/// An encodable element's wire bytes are exactly as long as its wire size
/// says, and no element is shorter than its three prefix bytes.
pub proof fn lemma_ie_bytes_len(ie: IeView)
    requires
        ie.encodable(),
    ensures
        ie.bytes().len() == ie.wire_len(),
        ie.wire_len() >= 3,
{
}

/// The concatenated bytes of encodable elements are exactly as long as
/// their summed wire sizes.
pub proof fn lemma_ies_bytes_len(s: Seq<IeView>)
    requires
        forall|j: int| 0 <= j < s.len() ==> (#[trigger] s[j]).encodable(),
    ensures
        ies_bytes(s).len() == ies_wire_len(s),
    decreases s.len(),
{
    if s.len() > 0 {
        lemma_ie_bytes_len(s[0]);
        let rest = s.drop_first();
        assert forall|j: int| 0 <= j < rest.len() implies (#[trigger] rest[j]).encodable() by {
            assert(rest[j] == s[j + 1]);
        }
        lemma_ies_bytes_len(s.drop_first());
    }
}

/// The concatenated wire bytes of a sequence of elements.
pub open spec fn ies_bytes(s: Seq<IeView>) -> Seq<u8>
    decreases s.len(),
{
    if s.len() == 0 {
        Seq::<u8>::empty()
    } else {
        s[0].bytes() + ies_bytes(s.drop_first())
    }
}

/// The summed wire sizes of a sequence of elements.
pub open spec fn ies_wire_len(s: Seq<IeView>) -> int
    decreases s.len(),
{
    if s.len() == 0 {
        0
    } else {
        s[0].wire_len() + ies_wire_len(s.drop_first())
    }
}

pub proof fn lemma_ies_wire_len_push(s: Seq<IeView>, ie: IeView)
    ensures
        ies_wire_len(s.push(ie)) == ies_wire_len(s) + ie.wire_len(),
    decreases s.len(),
{
    if s.len() == 0 {
        assert(s.push(ie)[0] == ie);
        assert(s.push(ie).drop_first() =~= Seq::<IeView>::empty());
        assert(ies_wire_len(Seq::<IeView>::empty()) == 0);
    } else {
        assert(s.push(ie)[0] == s[0]);
        assert(s.push(ie).drop_first() =~= s.drop_first().push(ie));
        lemma_ies_wire_len_push(s.drop_first(), ie);
    }
}

pub proof fn lemma_ies_bytes_push(s: Seq<IeView>, ie: IeView)
    ensures
        ies_bytes(s.push(ie)) == ies_bytes(s) + ie.bytes(),
    decreases s.len(),
{
    if s.len() == 0 {
        assert(s.push(ie)[0] == ie);
        assert(s.push(ie).drop_first() =~= Seq::<IeView>::empty());
        assert(ies_bytes(Seq::<IeView>::empty()) == Seq::<u8>::empty());
        assert(ies_bytes(s.push(ie)) =~= ies_bytes(s) + ie.bytes());
    } else {
        assert(s.push(ie)[0] == s[0]);
        assert(s.push(ie).drop_first() =~= s.drop_first().push(ie));
        lemma_ies_bytes_push(s.drop_first(), ie);
        assert(ies_bytes(s.push(ie)) =~= ies_bytes(s) + ie.bytes());
    }
}

/// Every element takes at least its three prefix bytes on the wire.
pub proof fn lemma_ies_wire_len_nonneg(s: Seq<IeView>)
    ensures
        ies_wire_len(s) >= 0,
    decreases s.len(),
{
    if s.len() > 0 {
        lemma_ies_wire_len_nonneg(s.drop_first());
    }
}

/// Parses one information element at `pos`: a tag byte, a 16-bit
/// big-endian declared length, and the body the tag's codec reads.
///
/// The fixed-layout records (headers and confirmations) read their fixed
/// body and ignore the declared length, as the wire format's readers do;
/// payloads and locations are delimited by the declared length.
pub open spec fn parse_ie(b: Seq<u8>, pos: int) -> Result<(IeView, int), Error> {
    if pos + 3 > b.len() {
        Err(Error::Truncated)
    } else {
        let tag = b[pos];
        let len = be16_val(b[pos + 1], b[pos + 2]) as int;
        let body = pos + 3;
        if tag == 1 {
            match mo::header::parse_header_body(b, body) {
                Ok((h, n)) => Ok((IeView::Header(HeaderView::MO(h)), n)),
                Err(e) => Err(e),
            }
        } else if tag == 0x41 {
            match mt::header::parse_header_body(b, body) {
                Ok((h, n)) => Ok((IeView::Header(HeaderView::MT(h)), n)),
                Err(e) => Err(e),
            }
        } else if tag == 2 || tag == 0x42 {
            if body + len > b.len() {
                Err(Error::Truncated)
            } else if tag == 2 {
                Ok((IeView::MOPayload(b.subrange(body, body + len)), body + len))
            } else {
                Ok((IeView::MTPayload(b.subrange(body, body + len)), body + len))
            }
        } else if tag == 3 {
            if body + len > b.len() {
                Err(Error::Truncated)
            } else {
                match parse_location_body(b, body, len) {
                    Ok((l, n)) => Ok((IeView::LocationInformation(l), n)),
                    Err(e) => Err(e),
                }
            }
        } else if tag == 5 {
            match mo::confirmation_status::parse_status_body(b, body) {
                Ok((s, n)) => Ok((IeView::Status(StatusView::MO(s)), n)),
                Err(e) => Err(e),
            }
        } else if tag == 0x44 {
            match mt::confirmation_status::parse_status_body(b, body) {
                Ok((c, n)) => Ok((IeView::Status(StatusView::MT(c)), n)),
                Err(e) => Err(e),
            }
        } else {
            Err(Error::InvalidInformationElementIdentifier(tag))
        }
    }
}

/// A successful parse consumes at least the three prefix bytes and never
/// reads past the end of the buffer.
pub proof fn lemma_parse_ie_bounds(b: Seq<u8>, pos: int)
    requires
        0 <= pos,
        parse_ie(b, pos) is Ok,
    ensures
        pos + 3 <= parse_ie(b, pos)->Ok_0.1 <= b.len(),
{
}

/// Parses information elements from `pos` to the end of the buffer.
pub open spec fn parse_ies(b: Seq<u8>, pos: int) -> Result<Seq<IeView>, Error>
    decreases b.len() - pos,
{
    if pos >= b.len() {
        Ok(Seq::<IeView>::empty())
    } else {
        match parse_ie(b, pos) {
            Err(e) => Err(e),
            Ok((ie, n)) => if n <= pos || n > b.len() {
                // never taken (a successful parse advances and stays in
                // bounds); it keeps the recursion well founded
                Err(Error::Truncated)
            } else {
                match parse_ies(b, n) {
                    Err(e) => Err(e),
                    Ok(rest) => Ok(seq![ie] + rest),
                }
            },
        }
    }
}

/// Parses a whole framed message: a protocol revision byte that must be
/// one, a 16-bit big-endian overall length, and exactly that many bytes
/// of information elements. Bytes after the declared region are ignored.
pub open spec fn parse_message(b: Seq<u8>) -> Result<Seq<IeView>, Error> {
    if b.len() < 1 {
        Err(Error::Truncated)
    } else if b[0] != 1 {
        Err(Error::InvalidProtocolRevisionNumber(b[0]))
    } else if b.len() < 3 {
        Err(Error::Truncated)
    } else {
        let len = be16_val(b[1], b[2]) as int;
        if 3 + len > b.len() {
            Err(Error::Truncated)
        } else {
            parse_ies(b.subrange(3, 3 + len), 0)
        }
    }
}

/// Parsing an encodable element's own wire bytes gives the element back.
pub proof fn lemma_parse_ie_of_bytes(b: Seq<u8>, pos: int, ie: IeView)
    requires
        ie.encodable(),
        0 <= pos,
        pos + ie.wire_len() <= b.len(),
        b.subrange(pos, pos + ie.wire_len()) == ie.bytes(),
    ensures
        parse_ie(b, pos) == Ok::<(IeView, int), Error>((ie, pos + ie.wire_len())),
{
    lemma_ie_bytes_len(ie);
    match ie {
        IeView::Header(HeaderView::MO(h)) => {
            mo::header::lemma_header_roundtrip(b, pos, h);
        },
        IeView::Header(HeaderView::MT(h)) => {
            mt::header::lemma_header_roundtrip(b, pos, h);
        },
        IeView::MOPayload(p) => {
            lemma_parse_payload_of_bytes(b, pos, ie);
        },
        IeView::MTPayload(p) => {
            lemma_parse_payload_of_bytes(b, pos, ie);
        },
        IeView::Status(StatusView::MO(s)) => {
            mo::confirmation_status::lemma_status_roundtrip(b, pos, s);
        },
        IeView::Status(StatusView::MT(c)) => {
            mt::confirmation_status::lemma_status_roundtrip(b, pos, c);
        },
        IeView::LocationInformation(l) => {
            mo::location_information::lemma_location_roundtrip(b, pos, l);
        },
    }
}

/// The payload case of `lemma_parse_ie_of_bytes`.
proof fn lemma_parse_payload_of_bytes(b: Seq<u8>, pos: int, ie: IeView)
    requires
        ie.encodable(),
        ie is MOPayload || ie is MTPayload,
        0 <= pos,
        pos + ie.wire_len() <= b.len(),
        b.subrange(pos, pos + ie.wire_len()) == ie.bytes(),
    ensures
        parse_ie(b, pos) == Ok::<(IeView, int), Error>((ie, pos + ie.wire_len())),
{
    let p = match ie {
        IeView::MOPayload(p) => p,
        IeView::MTPayload(p) => p,
        _ => Seq::<u8>::empty(),
    };
    let tag: u8 = if ie is MOPayload {
        2
    } else {
        0x42
    };
    let pb = ie.bytes();
    let n = ie.wire_len();
    let lb = be16_bytes(p.len() as u16);
    lemma_ie_bytes_len(ie);
    assert forall|k: int| pos <= k < pos + n implies b[k] == pb[k - pos] by {
        assert(b.subrange(pos, pos + n)[k - pos] == b[k]);
    }
    assert(pb[0] == tag);
    assert(b[pos] == pb[0]);
    assert(pb[1] == lb[0] && pb[2] == lb[1]);
    assert(b[pos + 1] == pb[1] && b[pos + 2] == pb[2]);
    crate::wire::lemma_be16_roundtrip(p.len() as u16);
    assert(be16_val(b[pos + 1], b[pos + 2]) == p.len() as u16);
    assert((p.len() as u16) as int == p.len() as int);
    assert forall|i: int| 0 <= i < p.len() implies b.subrange(pos + 3, pos + 3 + p.len() as int)[i]
        == p[i] by {
        assert(b.subrange(pos + 3, pos + 3 + p.len() as int)[i] == b[pos + 3 + i]);
        assert(pb[3 + i] == p[i]);
        assert(b[pos + 3 + i] == pb[(pos + 3 + i) - pos]);
    }
    assert(b.subrange(pos + 3, pos + 3 + p.len() as int) =~= p);
}

/// Parsing the concatenated wire bytes of encodable elements, laid out
/// from `pos` to the very end of the buffer, gives the elements back.
pub proof fn lemma_parse_ies_of_bytes(b: Seq<u8>, pos: int, ies: Seq<IeView>)
    requires
        0 <= pos <= b.len(),
        forall|j: int| 0 <= j < ies.len() ==> (#[trigger] ies[j]).encodable(),
        pos + ies_wire_len(ies) == b.len(),
        b.subrange(pos, b.len() as int) == ies_bytes(ies),
    ensures
        parse_ies(b, pos) == Ok::<Seq<IeView>, Error>(ies),
    decreases ies.len(),
{
    if ies.len() == 0 {
        assert(pos == b.len());
        assert(ies =~= Seq::<IeView>::empty());
    } else {
        let first = ies[0];
        let rest = ies.drop_first();
        lemma_ie_bytes_len(first);
        lemma_ies_wire_len_nonneg(rest);
        assert forall|j: int| 0 <= j < rest.len() implies (#[trigger] rest[j]).encodable() by {
            assert(rest[j] == ies[j + 1]);
        }
        lemma_ies_bytes_len(rest);
        let w = first.wire_len();
        assert(ies_wire_len(ies) == w + ies_wire_len(rest));
        assert(ies_bytes(ies) == first.bytes() + ies_bytes(rest));
        assert forall|i: int| 0 <= i < w implies b.subrange(pos, pos + w)[i] == first.bytes()[i] by {
            assert(b.subrange(pos, pos + w)[i] == b[pos + i]);
            assert(b.subrange(pos, b.len() as int)[i] == b[pos + i]);
            assert(ies_bytes(ies)[i] == first.bytes()[i]);
        }
        assert(b.subrange(pos, pos + w) =~= first.bytes());
        lemma_parse_ie_of_bytes(b, pos, first);
        assert forall|i: int| 0 <= i < ies_wire_len(rest) implies b.subrange(
            pos + w,
            b.len() as int,
        )[i] == ies_bytes(rest)[i] by {
            assert(b.subrange(pos + w, b.len() as int)[i] == b[pos + w + i]);
            assert(b.subrange(pos, b.len() as int)[w + i] == b[pos + (w + i)]);
            assert(ies_bytes(ies)[w + i] == ies_bytes(rest)[i]);
        }
        assert(b.subrange(pos + w, b.len() as int) =~= ies_bytes(rest));
        lemma_parse_ies_of_bytes(b, pos + w, rest);
        assert(seq![first] + rest =~= ies);
    }
}

/// Cutting a buffer anywhere strictly inside an element that parses makes
/// the parse of that element fail: a truncated record is detected, and
/// nothing is ever read past the end of the buffer.
pub proof fn lemma_parse_ie_truncated(b: Seq<u8>, pos: int, m: int)
    requires
        0 <= pos,
        0 <= m <= b.len(),
        parse_ie(b, pos) is Ok,
        m < parse_ie(b, pos)->Ok_0.1,
    ensures
        parse_ie(b.subrange(0, m), pos) is Err,
{
    let t = b.subrange(0, m);
    assert forall|i: int| 0 <= i < m implies t[i] == b[i] by {
        assert(t[i] == b[0 + i]);
    }
    lemma_parse_ie_bounds(b, pos);
    if pos + 3 <= m {
        assert(t[pos] == b[pos]);
        assert(t[pos + 1] == b[pos + 1]);
        assert(t[pos + 2] == b[pos + 2]);
    }
}

/// Cutting a framed message's bytes anywhere strictly inside the declared
/// region makes the whole parse fail.
pub proof fn lemma_parse_message_truncated(b: Seq<u8>, m: int)
    requires
        b.len() >= 3,
        b[0] == 1,
        0 <= m < 3 + be16_val(b[1], b[2]) as int,
        m <= b.len(),
    ensures
        parse_message(b.subrange(0, m)) is Err,
{
    let t = b.subrange(0, m);
    assert forall|i: int| 0 <= i < m implies t[i] == b[i] by {
        assert(t[i] == b[0 + i]);
    }
    if m >= 3 {
        assert(t[0] == b[0]);
        assert(t[1] == b[1]);
        assert(t[2] == b[2]);
    } else if m >= 1 {
        assert(t[0] == b[0]);
    }
}

impl InformationElement {
    /// Reads one information element at `pos`.
    pub fn read_single(buf: &[u8], pos: usize) -> (r: Result<(InformationElement, usize), Error>)
        ensures
            match r {
                Ok((ie, n)) => parse_ie(buf@, pos as int) == Ok::<(IeView, int), Error>(
                    (ie@, n as int),
                ),
                Err(e) => parse_ie(buf@, pos as int) == Err::<(IeView, int), Error>(e),
            },
    {
        if buf.len() < 3 || pos > buf.len() - 3 {
            return Err(Error::Truncated);
        }
        let tag = buf[pos];
        let len = read_be_u16(buf, pos + 1) as usize;
        let body = pos + 3;
        if tag == 1 {
            match mo::Header::read_from(buf, body) {
                Ok((h, n)) => Ok((InformationElement::Header(Header::MOHeader(h)), n)),
                Err(e) => Err(e),
            }
        } else if tag == 0x41 {
            match mt::Header::read_from(buf, body) {
                Ok((h, n)) => Ok((InformationElement::Header(Header::MTHeader(h)), n)),
                Err(e) => Err(e),
            }
        } else if tag == 2 || tag == 0x42 {
            if len > buf.len() - body {
                return Err(Error::Truncated);
            }
            let payload = copy_bytes(buf, body, len);
            if tag == 2 {
                Ok((InformationElement::MOPayload(payload), body + len))
            } else {
                Ok((InformationElement::MTPayload(payload), body + len))
            }
        } else if tag == 3 {
            if len > buf.len() - body {
                return Err(Error::Truncated);
            }
            if len < 7 {
                return Err(Error::Truncated);
            }
            let flags = buf[body];
            let latitude = (buf[body + 1], read_be_u16(buf, body + 2));
            let longitude = (buf[body + 4], read_be_u16(buf, body + 5));
            let radius = if len == 11 {
                Some(crate::wire::read_be_u32(buf, body + 7))
            } else {
                None
            };
            let loc = LocationInformation::new(flags, latitude, longitude, radius);
            Ok((InformationElement::LocationInformation(loc), body + len))
        } else if tag == 5 {
            match mo::ConfirmationStatus::read_from(buf, body) {
                Ok((s, n)) => Ok((InformationElement::Status(Status::MOStatus(s)), n)),
                Err(e) => Err(e),
            }
        } else if tag == 0x44 {
            match mt::ConfirmationStatus::read_from(buf, body) {
                Ok((c, n)) => Ok((InformationElement::Status(Status::MTStatus(c)), n)),
                Err(e) => Err(e),
            }
        } else {
            Err(Error::InvalidInformationElementIdentifier(tag))
        }
    }

    /// Parses a whole framed message into its information elements.
    pub fn parse(buf: &[u8]) -> (r: Result<Vec<InformationElement>, Error>)
        ensures
            match r {
                Ok(ies) => parse_message(buf@) == Ok::<Seq<IeView>, Error>(views(ies@)),
                Err(e) => parse_message(buf@) == Err::<Seq<IeView>, Error>(e),
            },
    {
        if buf.len() < 1 {
            return Err(Error::Truncated);
        }
        let revision = buf[0];
        if revision != 1 {
            return Err(Error::InvalidProtocolRevisionNumber(revision));
        }
        if buf.len() < 3 {
            return Err(Error::Truncated);
        }
        let len = read_be_u16(buf, 1) as usize;
        if len > buf.len() - 3 {
            return Err(Error::Truncated);
        }
        let region = copy_bytes(buf, 3, len);
        let ghost region_view = buf@.subrange(3, 3 + len as int);
        let mut ies: Vec<InformationElement> = Vec::new();
        let mut pos: usize = 0;
        while pos < region.len()
            invariant
                pos <= region@.len(),
                region@ == region_view,
                region@.len() == len,
                parse_message(buf@) == parse_ies(region@, 0),
                match parse_ies(region@, pos as int) {
                    Ok(rest) => parse_ies(region@, 0) == Ok::<Seq<IeView>, Error>(
                        views(ies@) + rest,
                    ),
                    Err(e) => parse_ies(region@, 0) == Err::<Seq<IeView>, Error>(e),
                },
            decreases region@.len() - pos,
        {
            match InformationElement::read_single(region.as_slice(), pos) {
                Err(e) => {
                    return Err(e);
                },
                Ok((ie, n)) => {
                    proof {
                        lemma_parse_ie_bounds(region@, pos as int);
                    }
                    let ghost old_ies = ies@;
                    ies.push(ie);
                    proof {
                        assert(views(ies@) =~= views(old_ies).push(ie@));
                        assert(views(old_ies) + seq![ie@] + parse_ies(
                            region@,
                            n as int,
                        )->Ok_0 =~= views(old_ies) + (seq![ie@] + parse_ies(
                            region@,
                            n as int,
                        )->Ok_0)) by {
                        }
                        assert(views(ies@) =~= views(old_ies) + seq![ie@]);
                    }
                    pos = n;
                },
            }
        }
        proof {
            assert(views(ies@) + Seq::<IeView>::empty() =~= views(ies@));
        }
        Ok(ies)
    }

    /// The element's wire size, tag-and-length prefix included.
    pub fn len(&self) -> (r: usize)
        requires
            self@.wire_len() <= usize::MAX,
        ensures
            r as int == self@.wire_len(),
    {
        match self {
            InformationElement::Header(h) => h.len(),
            InformationElement::Status(s) => s.len(),
            InformationElement::MOPayload(p) => p.len() + 3,
            InformationElement::MTPayload(p) => p.len() + 3,
            InformationElement::LocationInformation(l) => l.len(),
        }
    }

    /// True only for a mobile-originated payload with no bytes.
    pub fn is_empty(&self) -> (r: bool)
        ensures
            r == (self@ matches IeView::MOPayload(p) && p.len() == 0),
    {
        match self {
            InformationElement::MOPayload(p) => p.len() == 0,
            _ => false,
        }
    }

    /// Appends the element's wire bytes; an oversized payload or a
    /// pre-epoch mobile-originated timestamp is rejected before anything
    /// is written.
    pub fn write_to(&self, out: &mut Vec<u8>) -> (r: Result<(), Error>)
        ensures
            r == self@.write_result(),
            r is Ok ==> final(out)@ == old(out)@ + self@.bytes(),
            r is Err ==> final(out)@ == old(out)@,
    {
        match self {
            InformationElement::Header(h) => h.write_to(out),
            InformationElement::Status(s) => {
                s.write_to(out);
                Ok(())
            },
            InformationElement::MOPayload(p) => {
                let len = p.len();
                if len > 0xFFFF {
                    return Err(Error::PayloadTooLong(len));
                }
                out.push(2);
                push_be_u16(out, len as u16);
                push_bytes(out, p);
                proof {
                    assert(out@ =~= old(out)@ + self@.bytes());
                }
                Ok(())
            },
            InformationElement::MTPayload(p) => {
                let len = p.len();
                if len > 0xFFFF {
                    return Err(Error::PayloadTooLong(len));
                }
                out.push(0x42);
                push_be_u16(out, len as u16);
                push_bytes(out, p);
                proof {
                    assert(out@ =~= old(out)@ + self@.bytes());
                }
                Ok(())
            },
            InformationElement::LocationInformation(l) => {
                l.write_to(out);
                Ok(())
            },
        }
    }
}

} // verus!
