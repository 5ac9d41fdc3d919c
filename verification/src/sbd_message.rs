//! The message layer: assembling a decoded element sequence into a
//! validated message, and framing a message back into wire bytes.

use crate::errors::Error;
use crate::imei::Imei;
use crate::information_element::{
    ies_bytes, ies_wire_len, lemma_ies_bytes_push, lemma_ies_wire_len_push, parse_message, views,
    Header, HeaderView, IeView, InformationElement,
};
use crate::mo::location_information::{location_bytes, LocationInformation};
use crate::wire::{be16_bytes, clip_usize, push_be_u16, push_bytes, sat_add};
use vstd::prelude::*;

verus! {

/// A decoded message: exactly one header, exactly one payload, at most
/// one location, and any remaining elements in arrival order.
#[derive(Clone, Debug, PartialEq, Eq)]
pub struct Message {
    header: Header,
    payload: Vec<u8>,
    location: Option<LocationInformation>,
    information_elements: Vec<InformationElement>,
}

/// The mathematical content of a message.
pub struct MessageView {
    pub header: HeaderView,
    pub payload: Seq<u8>,
    pub location: Option<LocationInformation>,
    pub information_elements: Seq<IeView>,
}

impl View for Message {
    type V = MessageView;

    closed spec fn view(&self) -> MessageView {
        MessageView {
            header: self.header@,
            payload: self.payload@,
            location: self.location,
            information_elements: views(self.information_elements@),
        }
    }
}

/// Folds an element sequence into the four message slots, strictly in
/// arrival order: a second header, payload or location fails at once, and
/// a missing header or payload fails at the end. `i` is the next element
/// to look at; the other arguments are the slots filled so far.
pub open spec fn assemble_from(
    ies: Seq<IeView>,
    i: int,
    header: Option<HeaderView>,
    payload: Option<Seq<u8>>,
    location: Option<LocationInformation>,
    others: Seq<IeView>,
) -> Result<MessageView, Error>
    decreases ies.len() - i,
{
    if i < 0 || i >= ies.len() {
        match header {
            None => Err(Error::NoHeader),
            Some(h) => match payload {
                None => Err(Error::NoPayload),
                Some(p) => Ok(
                    MessageView { header: h, payload: p, location, information_elements: others },
                ),
            },
        }
    } else {
        match ies[i] {
            IeView::Header(h) => if header is Some {
                Err(Error::TwoHeaders)
            } else {
                assemble_from(ies, i + 1, Some(h), payload, location, others)
            },
            IeView::MOPayload(p) => if payload is Some {
                Err(Error::TwoPayloads)
            } else {
                assemble_from(ies, i + 1, header, Some(p), location, others)
            },
            IeView::MTPayload(p) => if payload is Some {
                Err(Error::TwoPayloads)
            } else {
                assemble_from(ies, i + 1, header, Some(p), location, others)
            },
            IeView::LocationInformation(l) => if location is Some {
                Err(Error::TwoLocations)
            } else {
                assemble_from(ies, i + 1, header, payload, Some(l), others)
            },
            IeView::Status(_) => assemble_from(
                ies,
                i + 1,
                header,
                payload,
                location,
                others.push(ies[i]),
            ),
        }
    }
}

/// Assembles an element sequence into a message, enforcing the arity
/// rules: exactly one header, exactly one payload, at most one location.
pub open spec fn assemble(ies: Seq<IeView>) -> Result<MessageView, Error> {
    assemble_from(ies, 0, None, None, None, Seq::<IeView>::empty())
}

/// Decodes a whole framed message: parse the frame and its elements, then
/// assemble them.
pub open spec fn decode_message(b: Seq<u8>) -> Result<MessageView, Error> {
    match parse_message(b) {
        Err(e) => Err(e),
        Ok(ies) => assemble(ies),
    }
}

impl MessageView {
    /// The leftover elements are all confirmations: the only element kind
    /// that does not live in one of the three dedicated slots. Assembly
    /// establishes this, and encoding relies on it.
    pub open spec fn wf(self) -> bool {
        forall|j: int|
            0 <= j < self.information_elements.len() ==> (
            #[trigger] self.information_elements[j]) is Status
    }

    /// The payload element the message encodes to: the payload bytes are
    /// tagged after the header's variant.
    pub open spec fn payload_ie(self) -> IeView {
        match self.header {
            HeaderView::MO(_) => IeView::MOPayload(self.payload),
            HeaderView::MT(_) => IeView::MTPayload(self.payload),
        }
    }

    /// The element sequence the message encodes to: header, payload, the
    /// location if there is one, then the leftover elements.
    pub open spec fn ies(self) -> Seq<IeView> {
        seq![IeView::Header(self.header), self.payload_ie()] + (match self.location {
            Some(l) => seq![IeView::LocationInformation(l)],
            None => Seq::<IeView>::empty(),
        }) + self.information_elements
    }

    /// The size of everything after the three-byte outer frame: every
    /// element's wire size, the payload element's three-byte prefix
    /// included. This is the value of the frame's 16-bit length field.
    pub open spec fn body_len(self) -> int {
        self.header.wire_len() + 3 + self.payload.len() + (match self.location {
            Some(l) => location_bytes(l).len() as int,
            None => 0int,
        }) + ies_wire_len(self.information_elements)
    }

    /// The bytes after the three-byte outer frame.
    pub open spec fn body_bytes(self) -> Seq<u8> {
        self.header.bytes() + self.payload_ie().bytes() + (match self.location {
            Some(l) => location_bytes(l),
            None => Seq::<u8>::empty(),
        }) + ies_bytes(self.information_elements)
    }

    /// The message's complete wire bytes: revision one, the 16-bit body
    /// length, then the body.
    pub open spec fn bytes(self) -> Seq<u8> {
        seq![1u8] + be16_bytes(self.body_len() as u16) + self.body_bytes()
    }

    /// The message can be encoded and decoded back exactly.
    pub open spec fn encodable(self) -> bool {
        &&& self.wf()
        &&& self.header.encodable()
        &&& self.payload.len() <= 0xFFFF
        &&& forall|j: int|
            0 <= j < self.information_elements.len() ==> (
            #[trigger] self.information_elements[j]).encodable()
        &&& self.body_len() <= 0xFFFF
    }

    /// Whether encoding succeeds: a body too long for the 16-bit length
    /// field is rejected first, then a pre-epoch mobile-originated
    /// timestamp; nothing else can fail.
    pub open spec fn write_result(self) -> Result<(), Error> {
        if self.body_len() > 0xFFFF {
            Err(Error::OverallMessageLength(clip_usize(self.body_len())))
        } else {
            self.header.write_result()
        }
    }
}

/// The elements of an encodable message are each encodable, and their
/// concatenated bytes and summed wire sizes are the message's body.
proof fn lemma_message_ies(m: MessageView)
    requires
        m.encodable(),
    ensures
        forall|j: int| 0 <= j < m.ies().len() ==> (#[trigger] m.ies()[j]).encodable(),
        ies_bytes(m.ies()) == m.body_bytes(),
        ies_wire_len(m.ies()) == m.body_len(),
{
    let s0 = m.ies();
    let locseq = match m.location {
        Some(l) => seq![IeView::LocationInformation(l)],
        None => Seq::<IeView>::empty(),
    };
    let base: int = if m.location is Some {
        3
    } else {
        2
    };
    assert(s0.len() == base + m.information_elements.len());
    assert(s0[0] == IeView::Header(m.header));
    assert(s0[1] == m.payload_ie());
    assert forall|j: int| 0 <= j < s0.len() implies (#[trigger] s0[j]).encodable() by {
        if j >= base {
            assert(s0[j] == m.information_elements[j - base]);
        } else if j == 2 {
            assert(s0[j] == locseq[0]);
        }
    }
    let s1 = seq![m.payload_ie()] + locseq + m.information_elements;
    assert(s0.drop_first() =~= s1);
    assert(ies_bytes(s0) == s0[0].bytes() + ies_bytes(s1));
    assert(ies_wire_len(s0) == s0[0].wire_len() + ies_wire_len(s1));
    let s2 = locseq + m.information_elements;
    assert(s1[0] == m.payload_ie());
    assert(s1.drop_first() =~= s2);
    assert(ies_bytes(s1) == m.payload_ie().bytes() + ies_bytes(s2));
    assert(ies_wire_len(s1) == m.payload_ie().wire_len() + ies_wire_len(s2));
    match m.location {
        Some(l) => {
            assert(s2[0] == IeView::LocationInformation(l));
            assert(s2.drop_first() =~= m.information_elements);
            assert(ies_bytes(s2) == location_bytes(l) + ies_bytes(m.information_elements));
            assert(ies_wire_len(s2) == IeView::LocationInformation(l).wire_len() + ies_wire_len(
                m.information_elements,
            ));
            assert(location_bytes(l).len() == IeView::LocationInformation(l).wire_len());
        },
        None => {
            assert(s2 =~= m.information_elements);
        },
    }
    assert(m.payload_ie().bytes().len() == 3 + m.payload.len());
    assert(ies_bytes(s0) =~= m.body_bytes());
    assert(ies_wire_len(s0) == m.body_len());
}

/// Folding leftover elements that are all confirmations only appends
/// them: the slots never change again, and assembly succeeds.
proof fn lemma_assemble_others(
    ies: Seq<IeView>,
    i: int,
    h: HeaderView,
    p: Seq<u8>,
    l: Option<LocationInformation>,
    acc: Seq<IeView>,
)
    requires
        0 <= i <= ies.len(),
        forall|j: int| i <= j < ies.len() ==> (#[trigger] ies[j]) is Status,
    ensures
        assemble_from(ies, i, Some(h), Some(p), l, acc) == Ok::<MessageView, Error>(
            MessageView {
                header: h,
                payload: p,
                location: l,
                information_elements: acc + ies.subrange(i, ies.len() as int),
            },
        ),
    decreases ies.len() - i,
{
    if i == ies.len() {
        assert(acc + ies.subrange(i, ies.len() as int) =~= acc);
    } else {
        assert(ies[i] is Status);
        lemma_assemble_others(ies, i + 1, h, p, l, acc.push(ies[i]));
        assert(acc.push(ies[i]) + ies.subrange(i + 1, ies.len() as int) =~= acc + ies.subrange(
            i,
            ies.len() as int,
        ));
    }
}

/// Assembling the element sequence an encodable message encodes to gives
/// the message back: the header fills the header slot, the payload the
/// payload slot, the location (if any) the location slot, and the
/// leftover confirmations are appended in order.
proof fn lemma_assemble_ies(m: MessageView)
    requires
        m.wf(),
    ensures
        assemble(m.ies()) == Ok::<MessageView, Error>(m),
{
    let s0 = m.ies();
    let locseq = match m.location {
        Some(l) => seq![IeView::LocationInformation(l)],
        None => Seq::<IeView>::empty(),
    };
    let base: int = if m.location is Some {
        3
    } else {
        2
    };
    assert(s0.len() == base + m.information_elements.len());
    assert(s0[0] == IeView::Header(m.header));
    assert(s0[1] == m.payload_ie());
    assert forall|j: int| base <= j < s0.len() implies (#[trigger] s0[j]) is Status by {
        assert(s0[j] == m.information_elements[j - base]);
    }
    assert(s0.subrange(base, s0.len() as int) =~= m.information_elements);
    let e = Seq::<IeView>::empty();
    assert(assemble(s0) == assemble_from(s0, 0, None, None, None, e));
    assert(assemble_from(s0, 0, None, None, None, e) == assemble_from(
        s0,
        1,
        Some(m.header),
        None,
        None,
        e,
    ));
    assert(assemble_from(s0, 1, Some(m.header), None, None, e) == assemble_from(
        s0,
        2,
        Some(m.header),
        Some(m.payload),
        None,
        e,
    )) by {
        match m.header {
            HeaderView::MO(_) => {
                assert(s0[1] == IeView::MOPayload(m.payload));
            },
            HeaderView::MT(_) => {
                assert(s0[1] == IeView::MTPayload(m.payload));
            },
        }
    }
    match m.location {
        Some(l) => {
            assert(s0[2] == IeView::LocationInformation(l));
            assert(assemble_from(s0, 2, Some(m.header), Some(m.payload), None, e)
                == assemble_from(s0, 3, Some(m.header), Some(m.payload), Some(l), e));
            lemma_assemble_others(s0, 3, m.header, m.payload, Some(l), e);
        },
        None => {
            lemma_assemble_others(s0, 2, m.header, m.payload, None, e);
        },
    }
    assert(e + s0.subrange(base, s0.len() as int) =~= m.information_elements);
    assert(m == (MessageView {
        header: m.header,
        payload: m.payload,
        location: m.location,
        information_elements: m.information_elements,
    }));
}

/// The round trip: decoding the bytes an encodable message encodes to
/// gives back exactly that message — frame, header, payload, location and
/// leftover elements alike.
pub proof fn lemma_message_round_trip(m: MessageView)
    requires
        m.encodable(),
    ensures
        decode_message(m.bytes()) == Ok::<MessageView, Error>(m),
{
    let b = m.bytes();
    let len = m.body_len();
    let lb = be16_bytes(len as u16);
    lemma_message_ies(m);
    crate::information_element::lemma_ies_bytes_len(m.ies());
    crate::information_element::lemma_ies_wire_len_nonneg(m.information_elements);
    assert(m.body_bytes().len() == len);
    assert(b.len() == 3 + len);
    assert(b[0] == 1);
    assert(b[1] == lb[0] && b[2] == lb[1]);
    crate::wire::lemma_be16_roundtrip(len as u16);
    assert(crate::wire::be16_val(b[1], b[2]) == len as u16);
    assert((len as u16) as int == len);
    let region = b.subrange(3, 3 + len);
    assert forall|i: int| 0 <= i < len implies region[i] == m.body_bytes()[i] by {
        assert(region[i] == b[3 + i]);
    }
    assert(region =~= m.body_bytes());
    assert(region.subrange(0, region.len() as int) =~= region);
    crate::information_element::lemma_parse_ies_of_bytes(region, 0, m.ies());
    assert(parse_message(b) == Ok::<Seq<IeView>, Error>(m.ies()));
    lemma_assemble_ies(m);
}

/// How many headers `s` holds from index `i` on.
pub open spec fn count_headers_from(s: Seq<IeView>, i: int) -> int
    decreases s.len() - i,
{
    if i < 0 || i >= s.len() {
        0
    } else {
        (if s[i] is Header {
            1int
        } else {
            0int
        }) + count_headers_from(s, i + 1)
    }
}

/// How many payloads (of either variant) `s` holds from index `i` on.
pub open spec fn count_payloads_from(s: Seq<IeView>, i: int) -> int
    decreases s.len() - i,
{
    if i < 0 || i >= s.len() {
        0
    } else {
        (if s[i] is MOPayload || s[i] is MTPayload {
            1int
        } else {
            0int
        }) + count_payloads_from(s, i + 1)
    }
}

/// How many locations `s` holds from index `i` on.
pub open spec fn count_locations_from(s: Seq<IeView>, i: int) -> int
    decreases s.len() - i,
{
    if i < 0 || i >= s.len() {
        0
    } else {
        (if s[i] is LocationInformation {
            1int
        } else {
            0int
        }) + count_locations_from(s, i + 1)
    }
}

/// How many headers `s` holds.
pub open spec fn count_headers(s: Seq<IeView>) -> int {
    count_headers_from(s, 0)
}

/// How many payloads (of either variant) `s` holds.
pub open spec fn count_payloads(s: Seq<IeView>) -> int {
    count_payloads_from(s, 0)
}

/// How many locations `s` holds.
pub open spec fn count_locations(s: Seq<IeView>) -> int {
    count_locations_from(s, 0)
}

/// One for a filled slot, zero for an empty one.
spec fn slot_count<A>(o: Option<A>) -> int {
    if o is Some {
        1
    } else {
        0
    }
}

proof fn lemma_counts_nonneg(s: Seq<IeView>, i: int)
    ensures
        count_headers_from(s, i) >= 0,
        count_payloads_from(s, i) >= 0,
        count_locations_from(s, i) >= 0,
    decreases s.len() - i,
{
    if 0 <= i < s.len() {
        lemma_counts_nonneg(s, i + 1);
    }
}

/// How assembly ends, read off the totals alone: counting what the slots
/// already hold together with what is still to come, two headers give the
/// two-headers error, two payloads or two locations likewise, and a
/// missing header or payload surfaces at the end — provided no other
/// duplication strikes first.
proof fn lemma_assemble_from_outcome(
    ies: Seq<IeView>,
    i: int,
    header: Option<HeaderView>,
    payload: Option<Seq<u8>>,
    location: Option<LocationInformation>,
    others: Seq<IeView>,
)
    requires
        0 <= i <= ies.len(),
    ensures
        ({
            let h = count_headers_from(ies, i) + slot_count(header);
            let p = count_payloads_from(ies, i) + slot_count(payload);
            let l = count_locations_from(ies, i) + slot_count(location);
            let r = assemble_from(ies, i, header, payload, location, others);
            &&& (h >= 2 && p <= 1 && l <= 1 ==> r == Err::<MessageView, Error>(Error::TwoHeaders))
            &&& (p >= 2 && h <= 1 && l <= 1 ==> r == Err::<MessageView, Error>(Error::TwoPayloads))
            &&& (l >= 2 && h <= 1 && p <= 1 ==> r == Err::<MessageView, Error>(
                Error::TwoLocations,
            ))
            &&& (h == 0 && p <= 1 && l <= 1 ==> r == Err::<MessageView, Error>(Error::NoHeader))
            &&& (h == 1 && p == 0 && l <= 1 ==> r == Err::<MessageView, Error>(Error::NoPayload))
        }),
    decreases ies.len() - i,
{
    lemma_counts_nonneg(ies, i);
    if i < ies.len() {
        lemma_counts_nonneg(ies, i + 1);
        match ies[i] {
            IeView::Header(h) => {
                if header is None {
                    lemma_assemble_from_outcome(ies, i + 1, Some(h), payload, location, others);
                }
            },
            IeView::MOPayload(p) => {
                if payload is None {
                    lemma_assemble_from_outcome(ies, i + 1, header, Some(p), location, others);
                }
            },
            IeView::MTPayload(p) => {
                if payload is None {
                    lemma_assemble_from_outcome(ies, i + 1, header, Some(p), location, others);
                }
            },
            IeView::LocationInformation(l) => {
                if location is None {
                    lemma_assemble_from_outcome(ies, i + 1, header, payload, Some(l), others);
                }
            },
            IeView::Status(_) => {
                lemma_assemble_from_outcome(
                    ies,
                    i + 1,
                    header,
                    payload,
                    location,
                    others.push(ies[i]),
                );
            },
        }
    }
}

/// A sequence holding two or more headers, and no duplicated payload or
/// location, fails assembly with exactly the two-headers error.
pub proof fn lemma_assemble_two_headers(ies: Seq<IeView>)
    requires
        count_headers(ies) >= 2,
        count_payloads(ies) <= 1,
        count_locations(ies) <= 1,
    ensures
        assemble(ies) == Err::<MessageView, Error>(Error::TwoHeaders),
{
    lemma_assemble_from_outcome(ies, 0, None, None, None, Seq::<IeView>::empty());
}

/// A sequence holding two or more payloads, and no duplicated header or
/// location, fails assembly with exactly the two-payloads error.
pub proof fn lemma_assemble_two_payloads(ies: Seq<IeView>)
    requires
        count_payloads(ies) >= 2,
        count_headers(ies) <= 1,
        count_locations(ies) <= 1,
    ensures
        assemble(ies) == Err::<MessageView, Error>(Error::TwoPayloads),
{
    lemma_assemble_from_outcome(ies, 0, None, None, None, Seq::<IeView>::empty());
}

/// A sequence holding two or more locations, and no duplicated header or
/// payload, fails assembly with exactly the two-locations error.
pub proof fn lemma_assemble_two_locations(ies: Seq<IeView>)
    requires
        count_locations(ies) >= 2,
        count_headers(ies) <= 1,
        count_payloads(ies) <= 1,
    ensures
        assemble(ies) == Err::<MessageView, Error>(Error::TwoLocations),
{
    lemma_assemble_from_outcome(ies, 0, None, None, None, Seq::<IeView>::empty());
}

/// A sequence with no header at all, and no duplicated payload or
/// location, fails assembly with exactly the missing-header error.
pub proof fn lemma_assemble_no_header(ies: Seq<IeView>)
    requires
        count_headers(ies) == 0,
        count_payloads(ies) <= 1,
        count_locations(ies) <= 1,
    ensures
        assemble(ies) == Err::<MessageView, Error>(Error::NoHeader),
{
    lemma_assemble_from_outcome(ies, 0, None, None, None, Seq::<IeView>::empty());
}

/// A sequence with exactly one header, no payload at all, and at most one
/// location fails assembly with exactly the missing-payload error.
pub proof fn lemma_assemble_no_payload(ies: Seq<IeView>)
    requires
        count_headers(ies) == 1,
        count_payloads(ies) == 0,
        count_locations(ies) <= 1,
    ensures
        assemble(ies) == Err::<MessageView, Error>(Error::NoPayload),
{
    lemma_assemble_from_outcome(ies, 0, None, None, None, Seq::<IeView>::empty());
}

/// The view of a header slot.
spec fn header_slot_view(h: Option<Header>) -> Option<HeaderView> {
    match h {
        Some(x) => Some(x@),
        None => None,
    }
}

/// The view of a payload slot.
spec fn payload_slot_view(p: Option<Vec<u8>>) -> Option<Seq<u8>> {
    match p {
        Some(x) => Some(x@),
        None => None,
    }
}

impl Message {
    /// Builds a message directly from its four parts. The leftover
    /// elements must all be confirmations, the one element kind without a
    /// dedicated slot.
    pub fn new(
        header: Header,
        payload: Vec<u8>,
        location: Option<LocationInformation>,
        ie: Vec<InformationElement>,
    ) -> (r: Message)
        requires
            forall|j: int| 0 <= j < ie@.len() ==> (#[trigger] ie@[j]@) is Status,
        ensures
            r@ == (MessageView {
                header: header@,
                payload: payload@,
                location,
                information_elements: views(ie@),
            }),
            r@.wf(),
    {
        let m = Message { header, payload, location, information_elements: ie };
        proof {
            assert(forall|j: int|
                0 <= j < views(m.information_elements@).len() ==> (#[trigger] views(
                    m.information_elements@,
                )[j]) is Status);
        }
        m
    }

    /// Assembles a message from decoded elements, in arrival order:
    /// exactly one header and one payload must be present, at most one
    /// location; a duplicate fails with the matching error.
    pub fn create(ies: Vec<InformationElement>) -> (r: Result<Message, Error>)
        ensures
            match r {
                Ok(m) => assemble(views(ies@)) == Ok::<MessageView, Error>(m@) && m@.wf(),
                Err(e) => assemble(views(ies@)) == Err::<MessageView, Error>(e),
            },
    {
        let ghost all = views(ies@);
        let mut rest = ies;
        let mut header: Option<Header> = None;
        let mut payload: Option<Vec<u8>> = None;
        let mut location: Option<LocationInformation> = None;
        let mut others: Vec<InformationElement> = Vec::new();
        let ghost mut i: int = 0;
        proof {
            assert(views(others@) =~= Seq::<IeView>::empty());
            assert(rest@ =~= ies@.subrange(0, all.len() as int));
        }
        while rest.len() > 0
            invariant
                0 <= i <= all.len(),
                rest@ == ies@.subrange(i, all.len() as int),
                all == views(ies@),
                all.len() == ies@.len(),
                assemble_from(
                    all,
                    i,
                    header_slot_view(header),
                    payload_slot_view(payload),
                    location,
                    views(others@),
                ) == assemble(all),
                forall|j: int| 0 <= j < others@.len() ==> (#[trigger] others@[j]@) is Status,
            decreases rest@.len(),
        {
            let ie = rest.remove(0);
            proof {
                assert(ie == ies@.subrange(i, all.len() as int)[0]);
                assert(ie == ies@[i]);
                assert(all[i] == ie@);
                assert(rest@ =~= ies@.subrange(i + 1, all.len() as int));
            }
            match ie {
                InformationElement::Header(h) => {
                    if header.is_some() {
                        return Err(Error::TwoHeaders);
                    }
                    header = Some(h);
                },
                InformationElement::MOPayload(p) => {
                    if payload.is_some() {
                        return Err(Error::TwoPayloads);
                    }
                    payload = Some(p);
                },
                InformationElement::MTPayload(p) => {
                    if payload.is_some() {
                        return Err(Error::TwoPayloads);
                    }
                    payload = Some(p);
                },
                InformationElement::LocationInformation(l) => {
                    if location.is_some() {
                        return Err(Error::TwoLocations);
                    }
                    location = Some(l);
                },
                InformationElement::Status(s) => {
                    let ghost old_others = others@;
                    others.push(InformationElement::Status(s));
                    proof {
                        assert(views(others@) =~= views(old_others).push(all[i]));
                    }
                },
            }
            proof {
                i = i + 1;
            }
        }
        let h = match header {
            None => {
                return Err(Error::NoHeader);
            },
            Some(h) => h,
        };
        let p = match payload {
            None => {
                return Err(Error::NoPayload);
            },
            Some(p) => p,
        };
        let m = Message { header: h, payload: p, location, information_elements: others };
        Ok(m)
    }

    /// Decodes a message from its complete wire bytes.
    pub fn read_from(buf: &[u8]) -> (r: Result<Message, Error>)
        ensures
            match r {
                Ok(m) => decode_message(buf@) == Ok::<MessageView, Error>(m@) && m@.wf(),
                Err(e) => decode_message(buf@) == Err::<MessageView, Error>(e),
            },
    {
        let ies = match InformationElement::parse(buf) {
            Ok(ies) => ies,
            Err(e) => {
                return Err(e);
            },
        };
        Message::create(ies)
    }

    /// The message's header.
    pub fn header(&self) -> (r: &Header)
        ensures
            r@ == self@.header,
    {
        &self.header
    }

    /// The message's payload bytes.
    pub fn payload(&self) -> (r: &Vec<u8>)
        ensures
            r@ == self@.payload,
    {
        &self.payload
    }

    /// The device identifier of the message's header.
    pub fn imei(&self) -> (r: &Imei)
        ensures
            r@ == self@.header.imei(),
    {
        self.header.imei()
    }

    /// The message's location, if one was present.
    pub fn location(&self) -> (r: &Option<LocationInformation>)
        ensures
            *r == self@.location,
    {
        &self.location
    }

    /// The leftover elements, in arrival order.
    pub fn information_elements(&self) -> (r: &Vec<InformationElement>)
        ensures
            views(r@) == self@.information_elements,
    {
        &self.information_elements
    }

    /// The message's complete wire size: the three-byte outer frame plus
    /// the body.
    pub fn length(&self) -> (r: usize)
        requires
            self@.wf(),
            self@.body_len() + 3 <= usize::MAX,
        ensures
            r == self@.body_len() + 3,
    {
        let body = self.body_length();
        proof {
            crate::information_element::lemma_ies_wire_len_nonneg(self@.information_elements);
        }
        body + 3
    }

    /// The body length, saturating at `usize::MAX`: every element's wire
    /// size summed, the payload element's prefix included.
    fn body_length(&self) -> (r: usize)
        requires
            self@.wf(),
        ensures
            r == clip_usize(self@.body_len()),
    {
        let mut total = sat_add(self.header.len(), 3);
        total = sat_add(total, self.payload.len());
        match &self.location {
            Some(l) => {
                total = sat_add(total, l.len());
            },
            None => (),
        };
        let ghost base = self@.header.wire_len() + 3 + self@.payload.len() + (match self@.location {
            Some(l) => location_bytes(l).len() as int,
            None => 0int,
        });
        assert(total == clip_usize(base));
        let mut j: usize = 0;
        while j < self.information_elements.len()
            invariant
                j <= self.information_elements@.len(),
                self@.wf(),
                self@.information_elements == views(self.information_elements@),
                total == clip_usize(
                    base + ies_wire_len(self@.information_elements.subrange(0, j as int)),
                ),
                base + ies_wire_len(self@.information_elements.subrange(0, j as int)) >= 0,
            decreases self.information_elements@.len() - j,
        {
            let ie = &self.information_elements[j];
            proof {
                assert(self@.information_elements[j as int] == ie@);
            }
            let ghost prefix = self@.information_elements.subrange(0, j as int);
            let n = ie.len();
            total = sat_add(total, n);
            proof {
                assert(self@.information_elements.subrange(0, j + 1) =~= prefix.push(ie@));
                lemma_ies_wire_len_push(prefix, ie@);
            }
            j += 1;
        }
        proof {
            assert(self@.information_elements.subrange(0, self.information_elements@.len() as int)
                =~= self@.information_elements);
        }
        total
    }

    /// Frames and appends the message's complete wire bytes: an oversized
    /// body or a pre-epoch mobile-originated timestamp is rejected before
    /// anything is written.
    #[verifier::rlimit(60)]
    pub fn write_to(&self, out: &mut Vec<u8>) -> (r: Result<(), Error>)
        requires
            self@.wf(),
        ensures
            r == self@.write_result(),
            r is Ok ==> final(out)@ == old(out)@ + self@.bytes(),
            r is Err ==> final(out)@ == old(out)@,
    {
        let body_len = self.body_length();
        if body_len > 0xFFFF {
            return Err(Error::OverallMessageLength(body_len));
        }
        if let Header::MOHeader(h) = &self.header {
            if h.time_of_session < 0 {
                return Err(Error::NegativeTimestamp(h.time_of_session));
            }
        }
        out.push(1);
        push_be_u16(out, body_len as u16);
        match self.header.write_to(out) {
            Ok(()) => (),
            Err(e) => {
                proof {
                    assert(false);
                }
                return Err(e);
            },
        };
        match &self.header {
            Header::MOHeader(_) => out.push(2),
            Header::MTHeader(_) => out.push(0x42),
        };
        proof {
            crate::information_element::lemma_ies_wire_len_nonneg(self@.information_elements);
            assert(self@.payload.len() <= 0xFFFF);
        }
        push_be_u16(out, self.payload.len() as u16);
        push_bytes(out, &self.payload);
        match &self.location {
            Some(l) => l.write_to(out),
            None => (),
        };
        let ghost prefix_bytes = old(out)@ + seq![1u8] + be16_bytes(self@.body_len() as u16)
            + self@.header.bytes() + self@.payload_ie().bytes() + (match self@.location {
            Some(l) => location_bytes(l),
            None => Seq::<u8>::empty(),
        });
        proof {
            assert(out@ =~= prefix_bytes + ies_bytes(
                self@.information_elements.subrange(0, 0int),
            ));
        }
        let mut j: usize = 0;
        while j < self.information_elements.len()
            invariant
                j <= self.information_elements@.len(),
                self@.wf(),
                self@.information_elements == views(self.information_elements@),
                out@ == prefix_bytes + ies_bytes(self@.information_elements.subrange(0, j as int)),
            decreases self.information_elements@.len() - j,
        {
            let ie = &self.information_elements[j];
            proof {
                assert(self@.information_elements[j as int] == ie@);
            }
            let ghost prefix = self@.information_elements.subrange(0, j as int);
            match ie.write_to(out) {
                Ok(()) => (),
                Err(e) => {
                    proof {
                        assert(false);
                    }
                    return Err(e);
                },
            };
            proof {
                assert(self@.information_elements.subrange(0, j + 1) =~= prefix.push(ie@));
                lemma_ies_bytes_push(prefix, ie@);
            }
            j += 1;
        }
        proof {
            assert(self@.information_elements.subrange(0, self.information_elements@.len() as int)
                =~= self@.information_elements);
            assert(out@ =~= old(out)@ + self@.bytes());
        }
        Ok(())
    }
}

} // verus!
