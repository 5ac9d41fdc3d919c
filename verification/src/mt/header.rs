use crate::errors::Error;
use crate::imei::Imei;
use crate::wire::{
    be16_bytes, be16_val, be32_bytes, be32_val, copy_bytes, push_be_u16, push_be_u32, push_bytes,
    read_be_u16, read_be_u32,
};
use vstd::prelude::*;

verus! {

/// A mobile-terminated header.
#[derive(Clone, Debug, PartialEq, Eq)]
pub struct Header {
    /// The client's unique id for this message.
    pub message_id: u32,
    /// The device identifier.
    pub imei: Imei,
    /// The mobile-terminated disposition flags.
    pub flags: u16,
}

/// The mathematical content of a mobile-terminated header.
pub struct HeaderView {
    pub message_id: u32,
    pub imei: Seq<u8>,
    pub flags: u16,
}

impl View for Header {
    type V = HeaderView;

    open spec fn view(&self) -> HeaderView {
        HeaderView { message_id: self.message_id, imei: self.imei@, flags: self.flags }
    }
}

impl HeaderView {
    /// The identifier is full width, so the header can be encoded and
    /// decoded back exactly.
    pub open spec fn encodable(self) -> bool {
        self.imei.len() == 15
    }
}

/// The wire bytes of a mobile-terminated header, its three-byte
/// tag-and-length prefix included: a fixed 21-byte body, 24 bytes in all.
pub open spec fn header_bytes(h: HeaderView) -> Seq<u8> {
    seq![0x41u8, 0u8, 21u8] + be32_bytes(h.message_id) + h.imei + be16_bytes(h.flags)
}

/// Parses a 21-byte mobile-terminated header body at `pos`.
pub open spec fn parse_header_body(b: Seq<u8>, pos: int) -> Result<(HeaderView, int), Error> {
    if pos + 21 > b.len() {
        Err(Error::Truncated)
    } else {
        Ok(
            (
                HeaderView {
                    message_id: be32_val(b[pos], b[pos + 1], b[pos + 2], b[pos + 3]),
                    imei: b.subrange(pos + 4, pos + 19),
                    flags: be16_val(b[pos + 19], b[pos + 20]),
                },
                pos + 21,
            ),
        )
    }
}

/// Parsing an encodable header's own wire bytes gives the header back.
pub proof fn lemma_header_roundtrip(b: Seq<u8>, pos: int, h: HeaderView)
    requires
        h.encodable(),
        0 <= pos,
        pos + 24 <= b.len(),
        b.subrange(pos, pos + 24) == header_bytes(h),
    ensures
        b[pos] == 0x41,
        parse_header_body(b, pos + 3) == Ok::<(HeaderView, int), Error>((h, pos + 24)),
{
    let hb = header_bytes(h);
    let a = be32_bytes(h.message_id);
    let f = be16_bytes(h.flags);
    let body = pos + 3;
    assert forall|k: int| pos <= k < pos + 24 implies b[k] == hb[k - pos] by {
        assert(b.subrange(pos, pos + 24)[k - pos] == b[k]);
    }
    assert(hb[0] == 0x41u8);
    assert(b[pos] == hb[0]);
    assert(hb[3] == a[0] && hb[4] == a[1] && hb[5] == a[2] && hb[6] == a[3]);
    assert(b[body] == hb[3] && b[body + 1] == hb[4] && b[body + 2] == hb[5]);
    assert(b[body + 3] == hb[6]);
    crate::wire::lemma_be32_roundtrip(h.message_id);
    assert(be32_val(b[body], b[body + 1], b[body + 2], b[body + 3]) == h.message_id);
    assert forall|i: int| 0 <= i < 15 implies b.subrange(body + 4, body + 19)[i] == h.imei[i] by {
        assert(b.subrange(body + 4, body + 19)[i] == b[body + 4 + i]);
        assert(hb[7 + i] == h.imei[i]);
        assert(b[body + 4 + i] == hb[(body + 4 + i) - pos]);
    }
    assert(b.subrange(body + 4, body + 19) =~= h.imei);
    assert(hb[22] == f[0] && hb[23] == f[1]);
    assert(b[body + 19] == hb[22] && b[body + 20] == hb[23]);
    crate::wire::lemma_be16_roundtrip(h.flags);
    assert(be16_val(b[body + 19], b[body + 20]) == h.flags);
}

impl Header {
    /// Reads a header body at `pos`.
    pub fn read_from(buf: &[u8], pos: usize) -> (r: Result<(Header, usize), Error>)
        ensures
            match r {
                Ok((h, n)) => parse_header_body(buf@, pos as int) == Ok::<(HeaderView, int), Error>(
                    (h@, n as int),
                ) && h.imei.wf(),
                Err(e) => parse_header_body(buf@, pos as int) == Err::<(HeaderView, int), Error>(e),
            },
    {
        if buf.len() < 21 || pos > buf.len() - 21 {
            return Err(Error::Truncated);
        }
        let message_id = read_be_u32(buf, pos);
        let imei_bytes = copy_bytes(buf, pos + 4, 15);
        let flags = read_be_u16(buf, pos + 19);
        Ok((Header { message_id, imei: Imei::new(imei_bytes), flags }, pos + 21))
    }

    /// Appends the header's wire bytes.
    pub fn write_to(&self, out: &mut Vec<u8>)
        ensures
            final(out)@ == old(out)@ + header_bytes(self@),
    {
        out.push(0x41);
        out.push(0);
        out.push(21);
        push_be_u32(out, self.message_id);
        push_bytes(out, self.imei.as_bytes());
        push_be_u16(out, self.flags);
        proof {
            assert(out@ =~= old(out)@ + header_bytes(self@));
        }
    }

    /// The header's wire size, its tag-and-length prefix included.
    pub fn len(&self) -> (r: usize)
        ensures
            r == 24,
    {
        24
    }

    /// The device identifier.
    pub fn imei(&self) -> (r: &Imei)
        ensures
            r@ == self@.imei,
    {
        &self.imei
    }
}

} // verus!
