use crate::errors::Error;
use crate::imei::Imei;
use crate::mo::session_status::{session_status_code, session_status_of_code, SessionStatus};
use crate::wire::{
    be16_bytes, be16_val, be32_bytes, be32_val, copy_bytes, push_be_u16, push_be_u32, push_bytes,
    read_be_u16, read_be_u32,
};
use vstd::prelude::*;

verus! {

/// A mobile-originated header.
#[derive(Clone, Debug, PartialEq, Eq)]
pub struct Header {
    /// The gateway-assigned id for this session.
    pub auto_id: u32,
    /// The device identifier.
    pub imei: Imei,
    /// The session status.
    pub session_status: SessionStatus,
    /// The mobile-originated message sequence number.
    pub momsn: u16,
    /// The mobile-terminated message sequence number.
    pub mtmsn: u16,
    /// The time of the session, in seconds since the Unix epoch.
    pub time_of_session: i64,
}

/// The mathematical content of a mobile-originated header.
pub struct HeaderView {
    pub auto_id: u32,
    pub imei: Seq<u8>,
    pub session_status: SessionStatus,
    pub momsn: u16,
    pub mtmsn: u16,
    pub time_of_session: i64,
}

impl View for Header {
    type V = HeaderView;

    open spec fn view(&self) -> HeaderView {
        HeaderView {
            auto_id: self.auto_id,
            imei: self.imei@,
            session_status: self.session_status,
            momsn: self.momsn,
            mtmsn: self.mtmsn,
            time_of_session: self.time_of_session,
        }
    }
}

impl HeaderView {
    /// The identifier is full width and the timestamp fits the four-byte
    /// field, so the header can be encoded and decoded back exactly.
    pub open spec fn encodable(self) -> bool {
        &&& self.imei.len() == 15
        &&& 0 <= self.time_of_session <= u32::MAX
    }
}

/// The wire bytes of a mobile-originated header, its three-byte
/// tag-and-length prefix included: a fixed 28-byte body, 31 bytes in all.
/// The timestamp is written as its low 32 bits; encoding rejects negative
/// timestamps before anything is written.
pub open spec fn header_bytes(h: HeaderView) -> Seq<u8> {
    seq![1u8, 0u8, 28u8] + be32_bytes(h.auto_id) + h.imei + seq![
        session_status_code(h.session_status),
    ] + be16_bytes(h.momsn) + be16_bytes(h.mtmsn) + be32_bytes(h.time_of_session as u32)
}

/// Parses a 28-byte mobile-originated header body at `pos`. The status
/// byte must belong to the closed session-status enumeration.
pub open spec fn parse_header_body(b: Seq<u8>, pos: int) -> Result<(HeaderView, int), Error> {
    if pos + 28 > b.len() {
        Err(Error::Truncated)
    } else {
        match session_status_of_code(b[pos + 19]) {
            None => Err(Error::UnknownSessionStatus(b[pos + 19])),
            Some(ss) => Ok(
                (
                    HeaderView {
                        auto_id: be32_val(b[pos], b[pos + 1], b[pos + 2], b[pos + 3]),
                        imei: b.subrange(pos + 4, pos + 19),
                        session_status: ss,
                        momsn: be16_val(b[pos + 20], b[pos + 21]),
                        mtmsn: be16_val(b[pos + 22], b[pos + 23]),
                        time_of_session: be32_val(
                            b[pos + 24],
                            b[pos + 25],
                            b[pos + 26],
                            b[pos + 27],
                        ) as i64,
                    },
                    pos + 28,
                ),
            ),
        }
    }
}

/// Parsing an encodable header's own wire bytes gives the header back.
pub proof fn lemma_header_roundtrip(b: Seq<u8>, pos: int, h: HeaderView)
    requires
        h.encodable(),
        0 <= pos,
        pos + 31 <= b.len(),
        b.subrange(pos, pos + 31) == header_bytes(h),
    ensures
        b[pos] == 1,
        parse_header_body(b, pos + 3) == Ok::<(HeaderView, int), Error>((h, pos + 31)),
{
    let hb = header_bytes(h);
    let a = be32_bytes(h.auto_id);
    let m1 = be16_bytes(h.momsn);
    let m2 = be16_bytes(h.mtmsn);
    let t = be32_bytes(h.time_of_session as u32);
    let body = pos + 3;
    assert forall|k: int| pos <= k < pos + 31 implies b[k] == hb[k - pos] by {
        assert(b.subrange(pos, pos + 31)[k - pos] == b[k]);
    }
    assert(hb[0] == 1u8);
    assert(b[pos] == hb[0]);
    assert(hb[3] == a[0] && hb[4] == a[1] && hb[5] == a[2] && hb[6] == a[3]);
    assert(b[body] == hb[3] && b[body + 1] == hb[4] && b[body + 2] == hb[5]);
    assert(b[body + 3] == hb[6]);
    crate::wire::lemma_be32_roundtrip(h.auto_id);
    assert(be32_val(b[body], b[body + 1], b[body + 2], b[body + 3]) == h.auto_id);
    assert forall|i: int| 0 <= i < 15 implies b.subrange(body + 4, body + 19)[i] == h.imei[i] by {
        assert(b.subrange(body + 4, body + 19)[i] == b[body + 4 + i]);
        assert(hb[7 + i] == h.imei[i]);
        assert(b[body + 4 + i] == hb[(body + 4 + i) - pos]);
    }
    assert(b.subrange(body + 4, body + 19) =~= h.imei);
    assert(hb[22] == session_status_code(h.session_status));
    assert(b[body + 19] == hb[22]);
    crate::mo::session_status::lemma_session_status_roundtrip(h.session_status);
    assert(hb[23] == m1[0] && hb[24] == m1[1]);
    assert(b[body + 20] == hb[23] && b[body + 21] == hb[24]);
    crate::wire::lemma_be16_roundtrip(h.momsn);
    assert(be16_val(b[body + 20], b[body + 21]) == h.momsn);
    assert(hb[25] == m2[0] && hb[26] == m2[1]);
    assert(b[body + 22] == hb[25] && b[body + 23] == hb[26]);
    crate::wire::lemma_be16_roundtrip(h.mtmsn);
    assert(be16_val(b[body + 22], b[body + 23]) == h.mtmsn);
    assert(hb[27] == t[0] && hb[28] == t[1] && hb[29] == t[2] && hb[30] == t[3]);
    assert(b[body + 24] == hb[27] && b[body + 25] == hb[28] && b[body + 26] == hb[29] && b[body
        + 27] == hb[30]);
    crate::wire::lemma_be32_roundtrip(h.time_of_session as u32);
    assert(be32_val(b[body + 24], b[body + 25], b[body + 26], b[body + 27]) == h.time_of_session
        as u32);
    assert((h.time_of_session as u32) as i64 == h.time_of_session);
}

impl Header {
    /// Reads a header body at `pos`.
    pub fn read_from(buf: &[u8], pos: usize) -> (r: Result<(Header, usize), Error>)
        ensures
            match r {
                Ok((h, n)) => parse_header_body(buf@, pos as int) == Ok::<(HeaderView, int), Error>(
                    (h@, n as int),
                ) && h.imei.wf(),
                Err(e) => parse_header_body(buf@, pos as int) == Err::<(HeaderView, int), Error>(e),
            },
    {
        if buf.len() < 28 || pos > buf.len() - 28 {
            return Err(Error::Truncated);
        }
        let auto_id = read_be_u32(buf, pos);
        let imei_bytes = copy_bytes(buf, pos + 4, 15);
        let session_status = match SessionStatus::new(buf[pos + 19]) {
            Ok(s) => s,
            Err(e) => {
                return Err(e);
            },
        };
        let momsn = read_be_u16(buf, pos + 20);
        let mtmsn = read_be_u16(buf, pos + 22);
        let time_of_session = read_be_u32(buf, pos + 24) as i64;
        let header = Header {
            auto_id,
            imei: Imei::new(imei_bytes),
            session_status,
            momsn,
            mtmsn,
            time_of_session,
        };
        Ok((header, pos + 28))
    }

    /// Appends the header's wire bytes; a pre-epoch timestamp is rejected
    /// before anything is written.
    pub fn write_to(&self, out: &mut Vec<u8>) -> (r: Result<(), Error>)
        ensures
            self.time_of_session < 0 ==> r == Err::<(), Error>(
                Error::NegativeTimestamp(self.time_of_session),
            ) && final(out)@ == old(out)@,
            self.time_of_session >= 0 ==> r == Ok::<(), Error>(()) && final(out)@ == old(out)@
                + header_bytes(self@),
    {
        if self.time_of_session < 0 {
            return Err(Error::NegativeTimestamp(self.time_of_session));
        }
        out.push(1);
        out.push(0);
        out.push(28);
        push_be_u32(out, self.auto_id);
        push_bytes(out, self.imei.as_bytes());
        out.push(self.session_status.as_u8());
        push_be_u16(out, self.momsn);
        push_be_u16(out, self.mtmsn);
        push_be_u32(out, #[verifier::truncate] (self.time_of_session as u32));
        proof {
            assert(out@ =~= old(out)@ + header_bytes(self@));
        }
        Ok(())
    }

    /// The header's wire size, its tag-and-length prefix included.
    pub fn len(&self) -> (r: usize)
        ensures
            r == 31,
    {
        31
    }

    /// The device identifier.
    pub fn imei(&self) -> (r: &Imei)
        ensures
            r@ == self@.imei,
    {
        &self.imei
    }

    /// The session status.
    pub fn session_status(&self) -> (r: SessionStatus)
        ensures
            r == self.session_status,
    {
        self.session_status
    }

    /// The mobile-originated message sequence number.
    pub fn momsn(&self) -> (r: u16)
        ensures
            r == self.momsn,
    {
        self.momsn
    }

    /// The mobile-terminated message sequence number.
    pub fn mtmsn(&self) -> (r: u16)
        ensures
            r == self.mtmsn,
    {
        self.mtmsn
    }

    /// The time of the session, in seconds since the Unix epoch.
    pub fn time_of_session(&self) -> (r: i64)
        ensures
            r == self.time_of_session,
    {
        self.time_of_session
    }
}

} // verus!
