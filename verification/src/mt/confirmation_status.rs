use crate::errors::Error;
use crate::imei::Imei;
use crate::wire::{
    be32_bytes, be32_val, be_i16_bytes, be_i16_val, copy_bytes, push_be_i16, push_be_u32,
    push_bytes, read_be_i16, read_be_u32,
};
use vstd::prelude::*;

verus! {

/// The delivery confirmation of a mobile-terminated session.
#[derive(Clone, Debug, PartialEq, Eq)]
pub struct ConfirmationStatus {
    /// The client's unique id for this message.
    pub message_id: u32,
    /// The device identifier.
    pub imei: Imei,
    /// The gateway-assigned id for this message.
    pub auto_id: u32,
    /// The message status: positive means success.
    pub status: i16,
}

/// The mathematical content of a mobile-terminated confirmation.
pub struct ConfirmationStatusView {
    pub message_id: u32,
    pub imei: Seq<u8>,
    pub auto_id: u32,
    pub status: i16,
}

impl View for ConfirmationStatus {
    type V = ConfirmationStatusView;

    open spec fn view(&self) -> ConfirmationStatusView {
        ConfirmationStatusView {
            message_id: self.message_id,
            imei: self.imei@,
            auto_id: self.auto_id,
            status: self.status,
        }
    }
}

impl ConfirmationStatusView {
    /// The identifier is full width, so the confirmation can be encoded
    /// and decoded back exactly.
    pub open spec fn encodable(self) -> bool {
        self.imei.len() == 15
    }
}

/// The wire bytes of a mobile-terminated confirmation, its three-byte
/// tag-and-length prefix included: a fixed 25-byte body, 28 bytes in all.
pub open spec fn status_bytes(c: ConfirmationStatusView) -> Seq<u8> {
    seq![0x44u8, 0u8, 25u8] + be32_bytes(c.message_id) + c.imei + be32_bytes(c.auto_id)
        + be_i16_bytes(c.status)
}

/// Parses a 25-byte mobile-terminated confirmation body at `pos`.
pub open spec fn parse_status_body(b: Seq<u8>, pos: int) -> Result<
    (ConfirmationStatusView, int),
    Error,
> {
    if pos + 25 > b.len() {
        Err(Error::Truncated)
    } else {
        Ok(
            (
                ConfirmationStatusView {
                    message_id: be32_val(b[pos], b[pos + 1], b[pos + 2], b[pos + 3]),
                    imei: b.subrange(pos + 4, pos + 19),
                    auto_id: be32_val(b[pos + 19], b[pos + 20], b[pos + 21], b[pos + 22]),
                    status: be_i16_val(b[pos + 23], b[pos + 24]),
                },
                pos + 25,
            ),
        )
    }
}

/// Parsing an encodable confirmation's own wire bytes gives it back.
pub proof fn lemma_status_roundtrip(b: Seq<u8>, pos: int, c: ConfirmationStatusView)
    requires
        c.encodable(),
        0 <= pos,
        pos + 28 <= b.len(),
        b.subrange(pos, pos + 28) == status_bytes(c),
    ensures
        b[pos] == 0x44,
        parse_status_body(b, pos + 3) == Ok::<(ConfirmationStatusView, int), Error>((c, pos + 28)),
{
    let sb = status_bytes(c);
    let m = be32_bytes(c.message_id);
    let a = be32_bytes(c.auto_id);
    let st = be_i16_bytes(c.status);
    let body = pos + 3;
    assert forall|k: int| pos <= k < pos + 28 implies b[k] == sb[k - pos] by {
        assert(b.subrange(pos, pos + 28)[k - pos] == b[k]);
    }
    assert(sb[0] == 0x44u8);
    assert(b[pos] == sb[0]);
    assert(sb[3] == m[0] && sb[4] == m[1] && sb[5] == m[2] && sb[6] == m[3]);
    assert(b[body] == sb[3] && b[body + 1] == sb[4] && b[body + 2] == sb[5]);
    assert(b[body + 3] == sb[6]);
    crate::wire::lemma_be32_roundtrip(c.message_id);
    assert(be32_val(b[body], b[body + 1], b[body + 2], b[body + 3]) == c.message_id);
    assert forall|i: int| 0 <= i < 15 implies b.subrange(body + 4, body + 19)[i] == c.imei[i] by {
        assert(b.subrange(body + 4, body + 19)[i] == b[body + 4 + i]);
        assert(sb[7 + i] == c.imei[i]);
        assert(b[body + 4 + i] == sb[(body + 4 + i) - pos]);
    }
    assert(b.subrange(body + 4, body + 19) =~= c.imei);
    assert(sb[22] == a[0] && sb[23] == a[1] && sb[24] == a[2] && sb[25] == a[3]);
    assert(b[body + 19] == sb[22] && b[body + 20] == sb[23] && b[body + 21] == sb[24]);
    assert(b[body + 22] == sb[25]);
    crate::wire::lemma_be32_roundtrip(c.auto_id);
    assert(be32_val(b[body + 19], b[body + 20], b[body + 21], b[body + 22]) == c.auto_id);
    assert(sb[26] == st[0] && sb[27] == st[1]);
    assert(b[body + 23] == sb[26] && b[body + 24] == sb[27]);
    crate::wire::lemma_be_i16_roundtrip(c.status);
    assert(be_i16_val(b[body + 23], b[body + 24]) == c.status);
}

impl ConfirmationStatus {
    /// Whether the message was delivered: a positive status means success.
    pub fn status(&self) -> (r: bool)
        ensures
            r == (self.status > 0),
    {
        self.status > 0
    }

    /// Reads a confirmation body at `pos`.
    pub fn read_from(buf: &[u8], pos: usize) -> (r: Result<(ConfirmationStatus, usize), Error>)
        ensures
            match r {
                Ok((c, n)) => parse_status_body(buf@, pos as int) == Ok::<
                    (ConfirmationStatusView, int),
                    Error,
                >((c@, n as int)) && c.imei.wf(),
                Err(e) => parse_status_body(buf@, pos as int) == Err::<
                    (ConfirmationStatusView, int),
                    Error,
                >(e),
            },
    {
        if buf.len() < 25 || pos > buf.len() - 25 {
            return Err(Error::Truncated);
        }
        let message_id = read_be_u32(buf, pos);
        let imei_bytes = copy_bytes(buf, pos + 4, 15);
        let auto_id = read_be_u32(buf, pos + 19);
        let status = read_be_i16(buf, pos + 23);
        Ok((ConfirmationStatus { message_id, imei: Imei::new(imei_bytes), auto_id, status }, pos
            + 25))
    }

    /// Appends the confirmation's wire bytes.
    pub fn write_to(&self, out: &mut Vec<u8>)
        ensures
            final(out)@ == old(out)@ + status_bytes(self@),
    {
        out.push(0x44);
        out.push(0);
        out.push(25);
        push_be_u32(out, self.message_id);
        push_bytes(out, self.imei.as_bytes());
        push_be_u32(out, self.auto_id);
        push_be_i16(out, self.status);
        proof {
            assert(out@ =~= old(out)@ + status_bytes(self@));
        }
    }

    /// The confirmation's wire size, its tag-and-length prefix included.
    pub fn len(&self) -> (r: usize)
        ensures
            r == 28,
    {
        28
    }
}

} // verus!
