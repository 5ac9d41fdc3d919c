use crate::errors::Error;
use vstd::prelude::*;

verus! {

/// The delivery confirmation of a mobile-originated session: a single
/// success flag.
#[derive(Clone, Copy, Debug, PartialEq, Eq)]
pub struct ConfirmationStatus {
    /// Whether the session completed successfully.
    pub status: bool,
}

/// The wire bytes of a mobile-originated confirmation, its three-byte
/// tag-and-length prefix included: four bytes in all.
pub open spec fn status_bytes(status: bool) -> Seq<u8> {
    seq![5u8, 0u8, 1u8, if status { 1u8 } else { 0u8 }]
}

/// Parses a one-byte confirmation body at `pos`: the flag is set exactly
/// when the byte is one.
pub open spec fn parse_status_body(b: Seq<u8>, pos: int) -> Result<(bool, int), Error> {
    if pos + 1 > b.len() {
        Err(Error::Truncated)
    } else {
        Ok((b[pos] == 1, pos + 1))
    }
}

/// Parsing a confirmation's own wire bytes gives it back.
pub proof fn lemma_status_roundtrip(b: Seq<u8>, pos: int, status: bool)
    requires
        0 <= pos,
        pos + 4 <= b.len(),
        b.subrange(pos, pos + 4) == status_bytes(status),
    ensures
        b[pos] == 5,
        parse_status_body(b, pos + 3) == Ok::<(bool, int), Error>((status, pos + 4)),
{
    let sb = status_bytes(status);
    assert forall|k: int| pos <= k < pos + 4 implies b[k] == sb[k - pos] by {
        assert(b.subrange(pos, pos + 4)[k - pos] == b[k]);
    }
    assert(b[pos] == sb[0]);
    assert(b[pos + 3] == sb[3]);
}

impl ConfirmationStatus {
    /// Whether the session completed successfully.
    pub fn status(&self) -> (r: bool)
        ensures
            r == self.status,
    {
        self.status
    }

    /// Reads a confirmation body at `pos`.
    pub fn read_from(buf: &[u8], pos: usize) -> (r: Result<(ConfirmationStatus, usize), Error>)
        ensures
            match r {
                Ok((c, n)) => parse_status_body(buf@, pos as int) == Ok::<(bool, int), Error>(
                    (c.status, n as int),
                ),
                Err(e) => parse_status_body(buf@, pos as int) == Err::<(bool, int), Error>(e),
            },
    {
        if pos >= buf.len() {
            return Err(Error::Truncated);
        }
        let status = buf[pos] == 1;
        Ok((ConfirmationStatus { status }, pos + 1))
    }

    /// Appends the confirmation's wire bytes.
    pub fn write_to(&self, out: &mut Vec<u8>)
        ensures
            final(out)@ == old(out)@ + status_bytes(self.status),
    {
        out.push(5);
        out.push(0);
        out.push(1);
        if self.status {
            out.push(1);
        } else {
            out.push(0);
        }
        proof {
            assert(out@ =~= old(out)@ + status_bytes(self.status));
        }
    }

    /// The confirmation's wire size, its tag-and-length prefix included.
    pub fn len(&self) -> (r: usize)
        ensures
            r as int == status_bytes(self.status).len(),
            r == 4,
    {
        4
    }
}

} // verus!
