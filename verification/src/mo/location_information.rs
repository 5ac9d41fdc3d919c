use crate::errors::Error;
use crate::wire::{be16_bytes, be16_val, be32_bytes, be32_val, push_be_u16, push_be_u32};
use vstd::prelude::*;

verus! {

/// The compass quadrant packed into the top two bits of the location
/// record's flags byte.
#[derive(Clone, Copy, Debug, PartialEq, Eq)]
pub enum LocationDirection {
    NE,
    NW,
    SE,
    SW,
}

/// The quadrant selected by a flags byte: only the top two bits matter,
/// every other bit is ignored.
pub open spec fn direction_of_flags(flags: u8) -> LocationDirection {
    let quadrant = flags as int / 0x40;
    if quadrant == 1 {
        LocationDirection::SE
    } else if quadrant == 2 {
        LocationDirection::NW
    } else if quadrant == 3 {
        LocationDirection::SW
    } else {
        LocationDirection::NE
    }
}

/// The flags byte a quadrant encodes to: the quadrant in the top two bits,
/// every other bit zero.
pub open spec fn direction_flags(d: LocationDirection) -> u8 {
    match d {
        LocationDirection::NE => 0x00,
        LocationDirection::SE => 0x40,
        LocationDirection::NW => 0x80,
        LocationDirection::SW => 0xC0,
    }
}

/// Decoding a quadrant's own flags byte gives the quadrant back.
pub proof fn lemma_direction_roundtrip(d: LocationDirection)
    ensures
        direction_of_flags(direction_flags(d)) == d,
{
}

/// A quantized location sub-record: a compass quadrant, latitude and
/// longitude each as a whole-degree byte plus minutes scaled by ten
/// thousand, and an optional radius.
///
/// The quadrant is exposed separately from the magnitudes; combining them
/// into signed coordinates is left to the caller.
#[derive(Clone, Copy, Debug, PartialEq, Eq)]
pub struct LocationInformation {
    /// The compass quadrant.
    pub direction: LocationDirection,
    /// Whole degrees of latitude, and minutes of latitude times ten thousand.
    pub latitude: (u8, u16),
    /// Whole degrees of longitude, and minutes of longitude times ten thousand.
    pub longitude: (u8, u16),
    /// The optional radius field.
    pub radius: Option<u32>,
}

/// The wire bytes of a location record, its three-byte tag-and-length
/// prefix included: the body is seven bytes, or eleven with a radius.
pub open spec fn location_bytes(l: LocationInformation) -> Seq<u8> {
    seq![3u8, 0u8, if l.radius is Some { 11u8 } else { 7u8 }]
        + seq![direction_flags(l.direction), l.latitude.0]
        + be16_bytes(l.latitude.1)
        + seq![l.longitude.0]
        + be16_bytes(l.longitude.1)
        + (match l.radius {
            Some(r) => be32_bytes(r),
            None => Seq::<u8>::empty(),
        })
}

/// Parses a location body of declared length `len` at `pos`.
///
/// The radius is present exactly when the declared length is eleven; a
/// declared length shorter than the seven fixed bytes cannot hold the
/// record and fails. The caller has already checked that `len` bytes are
/// available, and trailing bytes of an over-declared body are skipped.
pub open spec fn parse_location_body(b: Seq<u8>, pos: int, len: int) -> Result<
    (LocationInformation, int),
    Error,
> {
    if len < 7 {
        Err(Error::Truncated)
    } else {
        let loc = LocationInformation {
            direction: direction_of_flags(b[pos]),
            latitude: (b[pos + 1], be16_val(b[pos + 2], b[pos + 3])),
            longitude: (b[pos + 4], be16_val(b[pos + 5], b[pos + 6])),
            radius: if len == 11 {
                Some(be32_val(b[pos + 7], b[pos + 8], b[pos + 9], b[pos + 10]))
            } else {
                None
            },
        };
        Ok((loc, pos + len))
    }
}

/// Parsing a location record's own wire bytes gives the record back.
pub proof fn lemma_location_roundtrip(b: Seq<u8>, pos: int, l: LocationInformation)
    requires
        0 <= pos,
        pos + location_bytes(l).len() <= b.len(),
        b.subrange(pos, pos + location_bytes(l).len() as int) == location_bytes(l),
    ensures
        b[pos] == 3,
        be16_val(b[pos + 1], b[pos + 2]) == location_bytes(l).len() - 3,
        parse_location_body(b, pos + 3, location_bytes(l).len() - 3) == Ok::<
            (LocationInformation, int),
            Error,
        >((l, pos + location_bytes(l).len() as int)),
{
    let lb = location_bytes(l);
    let la = be16_bytes(l.latitude.1);
    let lo = be16_bytes(l.longitude.1);
    let n = lb.len() as int;
    let body = pos + 3;
    assert(n == if l.radius is Some { 14int } else { 10int });
    assert forall|k: int| pos <= k < pos + n implies b[k] == lb[k - pos] by {
        assert(b.subrange(pos, pos + n)[k - pos] == b[k]);
    }
    assert(lb[0] == 3u8 && lb[1] == 0u8);
    assert(b[pos] == lb[0] && b[pos + 1] == lb[1] && b[pos + 2] == lb[2]);
    assert(lb[3] == direction_flags(l.direction));
    assert(b[body] == lb[3]);
    lemma_direction_roundtrip(l.direction);
    assert(lb[4] == l.latitude.0);
    assert(b[body + 1] == lb[4]);
    assert(lb[5] == la[0] && lb[6] == la[1]);
    assert(b[body + 2] == lb[5] && b[body + 3] == lb[6]);
    crate::wire::lemma_be16_roundtrip(l.latitude.1);
    assert(be16_val(b[body + 2], b[body + 3]) == l.latitude.1);
    assert(lb[7] == l.longitude.0);
    assert(b[body + 4] == lb[7]);
    assert(lb[8] == lo[0] && lb[9] == lo[1]);
    assert(b[body + 5] == lb[8] && b[body + 6] == lb[9]);
    crate::wire::lemma_be16_roundtrip(l.longitude.1);
    assert(be16_val(b[body + 5], b[body + 6]) == l.longitude.1);
    match l.radius {
        Some(r) => {
            let rb = be32_bytes(r);
            assert(lb[10] == rb[0] && lb[11] == rb[1] && lb[12] == rb[2] && lb[13] == rb[3]);
            assert(b[body + 7] == lb[10] && b[body + 8] == lb[11] && b[body + 9] == lb[12]);
            assert(b[body + 10] == lb[13]);
            crate::wire::lemma_be32_roundtrip(r);
            assert(be32_val(b[body + 7], b[body + 8], b[body + 9], b[body + 10]) == r);
        },
        None => (),
    }
}

impl LocationInformation {
    /// Builds a location record; the quadrant is taken from the top two
    /// bits of `flags`.
    pub fn new(flags: u8, latitude: (u8, u16), longitude: (u8, u16), radius: Option<u32>) -> (r:
        LocationInformation)
        ensures
            r == (LocationInformation {
                direction: direction_of_flags(flags),
                latitude,
                longitude,
                radius,
            }),
    {
        let quadrant = flags / 0x40;
        let direction = if quadrant == 1 {
            LocationDirection::SE
        } else if quadrant == 2 {
            LocationDirection::NW
        } else if quadrant == 3 {
            LocationDirection::SW
        } else {
            LocationDirection::NE
        };
        LocationInformation { direction, latitude, longitude, radius }
    }

    /// The compass quadrant.
    pub fn direction(&self) -> (r: LocationDirection)
        ensures
            r == self.direction,
    {
        self.direction
    }

    /// Whole degrees and scaled minutes of latitude.
    pub fn latitude(&self) -> (r: (u8, u16))
        ensures
            r == self.latitude,
    {
        self.latitude
    }

    /// Whole degrees and scaled minutes of longitude.
    pub fn longitude(&self) -> (r: (u8, u16))
        ensures
            r == self.longitude,
    {
        self.longitude
    }

    /// The record's wire size, its tag-and-length prefix included.
    pub fn len(&self) -> (r: usize)
        ensures
            r as int == location_bytes(*self).len(),
            r == if self.radius is Some { 14int } else { 10int },
    {
        match self.radius {
            None => 10,
            Some(_) => 14,
        }
    }

    /// Appends the record's wire bytes.
    pub fn write_to(&self, out: &mut Vec<u8>)
        ensures
            final(out)@ == old(out)@ + location_bytes(*self),
    {
        out.push(3);
        out.push(0);
        match self.radius {
            None => out.push(7),
            Some(_) => out.push(11),
        };
        match self.direction {
            LocationDirection::NE => out.push(0x00),
            LocationDirection::SE => out.push(0x40),
            LocationDirection::NW => out.push(0x80),
            LocationDirection::SW => out.push(0xC0),
        };
        out.push(self.latitude.0);
        push_be_u16(out, self.latitude.1);
        out.push(self.longitude.0);
        push_be_u16(out, self.longitude.1);
        match self.radius {
            Some(radius) => push_be_u32(out, radius),
            None => (),
        };
        proof {
            assert(out@ =~= old(out)@ + location_bytes(*self));
        }
    }
}

} // verus!
