use vstd::prelude::*;

verus! {

/// The fixed-width device identifier carried by headers and confirmations:
/// always exactly fifteen bytes on the wire (ASCII digits by convention;
/// the codec itself only relies on the width).
#[derive(Clone, Debug, PartialEq, Eq)]
pub struct Imei {
    bytes: Vec<u8>,
}

impl View for Imei {
    type V = Seq<u8>;

    closed spec fn view(&self) -> Seq<u8> {
        self.bytes@
    }
}

impl Imei {
    /// An identifier is well formed when it is exactly fifteen bytes wide.
    pub open spec fn wf(&self) -> bool {
        self@.len() == 15
    }

    /// Wraps fifteen raw identifier bytes.
    pub fn new(bytes: Vec<u8>) -> (r: Imei)
        requires
            bytes@.len() == 15,
        ensures
            r@ == bytes@,
            r.wf(),
    {
        Imei { bytes }
    }

    /// The identifier's raw bytes.
    pub fn as_bytes(&self) -> (r: &Vec<u8>)
        ensures
            r@ == self@,
    {
        &self.bytes
    }
}

} // verus!
