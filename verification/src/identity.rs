//! Who a peer is and where it can be reached.

use vstd::prelude::*;

verus! {

/// The identity of a peer: a 128-bit identifier.
///
/// It is the identity a dial asks for, and the identity an upgrade reports
/// once the handshake is done.
#[derive(Clone, Copy, Debug, PartialEq, Eq, Structural, Hash)]
pub struct PeerId {
    pub value: u128,
}

impl PeerId {
    /// The peer with the given identifier.
    pub fn new(value: u128) -> (id: Self)
        ensures
            id.value == value,
    {
        PeerId { value }
    }
}

/// A network location. The handler never looks inside: it keeps the address
/// with the upgrade it belongs to and hands it back unchanged.
#[derive(Clone, Debug, PartialEq, Eq, Hash)]
pub struct NetworkAddress {
    text: String,
}

impl View for NetworkAddress {
    type V = Seq<char>;

    closed spec fn view(&self) -> Seq<char> {
        self.text@
    }
}

impl NetworkAddress {
    /// The location that the text names.
    pub fn new(text: String) -> (addr: Self)
        ensures
            addr@ == text@,
    {
        NetworkAddress { text }
    }

    /// The text that names the location.
    pub fn as_str(&self) -> (text: &str)
        ensures
            text@ == self@,
    {
        self.text.as_str()
    }
}

} // verus!
