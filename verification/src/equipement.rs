//! A piece of equipment on the network: an address and a port.

use vstd::prelude::*;

verus! {

/// A piece of equipment: where it is reached.
#[derive(Clone)]
pub struct Equipement {
    addr: String,
    port: u16,
}

impl Equipement {
    /// Its address.
    pub closed spec fn address_view(&self) -> Seq<char> {
        self.addr@
    }

    /// Its port.
    pub closed spec fn port_view(&self) -> u16 {
        self.port
    }

    /// The equipment at address `ad` and port `p`.
    pub fn new(ad: String, p: u16) -> (r: Self)
        ensures
            r.address_view() == ad@,
            r.port_view() == p,
    {
        Equipement { addr: ad, port: p }
    }

    /// Its port.
    pub fn port(&self) -> (r: u16)
        ensures
            r == self.port_view(),
    {
        self.port
    }

    /// Its address.
    pub fn address(&self) -> (r: String)
        ensures
            r@ == self.address_view(),
    {
        self.addr.clone()
    }
}

} // verus!
