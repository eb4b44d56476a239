//! A subscriber: a terminal of the bus that receives messages on its own server.

use vstd::prelude::*;
use crate::message1553::{Message1553, MessageView};
use crate::server::Server;

verus! {

broadcast use vstd::string::to_string_from_display_ensures_for_str;

/// The address prefix of every subscriber's server: the loopback network `127.0.0.`.
pub open spec fn loopback_prefix() -> Seq<char> {
    seq!['1', '2', '7', '.', '0', '.', '0', '.']
}

/// A subscriber: its own address and the server it listens with.
#[derive(Clone, Default)]
pub struct Abonne {
    _adresse: String,
    bus_server: Server,
}

impl Abonne {
    /// The subscriber's own address.
    pub closed spec fn adresse_view(&self) -> Seq<char> {
        self._adresse@
    }

    /// The server it listens with.
    pub closed spec fn server_view(&self) -> Server {
        self.bus_server
    }

    /// The subscriber of address `adr`: its server listens on `127.0.0.` followed by `adr`,
    /// port 1553, and has received nothing.
    pub fn new(adr: &str) -> (r: Self)
        ensures
            r.adresse_view() == adr@,
            r.server_view().address_view() == loopback_prefix() + adr@,
            r.server_view().port_view() == 1553,
            r.server_view().messages() == Seq::<MessageView>::empty(),
    {
        let prefix: &str = "127.0.0.";
        proof {
            reveal_strlit("127.0.0.");
            assert(prefix@ =~= loopback_prefix());
        }
        let mut server_address: String = prefix.to_string();
        server_address.append(adr);
        Abonne { _adresse: adr.to_string(), bus_server: Server::new(server_address.as_str(), 1553) }
    }

    /// Stops the subscriber's server; nothing changes.
    pub fn arreter(&mut self)
        ensures
            *final(self) == *old(self),
    {
        self.bus_server.stop();
    }

    /// The message its server received last; there must be one.
    pub fn receive_message(self) -> (r: Message1553)
        requires
            self.server_view().messages().len() > 0,
        ensures
            r@ == self.server_view().messages().last(),
    {
        self.bus_server.receive_message()
    }

    /// The server it listens with.
    pub fn bus_server(&self) -> (r: &Server)
        ensures
            *r == self.server_view(),
    {
        &self.bus_server
    }
}

} // verus!
