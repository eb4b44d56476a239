//! The listening end of the bus: an address, a port, and the reader of what arrives.

use vstd::prelude::*;
use crate::handler::Reader1553;
use crate::message1553::{Message1553, MessageView};

verus! {

broadcast use vstd::string::to_string_from_display_ensures_for_str;

/// A server: the address and port it listens on, and the reader of the messages it got.
#[derive(Clone, Default)]
pub struct Server {
    address: String,
    port: u16,
    reader1553: Reader1553,
}

impl Server {
    /// The address listened on.
    pub closed spec fn address_view(&self) -> Seq<char> {
        self.address@
    }

    /// The port listened on.
    pub closed spec fn port_view(&self) -> u16 {
        self.port
    }

    /// The messages its reader kept, oldest first.
    pub closed spec fn messages(&self) -> Seq<MessageView> {
        self.reader1553@
    }

    /// A server for address `ad` and port `p` that has received nothing.
    pub fn new(ad: &str, p: u16) -> (r: Self)
        ensures
            r.address_view() == ad@,
            r.port_view() == p,
            r.messages() == Seq::<MessageView>::empty(),
    {
        Server { address: ad.to_string(), port: p, reader1553: Reader1553::new() }
    }

    /// Stops the server; nothing is to be done, and nothing changes.
    pub fn stop(&mut self)
        ensures
            *final(self) == *old(self),
    {
    }

    /// The message received last; there must be one.
    pub fn receive_message(self) -> (r: Message1553)
        requires
            self.messages().len() > 0,
        ensures
            r@ == self.messages().last(),
    {
        let mut list_clone = self.reader1553.get_liste_messages_1553();
        match list_clone.pop() {
            Some(m) => m,
            None => {
                assert(false);
                Message1553::default()
            },
        }
    }

    /// The address listened on.
    pub fn address(&self) -> (r: String)
        ensures
            r@ == self.address_view(),
    {
        self.address.clone()
    }

    /// The port listened on.
    pub fn port(&self) -> (r: u16)
        ensures
            r == self.port_view(),
    {
        self.port
    }

    /// The reader of the messages received.
    pub fn reader(&self) -> (r: &Reader1553)
        ensures
            r@ == self.messages(),
    {
        &self.reader1553
    }
}

} // verus!
