//! Commands that encode themselves into a byte buffer and have destinations.

use vstd::prelude::*;
use bytebuffer::ByteBuffer;
use crate::equipement::Equipement;

verus! {

/// A command of the bus, for users to implement: it encodes and decodes itself through a
/// byte buffer, has an identifier, and a list of destinations.
pub trait Command: Sized {
    /// A new command.
    fn new() -> Self;

    /// The command as bytes.
    fn do_encode(&self) -> ByteBuffer;

    /// Reads the command from bytes.
    fn do_decode(&self, buf: ByteBuffer);

    /// Its identifier.
    fn get_id(&self) -> u32;

    /// Where it is sent.
    fn destination(&self) -> Vec<Equipement>;

    /// Adds a destination.
    fn add_destination(&mut self, eq: Equipement);

    /// Removes every destination.
    fn clear_destination(&mut self);
}

} // verus!
