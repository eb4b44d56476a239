//! A MIL-STD-1553 style message bus: the message model, its byte encoding
//! through a byte buffer, the function table and the receiving side.

pub mod wire;
pub mod byte_buffer;
pub mod spec_buffer;
pub mod message1553;
pub mod functions;
pub mod handler;
pub mod server;
pub mod abonne;
pub mod equipement;
pub mod command;
