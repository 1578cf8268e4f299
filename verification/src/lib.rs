//! Driver for LX-16A serial bus servos.
//!
//! The library builds the request packets of the LX-16A bus protocol, checks
//! the response packets that the servos send back, and encodes and decodes the
//! parameters of each servo command. Moving bytes over the wire is left to a
//! [`Port`] that the owner of the serial line provides.

pub mod byte_order;
pub mod codec;
pub mod error;
pub mod packet;
pub mod servo;

pub use codec::Lx16aMode;
pub use error::Lx16aError;
pub use servo::{Lx16a, Lx16aBus, Port};
