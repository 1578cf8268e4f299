//! The errors of the servo operations.
use vstd::prelude::*;

verus! {

/// `std::io::Error`, the error that the port reports; the library carries it
/// through unchanged.
#[verifier::external_type_specification]
#[verifier::external_body]
pub struct ExIoError(std::io::Error);

/// `std::io::Error::from(std::io::ErrorKind::UnexpectedEof)`: the error of a
/// read that did not fill its buffer. Nothing is stated of the value.
#[verifier::external_body]
pub(crate) fn unexpected_eof() -> std::io::Error {
    std::io::Error::from(std::io::ErrorKind::UnexpectedEof)
}

/// Why a servo operation failed.
#[derive(Debug)]
pub enum Lx16aError {
    /// The port failed to write the request or to read the response.
    Io(std::io::Error),
    /// The checksum of the response packet does not match its contents.
    Checksum,
    /// The response packet has a wrong header, servo id, length or command.
    BadResponse,
    /// An angle offset outside -125..=125 was asked for.
    OffsetOutOfRange,
    /// A minimum input voltage outside 4500..=12000 mV was asked for.
    VinMinimumOutOfRange,
    /// A maximum input voltage outside 4500..=12000 mV was asked for.
    VinMaximumOutOfRange,
    /// The minimum input voltage asked for is not below the maximum.
    VinMinimumNotBelowMaximum,
    /// A temperature limit outside 50..=85 degrees Celsius was asked for.
    TempLimitOutOfRange,
    /// The servo reported a mode byte other than 0 (servo) or 1 (motor).
    InvalidMode(u8),
    /// The servo reported a load state byte other than 0 or 1.
    InvalidPowered(u8),
    /// The servo reported an LED state byte other than 0 or 1.
    InvalidLed(u8),
}

} // verus!
