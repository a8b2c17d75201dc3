//! The errors that the decode pipeline can surface.

use vstd::prelude::*;
use vstd::string::StringExecFns;

verus! {

/// One error per failure kind of the pipeline; every hard failure is reported
/// through exactly one of these.
#[derive(Debug)]
pub enum Error {
    /// The mode token names no supported architecture/mode pair.
    InvalidModeToken(String),
    /// The base-address literal is neither a decimal nor a hexadecimal number
    /// that fits in 64 bits.
    InvalidAddressLiteral(String),
    /// The aligned output could not be produced.
    Io(String),
}

impl Error {
    /// A single human-readable line describing the error.
    pub fn message(&self) -> (r: String)
        ensures
            match self {
                Error::InvalidModeToken(s) => r@ == "invalid mode token: "@ + s@,
                Error::InvalidAddressLiteral(s) => r@ == "invalid address literal: "@ + s@,
                Error::Io(s) => r@ == "IO error: "@ + s@,
            },
    {
        match self {
            Error::InvalidModeToken(s) => ("invalid mode token: ").to_owned().concat(s.as_str()),
            Error::InvalidAddressLiteral(s) => {
                ("invalid address literal: ").to_owned().concat(s.as_str())
            },
            Error::Io(s) => ("IO error: ").to_owned().concat(s.as_str()),
        }
    }
}

} // verus!
