//! The error at the rendering boundary: a failure while reading or writing,
//! or a failure while formatting output.

use vstd::prelude::*;

verus! {

/// Relies on `std::io::Error`: declared opaque so error values can be
/// carried through; nothing inside them is read.
#[verifier::external_type_specification]
#[verifier::external_body]
pub struct ExIoError(std::io::Error);

/// Relies on `std::fmt::Error`: declared opaque so error values can be
/// carried through; nothing inside them is read.
#[verifier::external_type_specification]
#[verifier::external_body]
pub struct ExFmtError(std::fmt::Error);

#[derive(Debug)]
pub enum Error {
    IoError(std::io::Error),
    FormatError(std::fmt::Error),
}

impl From<std::io::Error> for Error {
    fn from(err: std::io::Error) -> Self {
        Error::IoError(err)
    }
}

impl vstd::std_specs::convert::FromSpecImpl<std::io::Error> for Error {
    open spec fn obeys_from_spec() -> bool {
        true
    }

    open spec fn from_spec(v: std::io::Error) -> Self {
        Error::IoError(v)
    }
}

impl From<std::fmt::Error> for Error {
    fn from(err: std::fmt::Error) -> Self {
        Error::FormatError(err)
    }
}

impl vstd::std_specs::convert::FromSpecImpl<std::fmt::Error> for Error {
    open spec fn obeys_from_spec() -> bool {
        true
    }

    open spec fn from_spec(v: std::fmt::Error) -> Self {
        Error::FormatError(v)
    }
}

} // verus!
