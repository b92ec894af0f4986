//! Error taxonomy: malformed card data, and transport conditions reported by
//! the platform smart-card service.

use vstd::prelude::*;

verus! {

/// The card's record did not follow the expected fixed layout.
#[derive(Debug, Clone, Copy, PartialEq, Eq, Structural)]
pub struct NHICardParseError;

/// The conditions of the platform smart-card service that the acquisition
/// logic tells apart. `NoSmartcard` and `RemovedCard` are soft: the reader is
/// skipped. Anything else is carried as `Other`.
#[derive(Debug, Clone, Copy, PartialEq, Eq, Structural)]
pub enum TransportError {
    NoSmartcard,
    RemovedCard,
    Other,
}

/// What reading one card can fail with: a transport condition or a record
/// that does not parse.
#[derive(Debug, Clone, Copy, PartialEq, Eq, Structural)]
pub enum NHICardError {
    PCSCError(TransportError),
    ParseError(NHICardParseError),
}

impl TransportError {
    /// A soft condition means the reader merely has no usable card right now.
    pub open spec fn spec_is_soft(self) -> bool {
        self == TransportError::NoSmartcard || self == TransportError::RemovedCard
    }

    pub fn is_soft(&self) -> (r: bool)
        ensures
            r == self.spec_is_soft(),
    {
        match self {
            TransportError::NoSmartcard => true,
            TransportError::RemovedCard => true,
            TransportError::Other => false,
        }
    }
}

impl From<TransportError> for NHICardError {
    fn from(err: TransportError) -> (r: Self) {
        NHICardError::PCSCError(err)
    }
}

impl vstd::std_specs::convert::FromSpecImpl<TransportError> for NHICardError {
    open spec fn obeys_from_spec() -> bool {
        true
    }

    open spec fn from_spec(err: TransportError) -> Self {
        NHICardError::PCSCError(err)
    }
}

impl From<NHICardParseError> for NHICardError {
    fn from(err: NHICardParseError) -> (r: Self) {
        NHICardError::ParseError(err)
    }
}

impl vstd::std_specs::convert::FromSpecImpl<NHICardParseError> for NHICardError {
    open spec fn obeys_from_spec() -> bool {
        true
    }

    open spec fn from_spec(err: NHICardParseError) -> Self {
        NHICardError::ParseError(err)
    }
}

} // verus!
