use vstd::prelude::*;

use crate::domain::DomainError;
use crate::text::join2;

verus! {

/// Errors surfaced by the application layer and the preview pipeline.
#[derive(Debug)]
pub enum ApplicationError {
    Domain(DomainError),
    InvalidInput(String),
    NotFound(String),
    Io(String),
    Persistence(String),
    Decode(String),
}

impl ApplicationError {
    /// True for the invalid-input variant, whatever its message.
    pub open spec fn is_invalid_input(&self) -> bool {
        self is InvalidInput
    }

    /// True for the not-found variant, whatever its message.
    pub open spec fn is_not_found(&self) -> bool {
        self is NotFound
    }

    /// Human-readable description: the kind of failure, then its message.
    pub fn describe(&self) -> (r: String)
        ensures
            self is Domain ==> r@ == self->Domain_0.description(),
            self is InvalidInput ==> r@ == "invalid input: "@ + self->InvalidInput_0@,
            self is NotFound ==> r@ == "not found: "@ + self->NotFound_0@,
            self is Io ==> r@ == "io error: "@ + self->Io_0@,
            self is Persistence ==> r@ == "persistence error: "@ + self->Persistence_0@,
            self is Decode ==> r@ == "decode error: "@ + self->Decode_0@,
    {
        match self {
            ApplicationError::Domain(error) => error.describe(),
            ApplicationError::InvalidInput(msg) => join2("invalid input: ", msg.as_str()),
            ApplicationError::NotFound(msg) => join2("not found: ", msg.as_str()),
            ApplicationError::Io(msg) => join2("io error: ", msg.as_str()),
            ApplicationError::Persistence(msg) => join2("persistence error: ", msg.as_str()),
            ApplicationError::Decode(msg) => join2("decode error: ", msg.as_str()),
        }
    }
}

impl From<DomainError> for ApplicationError {
    fn from(value: DomainError) -> (r: ApplicationError)
        ensures
            r == ApplicationError::Domain(value),
    {
        ApplicationError::Domain(value)
    }
}

impl vstd::std_specs::convert::FromSpecImpl<DomainError> for ApplicationError {
    open spec fn obeys_from_spec() -> bool {
        true
    }

    open spec fn from_spec(v: DomainError) -> ApplicationError {
        ApplicationError::Domain(v)
    }
}

} // verus!
