//! The error value shared by HTTP responses and socket envelopes.

use vstd::prelude::*;
use crate::json::{JsonV, JsonValue};

verus! {

/// An error shown to a client: a stable code, a human-readable message and
/// optional structured details.
#[derive(Debug, Clone, PartialEq)]
pub struct Error {
    pub code: String,
    pub message: String,
    pub details: Option<JsonValue>,
}

pub struct ErrorV {
    pub code: Seq<char>,
    pub message: Seq<char>,
    pub details: Option<JsonV>,
}

impl View for Error {
    type V = ErrorV;

    open spec fn view(&self) -> ErrorV {
        ErrorV {
            code: self.code@,
            message: self.message@,
            details: match self.details {
                Some(d) => Some(d@),
                None => None,
            },
        }
    }
}

/// The wire object for an error; absent details are omitted, never null.
pub open spec fn error_json(e: ErrorV) -> JsonV {
    JsonV::Obj(
        seq![(("code")@, JsonV::Str(e.code)), (("message")@, JsonV::Str(e.message))] + match e
            .details {
            Some(d) => seq![(("details")@, d)],
            None => Seq::empty(),
        },
    )
}

} // verus!
