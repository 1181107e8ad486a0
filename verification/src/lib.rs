//! OpenMenuStandard: a structured interchange document for a food vendor's
//! menu, configurable item customizations, and an optional order record.
//!
//! The core of the library is the validation and pricing engine: the
//! discriminated customization/selection type system, the cross-field
//! consistency rules that decide whether a document is well formed, and the
//! deterministic pricing arithmetic derived from customer selections.
//!
//! All monetary amounts are held in minor currency units (cents), and all
//! numeric customization values are held as plain integers, so that every
//! computation is exact.

use vstd::prelude::*;

pub mod document;
pub mod outside;
pub mod types;
pub mod url;
pub mod utils;
pub mod validation;

verus! {

/// Current version of the OpenMenuStandard
pub const OMS_VERSION: &'static str = "1.0";

/// OpenMenuStandard MIME type for HTTP transmission
pub const OMS_MIME_TYPE: &'static str = "application/vnd.openmenu+json";

/// OpenMenuStandard file extension
pub const OMS_FILE_EXTENSION: &'static str = "omenu";

/// OpenMenuStandard URL scheme
pub const OMS_URL_SCHEME: &'static str = "omenu://";

/// General error type for the OMS library.
///
/// Every variant that concerns a particular entity or field carries the id of
/// that entity (or the name of the field) as its payload, so that a caller can
/// tell which part of a document a failure is about.
#[derive(Debug, Clone, PartialEq, Eq)]
pub enum OmsError {
    /// Undetailed validation failure (e.g. an empty item list).
    Validation,
    /// An unrecognized customization type token.
    InvalidCustomizationType(String),
    /// An unrecognized vendor type token.
    InvalidVendorType(String),
    /// A string that is not a well-formed OMS URL.
    InvalidOmsUrl(String),
    /// A mandatory value, or a required selection, is absent.
    MissingRequiredField(String),
    /// A value is present but violates a constraint.
    InvalidFieldValue(String),
    /// An unclassified failure.
    Unknown(String),
}

/// Result type for OpenMenuStandard operations
pub type OmsResult<T> = Result<T, OmsError>;

/// The fixed prefix a given error's message starts with.
pub open spec fn message_prefix(e: OmsError) -> Seq<char> {
    match e {
        OmsError::Validation => "validation error"@,
        OmsError::InvalidCustomizationType(_) => "invalid customization type: "@,
        OmsError::InvalidVendorType(_) => "invalid vendor type: "@,
        OmsError::InvalidOmsUrl(_) => "invalid OMS URL: "@,
        OmsError::MissingRequiredField(_) => "missing required field: "@,
        OmsError::InvalidFieldValue(_) => "invalid field value: "@,
        OmsError::Unknown(_) => "unknown error: "@,
    }
}

/// The subject an error carries, empty for the undetailed failure.
pub open spec fn message_subject(e: OmsError) -> Seq<char> {
    match e {
        OmsError::Validation => Seq::<char>::empty(),
        OmsError::InvalidCustomizationType(s) => s@,
        OmsError::InvalidVendorType(s) => s@,
        OmsError::InvalidOmsUrl(s) => s@,
        OmsError::MissingRequiredField(s) => s@,
        OmsError::InvalidFieldValue(s) => s@,
        OmsError::Unknown(s) => s@,
    }
}

impl OmsError {
    /// A human-readable message: a fixed prefix naming the error kind,
    /// followed by the subject the error carries.
    pub fn message(&self) -> (r: String)
        ensures
            r@ == message_prefix(*self) + message_subject(*self),
    {
        let mut text = match self {
            OmsError::Validation => String::from_str("validation error"),
            OmsError::InvalidCustomizationType(_) => String::from_str(
                "invalid customization type: ",
            ),
            OmsError::InvalidVendorType(_) => String::from_str("invalid vendor type: "),
            OmsError::InvalidOmsUrl(_) => String::from_str("invalid OMS URL: "),
            OmsError::MissingRequiredField(_) => String::from_str("missing required field: "),
            OmsError::InvalidFieldValue(_) => String::from_str("invalid field value: "),
            OmsError::Unknown(_) => String::from_str("unknown error: "),
        };
        match self {
            OmsError::Validation => {},
            OmsError::InvalidCustomizationType(s) => text.append(s.as_str()),
            OmsError::InvalidVendorType(s) => text.append(s.as_str()),
            OmsError::InvalidOmsUrl(s) => text.append(s.as_str()),
            OmsError::MissingRequiredField(s) => text.append(s.as_str()),
            OmsError::InvalidFieldValue(s) => text.append(s.as_str()),
            OmsError::Unknown(s) => text.append(s.as_str()),
        }
        proof {
            assert(text@ =~= message_prefix(*self) + message_subject(*self));
        }
        text
    }
}

} // verus!
