//! The errors that the engine reports.

use vstd::prelude::*;

verus! {

/// The class of an error, after the SQL standard's error codes.
#[derive(PartialEq, Eq, Clone, Copy, Debug, Structural)]
pub enum ErrorCode {
    FeatureNotSupported,
    NoData,
    InvalidName,
    InsufficientPrivilege,
    SyntaxError,
    InternalError,
}

/// An error: its class, its message, and a detail where there is one.
#[derive(Debug, PartialEq, Eq)]
pub struct AnonError {
    pub error_code: ErrorCode,
    pub message: String,
    pub detail: Option<String>,
}

/// An error with its texts as sequences of characters.
pub struct AnonErrorView {
    pub error_code: ErrorCode,
    pub message: Seq<char>,
    pub detail: Option<Seq<char>>,
}

impl View for AnonError {
    type V = AnonErrorView;

    open spec fn view(&self) -> AnonErrorView {
        AnonErrorView {
            error_code: self.error_code,
            message: self.message@,
            detail: match self.detail {
                Some(d) => Some(d@),
                None => None,
            },
        }
    }
}

/// The error for a feature that is not supported.
pub open spec fn feature_not_supported_view(feature: Seq<char>) -> AnonErrorView {
    AnonErrorView {
        error_code: ErrorCode::FeatureNotSupported,
        message: feature + " is not supported"@,
        detail: None,
    }
}

/// The error for an operation that a role may not perform.
pub open spec fn insufficient_privilege_view(reason: Seq<char>) -> AnonErrorView {
    AnonErrorView { error_code: ErrorCode::InsufficientPrivilege, message: reason, detail: None }
}

/// The error for a label that is not valid for the kind of its object.
pub open spec fn invalid_label_view(
    an_object: Seq<char>,
    label: Seq<char>,
    hint: Option<Seq<char>>,
) -> AnonErrorView {
    AnonErrorView {
        error_code: ErrorCode::SyntaxError,
        message: "`"@ + label + "` is not a valid label for "@ + an_object,
        detail: hint,
    }
}

/// The error for a broken invariant. Its detail asks for a report.
pub open spec fn internal_view(message: Seq<char>) -> AnonErrorView {
    AnonErrorView {
        error_code: ErrorCode::InternalError,
        message,
        detail: Some("This is probably a bug, please report it."@),
    }
}

/// The error for a function call that is no function call.
pub open spec fn function_is_not_valid_view(function_call: Seq<char>) -> AnonErrorView {
    AnonErrorView {
        error_code: ErrorCode::InvalidName,
        message: "'"@ + function_call + "' is not a valid function call"@,
        detail: None,
    }
}

impl AnonError {
    fn new(e: ErrorCode, m: String, d: Option<String>) -> (r: AnonError)
        ensures
            r.error_code == e,
            r.message == m,
            r.detail == d,
    {
        AnonError { error_code: e, message: m, detail: d }
    }

    /// The message as it is reported: the engine's name, then the message.
    pub fn report_message(&self) -> (r: String)
        ensures
            r@ == "Anon: "@ + self.message@,
    {
        let mut r = String::from_str("Anon: ");
        r.append(self.message.as_str());
        r
    }
}

/// A feature is not supported.
pub fn feature_not_supported(feature: &str) -> (r: AnonError)
    ensures
        r@ == feature_not_supported_view(feature@),
{
    let mut message = feature.to_owned();
    message.append(" is not supported");
    AnonError::new(ErrorCode::FeatureNotSupported, message, None)
}

/// A function call was asked for and nothing was given.
pub fn function_call_is_empty() -> (r: AnonError)
    ensures
        r@ == (AnonErrorView {
            error_code: ErrorCode::NoData,
            message: "function call is empty"@,
            detail: None,
        }),
{
    AnonError::new(ErrorCode::NoData, "function call is empty".to_owned(), None)
}

/// What was given as a function call is none.
pub fn function_is_not_valid(function_call: &str) -> (r: AnonError)
    ensures
        r@ == function_is_not_valid_view(function_call@),
{
    let mut message = String::from_str("'");
    message.append(function_call);
    message.append("' is not a valid function call");
    AnonError::new(ErrorCode::InvalidName, message, None)
}

/// A role may not perform an operation.
pub fn insufficient_privilege(reason: String) -> (r: AnonError)
    ensures
        r@ == insufficient_privilege_view(reason@),
{
    AnonError::new(ErrorCode::InsufficientPrivilege, reason, None)
}

/// A label is not valid for the kind of its object.
pub fn invalid_label_for(an_object: &str, label: &str, hint: Option<String>) -> (r: AnonError)
    ensures
        r@ == invalid_label_view(
            an_object@,
            label@,
            match hint {
                Some(h) => Some(h@),
                None => None,
            },
        ),
{
    let mut message = String::from_str("`");
    message.append(label);
    message.append("` is not a valid label for ");
    message.append(an_object);
    AnonError::new(ErrorCode::SyntaxError, message, hint)
}

/// An invariant of the engine is broken.
pub fn internal(message: &str) -> (r: AnonError)
    ensures
        r@ == internal_view(message@),
{
    AnonError::new(
        ErrorCode::InternalError,
        message.to_owned(),
        Some("This is probably a bug, please report it.".to_owned()),
    )
}

/// A feature is not implemented yet.
pub fn not_implemented_yet() -> (r: AnonError)
    ensures
        r@ == (AnonErrorView {
            error_code: ErrorCode::FeatureNotSupported,
            message: "not implemented yet"@,
            detail: None,
        }),
{
    AnonError::new(ErrorCode::FeatureNotSupported, "not implemented yet".to_owned(), None)
}

} // verus!
