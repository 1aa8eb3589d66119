//! The error kinds of the pipeline. Every failure is terminal: the caller
//! reports the message and stops, nothing is retried.

use vstd::prelude::*;

verus! {

/// One error kind per pipeline stage that can fail.
#[derive(Clone, Copy, Debug, PartialEq, Eq, Structural)]
pub enum DiaryError {
    /// The configuration could not be read or lacks a field.
    ConfigLoadFailure,
    /// The profile URL does not have the form `scheme://host/@username`.
    InvalidUrl,
    /// The account lookup response holds no account id.
    UserNotFound,
    /// An HTTP request or a JSON decode failed during lookup or pagination.
    NetworkOrDecodeFailure,
    /// The template file could not be read.
    TemplateReadFailure,
    /// The configured timezone name is not a known timezone.
    InvalidTimezone,
    /// The rendered document could not be written.
    OutputWriteFailure,
}

impl DiaryError {
    /// The one-line diagnostic for this error kind.
    pub fn message(&self) -> (r: &'static str)
        ensures
            *self == DiaryError::ConfigLoadFailure ==> r@ == "could not load the configuration"@,
            *self == DiaryError::InvalidUrl ==> r@ == "invalid profile URL"@,
            *self == DiaryError::UserNotFound ==> r@ == "this user does not exist"@,
            *self == DiaryError::NetworkOrDecodeFailure ==> r@ == "a request to the server failed"@,
            *self == DiaryError::TemplateReadFailure ==> r@ == "template file not found"@,
            *self == DiaryError::InvalidTimezone ==> r@ == "invalid timezone name"@,
            *self == DiaryError::OutputWriteFailure ==> r@ == "could not write the output file"@,
    {
        match self {
            DiaryError::ConfigLoadFailure => "could not load the configuration",
            DiaryError::InvalidUrl => "invalid profile URL",
            DiaryError::UserNotFound => "this user does not exist",
            DiaryError::NetworkOrDecodeFailure => "a request to the server failed",
            DiaryError::TemplateReadFailure => "template file not found",
            DiaryError::InvalidTimezone => "invalid timezone name",
            DiaryError::OutputWriteFailure => "could not write the output file",
        }
    }
}

} // verus!
