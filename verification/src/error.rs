//! Failure facts that cross the provider boundary.
use vstd::prelude::*;
use vstd::string::*;

use crate::text;
use crate::text::cat4;

verus! {

/// A failure of a model request, as the adapter reports it.
#[derive(Debug, PartialEq)]
pub struct LlmFailure {
    pub message: String,
    /// One of the canonical codes.
    pub code: String,
    pub status: Option<u16>,
    pub provider_retry_after_ms: Option<u64>,
    pub request_id: Option<String>,
}

/// The live error with the failure it carries.
#[derive(Debug)]
pub struct LlmError {
    pub message: String,
    pub code: String,
    pub failure: LlmFailure,
}

pub struct FailureView {
    pub message: Seq<char>,
    pub code: Seq<char>,
    pub status: Option<u16>,
    pub provider_retry_after_ms: Option<u64>,
    pub request_id: Option<Seq<char>>,
}

impl View for LlmFailure {
    type V = FailureView;

    open spec fn view(&self) -> FailureView {
        FailureView {
            message: self.message@,
            code: self.code@,
            status: self.status,
            provider_retry_after_ms: self.provider_retry_after_ms,
            request_id: text::opt_view(self.request_id),
        }
    }
}

/// A failure with a code and a message and nothing else.
pub open spec fn plain_failure(code: Seq<char>, message: Seq<char>) -> FailureView {
    FailureView { message, code, status: None, provider_retry_after_ms: None, request_id: None }
}

impl Clone for LlmFailure {
    fn clone(&self) -> (copy: Self)
        ensures
            copy == *self,
    {
        LlmFailure {
            message: self.message.clone(),
            code: self.code.clone(),
            status: self.status,
            provider_retry_after_ms: self.provider_retry_after_ms,
            request_id: self.request_id.clone(),
        }
    }
}

impl Clone for LlmError {
    fn clone(&self) -> (copy: Self)
        ensures
            copy == *self,
    {
        LlmError {
            message: self.message.clone(),
            code: self.code.clone(),
            failure: self.failure.clone(),
        }
    }
}

impl LlmFailure {
    /// A failure with a code and a message and nothing else.
    pub fn new(code: &str, message: &str) -> (failure: Self)
        ensures
            failure@ == plain_failure(code@, message@),
    {
        LlmFailure {
            message: message.to_owned(),
            code: code.to_owned(),
            status: None,
            provider_retry_after_ms: None,
            request_id: None,
        }
    }

    /// The same failure with an HTTP status.
    pub fn with_status(self, status: u16) -> (failure: Self)
        ensures
            failure@ == (FailureView { status: Some(status), ..self@ }),
    {
        let mut failure = self;
        failure.status = Some(status);
        failure
    }

    /// The same failure with the provider's advice on when to try again.
    pub fn with_retry_after_ms(self, ms: u64) -> (failure: Self)
        ensures
            failure@ == (FailureView { provider_retry_after_ms: Some(ms), ..self@ }),
    {
        let mut failure = self;
        failure.provider_retry_after_ms = Some(ms);
        failure
    }

    /// The same failure with the provider's request id.
    pub fn with_request_id(self, id: &str) -> (failure: Self)
        ensures
            failure@ == (FailureView { request_id: Some(id@), ..self@ }),
    {
        let mut failure = self;
        failure.request_id = Some(id.to_owned());
        failure
    }
}

impl LlmError {
    /// An error whose failure has the same code and message.
    pub fn new(code: &str, message: &str) -> (error: Self)
        ensures
            error.code@ == code@,
            error.message@ == message@,
            error.failure@ == (FailureView {
                message: message@,
                code: code@,
                status: None,
                provider_retry_after_ms: None,
                request_id: None,
            }),
    {
        LlmError::from_failure(LlmFailure::new(code, message))
    }

    /// The error of a failure.
    pub fn from_failure(failure: LlmFailure) -> (error: Self)
        ensures
            error.message@ == failure.message@,
            error.code@ == failure.code@,
            error.failure == failure,
    {
        LlmError { message: failure.message.clone(), code: failure.code.clone(), failure }
    }

    /// The error as text: `[code] message`.
    pub fn to_text(&self) -> (text: String)
        ensures
            text@ == "["@ + self.code@ + "] "@ + self.message@,
    {
        cat4("[", self.code.as_str(), "] ", self.message.as_str())
    }
}

} // verus!
