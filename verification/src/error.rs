//! What a client is told when its call is not served.
use vstd::prelude::*;

use crate::model;

verus! {

/// Whose move it is.
#[derive(Debug, Clone, Copy, PartialEq, Eq, Structural)]
pub enum FailureKind {
    /// A fault of the supervisor's own.
    Internal,
    /// There is no such thing.
    NotFound,
    /// The caller asked for something it may not have.
    Refused,
    /// The platform or the harness cannot do it.
    Unsupported,
    /// The state moved while the call was being answered.
    Conflict,
    /// It is specified and not built.
    Unimplemented,
}

/// An error, as a client reads it.
pub struct ErrorText {
    pub kind: FailureKind,
    pub subject: Option<Seq<char>>,
    pub message: Seq<char>,
    pub citation: Option<Seq<char>>,
}

/// An error of `kind` about `subject`.
pub open spec fn error_text(
    kind: FailureKind,
    subject: Seq<char>,
    message: Seq<char>,
    citation: Seq<char>,
) -> ErrorText {
    ErrorText { kind, subject: Some(subject), message, citation: Some(citation) }
}

/// A refusal about `subject`.
pub open spec fn refused_text(
    subject: Seq<char>,
    message: Seq<char>,
    citation: Seq<char>,
) -> ErrorText {
    error_text(FailureKind::Refused, subject, message, citation)
}

/// A fault of the supervisor's own, about nothing in particular.
pub open spec fn internal_text(message: Seq<char>) -> ErrorText {
    ErrorText { kind: FailureKind::Internal, subject: None, message, citation: None }
}

/// An answer that is not a result.
#[derive(Debug)]
pub struct RpcError {
    pub failure: FailureKind,
    pub subject: Option<String>,
    pub message: String,
    pub citation: Option<String>,
}

impl View for RpcError {
    type V = ErrorText;

    open spec fn view(&self) -> ErrorText {
        ErrorText {
            kind: self.failure,
            subject: model::opt_text(self.subject),
            message: self.message@,
            citation: model::opt_text(self.citation),
        }
    }
}

impl RpcError {
    /// An error of `failure` about `subject`.
    pub fn about(failure: FailureKind, subject: &str, message: String, citation: &str) -> (e: Self)
        ensures
            e@ == error_text(failure, subject@, message@, citation@),
    {
        RpcError {
            failure,
            subject: Some(subject.to_string()),
            message,
            citation: Some(citation.to_string()),
        }
    }

    /// An error of `failure` about `subject`, or about nothing that can be named.
    pub fn of(
        failure: FailureKind,
        subject: Option<&str>,
        message: String,
        citation: &str,
    ) -> (e: Self)
        ensures
            e@ == (ErrorText {
                kind: failure,
                subject: match subject {
                    Some(s) => Some(s@),
                    None => None,
                },
                message: message@,
                citation: Some(citation@),
            }),
    {
        RpcError {
            failure,
            subject: match subject {
                Some(s) => Some(s.to_string()),
                None => None,
            },
            message,
            citation: Some(citation.to_string()),
        }
    }

    /// The caller may not have what it asked for.
    pub fn refused(subject: &str, message: String, citation: &str) -> (e: Self)
        ensures
            e@ == refused_text(subject@, message@, citation@),
    {
        Self::about(FailureKind::Refused, subject, message, citation)
    }

    /// There is no such thing.
    pub fn not_found(subject: &str, message: String, citation: &str) -> (e: Self)
        ensures
            e@ == error_text(FailureKind::NotFound, subject@, message@, citation@),
    {
        Self::about(FailureKind::NotFound, subject, message, citation)
    }

    /// The platform or the harness cannot do it.
    pub fn unsupported(subject: &str, message: String, citation: &str) -> (e: Self)
        ensures
            e@ == error_text(FailureKind::Unsupported, subject@, message@, citation@),
    {
        Self::about(FailureKind::Unsupported, subject, message, citation)
    }

    /// The state moved while the call was being answered.
    pub fn conflict(subject: &str, message: String, citation: &str) -> (e: Self)
        ensures
            e@ == error_text(FailureKind::Conflict, subject@, message@, citation@),
    {
        Self::about(FailureKind::Conflict, subject, message, citation)
    }

    /// It is specified and not built.
    pub fn unimplemented(subject: &str, message: String, citation: &str) -> (e: Self)
        ensures
            e@ == error_text(FailureKind::Unimplemented, subject@, message@, citation@),
    {
        Self::about(FailureKind::Unimplemented, subject, message, citation)
    }

    /// A fault of the supervisor's own.
    pub fn internal(message: String) -> (e: Self)
        ensures
            e@ == internal_text(message@),
    {
        RpcError { failure: FailureKind::Internal, subject: None, message, citation: None }
    }

    /// Whose move it is.
    pub fn kind(&self) -> (k: Option<FailureKind>)
        ensures
            k == Some(self@.kind),
    {
        Some(self.failure)
    }
}

/// An error's text is the error itself: its kind, whom it is about, what it says and what it cites.
pub proof fn law_an_error_says_what_it_holds(e: RpcError)
    ensures
        e@.kind == e.failure,
        e@.message == e.message@,
        e.subject is Some ==> e@.subject == Some(e.subject->0@),
        e.subject is None ==> e@.subject is None,
        e.citation is Some ==> e@.citation == Some(e.citation->0@),
        e.citation is None ==> e@.citation is None,
{
}

} // verus!
