//! The ways in which checking an endpoint, or loading what the checks need, can fail.
use vstd::prelude::*;

verus! {

/// Why an endpoint could not be judged valid, or why loading failed.
#[derive(Clone, Debug)]
pub enum VerifierError {
    /// The HTTP client failed; the client's own message.
    RequestError(String),
    /// A file could not be read; the system's message.
    IoError(String),
    /// A file of the specification is not JSON; its path.
    SpecHasBadJson(String),
    /// The endpoint at this URL did not answer with success.
    UnresponsiveEndpoint(String),
    /// The body of the response is not JSON.
    ResponseIsNotJson,
    /// A schema document could not be compiled.
    BadSchema,
    /// The framework bundle is incomplete or not JSON.
    BadFramework,
    /// The response breaks its schema; one line per violation.
    BadResponse(String),
    /// The server answered with a status that the client rejected.
    BadStatus,
    /// The collection endpoint gave no identifier to substitute.
    NoIdentifierAvailable,
    /// `meta.returnedGranularity` is missing or not one of the four granularities.
    BadGranularity,
    /// An endpoint set names an entry type that the specification does not declare.
    UnresolvedEntityType(String),
    /// A field that the envelope must have is missing or of the wrong type.
    MalformedResponse(EnvelopeField),
}

/// The fields of a response envelope that the checks read.
#[derive(Clone, Copy, Debug, PartialEq, Eq, Structural)]
pub enum EnvelopeField {
    /// `responseSummary.exists`
    Exists,
    /// `response.resultSets`
    ResultSets,
    /// `results` of one result set
    Results,
}

/// What an error says, for contracts: its kind, with the text it carries.
pub ghost enum ErrorView {
    RequestError(Seq<char>),
    IoError(Seq<char>),
    SpecHasBadJson(Seq<char>),
    UnresponsiveEndpoint(Seq<char>),
    ResponseIsNotJson,
    BadSchema,
    BadFramework,
    BadResponse(Seq<char>),
    BadStatus,
    NoIdentifierAvailable,
    BadGranularity,
    UnresolvedEntityType(Seq<char>),
    MalformedResponse(EnvelopeField),
}

impl View for VerifierError {
    type V = ErrorView;

    open spec fn view(&self) -> ErrorView {
        match self {
            VerifierError::RequestError(m) => ErrorView::RequestError(m@),
            VerifierError::IoError(m) => ErrorView::IoError(m@),
            VerifierError::SpecHasBadJson(m) => ErrorView::SpecHasBadJson(m@),
            VerifierError::UnresponsiveEndpoint(m) => ErrorView::UnresponsiveEndpoint(m@),
            VerifierError::ResponseIsNotJson => ErrorView::ResponseIsNotJson,
            VerifierError::BadSchema => ErrorView::BadSchema,
            VerifierError::BadFramework => ErrorView::BadFramework,
            VerifierError::BadResponse(m) => ErrorView::BadResponse(m@),
            VerifierError::BadStatus => ErrorView::BadStatus,
            VerifierError::NoIdentifierAvailable => ErrorView::NoIdentifierAvailable,
            VerifierError::BadGranularity => ErrorView::BadGranularity,
            VerifierError::UnresolvedEntityType(m) => ErrorView::UnresolvedEntityType(m@),
            VerifierError::MalformedResponse(f) => ErrorView::MalformedResponse(*f),
        }
    }
}

} // verus!
