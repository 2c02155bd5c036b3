//! Failures of the request pipeline and what a client gets to see of them.

use vstd::prelude::*;

verus! {

/// The family a failure belongs to. It decides the class of the HTTP status.
#[derive(Debug, Clone, Copy, PartialEq, Eq, Structural)]
pub enum ErrorKind {
    /// The request could not be read as an embeddings request.
    DecodeError,
    /// The embedding provider failed on a well-formed batch.
    InferenceError,
    /// A raw vector could not be brought to the target dimension.
    NormalizationError,
}

/// Why a request failed.
#[derive(Debug, Clone, Copy, PartialEq, Eq, Structural)]
pub enum PipelineError {
    /// The body is not JSON of the shape of an embeddings request.
    MalformedBody,
    /// The body was read, but `input` holds no text.
    EmptyInput,
    /// The provider failed on the batch.
    ProviderFailed,
    /// The provider returned a different number of vectors than texts given.
    BatchMismatch,
    /// A raw vector is longer than the target dimension; nothing is cut off.
    OversizedEmbedding,
    /// A dead vector needed a replacement and none that qualifies was supplied.
    ReplacementRejected,
}

/// Status of a request that succeeded.
pub const STATUS_OK: u16 = 200;

/// Status for a body that is not JSON of the expected shape.
pub const STATUS_BAD_REQUEST: u16 = 400;

/// Status for a body that was read but breaks a rule of the request.
pub const STATUS_UNPROCESSABLE: u16 = 422;

/// Status for every failure on the server's side.
pub const STATUS_SERVER_ERROR: u16 = 500;

impl PipelineError {
    pub open spec fn kind_spec(self) -> ErrorKind {
        match self {
            PipelineError::MalformedBody | PipelineError::EmptyInput => ErrorKind::DecodeError,
            PipelineError::ProviderFailed | PipelineError::BatchMismatch => {
                ErrorKind::InferenceError
            },
            PipelineError::OversizedEmbedding | PipelineError::ReplacementRejected => {
                ErrorKind::NormalizationError
            },
        }
    }

    pub open spec fn status_spec(self) -> u16 {
        match self {
            PipelineError::MalformedBody => STATUS_BAD_REQUEST,
            PipelineError::EmptyInput => STATUS_UNPROCESSABLE,
            _ => STATUS_SERVER_ERROR,
        }
    }

    pub open spec fn message_spec(self) -> Seq<char> {
        match self {
            PipelineError::MalformedBody => "request body is not a valid embeddings request"@,
            PipelineError::EmptyInput => "input must hold at least one text"@,
            PipelineError::ProviderFailed => "the embedding model failed on this input"@,
            PipelineError::BatchMismatch => "the embedding model returned a batch of the wrong size"@,
            PipelineError::OversizedEmbedding => "the embedding model produces more dimensions than the server is configured for"@,
            PipelineError::ReplacementRejected => "no usable replacement for an all-zero embedding"@,
        }
    }

    /// The family of this failure.
    pub fn kind(self) -> (k: ErrorKind)
        ensures
            k == self.kind_spec(),
    {
        match self {
            PipelineError::MalformedBody | PipelineError::EmptyInput => ErrorKind::DecodeError,
            PipelineError::ProviderFailed | PipelineError::BatchMismatch => {
                ErrorKind::InferenceError
            },
            PipelineError::OversizedEmbedding | PipelineError::ReplacementRejected => {
                ErrorKind::NormalizationError
            },
        }
    }

    /// The HTTP status sent with this failure: a client error for what the
    /// client sent, a server error for everything else, never a success.
    pub fn status(self) -> (s: u16)
        ensures
            s == self.status_spec(),
            self.kind_spec() == ErrorKind::DecodeError <==> 400 <= s < 500,
            self.kind_spec() != ErrorKind::DecodeError <==> 500 <= s < 600,
            s != STATUS_OK,
    {
        match self {
            PipelineError::MalformedBody => STATUS_BAD_REQUEST,
            PipelineError::EmptyInput => STATUS_UNPROCESSABLE,
            _ => STATUS_SERVER_ERROR,
        }
    }

    /// The sentence shown to the client. It is fixed per failure and carries
    /// nothing of the server's internals.
    pub fn message(self) -> (m: &'static str)
        ensures
            m@ == self.message_spec(),
    {
        match self {
            PipelineError::MalformedBody => "request body is not a valid embeddings request",
            PipelineError::EmptyInput => "input must hold at least one text",
            PipelineError::ProviderFailed => "the embedding model failed on this input",
            PipelineError::BatchMismatch => "the embedding model returned a batch of the wrong size",
            PipelineError::OversizedEmbedding => "the embedding model produces more dimensions than the server is configured for",
            PipelineError::ReplacementRejected => "no usable replacement for an all-zero embedding",
        }
    }
}

impl ErrorKind {
    pub open spec fn name_spec(self) -> Seq<char> {
        match self {
            ErrorKind::DecodeError => "decode_error"@,
            ErrorKind::InferenceError => "inference_error"@,
            ErrorKind::NormalizationError => "normalization_error"@,
        }
    }

    /// The error type written into the body of a failed response.
    pub fn name(self) -> (n: &'static str)
        ensures
            n@ == self.name_spec(),
    {
        match self {
            ErrorKind::DecodeError => "decode_error",
            ErrorKind::InferenceError => "inference_error",
            ErrorKind::NormalizationError => "normalization_error",
        }
    }
}

} // verus!
