//! The request pipeline of an embeddings endpoint: decoding a request,
//! repairing what the model returned, and packing the response.
//!
//! Embedding components are single-precision floats. This crate holds each
//! one as its IEEE-754 bit pattern in a `u32` and reads all it needs from
//! that: whether a component is zero, how large it is, and what the norm of
//! a vector comes to. Floating-point arithmetic itself, the model and the
//! random source stay with the caller.

pub mod batch;
pub mod component;
pub mod draft;
pub mod error;
pub mod norm;
pub mod normalizer;
pub mod pipeline;
pub mod request;
pub mod response;

pub use batch::{normalize_batch, replacements_needed};
pub use draft::ReplacementDraft;
pub use error::{ErrorKind, PipelineError};
pub use normalizer::{normalize, NormalizedEmbedding, TARGET_DIMENSION};
pub use pipeline::{reply_status, respond, root};
pub use request::{decode_request, EmbeddingsRequest};
pub use response::{build, EmbeddingData, EmbeddingsResponse, Usage};
