//! From a decoded request and the model's raw vectors to the response.
//!
//! The model itself is not called from here. The caller decodes the
//! request with [`crate::request::decode_request`], hands the texts to the
//! model, draws as many replacements as
//! [`crate::batch::replacements_needed`] asks for, and passes all of it to
//! [`respond`].

use vstd::prelude::*;
use crate::batch::{batch_outcome, normalize_batch, rows};
use crate::error::{PipelineError, STATUS_OK};
use crate::normalizer::valid_embedding;
use crate::request::EmbeddingsRequest;
use crate::response::{build, EmbeddingsResponse};

verus! {

/// The body answered on the root path, for liveness probes.
pub fn root() -> (body: &'static str)
    ensures
        body@ == "Hello, World!"@,
{
    "Hello, World!"
}

/// Answers a request from the raw vectors that the model returned for its
/// texts.
///
/// The model owes one vector per text; a batch of another size fails the
/// request. Otherwise every vector is repaired, in order, and the response
/// holds one entry per text, numbered from zero, under the model name of the
/// request. The first vector that cannot be repaired fails the request.
pub fn respond(
    request: &EmbeddingsRequest,
    raws: &Vec<Vec<u32>>,
    replacements: &Vec<Vec<u32>>,
) -> (r: Result<EmbeddingsResponse, PipelineError>)
    ensures
        raws@.len() != request@.1.len() ==> (r matches Err(f) && f
            == PipelineError::BatchMismatch),
        raws@.len() == request@.1.len() ==> match batch_outcome(rows(raws@), rows(replacements@)) {
            Err(f) => r matches Err(g) && g == f,
            Ok(embeddings) => r matches Ok(response) && response.is_envelope(
                embeddings,
                request@.0,
            ),
        },
        r matches Ok(response) ==> ({
            &&& response.data@.len() == request@.1.len()
            &&& response.data@.len() >= 1
            &&& forall|i: int|
                0 <= i < response.data@.len() ==> (#[trigger] response.data@[i]).index == i
                    && valid_embedding(response.data@[i].embedding@)
        }),
{
    if raws.len() != request.batch_size() {
        return Err(PipelineError::BatchMismatch);
    }
    match normalize_batch(raws, replacements) {
        Err(f) => Err(f),
        Ok(embeddings) => Ok(build(embeddings, request.model().clone())),
    }
}

/// The HTTP status of the reply: success for a response, and the status of
/// the failure otherwise, which is never a success.
pub fn reply_status(outcome: &Result<EmbeddingsResponse, PipelineError>) -> (status: u16)
    ensures
        outcome is Ok <==> status == STATUS_OK,
        outcome matches Err(f) ==> status == f.status_spec(),
{
    match outcome {
        Ok(_) => STATUS_OK,
        Err(f) => f.status(),
    }
}

} // verus!
