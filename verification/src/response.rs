//! The response envelope, in the shape that OpenAI-style clients expect.

use vstd::prelude::*;
use crate::batch::embedding_rows;
use crate::normalizer::NormalizedEmbedding;

verus! {

/// Token accounting. Tokens are not counted: both numbers are always zero.
#[derive(Debug, Clone, Copy, PartialEq, Eq, Structural)]
pub struct Usage {
    pub prompt_tokens: u64,
    pub total_tokens: u64,
}

/// One entry of the response: the embedding of the text at position `index`
/// of the request.
#[derive(Debug)]
pub struct EmbeddingData {
    pub object: String,
    pub index: usize,
    pub embedding: NormalizedEmbedding,
}

/// The whole response to an embeddings request.
#[derive(Debug)]
pub struct EmbeddingsResponse {
    pub object: String,
    pub data: Vec<EmbeddingData>,
    pub model: String,
    pub usage: Usage,
}

impl EmbeddingData {
    /// The entry for position `i` that holds the given components.
    pub open spec fn is_entry(self, i: int, components: Seq<u32>) -> bool {
        &&& self.object@ == "embedding"@
        &&& self.index == i
        &&& self.embedding@ == components
    }
}

impl EmbeddingsResponse {
    /// The envelope for the given embeddings and model name: one entry per
    /// embedding, in order and numbered from zero, the model name as given,
    /// and no tokens counted.
    pub open spec fn is_envelope(self, embeddings: Seq<Seq<u32>>, model: Seq<char>) -> bool {
        &&& self.object@ == "list"@
        &&& self.model@ == model
        &&& self.usage == (Usage { prompt_tokens: 0, total_tokens: 0 })
        &&& self.data@.len() == embeddings.len()
        &&& forall|i: int|
            0 <= i < embeddings.len() ==> (#[trigger] self.data@[i]).is_entry(i, embeddings[i])
    }
}

/// Packs embeddings and the model name into the response envelope.
///
/// Entry `i` of `data` holds embedding `i` and has `i` as its index. The
/// model name is written as it is given. It cannot fail.
pub fn build(embeddings: Vec<NormalizedEmbedding>, model_name: String) -> (response:
    EmbeddingsResponse)
    ensures
        response.is_envelope(embedding_rows(embeddings@), model_name@),
        response.data@.len() == embeddings@.len(),
        forall|i: int|
            0 <= i < embeddings@.len() ==> (#[trigger] response.data@[i]).index == i
                && response.data@[i].embedding == embeddings@[i],
        response.model == model_name,
{
    let ghost all = embeddings@;
    let mut data: Vec<EmbeddingData> = Vec::with_capacity(embeddings.len());
    for embedding in it: embeddings.into_iter()
        invariant
            it.seq() == all,
            data@.len() == it.index(),
            forall|j: int|
                0 <= j < data@.len() ==> (#[trigger] data@[j]).index == j && data@[j].embedding
                    == all[j] && data@[j].object@ == "embedding"@,
    {
        let index: usize = data.len();
        data.push(EmbeddingData { object: "embedding".to_owned(), index, embedding });
    }
    EmbeddingsResponse {
        object: "list".to_owned(),
        data,
        model: model_name,
        usage: Usage { prompt_tokens: 0, total_tokens: 0 },
    }
}

} // verus!
