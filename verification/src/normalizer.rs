//! Repair of what the embedding model returned for one text.
//!
//! A raw vector that is all zeros is a dead one and is replaced. A shorter
//! one is padded with zeros on the right. One that is already of the target
//! dimension passes as it is. A longer one is refused: nothing is cut off.
//!
//! The replacement for a dead vector is drawn at random and scaled to norm
//! one by the caller, in floating point. Here it is only admitted: it has to
//! be of the target dimension, with every component non-zero and of
//! magnitude at most one, and its Euclidean norm, summed up in integers,
//! has to be one within the tolerance of [`crate::norm`].

use vstd::prelude::*;
use crate::component::{
    is_unit_range_bits, is_unit_range_component, is_zero_bits, is_zero_component, ZERO,
};
use crate::error::PipelineError;
use crate::norm::{near_unit_norm, squared_norm_fixed_point, FIXED_ONE, NORM_TOLERANCE};

verus! {

/// The number of components of every embedding handed to a client.
pub const TARGET_DIMENSION: usize = 768;

/// A dead vector: every component compares equal to zero. The empty vector
/// is one.
pub open spec fn degenerate(raw: Seq<u32>) -> bool {
    forall|i: int| 0 <= i < raw.len() ==> is_zero_bits(#[trigger] raw[i])
}

/// What an embedding has to be: of the target dimension and not dead.
pub open spec fn valid_embedding(components: Seq<u32>) -> bool {
    components.len() == TARGET_DIMENSION && !degenerate(components)
}

/// The raw vector followed by as many zeros as it lacks.
pub open spec fn padded(raw: Seq<u32>) -> Seq<u32>
    recommends
        raw.len() <= TARGET_DIMENSION,
{
    Seq::new(
        TARGET_DIMENSION as nat,
        |i: int|
            if i < raw.len() {
                raw[i]
            } else {
                ZERO
            },
    )
}

/// What is asked of a replacement for a dead vector: the target dimension,
/// no zero among its components, and a Euclidean norm of one.
pub open spec fn acceptable_replacement(candidate: Seq<u32>) -> bool {
    &&& candidate.len() == TARGET_DIMENSION
    &&& forall|i: int| 0 <= i < candidate.len() ==> is_unit_range_bits(#[trigger] candidate[i])
    &&& near_unit_norm(candidate)
}

/// The embedding that a raw vector becomes, or why it becomes none.
pub open spec fn normalized(raw: Seq<u32>, replacement: Option<Seq<u32>>) -> Result<
    Seq<u32>,
    PipelineError,
> {
    if degenerate(raw) {
        if replacement is Some && acceptable_replacement(replacement->0) {
            Ok(replacement->0)
        } else {
            Err(PipelineError::ReplacementRejected)
        }
    } else if raw.len() > TARGET_DIMENSION {
        Err(PipelineError::OversizedEmbedding)
    } else {
        Ok(padded(raw))
    }
}

/// The components behind an optional borrowed vector.
pub open spec fn offered(replacement: Option<&Vec<u32>>) -> Option<Seq<u32>> {
    match replacement {
        Some(v) => Some(v@),
        None => None,
    }
}

/// An embedding fit for a response: of the target dimension and not dead.
#[derive(Debug)]
pub struct NormalizedEmbedding {
    components: Vec<u32>,
}

impl View for NormalizedEmbedding {
    type V = Seq<u32>;

    closed spec fn view(&self) -> Seq<u32> {
        self.components@
    }
}

impl NormalizedEmbedding {
    #[verifier::type_invariant]
    spec fn well_formed(self) -> bool {
        valid_embedding(self.components@)
    }

    /// Admits a vector as an embedding if it is one.
    pub fn from_components(components: Vec<u32>) -> (r: Option<Self>)
        ensures
            r is Some <==> valid_embedding(components@),
            r matches Some(e) ==> e@ == components@,
    {
        if components.len() == TARGET_DIMENSION && !is_degenerate(&components) {
            Some(NormalizedEmbedding { components })
        } else {
            None
        }
    }

    /// The components, as bit patterns.
    pub fn components(&self) -> (c: &Vec<u32>)
        ensures
            c@ == self@,
            valid_embedding(self@),
            c@.len() == TARGET_DIMENSION,
    {
        proof {
            use_type_invariant(self);
        }
        &self.components
    }

    /// Gives the components up.
    pub fn into_components(self) -> (c: Vec<u32>)
        ensures
            c@ == self@,
            valid_embedding(self@),
            c@.len() == TARGET_DIMENSION,
    {
        proof {
            use_type_invariant(&self);
        }
        self.components
    }
}

/// Whether the raw vector is a dead one.
pub fn is_degenerate(raw: &Vec<u32>) -> (r: bool)
    ensures
        r == degenerate(raw@),
{
    let mut i: usize = 0;
    while i < raw.len()
        invariant
            i <= raw.len(),
            forall|j: int| 0 <= j < i ==> is_zero_bits(#[trigger] raw@[j]),
        decreases raw.len() - i,
    {
        if !is_zero_component(raw[i]) {
            return false;
        }
        i += 1;
    }
    true
}

/// Whether the candidate may stand in for a dead vector.
pub fn is_acceptable_replacement(candidate: &Vec<u32>) -> (r: bool)
    ensures
        r == acceptable_replacement(candidate@),
{
    if candidate.len() != TARGET_DIMENSION {
        return false;
    }
    let mut i: usize = 0;
    while i < candidate.len()
        invariant
            i <= candidate.len(),
            forall|j: int| 0 <= j < i ==> is_unit_range_bits(#[trigger] candidate@[j]),
        decreases candidate.len() - i,
    {
        if !is_unit_range_component(candidate[i]) {
            return false;
        }
        i += 1;
    }
    match squared_norm_fixed_point(candidate) {
        Some(sum) => FIXED_ONE as u128 - NORM_TOLERANCE as u128 <= sum && sum <= FIXED_ONE as u128
            + NORM_TOLERANCE as u128,
        None => false,
    }
}

/// The raw vector followed by zeros up to the target dimension.
fn pad(raw: &Vec<u32>) -> (out: Vec<u32>)
    requires
        raw@.len() <= TARGET_DIMENSION,
    ensures
        out@ == padded(raw@),
        out@.len() == TARGET_DIMENSION,
{
    let mut out: Vec<u32> = Vec::with_capacity(TARGET_DIMENSION);
    let mut i: usize = 0;
    while i < TARGET_DIMENSION
        invariant
            i <= TARGET_DIMENSION,
            raw@.len() <= TARGET_DIMENSION,
            out@.len() == i,
            forall|j: int| 0 <= j < i ==> out@[j] == padded(raw@)[j],
        decreases TARGET_DIMENSION - i,
    {
        if i < raw.len() {
            out.push(raw[i]);
        } else {
            out.push(ZERO);
        }
        i += 1;
    }
    out
}

/// Padding keeps a vector that is not dead from being dead.
pub proof fn lemma_padded_not_degenerate(raw: Seq<u32>)
    requires
        !degenerate(raw),
        raw.len() <= TARGET_DIMENSION,
    ensures
        valid_embedding(padded(raw)),
{
    let i = choose|i: int| 0 <= i < raw.len() && !is_zero_bits(#[trigger] raw[i]);
    assert(padded(raw)[i] == raw[i]);
}

/// A replacement that is admitted is not dead.
pub proof fn lemma_replacement_not_degenerate(candidate: Seq<u32>)
    requires
        acceptable_replacement(candidate),
    ensures
        valid_embedding(candidate),
        forall|i: int| 0 <= i < candidate.len() ==> !is_zero_bits(#[trigger] candidate[i]),
{
    assert(is_unit_range_bits(candidate[0]));
}

/// Whatever a raw vector becomes is an embedding: of the target dimension
/// and not dead, whether the vector was dead, short or of that dimension.
pub proof fn lemma_normalized_is_embedding(raw: Seq<u32>, replacement: Option<Seq<u32>>)
    ensures
        normalized(raw, replacement) matches Ok(s) ==> valid_embedding(s),
{
    if degenerate(raw) {
        if replacement is Some && acceptable_replacement(replacement->0) {
            lemma_replacement_not_degenerate(replacement->0);
        }
    } else if raw.len() <= TARGET_DIMENSION {
        lemma_padded_not_degenerate(raw);
    }
}

/// What a dead vector becomes has a Euclidean norm of one and no zero among
/// its components.
pub proof fn lemma_dead_vector_becomes_unit(raw: Seq<u32>, replacement: Option<Seq<u32>>)
    requires
        degenerate(raw),
    ensures
        normalized(raw, replacement) matches Ok(s) ==> near_unit_norm(s) && forall|i: int|
            0 <= i < s.len() ==> !is_zero_bits(#[trigger] s[i]),
{
    if replacement is Some && acceptable_replacement(replacement->0) {
        lemma_replacement_not_degenerate(replacement->0);
    }
}

/// A vector that is not dead and not beyond the target dimension keeps its
/// components, in place, and is followed by zeros only.
pub proof fn lemma_short_vector_is_padded(raw: Seq<u32>, replacement: Option<Seq<u32>>)
    requires
        !degenerate(raw),
        raw.len() <= TARGET_DIMENSION,
    ensures
        normalized(raw, replacement) matches Ok(s) && s.len() == TARGET_DIMENSION && (forall|
            i: int,
        |
            0 <= i < raw.len() ==> #[trigger] s[i] == raw[i]) && (forall|i: int|
            raw.len() <= i < TARGET_DIMENSION ==> #[trigger] s[i] == ZERO),
{
}

/// A vector that is already an embedding passes unchanged, whatever
/// replacement is offered with it.
pub proof fn lemma_embedding_passes_unchanged(embedding: Seq<u32>, replacement: Option<Seq<u32>>)
    requires
        valid_embedding(embedding),
    ensures
        normalized(embedding, replacement) == Ok::<Seq<u32>, PipelineError>(embedding),
{
    assert(padded(embedding) =~= embedding);
}

/// Repairing twice is repairing once: what a raw vector has become stays
/// as it is when it is handed in again.
pub proof fn lemma_normalize_idempotent(
    raw: Seq<u32>,
    replacement: Option<Seq<u32>>,
    again: Option<Seq<u32>>,
)
    ensures
        normalized(raw, replacement) matches Ok(s) ==> normalized(s, again) == Ok::<
            Seq<u32>,
            PipelineError,
        >(s),
{
    lemma_normalized_is_embedding(raw, replacement);
    if normalized(raw, replacement) is Ok {
        lemma_embedding_passes_unchanged(normalized(raw, replacement)->Ok_0, again);
    }
}

/// Brings one raw vector to the target dimension.
///
/// A dead vector is answered with the replacement, if one is offered and
/// qualifies. Any other vector is padded with zeros up to the target
/// dimension, which leaves one of exactly that dimension as it is. A vector
/// beyond the target dimension is refused.
pub fn normalize(raw: &Vec<u32>, replacement: Option<&Vec<u32>>) -> (r: Result<
    NormalizedEmbedding,
    PipelineError,
>)
    ensures
        match normalized(raw@, offered(replacement)) {
            Ok(s) => r matches Ok(e) && e@ == s,
            Err(f) => r matches Err(g) && g == f,
        },
        r matches Ok(e) ==> valid_embedding(e@),
        r matches Ok(e) ==> degenerate(raw@) ==> near_unit_norm(e@) && forall|i: int|
            0 <= i < TARGET_DIMENSION ==> !is_zero_bits(#[trigger] e@[i]),
        !degenerate(raw@) && raw@.len() <= TARGET_DIMENSION ==> ({
            &&& r matches Ok(e)
            &&& forall|i: int| 0 <= i < raw@.len() ==> #[trigger] e@[i] == raw@[i]
            &&& forall|i: int| raw@.len() <= i < TARGET_DIMENSION ==> #[trigger] e@[i] == ZERO
        }),
        !degenerate(raw@) && raw@.len() == TARGET_DIMENSION ==> (r matches Ok(e) && e@ == raw@),
{
    if is_degenerate(raw) {
        match replacement {
            Some(candidate) => {
                if is_acceptable_replacement(candidate) {
                    let mut components: Vec<u32> = Vec::with_capacity(TARGET_DIMENSION);
                    components.extend_from_slice(candidate.as_slice());
                    proof {
                        assert(components@ =~= candidate@);
                        lemma_replacement_not_degenerate(candidate@);
                    }
                    Ok(NormalizedEmbedding { components })
                } else {
                    Err(PipelineError::ReplacementRejected)
                }
            },
            None => Err(PipelineError::ReplacementRejected),
        }
    } else if raw.len() > TARGET_DIMENSION {
        Err(PipelineError::OversizedEmbedding)
    } else {
        let components = pad(raw);
        proof {
            lemma_padded_not_degenerate(raw@);
            if raw@.len() == TARGET_DIMENSION {
                assert(components@ =~= raw@);
            }
        }
        Ok(NormalizedEmbedding { components })
    }
}

} // verus!
