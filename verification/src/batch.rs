//! Repair of a whole batch: one raw vector per text, in the order given.
//!
//! Replacements for dead vectors come as a supply that is used up in
//! order: the first dead vector of the batch takes the first replacement,
//! the second takes the second, and so on. The first vector that cannot be
//! repaired fails the batch.

use vstd::prelude::*;
use crate::error::PipelineError;
use crate::normalizer::{
    degenerate, is_degenerate, normalize, normalized, valid_embedding, NormalizedEmbedding,
};

verus! {

/// The contents of a list of vectors.
pub open spec fn rows(vectors: Seq<Vec<u32>>) -> Seq<Seq<u32>> {
    Seq::new(vectors.len(), |i: int| vectors[i]@)
}

/// The contents of a list of embeddings.
pub open spec fn embedding_rows(embeddings: Seq<NormalizedEmbedding>) -> Seq<Seq<u32>> {
    Seq::new(embeddings.len(), |i: int| embeddings[i]@)
}

/// How many of the raw vectors are dead.
pub open spec fn degenerate_count(raws: Seq<Seq<u32>>) -> nat
    decreases raws.len(),
{
    if raws.len() == 0 {
        0
    } else {
        degenerate_count(raws.drop_last()) + if degenerate(raws.last()) {
            1nat
        } else {
            0nat
        }
    }
}

/// The replacement at position `k` of the supply, if it reaches that far.
pub open spec fn supplied(replacements: Seq<Seq<u32>>, k: nat) -> Option<Seq<u32>> {
    if k < replacements.len() {
        Some(replacements[k as int])
    } else {
        None
    }
}

/// What the raw vector at position `i` becomes. A dead one is offered the
/// replacement whose position is the number of dead vectors before it.
pub open spec fn normalized_at(raws: Seq<Seq<u32>>, replacements: Seq<Seq<u32>>, i: int) -> Result<
    Seq<u32>,
    PipelineError,
>
    recommends
        0 <= i < raws.len(),
{
    normalized(raws[i], supplied(replacements, degenerate_count(raws.take(i))))
}

/// What the batch becomes: every vector repaired, or the failure of the
/// first one that cannot be.
pub open spec fn batch_outcome(raws: Seq<Seq<u32>>, replacements: Seq<Seq<u32>>) -> Result<
    Seq<Seq<u32>>,
    PipelineError,
>
    decreases raws.len(),
{
    if raws.len() == 0 {
        Ok(Seq::empty())
    } else {
        match batch_outcome(raws.drop_last(), replacements) {
            Err(f) => Err(f),
            Ok(done) => match normalized_at(raws, replacements, raws.len() - 1) {
                Ok(s) => Ok(done.push(s)),
                Err(f) => Err(f),
            },
        }
    }
}

/// A prefix of the batch, one vector longer, counts one more dead vector
/// exactly if the added one is dead.
pub proof fn lemma_degenerate_count_step(raws: Seq<Seq<u32>>, i: int)
    requires
        0 <= i < raws.len(),
    ensures
        degenerate_count(raws.take(i + 1)) == degenerate_count(raws.take(i)) + if degenerate(
            raws[i],
        ) {
            1nat
        } else {
            0nat
        },
        degenerate_count(raws.take(i)) <= i,
    decreases i,
{
    assert(raws.take(i + 1).drop_last() =~= raws.take(i));
    assert(raws.take(i + 1).last() == raws[i]);
    if i > 0 {
        lemma_degenerate_count_step(raws, i - 1);
    } else {
        assert(raws.take(0).len() == 0);
    }
}

/// What a vector becomes does not depend on the vectors after it.
pub proof fn lemma_normalized_at_prefix(
    raws: Seq<Seq<u32>>,
    replacements: Seq<Seq<u32>>,
    n: int,
    i: int,
)
    requires
        0 <= i < n <= raws.len(),
    ensures
        normalized_at(raws.take(n), replacements, i) == normalized_at(raws, replacements, i),
{
    assert(raws.take(n).take(i) =~= raws.take(i));
}

/// The outcome of a prefix of the batch, one vector longer.
pub proof fn lemma_batch_outcome_step(raws: Seq<Seq<u32>>, replacements: Seq<Seq<u32>>, i: int)
    requires
        0 <= i < raws.len(),
    ensures
        batch_outcome(raws.take(i + 1), replacements) == match batch_outcome(
            raws.take(i),
            replacements,
        ) {
            Err(f) => Err(f),
            Ok(done) => match normalized_at(raws, replacements, i) {
                Ok(s) => Ok(done.push(s)),
                Err(f) => Err(f),
            },
        },
{
    assert(raws.take(i + 1).drop_last() =~= raws.take(i));
    lemma_normalized_at_prefix(raws, replacements, i + 1, i);
}

/// A batch that is repaired keeps its length and its order: position `i` of
/// the result is what the raw vector at position `i` becomes, and it is an
/// embedding. A batch that fails does so with the failure of the first
/// vector that cannot be repaired.
pub proof fn lemma_batch_outcome_pointwise(raws: Seq<Seq<u32>>, replacements: Seq<Seq<u32>>)
    ensures
        match batch_outcome(raws, replacements) {
            Ok(done) => {
                &&& done.len() == raws.len()
                &&& forall|i: int|
                    0 <= i < raws.len() ==> #[trigger] normalized_at(raws, replacements, i) == Ok::<
                        Seq<u32>,
                        PipelineError,
                    >(done[i])
                &&& forall|i: int| 0 <= i < raws.len() ==> valid_embedding(#[trigger] done[i])
            },
            Err(f) => exists|i: int|
                {
                    &&& 0 <= i < raws.len()
                    &&& #[trigger] normalized_at(raws, replacements, i) == Err::<
                        Seq<u32>,
                        PipelineError,
                    >(f)
                    &&& forall|j: int|
                        0 <= j < i ==> (#[trigger] normalized_at(raws, replacements, j)) is Ok
                },
        },
    decreases raws.len(),
{
    if raws.len() > 0 {
        let n = raws.len() - 1;
        let front = raws.drop_last();
        lemma_batch_outcome_pointwise(front, replacements);
        assert(front =~= raws.take(n));
        assert forall|i: int| 0 <= i < n implies normalized_at(front, replacements, i)
            == normalized_at(raws, replacements, i) by {
            lemma_normalized_at_prefix(raws, replacements, n, i);
        }
        match batch_outcome(front, replacements) {
            Err(f) => {
                let i = choose|i: int|
                    {
                        &&& 0 <= i < front.len()
                        &&& #[trigger] normalized_at(front, replacements, i) == Err::<
                            Seq<u32>,
                            PipelineError,
                        >(f)
                        &&& forall|j: int|
                            0 <= j < i ==> (#[trigger] normalized_at(front, replacements, j)) is Ok
                    };
                assert(normalized_at(raws, replacements, i) == Err::<Seq<u32>, PipelineError>(f));
                assert forall|j: int| 0 <= j < i implies (#[trigger] normalized_at(
                    raws,
                    replacements,
                    j,
                )) is Ok by {
                    assert(normalized_at(front, replacements, j) is Ok);
                }
            },
            Ok(done) => {
                match normalized_at(raws, replacements, n) {
                    Ok(s) => {
                        let all = done.push(s);
                        assert forall|i: int| 0 <= i < raws.len() implies #[trigger] normalized_at(
                            raws,
                            replacements,
                            i,
                        ) == Ok::<Seq<u32>, PipelineError>(all[i]) by {
                            if i < n {
                                assert(normalized_at(front, replacements, i) == Ok::<
                                    Seq<u32>,
                                    PipelineError,
                                >(done[i]));
                            }
                        }
                        assert forall|i: int| 0 <= i < raws.len() implies valid_embedding(
                            #[trigger] all[i],
                        ) by {
                            if i < n {
                                assert(valid_embedding(done[i]));
                            } else {
                                crate::normalizer::lemma_normalized_is_embedding(
                                    raws[n],
                                    supplied(replacements, degenerate_count(raws.take(n))),
                                );
                            }
                        }
                    },
                    Err(f) => {
                        assert forall|j: int| 0 <= j < n implies (#[trigger] normalized_at(
                            raws,
                            replacements,
                            j,
                        )) is Ok by {
                            assert(normalized_at(front, replacements, j) == Ok::<
                                Seq<u32>,
                                PipelineError,
                            >(done[j]));
                        }
                    },
                }
            },
        }
    }
}

/// How many replacements the batch asks for: one for each dead vector.
pub fn replacements_needed(raws: &Vec<Vec<u32>>) -> (n: usize)
    ensures
        n == degenerate_count(rows(raws@)),
        n <= raws@.len(),
{
    let mut n: usize = 0;
    let mut i: usize = 0;
    assert(rows(raws@).take(0).len() == 0);
    while i < raws.len()
        invariant
            i <= raws.len(),
            n <= i,
            n == degenerate_count(rows(raws@).take(i as int)),
        decreases raws.len() - i,
    {
        proof {
            lemma_degenerate_count_step(rows(raws@), i as int);
        }
        if is_degenerate(&raws[i]) {
            n += 1;
        }
        i += 1;
    }
    assert(rows(raws@).take(raws@.len() as int) =~= rows(raws@));
    n
}

/// Repairs every vector of the batch, in order.
///
/// The result has one embedding per raw vector, at the same position. Dead
/// vectors take their replacements from the supply in order. The batch
/// fails with the failure of the first vector that cannot be repaired: one
/// that is too long, or a dead one for which the supply has run out or holds
/// a replacement that does not qualify.
pub fn normalize_batch(raws: &Vec<Vec<u32>>, replacements: &Vec<Vec<u32>>) -> (r: Result<
    Vec<NormalizedEmbedding>,
    PipelineError,
>)
    ensures
        match batch_outcome(rows(raws@), rows(replacements@)) {
            Ok(done) => r matches Ok(out) && embedding_rows(out@) == done,
            Err(f) => r matches Err(g) && g == f,
        },
        r matches Ok(out) ==> ({
            &&& out@.len() == raws@.len()
            &&& forall|i: int|
                0 <= i < out@.len() ==> valid_embedding(#[trigger] out@[i]@) && normalized_at(
                    rows(raws@),
                    rows(replacements@),
                    i,
                ) == Ok::<Seq<u32>, PipelineError>(out@[i]@)
        }),
{
    let ghost all = rows(raws@);
    let ghost supply = rows(replacements@);
    let mut out: Vec<NormalizedEmbedding> = Vec::new();
    let mut used: usize = 0;
    let mut i: usize = 0;
    proof {
        assert(all.take(0).len() == 0);
        assert(embedding_rows(out@) =~= Seq::<Seq<u32>>::empty());
    }
    while i < raws.len()
        invariant
            all == rows(raws@),
            supply == rows(replacements@),
            i <= raws.len(),
            used <= i,
            used == degenerate_count(all.take(i as int)),
            out@.len() == i,
            batch_outcome(all.take(i as int), supply) == Ok::<Seq<Seq<u32>>, PipelineError>(
                embedding_rows(out@),
            ),
        decreases raws.len() - i,
    {
        let raw = &raws[i];
        let offer: Option<&Vec<u32>> = if used < replacements.len() {
            Some(&replacements[used])
        } else {
            None
        };
        proof {
            lemma_degenerate_count_step(all, i as int);
            lemma_batch_outcome_step(all, supply, i as int);
            assert(crate::normalizer::offered(offer) == supplied(supply, used as nat));
            assert(all[i as int] == raw@);
        }
        let dead = is_degenerate(raw);
        match normalize(raw, offer) {
            Ok(e) => {
                let ghost before = embedding_rows(out@);
                out.push(e);
                assert(embedding_rows(out@) =~= before.push(e@));
            },
            Err(f) => {
                proof {
                    lemma_batch_outcome_rest(all, supply, i as int + 1);
                }
                return Err(f);
            },
        }
        if dead {
            used += 1;
        }
        i += 1;
    }
    proof {
        assert(all.take(raws@.len() as int) =~= all);
        lemma_batch_outcome_pointwise(all, supply);
    }
    Ok(out)
}

/// Once a prefix of the batch has failed, the batch fails in the same way.
pub proof fn lemma_batch_outcome_rest(raws: Seq<Seq<u32>>, replacements: Seq<Seq<u32>>, n: int)
    requires
        0 <= n <= raws.len(),
        batch_outcome(raws.take(n), replacements) is Err,
    ensures
        batch_outcome(raws, replacements) == batch_outcome(raws.take(n), replacements),
    decreases raws.len() - n,
{
    if n < raws.len() {
        lemma_batch_outcome_step(raws, replacements, n);
        lemma_batch_outcome_rest(raws, replacements, n + 1);
    } else {
        assert(raws.take(n) =~= raws);
    }
}

} // verus!
