//! Drawing the components of a replacement for a dead vector.
//!
//! The caller owns the random source. It offers one draw after the other
//! and the draft keeps those that count: a draw of zero is passed over, so
//! that the caller draws again, and so is anything outside the interval
//! from minus one to one, one excluded. The draft is complete once it holds
//! a draw for every component.

use vstd::prelude::*;
use crate::component::{is_zero_bits, magnitude, magnitude_bits, ONE, SIGN_BIT};
use crate::normalizer::TARGET_DIMENSION;

verus! {

/// Whether a draw counts: it is not zero and lies in the interval from
/// minus one to one, with minus one in it and one not.
pub open spec fn keeps_draw(bits: u32) -> bool {
    &&& !is_zero_bits(bits)
    &&& (magnitude_bits(bits) < ONE || bits == SIGN_BIT + ONE)
}

/// Whether a draw counts.
pub fn is_kept_draw(bits: u32) -> (kept: bool)
    ensures
        kept == keeps_draw(bits),
{
    let m: u32 = magnitude(bits);
    m != 0 && (m < ONE || bits == SIGN_BIT + ONE)
}

/// The draws kept so far for one replacement, in the order they came.
#[derive(Debug)]
pub struct ReplacementDraft {
    draws: Vec<u32>,
}

impl View for ReplacementDraft {
    type V = Seq<u32>;

    closed spec fn view(&self) -> Seq<u32> {
        self.draws@
    }
}

impl ReplacementDraft {
    #[verifier::type_invariant]
    spec fn well_formed(self) -> bool {
        &&& self.draws@.len() <= TARGET_DIMENSION
        &&& forall|i: int| 0 <= i < self.draws@.len() ==> keeps_draw(#[trigger] self.draws@[i])
    }

    /// A draft without a draw.
    pub fn new() -> (draft: Self)
        ensures
            draft@ == Seq::<u32>::empty(),
    {
        ReplacementDraft { draws: Vec::new() }
    }

    /// How many draws the draft still lacks.
    pub fn missing(&self) -> (n: usize)
        ensures
            n == TARGET_DIMENSION - self@.len(),
            self@.len() <= TARGET_DIMENSION,
    {
        proof {
            use_type_invariant(self);
        }
        TARGET_DIMENSION - self.draws.len()
    }

    /// Whether the draft holds a draw for every component.
    pub fn is_complete(&self) -> (done: bool)
        ensures
            done == (self@.len() == TARGET_DIMENSION),
    {
        self.draws.len() == TARGET_DIMENSION
    }

    /// Offers a draw and gives the draft that results. The draw is kept, at
    /// the end of the draft, if the draft is not complete and the draw
    /// counts. Otherwise the draft stays as it is.
    pub fn offer(self, draw: u32) -> (next: Self)
        ensures
            next@ == if self@.len() < TARGET_DIMENSION && keeps_draw(draw) {
                self@.push(draw)
            } else {
                self@
            },
    {
        proof {
            use_type_invariant(&self);
        }
        if self.draws.len() < TARGET_DIMENSION && is_kept_draw(draw) {
            let mut draws = self.draws;
            draws.push(draw);
            ReplacementDraft { draws }
        } else {
            self
        }
    }

    /// Gives the draws up: at most one for every component, none of them
    /// zero and none beyond magnitude one.
    pub fn into_draws(self) -> (draws: Vec<u32>)
        ensures
            draws@ == self@,
            draws@.len() <= TARGET_DIMENSION,
            forall|i: int| 0 <= i < draws@.len() ==> keeps_draw(#[trigger] draws@[i]),
    {
        proof {
            use_type_invariant(&self);
        }
        self.draws
    }
}

} // verus!
