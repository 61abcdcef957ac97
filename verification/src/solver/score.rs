//! The objective that every solver maximises.

use std::cmp::Ordering;
use vstd::prelude::*;
use vstd::std_specs::cmp::PartialOrdSpec;
use vstd::std_specs::cmp::PartialOrdSpecImpl;

verus! {

/// What an action sequence reaches: progress first, then quality, then the
/// number of steps it took, fewer being better.
#[derive(Clone, Copy, Debug, PartialEq, Eq, Structural)]
pub struct Score {
    pub quality: u32,
    pub prgress: u16,
    pub steps: u16,
}

impl Score {
    /// Whether `self` is strictly better than `other`: more progress; or the
    /// same progress and more quality; or the same of both in fewer steps.
    pub open spec fn above(self, other: Score) -> bool {
        ||| self.prgress > other.prgress
        ||| self.prgress == other.prgress && self.quality > other.quality
        ||| self.prgress == other.prgress && self.quality == other.quality && self.steps
            < other.steps
    }

    /// Decides [`Self::above`].
    pub fn beats(&self, other: &Score) -> (r: bool)
        ensures
            r == self.above(*other),
    {
        self.prgress > other.prgress || (self.prgress == other.prgress && (self.quality
            > other.quality || (self.quality == other.quality && self.steps < other.steps)))
    }

    /// The better of two scores, the first where neither is better.
    pub fn best_of(self, other: Score) -> (r: Score)
        ensures
            r == if other.above(self) {
                other
            } else {
                self
            },
    {
        if other.beats(&self) {
            other
        } else {
            self
        }
    }
}

impl PartialOrd for Score {
    fn partial_cmp(&self, other: &Score) -> (r: Option<Ordering>) {
        if self.beats(other) {
            Some(Ordering::Greater)
        } else if other.beats(self) {
            Some(Ordering::Less)
        } else {
            Some(Ordering::Equal)
        }
    }
}

impl PartialOrdSpecImpl for Score {
    open spec fn obeys_partial_cmp_spec() -> bool {
        true
    }

    open spec fn partial_cmp_spec(&self, other: &Score) -> Option<Ordering> {
        if self.above(*other) {
            Some(Ordering::Greater)
        } else if other.above(*self) {
            Some(Ordering::Less)
        } else {
            Some(Ordering::Equal)
        }
    }
}

/// The order of scores is transitive: what is better than something better
/// than a third score is better than the third.
pub proof fn lemma_score_order_transitive(a: Score, b: Score, c: Score)
    requires
        a.above(b),
        b.above(c),
    ensures
        a.above(c),
{
}

/// The order of scores is strict: no score is better than itself, and of two
/// scores at most one is better than the other.
pub proof fn lemma_score_order_strict(a: Score, b: Score)
    ensures
        !a.above(a),
        !(a.above(b) && b.above(a)),
{
}

/// The order of scores is total: of two different scores one is better.
pub proof fn lemma_score_order_total(a: Score, b: Score)
    ensures
        a.above(b) || b.above(a) || a == b,
{
}

/// Scores of equal progress and equal quality compare by their steps alone,
/// and the one with fewer steps is the better.
pub proof fn lemma_score_ties_go_to_fewer_steps(a: Score, b: Score)
    requires
        a.prgress == b.prgress,
        a.quality == b.quality,
    ensures
        a.above(b) <==> a.steps < b.steps,
{
}

/// More progress wins whatever the quality and the steps; at equal progress
/// more quality wins whatever the steps.
pub proof fn lemma_score_is_lexicographic(a: Score, b: Score)
    ensures
        a.prgress > b.prgress ==> a.above(b),
        a.prgress == b.prgress && a.quality > b.quality ==> a.above(b),
{
}

/// The comparison operators follow [`Score::above`]: `a > b` holds exactly
/// where `a` is better than `b`, and two scores compare as equal exactly
/// where they are the same.
pub proof fn lemma_score_operators(a: Score, b: Score)
    ensures
        PartialOrdSpec::partial_cmp_spec(&a, &b) == Some(Ordering::Greater) <==> a.above(b),
        PartialOrdSpec::partial_cmp_spec(&a, &b) == Some(Ordering::Less) <==> b.above(a),
        PartialOrdSpec::partial_cmp_spec(&a, &b) == Some(Ordering::Equal) <==> a == b,
{
}

} // verus!
