//! Small numeric newtypes shared by the whole harness.

use vstd::prelude::*;

verus! {

/// Blockchain's height (number of blocks).
#[derive(Debug, Copy, Clone, PartialEq, Eq, Structural, PartialOrd, Ord, Hash)]
pub struct Height(pub u64);

impl Height {
    /// Returns zero value of the height.
    pub fn zero() -> (r: Self)
        ensures
            r.0 == 0,
    {
        Height(0)
    }

    /// Returns next value of the height.
    pub fn next(&self) -> (r: Self)
        requires
            self.0 < u64::MAX,
        ensures
            r.0 == self.0 + 1,
    {
        Height(self.0 + 1)
    }

    /// Returns previous value of the height; zero has none.
    pub fn previous(&self) -> (r: Self)
        requires
            self.0 != 0,
        ensures
            r.0 == self.0 - 1,
    {
        Height(self.0 - 1)
    }

    /// Increments the height value.
    pub fn increment(&mut self)
        requires
            old(self).0 < u64::MAX,
        ensures
            final(self).0 == old(self).0 + 1,
    {
        self.0 = self.0 + 1;
    }

    /// Decrements the height value; zero cannot be decremented.
    pub fn decrement(&mut self)
        requires
            old(self).0 != 0,
        ensures
            final(self).0 == old(self).0 - 1,
    {
        self.0 = self.0 - 1;
    }
}

/// Consensus round index.
#[derive(Debug, Copy, Clone, PartialEq, Eq, Structural, PartialOrd, Ord, Hash)]
pub struct Round(pub u32);

impl Round {
    /// Returns zero value of the round.
    pub fn zero() -> (r: Self)
        ensures
            r.0 == 0,
    {
        Round(0)
    }

    /// The round in which every propose of the harness is made.
    pub fn first() -> (r: Self)
        ensures
            r.0 == 1,
    {
        Round(1)
    }

    /// Returns next value of the round.
    pub fn next(&self) -> (r: Self)
        requires
            self.0 < u32::MAX,
        ensures
            r.0 == self.0 + 1,
    {
        Round(self.0 + 1)
    }

    /// Returns previous value of the round; zero has none.
    pub fn previous(&self) -> (r: Self)
        requires
            self.0 != 0,
        ensures
            r.0 == self.0 - 1,
    {
        Round(self.0 - 1)
    }

    /// Increments the round value.
    pub fn increment(&mut self)
        requires
            old(self).0 < u32::MAX,
        ensures
            final(self).0 == old(self).0 + 1,
    {
        self.0 = self.0 + 1;
    }

    /// Decrements the round value; zero cannot be decremented.
    pub fn decrement(&mut self)
        requires
            old(self).0 != 0,
        ensures
            final(self).0 == old(self).0 - 1,
    {
        self.0 = self.0 - 1;
    }

    /// Returns the iterator over rounds in the range from `self` to `to - 1`.
    pub fn iter_to(&self, to: Round) -> (r: RoundRangeIter)
        ensures
            r.next_round() == self.0,
            r.last_round() == to.0,
    {
        RoundRangeIter { next: *self, last: to }
    }
}

/// Validators identifier.
#[derive(Debug, Copy, Clone, PartialEq, Eq, Structural, PartialOrd, Ord, Hash)]
pub struct ValidatorId(pub u16);

impl ValidatorId {
    /// Returns zero value of the validator id.
    pub fn zero() -> (r: Self)
        ensures
            r.0 == 0,
    {
        ValidatorId(0)
    }
}

/// Iterator over a half-open range of rounds.
#[derive(Debug)]
pub struct RoundRangeIter {
    next: Round,
    last: Round,
}

impl RoundRangeIter {
    /// The round that the next call of `next` yields, if it is still in range.
    pub closed spec fn next_round(&self) -> nat {
        self.next.0 as nat
    }

    /// The end of the range, itself excluded.
    pub closed spec fn last_round(&self) -> nat {
        self.last.0 as nat
    }

    /// Yields the next round of the range, or `None` once the range is exhausted.
    pub fn next(&mut self) -> (r: Option<Round>)
        ensures
            old(self).next_round() < old(self).last_round() ==> r == Some(
                Round(old(self).next_round() as u32),
            ) && final(self).next_round() == old(self).next_round() + 1,
            old(self).next_round() >= old(self).last_round() ==> r is None && *final(self)
                == *old(self),
            final(self).last_round() == old(self).last_round(),
    {
        if self.next.0 < self.last.0 {
            let res = Some(self.next);
            self.next.increment();
            res
        } else {
            None
        }
    }
}

} // verus!
