use vstd::prelude::*;

verus! {

/// A number of points.
#[derive(Debug, Clone, Copy, PartialEq, Eq, Structural, PartialOrd, Ord, Hash)]
pub struct Score(pub u32);

impl Score {
    /// No points.
    pub fn new() -> (r: Score)
        ensures
            r.0 == 0,
    {
        Score(0)
    }

    pub fn value(&self) -> (r: u32)
        ensures
            r == self.0,
    {
        self.0
    }
}

impl std::ops::Add for Score {
    type Output = Score;

    fn add(self, other: Score) -> (r: Score) {
        Score(self.0 + other.0)
    }
}

impl vstd::std_specs::ops::AddSpecImpl for Score {
    open spec fn obeys_add_spec() -> bool {
        true
    }

    open spec fn add_req(self, rhs: Score) -> bool {
        self.0 + rhs.0 <= u32::MAX
    }

    open spec fn add_spec(self, rhs: Score) -> Score {
        Score((self.0 + rhs.0) as u32)
    }
}

} // verus!
