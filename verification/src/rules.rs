//! Rule parameters for a life-like, optionally multi-state cellular automaton,
//! and the single-cell transition function they induce.

use vstd::prelude::*;

verus! {

/// The mathematical content of a [`Rules`] value: which live-neighbor counts
/// let a dead cell be born, which let a first-generation cell survive, and how
/// far a cell may age before it dies.
pub ghost struct RuleModel {
    pub survival: Seq<u8>,
    pub birth: Seq<u8>,
    pub max_generation: u8,
}

/// A ruleset consisting of survival, birth, and generation rules.
///
/// `survival` and `birth` hold neighbor counts (each meaningful value lies in
/// `0..=8`); `generation` is the greatest state a cell can reach: state 0 is
/// dead, state 1 is alive in its first generation, and states above 1 are
/// aging states used by generations-style rules.
pub struct Rules {
    pub survival: Vec<u8>,
    pub birth: Vec<u8>,
    pub generation: u8,
}

impl View for Rules {
    type V = RuleModel;

    open spec fn view(&self) -> RuleModel {
        RuleModel {
            survival: self.survival@,
            birth: self.birth@,
            max_generation: self.generation,
        }
    }
}

/// The rules of Conway's Game of Life: a live cell survives on 2 or 3 live
/// neighbors, a dead cell is born on exactly 3, and states are binary.
pub open spec fn conway() -> RuleModel {
    RuleModel { survival: seq![2u8, 3u8], birth: seq![3u8], max_generation: 1u8 }
}

/// The state a cell takes in the next generation, given its current state and
/// its count of live first-generation neighbors.
///
/// In priority order: a dead cell is born on a count in `birth`; a
/// first-generation cell stays at 1 on a count in `survival`; any other live
/// cell below `max_generation` ages by one; everything else dies.
pub open spec fn transition(rules: RuleModel, cur: u8, count: nat) -> u8 {
    if cur == 0 {
        if rules.birth.contains(count as u8) {
            1u8
        } else {
            0u8
        }
    } else if cur == 1 && rules.survival.contains(count as u8) {
        1u8
    } else if cur < rules.max_generation {
        (cur + 1) as u8
    } else {
        0u8
    }
}

/// Linear search for a neighbor count in a rule's count list.
fn contains_count(counts: &Vec<u8>, count: u8) -> (present: bool)
    ensures
        present == counts@.contains(count),
{
    let mut i: usize = 0;
    while i < counts.len()
        invariant
            i <= counts@.len(),
            forall|k: int| 0 <= k < i ==> counts@[k] != count,
        decreases counts@.len() - i,
    {
        if counts[i] == count {
            return true;
        }
        i += 1;
    }
    false
}

impl Rules {
    /// Computes the next state of one cell from its current state and its
    /// count of live first-generation neighbors.
    pub fn apply(&self, cur: u8, count: u8) -> (next: u8)
        ensures
            next == transition(self@, cur, count as nat),
    {
        if cur == 0 {
            if contains_count(&self.birth, count) {
                1
            } else {
                0
            }
        } else if cur == 1 && contains_count(&self.survival, count) {
            1
        } else if cur < self.generation {
            cur + 1
        } else {
            0
        }
    }
}

impl Default for Rules {
    /// Returns a ruleset using rules from Conway's Game of Life.
    fn default() -> (rules: Self)
        ensures
            rules@ == conway(),
    {
        let rules = Rules { survival: vec![2, 3], birth: vec![3], generation: 1 };
        proof {
            assert(rules@.survival =~= conway().survival);
            assert(rules@.birth =~= conway().birth);
        }
        rules
    }
}

} // verus!
