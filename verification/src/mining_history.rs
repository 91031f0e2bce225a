//! The record of the searches that met their target.

use vstd::prelude::*;

verus! {

/// One search that met its target: what it found, where, and how good it
/// was.
#[derive(Debug)]
pub struct MiningPattern {
    pub challenge: Vec<u8>,
    pub nonce_range: (u64, u64),
    pub difficulty: u32,
}

/// A pattern as a mathematical value.
pub struct MiningPatternView {
    pub challenge: Seq<u8>,
    pub nonce_range: (u64, u64),
    pub difficulty: u32,
}

impl View for MiningPattern {
    type V = MiningPatternView;

    open spec fn view(&self) -> MiningPatternView {
        MiningPatternView {
            challenge: self.challenge@,
            nonce_range: self.nonce_range,
            difficulty: self.difficulty,
        }
    }
}

impl Clone for MiningPattern {
    fn clone(&self) -> (copy: MiningPattern)
        ensures
            copy@ == self@,
    {
        MiningPattern {
            challenge: self.challenge.clone(),
            nonce_range: (self.nonce_range.0, self.nonce_range.1),
            difficulty: self.difficulty,
        }
    }
}

/// The patterns of a node, oldest first.
#[derive(Debug)]
pub struct MiningHistory {
    patterns: Vec<MiningPattern>,
}

/// The views of a sequence of patterns.
pub open spec fn pattern_views(patterns: Seq<MiningPattern>) -> Seq<MiningPatternView> {
    patterns.map_values(|p: MiningPattern| p@)
}

/// The views of a sequence of borrowed patterns.
pub open spec fn borrowed_views(patterns: Seq<&MiningPattern>) -> Seq<MiningPatternView> {
    patterns.map_values(|p: &MiningPattern| p@)
}

/// The patterns of difficulty `target_difficulty` or more, in their order.
pub open spec fn best_patterns(
    patterns: Seq<MiningPatternView>,
    target_difficulty: u32,
) -> Seq<MiningPatternView> {
    patterns.filter(|p: MiningPatternView| p.difficulty >= target_difficulty)
}

impl View for MiningHistory {
    type V = Seq<MiningPatternView>;

    closed spec fn view(&self) -> Seq<MiningPatternView> {
        pattern_views(self.patterns@)
    }
}

impl MiningHistory {
    /// The history that starts from what was kept before: `loaded`, where
    /// there was something to load; else empty.
    pub fn new(loaded: Option<Vec<MiningPattern>>) -> (history: MiningHistory)
        ensures
            history@ == match loaded {
                Some(patterns) => pattern_views(patterns@),
                None => Seq::empty(),
            },
    {
        match loaded {
            Some(patterns) => MiningHistory { patterns },
            None => {
                let history = MiningHistory { patterns: Vec::new() };
                assert(history@ =~= Seq::empty());
                history
            },
        }
    }

    /// Adds a pattern at the end.
    pub fn add_pattern(&mut self, pattern: MiningPattern)
        ensures
            final(self)@ == old(self)@.push(pattern@),
    {
        self.patterns.push(pattern);
        assert(self@ =~= old(self)@.push(pattern@));
    }

    /// The patterns of difficulty `target_difficulty` or more, oldest first.
    pub fn get_best_patterns(&self, target_difficulty: u32) -> (best: Vec<&MiningPattern>)
        ensures
            borrowed_views(best@) == best_patterns(self@, target_difficulty),
    {
        let mut best: Vec<&MiningPattern> = Vec::new();
        let mut i: usize = 0;
        assert(borrowed_views(best@) =~= Seq::empty());
        while i < self.patterns.len()
            invariant
                i <= self.patterns.len(),
                borrowed_views(best@) == best_patterns(self@.take(i as int), target_difficulty),
            decreases self.patterns.len() - i,
        {
            let pattern = &self.patterns[i];
            proof {
                let keep = |p: MiningPatternView| p.difficulty >= target_difficulty;
                let before = self@.take(i as int);
                assert(self@.take(i + 1) == before.push(pattern@));
                assert(before.push(pattern@).drop_last() == before);
                reveal(Seq::filter);
                assert(before.push(pattern@).filter(keep) == if keep(pattern@) {
                    before.filter(keep).push(pattern@)
                } else {
                    before.filter(keep)
                });
            }
            if pattern.difficulty >= target_difficulty {
                let ghost held = best@;
                best.push(pattern);
                assert(borrowed_views(best@) =~= borrowed_views(held).push(pattern@));
            }
            i += 1;
        }
        assert(self@.take(self.patterns.len() as int) == self@);
        best
    }

    /// All patterns, oldest first.
    pub fn patterns(&self) -> (all: &Vec<MiningPattern>)
        ensures
            pattern_views(all@) == self@,
    {
        &self.patterns
    }
}

} // verus!
