use vstd::prelude::*;

use crate::words::{all_words, words_of};
use crate::{diff, feedback, is_word, Matches};

verus! {

/// A previous guess and its feedback.
pub type Guess = (String, Matches);

/// Walks over the guesses of a game state, from either end, giving each with
/// its feedback against the solution.
pub struct StateIter {
    solution: String,
    guesses: Vec<String>,
    front: usize,
    back: usize,
}

impl StateIter {
    /// The solution that the feedback is computed against.
    pub closed spec fn spec_solution(&self) -> Seq<char> {
        self.solution@
    }

    /// The guesses not yet handed out, in order.
    pub closed spec fn remaining(&self) -> Seq<Seq<char>> {
        words_of(self.guesses@).subrange(self.front as int, self.back as int)
    }

    pub closed spec fn wf(&self) -> bool {
        &&& self.front <= self.back <= self.guesses@.len()
        &&& is_word(self.solution@)
        &&& all_words(words_of(self.guesses@))
    }

    /// Walks over `guesses`, all five-letter words, against `solution`.
    pub fn new(solution: String, guesses: Vec<String>) -> (r: StateIter)
        requires
            is_word(solution@),
            all_words(words_of(guesses@)),
        ensures
            r.wf(),
            r.spec_solution() == solution@,
            r.remaining() == words_of(guesses@),
    {
        let back = guesses.len();
        let r = StateIter { solution, guesses, front: 0, back };
        assert(r.remaining() =~= words_of(r.guesses@));
        r
    }

    /// The next guess from the front, with its feedback.
    pub fn next(&mut self) -> (r: Option<Guess>)
        requires
            old(self).wf(),
        ensures
            final(self).wf(),
            final(self).spec_solution() == old(self).spec_solution(),
            old(self).remaining().len() == 0 ==> r is None && final(self).remaining() == old(
                self,
            ).remaining(),
            old(self).remaining().len() > 0 ==> (r matches Some(g) && g.0@ == old(
                self,
            ).remaining()[0] && g.1@ == feedback(g.0@, old(self).spec_solution())
                && final(self).remaining() == old(self).remaining().drop_first()),
    {
        if self.front < self.back {
            let input = self.guesses[self.front].clone();
            assert(is_word(words_of(self.guesses@)[self.front as int]));
            let m = diff(input.as_str(), self.solution.as_str());
            self.front = self.front + 1;
            assert(self.remaining() =~= old(self).remaining().drop_first());
            Some((input, m))
        } else {
            None
        }
    }

    /// The next guess from the back, with its feedback.
    pub fn next_back(&mut self) -> (r: Option<Guess>)
        requires
            old(self).wf(),
        ensures
            final(self).wf(),
            final(self).spec_solution() == old(self).spec_solution(),
            old(self).remaining().len() == 0 ==> r is None && final(self).remaining() == old(
                self,
            ).remaining(),
            old(self).remaining().len() > 0 ==> (r matches Some(g) && g.0@ == old(
                self,
            ).remaining().last() && g.1@ == feedback(g.0@, old(self).spec_solution())
                && final(self).remaining() == old(self).remaining().drop_last()),
    {
        if self.front < self.back {
            let input = self.guesses[self.back - 1].clone();
            assert(is_word(words_of(self.guesses@)[self.back - 1]));
            let m = diff(input.as_str(), self.solution.as_str());
            self.back = self.back - 1;
            assert(self.remaining() =~= old(self).remaining().drop_last());
            Some((input, m))
        } else {
            None
        }
    }
}

} // verus!
