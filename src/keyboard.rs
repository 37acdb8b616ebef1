use vstd::prelude::*;

use crate::{Match, Matches};

verus! {

/// The best of what is known of a letter and a new outcome for it: exact
/// beats close, and close beats wrong.
pub open spec fn merge(known: Option<Match>, m: Match) -> Match {
    if known == Some(Match::Exact) || m == Match::Exact {
        Match::Exact
    } else if known == Some(Match::Close) || m == Match::Close {
        Match::Close
    } else {
        Match::Wrong
    }
}

/// A lowercase ASCII letter.
pub open spec fn is_lower(c: char) -> bool {
    'a' <= c <= 'z'
}

/// The position of a lowercase letter in the alphabet.
pub open spec fn letter_index(c: char) -> int {
    c as int - 'a' as int
}

/// What is known of each letter after the first `n` letters of `word`, with
/// their outcomes `ms`, have been taken into `letters`, one after the other.
pub open spec fn record(
    letters: Seq<Option<Match>>,
    word: Seq<char>,
    ms: Seq<Match>,
    n: int,
) -> Seq<Option<Match>>
    decreases n,
{
    if n <= 0 {
        letters
    } else {
        let before = record(letters, word, ms, n - 1);
        let k = letter_index(word[n - 1]);
        before.update(k, Some(merge(before[k], ms[n - 1])))
    }
}

/// What the guesses so far tell of each letter of the alphabet.
pub struct Keyboard {
    letters: [Option<Match>; 26],
}

impl View for Keyboard {
    type V = Seq<Option<Match>>;

    closed spec fn view(&self) -> Seq<Option<Match>> {
        self.letters@
    }
}

impl Default for Keyboard {
    fn default() -> (r: Keyboard)
        ensures
            r@ == Seq::new(26, |i: int| None::<Match>),
    {
        Keyboard::new()
    }
}

impl Keyboard {
    /// A keyboard on which nothing is known yet.
    pub fn new() -> (r: Keyboard)
        ensures
            r@ == Seq::new(26, |i: int| None::<Match>),
    {
        let mut letters: [Option<Match>; 26] = [None; 26];
        let mut i: usize = 0;
        while i < 26
            invariant
                i <= 26,
                letters@.len() == 26,
                forall|j: int| 0 <= j < i ==> letters@[j] == None::<Match>,
            decreases 26 - i,
        {
            letters[i] = None;
            i = i + 1;
        }
        let r = Keyboard { letters };
        assert(r@ =~= Seq::new(26, |i: int| None::<Match>));
        r
    }

    /// What is known of the `i`th letter of the alphabet.
    pub fn letter(&self, i: usize) -> (r: Option<Match>)
        requires
            i < 26,
        ensures
            r == self@[i as int],
    {
        self.letters[i]
    }

    /// Takes in a guess of five lowercase letters and its feedback: each
    /// letter keeps the best outcome it has had.
    pub fn push(&mut self, word: &str, matches: Matches)
        requires
            word@.len() == 5,
            forall|i: int| 0 <= i < 5 ==> is_lower(#[trigger] word@[i]),
        ensures
            final(self)@ == record(old(self)@, word@, matches@, 5),
    {
        let mut i: usize = 0;
        while i < 5
            invariant
                i <= 5,
                word@.len() == 5,
                forall|j: int| 0 <= j < 5 ==> is_lower(#[trigger] word@[j]),
                self@.len() == 26,
                self@ == record(old(self)@, word@, matches@, i as int),
            decreases 5 - i,
        {
            let c = word.get_char(i);
            let k = (c as u32 - 'a' as u32) as usize;
            let known = self.letters[k];
            let m = matches.0[i];
            let best = if known == Some(Match::Exact) || m == Match::Exact {
                Match::Exact
            } else if known == Some(Match::Close) || m == Match::Close {
                Match::Close
            } else {
                Match::Wrong
            };
            self.letters[k] = Some(best);
            i = i + 1;
        }
    }
}

} // verus!
