use vstd::prelude::*;

use crate::iter::StateIter;
use crate::words::{all_words, words_of, WordSet};
use crate::{diff, feedback, is_word, row, Match, Matches};

verus! {

/// The number of guesses a game allows.
pub const MAX_GUESSES: usize = 6;

/// Why a guess was refused.
#[derive(Clone, Copy, Debug, PartialEq, Eq, Structural)]
pub enum GuessError {
    /// Hard mode: the letter at this position was exact in the previous guess
    /// and is not repeated.
    MissingExactValues(usize),
    /// The word is in neither list.
    NotInWordList,
}

/// How a finished game ended.
#[derive(Clone, Copy, Debug, PartialEq, Eq, Structural)]
pub enum GameOver {
    Win,
    Lose,
}

impl GameOver {
    pub fn is_win(&self) -> (r: bool)
        ensures
            r == (*self == GameOver::Win),
    {
        match self {
            GameOver::Win => true,
            GameOver::Lose => false,
        }
    }

    pub fn is_lose(&self) -> (r: bool)
        ensures
            r == (*self == GameOver::Lose),
    {
        match self {
            GameOver::Win => false,
            GameOver::Lose => true,
        }
    }
}

/// Whether a game with these guesses is over: won when the last guess is the
/// solution, lost when the guesses are used up, and going on otherwise
/// (including before the first guess).
pub open spec fn outcome_of(history: Seq<Seq<char>>, sol: Seq<char>) -> Option<GameOver> {
    if history.len() == 0 {
        None
    } else if history.last() == sol {
        Some(GameOver::Win)
    } else if history.len() >= MAX_GUESSES {
        Some(GameOver::Lose)
    } else {
        None
    }
}

/// Whether guess `w` drops the letter at position `i`, which was exact in the
/// previous guess `prev`.
pub open spec fn missing_exact(prev: Seq<char>, sol: Seq<char>, w: Seq<char>, i: int) -> bool {
    feedback(prev, sol)[i] == Match::Exact && prev[i] != w[i]
}

/// The first position from `i` on that `w` drops, if any.
pub open spec fn first_missing(prev: Seq<char>, sol: Seq<char>, w: Seq<char>, i: int) -> Option<
    int,
>
    decreases 5 - i,
{
    if i >= 5 {
        None
    } else if missing_exact(prev, sol, w, i) {
        Some(i)
    } else {
        first_missing(prev, sol, w, i + 1)
    }
}

/// What guessing `w` gives: refused when it is no word of the set, then (in
/// hard mode, after an earlier guess) when it drops an exact letter of the
/// previous guess, naming the first such position; else its feedback.
pub open spec fn guess_result(
    ws: WordSet,
    history: Seq<Seq<char>>,
    sol: Seq<char>,
    w: Seq<char>,
    hard: bool,
) -> Result<Seq<Match>, GuessError> {
    if !ws.spec_valid(w) {
        Err(GuessError::NotInWordList)
    } else if hard && history.len() > 0 && first_missing(history.last(), sol, w, 0) is Some {
        Err(GuessError::MissingExactValues(first_missing(history.last(), sol, w, 0)->0 as usize))
    } else {
        Ok(feedback(w, sol))
    }
}

/// A result of `guess`, with the feedback as its sequence of outcomes.
pub open spec fn result_view(r: Result<Matches, GuessError>) -> Result<Seq<Match>, GuessError> {
    match r {
        Ok(m) => Ok(m@),
        Err(e) => Err(e),
    }
}

/// The score of a game: the number of guesses, or `X` for a lost game.
pub open spec fn score_char(history: Seq<Seq<char>>, sol: Seq<char>) -> char {
    let n = history.len();
    if n < 6 || history[5] == sol {
        digit(n as int)
    } else {
        'X'
    }
}

/// The decimal digit for `n` (0 to 9).
pub open spec fn digit(n: int) -> char {
    if n == 0 {
        '0'
    } else if n == 1 {
        '1'
    } else if n == 2 {
        '2'
    } else if n == 3 {
        '3'
    } else if n == 4 {
        '4'
    } else if n == 5 {
        '5'
    } else if n == 6 {
        '6'
    } else if n == 7 {
        '7'
    } else if n == 8 {
        '8'
    } else {
        '9'
    }
}

/// The digits of `n` in decimal, without leading zeros.
pub open spec fn decimal(n: nat) -> Seq<char>
    decreases n,
{
    if n < 10 {
        seq![digit(n as int)]
    } else {
        decimal(n / 10) + seq![digit((n % 10) as int)]
    }
}

/// The decimal digit for `n`, as a string.
pub fn digit_str(n: usize) -> (r: &'static str)
    requires
        n < 10,
    ensures
        r@ == seq![digit(n as int)],
{
    proof {
        reveal_strlit("0");
        reveal_strlit("1");
        reveal_strlit("2");
        reveal_strlit("3");
        reveal_strlit("4");
        reveal_strlit("5");
        reveal_strlit("6");
        reveal_strlit("7");
        reveal_strlit("8");
        reveal_strlit("9");
    }
    if n == 0 {
        "0"
    } else if n == 1 {
        "1"
    } else if n == 2 {
        "2"
    } else if n == 3 {
        "3"
    } else if n == 4 {
        "4"
    } else if n == 5 {
        "5"
    } else if n == 6 {
        "6"
    } else if n == 7 {
        "7"
    } else if n == 8 {
        "8"
    } else {
        "9"
    }
}

/// `n` written in decimal.
pub fn decimal_string(n: usize) -> (r: String)
    ensures
        r@ == decimal(n as nat),
    decreases n,
{
    if n < 10 {
        String::from_str(digit_str(n))
    } else {
        let head = decimal_string(n / 10);
        head.concat(digit_str(n % 10))
    }
}

/// One line per guess, each after a line break, with its feedback as glyphs.
pub open spec fn rows(history: Seq<Seq<char>>, sol: Seq<char>) -> Seq<char>
    decreases history.len(),
{
    if history.len() == 0 {
        Seq::empty()
    } else {
        rows(history.drop_last(), sol) + seq!['\n'] + row(feedback(history.last(), sol))
    }
}

/// The score card: `<score>/6`, a `*` in hard mode, then a line per guess.
pub open spec fn score_card(history: Seq<Seq<char>>, sol: Seq<char>, hard: bool) -> Seq<char> {
    seq![score_char(history, sol), '/', '6'] + (if hard {
        seq!['*']
    } else {
        Seq::empty()
    }) + rows(history, sol)
}

/// Hard mode holds on to an exact first letter: once the previous guess got an
/// exact first letter, a valid word that starts with another letter is refused
/// for position 0 (and `State::guess` then leaves the guesses as they were).
pub proof fn lemma_hard_mode_keeps_exact_first(
    ws: WordSet,
    history: Seq<Seq<char>>,
    sol: Seq<char>,
    w: Seq<char>,
)
    requires
        ws.spec_valid(w),
        history.len() > 0,
        feedback(history.last(), sol)[0] == Match::Exact,
        w[0] != history.last()[0],
    ensures
        guess_result(ws, history, sol, w, true) == Err::<Seq<Match>, GuessError>(
            GuessError::MissingExactValues(0),
        ),
{
    assert(missing_exact(history.last(), sol, w, 0));
}

/// Six guesses that all miss the solution lose the game.
pub proof fn lemma_six_misses_lose(history: Seq<Seq<char>>, sol: Seq<char>)
    requires
        history.len() == MAX_GUESSES,
        forall|k: int| 0 <= k < history.len() ==> history[k] != sol,
    ensures
        outcome_of(history, sol) == Some(GameOver::Lose),
{
    assert(history.last() == history[5]);
}

/// The state of one game: the hidden solution and the guesses made so far.
pub struct State {
    word_set: WordSet,
    solution: String,
    guesses: Vec<String>,
}

impl State {
    /// The hidden solution.
    pub closed spec fn spec_solution(&self) -> Seq<char> {
        self.solution@
    }

    /// The guesses made so far, in order.
    pub closed spec fn history(&self) -> Seq<Seq<char>> {
        words_of(self.guesses@)
    }

    /// The word set that guesses are checked against.
    pub closed spec fn spec_word_set(&self) -> WordSet {
        self.word_set
    }

    /// The word set is well formed, the solution is one of its solutions, every
    /// guess is a word, and there are at most six of them.
    pub closed spec fn wf(&self) -> bool {
        &&& self.word_set.wf()
        &&& self.word_set.spec_solutions().contains(self.solution@)
        &&& all_words(words_of(self.guesses@))
        &&& self.guesses@.len() <= MAX_GUESSES
    }

    /// A game never holds more than six guesses.
    pub proof fn lemma_guesses_capped(&self)
        requires
            self.wf(),
        ensures
            self.history().len() <= MAX_GUESSES,
    {
    }

    /// A well-formed state has a well-formed word set and five-letter words.
    pub proof fn lemma_wf_parts(&self)
        requires
            self.wf(),
        ensures
            self.spec_word_set().wf(),
            is_word(self.spec_solution()),
            all_words(self.history()),
    {
    }

    /// How the game stands.
    pub open spec fn spec_game_over(&self) -> Option<GameOver> {
        outcome_of(self.history(), self.spec_solution())
    }

    /// Create a new game state from the solution, with no guesses yet.
    pub fn new(solution: String, word_set: WordSet) -> (r: State)
        requires
            word_set.wf(),
            word_set.spec_solutions().contains(solution@),
        ensures
            r.wf(),
            r.spec_solution() == solution@,
            r.spec_word_set() == word_set,
            r.history() == Seq::<Seq<char>>::empty(),
    {
        let r = State { word_set, solution, guesses: Vec::new() };
        assert(r.history() =~= Seq::<Seq<char>>::empty());
        r
    }

    /// The number of guesses made so far.
    pub fn guess_count(&self) -> (r: usize)
        ensures
            r == self.history().len(),
    {
        self.guesses.len()
    }

    /// Reveal the solution for the current game state
    pub fn solution(&self) -> (r: &str)
        ensures
            r@ == self.spec_solution(),
    {
        self.solution.as_str()
    }

    /// Get the number of maximum possible guesses
    pub fn max_guesses(&self) -> (r: usize)
        ensures
            r == MAX_GUESSES,
    {
        MAX_GUESSES
    }

    /// Returns an iterator over the previous guesses
    pub fn guesses(&self) -> (r: StateIter)
        requires
            self.wf(),
        ensures
            r.wf(),
            r.spec_solution() == self.spec_solution(),
            r.remaining() == self.history(),
    {
        StateIter::new(self.solution.clone(), self.guesses.clone())
    }

    /// Make a guess.
    ///
    /// The word must be in the word set; in hard mode, every letter that was
    /// exact in the previous guess must also be repeated at its position. If
    /// so, the guess is recorded and its feedback returned; if not, the state
    /// is unchanged and the error says why.
    pub fn guess(&mut self, word: &str, hard: bool) -> (r: Result<Matches, GuessError>)
        requires
            old(self).wf(),
            old(self).spec_game_over() is None,
        ensures
            final(self).wf(),
            final(self).spec_solution() == old(self).spec_solution(),
            final(self).spec_word_set() == old(self).spec_word_set(),
            result_view(r) == guess_result(
                old(self).spec_word_set(),
                old(self).history(),
                old(self).spec_solution(),
                word@,
                hard,
            ),
            r is Ok ==> final(self).history() == old(self).history().push(word@),
            r is Err ==> final(self).history() == old(self).history(),
    {
        let ghost h = self.history();
        if self.word_set.valid(word) {
            proof {
                self.word_set.lemma_valid_is_word(word@);
            }
            let n = self.guesses.len();
            if hard && n > 0 {
                let last = self.guesses[n - 1].as_str();
                assert(last@ == h.last());
                let matches = diff(last, self.solution.as_str());
                let mut i: usize = 0;
                while i < 5
                    invariant
                        i <= 5,
                        *self == *old(self),
                        self.wf(),
                        h == self.history(),
                        h.len() > 0,
                        last@ == h.last(),
                        hard,
                        self.word_set.spec_valid(word@),
                        is_word(last@),
                        is_word(word@),
                        matches@ == feedback(last@, self.solution@),
                        first_missing(last@, self.solution@, word@, 0) == first_missing(
                            last@,
                            self.solution@,
                            word@,
                            i as int,
                        ),
                    decreases 5 - i,
                {
                    if matches.0[i] == Match::Exact && last.get_char(i) != word.get_char(i) {
                        return Err(GuessError::MissingExactValues(i));
                    }
                    i = i + 1;
                }
            }
            let m = diff(word, self.solution.as_str());
            self.guesses.push(word.to_owned());
            assert(self.history() =~= h.push(word@));
            Ok(m)
        } else {
            Err(GuessError::NotInWordList)
        }
    }

    /// The score card of this game: `<score>/6`, with `*` in hard mode, then
    /// one line of glyphs per guess. The score is the number of guesses, or
    /// `X` when six guesses missed.
    pub fn display_score_card(&self, hard: bool) -> (r: String)
        requires
            self.wf(),
        ensures
            r@ == score_card(self.history(), self.spec_solution(), hard),
    {
        let ghost h = self.history();
        let ghost sol = self.spec_solution();
        let n = self.guesses.len();
        let mut card = if n < 6 || self.guesses[5] == self.solution {
            String::from_str(digit_str(n))
        } else {
            let x = "X";
            proof {
                reveal_strlit("X");
            }
            String::from_str(x)
        };
        let slash = "/6";
        proof {
            reveal_strlit("/6");
        }
        card.append(slash);
        if hard {
            let star = "*";
            proof {
                reveal_strlit("*");
            }
            card.append(star);
        }
        let ghost head = card@;
        assert(head == seq![score_char(h, sol), '/', '6'] + (if hard {
            seq!['*']
        } else {
            Seq::empty()
        }));
        let newline = "\n";
        proof {
            reveal_strlit("\n");
        }
        let mut i: usize = 0;
        while i < n
            invariant
                i <= n,
                n == h.len(),
                h == self.history(),
                sol == self.spec_solution(),
                self.wf(),
                newline@ == seq!['\n'],
                card@ == head + rows(h.subrange(0, i as int), sol),
            decreases n - i,
        {
            assert(is_word(h[i as int]));
            let m = diff(self.guesses[i].as_str(), self.solution.as_str());
            card.append(newline);
            let glyphs = m.to_string();
            card.append(glyphs.as_str());
            assert(h.subrange(0, i + 1).drop_last() =~= h.subrange(0, i as int));
            i = i + 1;
        }
        assert(h.subrange(0, n as int) =~= h);
        card
    }

    /// Determine if the game is over: `None` before the first guess.
    pub fn game_over(&self) -> (r: Option<GameOver>)
        ensures
            r == self.spec_game_over(),
    {
        let n = self.guesses.len();
        if n == 0 {
            return None;
        }
        let last = &self.guesses[n - 1];
        if *last == self.solution {
            Some(GameOver::Win)
        } else if n >= MAX_GUESSES {
            Some(GameOver::Lose)
        } else {
            None
        }
    }
}

} // verus!
