use vstd::prelude::*;

use crate::date::Date;
use crate::iter::StateIter;
use crate::state::{
    decimal, decimal_string, guess_result, result_view, score_card, GameOver, GuessError, State,
    MAX_GUESSES,
};
use crate::words::{contains_word, WordSet};
use crate::Matches;

verus! {

/// Which puzzle a game plays.
#[derive(Clone, Copy, Debug, PartialEq, Eq, Structural)]
pub enum GameType {
    /// The puzzle of the given day number.
    Daily(usize),
    /// A solution of the player's choosing.
    Custom,
}

/// How a game type is written: the day number, or `custom`.
pub open spec fn game_type_text(t: GameType) -> Seq<char> {
    match t {
        GameType::Daily(day) => decimal(day as nat),
        GameType::Custom => "custom"@,
    }
}

impl GameType {
    /// The day number, or `custom`.
    pub fn to_string(&self) -> (r: String)
        ensures
            r@ == game_type_text(*self),
    {
        match self {
            GameType::Daily(day) => decimal_string(*day),
            GameType::Custom => String::from_str("custom"),
        }
    }
}

/// The solution asked for is not one of the word set's solutions.
#[derive(Clone, Debug)]
pub struct InvalidSolution {
    pub word: String,
}

/// A game: its state, whether hard mode is on, and which puzzle it plays.
pub struct Game {
    state: State,
    hard_mode: bool,
    game_type: GameType,
}

impl Game {
    pub closed spec fn spec_state(&self) -> State {
        self.state
    }

    pub closed spec fn spec_hard_mode(&self) -> bool {
        self.hard_mode
    }

    pub closed spec fn spec_game_type(&self) -> GameType {
        self.game_type
    }

    pub open spec fn wf(&self) -> bool {
        self.spec_state().wf()
    }

    /// The guesses made so far.
    pub open spec fn history(&self) -> Seq<Seq<char>> {
        self.spec_state().history()
    }

    /// The hidden solution.
    pub open spec fn spec_solution(&self) -> Seq<char> {
        self.spec_state().spec_solution()
    }

    /// Create a new game based on the given word, which must be one of the
    /// word set's solutions.
    pub fn custom(solution: String, word_set: WordSet) -> (r: Result<Game, InvalidSolution>)
        requires
            word_set.wf(),
        ensures
            r is Ok <==> word_set.spec_solutions().contains(solution@),
            r matches Ok(g) ==> g.wf() && g.spec_solution() == solution@ && g.history().len() == 0
                && g.spec_game_type() == GameType::Custom && !g.spec_hard_mode()
                && g.spec_state().spec_word_set() == word_set,
            r matches Err(e) ==> e.word@ == solution@,
    {
        if contains_word(&word_set.solutions, &solution) {
            Ok(Self::new_raw(solution, GameType::Custom, word_set))
        } else {
            Err(InvalidSolution { word: solution })
        }
    }

    /// Create a new game based on the given date: the puzzle of its day number.
    pub fn from_date(date: &Date, word_set: WordSet) -> (r: Game)
        requires
            word_set.wf(),
            date.wf(),
        ensures
            r.wf(),
            r.history().len() == 0,
            r.spec_game_type() == GameType::Daily(word_set.spec_day(date)),
            r.spec_solution() == word_set.spec_solutions()[word_set.spec_day(date) as int
                % word_set.solutions@.len() as int],
            !r.spec_hard_mode(),
    {
        let day = word_set.get_day(date);
        Self::from_day(day, word_set)
    }

    /// Create a new game based on the given day number; the solutions repeat.
    pub fn from_day(day: usize, word_set: WordSet) -> (r: Game)
        requires
            word_set.wf(),
        ensures
            r.wf(),
            r.history().len() == 0,
            r.spec_game_type() == GameType::Daily(day),
            r.spec_solution() == word_set.spec_solutions()[day as int
                % word_set.solutions@.len() as int],
            !r.spec_hard_mode(),
            r.spec_state().spec_word_set() == word_set,
    {
        let solution = word_set.get_solution(day).to_owned();
        assert(word_set.spec_solutions()[day as int % word_set.solutions@.len() as int]
            == solution@);
        Self::new_raw(solution, GameType::Daily(day), word_set)
    }

    fn new_raw(solution: String, game_type: GameType, word_set: WordSet) -> (r: Game)
        requires
            word_set.wf(),
            word_set.spec_solutions().contains(solution@),
        ensures
            r.wf(),
            r.spec_solution() == solution@,
            r.history().len() == 0,
            r.spec_game_type() == game_type,
            !r.spec_hard_mode(),
            r.spec_state().spec_word_set() == word_set,
    {
        Game { state: State::new(solution, word_set), hard_mode: false, game_type }
    }

    /// Sets the play style of this game to 'hard mode'.
    /// This means that any exact matches found must be
    /// re-used in later guesses
    pub fn hard_mode(&mut self)
        ensures
            final(self).spec_hard_mode(),
            final(self).spec_state() == old(self).spec_state(),
            final(self).spec_game_type() == old(self).spec_game_type(),
    {
        self.hard_mode = true;
    }

    /// Get the number of maximum possible guesses
    pub fn max_guess(&self) -> (r: usize)
        ensures
            r == MAX_GUESSES,
    {
        self.state.max_guesses()
    }

    /// Get the current attempt for this game: one more than the guesses made,
    /// but at most the number of guesses allowed.
    pub fn current_guess(&self) -> (r: usize)
        requires
            self.wf(),
        ensures
            r == if self.history().len() + 1 < MAX_GUESSES {
                self.history().len() as int + 1
            } else {
                MAX_GUESSES as int
            },
    {
        proof {
            self.state.lemma_guesses_capped();
        }
        let n = self.state.guess_count() + 1;
        if n < MAX_GUESSES {
            n
        } else {
            MAX_GUESSES
        }
    }

    /// Indicate whether hard mode is active or not: `*` or nothing.
    pub fn hard_mode_indicator(&self) -> (r: &str)
        ensures
            r@ == if self.spec_hard_mode() {
                "*"@
            } else {
                ""@
            },
    {
        if self.hard_mode {
            "*"
        } else {
            ""
        }
    }

    /// Get the [`GameType`] for this game
    pub fn game_type(&self) -> (r: GameType)
        ensures
            r == self.spec_game_type(),
    {
        self.game_type
    }

    /// The state of this game.
    pub fn state(&self) -> (r: &State)
        ensures
            *r == self.spec_state(),
    {
        &self.state
    }

    /// Reveal the solution.
    pub fn solution(&self) -> (r: &str)
        ensures
            r@ == self.spec_solution(),
    {
        self.state.solution()
    }

    /// The previous guesses, each with its feedback.
    pub fn guesses(&self) -> (r: StateIter)
        requires
            self.wf(),
        ensures
            r.wf(),
            r.spec_solution() == self.spec_solution(),
            r.remaining() == self.history(),
    {
        self.state.guesses()
    }

    /// Determine if the game is over: `None` before the first guess.
    pub fn game_over(&self) -> (r: Option<GameOver>)
        ensures
            r == self.spec_state().spec_game_over(),
    {
        self.state.game_over()
    }

    /// Make a guess, under hard mode if it is on.
    ///
    /// # Errors
    /// If the guess is an invalid word, or if it doesn't match the
    /// requirements of hard mode, this function will return an error
    pub fn guess(&mut self, word: &str) -> (r: Result<Matches, GuessError>)
        requires
            old(self).wf(),
            old(self).spec_state().spec_game_over() is None,
        ensures
            final(self).wf(),
            final(self).spec_solution() == old(self).spec_solution(),
            final(self).spec_hard_mode() == old(self).spec_hard_mode(),
            final(self).spec_game_type() == old(self).spec_game_type(),
            final(self).spec_state().spec_word_set() == old(self).spec_state().spec_word_set(),
            result_view(r) == guess_result(
                old(self).spec_state().spec_word_set(),
                old(self).history(),
                old(self).spec_solution(),
                word@,
                old(self).spec_hard_mode(),
            ),
            r is Ok ==> final(self).history() == old(self).history().push(word@),
            r is Err ==> final(self).history() == old(self).history(),
    {
        self.state.guess(word, self.hard_mode)
    }

    /// The share card for this game.
    pub fn share(self) -> (r: GameShare)
        ensures
            r.spec_game() == self,
    {
        GameShare(self)
    }
}

/// The share card of a game.
pub struct GameShare(Game);

/// The text of a share card: `Wordle <game type> ` and the score card.
pub open spec fn share_text(t: GameType, history: Seq<Seq<char>>, sol: Seq<char>, hard: bool) -> Seq<
    char,
> {
    "Wordle "@ + game_type_text(t) + " "@ + score_card(history, sol, hard)
}

impl GameShare {
    pub closed spec fn spec_game(&self) -> Game {
        self.0
    }

    /// The share card: the title, the puzzle and the score card.
    pub fn to_string(&self) -> (r: String)
        requires
            self.spec_game().wf(),
        ensures
            r@ == share_text(
                self.spec_game().spec_game_type(),
                self.spec_game().history(),
                self.spec_game().spec_solution(),
                self.spec_game().spec_hard_mode(),
            ),
    {
        let mut s = String::from_str("Wordle ");
        let t = self.0.game_type.to_string();
        s.append(t.as_str());
        s.append(" ");
        let card = self.0.state.display_score_card(self.0.hard_mode);
        s.append(card.as_str());
        s
    }
}

} // verus!
