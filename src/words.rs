use vstd::prelude::*;

use crate::date::Date;
use crate::is_word;

verus! {

/// The words of a list, as character sequences.
pub open spec fn words_of(v: Seq<String>) -> Seq<Seq<char>> {
    v.map_values(|w: String| w@)
}

/// Every entry of the list is a five-letter ASCII word.
pub open spec fn all_words(v: Seq<Seq<char>>) -> bool {
    forall|i: int| 0 <= i < v.len() ==> is_word(#[trigger] v[i])
}

/// A pair of word lists: the solutions, in puzzle order, and the further words
/// accepted as guesses; plus the date of puzzle number zero.
#[derive(Clone)]
pub struct WordSet {
    pub date_offset: Date,
    pub solutions: Vec<String>,
    pub acceptable: Vec<String>,
}

impl WordSet {
    pub open spec fn spec_solutions(&self) -> Seq<Seq<char>> {
        words_of(self.solutions@)
    }

    pub open spec fn spec_acceptable(&self) -> Seq<Seq<char>> {
        words_of(self.acceptable@)
    }

    /// Whether `w` is a word that may be guessed.
    pub open spec fn spec_valid(&self, w: Seq<char>) -> bool {
        self.spec_solutions().contains(w) || self.spec_acceptable().contains(w)
    }

    /// Both lists hold five-letter ASCII words only, there is at least one
    /// solution, and the date of puzzle zero is a real date.
    pub open spec fn wf(&self) -> bool {
        all_words(self.spec_solutions()) && all_words(self.spec_acceptable())
            && self.solutions@.len() > 0 && self.date_offset.wf()
    }

    /// A word of a well-formed set is a five-letter ASCII word.
    pub proof fn lemma_valid_is_word(&self, w: Seq<char>)
        requires
            self.wf(),
            self.spec_valid(w),
        ensures
            is_word(w),
    {
        if self.spec_solutions().contains(w) {
            let k = choose|k: int|
                0 <= k < self.spec_solutions().len() && self.spec_solutions()[k] == w;
            assert(is_word(self.spec_solutions()[k]));
        } else {
            let k = choose|k: int|
                0 <= k < self.spec_acceptable().len() && self.spec_acceptable()[k] == w;
            assert(is_word(self.spec_acceptable()[k]));
        }
    }

    /// Gets the solution word for the given day; the list repeats.
    pub fn get_solution(&self, day: usize) -> (r: &str)
        requires
            self.solutions@.len() > 0,
        ensures
            r@ == self.spec_solutions()[day as int % self.solutions@.len() as int],
    {
        let n = self.solutions.len();
        self.solutions[day % n].as_str()
    }

    /// The day number of `date`.
    pub open spec fn spec_day(&self, date: &Date) -> usize {
        day_number(date.spec_julian() - self.date_offset.spec_julian()) as usize
    }

    /// Gets the day number of the given date: the days since the date of
    /// puzzle zero, wrapped into `usize` when the date lies before it.
    pub fn get_day(&self, date: &Date) -> (r: usize)
        requires
            self.date_offset.wf(),
            date.wf(),
        ensures
            r as int == day_number(date.spec_julian() - self.date_offset.spec_julian()),
            r == self.spec_day(date),
    {
        let d: i64 = date.to_julian_day() as i64 - self.date_offset.to_julian_day() as i64;
        if d >= 0 {
            d as usize
        } else {
            (usize::MAX - ((-1 - d) as usize)) as usize
        }
    }

    /// Determines if the given word is in either list.
    pub fn valid(&self, word: &str) -> (r: bool)
        ensures
            r == self.spec_valid(word@),
    {
        let w = word.to_owned();
        contains_word(&self.solutions, &w) || contains_word(&self.acceptable, &w)
    }
}

/// A signed day difference as a `usize`: negative values wrap around.
pub open spec fn day_number(d: int) -> int {
    if d >= 0 {
        d
    } else {
        d + usize::MAX + 1
    }
}

/// Whether the list holds the word `w`.
pub fn contains_word(v: &Vec<String>, w: &String) -> (r: bool)
    ensures
        r == words_of(v@).contains(w@),
{
    let mut i: usize = 0;
    while i < v.len()
        invariant
            i <= v@.len(),
            forall|k: int| 0 <= k < i ==> v@[k]@ != w@,
        decreases v@.len() - i,
    {
        if v[i] == *w {
            assert(words_of(v@)[i as int] == w@);
            return true;
        }
        i = i + 1;
    }
    proof {
        if words_of(v@).contains(w@) {
            let k = choose|k: int| 0 <= k < words_of(v@).len() && words_of(v@)[k] == w@;
            assert(v@[k]@ == w@);
        }
    }
    false
}

} // verus!
