use vstd::prelude::*;

use crate::game::Game;
use crate::iter::Guess;
use crate::state::{guess_result, result_view, GuessError};
use crate::words::{all_words, words_of, WordSet};
use crate::{diff, feedback, is_word, Match, Matches};

verus! {

/// Whether candidate `a` gives feedback `m` against guess `mv`.
pub open spec fn keeps(mv: Seq<char>, m: Seq<Match>) -> spec_fn(Seq<char>) -> bool {
    |a: Seq<char>| feedback(mv, a) == m
}

/// The candidates that agree with feedback `m` seen for guess `mv`, in order.
pub open spec fn narrow(pool: Seq<Seq<char>>, mv: Seq<char>, m: Seq<Match>) -> Seq<Seq<char>> {
    pool.filter(keeps(mv, m))
}

/// How many candidates of `pool` give feedback `m` against `mv`.
pub open spec fn bucket_size(pool: Seq<Seq<char>>, mv: Seq<char>, m: Seq<Match>) -> nat {
    narrow(pool, mv, m).len()
}

/// `buckets` partitions `pool` by feedback against `mv`: one entry per feedback
/// that some candidate gives, with the number of candidates that give it.
pub open spec fn is_partition(
    buckets: Seq<(Matches, usize)>,
    pool: Seq<Seq<char>>,
    mv: Seq<char>,
) -> bool {
    &&& forall|k: int|
        0 <= k < buckets.len() ==> #[trigger] buckets[k].1 as nat == bucket_size(
            pool,
            mv,
            buckets[k].0@,
        ) && buckets[k].1 > 0
    &&& forall|k1: int, k2: int|
        0 <= k1 < buckets.len() && 0 <= k2 < buckets.len() && k1 != k2 ==> buckets[k1].0@
            != buckets[k2].0@
    &&& forall|a: int|
        0 <= a < pool.len() ==> exists|k: int|
            0 <= k < buckets.len() && #[trigger] buckets[k].0@ == feedback(mv, #[trigger] pool[a])
}

/// The index of the last greatest key: what a stable sort by key puts last.
pub open spec fn is_last_max(keys: Seq<i32>, i: int) -> bool {
    &&& 0 <= i < keys.len()
    &&& forall|j: int| 0 <= j < keys.len() ==> keys[j] <= keys[i]
    &&& forall|j: int| i < j < keys.len() ==> keys[j] < keys[i]
}

/// The word the solver opens with.
pub open spec fn opening() -> Seq<char> {
    "soare"@
}

/// Narrowing keeps no more candidates than before, and keeps the true
/// solution: the feedback seen for a guess is the one the solution gives.
pub proof fn lemma_narrow_keeps_solution(pool: Seq<Seq<char>>, mv: Seq<char>, sol: Seq<char>)
    requires
        pool.contains(sol),
    ensures
        narrow(pool, mv, feedback(mv, sol)).len() <= pool.len(),
        narrow(pool, mv, feedback(mv, sol)).contains(sol),
{
    let i = choose|i: int| 0 <= i < pool.len() && pool[i] == sol;
    pool.lemma_filter_len(keeps(mv, feedback(mv, sol)));
    pool.lemma_filter_contains(keeps(mv, feedback(mv, sol)), i);
}

/// The position of the last greatest key.
pub fn last_max(keys: &Vec<i32>) -> (r: usize)
    requires
        keys@.len() > 0,
    ensures
        is_last_max(keys@, r as int),
{
    let mut best: usize = 0;
    let mut j: usize = 1;
    while j < keys.len()
        invariant
            1 <= j <= keys@.len(),
            best < j,
            is_last_max(keys@.subrange(0, j as int), best as int),
        decreases keys@.len() - j,
    {
        if keys[j] >= keys[best] {
            best = j;
        }
        j = j + 1;
    }
    assert(keys@.subrange(0, keys@.len() as int) =~= keys@);
    best
}

/// A solver that picks guesses by their expected information and narrows its
/// candidate solutions by the feedback it gets.
pub struct Cheat {
    answers: Vec<String>,
    total: usize,
}

/// A copy of a list of words.
fn copy_words(v: &Vec<String>) -> (r: Vec<String>)
    ensures
        words_of(r@) == words_of(v@),
{
    let mut r: Vec<String> = Vec::new();
    let mut i: usize = 0;
    while i < v.len()
        invariant
            i <= v@.len(),
            words_of(r@) == words_of(v@).subrange(0, i as int),
        decreases v@.len() - i,
    {
        let ghost before = r@;
        let w = v[i].clone();
        assert(w@ == v@[i as int]@);
        r.push(w);
        assert(words_of(r@) =~= words_of(before).push(v@[i as int]@));
        assert(words_of(r@) =~= words_of(v@).subrange(0, i + 1));
        i = i + 1;
    }
    assert(words_of(v@).subrange(0, v@.len() as int) =~= words_of(v@));
    r
}

/// The position of the bucket for feedback `m`, if there is one.
fn find_bucket(buckets: &Vec<(Matches, usize)>, m: &Matches) -> (r: Option<usize>)
    ensures
        match r {
            Some(k) => k < buckets@.len() && buckets@[k as int].0@ == m@,
            None => forall|j: int| 0 <= j < buckets@.len() ==> buckets@[j].0@ != m@,
        },
{
    let mut k: usize = 0;
    while k < buckets.len()
        invariant
            k <= buckets@.len(),
            forall|j: int| 0 <= j < k ==> buckets@[j].0@ != m@,
        decreases buckets@.len() - k,
    {
        if buckets[k].0 == *m {
            return Some(k);
        }
        k = k + 1;
    }
    None
}

impl Cheat {
    /// The candidate solutions that remain.
    pub closed spec fn candidates(&self) -> Seq<Seq<char>> {
        words_of(self.answers@)
    }

    /// The number of solutions the solver started from.
    pub closed spec fn spec_total(&self) -> nat {
        self.total as nat
    }

    /// All candidates are five-letter words.
    pub closed spec fn wf(&self) -> bool {
        all_words(words_of(self.answers@))
    }

    /// A solver whose candidates are all the solutions of the word set.
    pub fn new(word_set: &WordSet) -> (r: Cheat)
        requires
            word_set.wf(),
        ensures
            r.wf(),
            r.candidates() == word_set.spec_solutions(),
            r.spec_total() == word_set.solutions@.len(),
    {
        let answers = copy_words(&word_set.solutions);
        let total = answers.len();
        Cheat { answers, total }
    }

    /// The candidate solutions that remain.
    pub fn answers(&self) -> (r: Vec<String>)
        ensures
            words_of(r@) == self.candidates(),
    {
        copy_words(&self.answers)
    }

    /// Whether no feedback has narrowed the candidates yet.
    pub fn is_first_move(&self) -> (r: bool)
        ensures
            r == (self.candidates().len() == self.spec_total()),
    {
        self.answers.len() == self.total
    }

    /// The words worth guessing: every acceptable word, then the candidates.
    pub fn available_moves(&self, word_set: &WordSet) -> (r: Vec<String>)
        requires
            word_set.acceptable@.len() + self.candidates().len() <= usize::MAX,
        ensures
            words_of(r@) == word_set.spec_acceptable() + self.candidates(),
    {
        let mut moves = copy_words(&word_set.acceptable);
        let ghost start = words_of(moves@);
        let mut i: usize = 0;
        while i < self.answers.len()
            invariant
                i <= self.answers@.len(),
                start == word_set.spec_acceptable(),
                words_of(moves@) == start + self.candidates().subrange(0, i as int),
            decreases self.answers@.len() - i,
        {
            let ghost before = moves@;
            let w = self.answers[i].clone();
            assert(w@ == self.answers@[i as int]@);
            moves.push(w);
            assert(words_of(moves@) =~= words_of(before).push(self.answers@[i as int]@));
            assert(words_of(moves@) =~= start + self.candidates().subrange(0, i + 1));
            i = i + 1;
        }
        assert(self.candidates().subrange(0, self.answers@.len() as int) =~= self.candidates());
        moves
    }

    /// The next guess: the opening word while no feedback has narrowed the
    /// candidates, and otherwise the move with the greatest key, the last one
    /// among equals. `keys[i]` scores `moves[i]`.
    pub fn next_move(&self, moves: &Vec<String>, keys: &Vec<i32>) -> (r: String)
        requires
            moves@.len() == keys@.len(),
            keys@.len() > 0,
        ensures
            self.candidates().len() == self.spec_total() ==> r@ == opening(),
            self.candidates().len() != self.spec_total() ==> exists|i: int|
                is_last_max(keys@, i) && r@ == moves@[i]@,
    {
        if self.is_first_move() {
            return String::from_str("soare");
        }
        let i = last_max(keys);
        let r = moves[i].clone();
        assert(r@ == moves@[i as int]@);
        r
    }

    /// Keeps only the candidates that give feedback `m` against the guess `mv`.
    pub fn observe(&mut self, mv: &str, m: Matches)
        requires
            old(self).wf(),
            is_word(mv@),
        ensures
            final(self).wf(),
            final(self).candidates() == narrow(old(self).candidates(), mv@, m@),
            final(self).spec_total() == old(self).spec_total(),
    {
        let ghost pool = self.candidates();
        let mut kept: Vec<String> = Vec::new();
        let mut i: usize = 0;
        while i < self.answers.len()
            invariant
                i <= self.answers@.len(),
                pool == self.candidates(),
                self.wf(),
                is_word(mv@),
                words_of(kept@) == narrow(pool.subrange(0, i as int), mv@, m@),
            decreases self.answers@.len() - i,
        {
            let ghost pre = pool.subrange(0, i as int);
            let ghost post = pool.subrange(0, i + 1);
            assert(post.drop_last() =~= pre);
            assert(is_word(pool[i as int]));
            proof {
                reveal(Seq::filter);
            }
            let d = diff(mv, self.answers[i].as_str());
            if d == m {
                let ghost before = kept@;
                let w = self.answers[i].clone();
                assert(w@ == pool[i as int]);
                kept.push(w);
                assert(words_of(kept@) =~= words_of(before).push(pool[i as int]));
            }
            i = i + 1;
        }
        assert(pool.subrange(0, self.answers@.len() as int) =~= pool);
        proof {
            pool.lemma_filter_len(keeps(mv@, m@));
            assert forall|k: int| 0 <= k < words_of(kept@).len() implies is_word(
                #[trigger] words_of(kept@)[k],
            ) by {
                pool.lemma_filter_pred(keeps(mv@, m@), k);
                pool.lemma_filter_contains_rev(keeps(mv@, m@), words_of(kept@)[k]);
            }
        }
        self.answers = kept;
    }

    /// Plays the guess `next_move` in `game` and narrows the candidates by the
    /// feedback it gets. A guess that the game refuses leaves both unchanged.
    pub fn guess(&mut self, game: &mut Game, next_move: &str) -> (r: Result<Guess, GuessError>)
        requires
            old(self).wf(),
            old(game).wf(),
            old(game).spec_state().spec_game_over() is None,
        ensures
            final(self).wf(),
            final(game).wf(),
            final(self).spec_total() == old(self).spec_total(),
            final(game).spec_solution() == old(game).spec_solution(),
            final(game).spec_hard_mode() == old(game).spec_hard_mode(),
            final(game).spec_state().spec_word_set() == old(game).spec_state().spec_word_set(),
            result_view(
                match r {
                    Ok(g) => Ok(g.1),
                    Err(e) => Err(e),
                },
            ) == guess_result(
                old(game).spec_state().spec_word_set(),
                old(game).history(),
                old(game).spec_solution(),
                next_move@,
                old(game).spec_hard_mode(),
            ),
            r matches Ok(g) ==> g.0@ == next_move@ && final(game).history() == old(
                game,
            ).history().push(next_move@) && final(self).candidates() == narrow(
                old(self).candidates(),
                next_move@,
                g.1@,
            ),
            r is Err ==> final(game).history() == old(game).history() && final(self).candidates()
                == old(self).candidates(),
    {
        match game.guess(next_move) {
            Ok(m) => {
                proof {
                    old(game).spec_state().lemma_wf_parts();
                    old(game).spec_state().spec_word_set().lemma_valid_is_word(next_move@);
                }
                self.observe(next_move, m);
                Ok((next_move.to_owned(), m))
            },
            Err(e) => Err(e),
        }
    }

    /// Partitions the candidates by the feedback each gives against `mv`: one
    /// entry per feedback that occurs, with how many candidates give it.
    pub fn partition(&self, mv: &str) -> (r: Vec<(Matches, usize)>)
        requires
            self.wf(),
            is_word(mv@),
        ensures
            is_partition(r@, self.candidates(), mv@),
    {
        let ghost pool = self.candidates();
        let mut buckets: Vec<(Matches, usize)> = Vec::new();
        let mut i: usize = 0;
        while i < self.answers.len()
            invariant
                i <= self.answers@.len(),
                pool == self.candidates(),
                self.wf(),
                is_word(mv@),
                is_partition(buckets@, pool.subrange(0, i as int), mv@),
            decreases self.answers@.len() - i,
        {
            let ghost pre = pool.subrange(0, i as int);
            let ghost post = pool.subrange(0, i + 1);
            assert(post.drop_last() =~= pre);
            assert(is_word(pool[i as int]));
            let m = diff(mv, self.answers[i].as_str());
            let ghost old_buckets = buckets@;
            proof {
                reveal(Seq::filter);
                assert forall|p: Seq<Match>|
                    #![trigger bucket_size(post, mv@, p)]
                    bucket_size(post, mv@, p) == bucket_size(pre, mv@, p) + if p == m@ {
                        1nat
                    } else {
                        0nat
                    } by {
                    assert(post.last() == pool[i as int]);
                }
                assert forall|p: Seq<Match>|
                    #![trigger bucket_size(pre, mv@, p)]
                    bucket_size(pre, mv@, p) <= i by {
                    pre.lemma_filter_len(keeps(mv@, p));
                }
            }
            let found = find_bucket(&buckets, &m);
            if let Some(k) = found {
                let c = buckets[k].1;
                assert(c as nat == bucket_size(pre, mv@, m@));
                buckets.set(k, (m, c + 1));
                assert forall|a: int| 0 <= a < post.len() implies exists|k2: int|
                    0 <= k2 < buckets@.len() && #[trigger] buckets@[k2].0@ == feedback(
                        mv@,
                        #[trigger] post[a],
                    ) by {
                    if a < i {
                        assert(post[a] == pre[a]);
                        let k3 = choose|k3: int|
                            0 <= k3 < old_buckets.len() && #[trigger] old_buckets[k3].0@
                                == feedback(mv@, pre[a]);
                        if k3 == k {
                            assert(buckets@[k3].0@ == m@);
                        } else {
                            assert(buckets@[k3].0@ == old_buckets[k3].0@);
                        }
                    } else {
                        assert(buckets@[k as int].0@ == feedback(mv@, post[a]));
                    }
                }
                assert forall|j: int| 0 <= j < buckets@.len() implies #[trigger] buckets@[j].1 as nat
                    == bucket_size(post, mv@, buckets@[j].0@) && buckets@[j].1 > 0 by {
                    if j != k {
                        assert(buckets@[j] == old_buckets[j]);
                    }
                }
            } else {
                buckets.push((m, 1));
                assert forall|a: int| 0 <= a < post.len() implies exists|k2: int|
                    0 <= k2 < buckets@.len() && #[trigger] buckets@[k2].0@ == feedback(
                        mv@,
                        #[trigger] post[a],
                    ) by {
                    if a < i {
                        assert(post[a] == pre[a]);
                        let k3 = choose|k3: int|
                            0 <= k3 < old_buckets.len() && #[trigger] old_buckets[k3].0@
                                == feedback(mv@, pre[a]);
                        assert(buckets@[k3].0@ == old_buckets[k3].0@);
                    } else {
                        assert(buckets@[old_buckets.len() as int].0@ == feedback(mv@, post[a]));
                    }
                }
                assert forall|j: int| 0 <= j < buckets@.len() implies #[trigger] buckets@[j].1 as nat
                    == bucket_size(post, mv@, buckets@[j].0@) && buckets@[j].1 > 0 by {
                    if j < old_buckets.len() {
                        assert(buckets@[j] == old_buckets[j]);
                    } else {
                        assert(bucket_size(pre, mv@, m@) == 0) by {
                            if bucket_size(pre, mv@, m@) > 0 {
                                let x = narrow(pre, mv@, m@)[0];
                                pre.lemma_filter_pred(keeps(mv@, m@), 0);
                                assert(narrow(pre, mv@, m@).contains(x));
                                pre.lemma_filter_contains_rev(keeps(mv@, m@), x);
                                let a = choose|a: int| 0 <= a < pre.len() && pre[a] == x;
                                let k3 = choose|k3: int|
                                    0 <= k3 < old_buckets.len() && #[trigger] old_buckets[k3].0@
                                        == feedback(mv@, pre[a]);
                                assert(old_buckets[k3].0@ == m@);
                            }
                        }
                    }
                }
            }
            i = i + 1;
        }
        assert(pool.subrange(0, self.answers@.len() as int) =~= pool);
        buckets
    }
}

} // verus!
