use vstd::prelude::*;

pub mod date;
pub mod words;
pub mod iter;
pub mod state;
pub mod game;
pub mod cheat;
pub mod keyboard;

verus! {

/// Represents a match for a given letter against the solution
#[derive(Clone, Copy, Debug, PartialEq, Eq, Structural, Hash, PartialOrd, Ord)]
pub enum Match {
    /// Letter is in the correct position
    Exact,
    /// Letter is in the solution but not in the correct position
    Close,
    /// Letter is not in the solution
    Wrong,
}

/// Represents the outcome for a single guess
#[derive(Clone, Copy, Debug, Eq, Hash)]
pub struct Matches(pub [Match; 5]);

impl PartialEq for Matches {
    fn eq(&self, other: &Matches) -> (r: bool) {
        let r = self.0[0] == other.0[0] && self.0[1] == other.0[1] && self.0[2] == other.0[2]
            && self.0[3] == other.0[3] && self.0[4] == other.0[4];
        proof {
            if r {
                assert(self@ =~= other@);
            }
        }
        r
    }
}

impl vstd::std_specs::cmp::PartialEqSpecImpl for Matches {
    open spec fn obeys_eq_spec() -> bool {
        true
    }

    open spec fn eq_spec(&self, other: &Matches) -> bool {
        self@ == other@
    }
}

impl View for Matches {
    type V = Seq<Match>;

    open spec fn view(&self) -> Seq<Match> {
        self.0@
    }
}

/// 1 when `b` holds, else 0.
pub open spec fn ind(b: bool) -> int {
    if b {
        1
    } else {
        0
    }
}

/// A word of exactly five ASCII characters.
pub open spec fn is_word(w: Seq<char>) -> bool {
    w.len() == 5 && forall|i: int| 0 <= i < 5 ==> (#[trigger] w[i] as u32) < 128
}

/// Whether position `k` of the guess hits the solution exactly.
pub open spec fn hit(g: Seq<char>, s: Seq<char>, k: int) -> bool {
    g[k] == s[k]
}

/// How many solution positions hold `c` and are not matched exactly: the
/// occurrences of `c` that are left to be claimed by misplaced guess letters.
pub open spec fn spare(g: Seq<char>, s: Seq<char>, c: char) -> int {
    ind(!hit(g, s, 0) && s[0] == c) + ind(!hit(g, s, 1) && s[1] == c) + ind(
        !hit(g, s, 2) && s[2] == c,
    ) + ind(!hit(g, s, 3) && s[3] == c) + ind(!hit(g, s, 4) && s[4] == c)
}

/// How many guess positions before `i` hold `c` without hitting exactly:
/// each of them claims one spare occurrence of `c` first.
pub open spec fn claims_before(g: Seq<char>, s: Seq<char>, c: char, i: int) -> int {
    ind(0 < i && !hit(g, s, 0) && g[0] == c) + ind(1 < i && !hit(g, s, 1) && g[1] == c) + ind(
        2 < i && !hit(g, s, 2) && g[2] == c,
    ) + ind(3 < i && !hit(g, s, 3) && g[3] == c) + ind(4 < i && !hit(g, s, 4) && g[4] == c)
}

/// The outcome of position `i` of guess `g` against solution `s`: exact when the
/// letters agree; close when some occurrence of the letter in the solution is
/// still unclaimed by the earlier guess positions; wrong otherwise.
pub open spec fn outcome(g: Seq<char>, s: Seq<char>, i: int) -> Match {
    if hit(g, s, i) {
        Match::Exact
    } else if claims_before(g, s, g[i], i) < spare(g, s, g[i]) {
        Match::Close
    } else {
        Match::Wrong
    }
}

/// The feedback of guess `g` against solution `s`, one outcome per position.
pub open spec fn feedback(g: Seq<char>, s: Seq<char>) -> Seq<Match> {
    Seq::new(5, |i: int| outcome(g, s, i))
}

/// Whether every outcome is exact.
pub open spec fn all_exact(m: Seq<Match>) -> bool {
    forall|i: int| 0 <= i < m.len() ==> m[i] == Match::Exact
}

/// How many solution positions hold `c` and have not yet been consumed.
#[verifier::opaque]
spec fn unused(s: Seq<char>, used: Seq<bool>, c: char) -> int {
    ind(!used[0] && s[0] == c) + ind(!used[1] && s[1] == c) + ind(!used[2] && s[2] == c) + ind(
        !used[3] && s[3] == c,
    ) + ind(!used[4] && s[4] == c)
}

/// The occurrences of `c` left over once the guess positions before `i` have
/// claimed theirs.
#[verifier::opaque]
spec fn left_after(g: Seq<char>, s: Seq<char>, c: char, i: int) -> int {
    let sp = spare(g, s, c);
    let cb = claims_before(g, s, c, i);
    if cb < sp {
        sp - cb
    } else {
        0
    }
}

proof fn lemma_unused_start(g: Seq<char>, s: Seq<char>, used: Seq<bool>, c: char)
    requires
        used.len() == 5,
        forall|k: int| 0 <= k < 5 ==> used[k] == hit(g, s, k),
    ensures
        unused(s, used, c) == left_after(g, s, c, 0),
{
    reveal(unused);
    reveal(left_after);
}

proof fn lemma_unused_consume(s: Seq<char>, used: Seq<bool>, j: int, c: char)
    requires
        used.len() == 5,
        0 <= j < 5,
        !used[j],
    ensures
        unused(s, used.update(j, true), c) == unused(s, used, c) - ind(s[j] == c),
        unused(s, used, c) >= ind(s[j] == c),
{
    reveal(unused);
}

proof fn lemma_unused_none(s: Seq<char>, used: Seq<bool>, c: char)
    requires
        used.len() == 5,
        forall|k: int| 0 <= k < 5 ==> !(!used[k] && s[k] == c),
    ensures
        unused(s, used, c) == 0,
{
    reveal(unused);
}

proof fn lemma_left_step(g: Seq<char>, s: Seq<char>, c: char, i: int)
    requires
        g.len() == 5,
        s.len() == 5,
        0 <= i < 5,
    ensures
        hit(g, s, i) || g[i] != c ==> left_after(g, s, c, i + 1) == left_after(g, s, c, i),
        !hit(g, s, i) && g[i] == c ==> left_after(g, s, c, i + 1) == if left_after(g, s, c, i) > 0 {
            left_after(g, s, c, i) - 1
        } else {
            0
        },
        !hit(g, s, i) ==> (outcome(g, s, i) == Match::Close) == (left_after(g, s, g[i], i) > 0),
        !hit(g, s, i) ==> (outcome(g, s, i) == Match::Wrong) == (left_after(g, s, g[i], i) == 0),
        left_after(g, s, c, i) >= 0,
{
    reveal(left_after);
}

/// The first position of the solution that holds `c` and is not yet consumed.
fn find_unused(s: &[char; 5], used: &[bool; 5], c: char) -> (r: Option<usize>)
    ensures
        match r {
            Some(j) => j < 5 && !used@[j as int] && s@[j as int] == c,
            None => forall|k: int| 0 <= k < 5 ==> !(!used@[k] && s@[k] == c),
        },
{
    let mut j: usize = 0;
    while j < 5
        invariant
            j <= 5,
            forall|k: int| 0 <= k < j ==> !(!used@[k] && s@[k] == c),
        decreases 5 - j,
    {
        if !used[j] && s[j] == c {
            return Some(j);
        }
        j = j + 1;
    }
    None
}

/// Computes the feedback for guess `input` against `solution`.
///
/// Exact matches are found first and consume their solution letter; then each
/// remaining guess letter, left to right, consumes the first unconsumed
/// occurrence of itself in the solution and is close, or is wrong when none is
/// left. A letter is thus never matched twice.
pub fn diff(input: &str, solution: &str) -> (r: Matches)
    requires
        is_word(input@),
        is_word(solution@),
    ensures
        r@ == feedback(input@, solution@),
{
    let ghost g = input@;
    let ghost sv = solution@;
    let inp: [char; 5] = [
        input.get_char(0),
        input.get_char(1),
        input.get_char(2),
        input.get_char(3),
        input.get_char(4),
    ];
    let sol: [char; 5] = [
        solution.get_char(0),
        solution.get_char(1),
        solution.get_char(2),
        solution.get_char(3),
        solution.get_char(4),
    ];
    assert(inp@ =~= g);
    assert(sol@ =~= sv);
    let mut used: [bool; 5] = [false, false, false, false, false];
    let mut diff: [Match; 5] = [Match::Wrong, Match::Wrong, Match::Wrong, Match::Wrong, Match::Wrong];

    // find exact matches first
    let mut i: usize = 0;
    while i < 5
        invariant
            i <= 5,
            inp@ == g,
            sol@ == sv,
            g.len() == 5,
            sv.len() == 5,
            used@.len() == 5,
            diff@.len() == 5,
            forall|k: int| 0 <= k < i ==> used@[k] == hit(g, sv, k),
            forall|k: int| i <= k < 5 ==> !used@[k],
            forall|k: int|
                0 <= k < 5 ==> (diff@[k] == if used@[k] {
                    Match::Exact
                } else {
                    Match::Wrong
                }),
        decreases 5 - i,
    {
        if sol[i] == inp[i] {
            used[i] = true;
            diff[i] = Match::Exact;
        }
        i = i + 1;
    }
    assert forall|c: char| #[trigger] unused(sv, used@, c) == left_after(g, sv, c, 0) by {
        lemma_unused_start(g, sv, used@, c);
    }

    // now each remaining letter claims an unconsumed occurrence, if any is left
    let mut i: usize = 0;
    while i < 5
        invariant
            i <= 5,
            inp@ == g,
            sol@ == sv,
            g.len() == 5,
            sv.len() == 5,
            used@.len() == 5,
            diff@.len() == 5,
            forall|k: int| 0 <= k < 5 && hit(g, sv, k) ==> used@[k],
            forall|c: char| #[trigger] unused(sv, used@, c) == left_after(g, sv, c, i as int),
            forall|k: int| 0 <= k < i ==> diff@[k] == outcome(g, sv, k),
            forall|k: int|
                i <= k < 5 ==> (diff@[k] == if hit(g, sv, k) {
                    Match::Exact
                } else {
                    Match::Wrong
                }),
        decreases 5 - i,
    {
        let ghost before = used@;
        proof {
            lemma_left_step(g, sv, g[i as int], i as int);
        }
        if diff[i] == Match::Wrong {
            let b = inp[i];
            assert(unused(sv, before, b) == left_after(g, sv, b, i as int));
            match find_unused(&sol, &used, b) {
                Some(j) => {
                    proof {
                        lemma_unused_consume(sv, before, j as int, b);
                    }
                    used[j] = true;
                    diff[i] = Match::Close;
                    assert forall|c: char| #[trigger]
                        unused(sv, used@, c) == left_after(g, sv, c, i + 1) by {
                        assert(unused(sv, before, c) == left_after(g, sv, c, i as int));
                        lemma_unused_consume(sv, before, j as int, c);
                        lemma_left_step(g, sv, c, i as int);
                    }
                },
                None => {
                    proof {
                        lemma_unused_none(sv, before, b);
                    }
                    assert forall|c: char| #[trigger]
                        unused(sv, used@, c) == left_after(g, sv, c, i + 1) by {
                        assert(unused(sv, before, c) == left_after(g, sv, c, i as int));
                        lemma_left_step(g, sv, c, i as int);
                    }
                },
            }
        } else {
            assert forall|c: char| #[trigger]
                unused(sv, used@, c) == left_after(g, sv, c, i + 1) by {
                assert(unused(sv, before, c) == left_after(g, sv, c, i as int));
                lemma_left_step(g, sv, c, i as int);
            }
        }
        i = i + 1;
    }
    let r = Matches(diff);
    assert(r@ =~= feedback(g, sv));
    r
}

/// How many positions of `w` hold `c`.
pub open spec fn occurrences(w: Seq<char>, c: char) -> int {
    ind(w[0] == c) + ind(w[1] == c) + ind(w[2] == c) + ind(w[3] == c) + ind(w[4] == c)
}

/// How many guess positions holding `c` get an outcome other than wrong.
pub open spec fn credited(g: Seq<char>, s: Seq<char>, c: char) -> int {
    let f = feedback(g, s);
    ind(g[0] == c && f[0] != Match::Wrong) + ind(g[1] == c && f[1] != Match::Wrong) + ind(
        g[2] == c && f[2] != Match::Wrong,
    ) + ind(g[3] == c && f[3] != Match::Wrong) + ind(g[4] == c && f[4] != Match::Wrong)
}

/// A word guessed against itself is all exact.
pub proof fn lemma_diff_self(s: Seq<char>)
    requires
        is_word(s),
    ensures
        all_exact(feedback(s, s)),
        feedback(s, s).len() == 5,
{
}

proof fn lemma_credit_at(g: Seq<char>, s: Seq<char>, c: char, i: int)
    requires
        is_word(g),
        is_word(s),
        0 <= i < 5,
    ensures
        ind(g[i] == c && feedback(g, s)[i] != Match::Wrong) == ind(hit(g, s, i) && g[i] == c)
            + ind(!hit(g, s, i) && g[i] == c && claims_before(g, s, c, i) < spare(g, s, c)),
{
}

proof fn lemma_claims_step(g: Seq<char>, s: Seq<char>, c: char, i: int)
    requires
        is_word(g),
        is_word(s),
        0 <= i < 5,
    ensures
        claims_before(g, s, c, i + 1) == claims_before(g, s, c, i) + ind(
            !hit(g, s, i) && g[i] == c,
        ),
        claims_before(g, s, c, 0) == 0,
{
}

/// Each letter of the solution is credited at most once: for every letter, the
/// guess positions holding it that are not wrong are no more than its
/// occurrences in the solution (nor in the guess). Summed over the letters, the
/// positive outcomes never exceed the letters that guess and solution can share.
pub proof fn lemma_diff_credits_bounded(g: Seq<char>, s: Seq<char>, c: char)
    requires
        is_word(g),
        is_word(s),
    ensures
        credited(g, s, c) <= occurrences(s, c),
        credited(g, s, c) <= occurrences(g, c),
{
    let sp = spare(g, s, c);
    let t0 = claims_before(g, s, c, 0);
    let t1 = claims_before(g, s, c, 1);
    let t2 = claims_before(g, s, c, 2);
    let t3 = claims_before(g, s, c, 3);
    let t4 = claims_before(g, s, c, 4);
    lemma_claims_step(g, s, c, 0);
    lemma_claims_step(g, s, c, 1);
    lemma_claims_step(g, s, c, 2);
    lemma_claims_step(g, s, c, 3);
    lemma_credit_at(g, s, c, 0);
    lemma_credit_at(g, s, c, 1);
    lemma_credit_at(g, s, c, 2);
    lemma_credit_at(g, s, c, 3);
    lemma_credit_at(g, s, c, 4);
    let e = ind(hit(g, s, 0) && g[0] == c) + ind(hit(g, s, 1) && g[1] == c) + ind(
        hit(g, s, 2) && g[2] == c,
    ) + ind(hit(g, s, 3) && g[3] == c) + ind(hit(g, s, 4) && g[4] == c);
    let k = ind(!hit(g, s, 0) && g[0] == c && t0 < sp) + ind(!hit(g, s, 1) && g[1] == c && t1 < sp)
        + ind(!hit(g, s, 2) && g[2] == c && t2 < sp) + ind(!hit(g, s, 3) && g[3] == c && t3 < sp)
        + ind(!hit(g, s, 4) && g[4] == c && t4 < sp);
    assert(k <= sp);
    assert(occurrences(s, c) == e + sp);
    assert(credited(g, s, c) == e + k);
}

/// `diff` is a function of its arguments: two results computed from the same
/// guess and solution are the same value.
pub proof fn lemma_diff_deterministic(g: Seq<char>, s: Seq<char>, r1: Matches, r2: Matches)
    requires
        r1@ == feedback(g, s),
        r2@ == feedback(g, s),
    ensures
        r1 == r2,
{
    assert(r1.0 =~= r2.0);
}

/// The glyph that shows one outcome in a score card.
pub open spec fn glyph(m: Match) -> Seq<char> {
    match m {
        Match::Exact => seq!['\u{1F7E9}'],
        Match::Close => seq!['\u{1F7E8}'],
        Match::Wrong => seq!['\u{2B1B}'],
    }
}

/// The five glyphs of a feedback, in order.
pub open spec fn row(f: Seq<Match>) -> Seq<char> {
    glyph(f[0]) + glyph(f[1]) + glyph(f[2]) + glyph(f[3]) + glyph(f[4])
}

impl Match {
    /// The glyph of this outcome: a green, a yellow or a black square.
    pub fn to_string(&self) -> (r: String)
        ensures
            r@ == glyph(*self),
    {
        match self {
            Match::Exact => {
                let s = "\u{1F7E9}";
                proof {
                    reveal_strlit("\u{1F7E9}");
                }
                String::from_str(s)
            },
            Match::Close => {
                let s = "\u{1F7E8}";
                proof {
                    reveal_strlit("\u{1F7E8}");
                }
                String::from_str(s)
            },
            Match::Wrong => {
                let s = "\u{2B1B}";
                proof {
                    reveal_strlit("\u{2B1B}");
                }
                String::from_str(s)
            },
        }
    }
}

impl Matches {
    /// The glyphs of the five outcomes, in order.
    pub fn to_string(&self) -> (r: String)
        ensures
            r@ == row(self@),
    {
        let mut s = self.0[0].to_string();
        let g1 = self.0[1].to_string();
        s.append(g1.as_str());
        let g2 = self.0[2].to_string();
        s.append(g2.as_str());
        let g3 = self.0[3].to_string();
        s.append(g3.as_str());
        let g4 = self.0[4].to_string();
        s.append(g4.as_str());
        s
    }

    /// Whether this outcome is a win: all five letters are exact.
    pub fn win(self) -> (r: bool)
        ensures
            r == all_exact(self@),
    {
        let mut i: usize = 0;
        while i < 5
            invariant
                i <= 5,
                forall|k: int| 0 <= k < i ==> self@[k] == Match::Exact,
            decreases 5 - i,
        {
            if self.0[i] != Match::Exact {
                return false;
            }
            i = i + 1;
        }
        true
    }
}

} // verus!
