//! Fuzzy matching, ranking, and the command palette's entries.

use crate::text::{begins_with, lower, lower_char, lowered, to_chars};
use vstd::prelude::*;

verus! {

// ---------------------------------------------------------------------------
// Fuzzy matching
// ---------------------------------------------------------------------------

/// What a match at `ci` scores: one, ten more where it continues a run, and ten
/// more where it begins a word.
pub open spec fn hit_score(c: Seq<char>, ci: int, run: bool) -> nat {
    1 + (if run {
        10nat
    } else {
        0
    }) + (if ci == 0 || c[ci - 1] == ' ' {
        10nat
    } else {
        0
    })
}

/// The score of matching `q` from `qi` on, each character at the first place
/// in `c` from `ci` on, where `run` says that the place before `ci` matched.
/// Nothing where `c` runs out first.
pub open spec fn greedy(q: Seq<char>, c: Seq<char>, qi: int, ci: int, run: bool) -> Option<nat>
    decreases c.len() - ci,
{
    if qi >= q.len() {
        Some(0)
    } else if ci >= c.len() {
        None
    } else if c[ci] == q[qi] {
        match greedy(q, c, qi + 1, ci + 1, true) {
            Some(n) => Some(n + hit_score(c, ci, run)),
            None => None,
        }
    } else {
        greedy(q, c, qi, ci + 1, false)
    }
}

/// The score of `query` as a subsequence of `cand`, both without regard to
/// ASCII case. Nothing where it is none.
pub open spec fn fuzzy(query: Seq<char>, cand: Seq<char>) -> Option<nat> {
    greedy(lowered(query), lowered(cand), 0, 0, false)
}

/// The characters of `s` in ASCII lower case.
fn lower_chars(s: &str) -> (r: Vec<char>)
    ensures
        r@ == lowered(s@),
{
    let cs = to_chars(s);
    let mut out: Vec<char> = Vec::new();
    let mut i: usize = 0;
    while i < cs.len()
        invariant
            i <= cs@.len(),
            out@ == lowered(cs@.take(i as int)),
        decreases cs@.len() - i,
    {
        out.push(lower_char(cs[i]));
        assert(lowered(cs@.take(i + 1)) =~= lowered(cs@.take(i as int)).push(lower(cs@[i as int])));
        i += 1;
    }
    assert(cs@.take(i as int) =~= cs@);
    out
}

/// Case-insensitive subsequence match: nothing where the characters of `query`
/// do not appear in order within `cand`. A higher score is a better match:
/// runs and word starts count more.
pub fn fuzzy_subsequence(query: &str, cand: &str) -> (r: Option<u128>)
    ensures
        r is Some == fuzzy(query@, cand@) is Some,
        r matches Some(n) ==> n == fuzzy(query@, cand@)->0 && n <= 21 * usize::MAX,
{
    let q = lower_chars(query);
    let c = lower_chars(cand);
    let len: usize = c.len();
    let mut qi: usize = 0;
    let mut ci: usize = 0;
    let mut run: bool = false;
    let mut score: u128 = 0;
    let ghost goal = fuzzy(query@, cand@);
    while ci < len && qi < q.len()
        invariant
            ci <= c@.len(),
            qi <= q@.len(),
            score <= 21 * ci,
            c@.len() == len,
            goal == (match greedy(q@, c@, qi as int, ci as int, run) {
                Some(n) => Some((n + score) as nat),
                None => None,
            }),
        decreases c@.len() - ci,
    {
        if c[ci] == q[qi] {
            let mut gain: u128 = 1;
            if run {
                gain += 10;
            }
            if ci == 0 || c[ci - 1] == ' ' {
                gain += 10;
            }
            score += gain;
            run = true;
            qi += 1;
        } else {
            run = false;
        }
        ci += 1;
    }
    if qi == q.len() {
        Some(score)
    } else {
        None
    }
}

/// Whether `at` gives for each character of `q`, in ascending order, a place
/// in `c` that holds it.
pub open spec fn embeds(q: Seq<char>, c: Seq<char>, at: Seq<int>) -> bool {
    &&& at.len() == q.len()
    &&& forall|k: int| 0 <= k < at.len() ==> 0 <= (#[trigger] at[k]) < c.len() && c[at[k]] == q[k]
    &&& forall|j: int, k: int| 0 <= j < k < at.len() ==> (#[trigger] at[j]) < (#[trigger] at[k])
}

proof fn lemma_greedy_finds(q: Seq<char>, c: Seq<char>, qi: int, ci: int, run: bool, at: Seq<int>)
    requires
        0 <= qi <= q.len(),
        0 <= ci <= c.len(),
        embeds(q, c, at),
        qi < q.len() ==> at[qi] >= ci,
    ensures
        greedy(q, c, qi, ci, run) is Some,
    decreases c.len() - ci,
{
    if qi < q.len() {
        assert(ci <= at[qi] < c.len());
        if c[ci] == q[qi] {
            if qi + 1 < q.len() {
                assert(at[qi] < at[qi + 1]);
            }
            lemma_greedy_finds(q, c, qi + 1, ci + 1, true, at);
        } else {
            lemma_greedy_finds(q, c, qi, ci + 1, false, at);
        }
    }
}

proof fn lemma_greedy_embeds(q: Seq<char>, c: Seq<char>, qi: int, ci: int, run: bool) -> (at: Seq<int>)
    requires
        0 <= qi <= q.len(),
        0 <= ci <= c.len(),
        greedy(q, c, qi, ci, run) is Some,
    ensures
        embeds(q.skip(qi), c, at),
        forall|k: int| 0 <= k < at.len() ==> (#[trigger] at[k]) >= ci,
    decreases c.len() - ci,
{
    if qi >= q.len() {
        assert(q.skip(qi) =~= Seq::<char>::empty());
        Seq::empty()
    } else if c[ci] == q[qi] {
        let rest = lemma_greedy_embeds(q, c, qi + 1, ci + 1, true);
        let at = seq![ci] + rest;
        assert(q.skip(qi + 1) =~= q.skip(qi).skip(1));
        assert forall|k: int| 0 <= k < at.len() implies 0 <= (#[trigger] at[k]) < c.len() && c[at[k]]
            == q.skip(qi)[k] && at[k] >= ci by {
            if k > 0 {
                assert(at[k] == rest[k - 1]);
                assert(q.skip(qi)[k] == q.skip(qi + 1)[k - 1]);
            }
        }
        assert forall|j: int, k: int| 0 <= j < k < at.len() implies (#[trigger] at[j]) < (
        #[trigger] at[k]) by {
            assert(at[k] == rest[k - 1]);
            if j > 0 {
                assert(at[j] == rest[j - 1]);
            }
        }
        at
    } else {
        lemma_greedy_embeds(q, c, qi, ci + 1, false)
    }
}

/// A candidate matches exactly where the query is a subsequence of it, without
/// regard to ASCII case.
pub proof fn law_fuzzy_is_subsequence(query: Seq<char>, cand: Seq<char>)
    ensures
        fuzzy(query, cand) is Some <==> exists|at: Seq<int>|
            embeds(lowered(query), lowered(cand), at),
{
    let q = lowered(query);
    let c = lowered(cand);
    if fuzzy(query, cand) is Some {
        let at = lemma_greedy_embeds(q, c, 0, 0, false);
        assert(q.skip(0) =~= q);
        assert(embeds(q, c, at));
    }
    if exists|at: Seq<int>| embeds(q, c, at) {
        let at = choose|at: Seq<int>| embeds(q, c, at);
        if q.len() > 0 {
            assert(at[0] >= 0);
        }
        lemma_greedy_finds(q, c, 0, 0, false, at);
    }
}

// ---------------------------------------------------------------------------
// Ranking
// ---------------------------------------------------------------------------

/// How many leading entries of `order` score at least `s`.
pub open spec fn slot(order: Seq<usize>, scores: Seq<Option<nat>>, s: nat) -> nat
    decreases order.len(),
{
    if order.len() == 0 || scores[order[0] as int]->0 < s {
        0
    } else {
        1 + slot(order.skip(1), scores, s)
    }
}

/// The places of the scores that are there, best first, earlier places first
/// among equals.
pub open spec fn ranked(scores: Seq<Option<nat>>) -> Seq<usize>
    decreases scores.len(),
{
    if scores.len() == 0 {
        Seq::empty()
    } else {
        let before = ranked(scores.drop_last());
        match scores.last() {
            Some(s) => before.insert(
                slot(before, scores, s) as int,
                (scores.len() - 1) as usize,
            ),
            None => before,
        }
    }
}

/// Whether the place `a` ranks before the place `b`.
pub open spec fn ranks_before(scores: Seq<Option<nat>>, a: int, b: int) -> bool {
    scores[a]->0 > scores[b]->0 || (scores[a]->0 == scores[b]->0 && a < b)
}

proof fn lemma_slot(order: Seq<usize>, scores: Seq<Option<nat>>, s: nat)
    ensures
        slot(order, scores, s) <= order.len(),
        forall|k: int|
            0 <= k < slot(order, scores, s) ==> scores[#[trigger] order[k] as int]->0 >= s,
        slot(order, scores, s) < order.len() ==> scores[order[slot(order, scores, s) as int] as int]->0
            < s,
    decreases order.len(),
{
    if order.len() == 0 || scores[order[0] as int]->0 < s {
    } else {
        let t = order.skip(1);
        lemma_slot(t, scores, s);
        assert forall|k: int| 0 <= k < slot(order, scores, s) implies scores[#[trigger] order[k] as int]->0
            >= s by {
            if k > 0 {
                assert(t[k - 1] == order[k]);
            }
        }
    }
}

/// The slot depends only on the scores that the order names.
proof fn lemma_slot_same(order: Seq<usize>, a: Seq<Option<nat>>, b: Seq<Option<nat>>, s: nat)
    requires
        forall|k: int| 0 <= k < order.len() ==> a[#[trigger] order[k] as int] == b[order[k] as int],
    ensures
        slot(order, a, s) == slot(order, b, s),
    decreases order.len(),
{
    if order.len() > 0 {
        let t = order.skip(1);
        assert forall|k: int| 0 <= k < t.len() implies a[#[trigger] t[k] as int] == b[t[k] as int] by {
            assert(t[k] == order[k + 1]);
        }
        assert(a[order[0] as int] == b[order[0] as int]);
        lemma_slot_same(t, a, b, s);
    }
}

/// Whether `order` lists only places before `n` that have a score.
pub open spec fn names_scored(order: Seq<usize>, scores: Seq<Option<nat>>, n: int) -> bool {
    forall|k: int|
        0 <= k < order.len() ==> (#[trigger] order[k]) < n && scores[order[k] as int] is Some
}

/// Whether `order` lists every place before `n` that has a score.
pub open spec fn names_all(order: Seq<usize>, scores: Seq<Option<nat>>, n: int) -> bool {
    forall|i: int|
        0 <= i < n && (#[trigger] scores[i]) is Some ==> order.contains(i as usize)
}

/// Whether each place in `order` ranks before those that follow.
pub open spec fn in_rank_order(order: Seq<usize>, scores: Seq<Option<nat>>) -> bool {
    forall|j: int, k: int|
        0 <= j < k < order.len() ==> ranks_before(
            scores,
            #[trigger] order[j] as int,
            #[trigger] order[k] as int,
        )
}

proof fn lemma_insert_names(order: Seq<usize>, scores: Seq<Option<nat>>, p: int, n: int)
    requires
        0 <= p <= order.len(),
        0 <= n < usize::MAX,
        scores[n] is Some,
        names_scored(order, scores, n),
        names_all(order, scores, n),
    ensures
        names_scored(order.insert(p, n as usize), scores, n + 1),
        names_all(order.insert(p, n as usize), scores, n + 1),
{
    let all = order.insert(p, n as usize);
    assert forall|k: int| 0 <= k < all.len() implies (#[trigger] all[k]) < n + 1
        && scores[all[k] as int] is Some by {
        if k < p {
            assert(all[k] == order[k]);
        } else if k > p {
            assert(all[k] == order[k - 1]);
        }
    }
    assert forall|i: int| 0 <= i < n + 1 && (#[trigger] scores[i]) is Some implies all.contains(
        i as usize,
    ) by {
        if i == n {
            assert(all[p] == n as usize);
        } else {
            let k = choose|k: int| 0 <= k < order.len() && order[k] == i as usize;
            if k < p {
                assert(all[k] == order[k]);
            } else {
                assert(all[k + 1] == order[k]);
            }
        }
    }
}

proof fn lemma_insert_sorted(order: Seq<usize>, scores: Seq<Option<nat>>, s: nat, n: int)
    requires
        0 <= n < usize::MAX,
        scores[n] == Some(s),
        names_scored(order, scores, n),
        in_rank_order(order, scores),
    ensures
        in_rank_order(order.insert(slot(order, scores, s) as int, n as usize), scores),
{
    let p = slot(order, scores, s) as int;
    lemma_slot(order, scores, s);
    let all = order.insert(p, n as usize);
    assert forall|j: int, k: int| 0 <= j < k < all.len() implies ranks_before(
        scores,
        #[trigger] all[j] as int,
        #[trigger] all[k] as int,
    ) by {
        if k < p {
            assert(all[j] == order[j] && all[k] == order[k]);
        } else if k == p {
            assert(all[j] == order[j]);
            assert(order[j] < n);
        } else if j < p {
            assert(all[j] == order[j] && all[k] == order[k - 1]);
        } else if j == p {
            assert(all[k] == order[k - 1]);
            if k > p + 1 {
                assert(ranks_before(scores, order[p] as int, order[k - 1] as int));
            }
        } else {
            assert(all[j] == order[j - 1] && all[k] == order[k - 1]);
        }
    }
}

proof fn lemma_ranked_prefix(scores: Seq<Option<nat>>, n: int)
    requires
        0 <= n <= scores.len(),
        scores.len() <= usize::MAX,
    ensures
        names_scored(ranked(scores.take(n)), scores, n),
        names_all(ranked(scores.take(n)), scores, n),
        in_rank_order(ranked(scores.take(n)), scores),
    decreases n,
{
    if n > 0 {
        lemma_ranked_prefix(scores, n - 1);
        let now = scores.take(n);
        let order = ranked(scores.take(n - 1));
        assert(now.drop_last() =~= scores.take(n - 1));
        assert(now.last() == scores[n - 1]);
        match scores[n - 1] {
            Some(s) => {
                assert forall|k: int| 0 <= k < order.len() implies now[#[trigger] order[k] as int]
                    == scores[order[k] as int] by {}
                lemma_slot_same(order, now, scores, s);
                lemma_slot(order, scores, s);
                lemma_insert_names(order, scores, slot(order, scores, s) as int, n - 1);
                lemma_insert_sorted(order, scores, s, n - 1);
            },
            None => {
                assert(ranked(now) == order);
            },
        }
    }
}

/// The ranking lists every place that has a score, and nothing else, each once;
/// a better score comes first, and among equals the earlier place.
pub proof fn law_ranking_is_sorted_and_complete(scores: Seq<Option<nat>>)
    requires
        scores.len() <= usize::MAX,
    ensures
        names_scored(ranked(scores), scores, scores.len() as int),
        names_all(ranked(scores), scores, scores.len() as int),
        in_rank_order(ranked(scores), scores),
        ranked(scores).no_duplicates(),
{
    lemma_ranked_prefix(scores, scores.len() as int);
    assert(scores.take(scores.len() as int) =~= scores);
    let order = ranked(scores);
    assert forall|i: int, j: int|
        0 <= i < order.len() && 0 <= j < order.len() && i != j implies order[i] != order[j] by {
        if i < j {
            assert(ranks_before(scores, order[i] as int, order[j] as int));
        } else {
            assert(ranks_before(scores, order[j] as int, order[i] as int));
        }
    }
}

/// The score of a result: its fuzzy score, a hundred more where it lies under
/// the boosted prefix.
pub open spec fn boosted(query: Seq<char>, result: Seq<char>, boost: Option<Seq<char>>) -> Option<nat> {
    match fuzzy(query, result) {
        Some(n) => Some(
            n + (if boost is Some && boost->0.is_prefix_of(result) {
                100nat
            } else {
                0
            }),
        ),
        None => None,
    }
}

/// The scores of all results.
pub open spec fn result_scores(
    results: Seq<Seq<char>>,
    query: Seq<char>,
    boost: Option<Seq<char>>,
) -> Seq<Option<nat>> {
    Seq::new(results.len(), |i: int| boosted(query, results[i], boost))
}

/// The places of the matching results, best first.
pub open spec fn matching(
    results: Seq<Seq<char>>,
    query: Seq<char>,
    boost: Option<Seq<char>>,
) -> Seq<usize> {
    ranked(result_scores(results, query, boost))
}

/// Orders the places of the scores that are there.
fn rank(scores: &[Option<u128>]) -> (r: Vec<usize>)
    ensures
        r@ == ranked(widths(scores@)),
        forall|k: int| 0 <= k < r@.len() ==> (#[trigger] r@[k]) < scores@.len(),
{
    let ghost all = widths(scores@);
    let mut out: Vec<usize> = Vec::new();
    let mut i: usize = 0;
    while i < scores.len()
        invariant
            i <= scores@.len(),
            all == widths(scores@),
            out@ == ranked(all.take(i as int)),
            forall|k: int|
                0 <= k < out@.len() ==> (#[trigger] out@[k]) < i && scores@[out@[k] as int] is Some,
        decreases scores@.len() - i,
    {
        let ghost now = all.take(i + 1);
        let ghost order = out@;
        proof {
            assert(now.drop_last() =~= all.take(i as int));
            assert(now.last() == all[i as int]);
        }
        if let Some(s) = scores[i] {
            let mut p: usize = 0;
            assert(order.skip(0) =~= order);
            while p < out.len()
                invariant_except_break
                    p <= out@.len(),
                    slot(order, now, s as nat) == p + slot(order.skip(p as int), now, s as nat),
                invariant
                    i < scores@.len(),
                    out@ == order,
                    all == widths(scores@),
                    now == all.take(i + 1),
                    forall|k: int|
                        0 <= k < order.len() ==> (#[trigger] order[k]) < i
                            && scores@[order[k] as int] is Some,
                ensures
                    p <= out@.len(),
                    slot(order, now, s as nat) == p,
                decreases out@.len() - p,
            {
                let other: u128 = match scores[out[p]] {
                    Some(o) => o,
                    None => 0,
                };
                proof {
                    let t = order.skip(p as int);
                    assert(t[0] == order[p as int]);
                    assert(now[order[p as int] as int] == all[order[p as int] as int]);
                    assert(t.skip(1) =~= order.skip(p + 1));
                }
                if other < s {
                    break;
                }
                p += 1;
                proof {
                    if p == out@.len() {
                        assert(order.skip(p as int).len() == 0);
                    }
                }
            }
            out.insert(p, i);
            proof {
                assert forall|k: int| 0 <= k < out@.len() implies (#[trigger] out@[k]) < i + 1
                    && scores@[out@[k] as int] is Some by {
                    if k < p {
                        assert(out@[k] == order[k]);
                    } else if k > p {
                        assert(out@[k] == order[k - 1]);
                    }
                }
            }
        }
        i += 1;
    }
    assert(all.take(i as int) =~= all);
    out
}

/// Scores as natural numbers.
pub open spec fn widths(scores: Seq<Option<u128>>) -> Seq<Option<nat>> {
    Seq::new(
        scores.len(),
        |i: int|
            match scores[i] {
                Some(n) => Some(n as nat),
                None => None,
            },
    )
}

/// The places in `results` that fuzzy-match `query`, best score first, original
/// order for ties. An empty query gives every place in order. `boost_prefix`,
/// where it is set, lifts the results whose path begins with it.
pub fn ranked_matches(results: &[String], query: &str, boost_prefix: Option<&str>) -> (r: Vec<usize>)
    ensures
        r@ == matching(results.deep_view(), query@, crate::client::opt_text(boost_prefix)),
        forall|k: int| 0 <= k < r@.len() ==> (#[trigger] r@[k]) < results@.len(),
{
    let ghost boost = crate::client::opt_text(boost_prefix);
    let ghost all = result_scores(results.deep_view(), query@, boost);
    let mut scores: Vec<Option<u128>> = Vec::new();
    let mut i: usize = 0;
    while i < results.len()
        invariant
            i <= results@.len(),
            boost == crate::client::opt_text(boost_prefix),
            all == result_scores(results.deep_view(), query@, boost),
            widths(scores@) == all.take(i as int),
        decreases results@.len() - i,
    {
        let result = results[i].as_str();
        assert(results.deep_view()[i as int] == result@);
        let score: Option<u128> = match fuzzy_subsequence(query, result) {
            Some(n) => {
                let lift: bool = match boost_prefix {
                    Some(p) => begins_with(result, p),
                    None => false,
                };
                if lift {
                    Some(n + 100)
                } else {
                    Some(n)
                }
            },
            None => None,
        };
        let ghost before = widths(scores@);
        scores.push(score);
        proof {
            assert(widths(scores@) =~= before.push(all[i as int]));
            assert(all.take(i + 1) =~= before.push(all[i as int]));
        }
        i += 1;
    }
    assert(all.take(i as int) =~= all);
    rank(&scores)
}

/// The places in `results` that fuzzy-match `query`, without a boost.
pub fn file_matches(results: &[String], query: &str) -> (r: Vec<usize>)
    ensures
        r@ == matching(results.deep_view(), query@, None),
        forall|k: int| 0 <= k < r@.len() ==> (#[trigger] r@[k]) < results@.len(),
{
    ranked_matches(results, query, None)
}

proof fn lemma_slot_of_zero(order: Seq<usize>, scores: Seq<Option<nat>>)
    ensures
        slot(order, scores, 0) == order.len(),
    decreases order.len(),
{
    if order.len() > 0 {
        lemma_slot_of_zero(order.skip(1), scores);
    }
}

proof fn lemma_ranked_zeros(n: nat)
    requires
        n <= usize::MAX,
    ensures
        ranked(Seq::new(n, |i: int| Some(0nat))) == Seq::new(n, |i: int| i as usize),
    decreases n,
{
    let scores = Seq::new(n, |i: int| Some(0nat));
    if n > 0 {
        lemma_ranked_zeros((n - 1) as nat);
        assert(scores.drop_last() =~= Seq::new((n - 1) as nat, |i: int| Some(0nat)));
        lemma_slot_of_zero(ranked(scores.drop_last()), scores);
        assert(ranked(scores) =~= Seq::new(n, |i: int| i as usize));
    } else {
        assert(ranked(scores) =~= Seq::new(n, |i: int| i as usize));
    }
}

/// An empty query gives every result in its original order.
pub proof fn law_empty_query_lists_all(results: Seq<Seq<char>>)
    requires
        results.len() <= usize::MAX,
    ensures
        matching(results, Seq::empty(), None) == Seq::new(results.len(), |i: int| i as usize),
{
    let scores = result_scores(results, Seq::empty(), None);
    assert(lowered(Seq::<char>::empty()) =~= Seq::<char>::empty());
    assert(scores =~= Seq::new(results.len(), |i: int| Some(0nat)));
    lemma_ranked_zeros(results.len());
}

// ---------------------------------------------------------------------------
// Commands
// ---------------------------------------------------------------------------

/// What a palette entry does.
#[derive(Clone, Copy, PartialEq, Eq, Structural, Debug)]
pub enum Command {
    NewSession,
    SwitchSession,
    Dashboard,
    ChangeModel,
    ChangeAgent,
    ToggleTool,
    Help,
    Quit,
    AttachFile,
    WorkflowSdd,
    WorkflowPlan,
    WorkflowTdd,
}

/// One palette entry. A label that ends in `…` opens a picker instead of acting
/// directly. The hint mirrors the key binding and is for display only.
#[derive(Clone, Copy, Debug)]
pub struct PaletteEntry {
    pub label: &'static str,
    pub hint: &'static str,
    pub command: Command,
}

/// How many entries the palette has.
pub const COMMAND_COUNT: usize = 12;

/// The label of the palette entry at `i`.
pub open spec fn label_at(i: int) -> Seq<char> {
    if i == 0 {
        "New session"@
    } else if i == 1 {
        "Switch session…"@
    } else if i == 2 {
        "Dashboard…"@
    } else if i == 3 {
        "Change model…"@
    } else if i == 4 {
        "Change agent…"@
    } else if i == 5 {
        "Toggle tool detail"@
    } else if i == 6 {
        "Help"@
    } else if i == 7 {
        "Quit"@
    } else if i == 8 {
        "Attach file…"@
    } else if i == 9 {
        "Workflow: SDD…"@
    } else if i == 10 {
        "Workflow: Plan…"@
    } else {
        "Workflow: TDD…"@
    }
}

/// The key hint of the `i`th entry.
pub open spec fn hint_at(i: int) -> Seq<char> {
    if i == 0 {
        "ctrl+n"@
    } else if i == 1 {
        ""@
    } else if i == 2 {
        ""@
    } else if i == 3 {
        ""@
    } else if i == 4 {
        "ctrl+g"@
    } else if i == 5 {
        "ctrl+t"@
    } else if i == 6 {
        "?"@
    } else if i == 7 {
        "ctrl+c"@
    } else if i == 8 {
        "ctrl+f"@
    } else if i == 9 {
        "run subagent-driven dev on a plan file"@
    } else if i == 10 {
        "execute a plan file with verification"@
    } else {
        "drive a TDD cycle for a feature"@
    }
}

/// What the palette entry at `i` does.
pub open spec fn command_at(i: int) -> Command {
    if i == 0 {
        Command::NewSession
    } else if i == 1 {
        Command::SwitchSession
    } else if i == 2 {
        Command::Dashboard
    } else if i == 3 {
        Command::ChangeModel
    } else if i == 4 {
        Command::ChangeAgent
    } else if i == 5 {
        Command::ToggleTool
    } else if i == 6 {
        Command::Help
    } else if i == 7 {
        Command::Quit
    } else if i == 8 {
        Command::AttachFile
    } else if i == 9 {
        Command::WorkflowSdd
    } else if i == 10 {
        Command::WorkflowPlan
    } else {
        Command::WorkflowTdd
    }
}

/// The palette's entries, in registry order.
pub fn commands() -> (r: Vec<PaletteEntry>)
    ensures
        r@.len() == COMMAND_COUNT,
        forall|i: int|
            0 <= i < COMMAND_COUNT ==> (#[trigger] r@[i]).label@ == label_at(i) && r@[i].hint@
                == hint_at(i) && r@[i].command == command_at(i),
{
    let mut out: Vec<PaletteEntry> = Vec::new();
    out.push(PaletteEntry { label: "New session", hint: "ctrl+n", command: Command::NewSession });
    out.push(PaletteEntry { label: "Switch session…", hint: "", command: Command::SwitchSession });
    out.push(PaletteEntry { label: "Dashboard…", hint: "", command: Command::Dashboard });
    out.push(PaletteEntry { label: "Change model…", hint: "", command: Command::ChangeModel });
    out.push(PaletteEntry { label: "Change agent…", hint: "ctrl+g", command: Command::ChangeAgent });
    out.push(PaletteEntry { label: "Toggle tool detail", hint: "ctrl+t", command: Command::ToggleTool });
    out.push(PaletteEntry { label: "Help", hint: "?", command: Command::Help });
    out.push(PaletteEntry { label: "Quit", hint: "ctrl+c", command: Command::Quit });
    out.push(PaletteEntry { label: "Attach file…", hint: "ctrl+f", command: Command::AttachFile });
    out.push(PaletteEntry { label: "Workflow: SDD…", hint: "run subagent-driven dev on a plan file", command: Command::WorkflowSdd });
    out.push(PaletteEntry { label: "Workflow: Plan…", hint: "execute a plan file with verification", command: Command::WorkflowPlan });
    out.push(PaletteEntry { label: "Workflow: TDD…", hint: "drive a TDD cycle for a feature", command: Command::WorkflowTdd });
    out
}

/// The labels of the palette's entries.
pub open spec fn labels() -> Seq<Seq<char>> {
    Seq::new(COMMAND_COUNT as nat, |i: int| label_at(i))
}

/// The places of the entries that fuzzy-match `query`, best score first,
/// registry order for ties. An empty query gives every place in order.
pub fn palette_matches(query: &str) -> (r: Vec<usize>)
    ensures
        r@ == matching(labels(), query@, None),
        forall|k: int| 0 <= k < r@.len() ==> (#[trigger] r@[k]) < COMMAND_COUNT,
{
    let entries = commands();
    let mut names: Vec<String> = Vec::new();
    let mut i: usize = 0;
    while i < entries.len()
        invariant
            i <= entries@.len(),
            entries@.len() == COMMAND_COUNT,
            forall|k: int| 0 <= k < COMMAND_COUNT ==> (#[trigger] entries@[k]).label@ == label_at(k),
            names.deep_view() == labels().take(i as int),
        decreases entries@.len() - i,
    {
        let ghost before = names.deep_view();
        names.push(entries[i].label.to_owned());
        proof {
            assert(names.deep_view() =~= before.push(label_at(i as int)));
            assert(labels().take(i + 1) =~= before.push(label_at(i as int)));
        }
        i += 1;
    }
    assert(labels().take(i as int) =~= labels());
    let ns = names.as_slice();
    assert(ns.deep_view() =~= names.deep_view());
    ranked_matches(ns, query, None)
}

proof fn lemma_hits_score(q: Seq<char>, rest: Seq<char>, i: int)
    requires
        0 < i <= q.len(),
        forall|k: int| 0 <= k < q.len() ==> (#[trigger] q[k]) != ' ',
    ensures
        greedy(q, q + rest, i, i, true) == Some(((q.len() - i) * 11) as nat),
    decreases q.len() - i,
{
    if i < q.len() {
        lemma_hits_score(q, rest, i + 1);
        let c = q + rest;
        assert(c[i] == q[i]);
        assert(c[i - 1] == q[i - 1]);
        assert(q[i - 1] != ' ');
    }
}

/// A text that begins with what is typed, letter for letter, is as good a match as there can
/// be for each letter. Nothing typed matches everything, and nothing better than another.
pub proof fn law_what_was_typed_first_ranks_high(
    query: Seq<char>,
    whole: Seq<char>,
    rest: Seq<char>,
)
    requires
        lowered(query).len() > 0,
        forall|k: int| 0 <= k < lowered(query).len() ==> (#[trigger] lowered(query)[k]) != ' ',
        lowered(whole) == lowered(query) + rest,
    ensures
        fuzzy(query, whole) == Some(11 * lowered(query).len()),
        fuzzy(Seq::empty(), whole) == Some(0nat),
{
    let q = lowered(query);
    lemma_hits_score(q, rest, 1);
    assert((q + rest)[0] == q[0]);
    assert(lowered(Seq::<char>::empty()) =~= Seq::<char>::empty());
}

/// A letter counts for more at the start of a word and right behind the letter before it than
/// anywhere else, and each of these counts as much as the other.
pub proof fn law_starts_and_runs_count(c: Seq<char>, i: int, j: int)
    requires
        0 <= i < c.len(),
        0 < j < c.len(),
        c[j - 1] != ' ',
        i == 0 || c[i - 1] == ' ',
    ensures
        hit_score(c, i, false) == hit_score(c, j, true),
        hit_score(c, i, true) > hit_score(c, i, false) > hit_score(c, j, false) > 0,
{
}

/// A match outside the preferred folder comes before one in it only where it matches better
/// by at least what the preference is worth.
pub proof fn law_the_preferred_folder_comes_first(
    results: Seq<Seq<char>>,
    query: Seq<char>,
    folder: Seq<char>,
    j: int,
    k: int,
)
    requires
        results.len() <= usize::MAX,
        0 <= j < k < matching(results, query, Some(folder)).len(),
        ({
            let m = matching(results, query, Some(folder));
            let first = results[m[j] as int];
            let second = results[m[k] as int];
            !folder.is_prefix_of(first) && folder.is_prefix_of(second)
        }),
    ensures
        ({
            let m = matching(results, query, Some(folder));
            let first = results[m[j] as int];
            let second = results[m[k] as int];
            fuzzy(query, first)->0 >= fuzzy(query, second)->0 + 100
        }),
{
    let scores = result_scores(results, query, Some(folder));
    law_ranking_is_sorted_and_complete(scores);
    let m = ranked(scores);
    assert(ranks_before(scores, m[j] as int, m[k] as int));
    assert(m[j] < scores.len() && m[k] < scores.len());
}

} // verus!
