//! Searching notes: how well a note matches a query, and the order in which
//! the matches are shown.

use vstd::prelude::*;
use vstd::string::StrSliceExecFns;
use fuzzy_matcher::skim::SkimMatcherV2;
use fuzzy_matcher::FuzzyMatcher;
use crate::models::{json_title, plain_line, title_text, Note};
use crate::text::{chars_of, contains, contains_text, text_view, Text};

verus! {

/// The number of matches that are shown.
pub const RESULT_LIMIT: usize = 20;

/// The length from which on a text is not handed to the fuzzy matcher.
pub const SCORED_LIMIT: usize = 0x100_0000;

/// The score that the fuzzy matcher gives to `choice` for `pattern`, or
/// `None` where the pattern does not match.
pub uninterp spec fn fuzzy_score(choice: Text, pattern: Text) -> Option<i64>;

/// Scores `choice` against `pattern`. Trusted: the score is that of
/// `fuzzy_match` of a default `fuzzy_matcher::skim::SkimMatcherV2`, and it
/// depends on the two texts alone. The texts must be so short that the sums
/// of the matcher stay far from the limits of its integers.
#[verifier::external_body]
fn skim_score(choice: &str, pattern: &str) -> (score: Option<i64>)
    requires
        choice@.len() < SCORED_LIMIT,
        pattern@.len() < SCORED_LIMIT,
    ensures
        score == fuzzy_score(choice@, pattern@),
{
    SkimMatcherV2::default().fuzzy_match(choice, pattern)
}

/// The lowercase equivalent of a text.
pub uninterp spec fn lowercased(s: Text) -> Text;

/// Trusted of `str::to_lowercase`: it returns the lowercase equivalent of
/// the string, which depends on the string alone.
pub assume_specification[ str::to_lowercase ](s: &str) -> (lower: String)
    ensures
        lower@ == lowercased(s@),
;

/// The score of the fuzzy matcher, for texts short enough to be handed to
/// it.
pub open spec fn scored(choice: Text, pattern: Text) -> Option<i64> {
    if choice.len() < SCORED_LIMIT && pattern.len() < SCORED_LIMIT {
        fuzzy_score(choice, pattern)
    } else {
        None
    }
}

/// A score, or zero where there is none.
pub open spec fn or_zero(score: Option<i64>) -> i64 {
    match score {
        Some(s) => s,
        None => 0,
    }
}

/// How well something matches, given the fuzzy scores of its title and of
/// its snippet and whether one of them contains the query: the greater
/// score where it is positive, else 1 where the query is contained, else no
/// match.
pub open spec fn grade_of(title_score: Option<i64>, snippet_score: Option<i64>, contained: bool) -> Option<i64> {
    let t = or_zero(title_score);
    let s = or_zero(snippet_score);
    let best = if t >= s {
        t
    } else {
        s
    };
    if best > 0 {
        Some(best)
    } else if contained {
        Some(1)
    } else {
        None
    }
}

/// Whether `text` contains `query`, both in lowercase.
pub open spec fn holds(text: Text, query: Text) -> bool {
    contains_text(lowercased(text), lowercased(query))
}

/// How well a note with this title and snippet matches the query. Every
/// note matches the empty query, with the score 0.
pub open spec fn match_score(title: Text, snippet: Text, query: Text) -> Option<i64> {
    if query.len() == 0 {
        Some(0)
    } else {
        grade_of(
            scored(title, query),
            scored(snippet, query),
            holds(title, query) || holds(snippet, query),
        )
    }
}

/// Grades a match from the fuzzy scores of title and snippet and from
/// whether one of them contains the query.
pub fn grade(title_score: Option<i64>, snippet_score: Option<i64>, contained: bool) -> (g: Option<
    i64,
>)
    ensures
        g == grade_of(title_score, snippet_score, contained),
{
    let t = match title_score {
        Some(s) => s,
        None => 0,
    };
    let s = match snippet_score {
        Some(s) => s,
        None => 0,
    };
    let best = if t >= s {
        t
    } else {
        s
    };
    if best > 0 {
        Some(best)
    } else if contained {
        Some(1)
    } else {
        None
    }
}

/// The fuzzy score of `choice` for `pattern`, where both are short enough.
fn score(choice: &str, pattern: &str) -> (s: Option<i64>)
    ensures
        s == scored(choice@, pattern@),
{
    if choice.unicode_len() < SCORED_LIMIT && pattern.unicode_len() < SCORED_LIMIT {
        skim_score(choice, pattern)
    } else {
        None
    }
}

/// Whether `text` contains `query`, both in lowercase.
fn holds_query(text: &str, query: &str) -> (r: bool)
    ensures
        r == holds(text@, query@),
{
    let lower_text = text.to_lowercase();
    let lower_query = query.to_lowercase();
    contains(&chars_of(lower_text.as_str()), &chars_of(lower_query.as_str()))
}

/// How well a note with this title and snippet matches the query.
pub fn match_title_and_snippet(title: &str, snippet: &str, query: &str) -> (g: Option<i64>)
    ensures
        g == match_score(title@, snippet@, query@),
{
    if query.is_empty() {
        return Some(0);
    }
    let title_score = score(title, query);
    let snippet_score = score(snippet, query);
    let contained = holds_query(title, query) || holds_query(snippet, query);
    grade(title_score, snippet_score, contained)
}

/// Whether the match at index `i` is shown before the match at index `j`:
/// the greater score first, and of equal scores the one that came first.
pub open spec fn outranks(scores: Seq<Option<i64>>, i: int, j: int) -> bool {
    scores[i]->0 > scores[j]->0 || (scores[i]->0 == scores[j]->0 && i < j)
}

/// Whether `order` holds the indices of all matches, each once, in the
/// order in which they are shown.
pub open spec fn is_ranking(order: Seq<usize>, scores: Seq<Option<i64>>) -> bool {
    &&& forall|p: int|
        0 <= p < order.len() ==> (#[trigger] order[p]) < scores.len() && scores[order[p] as int] is Some
    &&& forall|i: int|
        0 <= i < scores.len() && (#[trigger] scores[i]) is Some ==> exists|p: int|
            0 <= p < order.len() && #[trigger] order[p] == i
    &&& forall|p: int, q: int|
        #![trigger order[p], order[q]]
        0 <= p < q < order.len() ==> outranks(scores, order[p] as int, order[q] as int)
}

/// The indices of the matches in the order in which they are shown.
pub open spec fn ranking(scores: Seq<Option<i64>>) -> Seq<usize> {
    choose|order: Seq<usize>| is_ranking(order, scores)
}

/// The first `limit` of a sequence, or all of it where it is shorter.
pub open spec fn top(order: Seq<usize>, limit: int) -> Seq<usize> {
    if order.len() <= limit {
        order
    } else {
        order.take(limit)
    }
}

/// Scores have at most one ranking.
pub proof fn lemma_ranking_is_unique(a: Seq<usize>, b: Seq<usize>, scores: Seq<Option<i64>>)
    requires
        is_ranking(a, scores),
        is_ranking(b, scores),
    ensures
        a == b,
    decreases a.len(),
{
    if a.len() == 0 {
        if b.len() > 0 {
            let i = b[0] as int;
            assert(scores[i] is Some);
            let p = choose|p: int| 0 <= p < a.len() && #[trigger] a[p] == i;
        }
        assert(a =~= b);
    } else if b.len() == 0 {
        let i = a[0] as int;
        assert(scores[i] is Some);
        let p = choose|p: int| 0 <= p < b.len() && #[trigger] b[p] == i;
    } else {
        let x = a[a.len() - 1];
        let y = b[b.len() - 1];
        assert(scores[x as int] is Some);
        assert(scores[y as int] is Some);
        let j = choose|j: int| 0 <= j < b.len() && #[trigger] b[j] == x as int;
        let i = choose|i: int| 0 <= i < a.len() && #[trigger] a[i] == y as int;
        if x != y {
            assert(outranks(scores, b[j] as int, b[b.len() - 1] as int));
            assert(outranks(scores, a[i] as int, a[a.len() - 1] as int));
        }
        let less = scores.update(x as int, None);
        lemma_ranking_without_last(a, scores);
        lemma_ranking_without_last(b, scores);
        lemma_ranking_is_unique(a.drop_last(), b.drop_last(), less);
        assert(a == a.drop_last().push(x));
        assert(b == b.drop_last().push(y));
    }
}

/// A ranking without its last index ranks the scores without that match.
proof fn lemma_ranking_without_last(a: Seq<usize>, scores: Seq<Option<i64>>)
    requires
        is_ranking(a, scores),
        a.len() > 0,
    ensures
        is_ranking(a.drop_last(), scores.update(a.last() as int, None)),
{
    let x = a.last();
    let init = a.drop_last();
    let less = scores.update(x as int, None);
    assert(x == a[a.len() - 1]);
    assert forall|p: int| 0 <= p < init.len() implies (#[trigger] init[p]) < less.len()
        && less[init[p] as int] is Some by {
        assert(init[p] == a[p]);
        assert(outranks(scores, a[p] as int, a[a.len() - 1] as int));
    }
    assert forall|i: int| 0 <= i < less.len() && (#[trigger] less[i]) is Some implies exists|p: int|
        0 <= p < init.len() && #[trigger] init[p] == i by {
        assert(scores[i] is Some);
        let p = choose|p: int| 0 <= p < a.len() && #[trigger] a[p] == i;
        assert(init[p] == i);
    }
    assert forall|p: int, q: int| 0 <= p < q < init.len() implies outranks(
        less,
        init[p] as int,
        init[q] as int,
    ) by {
        assert(outranks(scores, a[p] as int, a[q] as int));
        assert(outranks(scores, a[p] as int, a[a.len() - 1] as int));
        assert(outranks(scores, a[q] as int, a[a.len() - 1] as int));
    }
}

/// A ranking of the first `i` scores, with the index `i` of a match put
/// after all that score no less and before all that score less, ranks the
/// first `i + 1` scores.
proof fn lemma_ranking_with_match(before: Seq<usize>, scores: Seq<Option<i64>>, i: int, p: int)
    requires
        0 <= i < scores.len(),
        i <= usize::MAX,
        scores[i] is Some,
        is_ranking(before, scores.take(i)),
        0 <= p <= before.len(),
        forall|q: int| 0 <= q < p ==> scores[(#[trigger] before[q]) as int]->0 >= scores[i]->0,
        p < before.len() ==> scores[before[p] as int]->0 < scores[i]->0,
    ensures
        is_ranking(before.insert(p, i as usize), scores.take(i + 1)),
{
    let seen = scores.take(i);
    let next = scores.take(i + 1);
    let after = before.insert(p, i as usize);
    assert forall|q: int| 0 <= q < after.len() implies (#[trigger] after[q]) < next.len()
        && next[after[q] as int] is Some by {
        if q < p {
            assert(after[q] == before[q]);
        } else if q > p {
            assert(after[q] == before[q - 1]);
        }
    }
    assert forall|k: int| 0 <= k < next.len() && (#[trigger] next[k]) is Some implies exists|q: int|
        0 <= q < after.len() && #[trigger] after[q] == k by {
        if k == i {
            assert(after[p] == k);
        } else {
            assert(seen[k] is Some);
            let q = choose|q: int| 0 <= q < before.len() && #[trigger] before[q] == k;
            if q < p {
                assert(after[q] == k);
            } else {
                assert(after[q + 1] == k);
            }
        }
    }
    assert forall|q: int, r: int| 0 <= q < r < after.len() implies outranks(
        next,
        after[q] as int,
        after[r] as int,
    ) by {
        if r < p {
            assert(outranks(seen, before[q] as int, before[r] as int));
        } else if r == p {
            assert(before[q] < i);
            assert(scores[before[q] as int]->0 >= scores[i]->0);
        } else if q < p {
            assert(outranks(seen, before[q] as int, before[r - 1] as int));
        } else if q == p {
            assert(before[p] < i);
            if r - 1 > p {
                assert(outranks(seen, before[p] as int, before[r - 1] as int));
            }
        } else {
            assert(outranks(seen, before[q - 1] as int, before[r - 1] as int));
        }
    }
}

/// A ranking of the first `i` scores ranks the first `i + 1` scores where
/// the score at `i` is no match.
proof fn lemma_ranking_without_match(before: Seq<usize>, scores: Seq<Option<i64>>, i: int)
    requires
        0 <= i < scores.len(),
        scores[i] is None,
        is_ranking(before, scores.take(i)),
    ensures
        is_ranking(before, scores.take(i + 1)),
{
    let seen = scores.take(i);
    let next = scores.take(i + 1);
    assert forall|q: int| 0 <= q < before.len() implies (#[trigger] before[q]) < next.len()
        && next[before[q] as int] is Some by {
        assert(seen[before[q] as int] is Some);
    }
    assert forall|k: int| 0 <= k < next.len() && (#[trigger] next[k]) is Some implies exists|q: int|
        0 <= q < before.len() && #[trigger] before[q] == k by {
        assert(seen[k] is Some);
    }
    assert forall|q: int, r: int| 0 <= q < r < before.len() implies outranks(
        next,
        before[q] as int,
        before[r] as int,
    ) by {
        assert(outranks(seen, before[q] as int, before[r] as int));
    }
}

/// The indices of the matches among `scores`, best first and of equal
/// scores the earlier first, cut to the first `limit`. An entry of `scores`
/// that is `None` is no match.
pub fn rank(scores: &Vec<Option<i64>>, limit: usize) -> (shown: Vec<usize>)
    ensures
        is_ranking(ranking(scores@), scores@),
        shown@ == top(ranking(scores@), limit as int),
{
    let mut order: Vec<usize> = Vec::new();
    let mut i: usize = 0;
    proof {
        assert(is_ranking(order@, scores@.take(0)));
    }
    while i < scores.len()
        invariant
            i <= scores.len(),
            is_ranking(order@, scores@.take(i as int)),
        decreases scores.len() - i,
    {
        let ghost before = order@;
        match scores[i] {
            Some(s) => {
                let mut p: usize = 0;
                while p < order.len() && value_at(scores, order[p]) >= s
                    invariant
                        p <= order.len(),
                        i < scores.len(),
                        order@ == before,
                        scores@[i as int] == Some(s),
                        is_ranking(before, scores@.take(i as int)),
                        forall|q: int| 0 <= q < p ==> scores@[(#[trigger] before[q]) as int]->0 >= s,
                    decreases order.len() - p,
                {
                    p += 1;
                }
                proof {
                    lemma_ranking_with_match(before, scores@, i as int, p as int);
                }
                order.insert(p, i);
            },
            None => {
                proof {
                    lemma_ranking_without_match(before, scores@, i as int);
                }
            },
        }
        i += 1;
    }
    proof {
        assert(scores@.take(i as int) == scores@);
        lemma_ranking_is_unique(ranking(scores@), order@, scores@);
    }
    if order.len() > limit {
        order.truncate(limit);
    }
    order
}

/// The score at index `i`, which holds one.
fn value_at(scores: &Vec<Option<i64>>, i: usize) -> (s: i64)
    requires
        i < scores.len(),
        scores@[i as int] is Some,
    ensures
        s == scores@[i as int]->0,
{
    match scores[i] {
        Some(s) => s,
        None => 0,
    }
}

/// The title that is shown for a note.
pub open spec fn shown_title(note: Note) -> Text {
    title_text(
        text_view(note.title),
        note.subject@,
        match note.extra_info {
            Some(extra) => json_title(extra@),
            None => None,
        },
        note.snippet@,
    )
}

/// How well each of the notes matches the query.
pub open spec fn match_scores(notes: Seq<Note>, query: Text) -> Seq<Option<i64>> {
    Seq::new(
        notes.len(),
        |i: int| match_score(shown_title(notes[i]), plain_line(notes[i].snippet@), query),
    )
}

/// The notes to show for a query: the indices of at most twenty notes that
/// match, best first, and of equally good ones the earlier first. A note
/// matches where the fuzzy matcher gives its shown title or its plain
/// snippet a positive score for the query, or where one of the two contains
/// the query, case ignored; every note matches the empty query.
pub fn search(query: &str, notes: &Vec<Note>) -> (shown: Vec<usize>)
    ensures
        is_ranking(ranking(match_scores(notes@, query@)), match_scores(notes@, query@)),
        shown@ == top(ranking(match_scores(notes@, query@)), RESULT_LIMIT as int),
{
    let mut scores: Vec<Option<i64>> = Vec::new();
    let mut i: usize = 0;
    while i < notes.len()
        invariant
            i <= notes.len(),
            scores@ == match_scores(notes@, query@).take(i as int),
        decreases notes.len() - i,
    {
        let title = notes[i].display_title();
        let snippet = notes[i].clean_snippet();
        let g = match_title_and_snippet(title.as_str(), snippet.as_str(), query);
        scores.push(g);
        proof {
            let all = match_scores(notes@, query@);
            assert(all.take(i + 1) == all.take(i as int).push(all[i as int]));
        }
        i += 1;
    }
    assert(match_scores(notes@, query@).take(i as int) == match_scores(notes@, query@));
    rank(&scores, RESULT_LIMIT)
}

} // verus!
