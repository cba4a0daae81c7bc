//! Reading back what was written: a cookie string in canonical form
//! describes the mapping that it was written from.

use vstd::prelude::*;
use crate::jar::{
    canonical, extend, has_key, last_wins, lemma_ascending_lists_itself, lemma_listing_is,
    lemma_lists_one_map, lists, listing, pair_text, render,
};
use crate::pairs::{cookie_pairs, optional, pairs_in, parse_pair, separators, Pair};
use crate::text::{
    free_of, is_trimmed, lemma_pieces_are_free, lemma_pieces_concat, lemma_pieces_of_free,
    lemma_precedes_irreflexive, lemma_precedes_total, lemma_precedes_transitive,
    lemma_stop_index_bounds, lemma_stop_index_is, lemma_trim_leaves, lemma_trim_of_trimmed,
    pieces, precedes, stop_index, Text,
};

verus! {

/// Whether a pair survives being written and read: name and value trimmed
/// and free of separators, the name free of `=`.
pub open spec fn is_plain(p: Pair, with_commas: bool) -> bool {
    &&& is_trimmed(p.0)
    &&& is_trimmed(p.1)
    &&& free_of(p.0, set!['='])
    &&& free_of(p.0, separators(with_commas))
    &&& free_of(p.1, separators(with_commas))
}

/// Whether every pair of the sequence is plain.
pub open spec fn all_plain(ps: Seq<Pair>, with_commas: bool) -> bool {
    forall|i: int| 0 <= i < ps.len() ==> is_plain(#[trigger] ps[i], with_commas)
}

/// Whether every pair of the mapping is plain.
pub open spec fn plain_map(m: Map<Text, Text>, with_commas: bool) -> bool {
    forall|k: Text| #[trigger] m.dom().contains(k) ==> is_plain((k, m[k]), with_commas)
}

/// The pair of a fragment without separators is plain.
pub proof fn lemma_parsed_pair_is_plain(fragment: Text, with_commas: bool)
    requires
        free_of(fragment, separators(with_commas)),
        parse_pair(fragment) is Some,
    ensures
        is_plain(parse_pair(fragment)->0, with_commas),
{
    let seps = separators(with_commas);
    let i = stop_index(fragment, set!['=']);
    lemma_stop_index_bounds(fragment, set!['=']);
    let left = fragment.take(i);
    let right = fragment.skip(i + 1);
    assert forall|j: int| 0 <= j < left.len() implies !seps.contains(#[trigger] left[j]) by {
        assert(left[j] == fragment[j]);
    }
    assert forall|j: int| 0 <= j < right.len() implies !seps.contains(#[trigger] right[j]) by {
        assert(right[j] == fragment[j + i + 1]);
    }
    lemma_trim_leaves(left, seps);
    lemma_trim_leaves(left, set!['=']);
    lemma_trim_leaves(right, seps);
}

/// The pairs of fragments without separators are plain.
pub proof fn lemma_pairs_in_are_plain(fragments: Seq<Text>, with_commas: bool)
    requires
        forall|k: int|
            0 <= k < fragments.len() ==> free_of(#[trigger] fragments[k], separators(with_commas)),
    ensures
        all_plain(pairs_in(fragments), with_commas),
    decreases fragments.len(),
{
    if fragments.len() > 0 {
        let rest = fragments.drop_first();
        assert forall|k: int| 0 <= k < rest.len() implies free_of(
            #[trigger] rest[k],
            separators(with_commas),
        ) by {
            assert(rest[k] == fragments[k + 1]);
        }
        lemma_pairs_in_are_plain(rest, with_commas);
        let head = optional(parse_pair(fragments[0]));
        let tail = pairs_in(rest);
        if parse_pair(fragments[0]) is Some {
            lemma_parsed_pair_is_plain(fragments[0], with_commas);
        }
        assert forall|i: int| 0 <= i < (head + tail).len() implies is_plain(
            #[trigger] (head + tail)[i],
            with_commas,
        ) by {
            if i >= head.len() {
                assert((head + tail)[i] == tail[i - head.len()]);
            }
        }
    }
}

/// Every pair of a cookie string is plain.
pub proof fn lemma_cookie_pairs_are_plain(s: Text, with_commas: bool)
    ensures
        all_plain(cookie_pairs(s, with_commas), with_commas),
{
    lemma_pieces_are_free(s, separators(with_commas));
    lemma_pairs_in_are_plain(pieces(s, separators(with_commas)), with_commas);
}

/// The pairs of two runs of fragments are the pairs of the first followed by
/// the pairs of the second.
pub proof fn lemma_pairs_in_concat(a: Seq<Text>, b: Seq<Text>)
    ensures
        pairs_in(a + b) == pairs_in(a) + pairs_in(b),
    decreases a.len(),
{
    if a.len() == 0 {
        assert(a + b == b);
        assert(pairs_in(a) + pairs_in(b) == pairs_in(b));
    } else {
        let head = optional(parse_pair(a[0]));
        assert((a + b)[0] == a[0]);
        assert((a + b).drop_first() == a.drop_first() + b);
        lemma_pairs_in_concat(a.drop_first(), b);
        assert(head + (pairs_in(a.drop_first()) + pairs_in(b)) == (head + pairs_in(a.drop_first()))
            + pairs_in(b));
    }
}

/// A plain pair on the wire, with or without a blank before it, is one
/// fragment that holds the pair.
pub proof fn lemma_pair_text_reads_back(p: Pair, with_commas: bool, blank: bool)
    requires
        is_plain(p, with_commas),
    ensures
        ({
            let written = if blank {
                seq![' '] + pair_text(p)
            } else {
                pair_text(p)
            };
            &&& pieces(written, separators(with_commas)) == seq![written]
            &&& parse_pair(written) == Some(p)
        }),
{
    let seps = separators(with_commas);
    let lead: Text = if blank {
        seq![' ']
    } else {
        Seq::empty()
    };
    let written = lead + pair_text(p);
    assert(pair_text(p) == Seq::<char>::empty() + pair_text(p));
    let at: int = (lead.len() + p.0.len()) as int;
    assert forall|j: int| 0 <= j < written.len() implies !seps.contains(#[trigger] written[j]) by {
        if j < lead.len() {
        } else if j < at {
            assert(written[j] == p.0[j - lead.len()]);
        } else if j == at {
            assert(written[j] == '=');
        } else {
            assert(written[j] == p.1[j - at - 1]);
        }
    }
    lemma_pieces_of_free(written, seps);
    assert forall|j: int| 0 <= j < at implies !set!['='].contains(#[trigger] written.take(at)[j]) by {
        if j >= lead.len() {
            assert(written[j] == p.0[j - lead.len()]);
        }
    }
    assert(written[at] == '=');
    lemma_stop_index_is(written, set!['='], at);
    assert(written.take(at) == lead + p.0);
    assert(written.skip(at + 1) == p.1);
    lemma_trim_of_trimmed(p.0);
    lemma_trim_of_trimmed(p.1);
    if !blank {
        assert(lead + p.0 == p.0);
    }
}

/// Plain pairs that are written are the pairs that are read.
pub proof fn lemma_render_reads_back(es: Seq<Pair>, with_commas: bool)
    requires
        all_plain(es, with_commas),
    ensures
        cookie_pairs(render(es), with_commas) == es,
    decreases es.len(),
{
    let seps = separators(with_commas);
    if es.len() == 0 {
        let nothing = Seq::<char>::empty();
        assert(pieces(nothing, seps) == seq![nothing]);
        assert(parse_pair(nothing) is None);
        assert(seq![nothing].drop_first() == Seq::<Text>::empty());
        assert(pairs_in(seq![nothing]) == Seq::<Pair>::empty() + pairs_in(Seq::<Text>::empty()));
        assert(cookie_pairs(render(es), with_commas) =~= es);
    } else if es.len() == 1 {
        lemma_pair_text_reads_back(es[0], with_commas, false);
        let one = seq![pair_text(es[0])];
        assert(one.drop_first() == Seq::<Text>::empty());
        assert(pairs_in(one.drop_first()) == Seq::<Pair>::empty());
        assert(pairs_in(one) =~= seq![es[0]]);
        assert(seq![es[0]] =~= es);
    } else {
        let init = es.drop_last();
        let last = es.last();
        assert(all_plain(init, with_commas)) by {
            assert forall|i: int| 0 <= i < init.len() implies is_plain(
                #[trigger] init[i],
                with_commas,
            ) by {
                assert(init[i] == es[i]);
            }
        }
        lemma_render_reads_back(init, with_commas);
        lemma_pair_text_reads_back(last, with_commas, true);
        let x = render(init);
        let y = seq![' '] + pair_text(last);
        assert(render(es) == x + seq![';'] + y) by {
            assert(render(es) == x + seq![';', ' '] + pair_text(last));
            assert(x + seq![';', ' '] + pair_text(last) =~= x + seq![';'] + y);
        }
        lemma_pieces_concat(x, ';', y, seps);
        lemma_pairs_in_concat(pieces(x, seps), pieces(y, seps));
        let one = seq![y];
        assert(one.drop_first() == Seq::<Text>::empty());
        assert(pairs_in(one.drop_first()) == Seq::<Pair>::empty());
        assert(pairs_in(one) =~= seq![last]);
        assert(init + seq![last] =~= es);
    }
}

/// A listing of a mapping extended by one pair: what results from putting
/// the pair at its place among the ascending names.
pub proof fn lemma_listing_with(es: Seq<Pair>, m: Map<Text, Text>, k: Text, v: Text) -> (r: Seq<
    Pair,
>)
    requires
        lists(es, m),
    ensures
        lists(r, m.insert(k, v)),
    decreases es.len(),
{
    let target = m.insert(k, v);
    if es.len() == 0 {
        let r = seq![(k, v)];
        assert forall|x: Text| #[trigger] target.dom().contains(x) implies has_key(r, x) by {
            if x != k {
                assert(m.dom().contains(x));
                assert(has_key(es, x));
            }
            assert(r[0].0 == k);
        }
        r
    } else {
        let last = es.last();
        assert(m.contains_pair(es[es.len() - 1].0, es[es.len() - 1].1));
        lemma_precedes_total(last.0, k);
        if last.0 == k {
            let r = es.drop_last().push((k, v));
            assert forall|i: int, j: int| 0 <= i < j < r.len() implies precedes(r[i].0, r[j].0) by {
                assert(precedes(es[i].0, es[j].0));
            }
            assert forall|i: int| 0 <= i < r.len() implies target.contains_pair(
                (#[trigger] r[i]).0,
                r[i].1,
            ) by {
                if i < r.len() - 1 {
                    assert(m.contains_pair(es[i].0, es[i].1));
                    assert(precedes(es[i].0, es[es.len() - 1].0));
                    lemma_precedes_irreflexive(k);
                }
            }
            assert forall|x: Text| #[trigger] target.dom().contains(x) implies has_key(r, x) by {
                if x == k {
                    assert(r[r.len() - 1].0 == k);
                } else {
                    assert(m.dom().contains(x));
                    let i = choose|i: int| 0 <= i < es.len() && (#[trigger] es[i]).0 == x;
                    assert(r[i].0 == x);
                }
            }
            r
        } else if precedes(last.0, k) {
            let r = es.push((k, v));
            assert forall|i: int, j: int| 0 <= i < j < r.len() implies precedes(r[i].0, r[j].0) by {
                if j < es.len() {
                    assert(precedes(es[i].0, es[j].0));
                } else if i < es.len() - 1 {
                    assert(precedes(es[i].0, es[es.len() - 1].0));
                    lemma_precedes_transitive(es[i].0, last.0, k);
                }
            }
            assert forall|i: int| 0 <= i < r.len() implies target.contains_pair(
                (#[trigger] r[i]).0,
                r[i].1,
            ) by {
                if i < es.len() {
                    assert(m.contains_pair(es[i].0, es[i].1));
                    if i < es.len() - 1 {
                        assert(precedes(es[i].0, es[es.len() - 1].0));
                        lemma_precedes_transitive(es[i].0, last.0, k);
                    }
                    lemma_precedes_irreflexive(k);
                }
            }
            assert forall|x: Text| #[trigger] target.dom().contains(x) implies has_key(r, x) by {
                if x == k {
                    assert(r[r.len() - 1].0 == k);
                } else {
                    assert(m.dom().contains(x));
                    let i = choose|i: int| 0 <= i < es.len() && (#[trigger] es[i]).0 == x;
                    assert(r[i].0 == x);
                }
            }
            r
        } else {
            let init = es.drop_last();
            let less = m.remove(last.0);
            assert(lists(init, less)) by {
                assert forall|i: int, j: int| 0 <= i < j < init.len() implies precedes(
                    init[i].0,
                    init[j].0,
                ) by {
                    assert(precedes(es[i].0, es[j].0));
                }
                assert forall|i: int| 0 <= i < init.len() implies less.contains_pair(
                    (#[trigger] init[i]).0,
                    init[i].1,
                ) by {
                    assert(m.contains_pair(es[i].0, es[i].1));
                    assert(precedes(es[i].0, es[es.len() - 1].0));
                    lemma_precedes_irreflexive(last.0);
                }
                assert forall|x: Text| #[trigger] less.dom().contains(x) implies has_key(init, x) by {
                    assert(m.dom().contains(x));
                    let i = choose|i: int| 0 <= i < es.len() && (#[trigger] es[i]).0 == x;
                    assert(init[i].0 == x);
                }
            }
            let inner = lemma_listing_with(init, less, k, v);
            let r = inner.push(last);
            let mid = less.insert(k, v);
            assert(target =~= mid.insert(last.0, last.1));
            assert forall|i: int| 0 <= i < inner.len() implies precedes(
                (#[trigger] inner[i]).0,
                last.0,
            ) by {
                assert(mid.contains_pair(inner[i].0, inner[i].1));
                if inner[i].0 != k {
                    assert(less.dom().contains(inner[i].0));
                    let j = choose|j: int| 0 <= j < init.len() && (#[trigger] init[j]).0 == inner[i].0;
                    assert(precedes(es[j].0, es[es.len() - 1].0));
                }
            }
            assert forall|i: int, j: int| 0 <= i < j < r.len() implies precedes(r[i].0, r[j].0) by {
                if j < inner.len() {
                    assert(precedes(inner[i].0, inner[j].0));
                } else {
                    assert(precedes(inner[i].0, last.0));
                }
            }
            assert forall|i: int| 0 <= i < r.len() implies target.contains_pair(
                (#[trigger] r[i]).0,
                r[i].1,
            ) by {
                if i < inner.len() {
                    assert(mid.contains_pair(inner[i].0, inner[i].1));
                    assert(precedes(inner[i].0, last.0));
                    lemma_precedes_irreflexive(last.0);
                }
            }
            assert forall|x: Text| #[trigger] target.dom().contains(x) implies has_key(r, x) by {
                if x == last.0 {
                    assert(r[r.len() - 1].0 == x);
                } else {
                    assert(mid.dom().contains(x));
                    let i = choose|i: int| 0 <= i < inner.len() && (#[trigger] inner[i]).0 == x;
                    assert(r[i].0 == x);
                }
            }
            r
        }
    }
}

/// A listing of a mapping extended by pairs.
pub proof fn lemma_listing_extended(es: Seq<Pair>, m: Map<Text, Text>, ps: Seq<Pair>) -> (r: Seq<
    Pair,
>)
    requires
        lists(es, m),
    ensures
        lists(r, extend(m, ps)),
    decreases ps.len(),
{
    if ps.len() == 0 {
        es
    } else {
        let inner = lemma_listing_extended(es, m, ps.drop_last());
        lemma_listing_with(inner, extend(m, ps.drop_last()), ps.last().0, ps.last().1)
    }
}

/// The mapping that pairs describe has a listing.
pub proof fn lemma_last_wins_is_listed(ps: Seq<Pair>)
    ensures
        lists(listing(last_wins(ps)), last_wins(ps)),
{
    let nothing = Seq::<Pair>::empty();
    assert(lists(nothing, Map::<Text, Text>::empty()));
    let es = lemma_listing_extended(nothing, Map::empty(), ps);
    lemma_listing_is(es, last_wins(ps));
}

/// Plain pairs applied to a plain mapping leave it plain.
pub proof fn lemma_extend_stays_plain(m: Map<Text, Text>, ps: Seq<Pair>, with_commas: bool)
    requires
        plain_map(m, with_commas),
        all_plain(ps, with_commas),
    ensures
        plain_map(extend(m, ps), with_commas),
    decreases ps.len(),
{
    if ps.len() > 0 {
        let init = ps.drop_last();
        assert forall|i: int| 0 <= i < init.len() implies is_plain(#[trigger] init[i], with_commas) by {
            assert(init[i] == ps[i]);
        }
        lemma_extend_stays_plain(m, init, with_commas);
        assert(is_plain(ps[ps.len() - 1], with_commas));
    }
}

/// The canonical string of a plain mapping that has a listing reads back as
/// that listing, which describes the mapping.
pub proof fn lemma_canonical_reads_back(m: Map<Text, Text>, with_commas: bool)
    requires
        plain_map(m, with_commas),
        lists(listing(m), m),
    ensures
        cookie_pairs(canonical(m), with_commas) == listing(m),
        last_wins(listing(m)) == m,
{
    let es = listing(m);
    assert forall|i: int| 0 <= i < es.len() implies is_plain(#[trigger] es[i], with_commas) by {
        assert(m.contains_pair(es[i].0, es[i].1));
        assert(m.dom().contains(es[i].0));
    }
    lemma_render_reads_back(es, with_commas);
    lemma_ascending_lists_itself(es);
    lemma_lists_one_map(es, m, last_wins(es));
}

} // verus!
