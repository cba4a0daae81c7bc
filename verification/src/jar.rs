//! Cookie sets: a mapping from cookie name to value, held as entries in
//! ascending order of name, and its serialisation.

use vstd::prelude::*;
use crate::pairs::{Entry, Pair};
use crate::text::{
    append, lemma_precedes_asymmetric, lemma_precedes_irreflexive, lemma_precedes_total,
    lemma_precedes_transitive, precedes, rank, Rank, Text,
};

verus! {

/// The mapping after the pairs have been applied to `m` in order, a later
/// pair replacing an earlier one with the same name.
pub open spec fn extend(m: Map<Text, Text>, ps: Seq<Pair>) -> Map<Text, Text>
    decreases ps.len(),
{
    if ps.len() == 0 {
        m
    } else {
        extend(m, ps.drop_last()).insert(ps.last().0, ps.last().1)
    }
}

/// The mapping that the pairs describe when the last pair of each name wins.
pub open spec fn last_wins(ps: Seq<Pair>) -> Map<Text, Text> {
    extend(Map::empty(), ps)
}

/// Whether the names strictly ascend in lexicographic order.
pub open spec fn keys_ascend(es: Seq<Pair>) -> bool {
    forall|i: int, j: int|
        #![trigger es[i], es[j]]
        0 <= i < j < es.len() ==> precedes(es[i].0, es[j].0)
}

/// Whether some pair of `es` has the name `k`.
pub open spec fn has_key(es: Seq<Pair>, k: Text) -> bool {
    exists|i: int| 0 <= i < es.len() && (#[trigger] es[i]).0 == k
}

/// The last pair of each name wins: a name belongs to the mapping exactly
/// where some pair has it, and its value is that of every pair of the name
/// after which no pair of the name follows.
pub proof fn lemma_last_wins_is_last_pair(ps: Seq<Pair>)
    ensures
        forall|k: Text| #[trigger] last_wins(ps).dom().contains(k) <==> has_key(ps, k),
        forall|i: int|
            0 <= i < ps.len() && (forall|j: int| i < j < ps.len() ==> (#[trigger] ps[j]).0 != ps[i].0)
                ==> last_wins(ps).contains_pair((#[trigger] ps[i]).0, ps[i].1),
    decreases ps.len(),
{
    if ps.len() > 0 {
        let init = ps.drop_last();
        let m = last_wins(ps);
        lemma_last_wins_is_last_pair(init);
        assert(m == last_wins(init).insert(ps.last().0, ps.last().1));
        assert forall|k: Text| #[trigger] m.dom().contains(k) <==> has_key(ps, k) by {
            if m.dom().contains(k) {
                if k == ps.last().0 {
                    assert(ps[ps.len() - 1].0 == k);
                } else {
                    assert(last_wins(init).dom().contains(k));
                    let i = choose|i: int| 0 <= i < init.len() && (#[trigger] init[i]).0 == k;
                    assert(ps[i].0 == k);
                }
            }
            if has_key(ps, k) {
                let i = choose|i: int| 0 <= i < ps.len() && (#[trigger] ps[i]).0 == k;
                if i < ps.len() - 1 {
                    assert(init[i].0 == k);
                    assert(has_key(init, k));
                }
            }
        }
        assert forall|i: int|
            0 <= i < ps.len() && (forall|j: int|
                i < j < ps.len() ==> (#[trigger] ps[j]).0 != ps[i].0) implies m.contains_pair(
            (#[trigger] ps[i]).0,
            ps[i].1,
        ) by {
            if i < ps.len() - 1 {
                assert(ps[ps.len() - 1].0 != ps[i].0);
                assert(init[i] == ps[i]);
                assert forall|j: int| i < j < init.len() implies (#[trigger] init[j]).0
                    != init[i].0 by {
                    assert(ps[j].0 != ps[i].0);
                }
                assert(last_wins(init).contains_pair(init[i].0, init[i].1));
            }
        }
    } else {
        assert forall|k: Text| #[trigger] last_wins(ps).dom().contains(k) <==> has_key(ps, k) by {}
    }
}

/// Whether `es` lists the mapping `m`: names ascending, every pair of `es`
/// in `m`, and every name of `m` in `es`.
pub open spec fn lists(es: Seq<Pair>, m: Map<Text, Text>) -> bool {
    &&& keys_ascend(es)
    &&& forall|i: int| 0 <= i < es.len() ==> m.contains_pair((#[trigger] es[i]).0, es[i].1)
    &&& forall|k: Text| #[trigger] m.dom().contains(k) ==> has_key(es, k)
}

/// The pairs of `m` in ascending order of name.
pub open spec fn listing(m: Map<Text, Text>) -> Seq<Pair> {
    choose|es: Seq<Pair>| lists(es, m)
}

/// A listing determines the mapping.
pub proof fn lemma_lists_one_map(es: Seq<Pair>, m1: Map<Text, Text>, m2: Map<Text, Text>)
    requires
        lists(es, m1),
        lists(es, m2),
    ensures
        m1 == m2,
{
    assert forall|k: Text| m1.dom().contains(k) implies m2.dom().contains(k) && m1[k] == m2[k] by {
        let i = choose|i: int| 0 <= i < es.len() && (#[trigger] es[i]).0 == k;
        assert(m1.contains_pair(es[i].0, es[i].1));
        assert(m2.contains_pair(es[i].0, es[i].1));
    }
    assert forall|k: Text| m2.dom().contains(k) implies m1.dom().contains(k) by {
        let i = choose|i: int| 0 <= i < es.len() && (#[trigger] es[i]).0 == k;
        assert(m1.contains_pair(es[i].0, es[i].1));
    }
    assert(m1 =~= m2);
}

/// The names of a listing stay distinct from a name that they all precede.
proof fn lemma_last_key_is_greatest(es: Seq<Pair>, i: int)
    requires
        keys_ascend(es),
        0 <= i < es.len() - 1,
    ensures
        es[i].0 != es.last().0,
        precedes(es[i].0, es.last().0),
{
    assert(precedes(es[i].0, es[es.len() - 1].0));
    lemma_precedes_irreflexive(es.last().0);
}

/// Dropping the last pair of a listing lists the mapping without its name.
proof fn lemma_lists_drop_last(es: Seq<Pair>, m: Map<Text, Text>)
    requires
        lists(es, m),
        es.len() > 0,
    ensures
        lists(es.drop_last(), m.remove(es.last().0)),
{
    let rest = es.drop_last();
    let k = es.last().0;
    let r = m.remove(k);
    assert forall|i: int, j: int| 0 <= i < j < rest.len() implies precedes(
        rest[i].0,
        rest[j].0,
    ) by {
        assert(precedes(es[i].0, es[j].0));
    }
    assert forall|i: int| 0 <= i < rest.len() implies r.contains_pair(
        (#[trigger] rest[i]).0,
        rest[i].1,
    ) by {
        lemma_last_key_is_greatest(es, i);
        assert(m.contains_pair(es[i].0, es[i].1));
    }
    assert forall|x: Text| #[trigger] r.dom().contains(x) implies has_key(rest, x) by {
        assert(m.dom().contains(x));
        let i = choose|i: int| 0 <= i < es.len() && (#[trigger] es[i]).0 == x;
        assert(i < es.len() - 1);
        assert(rest[i].0 == x);
    }
}

/// A mapping has at most one listing.
pub proof fn lemma_lists_one_seq(a: Seq<Pair>, b: Seq<Pair>, m: Map<Text, Text>)
    requires
        lists(a, m),
        lists(b, m),
    ensures
        a == b,
    decreases a.len(),
{
    if a.len() == 0 {
        if b.len() > 0 {
            assert(m.contains_pair(b[0].0, b[0].1));
            assert(m.dom().contains(b[0].0));
            assert(has_key(a, b[0].0));
        }
        assert(a =~= b);
    } else if b.len() == 0 {
        assert(m.contains_pair(a[0].0, a[0].1));
        assert(m.dom().contains(a[0].0));
        assert(has_key(b, a[0].0));
    } else {
        let ka = a.last().0;
        let kb = b.last().0;
        assert(m.contains_pair(a[a.len() - 1].0, a[a.len() - 1].1));
        assert(m.contains_pair(b[b.len() - 1].0, b[b.len() - 1].1));
        assert(m.dom().contains(ka));
        assert(m.dom().contains(kb));
        let j = choose|j: int| 0 <= j < b.len() && (#[trigger] b[j]).0 == ka;
        let i = choose|i: int| 0 <= i < a.len() && (#[trigger] a[i]).0 == kb;
        if ka != kb {
            lemma_precedes_total(ka, kb);
            lemma_last_key_is_greatest(a, i);
            lemma_last_key_is_greatest(b, j);
            if precedes(ka, kb) {
                lemma_precedes_asymmetric(ka, kb);
            } else {
                lemma_precedes_asymmetric(kb, ka);
            }
        }
        assert(a.last() == b.last());
        lemma_lists_drop_last(a, m);
        lemma_lists_drop_last(b, m);
        lemma_lists_one_seq(a.drop_last(), b.drop_last(), m.remove(ka));
        assert(a == a.drop_last().push(a.last()));
        assert(b == b.drop_last().push(b.last()));
    }
}

/// Pairs with ascending names list the mapping that they describe.
pub proof fn lemma_ascending_lists_itself(es: Seq<Pair>)
    requires
        keys_ascend(es),
    ensures
        lists(es, last_wins(es)),
    decreases es.len(),
{
    let m = last_wins(es);
    if es.len() > 0 {
        let rest = es.drop_last();
        assert forall|i: int, j: int| 0 <= i < j < rest.len() implies precedes(
            rest[i].0,
            rest[j].0,
        ) by {
            assert(precedes(es[i].0, es[j].0));
        }
        lemma_ascending_lists_itself(rest);
        let r = last_wins(rest);
        assert(m == r.insert(es.last().0, es.last().1));
        assert forall|i: int| 0 <= i < es.len() implies m.contains_pair(
            (#[trigger] es[i]).0,
            es[i].1,
        ) by {
            if i < es.len() - 1 {
                lemma_last_key_is_greatest(es, i);
                assert(r.contains_pair(rest[i].0, rest[i].1));
            }
        }
        assert forall|k: Text| #[trigger] m.dom().contains(k) implies has_key(es, k) by {
            if k == es.last().0 {
                assert(es[es.len() - 1].0 == k);
            } else {
                assert(r.dom().contains(k));
                let i = choose|i: int| 0 <= i < rest.len() && (#[trigger] rest[i]).0 == k;
                assert(es[i].0 == k);
            }
        }
    }
}

/// Where a mapping has a listing, `listing` is that listing.
pub proof fn lemma_listing_is(es: Seq<Pair>, m: Map<Text, Text>)
    requires
        lists(es, m),
    ensures
        listing(m) == es,
{
    lemma_lists_one_seq(listing(m), es, m);
}

/// One pair on the wire: name, `=`, value.
pub open spec fn pair_text(p: Pair) -> Text {
    p.0 + seq!['='] + p.1
}

/// The pairs on the wire, in the order given, joined by `"; "`.
pub open spec fn render(es: Seq<Pair>) -> Text
    decreases es.len(),
{
    if es.len() == 0 {
        Seq::empty()
    } else if es.len() == 1 {
        pair_text(es[0])
    } else {
        render(es.drop_last()) + seq![';', ' '] + pair_text(es.last())
    }
}

/// The cookie string of a mapping: its pairs in ascending order of name,
/// joined by `"; "`.
pub open spec fn canonical(m: Map<Text, Text>) -> Text {
    render(listing(m))
}

/// The pairs that the entries hold.
pub open spec fn pairs_of(entries: Seq<Entry>) -> Seq<Pair> {
    entries.map_values(|e: Entry| e@)
}

/// A set of cookies: at most one value for each name. The entries stand in
/// ascending order of name.
pub struct CookieSet {
    entries: Vec<Entry>,
}

impl View for CookieSet {
    type V = Map<Text, Text>;

    closed spec fn view(&self) -> Map<Text, Text> {
        last_wins(pairs_of(self.entries@))
    }
}

impl CookieSet {
    /// The names of the entries strictly ascend, so that each occurs once.
    #[verifier::type_invariant]
    spec fn ordered(self) -> bool {
        keys_ascend(pairs_of(self.entries@))
    }

    /// The empty set.
    pub fn new() -> (r: Self)
        ensures
            r@ == Map::<Text, Text>::empty(),
    {
        let entries: Vec<Entry> = Vec::new();
        assert(pairs_of(entries@) == Seq::<Pair>::empty());
        CookieSet { entries }
    }

    /// Gives `key` the value `value`, whether or not it had one.
    pub fn insert(&mut self, key: Vec<char>, value: Vec<char>)
        ensures
            final(self)@ == old(self)@.insert(key@, value@),
    {
        proof {
            use_type_invariant(&*self);
        }
        let ghost before = pairs_of(self.entries@);
        let ghost m = last_wins(before);
        let ghost e = (key@, value@);
        proof {
            lemma_ascending_lists_itself(before);
        }
        let mut entries: Vec<Entry> = Vec::new();
        assert(pairs_of(entries@) == Seq::<Pair>::empty());
        std::mem::swap(&mut self.entries, &mut entries);
        let n = entries.len();
        let mut i: usize = 0;
        let mut found = false;
        let mut scanning = true;
        while scanning && i < n
            invariant
                n == entries.len(),
                before == pairs_of(entries@),
                i <= n,
                forall|j: int| 0 <= j < i ==> precedes((#[trigger] before[j]).0, key@),
                !scanning ==> i < n,
                !scanning && found ==> before[i as int].0 == key@,
                !scanning && !found ==> precedes(key@, before[i as int].0),
                scanning ==> !found,
            decreases n - i + if scanning { 1int } else { 0int },
        {
            match rank(&entries[i].key, &key) {
                Rank::Before => {
                    i += 1;
                },
                Rank::Same => {
                    found = true;
                    scanning = false;
                },
                Rank::After => {
                    scanning = false;
                },
            }
        }
        if found {
            let ghost after = before.update(i as int, e);
            proof {
                assert forall|a: int, b: int| 0 <= a < b < after.len() implies precedes(
                    after[a].0,
                    after[b].0,
                ) by {
                    assert(precedes(before[a].0, before[b].0));
                }
                assert forall|j: int| 0 <= j < after.len() implies m.insert(
                    e.0,
                    e.1,
                ).contains_pair((#[trigger] after[j]).0, after[j].1) by {
                    assert(m.contains_pair(before[j].0, before[j].1));
                    lemma_precedes_irreflexive(key@);
                    if j < i {
                        assert(precedes(before[j].0, before[i as int].0));
                    } else if j > i {
                        assert(precedes(before[i as int].0, before[j].0));
                    }
                }
                assert forall|k: Text| #[trigger]
                    m.insert(e.0, e.1).dom().contains(k) implies has_key(after, k) by {
                    if k == e.0 {
                        assert(after[i as int].0 == k);
                    } else {
                        assert(m.dom().contains(k));
                        let j = choose|j: int| 0 <= j < before.len() && (#[trigger] before[j]).0 == k;
                        assert(after[j].0 == k);
                    }
                }
                assert(lists(after, m.insert(e.0, e.1)));
                lemma_ascending_lists_itself(after);
                lemma_lists_one_map(after, m.insert(e.0, e.1), last_wins(after));
                assert(pairs_of(entries@.update(i as int, Entry { key, value })) == after);
            }
            entries.set(i, Entry { key, value });
        } else {
            let ghost after = before.insert(i as int, e);
            proof {
                assert forall|a: int, b: int| 0 <= a < b < after.len() implies precedes(
                    after[a].0,
                    after[b].0,
                ) by {
                    if b < i {
                        assert(precedes(before[a].0, before[b].0));
                    } else if b == i {
                    } else if a < i {
                        assert(precedes(before[a].0, key@));
                        if b - 1 > i {
                            assert(precedes(before[i as int].0, before[b - 1].0));
                            lemma_precedes_transitive(key@, before[i as int].0, before[b - 1].0);
                        }
                        lemma_precedes_transitive(before[a].0, key@, before[b - 1].0);
                    } else if a == i {
                        if b - 1 > i {
                            assert(precedes(before[i as int].0, before[b - 1].0));
                            lemma_precedes_transitive(key@, before[i as int].0, before[b - 1].0);
                        }
                    } else {
                        assert(precedes(before[a - 1].0, before[b - 1].0));
                    }
                }
                assert forall|j: int| 0 <= j < after.len() implies m.insert(
                    e.0,
                    e.1,
                ).contains_pair((#[trigger] after[j]).0, after[j].1) by {
                    if j < i {
                        assert(m.contains_pair(before[j].0, before[j].1));
                        lemma_precedes_irreflexive(key@);
                    } else if j > i {
                        assert(m.contains_pair(before[j - 1].0, before[j - 1].1));
                        if j - 1 > i {
                            assert(precedes(before[i as int].0, before[j - 1].0));
                            lemma_precedes_transitive(key@, before[i as int].0, before[j - 1].0);
                        }
                        lemma_precedes_irreflexive(key@);
                    }
                }
                assert forall|k: Text| #[trigger]
                    m.insert(e.0, e.1).dom().contains(k) implies has_key(after, k) by {
                    if k == e.0 {
                        assert(after[i as int].0 == k);
                    } else {
                        assert(m.dom().contains(k));
                        let j = choose|j: int| 0 <= j < before.len() && (#[trigger] before[j]).0 == k;
                        if j < i {
                            assert(after[j].0 == k);
                        } else {
                            assert(after[j + 1].0 == k);
                        }
                    }
                }
                assert(lists(after, m.insert(e.0, e.1)));
                lemma_ascending_lists_itself(after);
                lemma_lists_one_map(after, m.insert(e.0, e.1), last_wins(after));
                assert(pairs_of(entries@.insert(i as int, Entry { key, value })) == after);
            }
            entries.insert(i, Entry { key, value });
        }
        self.entries = entries;
    }

    /// The set on the wire: `name=value` pairs in ascending order of name,
    /// joined by `"; "`.
    pub fn render(&self) -> (out: Vec<char>)
        ensures
            lists(listing(self@), self@),
            out@ == canonical(self@),
    {
        proof {
            use_type_invariant(self);
            lemma_ascending_lists_itself(pairs_of(self.entries@));
            lemma_listing_is(pairs_of(self.entries@), self@);
        }
        let ghost es = pairs_of(self.entries@);
        let mut out: Vec<char> = Vec::new();
        let mut i: usize = 0;
        while i < self.entries.len()
            invariant
                i <= self.entries.len(),
                es == pairs_of(self.entries@),
                out@ == render(es.take(i as int)),
            decreases self.entries.len() - i,
        {
            let ghost before = out@;
            if i > 0 {
                out.push(';');
                out.push(' ');
            }
            append(&mut out, &self.entries[i].key);
            out.push('=');
            append(&mut out, &self.entries[i].value);
            proof {
                let t = es.take(i + 1);
                assert(t.drop_last() == es.take(i as int));
                assert(t.last() == es[i as int]);
                assert(es[i as int] == self.entries@[i as int]@);
                if i > 0 {
                    assert(out@ == before + seq![';', ' '] + pair_text(es[i as int]));
                } else {
                    assert(before == Seq::<char>::empty());
                    assert(out@ == pair_text(es[i as int]));
                }
            }
            i += 1;
        }
        assert(es.take(i as int) == es);
        out
    }
}

} // verus!
