//! Cookie strings as sequences of `key=value` pairs.
//!
//! A cookie string is cut into fragments at separators; a fragment with an
//! `=` yields a pair, split at its first `=`, key and value trimmed. A
//! fragment without `=` yields nothing.

use vstd::prelude::*;
use crate::text::{find_stop, lemma_stop_index_bounds, pieces, stop_index, trim, trimmed, Text};

verus! {

/// A cookie name with its value.
pub type Pair = (Text, Text);

/// The characters that end a fragment: `;`, and `,` as well where cookies
/// come from concatenated response headers.
pub open spec fn separators(with_commas: bool) -> Set<char> {
    if with_commas {
        set![';', ',']
    } else {
        set![';']
    }
}

/// The pair that a fragment holds: split at the first `=`, both sides
/// trimmed. `None` where the fragment has no `=`.
pub open spec fn parse_pair(fragment: Text) -> Option<Pair> {
    let i = stop_index(fragment, set!['=']);
    if 0 <= i < fragment.len() {
        Some((trim(fragment.take(i)), trim(fragment.skip(i + 1))))
    } else {
        None
    }
}

/// A sequence of at most one pair.
pub open spec fn optional(p: Option<Pair>) -> Seq<Pair> {
    match p {
        Some(pair) => seq![pair],
        None => Seq::empty(),
    }
}

/// The pairs that the fragments hold, in order.
pub open spec fn pairs_in(fragments: Seq<Text>) -> Seq<Pair>
    decreases fragments.len(),
{
    if fragments.len() == 0 {
        Seq::empty()
    } else {
        optional(parse_pair(fragments[0])) + pairs_in(fragments.drop_first())
    }
}

/// The pairs of a cookie string, in the order in which they occur.
pub open spec fn cookie_pairs(s: Text, with_commas: bool) -> Seq<Pair> {
    pairs_in(pieces(s, separators(with_commas)))
}

/// The pairs of `s` are the pair of its first fragment, followed by the
/// pairs of what comes after the first separator.
pub proof fn lemma_cookie_pairs_unfold(s: Text, with_commas: bool)
    ensures
        ({
            let i = stop_index(s, separators(with_commas));
            let head = optional(parse_pair(s.take(i)));
            &&& 0 <= i <= s.len()
            &&& i < s.len() ==> cookie_pairs(s, with_commas) == head + cookie_pairs(
                s.skip(i + 1),
                with_commas,
            )
            &&& i == s.len() ==> cookie_pairs(s, with_commas) == head
        }),
{
    let stops = separators(with_commas);
    let i = stop_index(s, stops);
    lemma_stop_index_bounds(s, stops);
    let head = optional(parse_pair(s.take(i)));
    if i < s.len() {
        let rest = pieces(s.skip(i + 1), stops);
        let all = seq![s.take(i)] + rest;
        assert(pieces(s, stops) == all);
        assert(all[0] == s.take(i));
        assert(all.drop_first() == rest);
    } else {
        let all = seq![s];
        assert(s.take(i) == s);
        assert(pieces(s, stops) == all);
        assert(all.drop_first() == Seq::<Text>::empty());
        assert(pairs_in(all.drop_first()) == Seq::<Pair>::empty());
        assert(head + Seq::<Pair>::empty() == head);
    }
}

/// A pair held as characters.
pub struct Entry {
    pub key: Vec<char>,
    pub value: Vec<char>,
}

impl View for Entry {
    type V = Pair;

    open spec fn view(&self) -> Pair {
        (self.key@, self.value@)
    }
}

/// The pair of an optional entry.
pub open spec fn entry_view(e: Option<Entry>) -> Option<Pair> {
    match e {
        Some(entry) => Some(entry@),
        None => None,
    }
}

/// Reads the fragment of `v` that begins at `start`: returns where it ends
/// (the index of the separator after it, or the length of `v`) and the pair
/// that it holds.
pub fn next_pair(v: &Vec<char>, start: usize, with_commas: bool) -> (r: (usize, Option<Entry>))
    requires
        start <= v.len(),
    ensures
        start <= r.0 <= v.len(),
        r.0 - start == stop_index(v@.skip(start as int), separators(with_commas)),
        entry_view(r.1) == parse_pair(v@.subrange(start as int, r.0 as int)),
{
    let second = if with_commas { ',' } else { ';' };
    let end = find_stop(v, start, v.len(), ';', second);
    let eq = find_stop(v, start, end, '=', '=');
    let ghost fragment = v@.subrange(start as int, end as int);
    proof {
        assert(set![';', second] =~= separators(with_commas));
        assert(set!['=', '='] =~= set!['=']);
        assert(v@.subrange(start as int, v.len() as int) == v@.skip(start as int));
        assert(fragment.take(eq - start) == v@.subrange(start as int, eq as int));
    }
    if eq < end {
        assert(fragment.skip(eq - start + 1) == v@.subrange(eq + 1, end as int));
        let key = trimmed(v, start, eq);
        let value = trimmed(v, eq + 1, end);
        (end, Some(Entry { key, value }))
    } else {
        (end, None)
    }
}

} // verus!
