//! The cookie codec: merging two cookie strings, normalising the cookies of
//! response headers, and looking a value up by name.

use vstd::prelude::*;
use crate::jar::{
    canonical, extend, has_key, last_wins, lemma_listing_is, listing, lists, CookieSet,
};
use crate::pairs::{
    cookie_pairs, entry_view, lemma_cookie_pairs_unfold, next_pair, optional, Pair,
};
use crate::roundtrip::{
    all_plain, is_plain, lemma_canonical_reads_back, lemma_cookie_pairs_are_plain,
    lemma_extend_stays_plain, lemma_last_wins_is_listed, lemma_listing_extended, plain_map,
};
use crate::text::{
    chars_of, lemma_precedes_irreflexive, matches_ignoring_case, precedes, same_ignoring_case,
    same_text, string_of, text_view, Text,
};

verus! {

/// Whether `key` names an attribute of a cookie rather than a cookie: one of
/// `path`, `domain`, `expires`, `secure`, `httponly`, `samesite`, `max-age`,
/// in any case of letters.
pub open spec fn is_attribute(key: Text) -> bool {
    ||| same_ignoring_case(key, "path"@)
    ||| same_ignoring_case(key, "domain"@)
    ||| same_ignoring_case(key, "expires"@)
    ||| same_ignoring_case(key, "secure"@)
    ||| same_ignoring_case(key, "httponly"@)
    ||| same_ignoring_case(key, "samesite"@)
    ||| same_ignoring_case(key, "max-age"@)
}

/// Whether `value` is a value at all: neither empty nor the two quotes `""`.
pub open spec fn carries_value(value: Text) -> bool {
    value.len() > 0 && value != seq!['"', '"']
}

/// Whether a pair belongs to the identity of a session: a cookie proper,
/// with a value.
pub open spec fn is_identity(p: Pair) -> bool {
    !is_attribute(p.0) && carries_value(p.1)
}

/// The identity pairs among `ps`, in order.
pub open spec fn identity_pairs(ps: Seq<Pair>) -> Seq<Pair>
    decreases ps.len(),
{
    if ps.len() == 0 {
        ps
    } else if is_identity(ps.last()) {
        identity_pairs(ps.drop_last()).push(ps.last())
    } else {
        identity_pairs(ps.drop_last())
    }
}

/// The pairs that a cookie string contributes to a cookie set: its identity
/// pairs, in order. The string is cut at `;`, and at `,` as well where it
/// is a run of concatenated response headers.
pub open spec fn contributed(s: Text, with_commas: bool) -> Seq<Pair> {
    identity_pairs(cookie_pairs(s, with_commas))
}

/// The pairs of a `;`-separated cookie string, in order.
pub open spec fn cookie_pairs_of(s: Text) -> Seq<Pair> {
    cookie_pairs(s, false)
}

/// The mapping that a cookie string reads as when every pair is taken, the
/// last pair of each name winning.
pub open spec fn cookie_map(s: Text) -> Map<Text, Text> {
    last_wins(cookie_pairs_of(s))
}

/// The cookie set of a cookie string: the mapping of its identity pairs,
/// the last pair of each name winning. It holds no attribute name and no
/// empty value.
pub open spec fn cookie_set(s: Text, with_commas: bool) -> Map<Text, Text> {
    last_wins(contributed(s, with_commas))
}

/// The union of the cookie sets of two cookie strings, the second winning
/// where both name a cookie, as a cookie string in ascending order of name.
pub open spec fn merged_text(older: Text, newer: Text) -> Text {
    canonical(cookie_set(older, false).union_prefer_right(cookie_set(newer, false)))
}

/// The cookie set of concatenated response headers as a cookie string in
/// ascending order of name.
pub open spec fn tidied_text(raw: Text) -> Text {
    canonical(cookie_set(raw, true))
}

/// Whether every pair of a cookie string is an identity pair: none is named
/// like an attribute, and none has an empty value or the value `""`.
pub open spec fn holds_identity_only(s: Text) -> bool {
    forall|i: int|
        0 <= i < cookie_pairs_of(s).len() ==> is_identity(#[trigger] cookie_pairs_of(s)[i])
}

/// The value of the first pair named `name`.
pub open spec fn first_value(ps: Seq<Pair>, name: Text) -> Option<Text>
    decreases ps.len(),
{
    if ps.len() == 0 {
        None
    } else if ps[0].0 == name {
        Some(ps[0].1)
    } else {
        first_value(ps.drop_first(), name)
    }
}

/// Applying pairs to a mapping is its union with the mapping that the pairs
/// describe, the pairs winning.
pub proof fn lemma_extend_is_union(m: Map<Text, Text>, ps: Seq<Pair>)
    ensures
        extend(m, ps) == m.union_prefer_right(last_wins(ps)),
    decreases ps.len(),
{
    if ps.len() == 0 {
        assert(m.union_prefer_right(Map::empty()) =~= m);
    } else {
        lemma_extend_is_union(m, ps.drop_last());
        let k = ps.last().0;
        let v = ps.last().1;
        assert(m.union_prefer_right(last_wins(ps.drop_last())).insert(k, v) =~= m.union_prefer_right(
            last_wins(ps.drop_last()).insert(k, v),
        ));
    }
}

/// Whether `key` names an attribute of a cookie.
pub fn names_attribute(key: &Vec<char>) -> (r: bool)
    ensures
        r == is_attribute(key@),
{
    matches_ignoring_case(key, "path") || matches_ignoring_case(key, "domain")
        || matches_ignoring_case(key, "expires") || matches_ignoring_case(key, "secure")
        || matches_ignoring_case(key, "httponly") || matches_ignoring_case(key, "samesite")
        || matches_ignoring_case(key, "max-age")
}

/// Whether `value` is neither empty nor `""`.
pub fn has_value(value: &Vec<char>) -> (r: bool)
    ensures
        r == carries_value(value@),
{
    if value.len() == 0 {
        false
    } else if value.len() == 2 && value[0] == '"' && value[1] == '"' {
        assert(value@ =~= seq!['"', '"']);
        false
    } else {
        assert(value@ != seq!['"', '"']) by {
            if value@ == seq!['"', '"'] {
                assert(seq!['"', '"'].len() == 2);
                assert(seq!['"', '"'][0] == '"');
                assert(seq!['"', '"'][1] == '"');
            }
        }
        true
    }
}

/// Applies to `set`, in order, the identity pairs of the cookie string `v`,
/// cut at `;` and, where `with_commas` is set, at `,`.
pub fn absorb(set: &mut CookieSet, v: &Vec<char>, with_commas: bool)
    ensures
        final(set)@ == extend(old(set)@, contributed(v@, with_commas)),
{
    let ghost all = cookie_pairs(v@, with_commas);
    let ghost mut seen: Seq<Pair> = Seq::empty();
    let mut start: usize = 0;
    let mut done = false;
    proof {
        assert(v@.skip(0) == v@);
        assert(seen + all == all);
    }
    while !done
        invariant
            start <= v.len(),
            all == cookie_pairs(v@, with_commas),
            !done ==> all == seen + cookie_pairs(v@.skip(start as int), with_commas),
            done ==> all == seen,
            set@ == extend(old(set)@, identity_pairs(seen)),
        decreases v.len() - start + if done { 0int } else { 1int },
    {
        let (end, found) = next_pair(v, start, with_commas);
        let ghost rest = v@.skip(start as int);
        let ghost head = optional(entry_view(found));
        proof {
            lemma_cookie_pairs_unfold(rest, with_commas);
            assert(rest.take(end - start) == v@.subrange(start as int, end as int));
            if end < v.len() {
                assert(rest.skip(end - start + 1) == v@.skip(end + 1));
                assert(seen + (head + cookie_pairs(v@.skip(end + 1), with_commas)) == (seen + head)
                    + cookie_pairs(v@.skip(end + 1), with_commas));
            }
        }
        match found {
            Some(entry) => {
                let ghost p = entry@;
                let ghost taken = identity_pairs(seen);
                proof {
                    assert(seen + head == seen.push(p));
                    assert(seen.push(p).drop_last() == seen);
                    assert(taken.push(p).drop_last() == taken);
                }
                if !names_attribute(&entry.key) && has_value(&entry.value) {
                    set.insert(entry.key, entry.value);
                }
            },
            None => {
                assert(seen + head == seen);
            },
        }
        proof {
            seen = seen + head;
        }
        if end == v.len() {
            done = true;
        } else {
            start = end + 1;
        }
    }
}

/// Merges two cookie strings. Both are read as `;`-separated `key=value`
/// pairs, of which the identity pairs count: a pair named like an attribute
/// or without a value is dropped. The result holds every name of either,
/// with the value from `newer` where both have it, in ascending order of
/// name, joined by `"; "`.
pub fn merge_cookies(older: &str, newer: &str) -> (merged: String)
    ensures
        merged@ == merged_text(older@, newer@),
        holds_identity_only(merged@),
{
    let mut set = CookieSet::new();
    let older_chars = chars_of(older);
    let newer_chars = chars_of(newer);
    absorb(&mut set, &older_chars, false);
    absorb(&mut set, &newer_chars, false);
    proof {
        lemma_extend_is_union(cookie_set(older@, false), contributed(newer@, false));
        lemma_merge_reads_back(older@, newer@);
    }
    let out = set.render();
    string_of(&out)
}

/// Normalises the concatenated `Set-Cookie` headers of a response: cuts at
/// `,` and `;`, keeps the `key=value` fragments that are cookies with a
/// value, the last of each name, and joins them in ascending order of name
/// by `"; "`.
pub fn tidy_key_values(raw: &str) -> (tidied: String)
    ensures
        tidied@ == tidied_text(raw@),
        holds_identity_only(tidied@),
{
    let mut set = CookieSet::new();
    let chars = chars_of(raw);
    absorb(&mut set, &chars, true);
    proof {
        lemma_tidy_reads_back(raw@);
    }
    let out = set.render();
    string_of(&out)
}

/// The value of the first pair named `name` in the `;`-separated cookie
/// string, or `None` where no pair has that name.
pub fn extract_value(cookie: &str, name: &str) -> (value: Option<String>)
    ensures
        text_view(value) == first_value(cookie_pairs_of(cookie@), name@),
{
    let v = chars_of(cookie);
    let wanted = chars_of(name);
    let mut start: usize = 0;
    proof {
        assert(v@.skip(0) == v@);
    }
    loop
        invariant
            start <= v.len(),
            wanted@ == name@,
            v@ == cookie@,
            first_value(cookie_pairs(v@, false), wanted@) == first_value(
                cookie_pairs(v@.skip(start as int), false),
                wanted@,
            ),
        decreases v.len() - start,
    {
        let (end, found) = next_pair(&v, start, false);
        let ghost rest = v@.skip(start as int);
        let ghost head = optional(entry_view(found));
        let ghost tail = if end < v.len() {
            cookie_pairs(v@.skip(end + 1), false)
        } else {
            Seq::<Pair>::empty()
        };
        proof {
            lemma_cookie_pairs_unfold(rest, false);
            assert(rest.take(end - start) == v@.subrange(start as int, end as int));
            assert(cookie_pairs(rest, false) == head + tail) by {
                if end == v.len() {
                    assert(head + tail == head);
                } else {
                    assert(rest.skip(end - start + 1) == v@.skip(end + 1));
                }
            }
        }
        match found {
            Some(entry) => {
                let ghost p = entry@;
                proof {
                    assert((head + tail)[0] == p);
                    assert((head + tail).drop_first() == tail);
                }
                if same_text(&entry.key, &wanted) {
                    return Some(string_of(&entry.value));
                }
                assert(first_value(head + tail, wanted@) == first_value(tail, wanted@));
            },
            None => {
                assert(head + tail == tail);
            },
        }
        if end == v.len() {
            assert(first_value(tail, wanted@) == None::<Text>);
            return None;
        }
        start = end + 1;
    }
}

/// The names of the cookies in a cookie string.
pub open spec fn cookie_names(s: Text) -> Set<Text> {
    cookie_map(s).dom()
}

/// Whether every pair of a mapping is an identity pair.
pub open spec fn identity_map(m: Map<Text, Text>) -> bool {
    forall|k: Text| #[trigger] m.dom().contains(k) ==> is_identity((k, m[k]))
}

/// The value of a name in a mapping, where it has one.
pub open spec fn lookup(m: Map<Text, Text>, name: Text) -> Option<Text> {
    if m.dom().contains(name) {
        Some(m[name])
    } else {
        None
    }
}

/// The identity pairs among plain pairs are plain, and each is an identity
/// pair.
proof fn lemma_identity_pairs(ps: Seq<Pair>, with_commas: bool)
    requires
        all_plain(ps, with_commas),
    ensures
        all_plain(identity_pairs(ps), with_commas),
        forall|i: int|
            0 <= i < identity_pairs(ps).len() ==> is_identity(#[trigger] identity_pairs(ps)[i]),
    decreases ps.len(),
{
    if ps.len() > 0 {
        let init = ps.drop_last();
        assert forall|i: int| 0 <= i < init.len() implies is_plain(#[trigger] init[i], with_commas) by {
            assert(init[i] == ps[i]);
        }
        lemma_identity_pairs(init, with_commas);
        assert(is_plain(ps[ps.len() - 1], with_commas));
    }
}

/// Pairs that are all identity pairs are their own identity pairs.
proof fn lemma_identity_pairs_of_identity(ps: Seq<Pair>)
    requires
        forall|i: int| 0 <= i < ps.len() ==> is_identity(#[trigger] ps[i]),
    ensures
        identity_pairs(ps) == ps,
    decreases ps.len(),
{
    if ps.len() > 0 {
        let init = ps.drop_last();
        assert forall|i: int| 0 <= i < init.len() implies is_identity(#[trigger] init[i]) by {
            assert(init[i] == ps[i]);
        }
        lemma_identity_pairs_of_identity(init);
        assert(is_identity(ps[ps.len() - 1]));
        assert(init.push(ps.last()) == ps);
    }
}

/// Every pair of the mapping that pairs describe is one of the pairs.
proof fn lemma_last_wins_holds_pairs(ps: Seq<Pair>)
    ensures
        forall|k: Text| #[trigger]
            last_wins(ps).dom().contains(k) ==> exists|i: int|
                0 <= i < ps.len() && #[trigger] ps[i] == (k, last_wins(ps)[k]),
    decreases ps.len(),
{
    if ps.len() > 0 {
        let init = ps.drop_last();
        lemma_last_wins_holds_pairs(init);
        let m = last_wins(ps);
        assert forall|k: Text| #[trigger] m.dom().contains(k) implies exists|i: int|
            0 <= i < ps.len() && #[trigger] ps[i] == (k, m[k]) by {
            if k == ps.last().0 {
                assert(ps[ps.len() - 1] == (k, m[k]));
            } else {
                assert(last_wins(init).dom().contains(k));
                let i = choose|i: int|
                    0 <= i < init.len() && #[trigger] init[i] == (k, last_wins(init)[k]);
                assert(ps[i] == (k, m[k]));
            }
        }
    }
}

/// A cookie set holds plain identity pairs only, and has a listing.
pub proof fn lemma_cookie_set_is_clean(s: Text, with_commas: bool)
    ensures
        all_plain(contributed(s, with_commas), with_commas),
        plain_map(cookie_set(s, with_commas), with_commas),
        plain_map(cookie_set(s, with_commas), false),
        identity_map(cookie_set(s, with_commas)),
        lists(listing(cookie_set(s, with_commas)), cookie_set(s, with_commas)),
{
    let kept = contributed(s, with_commas);
    let m = cookie_set(s, with_commas);
    lemma_cookie_pairs_are_plain(s, with_commas);
    lemma_identity_pairs(cookie_pairs(s, with_commas), with_commas);
    lemma_extend_stays_plain(Map::empty(), kept, with_commas);
    assert(all_plain(kept, false)) by {
        assert forall|i: int| 0 <= i < kept.len() implies is_plain(#[trigger] kept[i], false) by {
            assert(is_plain(kept[i], with_commas));
        }
    }
    lemma_extend_stays_plain(Map::empty(), kept, false);
    lemma_last_wins_is_listed(kept);
    lemma_last_wins_holds_pairs(kept);
    assert forall|k: Text| #[trigger] m.dom().contains(k) implies is_identity((k, m[k])) by {
        let i = choose|i: int| 0 <= i < kept.len() && #[trigger] kept[i] == (k, m[k]);
        assert(is_identity(kept[i]));
    }
}

/// The canonical string of a mapping of plain identity pairs reads back as
/// that mapping, whether all its pairs are taken or its identity pairs
/// only, and every pair of it is an identity pair.
pub proof fn lemma_canonical_holds_identity(m: Map<Text, Text>, with_commas: bool)
    requires
        plain_map(m, with_commas),
        identity_map(m),
        lists(listing(m), m),
    ensures
        cookie_pairs(canonical(m), with_commas) == listing(m),
        contributed(canonical(m), with_commas) == listing(m),
        cookie_set(canonical(m), with_commas) == m,
        !with_commas ==> cookie_map(canonical(m)) == m && holds_identity_only(canonical(m)),
{
    let es = listing(m);
    lemma_canonical_reads_back(m, with_commas);
    assert forall|i: int| 0 <= i < es.len() implies is_identity(#[trigger] es[i]) by {
        assert(m.contains_pair(es[i].0, es[i].1));
        assert(m.dom().contains(es[i].0));
    }
    lemma_identity_pairs_of_identity(es);
}

/// The union of two cookie sets holds plain identity pairs only, and has a
/// listing.
proof fn lemma_union_is_clean(a: Text, b: Text)
    ensures
        ({
            let m = cookie_set(a, false).union_prefer_right(cookie_set(b, false));
            &&& plain_map(m, false)
            &&& identity_map(m)
            &&& lists(listing(m), m)
        }),
{
    let ma = cookie_set(a, false);
    let mb = cookie_set(b, false);
    let pb = contributed(b, false);
    let m = ma.union_prefer_right(mb);
    lemma_cookie_set_is_clean(a, false);
    lemma_cookie_set_is_clean(b, false);
    lemma_extend_is_union(ma, pb);
    let es = lemma_listing_extended(listing(ma), ma, pb);
    lemma_listing_is(es, m);
    lemma_extend_stays_plain(ma, pb, false);
    assert forall|k: Text| #[trigger] m.dom().contains(k) implies is_identity((k, m[k])) by {
        if mb.dom().contains(k) {
        } else {
            assert(ma.dom().contains(k));
        }
    }
}

/// The merge of two cookie strings is the union of their cookie sets, the
/// second winning where both name a cookie: it reads back as that union,
/// whether all its pairs are taken or its identity pairs only, and every
/// pair of it is an identity pair. No attribute name and no empty value
/// passes through a merge.
pub proof fn lemma_merge_reads_back(a: Text, b: Text)
    ensures
        cookie_map(merged_text(a, b)) == cookie_set(a, false).union_prefer_right(
            cookie_set(b, false),
        ),
        cookie_set(merged_text(a, b), false) == cookie_map(merged_text(a, b)),
        holds_identity_only(merged_text(a, b)),
{
    lemma_union_is_clean(a, b);
    lemma_canonical_holds_identity(
        cookie_set(a, false).union_prefer_right(cookie_set(b, false)),
        false,
    );
}

/// The names in a merge are the names of the identity pairs of either
/// string, and none of them names an attribute.
pub proof fn lemma_merge_names(a: Text, b: Text)
    ensures
        cookie_names(merged_text(a, b)) == cookie_set(a, false).dom().union(
            cookie_set(b, false).dom(),
        ),
        forall|k: Text| #[trigger]
            cookie_names(merged_text(a, b)).contains(k) ==> !is_attribute(k) && carries_value(
                cookie_map(merged_text(a, b))[k],
            ),
{
    lemma_merge_reads_back(a, b);
    lemma_union_is_clean(a, b);
    assert(cookie_names(merged_text(a, b)) =~= cookie_set(a, false).dom().union(
        cookie_set(b, false).dom(),
    ));
}

/// Merging is commutative on the names: the merge of `a` and `b` names the
/// same cookies as the merge of `b` and `a`.
pub proof fn lemma_merge_names_commute(a: Text, b: Text)
    ensures
        cookie_names(merged_text(a, b)) == cookie_names(merged_text(b, a)),
{
    lemma_merge_reads_back(a, b);
    lemma_merge_reads_back(b, a);
    assert(cookie_names(merged_text(a, b)) =~= cookie_names(merged_text(b, a)));
}

/// Merging is idempotent: merging `b` into the merge of `a` and `b` changes
/// nothing.
pub proof fn lemma_merge_idempotent(a: Text, b: Text)
    ensures
        merged_text(merged_text(a, b), b) == merged_text(a, b),
{
    lemma_merge_reads_back(a, b);
    let m = cookie_set(a, false).union_prefer_right(cookie_set(b, false));
    assert(m.union_prefer_right(cookie_set(b, false)) =~= m);
}

/// A merged cookie string merged with itself is itself.
pub proof fn lemma_merge_with_itself(a: Text, b: Text)
    ensures
        merged_text(merged_text(a, b), merged_text(a, b)) == merged_text(a, b),
{
    lemma_merge_reads_back(a, b);
    let m = cookie_set(a, false).union_prefer_right(cookie_set(b, false));
    assert(m.union_prefer_right(m) =~= m);
}

/// Normalised headers hold identity cookies only: read as a cookie string,
/// the result describes exactly the cookie set of the headers.
pub proof fn lemma_tidy_reads_back(raw: Text)
    ensures
        cookie_map(tidied_text(raw)) == cookie_set(raw, true),
        cookie_set(tidied_text(raw), false) == cookie_set(raw, true),
        holds_identity_only(tidied_text(raw)),
{
    lemma_cookie_set_is_clean(raw, true);
    lemma_canonical_holds_identity(cookie_set(raw, true), false);
}

/// Normalising is idempotent: what was normalised is normalised.
pub proof fn lemma_tidy_idempotent(raw: Text)
    ensures
        tidied_text(tidied_text(raw)) == tidied_text(raw),
{
    lemma_cookie_set_is_clean(raw, true);
    lemma_canonical_holds_identity(cookie_set(raw, true), true);
}

/// Merging keeps what the token service issued: every cookie in the cookie
/// set of the headers is in the merge of an account cookie with the
/// normalised headers, with its value.
pub proof fn lemma_merge_keeps_tidied(account: Text, raw: Text)
    ensures
        forall|k: Text| #[trigger]
            cookie_set(raw, true).dom().contains(k) ==> cookie_map(
                merged_text(account, tidied_text(raw)),
            ).contains_pair(k, cookie_set(raw, true)[k]),
{
    lemma_tidy_reads_back(raw);
    lemma_merge_reads_back(account, tidied_text(raw));
}

/// In a listing the first pair of a name is its only pair: looking a name
/// up in the listing gives its value in the mapping.
pub proof fn lemma_first_value_in_listing(es: Seq<Pair>, m: Map<Text, Text>, name: Text)
    requires
        lists(es, m),
    ensures
        first_value(es, name) == lookup(m, name),
    decreases es.len(),
{
    if es.len() == 0 {
        if m.dom().contains(name) {
            assert(has_key(es, name));
        }
    } else {
        let head = es[0];
        let rest = es.drop_first();
        assert(m.contains_pair(es[0].0, es[0].1));
        if head.0 != name {
            let less = m.remove(head.0);
            assert(lists(rest, less)) by {
                assert forall|i: int, j: int| 0 <= i < j < rest.len() implies precedes(
                    rest[i].0,
                    rest[j].0,
                ) by {
                    assert(precedes(es[i + 1].0, es[j + 1].0));
                }
                assert forall|i: int| 0 <= i < rest.len() implies less.contains_pair(
                    (#[trigger] rest[i]).0,
                    rest[i].1,
                ) by {
                    assert(m.contains_pair(es[i + 1].0, es[i + 1].1));
                    assert(precedes(es[0].0, es[i + 1].0));
                    lemma_precedes_irreflexive(head.0);
                }
                assert forall|k: Text| #[trigger] less.dom().contains(k) implies has_key(rest, k) by {
                    assert(m.dom().contains(k));
                    let i = choose|i: int| 0 <= i < es.len() && (#[trigger] es[i]).0 == k;
                    assert(rest[i - 1].0 == k);
                }
            }
            lemma_first_value_in_listing(rest, less, name);
        }
    }
}

/// Looking a name up in a merged cookie string gives the value that the
/// cookie set of the newer string has for it, else the value that the
/// cookie set of the older string has, else nothing.
pub proof fn lemma_extract_from_merged(older: Text, newer: Text, name: Text)
    ensures
        first_value(cookie_pairs_of(merged_text(older, newer)), name) == lookup(
            cookie_set(older, false).union_prefer_right(cookie_set(newer, false)),
            name,
        ),
{
    let m = cookie_set(older, false).union_prefer_right(cookie_set(newer, false));
    lemma_union_is_clean(older, newer);
    lemma_canonical_holds_identity(m, false);
    lemma_first_value_in_listing(listing(m), m, name);
}

} // verus!
