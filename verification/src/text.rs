//! Character sequences: conversion between strings and character vectors,
//! trimming, splitting, ordering and searching.
//!
//! Every contract in the crate speaks of strings through their view, a
//! `Seq<char>`. The executable code works on `Vec<char>` so that characters
//! can be indexed in constant time.

use vstd::prelude::*;

verus! {

/// A string as the sequence of its characters.
pub type Text = Seq<char>;

/// Trusted of `String::push`: it appends the character to the end of the
/// string and changes nothing else.
pub assume_specification[ String::push ](s: &mut String, c: char)
    ensures
        final(s)@ == old(s)@.push(c),
;

/// The view of an optional string.
pub open spec fn text_view(s: Option<String>) -> Option<Text> {
    match s {
        Some(t) => Some(t@),
        None => None,
    }
}

/// The characters of a string, in order.
pub fn chars_of(s: &str) -> (v: Vec<char>)
    ensures
        v@ == s@,
{
    let mut v: Vec<char> = Vec::new();
    for c in it: s.chars()
        invariant
            it.seq() == s@,
            v@ == it.seq().take(it.index() as int),
    {
        v.push(c);
    }
    v
}

/// The string made of the given characters, in order.
pub fn string_of(v: &Vec<char>) -> (s: String)
    ensures
        s@ == v@,
{
    let mut s = String::new();
    let mut i: usize = 0;
    while i < v.len()
        invariant
            i <= v.len(),
            s@ == v@.take(i as int),
        decreases v.len() - i,
    {
        s.push(v[i]);
        i += 1;
    }
    s
}

/// A copy of the characters `v[from..to]`.
pub fn copy_range(v: &Vec<char>, from: usize, to: usize) -> (r: Vec<char>)
    requires
        from <= to <= v.len(),
    ensures
        r@ == v@.subrange(from as int, to as int),
{
    let mut r: Vec<char> = Vec::new();
    let mut i: usize = from;
    while i < to
        invariant
            from <= i <= to <= v.len(),
            r@ == v@.subrange(from as int, i as int),
        decreases to - i,
    {
        r.push(v[i]);
        i += 1;
    }
    r
}

/// Appends every character of `src` to `dst`.
pub fn append(dst: &mut Vec<char>, src: &Vec<char>)
    ensures
        final(dst)@ == old(dst)@ + src@,
{
    let mut i: usize = 0;
    while i < src.len()
        invariant
            i <= src.len(),
            dst@ == old(dst)@ + src@.take(i as int),
        decreases src.len() - i,
    {
        dst.push(src[i]);
        i += 1;
    }
}

/// Whether two character vectors hold the same characters.
pub fn same_text(a: &Vec<char>, b: &Vec<char>) -> (r: bool)
    ensures
        r == (a@ == b@),
{
    if a.len() != b.len() {
        return false;
    }
    let mut i: usize = 0;
    while i < a.len()
        invariant
            a.len() == b.len(),
            i <= a.len(),
            a@.take(i as int) == b@.take(i as int),
        decreases a.len() - i,
    {
        if a[i] != b[i] {
            return false;
        }
        assert(a@.take(i + 1) == a@.take(i as int).push(a@[i as int]));
        assert(b@.take(i + 1) == b@.take(i as int).push(b@[i as int]));
        i += 1;
    }
    assert(a@ == a@.take(a.len() as int));
    assert(b@ == b@.take(b.len() as int));
    true
}

/// The white-space characters of Unicode.
pub open spec fn is_space(c: char) -> bool {
    let u = c as int;
    ||| 0x09 <= u <= 0x0D
    ||| u == 0x20
    ||| u == 0x85
    ||| u == 0xA0
    ||| u == 0x1680
    ||| 0x2000 <= u <= 0x200A
    ||| u == 0x2028
    ||| u == 0x2029
    ||| u == 0x202F
    ||| u == 0x205F
    ||| u == 0x3000
}

/// Whether `c` is a white-space character.
pub fn is_space_char(c: char) -> (r: bool)
    ensures
        r == is_space(c),
{
    let u: u32 = c as u32;
    (0x09 <= u && u <= 0x0D) || u == 0x20 || u == 0x85 || u == 0xA0 || u == 0x1680 || (0x2000 <= u
        && u <= 0x200A) || u == 0x2028 || u == 0x2029 || u == 0x202F || u == 0x205F || u == 0x3000
}

/// `s` without its leading white space.
pub open spec fn trim_start(s: Text) -> Text
    decreases s.len(),
{
    if s.len() > 0 && is_space(s[0]) {
        trim_start(s.drop_first())
    } else {
        s
    }
}

/// `s` without its trailing white space.
pub open spec fn trim_end(s: Text) -> Text
    decreases s.len(),
{
    if s.len() > 0 && is_space(s.last()) {
        trim_end(s.drop_last())
    } else {
        s
    }
}

/// `s` without its leading and trailing white space.
pub open spec fn trim(s: Text) -> Text {
    trim_end(trim_start(s))
}

/// A sequence that neither starts nor ends with white space.
pub open spec fn is_trimmed(s: Text) -> bool {
    s.len() > 0 ==> !is_space(s[0]) && !is_space(s.last())
}

/// Dropping `n` leading white-space characters, where the next character is
/// not white space, is `trim_start`.
pub proof fn lemma_trim_start_skips(s: Text, n: int)
    requires
        0 <= n <= s.len(),
        forall|i: int| 0 <= i < n ==> is_space(#[trigger] s[i]),
        n < s.len() ==> !is_space(s[n]),
    ensures
        trim_start(s) == s.skip(n),
    decreases n,
{
    if n == 0 {
        assert(s.skip(0) == s);
    } else {
        let t = s.drop_first();
        assert forall|i: int| 0 <= i < n - 1 implies is_space(#[trigger] t[i]) by {
            assert(t[i] == s[i + 1]);
        }
        lemma_trim_start_skips(t, n - 1);
        assert(t.skip(n - 1) == s.skip(n));
    }
}

/// Dropping the trailing white space down to length `n`, where the character
/// before is not white space, is `trim_end`.
pub proof fn lemma_trim_end_takes(s: Text, n: int)
    requires
        0 <= n <= s.len(),
        forall|i: int| n <= i < s.len() ==> is_space(#[trigger] s[i]),
        n > 0 ==> !is_space(s[n - 1]),
    ensures
        trim_end(s) == s.take(n),
    decreases s.len() - n,
{
    if n == s.len() {
        assert(s.take(n) == s);
    } else {
        let t = s.drop_last();
        lemma_trim_end_takes(t, n);
        assert(t.take(n) == s.take(n));
    }
}

/// What `trim_start` leaves does not begin with white space, ends as the
/// sequence did, and is free of every character that the sequence was free
/// of.
pub proof fn lemma_trim_start_leaves(s: Text, stops: Set<char>)
    ensures
        trim_start(s).len() > 0 ==> !is_space(trim_start(s)[0]) && trim_start(s).last() == s.last(),
        free_of(s, stops) ==> free_of(trim_start(s), stops),
    decreases s.len(),
{
    if s.len() > 0 && is_space(s[0]) {
        let t = s.drop_first();
        lemma_trim_start_leaves(t, stops);
        if free_of(s, stops) {
            assert forall|i: int| 0 <= i < t.len() implies !stops.contains(#[trigger] t[i]) by {
                assert(t[i] == s[i + 1]);
            }
        }
        if trim_start(s).len() > 0 {
            assert(t.len() > 0);
            assert(t.last() == s.last());
        }
    }
}

/// What `trim_end` leaves does not end with white space, begins as the
/// sequence did, and is free of every character that the sequence was free
/// of.
pub proof fn lemma_trim_end_leaves(s: Text, stops: Set<char>)
    ensures
        trim_end(s).len() > 0 ==> !is_space(trim_end(s).last()) && trim_end(s)[0] == s[0],
        free_of(s, stops) ==> free_of(trim_end(s), stops),
    decreases s.len(),
{
    if s.len() > 0 && is_space(s.last()) {
        let t = s.drop_last();
        lemma_trim_end_leaves(t, stops);
        if free_of(s, stops) {
            assert forall|i: int| 0 <= i < t.len() implies !stops.contains(#[trigger] t[i]) by {
                assert(t[i] == s[i]);
            }
        }
    }
}

/// A trimmed sequence is trimmed, and free of every character that the
/// sequence was free of.
pub proof fn lemma_trim_leaves(s: Text, stops: Set<char>)
    ensures
        is_trimmed(trim(s)),
        free_of(s, stops) ==> free_of(trim(s), stops),
{
    lemma_trim_start_leaves(s, stops);
    lemma_trim_end_leaves(trim_start(s), stops);
}

/// Trimming changes nothing in a sequence that is trimmed, also where a
/// blank stands before it.
pub proof fn lemma_trim_of_trimmed(s: Text)
    requires
        is_trimmed(s),
    ensures
        trim(s) == s,
        trim(seq![' '] + s) == s,
{
    let t = seq![' '] + s;
    assert(t[0] == ' ');
    assert(t.drop_first() == s);
    assert(trim_start(s) == s);
    assert(trim_start(t) == trim_start(s));
    assert(trim_end(s) == s);
}

/// The trimmed copy of the characters `v[from..to]`.
pub fn trimmed(v: &Vec<char>, from: usize, to: usize) -> (r: Vec<char>)
    requires
        from <= to <= v.len(),
    ensures
        r@ == trim(v@.subrange(from as int, to as int)),
{
    let ghost s = v@.subrange(from as int, to as int);
    let mut a: usize = from;
    while a < to && is_space_char(v[a])
        invariant
            from <= a <= to <= v.len(),
            forall|i: int| from <= i < a ==> is_space(#[trigger] v@[i]),
        decreases to - a,
    {
        a += 1;
    }
    let mut b: usize = to;
    while b > a && is_space_char(v[b - 1])
        invariant
            from <= a <= b <= to <= v.len(),
            forall|i: int| b <= i < to ==> is_space(#[trigger] v@[i]),
        decreases b - a,
    {
        b -= 1;
    }
    proof {
        lemma_trim_start_skips(s, a - from);
        let m = s.skip(a - from);
        assert(m == v@.subrange(a as int, to as int));
        if b > a {
            assert(!is_space(v@[b - 1]));
        }
        lemma_trim_end_takes(m, b - a);
        assert(m.take(b - a) == v@.subrange(a as int, b as int));
    }
    copy_range(v, a, b)
}

/// The index of the first character of `s` that belongs to `stops`, or the
/// length of `s` where there is none.
pub open spec fn stop_index(s: Text, stops: Set<char>) -> int
    decreases s.len(),
{
    if s.len() == 0 || stops.contains(s[0]) {
        0
    } else {
        1 + stop_index(s.drop_first(), stops)
    }
}

/// Whether no character of `s` belongs to `stops`.
pub open spec fn free_of(s: Text, stops: Set<char>) -> bool {
    forall|i: int| 0 <= i < s.len() ==> !stops.contains(#[trigger] s[i])
}

/// `stop_index` is the position `i` before which no stop character occurs
/// and at which one does, or the sequence ends.
pub proof fn lemma_stop_index_is(s: Text, stops: Set<char>, i: int)
    requires
        0 <= i <= s.len(),
        free_of(s.take(i), stops),
        i < s.len() ==> stops.contains(s[i]),
    ensures
        stop_index(s, stops) == i,
    decreases i,
{
    if i > 0 {
        assert(s.take(i)[0] == s[0]);
        let t = s.drop_first();
        assert forall|j: int| 0 <= j < i - 1 implies !stops.contains(#[trigger] t.take(i - 1)[j]) by {
            assert(t.take(i - 1)[j] == s.take(i)[j + 1]);
        }
        lemma_stop_index_is(t, stops, i - 1);
    }
}

/// `stop_index` lies within the sequence, the characters before it are free
/// of stop characters, and the character at it, if any, is one.
pub proof fn lemma_stop_index_bounds(s: Text, stops: Set<char>)
    ensures
        0 <= stop_index(s, stops) <= s.len(),
        free_of(s.take(stop_index(s, stops)), stops),
        stop_index(s, stops) < s.len() ==> stops.contains(s[stop_index(s, stops)]),
    decreases s.len(),
{
    if s.len() == 0 || stops.contains(s[0]) {
    } else {
        let t = s.drop_first();
        lemma_stop_index_bounds(t, stops);
        let i = stop_index(s, stops);
        assert forall|j: int| 0 <= j < i implies !stops.contains(#[trigger] s.take(i)[j]) by {
            if j > 0 {
                assert(s.take(i)[j] == t.take(i - 1)[j - 1]);
            }
        }
    }
}

/// The pieces into which the characters of `stops` cut `s`: one more piece
/// than there are stop characters in `s`, empty pieces included.
pub open spec fn pieces(s: Text, stops: Set<char>) -> Seq<Text>
    decreases s.len(),
{
    let i = stop_index(s, stops);
    if 0 <= i < s.len() {
        seq![s.take(i)] + pieces(s.skip(i + 1), stops)
    } else {
        seq![s]
    }
}

/// A sequence without stop characters is its own single piece.
pub proof fn lemma_pieces_of_free(s: Text, stops: Set<char>)
    requires
        free_of(s, stops),
    ensures
        pieces(s, stops) == seq![s],
{
    assert(s.take(s.len() as int) == s);
    lemma_stop_index_is(s, stops, s.len() as int);
}

/// Every piece is free of stop characters.
pub proof fn lemma_pieces_are_free(s: Text, stops: Set<char>)
    ensures
        forall|k: int| 0 <= k < pieces(s, stops).len() ==> free_of(#[trigger] pieces(s, stops)[k], stops),
    decreases s.len(),
{
    let i = stop_index(s, stops);
    lemma_stop_index_bounds(s, stops);
    if i < s.len() {
        let rest = pieces(s.skip(i + 1), stops);
        lemma_pieces_are_free(s.skip(i + 1), stops);
        let all = seq![s.take(i)] + rest;
        assert forall|k: int| 0 <= k < all.len() implies free_of(#[trigger] all[k], stops) by {
            if k > 0 {
                assert(all[k] == rest[k - 1]);
            }
        }
    } else {
        assert(s.take(i) == s);
    }
}

/// Cutting two sequences joined by a stop character gives the pieces of the
/// first followed by the pieces of the second.
pub proof fn lemma_pieces_concat(x: Text, c: char, y: Text, stops: Set<char>)
    requires
        stops.contains(c),
    ensures
        pieces(x + seq![c] + y, stops) == pieces(x, stops) + pieces(y, stops),
    decreases x.len(),
{
    let s = x + seq![c] + y;
    let i = stop_index(x, stops);
    lemma_stop_index_bounds(x, stops);
    assert(s.take(i) == x.take(i));
    if i < x.len() {
        assert(s[i] == x[i]);
        lemma_stop_index_is(s, stops, i);
        let rest = x.skip(i + 1);
        assert(s.skip(i + 1) == rest + seq![c] + y);
        lemma_pieces_concat(rest, c, y, stops);
        assert(seq![x.take(i)] + (pieces(rest, stops) + pieces(y, stops)) == (seq![x.take(i)]
            + pieces(rest, stops)) + pieces(y, stops));
    } else {
        assert(s[i] == c);
        lemma_stop_index_is(s, stops, i);
        assert(x.take(i) == x);
        assert(s.skip(i + 1) == y);
        lemma_pieces_of_free(x, stops);
    }
}

/// The index in `from..to` of the first character of `v` that is `a` or `b`,
/// or `to` where there is none.
pub fn find_stop(v: &Vec<char>, from: usize, to: usize, a: char, b: char) -> (r: usize)
    requires
        from <= to <= v.len(),
    ensures
        from <= r <= to,
        r - from == stop_index(v@.subrange(from as int, to as int), set![a, b]),
{
    let ghost s = v@.subrange(from as int, to as int);
    let mut i: usize = from;
    while i < to && v[i] != a && v[i] != b
        invariant
            from <= i <= to <= v.len(),
            s == v@.subrange(from as int, to as int),
            free_of(s.take(i - from), set![a, b]),
        decreases to - i,
    {
        proof {
            let n = i - from;
            assert forall|j: int| 0 <= j < n + 1 implies !set![a, b].contains(
                #[trigger] s.take(n + 1)[j],
            ) by {
                if j < n {
                    assert(s.take(n + 1)[j] == s.take(n)[j]);
                }
            }
        }
        i += 1;
    }
    proof {
        lemma_stop_index_is(s, set![a, b], i - from);
    }
    i
}

/// Strict lexicographic order on character sequences, characters compared by
/// code point. This is the order of Rust strings.
pub open spec fn precedes(a: Text, b: Text) -> bool
    decreases a.len(),
{
    if b.len() == 0 {
        false
    } else if a.len() == 0 {
        true
    } else if a[0] != b[0] {
        (a[0] as int) < (b[0] as int)
    } else {
        precedes(a.drop_first(), b.drop_first())
    }
}

/// No sequence precedes itself.
pub proof fn lemma_precedes_irreflexive(a: Text)
    ensures
        !precedes(a, a),
    decreases a.len(),
{
    if a.len() > 0 {
        lemma_precedes_irreflexive(a.drop_first());
    }
}

/// The order is asymmetric.
pub proof fn lemma_precedes_asymmetric(a: Text, b: Text)
    requires
        precedes(a, b),
    ensures
        !precedes(b, a),
    decreases a.len(),
{
    if a.len() > 0 && b.len() > 0 && a[0] == b[0] {
        lemma_precedes_asymmetric(a.drop_first(), b.drop_first());
    }
}

/// The order is transitive.
pub proof fn lemma_precedes_transitive(a: Text, b: Text, c: Text)
    requires
        precedes(a, b),
        precedes(b, c),
    ensures
        precedes(a, c),
    decreases a.len(),
{
    if a.len() > 0 && b.len() > 0 && c.len() > 0 && a[0] == b[0] && b[0] == c[0] {
        lemma_precedes_transitive(a.drop_first(), b.drop_first(), c.drop_first());
    }
}

/// The order is total: two different sequences are ordered one way or the
/// other.
pub proof fn lemma_precedes_total(a: Text, b: Text)
    ensures
        a == b || precedes(a, b) || precedes(b, a),
    decreases a.len(),
{
    if a.len() > 0 && b.len() > 0 {
        if a[0] == b[0] {
            let x = a.drop_first();
            let y = b.drop_first();
            lemma_precedes_total(x, y);
            if x == y {
                assert(a.len() == x.len() + 1);
                assert(b.len() == y.len() + 1);
                assert forall|i: int| 0 <= i < a.len() implies a[i] == b[i] by {
                    if i > 0 {
                        assert(a[i] == x[i - 1]);
                        assert(b[i] == y[i - 1]);
                    }
                }
                assert(a =~= b);
            }
        }
    } else if a.len() == 0 && b.len() == 0 {
        assert(a =~= b);
    }
}

/// Sequences that agree on their first `n` characters are ordered as their
/// remainders are.
pub proof fn lemma_precedes_after_prefix(a: Text, b: Text, n: int)
    requires
        0 <= n <= a.len(),
        n <= b.len(),
        a.take(n) == b.take(n),
    ensures
        precedes(a, b) == precedes(a.skip(n), b.skip(n)),
    decreases n,
{
    if n == 0 {
        assert(a.skip(0) == a);
        assert(b.skip(0) == b);
    } else {
        assert(a[0] == a.take(n)[0]);
        assert(b[0] == b.take(n)[0]);
        let x = a.drop_first();
        let y = b.drop_first();
        assert(x.take(n - 1) =~= a.take(n).drop_first());
        assert(y.take(n - 1) =~= b.take(n).drop_first());
        lemma_precedes_after_prefix(x, y, n - 1);
        assert(x.skip(n - 1) == a.skip(n));
        assert(y.skip(n - 1) == b.skip(n));
    }
}

/// How one key stands to another in the order.
#[derive(Clone, Copy, Debug, PartialEq, Eq, Structural)]
pub enum Rank {
    /// The first precedes the second.
    Before,
    /// The two are equal.
    Same,
    /// The second precedes the first.
    After,
}

/// Where `a` stands relative to `b` in lexicographic order.
pub fn rank(a: &Vec<char>, b: &Vec<char>) -> (r: Rank)
    ensures
        r == Rank::Before <==> precedes(a@, b@),
        r == Rank::Same <==> a@ == b@,
        r == Rank::After <==> precedes(b@, a@),
{
    let mut i: usize = 0;
    while i < a.len() && i < b.len() && a[i] == b[i]
        invariant
            i <= a.len(),
            i <= b.len(),
            a@.take(i as int) == b@.take(i as int),
        decreases a.len() - i,
    {
        assert(a@.take(i + 1) == a@.take(i as int).push(a@[i as int]));
        assert(b@.take(i + 1) == b@.take(i as int).push(b@[i as int]));
        i += 1;
    }
    proof {
        lemma_precedes_after_prefix(a@, b@, i as int);
        lemma_precedes_after_prefix(b@, a@, i as int);
    }
    let ghost x = a@.skip(i as int);
    let ghost y = b@.skip(i as int);
    if i == a.len() {
        if i == b.len() {
            proof {
                assert(a@ == a@.take(i as int));
                assert(b@ == b@.take(i as int));
                lemma_precedes_irreflexive(a@);
            }
            Rank::Same
        } else {
            assert(a@.len() != b@.len());
            assert(precedes(x, y));
            assert(!precedes(y, x));
            Rank::Before
        }
    } else if i == b.len() {
        assert(a@.len() != b@.len());
        assert(precedes(y, x));
        assert(!precedes(x, y));
        Rank::After
    } else {
        assert(x[0] == a@[i as int]);
        assert(y[0] == b@[i as int]);
        assert(a@ != b@);
        if a[i] < b[i] {
            assert(precedes(x, y));
            assert(!precedes(y, x));
            Rank::Before
        } else {
            assert(precedes(y, x));
            assert(!precedes(x, y));
            Rank::After
        }
    }
}

/// The code point of `c` with the ASCII capital letters mapped to their
/// small letters.
pub open spec fn fold_case(c: char) -> int {
    let u = c as int;
    if 0x41 <= u <= 0x5A {
        u + 32
    } else {
        u
    }
}

/// Whether two sequences are equal but for the case of ASCII letters.
pub open spec fn same_ignoring_case(a: Text, b: Text) -> bool {
    a.len() == b.len() && forall|i: int| 0 <= i < a.len() ==> fold_case(#[trigger] a[i]) == fold_case(b[i])
}

/// The case-folded code point of `c`.
pub fn folded(c: char) -> (r: u32)
    ensures
        r == fold_case(c),
{
    let u: u32 = c as u32;
    if 0x41 <= u && u <= 0x5A {
        u + 32
    } else {
        u
    }
}

/// Whether `a` equals `name` but for the case of ASCII letters.
pub fn matches_ignoring_case(a: &Vec<char>, name: &str) -> (r: bool)
    ensures
        r == same_ignoring_case(a@, name@),
{
    let b = chars_of(name);
    if a.len() != b.len() {
        return false;
    }
    let mut i: usize = 0;
    while i < a.len()
        invariant
            a.len() == b.len(),
            b@ == name@,
            i <= a.len(),
            forall|j: int| 0 <= j < i ==> fold_case(#[trigger] a@[j]) == fold_case(b@[j]),
        decreases a.len() - i,
    {
        if folded(a[i]) != folded(b[i]) {
            assert(fold_case(a@[i as int]) != fold_case(b@[i as int]));
            return false;
        }
        i += 1;
    }
    true
}

/// The character of a decimal digit.
pub open spec fn digit(d: int) -> char {
    if d == 0 {
        '0'
    } else if d == 1 {
        '1'
    } else if d == 2 {
        '2'
    } else if d == 3 {
        '3'
    } else if d == 4 {
        '4'
    } else if d == 5 {
        '5'
    } else if d == 6 {
        '6'
    } else if d == 7 {
        '7'
    } else if d == 8 {
        '8'
    } else {
        '9'
    }
}

/// The decimal numeral of `n`, without sign or leading zeros.
pub open spec fn decimal(n: nat) -> Text
    decreases n,
{
    if n < 10 {
        seq![digit(n as int)]
    } else {
        decimal(n / 10).push(digit((n % 10) as int))
    }
}

/// The character of the decimal digit `d`.
pub fn digit_char(d: u8) -> (c: char)
    requires
        d < 10,
    ensures
        c == digit(d as int),
{
    if d == 0 {
        '0'
    } else if d == 1 {
        '1'
    } else if d == 2 {
        '2'
    } else if d == 3 {
        '3'
    } else if d == 4 {
        '4'
    } else if d == 5 {
        '5'
    } else if d == 6 {
        '6'
    } else if d == 7 {
        '7'
    } else if d == 8 {
        '8'
    } else {
        '9'
    }
}

/// The decimal numeral of `n`.
pub fn decimal_chars(n: u128) -> (r: Vec<char>)
    ensures
        r@ == decimal(n as nat),
    decreases n,
{
    if n < 10 {
        let mut r: Vec<char> = Vec::new();
        r.push(digit_char(n as u8));
        r
    } else {
        let mut r = decimal_chars(n / 10);
        r.push(digit_char((n % 10) as u8));
        r
    }
}

/// The decimal numeral of an integer, with `-` before a negative one.
pub open spec fn signed_decimal(n: int) -> Text {
    if n < 0 {
        seq!['-'] + decimal((-n) as nat)
    } else {
        decimal(n as nat)
    }
}

/// The decimal numeral of `n`, with `-` before a negative one.
pub fn signed_decimal_chars(n: i64) -> (r: Vec<char>)
    ensures
        r@ == signed_decimal(n as int),
{
    if n < 0 {
        let magnitude: u128 = (-(n as i128)) as u128;
        let mut r: Vec<char> = Vec::new();
        r.push('-');
        let digits = decimal_chars(magnitude);
        append(&mut r, &digits);
        r
    } else {
        decimal_chars(n as u128)
    }
}

/// The sequences joined, with `sep` between each two.
pub open spec fn joined(parts: Seq<Text>, sep: Text) -> Text
    decreases parts.len(),
{
    if parts.len() == 0 {
        Seq::empty()
    } else if parts.len() == 1 {
        parts[0]
    } else {
        joined(parts.drop_last(), sep) + sep + parts.last()
    }
}

/// The views of the strings, in order.
pub open spec fn texts(strings: Seq<String>) -> Seq<Text> {
    strings.map_values(|s: String| s@)
}

/// The strings joined, with `sep` between each two.
pub fn join(parts: &Vec<String>, sep: &str) -> (r: Vec<char>)
    ensures
        r@ == joined(texts(parts@), sep@),
{
    let ghost all = texts(parts@);
    let separator = chars_of(sep);
    let mut r: Vec<char> = Vec::new();
    let mut i: usize = 0;
    while i < parts.len()
        invariant
            i <= parts.len(),
            all == texts(parts@),
            separator@ == sep@,
            r@ == joined(all.take(i as int), sep@),
        decreases parts.len() - i,
    {
        let ghost before = r@;
        if i > 0 {
            append(&mut r, &separator);
        }
        let part = chars_of(parts[i].as_str());
        append(&mut r, &part);
        proof {
            let t = all.take(i + 1);
            assert(t.drop_last() == all.take(i as int));
            assert(t.last() == parts@[i as int]@);
            if i == 0 {
                assert(before + part@ == part@);
            }
        }
        i += 1;
    }
    assert(all.take(i as int) == all);
    r
}

/// Whether `pattern` occurs in `s` at index `i`.
pub open spec fn occurs_at(s: Text, pattern: Text, i: int) -> bool {
    0 <= i && i + pattern.len() <= s.len() && s.subrange(i, i + pattern.len()) == pattern
}

/// Whether `pattern` occurs somewhere in `s`.
pub open spec fn contains_text(s: Text, pattern: Text) -> bool {
    exists|i: int| occurs_at(s, pattern, i)
}

/// Whether `pattern` occurs in `v` at index `at`.
pub fn matches_at(v: &Vec<char>, pattern: &Vec<char>, at: usize) -> (r: bool)
    requires
        at + pattern.len() <= v.len(),
    ensures
        r == occurs_at(v@, pattern@, at as int),
{
    let ghost window = v@.subrange(at as int, at + pattern.len());
    let mut j: usize = 0;
    while j < pattern.len()
        invariant
            j <= pattern.len(),
            at + pattern.len() <= v.len(),
            window == v@.subrange(at as int, at + pattern.len()),
            window.take(j as int) == pattern@.take(j as int),
        decreases pattern.len() - j,
    {
        if v[at + j] != pattern[j] {
            assert(window[j as int] != pattern@[j as int]);
            return false;
        }
        assert(window.take(j + 1) == window.take(j as int).push(window[j as int]));
        assert(pattern@.take(j + 1) == pattern@.take(j as int).push(pattern@[j as int]));
        j += 1;
    }
    assert(window.take(j as int) == window);
    assert(pattern@.take(j as int) == pattern@);
    true
}

/// Whether `pattern` occurs somewhere in `v`.
pub fn contains(v: &Vec<char>, pattern: &Vec<char>) -> (r: bool)
    ensures
        r == contains_text(v@, pattern@),
{
    if pattern.len() > v.len() {
        return false;
    }
    if pattern.len() == 0 {
        assert(v@.subrange(0, 0) == pattern@);
        assert(occurs_at(v@, pattern@, 0));
        return true;
    }
    let last = v.len() - pattern.len();
    let mut i: usize = 0;
    while i <= last
        invariant
            i <= last + 1,
            last == v.len() - pattern.len(),
            0 < pattern.len() <= v.len(),
            forall|k: int| 0 <= k < i ==> !occurs_at(v@, pattern@, k),
        decreases last + 1 - i,
    {
        if matches_at(v, pattern, i) {
            return true;
        }
        i += 1;
    }
    false
}

/// `s` with every occurrence of `from` replaced by `to`, occurrences taken
/// from left to right and never overlapping. An empty `from` replaces
/// nothing.
pub open spec fn replaced(s: Text, from: Text, to: Text) -> Text
    decreases s.len(),
{
    if from.len() == 0 || s.len() < from.len() {
        s
    } else if s.take(from.len() as int) == from {
        to + replaced(s.skip(from.len() as int), from, to)
    } else {
        seq![s[0]] + replaced(s.skip(1), from, to)
    }
}

/// `v` with every occurrence of `from` replaced by `to`.
pub fn replace(v: &Vec<char>, from: &Vec<char>, to: &Vec<char>) -> (r: Vec<char>)
    ensures
        r@ == replaced(v@, from@, to@),
{
    if from.len() == 0 {
        return copy_range(v, 0, v.len());
    }
    let mut r: Vec<char> = Vec::new();
    let mut i: usize = 0;
    proof {
        assert(v@.skip(0) == v@);
    }
    while i < v.len()
        invariant
            i <= v.len(),
            from.len() > 0,
            r@ + replaced(v@.skip(i as int), from@, to@) == replaced(v@, from@, to@),
        decreases v.len() - i,
    {
        let ghost rest = v@.skip(i as int);
        let ghost before = r@;
        if v.len() - i >= from.len() && matches_at(v, from, i) {
            append(&mut r, to);
            proof {
                assert(rest.take(from.len() as int) == v@.subrange(i as int, i + from.len()));
                assert(rest.skip(from.len() as int) == v@.skip(i + from.len()));
                let tail = replaced(v@.skip(i + from.len()), from@, to@);
                assert(before + (to@ + tail) == (before + to@) + tail);
            }
            i += from.len();
        } else {
            r.push(v[i]);
            proof {
                if rest.len() >= from.len() {
                    assert(rest.take(from.len() as int) == v@.subrange(i as int, i + from.len()));
                    assert(rest.skip(1) == v@.skip(i + 1));
                    let tail = replaced(v@.skip(i + 1), from@, to@);
                    assert(before + (seq![rest[0]] + tail) == before.push(v@[i as int]) + tail);
                } else {
                    assert(replaced(rest, from@, to@) == rest);
                    let next = v@.skip(i + 1);
                    assert(replaced(next, from@, to@) == next);
                    assert(before + rest == before.push(v@[i as int]) + next);
                }
            }
            i += 1;
        }
    }
    proof {
        let nothing = v@.skip(i as int);
        assert(nothing.len() == 0);
        assert(replaced(nothing, from@, to@) == nothing);
        assert(r@ + nothing == r@);
    }
    r
}

/// Replacing a character by a sequence without it leaves none of it.
pub proof fn lemma_replaced_removes(s: Text, c: char, to: Text)
    requires
        free_of(to, set![c]),
    ensures
        free_of(replaced(s, seq![c], to), set![c]),
    decreases s.len(),
{
    let from = seq![c];
    if s.len() >= 1 {
        let r = replaced(s, from, to);
        if s.take(1) == from {
            let tail = replaced(s.skip(1), from, to);
            lemma_replaced_removes(s.skip(1), c, to);
            assert forall|i: int| 0 <= i < r.len() implies !set![c].contains(#[trigger] r[i]) by {
                if i >= to.len() {
                    assert(r[i] == tail[i - to.len()]);
                }
            }
        } else {
            let tail = replaced(s.skip(1), from, to);
            lemma_replaced_removes(s.skip(1), c, to);
            assert(s.take(1) =~= seq![s[0]]);
            assert(s[0] != c);
            assert forall|i: int| 0 <= i < r.len() implies !set![c].contains(#[trigger] r[i]) by {
                if i >= 1 {
                    assert(r[i] == tail[i - 1]);
                }
            }
        }
    }
}

/// Replacing leaves the result free of every character that both the
/// sequence and the replacement are free of.
pub proof fn lemma_replaced_keeps_free(s: Text, from: Text, to: Text, stops: Set<char>)
    requires
        free_of(s, stops),
        free_of(to, stops),
    ensures
        free_of(replaced(s, from, to), stops),
    decreases s.len(),
{
    if from.len() == 0 || s.len() < from.len() {
    } else {
        let r = replaced(s, from, to);
        if s.take(from.len() as int) == from {
            let rest = s.skip(from.len() as int);
            assert forall|i: int| 0 <= i < rest.len() implies !stops.contains(#[trigger] rest[i]) by {
                assert(rest[i] == s[i + from.len()]);
            }
            lemma_replaced_keeps_free(rest, from, to, stops);
            let tail = replaced(rest, from, to);
            assert forall|i: int| 0 <= i < r.len() implies !stops.contains(#[trigger] r[i]) by {
                if i >= to.len() {
                    assert(r[i] == tail[i - to.len()]);
                }
            }
        } else {
            let rest = s.skip(1);
            assert forall|i: int| 0 <= i < rest.len() implies !stops.contains(#[trigger] rest[i]) by {
                assert(rest[i] == s[i + 1]);
            }
            lemma_replaced_keeps_free(rest, from, to, stops);
            let tail = replaced(rest, from, to);
            assert forall|i: int| 0 <= i < r.len() implies !stops.contains(#[trigger] r[i]) by {
                if i >= 1 {
                    assert(r[i] == tail[i - 1]);
                }
            }
        }
    }
}

} // verus!
