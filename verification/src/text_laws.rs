//! How the parts of a text make up the text that they were taken from.
use vstd::prelude::*;
use crate::text::{
    end_before, find, index_of, index_past, join, lemma_end_before, lemma_find_from, lemma_index_of,
    lemma_index_past, lower, occurs_at, split, split_from, split_once, trim, CharClass,
};

verus! {

/// Trimming takes white space off both ends, all of it, and nothing else.
pub proof fn law_trim_takes_white_space(s: Seq<char>)
    ensures
        exists|a: int, b: int|
            0 <= a <= b <= s.len() && trim(s) == #[trigger] s.subrange(a, b) && (forall|j: int|
                0 <= j < a || b <= j < s.len() ==> CharClass::White.holds(#[trigger] s[j])),
        trim(s).len() > 0 ==> !CharClass::White.holds(trim(s)[0]) && !CharClass::White.holds(
            trim(s).last(),
        ),
        trim(trim(s)) == trim(s),
{
    let k = CharClass::White;
    let a = index_past(s, k, 0);
    lemma_index_past(s, k, 0);
    let t = s.skip(a);
    let n = end_before(t, k);
    lemma_end_before(t, k);
    let b = a + n;
    let r = trim(s);
    assert(r =~= s.subrange(a, b));
    assert forall|j: int| 0 <= j < a || b <= j < s.len() implies k.holds(#[trigger] s[j]) by {
        if j >= b {
            assert(t[j - a] == s[j]);
        }
    }
    if r.len() > 0 {
        assert(r[0] == s[a]);
        assert(r.last() == t[n - 1]);
        assert(index_past(r, k, 0) == 0);
        assert(r.skip(0) =~= r);
        assert(end_before(r, k) == r.len());
        assert(r.take(r.len() as int) =~= r);
    } else {
        assert(trim(r) =~= r);
    }
}

/// A text that is parted at a mark is what stands before it, the mark, and what stands behind
/// it; the mark does not stand anywhere before.
pub proof fn law_parted_once(s: Seq<char>, p: Seq<char>)
    ensures
        split_once(s, p) is Some ==> ({
            let (a, b) = split_once(s, p)->Some_0;
            &&& s == a + p + b
            &&& forall|j: int| 0 <= j < a.len() ==> !occurs_at(s, p, j)
        }),
        split_once(s, p) is None ==> forall|j: int| 0 <= j ==> !occurs_at(s, p, j),
{
    lemma_find_from(s, p, 0);
    if find(s, p) is Some {
        let i = find(s, p)->Some_0;
        let (a, b) = split_once(s, p)->Some_0;
        assert(occurs_at(s, p, i));
        assert(s =~= a + p + b);
    }
}

proof fn lemma_joined(first: Seq<char>, rest: Seq<Seq<char>>, sep: Seq<char>)
    requires
        rest.len() > 0,
    ensures
        join(seq![first] + rest, sep) == first + sep + join(rest, sep),
    decreases rest.len(),
{
    let all = seq![first] + rest;
    if rest.len() == 1 {
        assert(all.drop_last() =~= seq![first]);
        assert(all.last() == rest[0]);
        assert(join(seq![first], sep) == first);
        assert(join(rest, sep) == rest[0]);
        assert(all.len() == 2);
        assert(join(all, sep) == join(all.drop_last(), sep) + sep + all.last());
    } else {
        lemma_joined(first, rest.drop_last(), sep);
        assert(all.drop_last() =~= seq![first] + rest.drop_last());
        assert(all.last() == rest.last());
        assert(join(all, sep) =~= first + sep + join(rest, sep));
    }
}

proof fn lemma_split_joins(s: Seq<char>, c: char, from: int)
    requires
        0 <= from <= s.len(),
    ensures
        split_from(s, CharClass::Is(c), from).len() > 0,
        join(split_from(s, CharClass::Is(c), from), seq![c]) == s.skip(from),
        forall|i: int|
            0 <= i < split_from(s, CharClass::Is(c), from).len() ==> !(
            #[trigger] split_from(s, CharClass::Is(c), from)[i]).contains(c),
    decreases s.len() - from,
{
    let k = CharClass::Is(c);
    let i = index_of(s, k, from);
    lemma_index_of(s, k, from);
    let all = split_from(s, k, from);
    if i < s.len() {
        let first = s.subrange(from, i);
        let rest = split_from(s, k, i + 1);
        lemma_split_joins(s, c, i + 1);
        lemma_joined(first, rest, seq![c]);
        assert(s[i] == c);
        assert(first + seq![c] + s.skip(i + 1) =~= s.skip(from));
        assert forall|j: int| 0 <= j < all.len() implies !(#[trigger] all[j]).contains(c) by {
            if j == 0 {
                if first.contains(c) {
                    let q = choose|q: int| 0 <= q < first.len() && first[q] == c;
                    assert(s[from + q] == c);
                }
            } else {
                assert(all[j] == rest[j - 1]);
            }
        }
    } else {
        let last = s.skip(from);
        if last.contains(c) {
            let q = choose|q: int| 0 <= q < last.len() && last[q] == c;
            assert(s[from + q] == c);
        }
    }
}

/// The pieces between the marks of a text hold no mark, and put together again with the mark
/// between them they are the text.
pub proof fn law_pieces_make_up_text(s: Seq<char>, c: char)
    ensures
        join(split(s, CharClass::Is(c)), seq![c]) == s,
        forall|i: int|
            0 <= i < split(s, CharClass::Is(c)).len() ==> !(
            #[trigger] split(s, CharClass::Is(c))[i]).contains(c),
{
    lemma_split_joins(s, c, 0);
    assert(s.skip(0) =~= s);
}

/// Lower case changes the letters from A to Z alone, and no text twice.
pub proof fn law_lower_case(s: Seq<char>)
    ensures
        lower(s).len() == s.len(),
        lower(lower(s)) == lower(s),
        forall|i: int|
            0 <= i < s.len() ==> !('A' <= #[trigger] lower(s)[i] <= 'Z') && (!('A' <= s[i] <= 'Z')
                ==> lower(s)[i] == s[i]),
{
    assert forall|i: int| 0 <= i < s.len() implies !('A' <= #[trigger] lower(s)[i] <= 'Z') by {}
    assert(lower(lower(s)) =~= lower(s));
}

/// A number made of a text's length and three of its characters: texts with different ones
/// are different.
pub open spec fn mark(s: Seq<char>) -> int {
    s.len() + 100 * (s[0] as int) + 100_000 * (s[s.len() - 1] as int) + 100_000_000 * (s[s.len() as int
        / 2] as int)
}

} // verus!
