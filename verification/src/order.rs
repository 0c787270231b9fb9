//! Sorting, filtering and searching of sequences.

use vstd::prelude::*;

use crate::text::law_text_order_antisymmetric;
use crate::text::law_text_order_total;
use crate::text::law_text_order_transitive;
use crate::text::text_at_most;
use crate::text::text_le;
use crate::text::texts;

verus! {

/// The first position of which `p` holds.
pub open spec fn first_where<A>(s: Seq<A>, p: spec_fn(A) -> bool) -> Option<int>
    decreases s.len(),
{
    if s.len() == 0 {
        None
    } else if p(s[0]) {
        Some(0)
    } else {
        match first_where(s.drop_first(), p) {
            Some(i) => Some(i + 1),
            None => None,
        }
    }
}

/// The first position is the one of which `p` holds while it holds of none before; there is none
/// exactly where `p` holds nowhere.
pub proof fn law_first_where<A>(s: Seq<A>, p: spec_fn(A) -> bool)
    ensures
        match first_where(s, p) {
            Some(i) => 0 <= i < s.len() && p(s[i]) && forall|j: int|
                0 <= j < i ==> !p(#[trigger] s[j]),
            None => forall|j: int| 0 <= j < s.len() ==> !p(#[trigger] s[j]),
        },
    decreases s.len(),
{
    if s.len() > 0 && !p(s[0]) {
        let rest = s.drop_first();
        law_first_where(rest, p);
        assert forall|j: int| 0 < j < s.len() implies s[j] == #[trigger] rest[j - 1] by {}
        match first_where(rest, p) {
            Some(i) => {
                assert forall|j: int| 0 <= j < i + 1 implies !p(#[trigger] s[j]) by {
                    if j > 0 {
                        assert(s[j] == rest[j - 1]);
                    }
                }
            },
            None => {
                assert forall|j: int| 0 <= j < s.len() implies !p(#[trigger] s[j]) by {
                    if j > 0 {
                        assert(s[j] == rest[j - 1]);
                    }
                }
            },
        }
    }
}

/// A position of which `p` holds, while it holds of none before, is the first one.
pub proof fn lemma_first_where_is<A>(s: Seq<A>, p: spec_fn(A) -> bool, i: int)
    requires
        0 <= i < s.len(),
        p(s[i]),
        forall|j: int| 0 <= j < i ==> !p(#[trigger] s[j]),
    ensures
        first_where(s, p) == Some(i),
{
    law_first_where(s, p);
}

/// Where `p` holds nowhere there is no first position.
pub proof fn lemma_first_where_none<A>(s: Seq<A>, p: spec_fn(A) -> bool)
    requires
        forall|j: int| 0 <= j < s.len() ==> !p(#[trigger] s[j]),
    ensures
        first_where(s, p) is None,
{
    law_first_where(s, p);
}

/// Filtering one element more adds it where the predicate holds of it.
pub proof fn lemma_filter_push<A>(s: Seq<A>, a: A, keep: spec_fn(A) -> bool)
    ensures
        s.push(a).filter(keep) == if keep(a) {
            s.filter(keep).push(a)
        } else {
            s.filter(keep)
        },
{
    reveal(Seq::filter);
    assert(s.push(a).drop_last() =~= s);
}

/// Filtering keeps the elements of which the predicate holds, and no others.
pub proof fn lemma_filter_members<A>(s: Seq<A>, keep: spec_fn(A) -> bool)
    ensures
        forall|a: A| #[trigger] s.filter(keep).contains(a) <==> s.contains(a) && keep(a),
    decreases s.len(),
{
    reveal(Seq::filter);
    if s.len() > 0 {
        let short = s.drop_last();
        lemma_filter_members(short, keep);
        assert(short.push(s.last()) =~= s);
        assert forall|a: A| #[trigger] s.filter(keep).contains(a) <==> s.contains(a) && keep(
            a,
        ) by {
            let kept = short.filter(keep);
            if s.contains(a) && keep(a) {
                let i = choose|i: int| 0 <= i < s.len() && s[i] == a;
                if i < short.len() {
                    assert(short[i] == a);
                    assert(kept.contains(a));
                    let k = choose|k: int| 0 <= k < kept.len() && kept[k] == a;
                    assert(s.filter(keep)[k] == a);
                } else {
                    assert(s.filter(keep)[kept.len() as int] == a);
                }
            }
            if s.filter(keep).contains(a) {
                let k = choose|k: int|
                    0 <= k < s.filter(keep).len() && s.filter(keep)[k] == a;
                if k < kept.len() {
                    assert(kept[k] == a);
                    assert(kept.contains(a));
                    let i = choose|i: int| 0 <= i < short.len() && short[i] == a;
                    assert(s[i] == a);
                } else {
                    assert(s[s.len() - 1] == a);
                }
            }
        }
    }
}

/// `sorted` with `t` behind every text that it does not precede.
pub open spec fn insert_text(sorted: Seq<Seq<char>>, t: Seq<char>) -> Seq<Seq<char>>
    decreases sorted.len(),
{
    if sorted.len() == 0 || text_le(sorted.last(), t) {
        sorted.push(t)
    } else {
        insert_text(sorted.drop_last(), t).push(sorted.last())
    }
}

/// `all` in lexicographic order.
pub open spec fn sorted_texts(all: Seq<Seq<char>>) -> Seq<Seq<char>>
    decreases all.len(),
{
    if all.len() == 0 {
        all
    } else {
        insert_text(sorted_texts(all.drop_last()), all.last())
    }
}

/// Whether each text precedes or equals those behind it.
pub open spec fn in_order(all: Seq<Seq<char>>) -> bool {
    forall|i: int, j: int|
        0 <= i < j < all.len() ==> text_le(#[trigger] all[i], #[trigger] all[j])
}

proof fn lemma_insert_text(sorted: Seq<Seq<char>>, t: Seq<char>)
    requires
        in_order(sorted),
    ensures
        in_order(insert_text(sorted, t)),
        insert_text(sorted, t).to_multiset() == sorted.to_multiset().insert(t),
        insert_text(sorted, t).len() == sorted.len() + 1,
    decreases sorted.len(),
{
    broadcast use vstd::seq_lib::group_to_multiset_ensures;

    let out = insert_text(sorted, t);
    if sorted.len() == 0 || text_le(sorted.last(), t) {
        assert forall|i: int, j: int| 0 <= i < j < out.len() implies text_le(
            #[trigger] out[i],
            #[trigger] out[j],
        ) by {
            if j == sorted.len() {
                if i < sorted.len() - 1 {
                    assert(text_le(sorted[i], sorted[sorted.len() - 1]));
                    law_text_order_transitive(sorted[i], sorted.last(), t);
                }
            }
        }
    } else {
        let short = sorted.drop_last();
        let inner = insert_text(short, t);
        lemma_insert_text(short, t);
        law_text_order_total(sorted.last(), t);
        assert(short.push(sorted.last()) =~= sorted);
        assert(out.to_multiset() =~= sorted.to_multiset().insert(t));
        assert forall|i: int, j: int| 0 <= i < j < out.len() implies text_le(
            #[trigger] out[i],
            #[trigger] out[j],
        ) by {
            if j == sorted.len() {
                assert(inner.to_multiset().contains(inner[i])) by {
                    assert(inner.contains(inner[i]));
                }
                if inner[i] != t {
                    assert(short.to_multiset().contains(inner[i]));
                    assert(short.contains(inner[i]));
                    let k = choose|k: int| 0 <= k < short.len() && short[k] == inner[i];
                    assert(sorted[k] == inner[i]);
                    assert(text_le(sorted[k], sorted[sorted.len() - 1]));
                }
            } else {
                assert(out[i] == inner[i]);
                assert(out[j] == inner[j]);
            }
        }
    }
}

/// The sorted texts are in order, and they are the given ones, each as often as it was given.
pub proof fn law_sorted_texts(all: Seq<Seq<char>>)
    ensures
        in_order(sorted_texts(all)),
        sorted_texts(all).to_multiset() == all.to_multiset(),
        sorted_texts(all).len() == all.len(),
    decreases all.len(),
{
    broadcast use vstd::seq_lib::group_to_multiset_ensures;

    if all.len() > 0 {
        let short = all.drop_last();
        law_sorted_texts(short);
        lemma_insert_text(sorted_texts(short), all.last());
        assert(short.push(all.last()) =~= all);
    }
}

proof fn lemma_ordered_members_decide(a: Seq<Seq<char>>, b: Seq<Seq<char>>)
    requires
        in_order(a),
        in_order(b),
        a.no_duplicates(),
        b.no_duplicates(),
        forall|t: Seq<char>| #[trigger] a.contains(t) <==> b.contains(t),
    ensures
        a == b,
    decreases a.len(),
{
    if a.len() == 0 {
        if b.len() > 0 {
            assert(b.contains(b[0]));
            assert(a.contains(b[0]));
        }
        assert(a =~= b);
    } else {
        assert(a.contains(a[0]));
        assert(b.contains(a[0]));
        let x = a.last();
        let y = b.last();
        assert(a.contains(x)) by {
            assert(a[a.len() - 1] == x);
        }
        assert(b.contains(y)) by {
            assert(b[b.len() - 1] == y);
        }
        assert(a.contains(y));
        assert(b.contains(x));
        let i = choose|i: int| 0 <= i < a.len() && a[i] == y;
        let j = choose|j: int| 0 <= j < b.len() && b[j] == x;
        if x != y {
            assert(text_le(a[i], a[a.len() - 1]));
            assert(text_le(b[j], b[b.len() - 1]));
            law_text_order_antisymmetric(x, y);
        }
        let short_a = a.drop_last();
        let short_b = b.drop_last();
        assert forall|t: Seq<char>| #[trigger] short_a.contains(t) <==> short_b.contains(t) by {
            lemma_drop_last_members(a, t);
            lemma_drop_last_members(b, t);
            assert(a.contains(t) <==> b.contains(t));
        }
        assert forall|k: int, l: int| 0 <= k < l < short_a.len() implies text_le(
            #[trigger] short_a[k],
            #[trigger] short_a[l],
        ) by {
            assert(text_le(a[k], a[l]));
        }
        assert forall|k: int, l: int| 0 <= k < l < short_b.len() implies text_le(
            #[trigger] short_b[k],
            #[trigger] short_b[l],
        ) by {
            assert(text_le(b[k], b[l]));
        }
        lemma_ordered_members_decide(short_a, short_b);
        assert(short_a.push(x) =~= a);
        assert(short_b.push(y) =~= b);
    }
}

proof fn lemma_drop_last_members(s: Seq<Seq<char>>, t: Seq<char>)
    requires
        s.len() > 0,
        s.no_duplicates(),
    ensures
        s.drop_last().contains(t) <==> s.contains(t) && t != s.last(),
{
    let short = s.drop_last();
    if s.contains(t) && t != s.last() {
        let k = choose|k: int| 0 <= k < s.len() && s[k] == t;
        assert(short[k] == t);
    }
    if short.contains(t) {
        let k = choose|k: int| 0 <= k < short.len() && short[k] == t;
        assert(s[k] == t);
        assert(s[k] != s[s.len() - 1]);
    }
}

/// Sorting forgets the order: two lists of the same texts, each text once, become one.
pub proof fn law_sorting_forgets_the_order(a: Seq<Seq<char>>, b: Seq<Seq<char>>)
    requires
        a.no_duplicates(),
        b.no_duplicates(),
        forall|t: Seq<char>| #[trigger] a.contains(t) <==> b.contains(t),
    ensures
        sorted_texts(a) == sorted_texts(b),
{
    lemma_sorted_keeps_members(a);
    lemma_sorted_keeps_members(b);
    law_sorted_texts(a);
    law_sorted_texts(b);
    assert forall|t: Seq<char>| #[trigger] sorted_texts(a).contains(t) <==> sorted_texts(
        b,
    ).contains(t) by {
        assert(a.contains(t) <==> b.contains(t));
    }
    lemma_ordered_members_decide(sorted_texts(a), sorted_texts(b));
}

proof fn lemma_sorted_keeps_members(all: Seq<Seq<char>>)
    requires
        all.no_duplicates(),
    ensures
        sorted_texts(all).no_duplicates(),
        forall|t: Seq<char>| #[trigger] sorted_texts(all).contains(t) <==> all.contains(t),
{
    broadcast use vstd::seq_lib::group_to_multiset_ensures;

    let sorted = sorted_texts(all);
    law_sorted_texts(all);
    all.lemma_multiset_has_no_duplicates();
    assert forall|t: Seq<char>| #[trigger] sorted.contains(t) <==> all.contains(t) by {
        assert(sorted.to_multiset().count(t) == all.to_multiset().count(t));
    }
    sorted.lemma_multiset_has_no_duplicates_conv();
}

/// Puts the texts in lexicographic order.
pub fn sort_texts(all: Vec<String>) -> (r: Vec<String>)
    ensures
        texts(r@) == sorted_texts(texts(all@)),
{
    let ghost src = texts(all@);
    let mut sorted: Vec<String> = Vec::new();
    assert(texts(sorted@) =~= sorted_texts(src.take(0)));
    for t in it: all
        invariant
            texts(it.seq()) == src,
            texts(sorted@) == sorted_texts(src.take(it.index() as int)),
    {
        let ghost before = sorted@;
        proof {
            let i = it.index() as int;
            assert(src[i] == t@);
            assert(src.take(i + 1).drop_last() =~= src.take(i));
            assert(src.take(i + 1).last() == t@);
        }
        let mut j: usize = sorted.len();
        proof {
            assert(texts(before).take(j as int) =~= texts(before));
            assert(insert_text(texts(before), t@) =~= insert_text(texts(before).take(j as int), t@)
                + texts(before).skip(j as int));
        }
        while j > 0 && !text_at_most(sorted[j - 1].as_str(), t.as_str())
            invariant
                j <= sorted@.len(),
                sorted@ == before,
                insert_text(texts(before), t@) == insert_text(texts(before).take(j as int), t@)
                    + texts(before).skip(j as int),
            decreases j,
        {
            proof {
                let s = texts(before);
                assert(s.take(j as int).drop_last() =~= s.take(j - 1));
                assert(s.take(j as int).last() == s[j - 1]);
                assert(s.skip(j - 1) =~= seq![s[j - 1]] + s.skip(j as int));
                assert(insert_text(s.take(j as int), t@) + s.skip(j as int) =~= insert_text(
                    s.take(j - 1),
                    t@,
                ) + s.skip(j - 1));
            }
            j = j - 1;
        }
        proof {
            let s = texts(before);
            if j > 0 {
                assert(s.take(j as int).last() == s[j - 1]);
            }
            assert(insert_text(s.take(j as int), t@) == s.take(j as int).push(t@));
            assert(texts(before.insert(j as int, t)) =~= s.take(j as int).push(t@) + s.skip(
                j as int,
            ));
        }
        sorted.insert(j, t);
    }
    assert(src.take(src.len() as int) =~= src);
    sorted
}

} // verus!
