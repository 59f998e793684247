//! The order of texts by their characters, as strings and file names sort,
//! and what is built on it: sorting a list of texts and counting how often
//! each text occurs, in order.

use vstd::prelude::*;
use crate::text::chars_of;
use crate::world_config::strings_view;

verus! {

broadcast use {vstd::seq_lib::group_to_multiset_ensures, vstd::multiset::group_multiset_axioms};

/// `a` comes strictly before `b`: at the first position where they differ
/// the character of `a` has the lower code point, or `a` is a proper prefix
/// of `b`. Code point order is the byte order of the UTF-8 encodings, by
/// which `str` and file names compare.
pub open spec fn text_lt(a: Seq<char>, b: Seq<char>) -> bool
    decreases a.len(),
{
    if a.len() == 0 {
        b.len() > 0
    } else if b.len() == 0 {
        false
    } else if a[0] != b[0] {
        a[0] < b[0]
    } else {
        text_lt(a.drop_first(), b.drop_first())
    }
}

/// No text comes before a later one.
pub open spec fn sorted_texts(s: Seq<Seq<char>>) -> bool {
    forall|i: int, j: int| 0 <= i < j < s.len() ==> !text_lt(#[trigger] s[j], #[trigger] s[i])
}

/// Each text comes strictly before the next: sorted, and no text twice.
pub open spec fn strictly_sorted_texts(s: Seq<Seq<char>>) -> bool {
    forall|i: int, j: int| 0 <= i < j < s.len() ==> text_lt(#[trigger] s[i], #[trigger] s[j])
}

/// No text comes strictly before itself.
pub proof fn lemma_text_lt_irreflexive(a: Seq<char>)
    ensures
        !text_lt(a, a),
    decreases a.len(),
{
    if a.len() > 0 {
        lemma_text_lt_irreflexive(a.drop_first());
    }
}

/// Of two different texts, one comes strictly before the other.
pub proof fn lemma_text_lt_total(a: Seq<char>, b: Seq<char>)
    ensures
        a == b || text_lt(a, b) || text_lt(b, a),
    decreases a.len(),
{
    if a.len() > 0 && b.len() > 0 && a[0] == b[0] {
        lemma_text_lt_total(a.drop_first(), b.drop_first());
        if a.drop_first() == b.drop_first() {
            assert(a =~= seq![a[0]] + a.drop_first());
            assert(b =~= seq![b[0]] + b.drop_first());
        }
    } else if a.len() == 0 && b.len() == 0 {
        assert(a =~= b);
    } else if a.len() > 0 && b.len() > 0 {
        assert(a[0] < b[0] || b[0] < a[0]);
    }
}

/// The order is transitive.
pub proof fn lemma_text_lt_transitive(a: Seq<char>, b: Seq<char>, c: Seq<char>)
    requires
        text_lt(a, b),
        text_lt(b, c),
    ensures
        text_lt(a, c),
    decreases a.len(),
{
    if a.len() > 0 && a[0] == b[0] && b[0] == c[0] {
        lemma_text_lt_transitive(a.drop_first(), b.drop_first(), c.drop_first());
    }
}

/// The order is asymmetric.
pub proof fn lemma_text_lt_asymmetric(a: Seq<char>, b: Seq<char>)
    requires
        text_lt(a, b),
    ensures
        !text_lt(b, a),
{
    if text_lt(b, a) {
        lemma_text_lt_transitive(a, b, a);
        lemma_text_lt_irreflexive(a);
    }
}

/// Whether `a` comes strictly before `b`.
pub fn text_less(a: &str, b: &str) -> (r: bool)
    ensures
        r == text_lt(a@, b@),
{
    let va = chars_of(a);
    let vb = chars_of(b);
    let mut i: usize = 0;
    assert(va@.skip(0) =~= va@);
    assert(vb@.skip(0) =~= vb@);
    while i < va.len() && i < vb.len()
        invariant
            i <= va@.len(),
            i <= vb@.len(),
            va@ == a@,
            vb@ == b@,
            text_lt(a@, b@) == text_lt(va@.skip(i as int), vb@.skip(i as int)),
        decreases va@.len() - i,
    {
        if va[i] != vb[i] {
            return va[i] < vb[i];
        }
        assert(va@.skip(i as int).drop_first() =~= va@.skip(i + 1));
        assert(vb@.skip(i as int).drop_first() =~= vb@.skip(i + 1));
        i = i + 1;
    }
    i < vb.len()
}

/// A text `x` goes at `p` of the sorted `s`: what stands before `p` does
/// not come after `x`, and `x` comes strictly before what stands at `p`.
proof fn lemma_insert_sorted(s: Seq<Seq<char>>, p: int, x: Seq<char>)
    requires
        sorted_texts(s),
        0 <= p <= s.len(),
        forall|k: int| 0 <= k < p ==> !text_lt(x, #[trigger] s[k]),
        p < s.len() ==> text_lt(x, s[p]),
    ensures
        sorted_texts(s.insert(p, x)),
{
    let t = s.insert(p, x);
    assert forall|i: int, j: int| 0 <= i < j < t.len() implies !text_lt(#[trigger] t[j], #[trigger] t[i]) by {
        if j == p {
            assert(t[i] == s[i]);
        } else if i == p {
            assert(t[j] == s[j - 1]);
            if text_lt(s[j - 1], x) {
                if j - 1 == p {
                    lemma_text_lt_asymmetric(x, s[p]);
                } else {
                    assert(!text_lt(s[j - 1], s[p]));
                    lemma_text_lt_transitive(s[j - 1], x, s[p]);
                }
            }
        } else {
            let si = if i < p { i } else { i - 1 };
            let sj = if j < p { j } else { j - 1 };
            assert(t[i] == s[si]);
            assert(t[j] == s[sj]);
        }
    }
}

/// The texts of `v` in order: a sorted arrangement of the same texts
/// (each as often as in `v`).
pub fn sorted_strings(v: &Vec<String>) -> (r: Vec<String>)
    ensures
        sorted_texts(strings_view(r@)),
        strings_view(r@).to_multiset() == strings_view(v@).to_multiset(),
{
    let mut out: Vec<String> = Vec::new();
    let mut i: usize = 0;
    while i < v.len()
        invariant
            i <= v@.len(),
            sorted_texts(strings_view(out@)),
            strings_view(out@).to_multiset() == strings_view(v@.take(i as int)).to_multiset(),
        decreases v@.len() - i,
    {
        let x = v[i].as_str();
        let mut p: usize = 0;
        let mut found = false;
        while p < out.len() && !found
            invariant
                p <= out@.len(),
                forall|k: int| 0 <= k < p ==> !text_lt(x@, #[trigger] strings_view(out@)[k]),
                found ==> p < out@.len() && text_lt(x@, strings_view(out@)[p as int]),
            decreases out@.len() - p + (if found { 0int } else { 1int }),
        {
            if text_less(x, out[p].as_str()) {
                found = true;
            } else {
                p = p + 1;
            }
        }
        let ghost before = strings_view(out@);
        proof {
            lemma_insert_sorted(before, p as int, x@);
        }
        out.insert(p, v[i].clone());
        assert(strings_view(out@) =~= before.insert(p as int, x@));
        assert(strings_view(v@.take(i + 1)) =~= strings_view(v@.take(i as int)).push(x@));
        i = i + 1;
    }
    assert(v@.take(v@.len() as int) =~= v@);
    out
}

/// The distinct texts of `s`, each with how often it occurs, in order.
pub open spec fn counted_in_order(s: Seq<Seq<char>>, r: Seq<(Seq<char>, nat)>) -> bool {
    &&& strictly_sorted_texts(r.map_values(|e: (Seq<char>, nat)| e.0))
    &&& forall|i: int| 0 <= i < r.len() ==> #[trigger] r[i].1 == s.to_multiset().count(r[i].0) && r[i].1 > 0
    &&& forall|t: Seq<char>| s.contains(t) ==> exists|i: int| 0 <= i < r.len() && #[trigger] r[i].0 == t
}

/// The view of a list of counted texts.
pub open spec fn counts_view(v: Seq<(String, usize)>) -> Seq<(Seq<char>, nat)> {
    v.map_values(|e: (String, usize)| (e.0@, e.1 as nat))
}

/// The sum of the counts of a list of counted texts.
pub open spec fn sum_counts(r: Seq<(Seq<char>, nat)>) -> nat
    decreases r.len(),
{
    if r.len() == 0 {
        0
    } else {
        sum_counts(r.drop_last()) + r.last().1
    }
}

/// Changing one count changes the sum by the difference.
pub proof fn lemma_sum_counts_update(r: Seq<(Seq<char>, nat)>, p: int, e: (Seq<char>, nat))
    requires
        0 <= p < r.len(),
    ensures
        sum_counts(r.update(p, e)) + r[p].1 == sum_counts(r) + e.1,
    decreases r.len(),
{
    let u = r.update(p, e);
    if p == r.len() - 1 {
        assert(u.drop_last() =~= r.drop_last());
    } else {
        assert(u.drop_last() =~= r.drop_last().update(p, e));
        lemma_sum_counts_update(r.drop_last(), p, e);
    }
}

/// Inserting a count adds it to the sum.
pub proof fn lemma_sum_counts_insert(r: Seq<(Seq<char>, nat)>, p: int, e: (Seq<char>, nat))
    requires
        0 <= p <= r.len(),
    ensures
        sum_counts(r.insert(p, e)) == sum_counts(r) + e.1,
    decreases r.len(),
{
    let u = r.insert(p, e);
    if p == r.len() {
        assert(u.drop_last() =~= r);
    } else {
        assert(u.drop_last() =~= r.drop_last().insert(p, e));
        assert(u.last() == r.last());
        lemma_sum_counts_insert(r.drop_last(), p, e);
    }
}

/// The distinct texts of `v`, in order, each with the number of times it
/// occurs in `v`; the counts add up to the length of `v`.
pub fn count_in_order(v: &Vec<String>) -> (r: Vec<(String, usize)>)
    ensures
        counted_in_order(strings_view(v@), counts_view(r@)),
        sum_counts(counts_view(r@)) == v@.len(),
{
    let mut out: Vec<(String, usize)> = Vec::new();
    let mut i: usize = 0;
    while i < v.len()
        invariant
            i <= v@.len(),
            counted_in_order(strings_view(v@.take(i as int)), counts_view(out@)),
            sum_counts(counts_view(out@)) == i,
            forall|k: int| 0 <= k < out@.len() ==> #[trigger] out@[k].1 <= i,
        decreases v@.len() - i,
    {
        let ghost pre = strings_view(v@.take(i as int));
        let ghost post = strings_view(v@.take(i + 1));
        let x = v[i].as_str();
        assert(post =~= pre.push(x@));
        assert(post.to_multiset() =~= pre.to_multiset().insert(x@));
        let mut p: usize = 0;
        let mut stop = false;
        while p < out.len() && !stop
            invariant
                p <= out@.len(),
                forall|k: int| 0 <= k < p ==> text_lt(#[trigger] counts_view(out@)[k].0, x@),
                stop ==> p < out@.len() && !text_lt(counts_view(out@)[p as int].0, x@),
            decreases out@.len() - p + (if stop { 0int } else { 1int }),
        {
            if text_less(out[p].0.as_str(), x) {
                p = p + 1;
            } else {
                stop = true;
            }
        }
        let ghost old_out = counts_view(out@);
        let ghost keys = old_out.map_values(|e: (Seq<char>, nat)| e.0);
        if p < out.len() && !text_less(x, out[p].0.as_str()) {
            // `x` is the text at `p`: count it once more.
            proof {
                lemma_text_lt_total(x@, old_out[p as int].0);
                assert(old_out[p as int].0 == x@);
                assert(old_out[p as int].1 == pre.to_multiset().count(x@));
            }
            let n = out[p].1;
            let key = out[p].0.clone();
            out.set(p, (key, n + 1));
            proof {
                let new_out = counts_view(out@);
                assert(new_out =~= old_out.update(p as int, (x@, (n + 1) as nat)));
                lemma_sum_counts_update(old_out, p as int, (x@, (n + 1) as nat));
                assert(new_out.map_values(|e: (Seq<char>, nat)| e.0) =~= keys);
                assert forall|k: int| 0 <= k < new_out.len() implies #[trigger] new_out[k].1 == post.to_multiset().count(new_out[k].0) && new_out[k].1 > 0 by {
                    if k != p {
                        assert(new_out[k] == old_out[k]);
                        if old_out[k].0 == x@ {
                            lemma_text_lt_irreflexive(x@);
                            assert(keys[k] == old_out[k].0);
                            assert(keys[p as int] == old_out[p as int].0);
                            if k < p {
                                assert(text_lt(keys[k], keys[p as int]));
                            } else {
                                assert(text_lt(keys[p as int], keys[k]));
                            }
                        }
                    }
                }
                assert forall|t: Seq<char>| post.contains(t) implies exists|k: int| 0 <= k < new_out.len() && #[trigger] new_out[k].0 == t by {
                    if t == x@ {
                        assert(new_out[p as int].0 == t);
                    } else {
                        let j = choose|j: int| 0 <= j < post.len() && post[j] == t;
                        assert(pre[j] == t);
                        assert(pre.contains(t));
                        let k = choose|k: int| 0 <= k < old_out.len() && #[trigger] old_out[k].0 == t;
                        assert(new_out[k].0 == t);
                    }
                }
            }
        } else {
            // `x` is new: it goes at `p`, counted once.
            proof {
                assert(!pre.contains(x@)) by {
                    if pre.contains(x@) {
                        let k = choose|k: int| 0 <= k < old_out.len() && #[trigger] old_out[k].0 == x@;
                        lemma_text_lt_irreflexive(x@);
                        if k >= p {
                            assert(p < old_out.len());
                            assert(!text_lt(old_out[p as int].0, x@));
                            if k > p {
                                assert(keys[p as int] == old_out[p as int].0);
                                assert(keys[k] == x@);
                                assert(text_lt(keys[p as int], keys[k]));
                            }
                        }
                    }
                }
                assert(pre.to_multiset().count(x@) == 0);
            }
            out.insert(p, (v[i].clone(), 1));
            proof {
                let new_out = counts_view(out@);
                assert(new_out =~= old_out.insert(p as int, (x@, 1nat)));
                lemma_sum_counts_insert(old_out, p as int, (x@, 1nat));
                let new_keys = new_out.map_values(|e: (Seq<char>, nat)| e.0);
                assert(new_keys =~= keys.insert(p as int, x@));
                assert forall|a: int, b: int| 0 <= a < b < new_keys.len() implies text_lt(#[trigger] new_keys[a], #[trigger] new_keys[b]) by {
                    if a == p {
                        assert(new_keys[b] == keys[b - 1]);
                        if b - 1 > p {
                            assert(text_lt(keys[p as int], keys[b - 1]));
                            lemma_text_lt_total(x@, keys[p as int]);
                            if keys[p as int] != x@ {
                                lemma_text_lt_transitive(x@, keys[p as int], keys[b - 1]);
                            }
                        } else {
                            lemma_text_lt_total(x@, keys[p as int]);
                        }
                    } else if b == p {
                        assert(new_keys[a] == keys[a]);
                        assert(keys[a] == old_out[a].0);
                    } else {
                        let sa = if a < p { a } else { a - 1 };
                        let sb = if b < p { b } else { b - 1 };
                        assert(new_keys[a] == keys[sa]);
                        assert(new_keys[b] == keys[sb]);
                    }
                }
                assert forall|k: int| 0 <= k < new_out.len() implies #[trigger] new_out[k].1 == post.to_multiset().count(new_out[k].0) && new_out[k].1 > 0 by {
                    if k == p {
                        assert(!pre.contains(x@));
                        assert(pre.to_multiset().count(x@) == 0);
                    } else {
                        let sk = if k < p { k } else { k - 1 };
                        assert(new_out[k] == old_out[sk]);
                        assert(old_out[sk].1 == pre.to_multiset().count(old_out[sk].0) && old_out[sk].1 > 0);
                    }
                }
                assert forall|t: Seq<char>| post.contains(t) implies exists|k: int| 0 <= k < new_out.len() && #[trigger] new_out[k].0 == t by {
                    if t == x@ {
                        assert(new_out[p as int].0 == t);
                    } else {
                        let j = choose|j: int| 0 <= j < post.len() && post[j] == t;
                        assert(pre[j] == t);
                        assert(pre.contains(t));
                        let k = choose|k: int| 0 <= k < old_out.len() && #[trigger] old_out[k].0 == t;
                        let nk = if k < p { k } else { k + 1 };
                        assert(new_out[nk].0 == t);
                    }
                }
            }
        }
        i = i + 1;
    }
    assert(v@.take(v@.len() as int) =~= v@);
    out
}

} // verus!
