use vstd::prelude::*;

use crate::task::{TaskDefinition, TaskDefinitionView, is_valid_view, spec_display_name};
use crate::text::{lex_le, lemma_lex_le_total, lemma_lex_le_trans, str_lt};

verus! {

broadcast use vstd::seq_lib::group_to_multiset_ensures, vstd::seq_lib::to_multiset_insert,
    vstd::seq_lib::to_multiset_remove;

// ---------------------------------------------------------------------------
// The presentation adapter's ordering.
//
// Listings show valid outcomes before invalid ones and, within each group,
// order by display name ascending. The ordering is derived from the exposed
// fields alone; the stored collection keeps its scan order.
// ---------------------------------------------------------------------------

/// The display ordering: validity descending, then display name ascending.
pub open spec fn display_le(a: TaskDefinitionView, b: TaskDefinitionView) -> bool {
    if is_valid_view(a) == is_valid_view(b) {
        lex_le(spec_display_name(a), spec_display_name(b))
    } else {
        is_valid_view(a)
    }
}

/// A collection ordered for display.
pub open spec fn sorted_for_display(s: Seq<TaskDefinitionView>) -> bool {
    forall|p: int, q: int| 0 <= p < q < s.len() ==> display_le(s[p], s[q])
}

/// The display ordering is total.
pub proof fn lemma_display_le_total(a: TaskDefinitionView, b: TaskDefinitionView)
    ensures
        display_le(a, b) || display_le(b, a),
{
    lemma_lex_le_total(spec_display_name(a), spec_display_name(b));
}

/// The display ordering is transitive.
pub proof fn lemma_display_le_trans(
    a: TaskDefinitionView,
    b: TaskDefinitionView,
    c: TaskDefinitionView,
)
    ensures
        display_le(a, b) && display_le(b, c) ==> display_le(a, c),
{
    lemma_lex_le_trans(spec_display_name(a), spec_display_name(b), spec_display_name(c));
}

/// The records tied under one sort key: one validity value and one display
/// name.
pub open spec fn display_key_pred(b: bool, n: Seq<char>) -> spec_fn(TaskDefinitionView) -> bool {
    |o: TaskDefinitionView| is_valid_view(o) == b && spec_display_name(o) == n
}

/// Records under the same key never come strictly before one another.
proof fn lemma_display_le_tie(a: TaskDefinitionView, b: TaskDefinitionView)
    requires
        is_valid_view(a) == is_valid_view(b),
        spec_display_name(a) == spec_display_name(b),
    ensures
        display_le(a, b),
{
    crate::text::lemma_lex_lt_asymmetric(spec_display_name(a), spec_display_name(b));
}

/// Moving one element of a sequence left, past elements only that the given
/// predicate rejects wherever it accepts the moved element, leaves the
/// subsequence the predicate selects unchanged.
proof fn lemma_filter_stable_move<A>(s: Seq<A>, i: int, j: int, p: spec_fn(A) -> bool)
    requires
        0 <= j <= i < s.len(),
        p(s[i]) ==> (forall|k: int| j <= k < i ==> !p(s[k])),
    ensures
        s.remove(i).insert(j, s[i]).filter(p) == s.filter(p),
{
    let x = s[i];
    let a = s.subrange(0, j);
    let b = s.subrange(j, i);
    let c = s.subrange(i + 1, s.len() as int);
    let xs = seq![x];
    assert(s =~= a + (b + (xs + c)));
    assert(s.remove(i).insert(j, x) =~= a + (xs + (b + c)));
    Seq::<A>::filter_distributes_over_add(a, b + (xs + c), p);
    Seq::<A>::filter_distributes_over_add(b, xs + c, p);
    Seq::<A>::filter_distributes_over_add(xs, c, p);
    Seq::<A>::filter_distributes_over_add(a, xs + (b + c), p);
    Seq::<A>::filter_distributes_over_add(xs, b + c, p);
    Seq::<A>::filter_distributes_over_add(b, c, p);
    reveal_with_fuel(Seq::filter, 3);
    assert(xs.drop_last() =~= Seq::<A>::empty());
    if p(x) {
        assert(b.all(|y: A| !p(y))) by {
            assert forall|k: int| 0 <= k < b.len() implies !p(b[k]) by {
                assert(b[k] == s[j + k]);
            }
        }
        b.lemma_all_neg_filter_empty(p);
        assert(b.filter(p) =~= Seq::<A>::empty());
        assert(xs.filter(p) =~= seq![x]);
        assert(s.filter(p) =~= a.filter(p) + (seq![x] + c.filter(p)));
        assert(s.remove(i).insert(j, x).filter(p) =~= a.filter(p) + (seq![x] + c.filter(p)));
    } else {
        assert(xs.filter(p) =~= Seq::<A>::empty());
        assert(s.filter(p) =~= a.filter(p) + (b.filter(p) + c.filter(p)));
        assert(s.remove(i).insert(j, x).filter(p) =~= a.filter(p) + (b.filter(p) + c.filter(p)));
    }
}

/// Whether `a` comes strictly before `b` in the display ordering.
fn display_before(a: &TaskDefinition, b: &TaskDefinition) -> (r: bool)
    ensures
        r == !display_le(b@, a@),
{
    let av = a.is_valid();
    let bv = b.is_valid();
    if av == bv {
        let an = a.get_name();
        let bn = b.get_name();
        str_lt(an.as_str(), bn.as_str())
    } else {
        av
    }
}

/// Orders a collection for display: valid outcomes first, each group by
/// display name ascending, keeping exactly the same outcomes. The sort is
/// stable: for every sort key, the tied records keep their stored relative
/// order, stated as the key's subsequence of the result equalling that of
/// the input. The stored collection is left as loaded; callers sort a
/// snapshot.
pub fn sort_for_display(tasks: Vec<TaskDefinition>) -> (r: Vec<TaskDefinition>)
    ensures
        sorted_for_display(r.deep_view()),
        r.deep_view().to_multiset() == tasks.deep_view().to_multiset(),
        r@.len() == tasks@.len(),
        forall|b: bool, n: Seq<char>| #[trigger] r.deep_view().filter(display_key_pred(b, n))
            == tasks.deep_view().filter(display_key_pred(b, n)),
{
    let mut v = tasks;
    let ghost dv0 = v.deep_view();
    if v.len() <= 1 {
        return v;
    }
    let mut i: usize = 1;
    while i < v.len()
        invariant
            1 <= i <= v.len(),
            v.deep_view().to_multiset() == dv0.to_multiset(),
            v@.len() == dv0.len(),
            sorted_for_display(v.deep_view().take(i as int)),
            forall|b: bool, n: Seq<char>| #[trigger] v.deep_view().filter(display_key_pred(b, n))
                == dv0.filter(display_key_pred(b, n)),
        decreases v@.len() - i,
    {
        let ghost dv_outer = v.deep_view();
        let x = v.remove(i);
        proof {
            assert(v.deep_view() =~= dv_outer.remove(i as int));
        }
        let mut j: usize = i;
        while j > 0 && display_before(&x, &v[j - 1])
            invariant
                j <= i,
                i < dv_outer.len(),
                v@.len() == dv_outer.len() - 1,
                v.deep_view() == dv_outer.remove(i as int),
                x@ == dv_outer[i as int],
                sorted_for_display(dv_outer.take(i as int)),
                forall|k: int| j <= k < i ==> !display_le(v.deep_view()[k], x@),
            decreases j,
        {
            j = j - 1;
        }
        proof {
            if j > 0 {
                assert forall|k: int| 0 <= k < j implies display_le(v.deep_view()[k], x@) by {
                    if k < j - 1 {
                        assert(dv_outer.take(i as int)[k] == dv_outer[k]);
                        assert(dv_outer.take(i as int)[j - 1] == dv_outer[j - 1]);
                        assert(display_le(
                            dv_outer.take(i as int)[k],
                            dv_outer.take(i as int)[j - 1],
                        ));
                        lemma_display_le_trans(v.deep_view()[k], v.deep_view()[j - 1], x@);
                    }
                }
            }
            assert forall|k: int| j <= k < i implies display_le(x@, v.deep_view()[k]) by {
                lemma_display_le_total(x@, v.deep_view()[k]);
            }
        }
        let ghost dv_before = v.deep_view();
        v.insert(j, x);
        proof {
            assert(v.deep_view() =~= dv_before.insert(j as int, x@));
            let dv = v.deep_view();
            assert forall|p: int, q: int| 0 <= p < q < i + 1 implies display_le(dv[p], dv[q]) by {
                assert(dv =~= dv_before.insert(j as int, x@));
                if p < j && q < j {
                } else if p < j && q == j {
                } else if p == j {
                } else if q > j && p > j {
                    assert(dv[p] == dv_before[p - 1]);
                    assert(dv[q] == dv_before[q - 1]);
                } else {
                    // p < j < q
                    assert(dv[p] == dv_before[p]);
                    assert(dv[q] == dv_before[q - 1]);
                    lemma_display_le_trans(dv[p], x@, dv[q]);
                }
            }
            assert(sorted_for_display(v.deep_view().take(i as int + 1)));
            // The moved record passes only records under other keys, so every
            // key's subsequence is untouched.
            assert forall|b2: bool, n: Seq<char>|
                #[trigger] v.deep_view().filter(display_key_pred(b2, n)) == dv0.filter(
                    display_key_pred(b2, n),
                ) by {
                let p = display_key_pred(b2, n);
                if p(x@) {
                    assert forall|k: int| j <= k < i implies !p(dv_outer[k]) by {
                        if p(dv_outer[k]) {
                            assert(dv_before[k] == dv_outer[k]);
                            lemma_display_le_tie(dv_outer[k], x@);
                        }
                    }
                }
                assert(dv_outer[i as int] == x@);
                lemma_filter_stable_move(dv_outer, i as int, j as int, p);
                assert(v.deep_view() == dv_outer.remove(i as int).insert(j as int, x@));
            }
        }
        i = i + 1;
    }
    proof {
        assert(v.deep_view().take(v@.len() as int) =~= v.deep_view());
    }
    v
}

} // verus!
