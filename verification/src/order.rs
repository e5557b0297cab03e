use vstd::prelude::*;

use crate::model::{models_view, DiscoveredModel, ModelV};
use crate::text::{str_less, str_lt};

verus! {

/// `str_lt` never holds of a string and itself.
pub proof fn lemma_str_lt_irreflexive(a: Seq<char>)
    ensures
        !str_lt(a, a),
    decreases a.len(),
{
    if a.len() > 0 {
        lemma_str_lt_irreflexive(a.drop_first());
    }
}

/// `str_lt` is transitive.
pub proof fn lemma_str_lt_transitive(a: Seq<char>, b: Seq<char>, c: Seq<char>)
    requires
        str_lt(a, b),
        str_lt(b, c),
    ensures
        str_lt(a, c),
    decreases a.len(),
{
    if a.len() > 0 && b.len() > 0 && c.len() > 0 {
        if a[0] == b[0] && b[0] == c[0] {
            lemma_str_lt_transitive(a.drop_first(), b.drop_first(), c.drop_first());
        }
    }
}

/// Any two different strings are ordered one way or the other.
pub proof fn lemma_str_lt_total(a: Seq<char>, b: Seq<char>)
    ensures
        a == b || str_lt(a, b) || str_lt(b, a),
    decreases a.len(),
{
    if a.len() > 0 && b.len() > 0 {
        if a[0] == b[0] {
            lemma_str_lt_total(a.drop_first(), b.drop_first());
            if a.drop_first() == b.drop_first() {
                assert(a =~= seq![a[0]] + a.drop_first());
                assert(b =~= seq![b[0]] + b.drop_first());
            }
        } else {
            vstd::utf8::char_u32_cast(a[0], a[0] as u32);
            vstd::utf8::char_u32_cast(b[0], b[0] as u32);
            assert((a[0] as u32) != (b[0] as u32));
        }
    } else if a.len() == 0 && b.len() == 0 {
        assert(a =~= b);
    }
}

/// `x` placed into `s` after every model whose id is not greater than its own.
pub open spec fn insert_by_id(s: Seq<ModelV>, x: ModelV) -> Seq<ModelV>
    decreases s.len(),
{
    if s.len() == 0 {
        seq![x]
    } else if str_lt(x.id, s[0].id) {
        seq![x] + s
    } else {
        seq![s[0]] + insert_by_id(s.drop_first(), x)
    }
}

/// `s` stably sorted by id: insertion of each model, in order, into the sorted rest.
pub open spec fn sort_by_id(s: Seq<ModelV>) -> Seq<ModelV>
    decreases s.len(),
{
    if s.len() == 0 {
        Seq::empty()
    } else {
        insert_by_id(sort_by_id(s.drop_last()), s.last())
    }
}

/// `s` without each model whose id equals that of the model just before it.
pub open spec fn dedup_by_id(s: Seq<ModelV>) -> Seq<ModelV>
    decreases s.len(),
{
    if s.len() == 0 {
        Seq::empty()
    } else {
        let r = dedup_by_id(s.drop_last());
        if r.len() > 0 && r.last().id == s.last().id {
            r
        } else {
            r.push(s.last())
        }
    }
}

/// No model's id is less than that of a model before it.
pub open spec fn sorted_by_id(s: Seq<ModelV>) -> bool {
    forall|i: int, j: int| 0 <= i < j < s.len() ==> !str_lt(#[trigger] s[j].id, #[trigger] s[i].id)
}

/// Each model's id is less than that of every model after it.
pub open spec fn strictly_sorted_by_id(s: Seq<ModelV>) -> bool {
    forall|i: int, j: int| 0 <= i < j < s.len() ==> str_lt(#[trigger] s[i].id, #[trigger] s[j].id)
}

proof fn lemma_insert_by_id_at(s: Seq<ModelV>, x: ModelV, p: int)
    requires
        0 <= p <= s.len(),
        forall|j: int| 0 <= j < p ==> !str_lt(x.id, #[trigger] s[j].id),
        p < s.len() ==> str_lt(x.id, s[p].id),
    ensures
        insert_by_id(s, x) == s.insert(p, x),
    decreases s.len(),
{
    if s.len() == 0 {
        assert(s.insert(p, x) =~= seq![x]);
    } else if p == 0 {
        assert(s.insert(p, x) =~= seq![x] + s);
    } else {
        let t = s.drop_first();
        assert forall|j: int| 0 <= j < p - 1 implies !str_lt(x.id, #[trigger] t[j].id) by {
            assert(t[j] == s[j + 1]);
        }
        lemma_insert_by_id_at(t, x, p - 1);
        assert(s.insert(p, x) =~= seq![s[0]] + t.insert(p - 1, x));
    }
}

/// Where `insert_by_id` places `x` in `s`: before the first model whose id is greater.
pub open spec fn insert_position(s: Seq<ModelV>, x: ModelV) -> int
    decreases s.len(),
{
    if s.len() == 0 {
        0
    } else if str_lt(x.id, s[0].id) {
        0
    } else {
        1 + insert_position(s.drop_first(), x)
    }
}

proof fn lemma_insert_position(s: Seq<ModelV>, x: ModelV)
    ensures
        0 <= insert_position(s, x) <= s.len(),
        forall|j: int| 0 <= j < insert_position(s, x) ==> !str_lt(x.id, #[trigger] s[j].id),
        insert_position(s, x) < s.len() ==> str_lt(x.id, s[insert_position(s, x)].id),
        insert_by_id(s, x) == s.insert(insert_position(s, x), x),
    decreases s.len(),
{
    let p = insert_position(s, x);
    if s.len() > 0 && !str_lt(x.id, s[0].id) {
        let t = s.drop_first();
        lemma_insert_position(t, x);
        assert forall|j: int| 0 <= j < p implies !str_lt(x.id, #[trigger] s[j].id) by {
            if j > 0 {
                assert(s[j] == t[j - 1]);
            }
        }
    }
    lemma_insert_by_id_at(s, x, p);
}

/// The ids of a list of models, in order.
pub open spec fn ids(s: Seq<ModelV>) -> Seq<Seq<char>> {
    s.map_values(|m: ModelV| m.id)
}

/// Inserting a model into a sorted list keeps it sorted.
proof fn lemma_insert_sorted(s: Seq<ModelV>, x: ModelV)
    requires
        sorted_by_id(s),
    ensures
        sorted_by_id(insert_by_id(s, x)),
{
    lemma_insert_position(s, x);
    let p = insert_position(s, x);
    let r = s.insert(p, x);
    assert forall|i: int, j: int| 0 <= i < j < r.len() implies !str_lt(
        #[trigger] r[j].id,
        #[trigger] r[i].id,
    ) by {
        if j < p {
            assert(r[i] == s[i] && r[j] == s[j]);
        } else if j == p {
            assert(r[i] == s[i] && r[j] == x);
        } else if i == p {
            assert(r[i] == x && r[j] == s[j - 1]);
            assert(str_lt(x.id, s[p].id));
            if j - 1 > p {
                assert(!str_lt(s[j - 1].id, s[p].id));
            }
            lemma_str_lt_total(s[j - 1].id, s[p].id);
            if str_lt(s[j - 1].id, x.id) {
                lemma_str_lt_transitive(s[j - 1].id, x.id, s[p].id);
                lemma_str_lt_irreflexive(s[p].id);
            }
        } else if i < p {
            assert(r[i] == s[i] && r[j] == s[j - 1]);
        } else {
            assert(r[i] == s[i - 1] && r[j] == s[j - 1]);
        }
    }
}

/// `sort_by_id` sorts: no model's id is less than that of a model before it.
pub proof fn law_sort_by_id_sorted(s: Seq<ModelV>)
    ensures
        sorted_by_id(sort_by_id(s)),
    decreases s.len(),
{
    if s.len() > 0 {
        law_sort_by_id_sorted(s.drop_last());
        lemma_insert_sorted(sort_by_id(s.drop_last()), s.last());
    }
}

/// `sort_by_id` only reorders: the same models, each as often as before.
pub proof fn law_sort_by_id_permutes(s: Seq<ModelV>)
    ensures
        sort_by_id(s).to_multiset() == s.to_multiset(),
    decreases s.len(),
{
    broadcast use vstd::seq_lib::to_multiset_insert, vstd::seq_lib::to_multiset_build;

    if s.len() > 0 {
        law_sort_by_id_permutes(s.drop_last());
        let t = sort_by_id(s.drop_last());
        lemma_insert_position(t, s.last());
        let p = insert_position(t, s.last());
        assert(sort_by_id(s) == t.insert(p, s.last()));
        assert(t.insert(p, s.last()).to_multiset() == t.to_multiset().insert(s.last()));
        assert(s.drop_last().push(s.last()) =~= s);
        assert(s.drop_last().push(s.last()).to_multiset() == s.drop_last().to_multiset().insert(
            s.last(),
        ));
    } else {
        assert(sort_by_id(s) =~= s);
    }
}

/// `sort_by_id` keeps exactly the models of its input.
pub proof fn law_sort_by_id_same_models(s: Seq<ModelV>)
    ensures
        forall|m: ModelV| #[trigger] sort_by_id(s).contains(m) <==> s.contains(m),
{
    broadcast use vstd::seq_lib::to_multiset_contains;

    law_sort_by_id_permutes(s);
    assert forall|m: ModelV| #[trigger] sort_by_id(s).contains(m) <==> s.contains(m) by {
        assert(sort_by_id(s).to_multiset().count(m) == s.to_multiset().count(m));
    }
}

/// The order in which `sort_by_id` puts models by id depends on their ids alone.
pub proof fn law_sort_by_id_ids(s1: Seq<ModelV>, s2: Seq<ModelV>)
    requires
        ids(s1) == ids(s2),
    ensures
        ids(sort_by_id(s1)) == ids(sort_by_id(s2)),
    decreases s1.len(),
{
    assert(s1.len() == ids(s1).len() && s2.len() == ids(s2).len());
    if s1.len() > 0 {
        assert(ids(s1.drop_last()) =~= ids(s2.drop_last())) by {
            assert forall|i: int| 0 <= i < s1.len() - 1 implies ids(s1.drop_last())[i] == ids(
                s2.drop_last(),
            )[i] by {
                assert(ids(s1)[i] == ids(s2)[i]);
            }
        }
        law_sort_by_id_ids(s1.drop_last(), s2.drop_last());
        let t1 = sort_by_id(s1.drop_last());
        let t2 = sort_by_id(s2.drop_last());
        let x1 = s1.last();
        let x2 = s2.last();
        assert(ids(s1)[s1.len() - 1] == ids(s2)[s1.len() - 1]);
        assert(x1.id == x2.id);
        lemma_insert_position_ids(t1, t2, x1, x2);
        lemma_insert_position(t1, x1);
        lemma_insert_position(t2, x2);
        let p = insert_position(t1, x1);
        assert(ids(t1.insert(p, x1)) =~= ids(t2.insert(p, x2))) by {
            assert(t1.len() == ids(t1).len() && t2.len() == ids(t2).len());
            assert forall|i: int| 0 <= i < t1.len() + 1 implies ids(t1.insert(p, x1))[i] == ids(
                t2.insert(p, x2),
            )[i] by {
                if i < p {
                    assert(ids(t1)[i] == ids(t2)[i]);
                } else if i > p {
                    assert(ids(t1)[i - 1] == ids(t2)[i - 1]);
                }
            }
        }
    }
}

proof fn lemma_insert_position_ids(t1: Seq<ModelV>, t2: Seq<ModelV>, x1: ModelV, x2: ModelV)
    requires
        ids(t1) == ids(t2),
        x1.id == x2.id,
    ensures
        insert_position(t1, x1) == insert_position(t2, x2),
    decreases t1.len(),
{
    assert(t1.len() == ids(t1).len() && t2.len() == ids(t2).len());
    if t1.len() > 0 {
        assert(ids(t1)[0] == ids(t2)[0]);
        assert(ids(t1.drop_first()) =~= ids(t2.drop_first())) by {
            assert forall|i: int| 0 <= i < t1.len() - 1 implies ids(t1.drop_first())[i] == ids(
                t2.drop_first(),
            )[i] by {
                assert(ids(t1)[i + 1] == ids(t2)[i + 1]);
            }
        }
        lemma_insert_position_ids(t1.drop_first(), t2.drop_first(), x1, x2);
    }
}

/// The models of `s` whose id is `id`, in order.
pub open spec fn with_id(s: Seq<ModelV>, id: Seq<char>) -> Seq<ModelV>
    decreases s.len(),
{
    if s.len() == 0 {
        Seq::empty()
    } else {
        let r = with_id(s.drop_last(), id);
        if s.last().id == id {
            r.push(s.last())
        } else {
            r
        }
    }
}

proof fn lemma_with_id_add(a: Seq<ModelV>, b: Seq<ModelV>, id: Seq<char>)
    ensures
        with_id(a + b, id) == with_id(a, id) + with_id(b, id),
    decreases b.len(),
{
    if b.len() == 0 {
        assert(a + b =~= a);
        assert(with_id(a, id) + with_id(b, id) =~= with_id(a, id));
    } else {
        lemma_with_id_add(a, b.drop_last(), id);
        assert((a + b).drop_last() =~= a + b.drop_last());
        assert((a + b).last() == b.last());
        if b.last().id == id {
            assert(with_id(a, id) + with_id(b.drop_last(), id).push(b.last()) =~= (with_id(a, id)
                + with_id(b.drop_last(), id)).push(b.last()));
        }
    }
}

proof fn lemma_with_id_none(s: Seq<ModelV>, id: Seq<char>)
    requires
        forall|j: int| 0 <= j < s.len() ==> #[trigger] s[j].id != id,
    ensures
        with_id(s, id) == Seq::<ModelV>::empty(),
    decreases s.len(),
{
    if s.len() > 0 {
        lemma_with_id_none(s.drop_last(), id);
    }
}

/// `sort_by_id` is stable: the models with any one id come out in the order they went in.
pub proof fn law_sort_by_id_stable(s: Seq<ModelV>, id: Seq<char>)
    ensures
        with_id(sort_by_id(s), id) == with_id(s, id),
    decreases s.len(),
{
    if s.len() > 0 {
        let x = s.last();
        law_sort_by_id_stable(s.drop_last(), id);
        law_sort_by_id_sorted(s.drop_last());
        let t = sort_by_id(s.drop_last());
        lemma_insert_position(t, x);
        let p = insert_position(t, x);
        let front = t.take(p);
        let back = t.skip(p);
        assert(t =~= front + back);
        assert(t.insert(p, x) =~= front + seq![x] + back);
        assert forall|j: int| 0 <= j < back.len() implies str_lt(x.id, #[trigger] back[j].id) by {
            assert(back[j] == t[p + j]);
            if j > 0 {
                assert(!str_lt(t[p + j].id, t[p].id));
                lemma_str_lt_total(t[p + j].id, t[p].id);
                if t[p + j].id != t[p].id {
                    lemma_str_lt_transitive(x.id, t[p].id, t[p + j].id);
                }
            }
        }
        lemma_with_id_add(front, back, id);
        lemma_with_id_add(front + seq![x], back, id);
        lemma_with_id_add(front, seq![x], id);
        assert(seq![x].drop_last() =~= Seq::<ModelV>::empty());
        assert(seq![x].last() == x);
        assert(with_id(seq![x].drop_last(), id) =~= Seq::<ModelV>::empty());
        if x.id == id {
            assert forall|j: int| 0 <= j < back.len() implies #[trigger] back[j].id != id by {
                lemma_str_lt_irreflexive(x.id);
            }
            lemma_with_id_none(back, id);
            assert(with_id(seq![x], id) =~= Seq::<ModelV>::empty().push(x));
            assert(with_id(front, id) + with_id(back, id) =~= with_id(front, id));
            assert(with_id(front, id) + seq![x] + with_id(back, id) =~= with_id(front, id).push(x));
        } else {
            assert(with_id(seq![x], id) =~= Seq::<ModelV>::empty());
            assert(with_id(front, id) + Seq::<ModelV>::empty() =~= with_id(front, id));
        }
    }
}

proof fn lemma_with_id_members(s: Seq<ModelV>, id: Seq<char>)
    ensures
        forall|i: int|
            0 <= i < with_id(s, id).len() ==> #[trigger] with_id(s, id)[i].id == id && s.contains(
                with_id(s, id)[i],
            ),
    decreases s.len(),
{
    if s.len() > 0 {
        lemma_with_id_members(s.drop_last(), id);
        let r = with_id(s.drop_last(), id);
        assert forall|i: int| 0 <= i < with_id(s, id).len() implies #[trigger] with_id(s, id)[i].id
            == id && s.contains(with_id(s, id)[i]) by {
            if i < r.len() {
                assert(with_id(s, id)[i] == r[i]);
                assert(r[i].id == id);
                assert(s.drop_last().contains(r[i]));
                let j = choose|j: int| 0 <= j < s.len() - 1 && s.drop_last()[j] == r[i];
                assert(s[j] == r[i]);
            } else {
                assert(with_id(s, id)[i] == s.last());
                assert(s[s.len() - 1] == s.last());
            }
        }
    }
}

proof fn lemma_with_id_has(s: Seq<ModelV>, j: int)
    requires
        0 <= j < s.len(),
    ensures
        with_id(s, s[j].id).len() > 0,
    decreases s.len(),
{
    if j < s.len() - 1 {
        assert(s.drop_last()[j] == s[j]);
        lemma_with_id_has(s.drop_last(), j);
    }
}

proof fn lemma_with_id_front(x: ModelV, r: Seq<ModelV>, id: Seq<char>)
    ensures
        with_id(seq![x] + r, id) == if x.id == id {
            seq![x] + with_id(r, id)
        } else {
            with_id(r, id)
        },
{
    lemma_with_id_add(seq![x], r, id);
    assert(seq![x].drop_last() =~= Seq::<ModelV>::empty());
    assert(seq![x].last() == x);
    assert(with_id(seq![x].drop_last(), id) =~= Seq::<ModelV>::empty());
    if x.id == id {
        assert(with_id(seq![x], id) =~= seq![x]);
    } else {
        assert(with_id(seq![x], id) =~= Seq::<ModelV>::empty());
        assert(Seq::<ModelV>::empty() + with_id(r, id) =~= with_id(r, id));
    }
}

proof fn lemma_sorted_drop_first(s: Seq<ModelV>)
    requires
        sorted_by_id(s),
        s.len() > 0,
    ensures
        sorted_by_id(s.drop_first()),
{
    let t = s.drop_first();
    assert forall|i: int, j: int| 0 <= i < j < t.len() implies !str_lt(
        #[trigger] t[j].id,
        #[trigger] t[i].id,
    ) by {
        assert(t[i] == s[i + 1] && t[j] == s[j + 1]);
    }
}

/// Two lists sorted by id that hold the same models with each id, in the same order, are
/// the same list.
pub proof fn law_sorted_by_id_unique(s: Seq<ModelV>, t: Seq<ModelV>)
    requires
        sorted_by_id(s),
        sorted_by_id(t),
        forall|id: Seq<char>| #[trigger] with_id(s, id) == with_id(t, id),
    ensures
        s == t,
    decreases s.len(),
{
    if s.len() == 0 && t.len() == 0 {
        assert(s =~= t);
    } else if s.len() == 0 {
        lemma_with_id_has(t, 0);
        assert(with_id(s, t[0].id) == with_id(t, t[0].id));
    } else if t.len() == 0 {
        lemma_with_id_has(s, 0);
        assert(with_id(s, s[0].id) == with_id(t, s[0].id));
    } else {
        let x = s[0];
        let y = t[0];
        assert(s =~= seq![x] + s.drop_first());
        assert(t =~= seq![y] + t.drop_first());
        if x.id != y.id {
            lemma_str_lt_total(x.id, y.id);
            if str_lt(x.id, y.id) {
                lemma_with_id_has(s, 0);
                assert(with_id(s, x.id) == with_id(t, x.id));
                lemma_with_id_members(t, x.id);
                assert(with_id(t, x.id).len() > 0);
                let w = with_id(t, x.id)[0];
                assert(with_id(t, x.id)[0].id == x.id);
                assert(w.id == x.id && t.contains(w));
                let j = choose|j: int| 0 <= j < t.len() && t[j] == w;
                if j > 0 {
                    assert(!str_lt(t[j].id, t[0].id));
                }
                lemma_str_lt_irreflexive(x.id);
            } else {
                lemma_with_id_has(t, 0);
                assert(with_id(s, y.id) == with_id(t, y.id));
                lemma_with_id_members(s, y.id);
                assert(with_id(s, y.id).len() > 0);
                let w = with_id(s, y.id)[0];
                assert(with_id(s, y.id)[0].id == y.id);
                assert(w.id == y.id && s.contains(w));
                let j = choose|j: int| 0 <= j < s.len() && s[j] == w;
                if j > 0 {
                    assert(!str_lt(s[j].id, s[0].id));
                }
                lemma_str_lt_irreflexive(y.id);
            }
        }
        let k0 = x.id;
        lemma_with_id_front(x, s.drop_first(), k0);
        lemma_with_id_front(y, t.drop_first(), k0);
        assert(with_id(s, k0) == with_id(t, k0));
        assert((seq![x] + with_id(s.drop_first(), k0))[0] == x);
        assert((seq![y] + with_id(t.drop_first(), k0))[0] == y);
        assert(x == y);
        assert forall|id: Seq<char>| #[trigger] with_id(s.drop_first(), id) == with_id(
            t.drop_first(),
            id,
        ) by {
            lemma_with_id_front(x, s.drop_first(), id);
            lemma_with_id_front(y, t.drop_first(), id);
            assert(with_id(s, id) == with_id(t, id));
            if x.id == id {
                assert(with_id(s.drop_first(), id) =~= (seq![x] + with_id(s.drop_first(), id)).drop_first());
                assert(with_id(t.drop_first(), id) =~= (seq![y] + with_id(t.drop_first(), id)).drop_first());
            }
        }
        lemma_sorted_drop_first(s);
        lemma_sorted_drop_first(t);
        law_sorted_by_id_unique(s.drop_first(), t.drop_first());
    }
}

/// Sorting two lists and then their concatenation gives what sorting the concatenation
/// gives.
pub proof fn law_sort_by_id_of_sorted_parts(a: Seq<ModelV>, b: Seq<ModelV>)
    ensures
        sort_by_id(sort_by_id(a) + sort_by_id(b)) == sort_by_id(a + b),
{
    let u = sort_by_id(sort_by_id(a) + sort_by_id(b));
    let v = sort_by_id(a + b);
    law_sort_by_id_sorted(sort_by_id(a) + sort_by_id(b));
    law_sort_by_id_sorted(a + b);
    assert forall|id: Seq<char>| #[trigger] with_id(u, id) == with_id(v, id) by {
        law_sort_by_id_stable(sort_by_id(a) + sort_by_id(b), id);
        lemma_with_id_add(sort_by_id(a), sort_by_id(b), id);
        law_sort_by_id_stable(a, id);
        law_sort_by_id_stable(b, id);
        lemma_with_id_add(a, b, id);
        law_sort_by_id_stable(a + b, id);
    }
    law_sorted_by_id_unique(u, v);
}

/// Every model that `dedup_by_id` keeps is a model of its input.
pub proof fn law_dedup_by_id_keeps(s: Seq<ModelV>)
    ensures
        forall|i: int| 0 <= i < dedup_by_id(s).len() ==> s.contains(#[trigger] dedup_by_id(s)[i]),
    decreases s.len(),
{
    if s.len() > 0 {
        law_dedup_by_id_keeps(s.drop_last());
        let r = dedup_by_id(s.drop_last());
        assert forall|i: int| 0 <= i < dedup_by_id(s).len() implies s.contains(
            #[trigger] dedup_by_id(s)[i],
        ) by {
            if i < r.len() {
                let j = choose|j: int| 0 <= j < s.len() - 1 && s.drop_last()[j] == r[i];
                assert(s[j] == r[i]);
            } else {
                assert(dedup_by_id(s)[i] == s[s.len() - 1]);
            }
        }
    }
}

/// `dedup_by_id` keeps a model with each id of its input.
pub proof fn law_dedup_by_id_covers(s: Seq<ModelV>)
    ensures
        forall|j: int|
            0 <= j < s.len() ==> exists|i: int|
                0 <= i < dedup_by_id(s).len() && #[trigger] dedup_by_id(s)[i].id == #[trigger] s[j].id,
    decreases s.len(),
{
    if s.len() > 0 {
        law_dedup_by_id_covers(s.drop_last());
        let r = dedup_by_id(s.drop_last());
        let d = dedup_by_id(s);
        assert forall|j: int| 0 <= j < s.len() implies exists|i: int|
            0 <= i < d.len() && #[trigger] d[i].id == #[trigger] s[j].id by {
            if j < s.len() - 1 {
                assert(s.drop_last()[j] == s[j]);
                let i = choose|i: int| 0 <= i < r.len() && #[trigger] r[i].id == s.drop_last()[j].id;
                assert(d[i] == r[i]);
                assert(0 <= i < d.len() && d[i].id == s[j].id);
            } else {
                if r.len() > 0 && r.last().id == s.last().id {
                    let i = r.len() - 1;
                    assert(d[i] == r.last());
                    assert(0 <= i < d.len() && d[i].id == s[j].id);
                } else {
                    let i = r.len() as int;
                    assert(d[i] == s.last());
                    assert(0 <= i < d.len() && d[i].id == s[j].id);
                }
            }
        }
    }
}

/// Deduplicating a sorted list leaves each id less than the next: no id twice.
pub proof fn law_dedup_sorted_strict(s: Seq<ModelV>)
    requires
        sorted_by_id(s),
    ensures
        strictly_sorted_by_id(dedup_by_id(s)),
    decreases s.len(),
{
    if s.len() > 0 {
        let t = s.drop_last();
        assert(sorted_by_id(t)) by {
            assert forall|i: int, j: int| 0 <= i < j < t.len() implies !str_lt(
                #[trigger] t[j].id,
                #[trigger] t[i].id,
            ) by {
                assert(t[i] == s[i] && t[j] == s[j]);
            }
        }
        law_dedup_sorted_strict(t);
        law_dedup_by_id_keeps(t);
        let r = dedup_by_id(t);
        let x = s.last();
        if !(r.len() > 0 && r.last().id == x.id) {
            let d = r.push(x);
            assert forall|i: int, j: int| 0 <= i < j < d.len() implies str_lt(
                #[trigger] d[i].id,
                #[trigger] d[j].id,
            ) by {
                if j < r.len() {
                    assert(d[i] == r[i] && d[j] == r[j]);
                } else {
                    assert(d[j] == x);
                    let last = r.last();
                    assert(t.contains(last));
                    let k = choose|k: int| 0 <= k < t.len() && t[k] == last;
                    assert(s[k] == last);
                    assert(!str_lt(x.id, last.id));
                    lemma_str_lt_total(x.id, last.id);
                    if i < r.len() - 1 {
                        assert(d[i] == r[i]);
                        assert(str_lt(r[i].id, last.id));
                        lemma_str_lt_transitive(r[i].id, last.id, x.id);
                    }
                }
            }
        }
    }
}

proof fn lemma_models_view_insert(v: Seq<DiscoveredModel>, p: int, x: DiscoveredModel)
    requires
        0 <= p <= v.len(),
    ensures
        models_view(v.insert(p, x)) == models_view(v).insert(p, x@),
{
    assert(models_view(v.insert(p, x)) =~= models_view(v).insert(p, x@));
}

/// The models stably sorted by id, as `sort_by` on the ids sorts them.
pub fn sort_models_by_id(models: Vec<DiscoveredModel>) -> (r: Vec<DiscoveredModel>)
    ensures
        models_view(r@) == sort_by_id(models_view(models@)),
{
    let ghost input = models_view(models@);
    let mut rest = models;
    let mut out: Vec<DiscoveredModel> = Vec::new();
    let ghost mut k: int = 0;
    assert(input.take(0) =~= Seq::<ModelV>::empty());
    while rest.len() > 0
        invariant
            0 <= k <= input.len(),
            models_view(rest@) == input.skip(k),
            models_view(out@) == sort_by_id(input.take(k)),
        decreases rest.len(),
    {
        let ghost before = rest@;
        proof {
            assert(models_view(before).len() == before.len());
            assert(k < input.len());
        }
        let x = rest.remove(0);
        proof {
            assert(models_view(before)[0] == x@);
            assert(input.skip(k)[0] == x@);
            assert(models_view(rest@) =~= input.skip(k + 1)) by {
                assert forall|i: int| 0 <= i < rest@.len() implies models_view(rest@)[i] == input.skip(
                    k + 1,
                )[i] by {
                    assert(rest@[i] == before[i + 1]);
                    assert(models_view(before)[i + 1] == input.skip(k)[i + 1]);
                }
            }
        }
        let mut p: usize = 0;
        while p < out.len() && !str_less(x.id.as_str(), out[p].id.as_str())
            invariant
                p <= out.len(),
                forall|j: int| 0 <= j < p ==> !str_lt(x.id@, #[trigger] out@[j]@.id),
            decreases out.len() - p,
        {
            p = p + 1;
        }
        proof {
            let s = models_view(out@);
            assert forall|j: int| 0 <= j < p implies !str_lt(x@.id, #[trigger] s[j].id) by {
                assert(s[j] == out@[j]@);
            }
            if p < out.len() {
                assert(s[p as int] == out@[p as int]@);
            }
            lemma_insert_by_id_at(s, x@, p as int);
            lemma_models_view_insert(out@, p as int, x);
            assert(input.take(k + 1).drop_last() =~= input.take(k));
            assert(input.take(k + 1).last() == input[k]);
            assert(input.skip(k)[0] == input[k]);
        }
        out.insert(p, x);
        proof {
            k = k + 1;
        }
    }
    proof {
        assert(input.take(k) =~= input);
    }
    out
}

/// Drops each model whose id equals that of the model just before it, as `dedup_by` on the
/// ids does.
pub fn dedup_models_by_id(models: Vec<DiscoveredModel>) -> (r: Vec<DiscoveredModel>)
    ensures
        models_view(r@) == dedup_by_id(models_view(models@)),
{
    let ghost input = models_view(models@);
    let mut rest = models;
    let mut out: Vec<DiscoveredModel> = Vec::new();
    let ghost mut k: int = 0;
    assert(input.take(0) =~= Seq::<ModelV>::empty());
    while rest.len() > 0
        invariant
            0 <= k <= input.len(),
            models_view(rest@) == input.skip(k),
            models_view(out@) == dedup_by_id(input.take(k)),
        decreases rest.len(),
    {
        let ghost before = rest@;
        proof {
            assert(models_view(before).len() == before.len());
            assert(k < input.len());
        }
        let x = rest.remove(0);
        proof {
            assert(models_view(before)[0] == x@);
            assert(input.skip(k)[0] == x@);
            assert(models_view(rest@) =~= input.skip(k + 1)) by {
                assert forall|i: int| 0 <= i < rest@.len() implies models_view(rest@)[i] == input.skip(
                    k + 1,
                )[i] by {
                    assert(rest@[i] == before[i + 1]);
                    assert(models_view(before)[i + 1] == input.skip(k)[i + 1]);
                }
            }
            assert(input.take(k + 1).drop_last() =~= input.take(k));
            assert(input.take(k + 1).last() == input[k]);
            assert(input.skip(k)[0] == input[k]);
        }
        let n = out.len();
        if n > 0 && out[n - 1].id == x.id {
            proof {
                assert(models_view(out@).last() == out@[n - 1]@);
            }
        } else {
            proof {
                if n > 0 {
                    assert(models_view(out@).last() == out@[n - 1]@);
                }
            }
            out.push(x);
            proof {
                assert(models_view(out@) =~= dedup_by_id(input.take(k)).push(x@));
            }
        }
        proof {
            k = k + 1;
        }
    }
    proof {
        assert(input.take(k) =~= input);
    }
    out
}

} // verus!
