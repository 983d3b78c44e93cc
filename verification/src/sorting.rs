//! Texts in ascending order.

use crate::text::{same_text, str_less, text_less, texts_view};
use vstd::prelude::*;

verus! {

pub proof fn lemma_less_irreflexive(a: Seq<char>)
    ensures
        !text_less(a, a),
    decreases a.len(),
{
    if a.len() > 0 {
        lemma_less_irreflexive(a.skip(1));
    }
}

pub proof fn lemma_less_transitive(a: Seq<char>, b: Seq<char>, c: Seq<char>)
    requires
        text_less(a, b),
        text_less(b, c),
    ensures
        text_less(a, c),
    decreases a.len(),
{
    if a.len() > 0 && a[0] == b[0] && b[0] == c[0] {
        lemma_less_transitive(a.skip(1), b.skip(1), c.skip(1));
    }
}

pub proof fn lemma_less_total(a: Seq<char>, b: Seq<char>)
    ensures
        a == b || text_less(a, b) || text_less(b, a),
    decreases a.len(),
{
    if a.len() == 0 {
        if b.len() == 0 {
            assert(a =~= b);
        }
    } else if b.len() > 0 && a[0] == b[0] {
        lemma_less_total(a.skip(1), b.skip(1));
        if a.skip(1) == b.skip(1) {
            assert(a =~= seq![a[0]] + a.skip(1));
            assert(b =~= seq![b[0]] + b.skip(1));
        }
    }
}

/// `x` put into `list` before the first greater text.
pub open spec fn insert_text(list: Seq<Seq<char>>, x: Seq<char>) -> Seq<Seq<char>>
    decreases list.len(),
{
    if list.len() == 0 {
        seq![x]
    } else if text_less(x, list[0]) {
        seq![x] + list
    } else {
        seq![list[0]] + insert_text(list.skip(1), x)
    }
}

/// The texts in ascending order.
pub open spec fn sorted_texts(list: Seq<Seq<char>>) -> Seq<Seq<char>>
    decreases list.len(),
{
    if list.len() == 0 {
        Seq::empty()
    } else {
        insert_text(sorted_texts(list.drop_last()), list.last())
    }
}

pub open spec fn ascending(list: Seq<Seq<char>>) -> bool {
    forall|i: int, j: int|
        0 <= i < j < list.len() ==> !text_less(#[trigger] list[j], #[trigger] list[i])
}

proof fn lemma_insert_text(list: Seq<Seq<char>>, x: Seq<char>)
    requires
        ascending(list),
    ensures
        ascending(insert_text(list, x)),
        insert_text(list, x).to_multiset() == list.to_multiset().insert(x),
        forall|t: Seq<char>|
            #[trigger] insert_text(list, x).contains(t) ==> list.contains(t) || t == x,
    decreases list.len(),
{
    let r = insert_text(list, x);
    broadcast use vstd::seq_lib::group_to_multiset_ensures;

    if list.len() == 0 {
        assert(r =~= list.push(x));
    } else if text_less(x, list[0]) {
        assert forall|i: int, j: int| 0 <= i < j < r.len() implies !text_less(
            #[trigger] r[j],
            #[trigger] r[i],
        ) by {
            if i == 0 {
                if text_less(r[j], x) {
                    lemma_less_transitive(r[j], x, list[0]);
                    if j == 1 {
                        lemma_less_irreflexive(list[0]);
                    } else {
                        assert(r[j] == list[j - 1]);
                    }
                }
            } else {
                assert(r[i] == list[i - 1] && r[j] == list[j - 1]);
            }
        }
        assert(r =~= list.insert(0, x));
        assert forall|t: Seq<char>| #[trigger] r.contains(t) implies list.contains(t) || t
            == x by {
            let k = choose|k: int| 0 <= k < r.len() && r[k] == t;
            if k > 0 {
                assert(list[k - 1] == t);
            }
        }
    } else {
        let tail = list.skip(1);
        assert forall|i: int, j: int| 0 <= i < j < tail.len() implies !text_less(
            #[trigger] tail[j],
            #[trigger] tail[i],
        ) by {
            assert(tail[i] == list[i + 1] && tail[j] == list[j + 1]);
        }
        lemma_insert_text(tail, x);
        let rest = insert_text(tail, x);
        assert forall|i: int, j: int| 0 <= i < j < r.len() implies !text_less(
            #[trigger] r[j],
            #[trigger] r[i],
        ) by {
            if i == 0 {
                assert(r[j] == rest[j - 1]);
                assert(rest.contains(r[j]));
                if r[j] != x {
                    let k = choose|k: int| 0 <= k < tail.len() && tail[k] == r[j];
                    assert(list[k + 1] == r[j]);
                }
            } else {
                assert(r[i] == rest[i - 1] && r[j] == rest[j - 1]);
            }
        }
        assert(list =~= tail.insert(0, list[0]));
        assert(r =~= rest.insert(0, list[0]));
        assert(r.to_multiset() =~= list.to_multiset().insert(x));
        assert forall|t: Seq<char>| #[trigger] r.contains(t) implies list.contains(t) || t
            == x by {
            let k = choose|k: int| 0 <= k < r.len() && r[k] == t;
            if k == 0 {
                assert(list[0] == t);
            } else {
                assert(rest[k - 1] == t);
                assert(rest.contains(t));
                if t != x {
                    let m = choose|m: int| 0 <= m < tail.len() && tail[m] == t;
                    assert(list[m + 1] == t);
                }
            }
        }
    }
}

/// Sorting puts the texts into ascending order and keeps each as often as it occurs.
pub proof fn law_sorted_texts(list: Seq<Seq<char>>)
    ensures
        ascending(sorted_texts(list)),
        sorted_texts(list).to_multiset() == list.to_multiset(),
    decreases list.len(),
{
    broadcast use vstd::seq_lib::group_to_multiset_ensures;

    if list.len() > 0 {
        law_sorted_texts(list.drop_last());
        lemma_insert_text(sorted_texts(list.drop_last()), list.last());
        assert(list =~= list.drop_last().push(list.last()));
    } else {
        assert(sorted_texts(list) =~= list);
    }
}

fn insert_into(list: &mut Vec<String>, x: String)
    ensures
        texts_view(final(list)@) == insert_text(texts_view(old(list)@), x@),
{
    let ghost before = texts_view(list@);
    let mut i: usize = 0;
    assert(before.skip(0) =~= before);
    assert(before.take(0) + insert_text(before, x@) =~= insert_text(before, x@));
    while i < list.len() && !str_less(x.as_str(), list[i].as_str())
        invariant
            i <= list.len(),
            list@ == old(list)@,
            before == texts_view(list@),
            insert_text(before, x@) == before.take(i as int) + insert_text(
                before.skip(i as int),
                x@,
            ),
        decreases list.len() - i,
    {
        let ghost here = before.skip(i as int);
        assert(here.skip(1) =~= before.skip(i + 1));
        assert(here[0] == list@[i as int]@);
        assert(before.take(i as int) + (seq![here[0]] + insert_text(here.skip(1), x@))
            =~= before.take(i + 1) + insert_text(here.skip(1), x@));
        i += 1;
    }
    let ghost here = before.skip(i as int);
    assert(i < list@.len() ==> here[0] == list@[i as int]@);
    assert(here.len() == 0 ==> here =~= Seq::empty());
    assert(insert_text(here, x@) =~= seq![x@] + here);
    list.insert(i, x);
    assert(texts_view(list@) =~= before.take(i as int) + (seq![x@] + here));
}

pub fn sort_texts(list: &Vec<String>) -> (r: Vec<String>)
    ensures
        texts_view(r@) == sorted_texts(texts_view(list@)),
{
    let ghost views = texts_view(list@);
    let mut r: Vec<String> = Vec::new();
    let mut i: usize = 0;
    assert(texts_view(r@) =~= Seq::empty());
    while i < list.len()
        invariant
            i <= list.len(),
            views == texts_view(list@),
            texts_view(r@) == sorted_texts(views.take(i as int)),
        decreases list.len() - i,
    {
        assert(views.take(i + 1).drop_last() =~= views.take(i as int));
        assert(views[i as int] == list@[i as int]@);
        insert_into(&mut r, list[i].clone());
        i += 1;
    }
    assert(views.take(views.len() as int) =~= views);
    r
}

/// The texts without those that equal the one before them.
pub open spec fn dedup(list: Seq<Seq<char>>) -> Seq<Seq<char>>
    decreases list.len(),
{
    if list.len() == 0 {
        Seq::empty()
    } else {
        let before = dedup(list.drop_last());
        if before.len() > 0 && before.last() == list.last() {
            before
        } else {
            before.push(list.last())
        }
    }
}

proof fn lemma_dedup(list: Seq<Seq<char>>)
    requires
        ascending(list),
    ensures
        forall|i: int, j: int|
            0 <= i < j < dedup(list).len() ==> text_less(
                #[trigger] dedup(list)[i],
                #[trigger] dedup(list)[j],
            ),
        forall|t: Seq<char>| #[trigger] dedup(list).contains(t) <==> list.contains(t),
        list.len() > 0 ==> dedup(list).len() > 0 && dedup(list).last() == list.last(),
    decreases list.len(),
{
    if list.len() > 0 {
        let prior = list.drop_last();
        assert forall|i: int, j: int| 0 <= i < j < prior.len() implies !text_less(
            #[trigger] prior[j],
            #[trigger] prior[i],
        ) by {
            assert(prior[i] == list[i] && prior[j] == list[j]);
        }
        lemma_dedup(prior);
        let before = dedup(prior);
        let now = dedup(list);
        let x = list.last();
        assert forall|t: Seq<char>| #[trigger] now.contains(t) <==> list.contains(t) by {
            if list.contains(t) {
                let k = choose|k: int| 0 <= k < list.len() && list[k] == t;
                if k < prior.len() {
                    assert(prior[k] == t);
                    assert(prior.contains(t));
                    assert(before.contains(t));
                    let m = choose|m: int| 0 <= m < before.len() && before[m] == t;
                    assert(now[m] == t);
                } else {
                    assert(now[now.len() - 1] == t);
                }
            }
            if now.contains(t) {
                let m = choose|m: int| 0 <= m < now.len() && now[m] == t;
                if m < before.len() {
                    assert(before[m] == t);
                    assert(before.contains(t));
                    assert(prior.contains(t));
                    let k = choose|k: int| 0 <= k < prior.len() && prior[k] == t;
                    assert(list[k] == t);
                } else {
                    assert(list[list.len() - 1] == t);
                }
            }
        }
        assert forall|i: int, j: int| 0 <= i < j < now.len() implies text_less(
            #[trigger] now[i],
            #[trigger] now[j],
        ) by {
            if j < before.len() {
                assert(now[i] == before[i] && now[j] == before[j]);
            } else {
                assert(now[j] == x);
                assert(now[i] == before[i]);
                assert(before.last() == prior.last());
                assert(prior.last() == list[list.len() - 2]);
                lemma_less_total(before.last(), x);
                assert(text_less(before.last(), x));
                if i < before.len() - 1 {
                    assert(text_less(before[i], before[before.len() - 1]));
                    lemma_less_transitive(before[i], before.last(), x);
                }
            }
        }
    }
}

/// Sorting and dropping repetitions gives each text once, in strictly ascending order.
pub proof fn law_sorted_set(list: Seq<Seq<char>>)
    ensures
        forall|i: int, j: int|
            0 <= i < j < dedup(sorted_texts(list)).len() ==> text_less(
                #[trigger] dedup(sorted_texts(list))[i],
                #[trigger] dedup(sorted_texts(list))[j],
            ),
        forall|t: Seq<char>|
            #[trigger] dedup(sorted_texts(list)).contains(t) <==> list.contains(t),
{
    broadcast use vstd::seq_lib::group_to_multiset_ensures;

    law_sorted_texts(list);
    lemma_dedup(sorted_texts(list));
    assert forall|t: Seq<char>| #[trigger] dedup(sorted_texts(list)).contains(t)
        <==> list.contains(t) by {
        assert(sorted_texts(list).contains(t) <==> sorted_texts(list).to_multiset().count(t) > 0);
        assert(list.contains(t) <==> list.to_multiset().count(t) > 0);
    }
}

pub fn dedup_texts(list: Vec<String>) -> (r: Vec<String>)
    ensures
        texts_view(r@) == dedup(texts_view(list@)),
{
    let ghost views = texts_view(list@);
    let mut r: Vec<String> = Vec::new();
    let mut i: usize = 0;
    assert(texts_view(r@) =~= Seq::empty());
    while i < list.len()
        invariant
            i <= list.len(),
            views == texts_view(list@),
            texts_view(r@) == dedup(views.take(i as int)),
        decreases list.len() - i,
    {
        assert(views.take(i + 1).drop_last() =~= views.take(i as int));
        assert(views[i as int] == list@[i as int]@);
        let ghost before = texts_view(r@);
        assert(before.len() > 0 ==> before.last() == r@.last()@);
        if !(r.len() > 0 && same_text(r[r.len() - 1].as_str(), list[i].as_str())) {
            let text = list[i].clone();
            r.push(text);
            assert(texts_view(r@) =~= before.push(text@));
        }
        i += 1;
    }
    assert(views.take(views.len() as int) =~= views);
    r
}

/// Whether a list holds a text.
pub fn holds_text(list: &Vec<String>, text: &str) -> (r: bool)
    ensures
        r == texts_view(list@).contains(text@),
{
    let ghost views = texts_view(list@);
    let mut i: usize = 0;
    while i < list.len()
        invariant
            i <= list.len(),
            views == texts_view(list@),
            forall|j: int| 0 <= j < i ==> views[j] != text@,
        decreases list.len() - i,
    {
        if same_text(list[i].as_str(), text) {
            assert(views[i as int] == text@);
            return true;
        }
        i += 1;
    }
    false
}

} // verus!
