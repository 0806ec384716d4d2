//! List operations shared by the rest of the library: filtering, searching,
//! mapping and stable sorting of vectors, stated over deep views.
use vstd::prelude::*;

verus! {

/// Position of the first element of `s` that satisfies `p`.
pub open spec fn first_index<V>(s: Seq<V>, p: spec_fn(V) -> bool) -> Option<int>
    decreases s.len(),
{
    if s.len() == 0 {
        None
    } else if p(s[0]) {
        Some(0)
    } else {
        match first_index(s.drop_first(), p) {
            Some(i) => Some(i + 1),
            None => None,
        }
    }
}

/// First element of `s` that satisfies `p`.
pub open spec fn first_where<V>(s: Seq<V>, p: spec_fn(V) -> bool) -> Option<V> {
    match first_index(s, p) {
        Some(i) => Some(s[i]),
        None => None,
    }
}

/// The elements of `s` without the later copies of an element that already occurred.
pub open spec fn distinct<V>(s: Seq<V>) -> Seq<V>
    decreases s.len(),
{
    if s.len() == 0 {
        s
    } else {
        let init = distinct(s.drop_last());
        if init.contains(s.last()) {
            init
        } else {
            init.push(s.last())
        }
    }
}

/// `s` with `x` placed behind every element that may precede it.
pub open spec fn insert_ordered<V>(s: Seq<V>, x: V, le: spec_fn(V, V) -> bool) -> Seq<V>
    decreases s.len(),
{
    if s.len() == 0 || le(s.last(), x) {
        s.push(x)
    } else {
        insert_ordered(s.drop_last(), x, le).push(s.last())
    }
}

/// The elements of `s` in the order of `le`; elements that `le` ranks equal keep
/// the order they had.
pub open spec fn stable_sort<V>(s: Seq<V>, le: spec_fn(V, V) -> bool) -> Seq<V>
    decreases s.len(),
{
    if s.len() == 0 {
        s
    } else {
        insert_ordered(stable_sort(s.drop_last(), le), s.last(), le)
    }
}

/// `le` ranks any two values and is transitive.
pub open spec fn ranks<V>(le: spec_fn(V, V) -> bool) -> bool {
    &&& forall|a: V, b: V| #![trigger le(a, b)] le(a, b) || le(b, a)
    &&& forall|a: V, b: V, c: V| #![trigger le(a, b), le(b, c)] le(a, b) && le(b, c) ==> le(a, c)
}

/// `s` is in the order of `le`.
pub open spec fn ordered<V>(s: Seq<V>, le: spec_fn(V, V) -> bool) -> bool {
    forall|i: int, j: int| #![trigger s[i], s[j]] 0 <= i < j < s.len() ==> le(s[i], s[j])
}

pub proof fn lemma_first_index<V>(s: Seq<V>, p: spec_fn(V) -> bool)
    ensures
        match first_index(s, p) {
            Some(i) => 0 <= i < s.len() && p(s[i]) && forall|j: int| 0 <= j < i ==> !p(#[trigger] s[j]),
            None => forall|j: int| 0 <= j < s.len() ==> !p(#[trigger] s[j]),
        },
    decreases s.len(),
{
    if s.len() > 0 && !p(s[0]) {
        lemma_first_index(s.drop_first(), p);
        let rest = s.drop_first();
        assert forall|j: int| 0 < j < s.len() implies s[j] == rest[j - 1] by {}
        match first_index(rest, p) {
            Some(i) => {
                assert forall|j: int| 0 <= j < i + 1 implies !p(#[trigger] s[j]) by {
                    if j > 0 {
                        assert(s[j] == rest[j - 1]);
                    }
                }
            },
            None => {
                assert forall|j: int| 0 <= j < s.len() implies !p(#[trigger] s[j]) by {
                    if j > 0 {
                        assert(s[j] == rest[j - 1]);
                    }
                }
            },
        }
    }
}

/// A position that satisfies `p` and has none before it is the first one.
pub proof fn lemma_first_index_is<V>(s: Seq<V>, p: spec_fn(V) -> bool, i: int)
    requires
        0 <= i < s.len(),
        p(s[i]),
        forall|j: int| 0 <= j < i ==> !p(#[trigger] s[j]),
    ensures
        first_index(s, p) == Some(i),
{
    lemma_first_index(s, p);
}

pub proof fn lemma_insert_ordered<V>(s: Seq<V>, x: V, le: spec_fn(V, V) -> bool)
    ensures
        insert_ordered(s, x, le).to_multiset() == s.to_multiset().insert(x),
        insert_ordered(s, x, le).len() == s.len() + 1,
        ranks(le) && ordered(s, le) ==> ordered(insert_ordered(s, x, le), le),
    decreases s.len(),
{
    broadcast use vstd::seq_lib::group_to_multiset_ensures;

    if s.len() == 0 || le(s.last(), x) {
        if ranks(le) && ordered(s, le) {
            let t = s.push(x);
            assert forall|i: int, j: int| #![trigger t[i], t[j]] 0 <= i < j < t.len() implies le(t[i], t[j]) by {
                if j == s.len() {
                    if i < s.len() - 1 {
                        assert(le(s[i], s[s.len() - 1]));
                    }
                    assert(le(t[i], t[j]));
                }
            }
        }
    } else {
        let init = s.drop_last();
        lemma_insert_ordered(init, x, le);
        assert(init.push(s.last()) =~= s);
        let t = insert_ordered(init, x, le);
        assert(t.push(s.last()).to_multiset() =~= s.to_multiset().insert(x));
        if ranks(le) && ordered(s, le) {
            assert(le(x, s.last()));
            let u = t.push(s.last());
            assert forall|k: int| 0 <= k < t.len() implies le(#[trigger] t[k], s.last()) by {
                assert(t.to_multiset().count(t[k]) > 0) by {
                    assert(t.contains(t[k]));
                }
                if t[k] != x {
                    assert(init.to_multiset().count(t[k]) > 0);
                    assert(init.contains(t[k]));
                    let m = choose|m: int| 0 <= m < init.len() && init[m] == t[k];
                    assert(le(s[m], s[s.len() - 1]));
                }
            }
            assert(ordered(u, le));
        }
    }
}

/// A stable sort keeps the elements and, for an order that ranks any two values,
/// returns them in that order.
pub proof fn lemma_stable_sort<V>(s: Seq<V>, le: spec_fn(V, V) -> bool)
    ensures
        stable_sort(s, le).to_multiset() == s.to_multiset(),
        stable_sort(s, le).len() == s.len(),
        ranks(le) ==> ordered(stable_sort(s, le), le),
    decreases s.len(),
{
    broadcast use vstd::seq_lib::group_to_multiset_ensures;

    if s.len() > 0 {
        lemma_stable_sort(s.drop_last(), le);
        lemma_insert_ordered(stable_sort(s.drop_last(), le), s.last(), le);
        assert(s.drop_last().push(s.last()) =~= s);
    }
}

/// A list that is in order already is left as it is.
pub proof fn lemma_stable_sort_of_ordered<V>(s: Seq<V>, le: spec_fn(V, V) -> bool)
    requires
        ordered(s, le),
    ensures
        stable_sort(s, le) == s,
    decreases s.len(),
{
    if s.len() > 0 {
        lemma_stable_sort_of_ordered(s.drop_last(), le);
        if s.len() > 1 {
            assert(le(s[s.len() - 2], s[s.len() - 1]));
        }
        assert(s.drop_last().push(s.last()) =~= s);
    }
}

/// A list without repetitions holds each element of the source and no other.
pub proof fn lemma_distinct<V>(s: Seq<V>)
    ensures
        distinct(s).no_duplicates(),
        forall|x: V| #![auto] distinct(s).contains(x) <==> s.contains(x),
        distinct(s).len() <= s.len(),
    decreases s.len(),
{
    if s.len() > 0 {
        lemma_distinct(s.drop_last());
        let init = s.drop_last();
        assert(init.push(s.last()) =~= s);
        assert forall|x: V| #![auto] distinct(s).contains(x) <==> s.contains(x) by {
            broadcast use vstd::seq_lib::lemma_seq_contains_after_push;

            assert(init.push(s.last()).contains(x) <==> init.contains(x) || x == s.last()) by {
                if init.contains(x) {
                    let k = choose|k: int| 0 <= k < init.len() && init[k] == x;
                    assert(init.push(s.last())[k] == x);
                }
                if x == s.last() {
                    assert(init.push(s.last())[init.len() as int] == x);
                }
            }
            if distinct(s).contains(x) {
                let k = choose|k: int| 0 <= k < distinct(s).len() && distinct(s)[k] == x;
                if k < distinct(init).len() {
                    assert(distinct(init)[k] == x);
                    assert(distinct(init).contains(x));
                }
            }
            if distinct(init).contains(x) {
                let k = choose|k: int| 0 <= k < distinct(init).len() && distinct(init)[k] == x;
                assert(distinct(s)[k] == x);
            }
            if x == s.last() && !distinct(init).contains(x) {
                assert(distinct(s)[distinct(init).len() as int] == x);
            }
        }
    }
}

/// A list without repetitions is its own distinct form.
pub proof fn lemma_distinct_of_no_duplicates<V>(s: Seq<V>)
    requires
        s.no_duplicates(),
    ensures
        distinct(s) == s,
    decreases s.len(),
{
    if s.len() > 0 {
        let init = s.drop_last();
        lemma_distinct_of_no_duplicates(init);
        assert(!init.contains(s.last())) by {
            if init.contains(s.last()) {
                let k = choose|k: int| 0 <= k < init.len() && init[k] == s.last();
                assert(s[k] == s[s.len() - 1]);
            }
        }
        assert(init.push(s.last()) =~= s);
    }
}

/// To keep what two tests accept is to apply one after the other.
pub proof fn lemma_filter_twice<V>(s: Seq<V>, p: spec_fn(V) -> bool, q: spec_fn(V) -> bool, both: spec_fn(V) -> bool)
    requires
        forall|x: V| #[trigger] both(x) == (p(x) && q(x)),
    ensures
        s.filter(p).filter(q) == s.filter(both),
    decreases s.len(),
{
    reveal(Seq::filter);
    if s.len() > 0 {
        let init = s.drop_last();
        lemma_filter_twice(init, p, q, both);
        let front = init.filter(p);
        assert(both(s.last()) == (p(s.last()) && q(s.last())));
        assert(front.push(s.last()).drop_last() =~= front);
    }
}

/// A test that accepts everything keeps everything.
pub proof fn lemma_filter_all<V>(s: Seq<V>, p: spec_fn(V) -> bool)
    requires
        forall|i: int| 0 <= i < s.len() ==> p(#[trigger] s[i]),
    ensures
        s.filter(p) == s,
    decreases s.len(),
{
    reveal(Seq::filter);
    if s.len() > 0 {
        let init = s.drop_last();
        assert forall|i: int| 0 <= i < init.len() implies p(#[trigger] init[i]) by {
            assert(init[i] == s[i]);
        }
        lemma_filter_all(init, p);
        assert(p(s[s.len() - 1]));
        assert(init.push(s.last()) =~= s);
    }
}

/// Takes the contents out of a list, leaving it empty.
pub(crate) fn take_list<T>(items: &mut Vec<T>) -> (taken: Vec<T>)
    ensures
        taken == *old(items),
        final(items)@ == Seq::<T>::empty(),
{
    let mut taken: Vec<T> = Vec::new();
    std::mem::swap(&mut taken, items);
    taken
}

/// The elements of `items` that `keep` accepts, in their order.
pub(crate) fn retain_where<T: DeepView, F: Fn(&T) -> bool>(
    items: Vec<T>,
    keep: F,
    Ghost(spec_keep): Ghost<spec_fn(T::V) -> bool>,
) -> (kept: Vec<T>)
    requires
        forall|x: &T| call_requires(keep, (x,)),
        forall|x: &T, b: bool| call_ensures(keep, (x,), b) ==> b == spec_keep(x.deep_view()),
    ensures
        kept.deep_view() == items.deep_view().filter(spec_keep),
{
    let ghost all = items.deep_view();
    let ghost raw = items@;
    let mut kept: Vec<T> = Vec::new();
    proof {
        assert(all.take(0).filter(spec_keep) =~= Seq::<T::V>::empty()) by {
            reveal(Seq::filter);
        }
    }
    for item in iter: items.into_iter()
        invariant
            all.len() == raw.len(),
            forall|i: int| 0 <= i < raw.len() ==> all[i] == #[trigger] raw[i].deep_view(),
            iter.seq() == raw,
            kept.deep_view() == all.take(iter.index() as int).filter(spec_keep),
            forall|x: &T| call_requires(keep, (x,)),
            forall|x: &T, b: bool| call_ensures(keep, (x,), b) ==> b == spec_keep(x.deep_view()),
    {
        let ghost n = iter.index() as int;
        let ghost before = kept.deep_view();
        assert(item == raw[n]);
        proof {
            assert(all.take(n + 1).drop_last() =~= all.take(n));
            reveal(Seq::filter);
        }
        if keep(&item) {
            kept.push(item);
            assert(kept.deep_view() =~= before.push(item.deep_view()));
        }
    }
    assert(all.take(all.len() as int) =~= all);
    kept
}

/// `items` with `f` applied to each element.
pub(crate) fn map_each<T: DeepView, U: DeepView, F: Fn(T) -> U>(
    items: Vec<T>,
    f: F,
    Ghost(spec_f): Ghost<spec_fn(T::V) -> U::V>,
) -> (mapped: Vec<U>)
    requires
        forall|x: T| call_requires(f, (x,)),
        forall|x: T, y: U| call_ensures(f, (x,), y) ==> y.deep_view() == spec_f(x.deep_view()),
    ensures
        mapped.deep_view() == items.deep_view().map_values(spec_f),
{
    let ghost raw = items@;
    let mut mapped: Vec<U> = Vec::new();
    for item in iter: items.into_iter()
        invariant
            iter.seq() == raw,
            mapped.len() == iter.index(),
            forall|i: int| 0 <= i < mapped.len() ==> (#[trigger] mapped[i]).deep_view() == spec_f(raw[i].deep_view()),
            forall|x: T| call_requires(f, (x,)),
            forall|x: T, y: U| call_ensures(f, (x,), y) ==> y.deep_view() == spec_f(x.deep_view()),
    {
        assert(item == raw[iter.index() as int]);
        mapped.push(f(item));
    }
    assert(mapped.deep_view() =~= items.deep_view().map_values(spec_f));
    mapped
}

/// Position of the first element that `test` accepts.
pub(crate) fn position_where<T: DeepView, F: Fn(&T) -> bool>(
    items: &Vec<T>,
    test: F,
    Ghost(spec_test): Ghost<spec_fn(T::V) -> bool>,
) -> (found: Option<usize>)
    requires
        forall|x: &T| call_requires(test, (x,)),
        forall|x: &T, b: bool| call_ensures(test, (x,), b) ==> b == spec_test(x.deep_view()),
    ensures
        match found {
            Some(i) => i < items.len() && spec_test(items[i as int].deep_view()) && first_index(
                items.deep_view(),
                spec_test,
            ) == Some(i as int),
            None => first_index(items.deep_view(), spec_test) is None,
        },
{
    let ghost all = items.deep_view();
    let mut i: usize = 0;
    while i < items.len()
        invariant
            i <= items.len(),
            all == items.deep_view(),
            forall|j: int| 0 <= j < i ==> !spec_test(#[trigger] all[j]),
            forall|x: &T| call_requires(test, (x,)),
            forall|x: &T, b: bool| call_ensures(test, (x,), b) ==> b == spec_test(x.deep_view()),
        decreases items.len() - i,
    {
        if test(&items[i]) {
            proof {
                assert(all[i as int] == items[i as int].deep_view());
                lemma_first_index_is(all, spec_test, i as int);
            }
            return Some(i);
        }
        assert(all[i as int] == items[i as int].deep_view());
        i += 1;
    }
    proof {
        lemma_first_index(all, spec_test);
    }
    None
}

/// Whether `test` accepts some element.
pub(crate) fn any_where<T: DeepView, F: Fn(&T) -> bool>(
    items: &Vec<T>,
    test: F,
    Ghost(spec_test): Ghost<spec_fn(T::V) -> bool>,
) -> (found: bool)
    requires
        forall|x: &T| call_requires(test, (x,)),
        forall|x: &T, b: bool| call_ensures(test, (x,), b) ==> b == spec_test(x.deep_view()),
    ensures
        found == items.deep_view().any(spec_test),
{
    let found = position_where(items, test, Ghost(spec_test));
    proof {
        lemma_first_index(items.deep_view(), spec_test);
    }
    found.is_some()
}

/// Whether `test` accepts every element.
pub(crate) fn all_where<T: DeepView, F: Fn(&T) -> bool>(
    items: &Vec<T>,
    test: F,
    Ghost(spec_test): Ghost<spec_fn(T::V) -> bool>,
) -> (every: bool)
    requires
        forall|x: &T| call_requires(test, (x,)),
        forall|x: &T, b: bool| call_ensures(test, (x,), b) ==> b == spec_test(x.deep_view()),
    ensures
        every == items.deep_view().all(spec_test),
{
    let ghost all = items.deep_view();
    let mut i: usize = 0;
    while i < items.len()
        invariant
            i <= items.len(),
            all == items.deep_view(),
            forall|j: int| 0 <= j < i ==> spec_test(#[trigger] all[j]),
            forall|x: &T| call_requires(test, (x,)),
            forall|x: &T, b: bool| call_ensures(test, (x,), b) ==> b == spec_test(x.deep_view()),
        decreases items.len() - i,
    {
        assert(all[i as int] == items[i as int].deep_view());
        if !test(&items[i]) {
            return false;
        }
        i += 1;
    }
    true
}

/// Places `item` behind every element that may precede it.
fn place_ordered<T: DeepView, F: Fn(&T, &T) -> bool>(
    items: &mut Vec<T>,
    item: T,
    le: &F,
    Ghost(spec_le): Ghost<spec_fn(T::V, T::V) -> bool>,
)
    requires
        forall|x: &T, y: &T| call_requires(*le, (x, y)),
        forall|x: &T, y: &T, b: bool| call_ensures(*le, (x, y), b) ==> b == spec_le(x.deep_view(), y.deep_view()),
    ensures
        final(items).deep_view() == insert_ordered(old(items).deep_view(), item.deep_view(), spec_le),
{
    let ghost before = items.deep_view();
    let ghost x = item.deep_view();
    let mut at: usize = items.len();
    assert(before.take(before.len() as int) =~= before);
    assert(before.skip(before.len() as int) =~= Seq::<T::V>::empty());
    assert(insert_ordered(before, x, spec_le) =~= insert_ordered(before, x, spec_le) + Seq::<T::V>::empty());
    while at > 0 && !le(&items[at - 1], &item)
        invariant
            at <= items.len(),
            before == items.deep_view(),
            x == item.deep_view(),
            insert_ordered(before, x, spec_le) == insert_ordered(before.take(at as int), x, spec_le) + before.skip(
                at as int,
            ),
            forall|x: &T, y: &T| call_requires(*le, (x, y)),
            forall|x: &T, y: &T, b: bool|
                call_ensures(*le, (x, y), b) ==> b == spec_le(x.deep_view(), y.deep_view()),
        ensures
            at <= items.len(),
            at == 0 || spec_le(before[at - 1], x),
            insert_ordered(before, x, spec_le) == insert_ordered(before.take(at as int), x, spec_le) + before.skip(
                at as int,
            ),
        decreases at,
    {
        proof {
            let front = before.take(at as int);
            assert(front.last() == before[at - 1]);
            assert(front.drop_last() =~= before.take(at - 1));
            assert(insert_ordered(before.take(at - 1), x, spec_le).push(front.last()) + before.skip(at as int)
                =~= insert_ordered(before.take(at - 1), x, spec_le) + before.skip(at - 1));
        }
        at -= 1;
    }
    assert(at > 0 ==> before.take(at as int).last() == before[at - 1]);
    items.insert(at, item);
    assert(items.deep_view() =~= before.take(at as int).push(x) + before.skip(at as int));
}

/// The elements of `items` in the order of `le`, equal ones in the order they had.
pub(crate) fn sort_stable<T: DeepView, F: Fn(&T, &T) -> bool>(
    items: Vec<T>,
    le: F,
    Ghost(spec_le): Ghost<spec_fn(T::V, T::V) -> bool>,
) -> (sorted: Vec<T>)
    requires
        forall|x: &T, y: &T| call_requires(le, (x, y)),
        forall|x: &T, y: &T, b: bool| call_ensures(le, (x, y), b) ==> b == spec_le(x.deep_view(), y.deep_view()),
    ensures
        sorted.deep_view() == stable_sort(items.deep_view(), spec_le),
{
    let ghost all = items.deep_view();
    let ghost raw = items@;
    let mut sorted: Vec<T> = Vec::new();
    for item in iter: items.into_iter()
        invariant
            all.len() == raw.len(),
            forall|i: int| 0 <= i < raw.len() ==> all[i] == #[trigger] raw[i].deep_view(),
            iter.seq() == raw,
            sorted.deep_view() == stable_sort(all.take(iter.index() as int), spec_le),
            forall|x: &T, y: &T| call_requires(le, (x, y)),
            forall|x: &T, y: &T, b: bool|
                call_ensures(le, (x, y), b) ==> b == spec_le(x.deep_view(), y.deep_view()),
    {
        let ghost n = iter.index() as int;
        assert(item == raw[n]);
        assert(all.take(n + 1).drop_last() =~= all.take(n));
        place_ordered(&mut sorted, item, &le, Ghost(spec_le));
    }
    assert(all.take(all.len() as int) =~= all);
    sorted
}

} // verus!
