//! The order of texts by the values of their characters.
use crate::text::chars_of;
use crate::split::views;
use vstd::prelude::*;

verus! {

/// Whether `a` stands before `b` in the order of texts: at the first position
/// where they differ it has the smaller character, or it ends there.
pub open spec fn before(a: Seq<char>, b: Seq<char>) -> bool
    decreases b.len(),
{
    if b.len() == 0 {
        false
    } else if a.len() == 0 {
        true
    } else if a[0] != b[0] {
        (a[0] as int) < (b[0] as int)
    } else {
        before(a.drop_first(), b.drop_first())
    }
}

/// Where one text stands relative to another.
#[derive(Clone, Copy, Debug, PartialEq, Eq, Structural)]
pub enum Place {
    Before,
    Same,
    After,
}

/// No text stands before itself.
pub proof fn lemma_before_irreflexive(a: Seq<char>)
    ensures
        !before(a, a),
    decreases a.len(),
{
    if a.len() > 0 {
        lemma_before_irreflexive(a.drop_first());
    }
}

/// The order is transitive.
pub proof fn lemma_before_transitive(a: Seq<char>, b: Seq<char>, c: Seq<char>)
    requires
        before(a, b),
        before(b, c),
    ensures
        before(a, c),
    decreases b.len(),
{
    if a.len() > 0 && a[0] == b[0] && b[0] == c[0] {
        lemma_before_transitive(a.drop_first(), b.drop_first(), c.drop_first());
    }
}

/// Of two different texts one stands before the other.
pub proof fn lemma_before_total(a: Seq<char>, b: Seq<char>)
    ensures
        before(a, b) || a == b || before(b, a),
    decreases a.len(),
{
    if a.len() > 0 && b.len() > 0 && a[0] == b[0] {
        lemma_before_total(a.drop_first(), b.drop_first());
        if a.drop_first() == b.drop_first() {
            assert(a =~= seq![a[0]] + a.drop_first());
            assert(b =~= seq![b[0]] + b.drop_first());
        }
    } else if a.len() == 0 && b.len() == 0 {
        assert(a =~= b);
    }
}

/// Two texts never stand before each other.
pub proof fn lemma_before_asymmetric(a: Seq<char>, b: Seq<char>)
    requires
        before(a, b),
    ensures
        !before(b, a),
        a != b,
{
    lemma_before_irreflexive(a);
    if before(b, a) {
        lemma_before_transitive(a, b, a);
    }
}

/// Compares two texts.
pub fn place(a: &str, b: &str) -> (r: Place)
    ensures
        r == Place::Before <==> before(a@, b@),
        r == Place::Same <==> a@ == b@,
        r == Place::After <==> before(b@, a@),
{
    let x = chars_of(a);
    let y = chars_of(b);
    let mut i: usize = 0;
    proof {
        assert(x@.skip(0) =~= x@);
        assert(y@.skip(0) =~= y@);
    }
    while i < x.len() && i < y.len() && x[i] == y[i]
        invariant
            i <= x@.len(),
            i <= y@.len(),
            x@ == a@,
            y@ == b@,
            forall|j: int| 0 <= j < i ==> x@[j] == y@[j],
            before(a@, b@) == before(x@.skip(i as int), y@.skip(i as int)),
            before(b@, a@) == before(y@.skip(i as int), x@.skip(i as int)),
        decreases x@.len() - i,
    {
        proof {
            assert(x@.skip(i as int).drop_first() =~= x@.skip(i + 1));
            assert(y@.skip(i as int).drop_first() =~= y@.skip(i + 1));
        }
        i = i + 1;
    }
    if i == x.len() && i == y.len() {
        proof {
            assert(x@ =~= y@);
            lemma_before_irreflexive(a@);
        }
        Place::Same
    } else if i == x.len() {
        Place::Before
    } else if i == y.len() {
        Place::After
    } else {
        proof {
            assert(x@.skip(i as int)[0] == x@[i as int]);
            assert(y@.skip(i as int)[0] == y@[i as int]);
        }
        if x[i] < y[i] {
            Place::Before
        } else {
            Place::After
        }
    }
}

/// Whether the texts stand in strictly ascending order.
pub open spec fn ascending(s: Seq<Seq<char>>) -> bool {
    forall|i: int, j: int| 0 <= i < j < s.len() ==> before(#[trigger] s[i], #[trigger] s[j])
}

/// Whether no text stands behind one that it comes before in the order.
pub open spec fn sorted(s: Seq<Seq<char>>) -> bool {
    forall|i: int, j: int| 0 <= i < j < s.len() ==> !before(#[trigger] s[j], #[trigger] s[i])
}

/// A text stands in an ascending list only once.
pub proof fn lemma_ascending_index(s: Seq<Seq<char>>, i: int)
    requires
        ascending(s),
        0 <= i < s.len(),
    ensures
        s.contains(s[i]),
        s.index_of(s[i]) == i,
{
    let j = s.index_of(s[i]);
    assert(s.contains(s[i]));
    assert(s[j] == s[i]);
    lemma_before_irreflexive(s[i]);
    if i < j {
        assert(before(s[i], s[j]));
    } else if j < i {
        assert(before(s[j], s[i]));
    }
}

/// A list of different texts that has one text more than another one is longer by one
/// at most.
pub proof fn lemma_one_more(a: Seq<Seq<char>>, b: Seq<Seq<char>>, x: Seq<char>)
    requires
        ascending(a),
        ascending(b),
        forall|y: Seq<char>| b.contains(y) ==> a.contains(y) || y == x,
    ensures
        b.len() <= a.len() + 1,
{
    assert(a.no_duplicates()) by {
        assert forall|i: int, j: int| 0 <= i < a.len() && 0 <= j < a.len() && i != j implies a[i]
            != a[j] by {
            lemma_ascending_index(a, i);
            lemma_ascending_index(a, j);
        }
    }
    assert(b.no_duplicates()) by {
        assert forall|i: int, j: int| 0 <= i < b.len() && 0 <= j < b.len() && i != j implies b[i]
            != b[j] by {
            lemma_ascending_index(b, i);
            lemma_ascending_index(b, j);
        }
    }
    a.unique_seq_to_set();
    b.unique_seq_to_set();
    let grown = a.to_set().insert(x);
    assert(b.to_set().subset_of(grown)) by {
        assert forall|y: Seq<char>| b.to_set().contains(y) implies grown.contains(y) by {
            assert(b.contains(y));
        }
    }
    vstd::set_lib::lemma_len_subset(b.to_set(), grown);
}

/// A text goes into sorted ones behind those that come before it.
proof fn lemma_sorted_insert(s: Seq<Seq<char>>, i: int, x: Seq<char>)
    requires
        sorted(s),
        0 <= i <= s.len(),
        forall|j: int| 0 <= j < i ==> !before(x, #[trigger] s[j]),
        i < s.len() ==> before(x, s[i]),
    ensures
        sorted(s.insert(i, x)),
        s.insert(i, x).to_multiset() == s.to_multiset().insert(x),
{
    let t = s.insert(i, x);
    assert forall|a: int, b: int| 0 <= a < b < t.len() implies !before(
        #[trigger] t[b],
        #[trigger] t[a],
    ) by {
        if a == i {
            assert(t[b] == s[b - 1]);
            if b - 1 == i {
                lemma_before_asymmetric(x, s[i]);
            } else if before(s[b - 1], x) {
                lemma_before_transitive(s[b - 1], x, s[i]);
                assert(!before(s[b - 1], s[i]));
            }
        } else if b == i {
            assert(t[a] == s[a]);
        } else {
            let oa = if a > i {
                a - 1
            } else {
                a
            };
            let ob = if b > i {
                b - 1
            } else {
                b
            };
            assert(t[a] == s[oa] && t[b] == s[ob]);
        }
    }
    vstd::seq_lib::to_multiset_insert(s, i, x);
}

/// The texts of a list in ascending order.
pub fn sorted_texts(v: &Vec<String>) -> (r: Vec<String>)
    ensures
        sorted(views(r@)),
        views(r@).to_multiset() == views(v@).to_multiset(),
{
    let ghost all = views(v@);
    let mut out: Vec<String> = Vec::new();
    let mut n: usize = 0;
    proof {
        assert(all.take(0) =~= views(out@));
    }
    while n < v.len()
        invariant
            n <= v@.len(),
            all == views(v@),
            sorted(views(out@)),
            views(out@).to_multiset() == all.take(n as int).to_multiset(),
        decreases v@.len() - n,
    {
        let ghost names = views(out@);
        let mut i: usize = 0;
        while i < out.len() && place(&v[n], &out[i]) != Place::Before
            invariant
                i <= out@.len(),
                n < v@.len(),
                names == views(out@),
                forall|j: int| 0 <= j < i ==> !before(v@[n as int]@, #[trigger] names[j]),
            decreases out@.len() - i,
        {
            proof {
                assert(names[i as int] == out@[i as int]@);
            }
            i = i + 1;
        }
        proof {
            if i < out@.len() {
                assert(names[i as int] == out@[i as int]@);
            }
            lemma_sorted_insert(names, i as int, v@[n as int]@);
            vstd::seq_lib::to_multiset_build(all.take(n as int), all[n as int]);
            assert(all.take(n + 1) =~= all.take(n as int).push(all[n as int]));
        }
        out.insert(i, v[n].clone());
        proof {
            assert(views(out@) =~= names.insert(i as int, v@[n as int]@));
        }
        n = n + 1;
    }
    proof {
        assert(all.take(all.len() as int) =~= all);
    }
    out
}

/// The names of a list of named values.
pub open spec fn names_of<V>(v: Seq<(String, V)>) -> Seq<Seq<char>> {
    v.map_values(|e: (String, V)| e.0@)
}

/// The named values of a list in the order of their names.
pub fn sorted_by_name<V>(v: Vec<(String, V)>) -> (r: Vec<(String, V)>)
    ensures
        sorted(names_of(r@)),
        r@.to_multiset() == v@.to_multiset(),
{
    let ghost all = v@;
    let mut rest = v;
    let mut out: Vec<(String, V)> = Vec::new();
    proof {
        assert(all.take(all.len() as int) =~= all);
        assert((all.subrange(all.len() as int, all.len() as int)) =~= out@);
    }
    while rest.len() > 0
        invariant
            rest@ == all.take(rest@.len() as int),
            rest@.len() <= all.len(),
            sorted(names_of(out@)),
            out@.to_multiset() == all.subrange(
                rest@.len() as int,
                all.len() as int,
            ).to_multiset(),
        decreases rest@.len(),
    {
        let ghost k = rest@.len() - 1;
        let item = rest.pop().unwrap();
        let ghost names = names_of(out@);
        let ghost kept = out@;
        let mut i: usize = 0;
        while i < out.len() && place(&item.0, &out[i].0) != Place::Before
            invariant
                i <= out@.len(),
                names == names_of(out@),
                forall|j: int| 0 <= j < i ==> !before(item.0@, #[trigger] names[j]),
            decreases out@.len() - i,
        {
            proof {
                assert(names[i as int] == out@[i as int].0@);
            }
            i = i + 1;
        }
        proof {
            if i < out@.len() {
                assert(names[i as int] == out@[i as int].0@);
            }
            lemma_sorted_insert(names, i as int, item.0@);
            vstd::seq_lib::to_multiset_insert(kept, i as int, item);
            let tail = all.subrange(k + 1, all.len() as int);
            assert(all.subrange(k, all.len() as int) =~= tail.insert(0, item));
            vstd::seq_lib::to_multiset_insert(tail, 0, item);
        }
        out.insert(i, item);
        proof {
            assert(names_of(out@) =~= names.insert(i as int, item.0@));
            assert(rest@ =~= all.take(k));
        }
    }
    proof {
        assert(all.subrange(0, all.len() as int) =~= all);
    }
    out
}

/// There is only one way to bring named values with different names into order.
pub proof fn lemma_sorted_once<V>(a: Seq<(String, V)>, b: Seq<(String, V)>)
    requires
        sorted(names_of(a)),
        sorted(names_of(b)),
        names_of(a).no_duplicates(),
        a.to_multiset() == b.to_multiset(),
    ensures
        a == b,
    decreases a.len(),
{
    broadcast use vstd::seq_lib::group_to_multiset_ensures;

    assert(a.len() == a.to_multiset().len());
    assert(b.len() == b.to_multiset().len());
    if a.len() == 0 {
        assert(a =~= b);
    } else {
        let n = a.len() - 1;
        let x = a[n];
        let y = b[n];
        assert(a.contains(x));
        assert(b.contains(y));
        assert(a.to_multiset().count(x) > 0);
        assert(b.to_multiset().count(y) > 0);
        let j = choose|j: int| 0 <= j < b.len() && b[j] == x;
        let k = choose|k: int| 0 <= k < a.len() && a[k] == y;
        assert(b.contains(x) && a.contains(y));
        if k != n {
            assert(names_of(a)[k] == y.0@ && names_of(a)[n] == x.0@);
            lemma_before_total(x.0@, y.0@);
            assert(!before(names_of(a)[n], names_of(a)[k]));
            if j < n {
                assert(names_of(b)[j] == x.0@ && names_of(b)[n] == y.0@);
                assert(!before(names_of(b)[n], names_of(b)[j]));
            }
        }
        assert(x == y);
        assert(a.remove(n) =~= a.drop_last());
        assert(b.remove(n) =~= b.drop_last());
        let c = a.drop_last();
        let d = b.drop_last();
        assert(c.to_multiset() == d.to_multiset());
        assert forall|i: int, m: int| 0 <= i < m < c.len() implies !before(
            #[trigger] names_of(c)[m],
            #[trigger] names_of(c)[i],
        ) by {
            assert(names_of(c)[m] == names_of(a)[m] && names_of(c)[i] == names_of(a)[i]);
        }
        assert forall|i: int, m: int| 0 <= i < m < d.len() implies !before(
            #[trigger] names_of(d)[m],
            #[trigger] names_of(d)[i],
        ) by {
            assert(names_of(d)[m] == names_of(b)[m] && names_of(d)[i] == names_of(b)[i]);
        }
        assert(names_of(c) =~= names_of(a).drop_last());
        lemma_sorted_once(c, d);
        assert(a =~= c.push(x));
        assert(b =~= d.push(y));
    }
}

/// Dropping some of the named values keeps the others in order.
pub proof fn lemma_sorted_filter<V>(s: Seq<(String, V)>, f: spec_fn((String, V)) -> bool)
    requires
        sorted(names_of(s)),
    ensures
        sorted(names_of(s.filter(f))),
        forall|i: int|
            0 <= i < s.filter(f).len() ==> exists|j: int|
                0 <= j < s.len() && s[j] == #[trigger] s.filter(f)[i],
    decreases s.len(),
{
    reveal(Seq::filter);
    if s.len() > 0 {
        let rest = s.drop_last();
        assert(names_of(rest) =~= names_of(s).drop_last());
        lemma_sorted_filter(rest, f);
        let kept = rest.filter(f);
        let all = s.filter(f);
        assert forall|i: int| 0 <= i < all.len() implies exists|j: int|
            0 <= j < s.len() && s[j] == #[trigger] all[i] by {
            if i < kept.len() {
                assert(all[i] == kept[i]);
                let j = choose|j: int| 0 <= j < rest.len() && rest[j] == kept[i];
                assert(s[j] == all[i]);
            } else {
                assert(s[s.len() - 1] == all[i]);
            }
        }
        assert forall|i: int, m: int| 0 <= i < m < all.len() implies !before(
            #[trigger] names_of(all)[m],
            #[trigger] names_of(all)[i],
        ) by {
            if m < kept.len() {
                assert(names_of(all)[m] == names_of(kept)[m]);
                assert(names_of(all)[i] == names_of(kept)[i]);
            } else {
                assert(all[i] == kept[i]);
                let j = choose|j: int| 0 <= j < rest.len() && rest[j] == kept[i];
                assert(names_of(s)[j] == names_of(all)[i]);
                assert(names_of(s)[s.len() - 1] == names_of(all)[m]);
            }
        }
    }
}

/// What is kept of a sequence depends on what it holds, not on its order.
pub proof fn lemma_filter_multiset<A>(s: Seq<A>, f: spec_fn(A) -> bool)
    ensures
        s.filter(f).to_multiset() == s.to_multiset().filter(f),
    decreases s.len(),
{
    broadcast use {
        vstd::seq_lib::group_to_multiset_ensures,
        vstd::multiset::group_multiset_axioms,
    };

    reveal(Seq::filter);
    if s.len() > 0 {
        let rest = s.drop_last();
        lemma_filter_multiset(rest, f);
        assert(rest.push(s.last()) =~= s);
        assert(s.to_multiset() == rest.to_multiset().insert(s.last()));
        assert(s.filter(f).to_multiset() =~= s.to_multiset().filter(f));
    } else {
        assert(s.filter(f).to_multiset() =~= s.to_multiset().filter(f));
    }
}

} // verus!
