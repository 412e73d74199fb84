//! A stable merge sort, with the sorted sequence given as a function of the input.

use vstd::prelude::*;

verus! {

/// Values with a view on which a total order is given.
pub trait Ranked: Sized {
    /// What is seen of a value.
    type Key;

    /// What is seen of this value.
    spec fn key(self) -> Self::Key;

    /// Whether `a` may stand before `b`.
    spec fn le(a: Self::Key, b: Self::Key) -> bool;

    proof fn le_total(a: Self::Key, b: Self::Key)
        ensures
            Self::le(a, b) || Self::le(b, a),
    ;

    proof fn le_transitive(a: Self::Key, b: Self::Key, c: Self::Key)
        requires
            Self::le(a, b),
            Self::le(b, c),
        ensures
            Self::le(a, c),
    ;

    fn at_most(&self, other: &Self) -> (r: bool)
        ensures
            r == Self::le(self.key(), other.key()),
    ;
}

/// What is seen of a sequence of values.
pub open spec fn keys<T: Ranked>(s: Seq<T>) -> Seq<T::Key> {
    s.map_values(|x: T| x.key())
}

/// `x` put into `s` behind everything that may stand before it.
pub open spec fn insert<T: Ranked>(s: Seq<T::Key>, x: T::Key) -> Seq<T::Key>
    decreases s.len(),
{
    if s.len() == 0 || T::le(s.last(), x) {
        s.push(x)
    } else {
        insert::<T>(s.drop_last(), x).push(s.last())
    }
}

/// `s` in order; what ranks alike keeps its order.
pub open spec fn sorted<T: Ranked>(s: Seq<T::Key>) -> Seq<T::Key>
    decreases s.len(),
{
    if s.len() == 0 {
        s
    } else {
        insert::<T>(sorted::<T>(s.drop_last()), s.last())
    }
}

/// Whether no element of `s` ranks before an earlier one.
pub open spec fn in_order<T: Ranked>(s: Seq<T::Key>) -> bool {
    forall|i: int, j: int| 0 <= i <= j < s.len() ==> T::le(s[i], s[j])
}

spec fn merged<T: Ranked>(a: Seq<T::Key>, b: Seq<T::Key>) -> Seq<T::Key>
    decreases a.len() + b.len(),
{
    if a.len() == 0 {
        b
    } else if b.len() == 0 {
        a
    } else if T::le(a.last(), b.last()) {
        merged::<T>(a, b.drop_last()).push(b.last())
    } else {
        merged::<T>(a.drop_last(), b).push(a.last())
    }
}

proof fn insert_last<T: Ranked>(s: Seq<T::Key>, x: T::Key)
    ensures
        insert::<T>(s, x).len() == s.len() + 1,
        s.len() == 0 || T::le(s.last(), x) ==> insert::<T>(s, x).last() == x,
        s.len() > 0 && !T::le(s.last(), x) ==> insert::<T>(s, x).last() == s.last(),
    decreases s.len(),
{
    if s.len() > 0 && !T::le(s.last(), x) {
        insert_last::<T>(s.drop_last(), x);
    }
}

proof fn insert_into_merged<T: Ranked>(a: Seq<T::Key>, b: Seq<T::Key>, x: T::Key)
    ensures
        insert::<T>(merged::<T>(a, b), x) == merged::<T>(a, insert::<T>(b, x)),
    decreases a.len() + b.len(),
{
    if a.len() == 0 {
    } else if b.len() == 0 {
        assert(insert::<T>(b, x) == b.push(x));
        assert(b.push(x).drop_last() == b);
        if !T::le(a.last(), x) {
            insert_into_merged::<T>(a.drop_last(), b, x);
            assert(merged::<T>(a.drop_last(), b) == a.drop_last());
        }
    } else {
        let p = a.last();
        let q = b.last();
        insert_last::<T>(b, x);
        if T::le(p, q) {
            assert(merged::<T>(a, b).drop_last() == merged::<T>(a, b.drop_last()));
            if T::le(q, x) {
                T::le_transitive(p, q, x);
                assert(b.push(x).drop_last() == b);
            } else {
                insert_into_merged::<T>(a, b.drop_last(), x);
                assert(insert::<T>(b, x).drop_last() == insert::<T>(b.drop_last(), x));
            }
        } else {
            T::le_total(p, q);
            assert(merged::<T>(a, b).drop_last() == merged::<T>(a.drop_last(), b));
            if T::le(p, x) {
                T::le_transitive(q, p, x);
                assert(b.push(x).drop_last() == b);
            } else {
                insert_into_merged::<T>(a.drop_last(), b, x);
            }
        }
    }
}

proof fn sorted_concat<T: Ranked>(a: Seq<T::Key>, b: Seq<T::Key>)
    ensures
        sorted::<T>(a + b) == merged::<T>(sorted::<T>(a), sorted::<T>(b)),
    decreases b.len(),
{
    if b.len() == 0 {
        assert(a + b == a);
        assert(sorted::<T>(b).len() == 0);
        if sorted::<T>(a).len() == 0 {
            assert(sorted::<T>(b) == sorted::<T>(a));
        }
    } else {
        sorted_concat::<T>(a, b.drop_last());
        assert((a + b).drop_last() == a + b.drop_last());
        insert_into_merged::<T>(sorted::<T>(a), sorted::<T>(b.drop_last()), b.last());
    }
}

/// Sorting keeps the number of elements.
pub proof fn sorted_len<T: Ranked>(s: Seq<T::Key>)
    ensures
        sorted::<T>(s).len() == s.len(),
    decreases s.len(),
{
    if s.len() > 0 {
        sorted_len::<T>(s.drop_last());
        insert_last::<T>(sorted::<T>(s.drop_last()), s.last());
    }
}

/// Sorting keeps the elements.
pub proof fn sorted_same_elements<T: Ranked>(s: Seq<T::Key>)
    ensures
        sorted::<T>(s).to_multiset() == s.to_multiset(),
    decreases s.len(),
{
    broadcast use vstd::seq_lib::group_to_multiset_ensures;

    if s.len() > 0 {
        sorted_same_elements::<T>(s.drop_last());
        insert_same_elements::<T>(sorted::<T>(s.drop_last()), s.last());
        assert(s == s.drop_last().push(s.last()));
    }
}

proof fn insert_same_elements<T: Ranked>(s: Seq<T::Key>, x: T::Key)
    ensures
        insert::<T>(s, x).to_multiset() == s.push(x).to_multiset(),
    decreases s.len(),
{
    broadcast use vstd::seq_lib::group_to_multiset_ensures;

    if s.len() > 0 && !T::le(s.last(), x) {
        insert_same_elements::<T>(s.drop_last(), x);
        assert(s == s.drop_last().push(s.last()));
        assert(s.push(x).to_multiset() =~= s.drop_last().to_multiset().insert(s.last()).insert(x));
        assert(insert::<T>(s, x).to_multiset() =~= s.drop_last().to_multiset().insert(x).insert(
            s.last(),
        ));
    }
}

/// A sorted sequence is in order.
pub proof fn sorted_in_order<T: Ranked>(s: Seq<T::Key>)
    ensures
        in_order::<T>(sorted::<T>(s)),
    decreases s.len(),
{
    if s.len() > 0 {
        sorted_in_order::<T>(s.drop_last());
        insert_in_order::<T>(sorted::<T>(s.drop_last()), s.last());
    }
}

proof fn insert_in_order<T: Ranked>(s: Seq<T::Key>, x: T::Key)
    requires
        in_order::<T>(s),
    ensures
        in_order::<T>(insert::<T>(s, x)),
        forall|i: int|
            0 <= i < insert::<T>(s, x).len() ==> insert::<T>(s, x)[i] == x || s.contains(
                insert::<T>(s, x)[i],
            ),
    decreases s.len(),
{
    T::le_total(x, x);
    let r = insert::<T>(s, x);
    if s.len() == 0 {
    } else if T::le(s.last(), x) {
        assert forall|i: int, j: int| 0 <= i <= j < r.len() implies T::le(r[i], r[j]) by {
            if j == s.len() && i < j {
                T::le_transitive(s[i], s.last(), x);
            }
        }
    } else {
        let t = s.drop_last();
        insert_in_order::<T>(t, x);
        T::le_total(s.last(), x);
        let u = insert::<T>(t, x);
        insert_last::<T>(t, x);
        assert forall|i: int, j: int| 0 <= i <= j < r.len() implies T::le(r[i], r[j]) by {
            if j == u.len() && i < j {
                assert(r[i] == u[i]);
                if u[i] != x {
                    assert(t.contains(u[i]));
                    let k = choose|k: int| 0 <= k < t.len() && t[k] == u[i];
                    assert(T::le(s[k], s[s.len() - 1]));
                }
            } else if i < j {
                assert(T::le(u[i], u[j]));
            } else {
                T::le_total(r[i], r[i]);
            }
        }
        assert forall|i: int| 0 <= i < r.len() implies r[i] == x || s.contains(r[i]) by {
            if i < u.len() {
                assert(r[i] == u[i]);
                if u[i] != x {
                    let k = choose|k: int| 0 <= k < t.len() && t[k] == u[i];
                    assert(s[k] == r[i]);
                }
            } else {
                assert(r[i] == s[s.len() - 1]);
            }
        }
    }
}

/// What is already in order stays as it is.
pub proof fn sorted_of_in_order<T: Ranked>(s: Seq<T::Key>)
    requires
        in_order::<T>(s),
    ensures
        sorted::<T>(s) == s,
    decreases s.len(),
{
    if s.len() > 0 {
        let t = s.drop_last();
        assert forall|i: int, j: int| 0 <= i <= j < t.len() implies T::le(t[i], t[j]) by {
            assert(T::le(s[i], s[j]));
        }
        sorted_of_in_order::<T>(t);
        if t.len() > 0 {
            assert(T::le(s[s.len() - 2], s[s.len() - 1]));
        }
        assert(t.push(s.last()) == s);
    }
}

fn reversed<T: Ranked>(v: Vec<T>) -> (r: Vec<T>)
    ensures
        keys(r@) == keys(v@).reverse(),
{
    let mut rest = v;
    let mut r: Vec<T> = Vec::new();
    let ghost n = v@.len();
    while rest.len() > 0
        invariant
            rest@.len() + r@.len() == n,
            n == v@.len(),
            rest@ == v@.take(rest@.len() as int),
            r@ == v@.skip(rest@.len() as int).reverse(),
        decreases rest@.len(),
    {
        let x = rest.pop().unwrap();
        r.push(x);
    }
    assert(r@ == v@.reverse());
    assert(keys(r@) == keys(v@).reverse());
    r
}

fn merge<T: Ranked>(a: Vec<T>, b: Vec<T>) -> (r: Vec<T>)
    ensures
        keys(r@) == merged::<T>(keys(a@), keys(b@)),
{
    let mut left = a;
    let mut right = b;
    let mut out: Vec<T> = Vec::new();
    let ghost whole = merged::<T>(keys(a@), keys(b@));
    assert(whole == merged::<T>(keys(left@), keys(right@)) + keys(out@).reverse());
    while left.len() > 0 && right.len() > 0
        invariant
            whole == merged::<T>(keys(left@), keys(right@)) + keys(out@).reverse(),
        decreases left@.len() + right@.len(),
    {
        let ghost l = keys(left@);
        let ghost r = keys(right@);
        let ghost o = keys(out@);
        let p = left.pop().unwrap();
        let q = right.pop().unwrap();
        assert(keys(left@) == l.drop_last() && p.key() == l.last());
        assert(keys(right@) == r.drop_last() && q.key() == r.last());
        if p.at_most(&q) {
            left.push(p);
            assert(keys(left@) == l);
            out.push(q);
            assert(keys(out@).reverse() == seq![r.last()] + o.reverse());
        } else {
            right.push(q);
            assert(keys(right@) == r);
            out.push(p);
            assert(keys(out@).reverse() == seq![l.last()] + o.reverse());
        }
    }
    while left.len() > 0
        invariant
            left@.len() == 0 || right@.len() == 0,
            whole == merged::<T>(keys(left@), keys(right@)) + keys(out@).reverse(),
        decreases left@.len(),
    {
        let ghost l = keys(left@);
        let ghost o = keys(out@);
        let p = left.pop().unwrap();
        out.push(p);
        assert(keys(left@) == l.drop_last() && p.key() == l.last());
        assert(keys(out@).reverse() == seq![l.last()] + o.reverse());
        assert(merged::<T>(keys(left@), keys(right@)) == l.drop_last());
    }
    while right.len() > 0
        invariant
            left@.len() == 0,
            whole == merged::<T>(keys(left@), keys(right@)) + keys(out@).reverse(),
        decreases right@.len(),
    {
        let ghost r = keys(right@);
        let ghost o = keys(out@);
        let q = right.pop().unwrap();
        out.push(q);
        assert(keys(right@) == r.drop_last() && q.key() == r.last());
        assert(keys(out@).reverse() == seq![r.last()] + o.reverse());
    }
    assert(whole == keys(out@).reverse());
    reversed(out)
}

/// Sorts `v`; what ranks alike keeps its order.
pub fn sort<T: Ranked>(v: Vec<T>) -> (r: Vec<T>)
    ensures
        keys(r@) == sorted::<T>(keys(v@)),
    decreases v@.len(),
{
    if v.len() <= 1 {
        proof {
            let s = keys(v@);
            if s.len() == 1 {
                assert(s.drop_last().len() == 0);
                assert(sorted::<T>(s.drop_last()).len() == 0);
                assert(insert::<T>(sorted::<T>(s.drop_last()), s.last()) == s);
            }
        }
        return v;
    }
    let mut front = v;
    let half: usize = front.len() / 2;
    let back = front.split_off(half);
    proof {
        sorted_concat::<T>(keys(front@), keys(back@));
        assert(keys(v@) == keys(front@) + keys(back@));
    }
    let a = sort(front);
    let b = sort(back);
    merge(a, b)
}

/// Every element of the sorted sequence is one of the sequence.
pub proof fn sorted_element<T: Ranked>(s: Seq<T::Key>, i: int)
    requires
        0 <= i < sorted::<T>(s).len(),
    ensures
        s.contains(sorted::<T>(s)[i]),
{
    broadcast use vstd::seq_lib::group_to_multiset_ensures;

    sorted_same_elements::<T>(s);
    assert(sorted::<T>(s).contains(sorted::<T>(s)[i]));
    assert(s.to_multiset().contains(sorted::<T>(s)[i]));
}

} // verus!
