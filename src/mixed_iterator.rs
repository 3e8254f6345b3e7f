//! Alternates the items of two sequences, starting with the first, until
//! the sequence whose turn it is runs out.
use vstd::prelude::*;

verus! {

/// An item of the first sequence or of the second.
#[derive(PartialEq, Eq, Debug)]
pub enum MixingIteratorItem<T, K> {
    T(T),
    K(K),
}

/// The alternation of `ts` and `ks`, starting with `ts`, up to the first
/// turn of a sequence that has run out.
pub open spec fn mix<T, K>(ts: Seq<T>, ks: Seq<K>) -> Seq<MixingIteratorItem<T, K>>
    decreases ts.len(),
{
    if ts.len() == 0 {
        seq![]
    } else if ks.len() == 0 {
        seq![MixingIteratorItem::T(ts[0])]
    } else {
        seq![MixingIteratorItem::T(ts[0]), MixingIteratorItem::K(ks[0])] + mix(ts.drop_first(), ks.drop_first())
    }
}

pub struct MixingIterator<T, K> {
    t: Vec<T>,
    k: Vec<K>,
    first: bool,
}

/// A vector in reverse order.
fn reversed<A>(v: Vec<A>) -> (r: Vec<A>)
    ensures
        r@.len() == v@.len(),
        forall|i: int| 0 <= i < v@.len() ==> #[trigger] r@[i] == v@[v@.len() - 1 - i],
{
    let ghost all = v@;
    let mut v = v;
    let mut r: Vec<A> = Vec::new();
    while v.len() > 0
        invariant
            v@.len() + r@.len() == all.len(),
            v@ == all.subrange(0, v@.len() as int),
            forall|i: int| 0 <= i < r@.len() ==> #[trigger] r@[i] == all[all.len() - 1 - i],
        decreases v.len(),
    {
        let x = v.pop().unwrap();
        r.push(x);
        assert(v@ =~= all.subrange(0, v@.len() as int));
    }
    r
}

impl<T, K> MixingIterator<T, K> {
    /// The items of the first sequence not yet given, in order.
    pub closed spec fn rest_t(&self) -> Seq<T> {
        self.t@.reverse()
    }

    /// The items of the second sequence not yet given, in order.
    pub closed spec fn rest_k(&self) -> Seq<K> {
        self.k@.reverse()
    }

    /// It is the first sequence's turn.
    pub closed spec fn t_turn(&self) -> bool {
        self.first
    }

    pub fn new(t: Vec<T>, k: Vec<K>) -> (r: Self)
        ensures
            r.rest_t() == t@,
            r.rest_k() == k@,
            r.t_turn(),
    {
        let ghost t0 = t@;
        let ghost k0 = k@;
        let t = reversed(t);
        let k = reversed(k);
        assert(t@.reverse() =~= t0);
        assert(k@.reverse() =~= k0);
        Self { t, k, first: true }
    }

    /// The next item: from the sequence whose turn it is, or nothing when
    /// that one has run out.
    pub fn next(&mut self) -> (r: Option<MixingIteratorItem<T, K>>)
        ensures
            old(self).t_turn() && old(self).rest_t().len() == 0 ==> r is None && final(self).rest_t() == old(self).rest_t() && final(self).rest_k() == old(self).rest_k() && final(self).t_turn() == old(self).t_turn(),
            old(self).t_turn() && old(self).rest_t().len() > 0 ==> {
                &&& r == Some(MixingIteratorItem::<T, K>::T(old(self).rest_t()[0]))
                &&& final(self).rest_t() == old(self).rest_t().drop_first()
                &&& final(self).rest_k() == old(self).rest_k()
                &&& !final(self).t_turn()
            },
            !old(self).t_turn() && old(self).rest_k().len() == 0 ==> r is None && final(self).rest_t() == old(self).rest_t() && final(self).rest_k() == old(self).rest_k() && final(self).t_turn() == old(self).t_turn(),
            !old(self).t_turn() && old(self).rest_k().len() > 0 ==> {
                &&& r == Some(MixingIteratorItem::<T, K>::K(old(self).rest_k()[0]))
                &&& final(self).rest_k() == old(self).rest_k().drop_first()
                &&& final(self).rest_t() == old(self).rest_t()
                &&& final(self).t_turn()
            },
    {
        if self.first {
            if self.t.len() == 0 {
                return None;
            }
            let t = self.t.pop().unwrap();
            assert(self.t@.reverse() =~= old(self).t@.reverse().drop_first());
            self.first = false;
            Some(MixingIteratorItem::T(t))
        } else {
            if self.k.len() == 0 {
                return None;
            }
            let k = self.k.pop().unwrap();
            assert(self.k@.reverse() =~= old(self).k@.reverse().drop_first());
            self.first = true;
            Some(MixingIteratorItem::K(k))
        }
    }
}

} // verus!
