//! A list split into buckets: each item goes to the bucket that an indexer
//! assigns it, and keeps its order of arrival there.
use vstd::prelude::*;

verus! {

/// Assigns every item a bucket.
pub trait Indexer<T> {
    spec fn spec_index(&self, t: T) -> int;

    fn index(&self, t: &T) -> (r: usize)
        ensures
            r == self.spec_index(*t);
}

/// The number of items over all buckets.
pub open spec fn total<T>(buckets: Seq<Seq<T>>) -> nat
    decreases buckets.len(),
{
    if buckets.len() == 0 {
        0
    } else {
        total(buckets.drop_last()) + buckets.last().len()
    }
}

/// Replacing one bucket changes the total by the difference of lengths.
pub proof fn lemma_total_update<T>(buckets: Seq<Seq<T>>, i: int, b: Seq<T>)
    requires
        0 <= i < buckets.len(),
    ensures
        total(buckets.update(i, b)) == total(buckets) - buckets[i].len() + b.len(),
    decreases buckets.len(),
{
    let u = buckets.update(i, b);
    if i == buckets.len() - 1 {
        assert(u.drop_last() =~= buckets.drop_last());
    } else {
        lemma_total_update(buckets.drop_last(), i, b);
        assert(u.drop_last() =~= buckets.drop_last().update(i, b));
    }
}

/// The buckets after `t` is added to bucket `i`.
pub open spec fn push_one<T>(buckets: Seq<Seq<T>>, i: int, t: T) -> Seq<Seq<T>> {
    buckets.update(i, buckets[i].push(t))
}

/// The buckets after the items are added one by one, in order.
pub open spec fn push_all<T, I: Indexer<T>>(ix: I, buckets: Seq<Seq<T>>, items: Seq<T>) -> Seq<Seq<T>>
    decreases items.len(),
{
    if items.len() == 0 {
        buckets
    } else {
        let b = push_all(ix, buckets, items.drop_last());
        push_one(b, ix.spec_index(items.last()), items.last())
    }
}

/// Every item has a bucket among the first `n`.
pub open spec fn all_indexed<T, I: Indexer<T>>(ix: I, items: Seq<T>, n: nat) -> bool {
    forall|k: int| 0 <= k < items.len() ==> 0 <= ix.spec_index(#[trigger] items[k]) < n
}

/// Adding items keeps the number of buckets and adds one to the total for
/// each item.
pub proof fn lemma_push_all<T, I: Indexer<T>>(ix: I, buckets: Seq<Seq<T>>, items: Seq<T>)
    requires
        all_indexed(ix, items, buckets.len()),
    ensures
        push_all(ix, buckets, items).len() == buckets.len(),
        total(push_all(ix, buckets, items)) == total(buckets) + items.len(),
    decreases items.len(),
{
    if items.len() > 0 {
        let rest = items.drop_last();
        assert(all_indexed(ix, rest, buckets.len())) by {
            assert forall|k: int| 0 <= k < rest.len() implies 0 <= ix.spec_index(#[trigger] rest[k]) < buckets.len() by {
                assert(rest[k] == items[k]);
            }
        }
        lemma_push_all(ix, buckets, rest);
        let b = push_all(ix, buckets, rest);
        let i = ix.spec_index(items.last());
        assert(items.last() == items[items.len() - 1]);
        lemma_total_update(b, i, b[i].push(items.last()));
    }
}

/// Every item lies in the bucket its indexer assigns it.
pub open spec fn consistent<T, I: Indexer<T>>(ix: I, buckets: Seq<Seq<T>>) -> bool {
    forall|i: int, k: int|
        0 <= i < buckets.len() && 0 <= k < buckets[i].len() ==> ix.spec_index(
            #[trigger] buckets[i][k],
        ) == i
}

/// Every item of every bucket satisfies `p`.
pub open spec fn all_satisfy<T>(buckets: Seq<Seq<T>>, p: spec_fn(T) -> bool) -> bool {
    forall|i: int, k: int| 0 <= i < buckets.len() && 0 <= k < buckets[i].len() ==> p(#[trigger] buckets[i][k])
}

/// Adding items that satisfy `p` keeps every item in its bucket and every
/// item satisfying `p`.
pub proof fn lemma_push_all_keeps<T, I: Indexer<T>>(
    ix: I,
    buckets: Seq<Seq<T>>,
    items: Seq<T>,
    p: spec_fn(T) -> bool,
)
    requires
        all_indexed(ix, items, buckets.len()),
        consistent(ix, buckets),
        all_satisfy(buckets, p),
        forall|k: int| 0 <= k < items.len() ==> p(#[trigger] items[k]),
    ensures
        consistent(ix, push_all(ix, buckets, items)),
        all_satisfy(push_all(ix, buckets, items), p),
    decreases items.len(),
{
    if items.len() > 0 {
        let rest = items.drop_last();
        assert forall|k: int| 0 <= k < rest.len() implies 0 <= ix.spec_index(#[trigger] rest[k]) < buckets.len() && p(rest[k]) by {
            assert(rest[k] == items[k]);
        }
        lemma_push_all_keeps(ix, buckets, rest, p);
        lemma_push_all(ix, buckets, rest);
        let b = push_all(ix, buckets, rest);
        let t = items.last();
        assert(t == items[items.len() - 1]);
        let i = ix.spec_index(t);
        let b2 = push_one(b, i, t);
        assert forall|a: int, k: int| 0 <= a < b2.len() && 0 <= k < b2[a].len() implies ix.spec_index(
            #[trigger] b2[a][k],
        ) == a && p(b2[a][k]) by {
            if a == i && k == b[a].len() {
                assert(b2[a][k] == t);
            } else {
                assert(b2[a][k] == b[a][k]);
            }
        }
    }
}

/// Items split into buckets by an indexer.
#[derive(Debug)]
pub struct IndexList<T, I> {
    list: Vec<Vec<T>>,
    index: I,
}

impl<T, I: Indexer<T>> IndexList<T, I> {
    /// The buckets.
    pub closed spec fn buckets(&self) -> Seq<Seq<T>> {
        self.list@.map_values(|v: Vec<T>| v@)
    }

    /// The indexer.
    pub closed spec fn indexer(&self) -> I {
        self.index
    }

    /// `capacity` empty buckets.
    pub fn new(capacity: usize, index: I) -> (r: Self)
        ensures
            r.buckets() == Seq::new(capacity as nat, |i: int| Seq::<T>::empty()),
            r.indexer() == index,
    {
        let mut list: Vec<Vec<T>> = Vec::new();
        let mut k: usize = 0;
        while k < capacity
            invariant
                k <= capacity,
                list@.len() == k,
                forall|q: int| 0 <= q < k ==> (#[trigger] list@[q])@ == Seq::<T>::empty(),
            decreases capacity - k,
        {
            list.push(Vec::new());
            k = k + 1;
        }
        let r = Self { list, index };
        assert(r.buckets() =~= Seq::new(capacity as nat, |i: int| Seq::<T>::empty()));
        r
    }

    /// Add `t` at the end of its bucket.
    pub fn push(&mut self, t: T)
        requires
            0 <= old(self).indexer().spec_index(t) < old(self).buckets().len(),
        ensures
            final(self).indexer() == old(self).indexer(),
            final(self).buckets() == push_one(
                old(self).buckets(),
                old(self).indexer().spec_index(t),
                t,
            ),
    {
        let i = self.index.index(&t);
        let mut bucket: Vec<T> = Vec::new();
        self.list.set_and_swap(i, &mut bucket);
        bucket.push(t);
        self.list.set_and_swap(i, &mut bucket);
        assert(self.buckets() =~= push_one(old(self).buckets(), i as int, t));
    }

    /// Take bucket `i` out, leaving it empty.
    pub fn take_list(&mut self, i: usize) -> (r: Vec<T>)
        requires
            i < old(self).buckets().len(),
        ensures
            final(self).indexer() == old(self).indexer(),
            r@ == old(self).buckets()[i as int],
            final(self).buckets() == old(self).buckets().update(i as int, Seq::<T>::empty()),
    {
        let mut bucket: Vec<T> = Vec::new();
        self.list.set_and_swap(i, &mut bucket);
        assert(self.buckets() =~= old(self).buckets().update(i as int, Seq::<T>::empty()));
        bucket
    }

    /// Bucket `i`, to change in place.
    pub fn get_list_mut(&mut self, i: usize) -> (r: &mut Vec<T>)
        requires
            i < old(self).buckets().len(),
        ensures
            r@ == old(self).buckets()[i as int],
            final(self).indexer() == old(self).indexer(),
            final(self).buckets() == old(self).buckets().update(i as int, final(r)@),
    {
        let r = &mut self.list[i];
        r
    }

    /// Bucket `i`.
    pub fn get_list(&self, i: usize) -> (r: &Vec<T>)
        requires
            i < self.buckets().len(),
        ensures
            r@ == self.buckets()[i as int],
    {
        &self.list[i]
    }

    /// Add every item of `items`, in order.
    pub fn append_iter(&mut self, items: Vec<T>)
        requires
            all_indexed(old(self).indexer(), items@, old(self).buckets().len()),
        ensures
            final(self).indexer() == old(self).indexer(),
            final(self).buckets() == push_all(old(self).indexer(), old(self).buckets(), items@),
    {
        let ghost items0 = items@;
        let ghost n = items0.len();
        let mut rev: Vec<T> = Vec::new();
        let mut items = items;
        while items.len() > 0
            invariant
                n == items0.len(),
                items@.len() + rev@.len() == n,
                items@ == items0.subrange(0, items@.len() as int),
                forall|j: int| 0 <= j < rev@.len() ==> #[trigger] rev@[j] == items0[n - 1 - j],
            decreases items.len(),
        {
            let t = items.pop().unwrap();
            rev.push(t);
            assert(items@ =~= items0.subrange(0, items@.len() as int));
        }
        while rev.len() > 0
            invariant
                self.indexer() == old(self).indexer(),
                all_indexed(old(self).indexer(), items0, old(self).buckets().len()),
                n == items0.len(),
                rev@.len() <= n,
                forall|j: int| 0 <= j < rev@.len() ==> #[trigger] rev@[j] == items0[n - 1 - j],
                self.buckets() == push_all(
                    old(self).indexer(),
                    old(self).buckets(),
                    items0.subrange(0, n - rev@.len()),
                ),
            decreases rev.len(),
        {
            let ghost k = n - rev@.len();
            assert(rev@[rev@.len() - 1] == items0[k]);
            let t = rev.pop().unwrap();
            proof {
                assert(all_indexed(old(self).indexer(), items0.subrange(0, k), old(self).buckets().len())) by {
                    assert forall|q: int| 0 <= q < k implies 0 <= old(self).indexer().spec_index(#[trigger] items0.subrange(0, k)[q]) < old(self).buckets().len() by {
                        assert(items0.subrange(0, k)[q] == items0[q]);
                    }
                }
                lemma_push_all(old(self).indexer(), old(self).buckets(), items0.subrange(0, k));
                assert(0 <= old(self).indexer().spec_index(items0[k]));
            }
            self.push(t);
            assert(items0.subrange(0, k + 1).drop_last() =~= items0.subrange(0, k));
            assert(items0.subrange(0, k + 1).last() == items0[k]);
        }
        assert(items0.subrange(0, items0.len() as int) =~= items0);
    }

    /// Move every item of `other` in, in order, leaving `other` empty.
    pub fn append(&mut self, other: &mut Vec<T>)
        requires
            all_indexed(old(self).indexer(), old(other)@, old(self).buckets().len()),
        ensures
            final(self).indexer() == old(self).indexer(),
            final(self).buckets() == push_all(old(self).indexer(), old(self).buckets(), old(other)@),
            final(other)@.len() == 0,
    {
        let mut items: Vec<T> = Vec::new();
        std::mem::swap(other, &mut items);
        self.append_iter(items);
    }

    /// The number of items over all buckets.
    pub fn len(&self) -> (r: usize)
        requires
            total(self.buckets()) <= usize::MAX,
        ensures
            r == total(self.buckets()),
    {
        let mut sum: usize = 0;
        let mut k: usize = 0;
        while k < self.list.len()
            invariant
                k <= self.list@.len(),
                total(self.buckets()) <= usize::MAX,
                sum == total(self.buckets().subrange(0, k as int)),
            decreases self.list.len() - k,
        {
            proof {
                lemma_total_prefix(self.buckets(), k as int + 1);
                assert(self.buckets().subrange(0, k + 1).drop_last() =~= self.buckets().subrange(0, k as int));
            }
            sum = sum + self.list[k].len();
            k = k + 1;
        }
        assert(self.buckets().subrange(0, k as int) =~= self.buckets());
        sum
    }

    pub fn is_empty(&self) -> (r: bool)
        requires
            total(self.buckets()) <= usize::MAX,
        ensures
            r == (total(self.buckets()) == 0),
    {
        self.len() == 0
    }
}

/// A prefix has no more items than the whole.
pub proof fn lemma_total_prefix<T>(buckets: Seq<Seq<T>>, k: int)
    requires
        0 <= k <= buckets.len(),
    ensures
        total(buckets.subrange(0, k)) <= total(buckets),
    decreases buckets.len(),
{
    if k < buckets.len() {
        lemma_total_prefix(buckets.drop_last(), k);
        assert(buckets.drop_last().subrange(0, k) =~= buckets.subrange(0, k));
    } else {
        assert(buckets.subrange(0, k) =~= buckets);
    }
}

/// Bucketing of integers by width: `i` goes to bucket `i / width`.
impl Indexer<usize> for usize {
    open spec fn spec_index(&self, t: usize) -> int {
        if *self == 0 {
            0
        } else {
            t as int / *self as int
        }
    }

    fn index(&self, i: &usize) -> (r: usize) {
        if *self == 0 {
            0
        } else {
            *i / *self
        }
    }
}

} // verus!
