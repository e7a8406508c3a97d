//! The per-creator index of campaign ids: a count and numbered buckets.
use vstd::prelude::*;

use crate::campaigns::{first_pos, remove_first};
use crate::constants::CREATOR_CAMPAIGNS_BUCKET_SIZE;
use crate::state::{
    bucket_in, buckets_for, buckets_in_range, count_in, flat_in, ids_of, Bucket, BucketView, CreatorCount, Model,
    ProofOfHeart,
};
use crate::types::Address;

verus! {

/// Replacing one creator count keeps the counts unique per owner and leaves the others.
pub proof fn lemma_set_creator_count(m: Model, who: Address, count: u32)
    requires
        m.counts_unique(),
    ensures
        ({
            let t = m.set_creator_count(who, count);
            let n = Model { creator_counts: t, ..m };
            &&& forall|j: int, k: int|
                0 <= j < t.len() && 0 <= k < t.len() && j != k ==> (#[trigger] t[j]).owner != (#[trigger] t[k]).owner
            &&& forall|w: Address| #[trigger] n.creator_count(w) == if w == who { count } else { m.creator_count(w) }
            &&& forall|w: Address, i: u32| #[trigger] n.bucket(w, i) == m.bucket(w, i)
        }),
{
    let t = m.set_creator_count(who, count);
    let n = Model { creator_counts: t, ..m };
    let s = m.creator_counts;
    assert forall|w: Address, i: u32| #[trigger] n.bucket(w, i) == m.bucket(w, i) by {
        assert(n.buckets == m.buckets);
        if m.has_bucket(w, i) {
            assert(n.bucket_pos(w, i) == m.bucket_pos(w, i));
        }
    }
    if m.has_creator_count(who) {
        let p = m.creator_count_pos(who);
        assert(s[p].owner == who);
        assert forall|j: int, k: int|
            0 <= j < t.len() && 0 <= k < t.len() && j != k implies (#[trigger] t[j]).owner != (#[trigger] t[k]).owner by {
            if j != p && k != p {
                assert(s[j].owner != s[k].owner);
            } else if j == p {
                assert(s[k].owner != s[p].owner);
            } else {
                assert(s[j].owner != s[p].owner);
            }
        }
        assert forall|w: Address| #[trigger] n.creator_count(w) == if w == who { count } else { m.creator_count(w) } by {
            if w == who {
                assert(t[p].owner == w);
                let q = n.creator_count_pos(w);
                assert(t[q].owner == w);
            } else if m.has_creator_count(w) {
                let q = m.creator_count_pos(w);
                assert(t[q] == s[q]);
                let q2 = n.creator_count_pos(w);
                assert(t[q2].owner == w);
                if q2 != q {
                    assert(s[q2].owner == w);
                }
            } else if n.has_creator_count(w) {
                let q2 = n.creator_count_pos(w);
                assert(s[q2].owner == w);
            }
        }
    } else {
        let last = s.len() as int;
        assert forall|j: int, k: int|
            0 <= j < t.len() && 0 <= k < t.len() && j != k implies (#[trigger] t[j]).owner != (#[trigger] t[k]).owner by {
            if j != last && k != last {
                assert(s[j].owner != s[k].owner);
            } else if j == last {
                assert(s[k].owner != who);
            } else {
                assert(s[j].owner != who);
            }
        }
        assert forall|w: Address| #[trigger] n.creator_count(w) == if w == who { count } else { m.creator_count(w) } by {
            if w == who {
                assert(t[last].owner == w);
                let q = n.creator_count_pos(w);
                assert(t[q].owner == w);
            } else if m.has_creator_count(w) {
                let q = m.creator_count_pos(w);
                assert(t[q] == s[q]);
                let q2 = n.creator_count_pos(w);
                assert(t[q2].owner == w);
                if q2 != q {
                    assert(s[q2].owner == w);
                }
            } else if n.has_creator_count(w) {
                let q2 = n.creator_count_pos(w);
                assert(s[q2].owner == w);
            }
        }
    }
}

/// Replacing one bucket keeps the buckets unique per (owner, index) and leaves the others.
pub proof fn lemma_set_bucket(m: Model, who: Address, index: u32, ids: Seq<u32>)
    requires
        m.buckets_unique(),
    ensures
        ({
            let t = m.set_bucket(who, index, ids);
            let n = Model { buckets: t, ..m };
            &&& forall|j: int, k: int|
                0 <= j < t.len() && 0 <= k < t.len() && j != k ==> !((#[trigger] t[j]).owner == (#[trigger] t[k]).owner
                    && t[j].index == t[k].index)
            &&& forall|w: Address, i: u32| #[trigger] n.bucket(w, i) == if w == who && i == index {
                ids
            } else {
                m.bucket(w, i)
            }
            &&& forall|w: Address| #[trigger] n.creator_count(w) == m.creator_count(w)
        }),
{
    let t = m.set_bucket(who, index, ids);
    let n = Model { buckets: t, ..m };
    let s = m.buckets;
    assert forall|w: Address| #[trigger] n.creator_count(w) == m.creator_count(w) by {
        assert(n.creator_counts == m.creator_counts);
        if m.has_creator_count(w) {
            assert(n.creator_count_pos(w) == m.creator_count_pos(w));
        }
    }
    if m.has_bucket(who, index) {
        let p = m.bucket_pos(who, index);
        assert(s[p].owner == who && s[p].index == index);
        assert forall|j: int, k: int|
            0 <= j < t.len() && 0 <= k < t.len() && j != k implies !((#[trigger] t[j]).owner == (#[trigger] t[k]).owner
                && t[j].index == t[k].index) by {
            if j != p && k != p {
                assert(!(s[j].owner == s[k].owner && s[j].index == s[k].index));
            } else if j == p {
                assert(!(s[k].owner == s[p].owner && s[k].index == s[p].index));
            } else {
                assert(!(s[j].owner == s[p].owner && s[j].index == s[p].index));
            }
        }
        assert forall|w: Address, i: u32| #[trigger] n.bucket(w, i) == if w == who && i == index {
            ids
        } else {
            m.bucket(w, i)
        } by {
            if w == who && i == index {
                assert(t[p].owner == w && t[p].index == i);
                let q = n.bucket_pos(w, i);
                assert(t[q].owner == w && t[q].index == i);
            } else if m.has_bucket(w, i) {
                let q = m.bucket_pos(w, i);
                assert(t[q] == s[q]);
                let q2 = n.bucket_pos(w, i);
                assert(t[q2].owner == w && t[q2].index == i);
                if q2 != q {
                    assert(s[q2].owner == w && s[q2].index == i);
                }
            } else if n.has_bucket(w, i) {
                let q2 = n.bucket_pos(w, i);
                assert(s[q2].owner == w && s[q2].index == i);
            }
        }
    } else {
        let last = s.len() as int;
        assert forall|j: int, k: int|
            0 <= j < t.len() && 0 <= k < t.len() && j != k implies !((#[trigger] t[j]).owner == (#[trigger] t[k]).owner
                && t[j].index == t[k].index) by {
            if j != last && k != last {
                assert(!(s[j].owner == s[k].owner && s[j].index == s[k].index));
            } else if j == last {
                assert(!(s[k].owner == who && s[k].index == index));
            } else {
                assert(!(s[j].owner == who && s[j].index == index));
            }
        }
        assert forall|w: Address, i: u32| #[trigger] n.bucket(w, i) == if w == who && i == index {
            ids
        } else {
            m.bucket(w, i)
        } by {
            if w == who && i == index {
                assert(t[last].owner == w && t[last].index == i);
                let q = n.bucket_pos(w, i);
                assert(t[q].owner == w && t[q].index == i);
            } else if m.has_bucket(w, i) {
                let q = m.bucket_pos(w, i);
                assert(t[q] == s[q]);
                let q2 = n.bucket_pos(w, i);
                assert(t[q2].owner == w && t[q2].index == i);
                if q2 != q {
                    assert(s[q2].owner == w && s[q2].index == i);
                }
            } else if n.has_bucket(w, i) {
                let q2 = n.bucket_pos(w, i);
                assert(s[q2].owner == w && s[q2].index == i);
            }
        }
    }
}

/// Buckets that agree below `nb` give the same ids.
pub proof fn lemma_flat_same(b1: Seq<BucketView>, b2: Seq<BucketView>, who: Address, nb: u32)
    requires
        forall|k: u32| k < nb ==> #[trigger] bucket_in(b1, who, k) == bucket_in(b2, who, k),
    ensures
        flat_in(b1, who, nb) == flat_in(b2, who, nb),
    decreases nb,
{
    if nb > 0 {
        lemma_flat_same(b1, b2, who, (nb - 1) as u32);
        assert(bucket_in(b1, who, (nb - 1) as u32) == bucket_in(b2, who, (nb - 1) as u32));
    }
}

/// Recording one more id for `who` in the bucket its slot count points at
/// appends the id to the ids `who` holds and keeps buckets in range.
pub proof fn lemma_index_append(
    b1: Seq<BucketView>,
    c1: Seq<CreatorCount>,
    b2: Seq<BucketView>,
    c2: Seq<CreatorCount>,
    who: Address,
    id: u32,
)
    requires
        buckets_in_range(b1, c1),
        count_in(c1, who) < u32::MAX,
        forall|w: Address, i: u32| #[trigger] bucket_in(b2, w, i) == if w == who && i == count_in(c1, who)
            / CREATOR_CAMPAIGNS_BUCKET_SIZE {
            bucket_in(b1, who, i).push(id)
        } else {
            bucket_in(b1, w, i)
        },
        forall|w: Address| #[trigger] count_in(c2, w) == if w == who {
            (count_in(c1, who) + 1) as u32
        } else {
            count_in(c1, w)
        },
    ensures
        buckets_in_range(b2, c2),
        forall|w: Address| #[trigger] ids_of(b2, c2, w) == if w == who {
            ids_of(b1, c1, who).push(id)
        } else {
            ids_of(b1, c1, w)
        },
{
    let c = count_in(c1, who);
    let b = c / CREATOR_CAMPAIGNS_BUCKET_SIZE;
    assert(b * CREATOR_CAMPAIGNS_BUCKET_SIZE <= c);
    assert forall|w: Address, i: u32| (#[trigger] bucket_in(b2, w, i)).len() > 0 implies i
        * CREATOR_CAMPAIGNS_BUCKET_SIZE < count_in(c2, w) by {
        if !(w == who && i == b) {
            assert(bucket_in(b1, w, i).len() > 0);
        }
    }
    assert forall|w: Address| #[trigger] ids_of(b2, c2, w) == if w == who {
        ids_of(b1, c1, who).push(id)
    } else {
        ids_of(b1, c1, w)
    } by {
        if w == who {
            let nb = buckets_for(c);
            let nb2 = buckets_for((c + 1) as u32);
            assert forall|k: u32| k < b implies #[trigger] bucket_in(b1, who, k) == bucket_in(b2, who, k) by {}
            lemma_flat_same(b1, b2, who, b);
            if c % CREATOR_CAMPAIGNS_BUCKET_SIZE == 0 {
                assert(nb == b);
                assert(nb2 == b + 1);
                assert(bucket_in(b1, who, b).len() == 0);
                assert(bucket_in(b1, who, b) =~= Seq::<u32>::empty());
                assert(flat_in(b2, who, nb2) == flat_in(b2, who, b) + bucket_in(b2, who, b));
                assert(flat_in(b2, who, nb2) =~= flat_in(b1, who, nb).push(id));
            } else {
                assert(nb == b + 1);
                assert(nb2 == b + 1);
                assert(flat_in(b2, who, nb2) == flat_in(b2, who, b) + bucket_in(b2, who, b));
                assert(flat_in(b1, who, nb) == flat_in(b1, who, b) + bucket_in(b1, who, b));
                assert(flat_in(b2, who, nb2) =~= flat_in(b1, who, nb).push(id));
            }
        } else {
            let nb = buckets_for(count_in(c1, w));
            assert forall|k: u32| k < nb implies #[trigger] bucket_in(b1, w, k) == bucket_in(b2, w, k) by {}
            lemma_flat_same(b1, b2, w, nb);
        }
    }
}

/// Position of the first `x` in `s`, when `s` holds it.
pub proof fn lemma_first_pos_found(s: Seq<u32>, x: u32)
    requires
        s.contains(x),
    ensures
        0 <= first_pos(s, x) < s.len(),
        s[first_pos(s, x)] == x,
    decreases s.len(),
{
    if s[0] != x {
        let t = s.subrange(1, s.len() as int);
        let k = choose|k: int| 0 <= k < s.len() && s[k] == x;
        assert(t[k - 1] == x);
        lemma_first_pos_found(t, x);
    }
}

/// Removing the first `x` keeps every other id.
pub proof fn lemma_remove_first_keeps(s: Seq<u32>, x: u32, y: u32)
    requires
        y != x,
        s.contains(y),
    ensures
        remove_first(s, x).contains(y),
{
    if s.contains(x) {
        lemma_first_pos_found(s, x);
        let p = first_pos(s, x);
        let k = choose|k: int| 0 <= k < s.len() && s[k] == y;
        let r = s.remove(p);
        if k < p {
            assert(r[k] == y);
        } else {
            assert(k != p);
            assert(r[k - 1] == y);
        }
    }
}

/// Taking the first `x` out of one bucket keeps every other id among those held.
pub proof fn lemma_flat_remove_keeps(
    b1: Seq<BucketView>,
    b2: Seq<BucketView>,
    who: Address,
    nb: u32,
    b: u32,
    x: u32,
    y: u32,
)
    requires
        forall|k: u32| k != b ==> #[trigger] bucket_in(b2, who, k) == bucket_in(b1, who, k),
        bucket_in(b2, who, b) == remove_first(bucket_in(b1, who, b), x),
        y != x,
        flat_in(b1, who, nb).contains(y),
    ensures
        flat_in(b2, who, nb).contains(y),
    decreases nb,
{
    let k = (nb - 1) as u32;
    let f1 = flat_in(b1, who, k);
    let f2 = flat_in(b2, who, k);
    let s1 = bucket_in(b1, who, k);
    let s2 = bucket_in(b2, who, k);
    assert(flat_in(b1, who, nb) == f1 + s1);
    assert(flat_in(b2, who, nb) == f2 + s2);
    let j = choose|j: int| 0 <= j < (f1 + s1).len() && (f1 + s1)[j] == y;
    if j < f1.len() {
        assert(f1[j] == y);
        lemma_flat_remove_keeps(b1, b2, who, k, b, x, y);
        let j2 = choose|j2: int| 0 <= j2 < f2.len() && f2[j2] == y;
        assert((f2 + s2)[j2] == y);
    } else {
        assert(s1[j - f1.len()] == y);
        assert(s1.contains(y));
        if k == b {
            lemma_remove_first_keeps(s1, x, y);
        }
        assert(s2.contains(y));
        let j2 = choose|j2: int| 0 <= j2 < s2.len() && s2[j2] == y;
        assert((f2 + s2)[f2.len() + j2] == y);
    }
}

/// Taking the first `x` out of bucket `b` (below `nb`, holding `x`) takes one
/// occurrence of `x` out of the ids in buckets `0..nb`.
pub proof fn lemma_flat_remove_at(b1: Seq<BucketView>, b2: Seq<BucketView>, who: Address, nb: u32, b: u32, x: u32) -> (p: int)
    requires
        b < nb,
        forall|k: u32| k != b ==> #[trigger] bucket_in(b2, who, k) == bucket_in(b1, who, k),
        bucket_in(b2, who, b) == remove_first(bucket_in(b1, who, b), x),
        bucket_in(b1, who, b).contains(x),
    ensures
        0 <= p < flat_in(b1, who, nb).len(),
        flat_in(b1, who, nb)[p] == x,
        flat_in(b2, who, nb) == flat_in(b1, who, nb).remove(p),
    decreases nb,
{
    let k = (nb - 1) as u32;
    let f1 = flat_in(b1, who, k);
    let f2 = flat_in(b2, who, k);
    let s1 = bucket_in(b1, who, k);
    let s2 = bucket_in(b2, who, k);
    assert(flat_in(b1, who, nb) == f1 + s1);
    assert(flat_in(b2, who, nb) == f2 + s2);
    if k == b {
        assert forall|j: u32| j < k implies #[trigger] bucket_in(b1, who, j) == bucket_in(b2, who, j) by {}
        lemma_flat_same(b1, b2, who, k);
        lemma_first_pos_found(s1, x);
        let q = first_pos(s1, x);
        assert(s2 == s1.remove(q));
        let p = f1.len() + q;
        assert((f1 + s1)[p] == x);
        assert(f2 + s2 =~= (f1 + s1).remove(p));
        p
    } else {
        let p = lemma_flat_remove_at(b1, b2, who, k, b, x);
        assert(s2 == s1);
        assert((f1 + s1)[p] == x);
        assert(f2 + s2 =~= (f1 + s1).remove(p));
        p
    }
}

/// No bucket below `nb` holds `x`, so the ids in buckets `0..nb` do not.
pub proof fn lemma_flat_without(bs: Seq<BucketView>, who: Address, nb: u32, x: u32)
    requires
        forall|k: u32| k < nb ==> !(#[trigger] bucket_in(bs, who, k)).contains(x),
    ensures
        !flat_in(bs, who, nb).contains(x),
    decreases nb,
{
    if nb > 0 {
        let k = (nb - 1) as u32;
        lemma_flat_without(bs, who, k, x);
        let f = flat_in(bs, who, k);
        let s = bucket_in(bs, who, k);
        assert(!s.contains(x));
        if (f + s).contains(x) {
            let j = choose|j: int| 0 <= j < (f + s).len() && (f + s)[j] == x;
            if j < f.len() {
                assert(f[j] == x);
            } else {
                assert(s[j - f.len()] == x);
            }
        }
    }
}

impl ProofOfHeart {
    fn find_creator_count(&self, who: Address) -> (r: Option<usize>)
        requires
            self@.counts_unique(),
        ensures
            match r {
                Some(j) => self@.has_creator_count(who) && j == self@.creator_count_pos(who),
                None => !self@.has_creator_count(who),
            },
    {
        let mut i: usize = 0;
        while i < self.creator_counts.len()
            invariant
                self@.counts_unique(),
                i <= self.creator_counts.len(),
                forall|j: int| 0 <= j < i ==> (#[trigger] self.creator_counts@[j]).owner != who,
            decreases self.creator_counts.len() - i,
        {
            if self.creator_counts[i].owner == who {
                proof {
                    let p = self@.creator_count_pos(who);
                    assert(self@.creator_counts[p].owner == who);
                }
                return Some(i);
            }
            i = i + 1;
        }
        None
    }

    /// Number of bucket slots used by `who`.
    pub fn creator_count_of(&self, who: Address) -> (r: u32)
        requires
            self@.counts_unique(),
        ensures
            r == self@.creator_count(who),
    {
        match self.find_creator_count(who) {
            Some(j) => self.creator_counts[j].count,
            None => 0,
        }
    }

    pub fn put_creator_count(&mut self, who: Address, count: u32)
        requires
            old(self)@.counts_unique(),
        ensures
            final(self)@ == (Model { creator_counts: old(self)@.set_creator_count(who, count), ..old(self)@ }),
    {
        match self.find_creator_count(who) {
            Some(j) => {
                self.creator_counts.set(j, CreatorCount { owner: who, count });
            },
            None => {
                self.creator_counts.push(CreatorCount { owner: who, count });
            },
        }
        assert(self@.creator_counts =~= old(self)@.set_creator_count(who, count));
    }

    fn find_bucket(&self, who: Address, index: u32) -> (r: Option<usize>)
        requires
            self@.buckets_unique(),
        ensures
            match r {
                Some(j) => self@.has_bucket(who, index) && j == self@.bucket_pos(who, index),
                None => !self@.has_bucket(who, index),
            },
    {
        let mut i: usize = 0;
        while i < self.buckets.len()
            invariant
                self@.buckets_unique(),
                i <= self.buckets.len(),
                forall|j: int|
                    0 <= j < i ==> !((#[trigger] self@.buckets[j]).owner == who && self@.buckets[j].index == index),
            decreases self.buckets.len() - i,
        {
            if self.buckets[i].owner == who && self.buckets[i].index == index {
                proof {
                    assert(self@.buckets[i as int].owner == who);
                    let p = self@.bucket_pos(who, index);
                    assert(self@.buckets[p].owner == who && self@.buckets[p].index == index);
                }
                return Some(i);
            }
            proof {
                assert(self@.buckets[i as int] == self.buckets@[i as int]@);
            }
            i = i + 1;
        }
        None
    }

    /// The campaign ids in bucket `index` of `who`.
    pub fn bucket_of(&self, who: Address, index: u32) -> (r: Vec<u32>)
        requires
            self@.buckets_unique(),
        ensures
            r@ == self@.bucket(who, index),
    {
        match self.find_bucket(who, index) {
            Some(j) => {
                let ids = self.buckets[j].ids.clone();
                proof {
                    assert(self@.buckets[j as int] == self.buckets@[j as int]@);
                    assert(ids@ =~= self.buckets@[j as int].ids@);
                }
                ids
            },
            None => Vec::new(),
        }
    }

    /// Replaces the ids of bucket `index` of `who`.
    pub fn put_bucket(&mut self, who: Address, index: u32, ids: Vec<u32>)
        requires
            old(self)@.buckets_unique(),
        ensures
            final(self)@ == (Model { buckets: old(self)@.set_bucket(who, index, ids@), ..old(self)@ }),
    {
        let ghost pre = ids@;
        match self.find_bucket(who, index) {
            Some(j) => {
                self.buckets.set(j, Bucket { owner: who, index, ids });
            },
            None => {
                self.buckets.push(Bucket { owner: who, index, ids });
            },
        }
        assert(self@.buckets =~= old(self)@.set_bucket(who, index, pre));
    }
}

} // verus!
