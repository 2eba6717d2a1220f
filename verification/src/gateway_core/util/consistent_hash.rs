//! Consistent hashing with virtual nodes.
//!
//! The ring maps 64-bit points to buckets. Each bucket is placed at
//! `virtual_nodes` points; a key is served by the first point at or after its
//! own hash, wrapping around to the smallest point.

use std::collections::hash_map::DefaultHasher;
use std::hash::Hash;
use std::hash::Hasher;

use vstd::prelude::*;
use vstd::std_specs::hash::DefaultHasherAdditionalSpecFns;
use vstd::utf8::encode_utf8;

use crate::gateway_core::util::hash::{digest_le_u64, le_u64_prefix, sha256, sha256_digest};

verus! {

/// How many points each bucket gets on the ring by default.
pub const DEFAULT_VIRTUAL_NODES: usize = 150;

/// Feeds `value` into `state` (`Hash::hash`).
///
/// Trusted: nothing is claimed of the bytes written, which depend on the
/// value type's own `Hash` implementation.
#[verifier::external_body]
fn hash_into<T: Hash + ?Sized>(value: &T, state: &mut DefaultHasher) {
    value.hash(state)
}

/// A consistent-hash ring over buckets of type `T`.
pub struct ConsistentHash<T: Clone + Hash + Eq> {
    /// Ring points in strictly increasing order, each with the index of its bucket.
    ring: Vec<(u64, usize)>,
    /// The buckets, in the order they were given.
    nodes: Vec<T>,
    virtual_nodes: usize,
}

/// Ring points are strictly increasing.
pub open spec fn ring_sorted(ring: Seq<(u64, usize)>) -> bool {
    forall|i: int, j: int| 0 <= i < j < ring.len() ==> ring[i].0 < ring[j].0
}

/// The index of the first ring point at or after `h` (the ring's length if none is).
pub open spec fn first_at_or_after(ring: Seq<(u64, usize)>, h: u64) -> int
    decreases ring.len(),
{
    if ring.len() == 0 {
        0
    } else if ring[0].0 >= h {
        0
    } else {
        1 + first_at_or_after(ring.drop_first(), h)
    }
}

/// The bucket index that serves hash `h`: that of the first point at or after
/// `h`, or of the first point of the ring when `h` is past the last one.
pub open spec fn ring_lookup(ring: Seq<(u64, usize)>, h: u64) -> Option<usize> {
    if ring.len() == 0 {
        None
    } else {
        let p = first_at_or_after(ring, h);
        if p < ring.len() {
            Some(ring[p].1)
        } else {
            Some(ring[0].1)
        }
    }
}

/// The ring after placing bucket `idx` at point `key`: a point already there
/// is given the new bucket, otherwise the point is inserted in order.
pub open spec fn ring_insert(ring: Seq<(u64, usize)>, key: u64, idx: usize) -> Seq<(u64, usize)> {
    let p = first_at_or_after(ring, key);
    if p < ring.len() && ring[p].0 == key {
        ring.update(p, (key, idx))
    } else {
        ring.insert(p, (key, idx))
    }
}

/// The ring built by placing, in order, each point `points[k]` for bucket
/// `k / virtual_nodes` (each bucket's virtual nodes one after the other,
/// bucket after bucket); a point placed twice keeps its later bucket.
pub open spec fn build_ring(points: Seq<u64>, virtual_nodes: usize) -> Seq<(u64, usize)>
    decreases points.len(),
{
    if points.len() == 0 {
        Seq::empty()
    } else {
        ring_insert(
            build_ring(points.drop_last(), virtual_nodes),
            points.last(),
            ((points.len() - 1) / (virtual_nodes as int)) as usize,
        )
    }
}

/// The ring hash of a key: the first eight bytes of its SHA-256 digest, little-endian.
pub open spec fn key_hash(key: Seq<char>) -> u64 {
    le_u64_prefix(sha256_digest(encode_utf8(key))) as u64
}

proof fn lemma_first_at_or_after_bounds(ring: Seq<(u64, usize)>, h: u64)
    ensures
        0 <= first_at_or_after(ring, h) <= ring.len(),
        forall|i: int| 0 <= i < first_at_or_after(ring, h) ==> ring[i].0 < h,
        first_at_or_after(ring, h) < ring.len() ==> ring[first_at_or_after(ring, h)].0 >= h,
    decreases ring.len(),
{
    if ring.len() > 0 && ring[0].0 < h {
        lemma_first_at_or_after_bounds(ring.drop_first(), h);
        assert forall|i: int| 0 <= i < first_at_or_after(ring, h) implies ring[i].0 < h by {
            if i > 0 {
                assert(ring[i] == ring.drop_first()[i - 1]);
            }
        }
    }
}

proof fn lemma_first_at_or_after_is(ring: Seq<(u64, usize)>, h: u64, p: int)
    requires
        0 <= p <= ring.len(),
        forall|i: int| 0 <= i < p ==> ring[i].0 < h,
        forall|i: int| p <= i < ring.len() ==> ring[i].0 >= h,
    ensures
        first_at_or_after(ring, h) == p,
    decreases ring.len(),
{
    if ring.len() > 0 && p > 0 {
        let r = ring.drop_first();
        assert forall|i: int| 0 <= i < p - 1 implies r[i].0 < h by {
            assert(r[i] == ring[i + 1]);
        }
        assert forall|i: int| p - 1 <= i < r.len() implies r[i].0 >= h by {
            assert(r[i] == ring[i + 1]);
        }
        lemma_first_at_or_after_is(r, h, p - 1);
    }
}

/// The point of the ring at or after `h`, found by binary search.
fn search(ring: &Vec<(u64, usize)>, h: u64) -> (p: usize)
    requires
        ring_sorted(ring@),
    ensures
        p as int == first_at_or_after(ring@, h),
{
    let mut lo: usize = 0;
    let mut hi: usize = ring.len();
    while lo < hi
        invariant
            0 <= lo <= hi <= ring@.len(),
            ring_sorted(ring@),
            forall|i: int| 0 <= i < lo ==> ring@[i].0 < h,
            forall|i: int| hi <= i < ring@.len() ==> ring@[i].0 >= h,
        decreases hi - lo,
    {
        let mid = lo + (hi - lo) / 2;
        if ring[mid].0 < h {
            lo = mid + 1;
        } else {
            hi = mid;
        }
    }
    proof {
        lemma_first_at_or_after_is(ring@, h, lo as int);
    }
    lo
}

/// Places bucket `idx` at point `key` of a sorted ring.
fn insert_point(ring: &mut Vec<(u64, usize)>, key: u64, idx: usize)
    requires
        ring_sorted(old(ring)@),
    ensures
        final(ring)@ == ring_insert(old(ring)@, key, idx),
        ring_sorted(final(ring)@),
{
    let p = search(ring, key);
    proof {
        lemma_first_at_or_after_bounds(ring@, key);
    }
    if p < ring.len() && ring[p].0 == key {
        ring.set(p, (key, idx));
    } else {
        ring.insert(p, (key, idx));
        assert forall|i: int, j: int| 0 <= i < j < ring@.len() implies ring@[i].0 < ring@[j].0 by {
            let o = old(ring)@;
            if j < p {
            } else if i < p && j == p {
            } else if i < p {
                assert(ring@[j] == o[j - 1]);
            } else if i == p {
                assert(ring@[j] == o[j - 1]);
            } else {
                assert(ring@[j] == o[j - 1]);
                assert(ring@[i] == o[i - 1]);
            }
        }
    }
}

/// The ring hash of a key (see `key_hash`).
pub fn hash_key(key: &str) -> (h: u64)
    ensures
        h == key_hash(key@),
{
    let digest = sha256(key.as_bytes());
    digest_le_u64(&digest)
}

/// The ring point of virtual node `index` of `bucket`, from the standard
/// library's `DefaultHasher` over the bucket and the index: the hasher's
/// `finish` of the writes that hashing the bucket and then the index made.
/// Which bytes those writes hold depends on the bucket type's `Hash`.
pub fn hash_bucket_node<T: Hash>(bucket: &T, index: usize) -> (h: u64)
    ensures
        exists|writes: Seq<Seq<u8>>| h == DefaultHasher::spec_finish(writes),
{
    let mut hasher = DefaultHasher::new();
    hash_into(bucket, &mut hasher);
    hash_into(&index, &mut hasher);
    hasher.finish()
}

impl<T: Clone + Hash + Eq> ConsistentHash<T> {
    /// The ring's points, in increasing order, with their bucket indices.
    pub closed spec fn ring(&self) -> Seq<(u64, usize)> {
        self.ring@
    }

    /// The buckets the ring was built from.
    pub closed spec fn nodes(&self) -> Seq<T> {
        self.nodes@
    }

    /// The number of points per bucket.
    pub closed spec fn spec_virtual_nodes(&self) -> usize {
        self.virtual_nodes
    }

    /// The ring is sorted and every point names one of the buckets.
    #[verifier::type_invariant]
    pub closed spec fn well_formed(&self) -> bool {
        &&& ring_sorted(self.ring@)
        &&& forall|i: int| 0 <= i < self.ring@.len() ==> (#[trigger] self.ring@[i]).1 < self.nodes@.len()
    }

    /// A ring over `buckets` with the default number of virtual nodes.
    pub fn new(buckets: &[T]) -> (res: Self)
        ensures
            ring_sorted(res.ring()),
            forall|i: int| 0 <= i < res.ring().len() ==> (#[trigger] res.ring()[i]).1 < res.nodes().len(),
            res.nodes().len() == buckets@.len(),
            forall|i: int| 0 <= i < buckets@.len() ==> cloned(buckets@[i], #[trigger] res.nodes()[i]),
            res.spec_virtual_nodes() == DEFAULT_VIRTUAL_NODES,
            res.ring().len() <= buckets@.len() * DEFAULT_VIRTUAL_NODES,
            (res.ring().len() == 0) <==> (buckets@.len() == 0),
            exists|points: Seq<u64>|
                points.len() == buckets@.len() * DEFAULT_VIRTUAL_NODES && res.ring()
                    == #[trigger] build_ring(points, DEFAULT_VIRTUAL_NODES),
    {
        Self::with_virtual_nodes(buckets, DEFAULT_VIRTUAL_NODES)
    }

    /// A ring over `buckets` with `virtual_nodes` points per bucket.
    ///
    /// Bucket after bucket, and for each its virtual nodes in order, the
    /// point `hash_bucket_node(bucket, i)` is given to that bucket; a point
    /// that two nodes share goes to the later one (`build_ring`).
    pub fn with_virtual_nodes(buckets: &[T], virtual_nodes: usize) -> (res: Self)
        ensures
            ring_sorted(res.ring()),
            forall|i: int| 0 <= i < res.ring().len() ==> (#[trigger] res.ring()[i]).1 < res.nodes().len(),
            res.nodes().len() == buckets@.len(),
            forall|i: int| 0 <= i < buckets@.len() ==> cloned(buckets@[i], #[trigger] res.nodes()[i]),
            res.spec_virtual_nodes() == virtual_nodes,
            res.ring().len() <= buckets@.len() * virtual_nodes,
            (res.ring().len() == 0) <==> (buckets@.len() == 0 || virtual_nodes == 0),
            exists|points: Seq<u64>|
                points.len() == buckets@.len() * virtual_nodes && res.ring() == #[trigger] build_ring(
                    points,
                    virtual_nodes,
                ),
    {
        let ghost mut pts: Seq<u64> = Seq::empty();
        let mut ring: Vec<(u64, usize)> = Vec::new();
        let mut nodes: Vec<T> = Vec::new();
        let n = buckets.len();
        for b in 0..n
            invariant
                n == buckets@.len(),
                nodes@.len() == b,
                forall|i: int| 0 <= i < b ==> cloned(buckets@[i], #[trigger] nodes@[i]),
                ring_sorted(ring@),
                forall|i: int| 0 <= i < ring@.len() ==> (#[trigger] ring@[i]).1 < b,
                ring@.len() <= b * virtual_nodes,
                (ring@.len() == 0) <==> (b == 0 || virtual_nodes == 0),
                pts.len() == b * virtual_nodes,
                ring@ == build_ring(pts, virtual_nodes),
        {
            let bucket = &buckets[b];
            nodes.push(bucket.clone());
            let ghost before = ring@.len();
            for v in 0..virtual_nodes
                invariant
                    ring_sorted(ring@),
                    forall|i: int| 0 <= i < ring@.len() ==> (#[trigger] ring@[i]).1 <= b,
                    before <= ring@.len() <= before + v,
                    v > 0 ==> ring@.len() > 0,
                    pts.len() == b * virtual_nodes + v,
                    ring@ == build_ring(pts, virtual_nodes),
            {
                let key = hash_bucket_node(bucket, v);
                let ghost old_ring = ring@;
                insert_point(&mut ring, key, b);
                proof {
                    let k = pts.len();
                    assert((b * virtual_nodes + v) / (virtual_nodes as int) == b) by (nonlinear_arith)
                        requires
                            0 <= v < virtual_nodes,
                            0 <= b,
                    ;
                    let grown = pts.push(key);
                    assert(grown.drop_last() =~= pts);
                    assert(build_ring(grown, virtual_nodes) == ring_insert(
                        build_ring(pts, virtual_nodes),
                        key,
                        b,
                    ));
                    pts = grown;
                    lemma_first_at_or_after_bounds(old_ring, key);
                    assert forall|i: int| 0 <= i < ring@.len() implies (#[trigger] ring@[i]).1 <= b by {
                        let p = first_at_or_after(old_ring, key);
                        if p < old_ring.len() && old_ring[p].0 == key {
                            if i != p {
                                assert(ring@[i] == old_ring[i]);
                            }
                        } else {
                            if i < p {
                                assert(ring@[i] == old_ring[i]);
                            } else if i > p {
                                assert(ring@[i] == old_ring[i - 1]);
                            }
                        }
                    }
                }
            }
            proof {
                assert(ring@.len() <= (b + 1) * virtual_nodes) by (nonlinear_arith)
                    requires
                        ring@.len() <= before + virtual_nodes,
                        before <= b * virtual_nodes,
                ;
                assert(b * virtual_nodes + virtual_nodes == (b + 1) * virtual_nodes) by (nonlinear_arith);
            }
        }
        assert(ring@ == build_ring(pts, virtual_nodes));
        ConsistentHash { ring, nodes, virtual_nodes }
    }

    /// The bucket that serves `key`, or `None` when the ring has no points.
    pub fn get(&self, key: &str) -> (res: Option<&T>)
        ensures
            res is Some <==> self.ring().len() > 0,
            res is Some <==> ring_lookup(self.ring(), key_hash(key@)) is Some,
            res matches Some(b) ==> *b == self.nodes()[ring_lookup(
                self.ring(),
                key_hash(key@),
            ).unwrap() as int],
    {
        proof {
            use_type_invariant(self);
        }
        if self.ring.len() == 0 {
            return None;
        }
        let h = hash_key(key);
        let p = search(&self.ring, h);
        let idx = if p < self.ring.len() {
            self.ring[p].1
        } else {
            self.ring[0].1
        };
        Some(&self.nodes[idx])
    }

    /// Whether the ring has no points.
    pub fn is_empty(&self) -> (b: bool)
        ensures
            b == (self.ring().len() == 0),
    {
        self.ring.len() == 0
    }
}

/// A key is always served by the same bucket, and by some bucket whenever
/// the ring has a point.
pub proof fn lemma_lookup_total_and_stable(ring: Seq<(u64, usize)>, key: Seq<char>)
    requires
        ring_sorted(ring),
    ensures
        ring_lookup(ring, key_hash(key)) is Some <==> ring.len() > 0,
        ring_lookup(ring, key_hash(key)) matches Some(i) ==> exists|j: int|
            0 <= j < ring.len() && ring[j].1 == i,
{
    if ring.len() > 0 {
        let p = first_at_or_after(ring, key_hash(key));
        lemma_first_at_or_after_bounds(ring, key_hash(key));
        if p < ring.len() {
            assert(ring[p].1 == ring_lookup(ring, key_hash(key)).unwrap());
        } else {
            assert(ring[0].1 == ring_lookup(ring, key_hash(key)).unwrap());
        }
    }
}

} // verus!
