//! Indexing of the points of a sequence of primitives: each point is given
//! the index of the first point with the same key, and each key keeps one
//! point.
use vstd::prelude::*;
use vstd::std_specs::hash::obeys_key_model;
use std::collections::HashMap;
use std::hash::Hash;

use crate::mesh::decompose::{IntoPoints, Points, split_all};
use crate::mesh::primitive::Primitive;

verus! {

broadcast use vstd::std_specs::hash::group_hash_axioms;

/// Indexers that give each key an index of its own, in the order in which
/// the keys are first seen.
pub trait Indexer<P, K>: Sized {
    /// The index of each key seen so far.
    spec fn key_map(&self) -> Map<K, usize>;

    /// The index that the next new key gets.
    spec fn next_index(&self) -> nat;

    /// Whether the indexer is in a state that its methods keep.
    spec fn indexer_wf(&self) -> bool;

    /// Gives the index of the key of `point`, and the point itself where
    /// its key is new.
    fn index<F: Fn(&P) -> K>(&mut self, point: P, f: &F) -> (r: (usize, Option<P>))
        requires
            old(self).indexer_wf(),
            old(self).next_index() < usize::MAX,
            f.requires((&point,)),
        ensures
            final(self).indexer_wf(),
            exists|key: K|
                #![trigger f.ensures((&point,), key)]
                f.ensures((&point,), key) && if old(self).key_map().contains_key(key) {
                    &&& r == (old(self).key_map()[key], None::<P>)
                    &&& final(self).key_map() == old(self).key_map()
                    &&& final(self).next_index() == old(self).next_index()
                } else {
                    &&& r == (old(self).next_index() as usize, Some(point))
                    &&& final(self).key_map() == old(self).key_map().insert(key, r.0)
                    &&& final(self).next_index() == old(self).next_index() + 1
                },
    ;
}

/// An indexer that keeps its keys in a hash map.
pub struct HashIndexer<K> {
    hash: HashMap<K, usize>,
    n: usize,
}

impl<K> HashIndexer<K> {
    /// A fresh indexer that has seen no key.
    pub fn new() -> (r: Self)
        ensures
            r.key_map() == Map::<K, usize>::empty(),
            r.next_index() == 0,
    {
        HashIndexer { hash: HashMap::new(), n: 0 }
    }

    /// The index of each key seen so far.
    pub closed spec fn key_map(&self) -> Map<K, usize> {
        self.hash@
    }

    /// The index that the next new key gets.
    pub closed spec fn next_index(&self) -> nat {
        self.n as nat
    }
}

impl<K> Default for HashIndexer<K> {
    fn default() -> (r: Self)
        ensures
            r.key_map() == Map::<K, usize>::empty(),
            r.next_index() == 0,
    {
        HashIndexer::new()
    }
}

impl<P, K: Eq + Hash> Indexer<P, K> for HashIndexer<K> {
    open spec fn key_map(&self) -> Map<K, usize> {
        HashIndexer::key_map(self)
    }

    open spec fn next_index(&self) -> nat {
        HashIndexer::next_index(self)
    }

    open spec fn indexer_wf(&self) -> bool {
        obeys_key_model::<K>()
    }

    fn index<F: Fn(&P) -> K>(&mut self, point: P, f: &F) -> (r: (usize, Option<P>)) {
        let key = f(&point);
        match self.hash.get(&key) {
            Some(index) => {
                let index = *index;
                (index, None)
            },
            None => {
                let index = self.n;
                self.hash.insert(key, index);
                self.n = index + 1;
                (index, Some(point))
            },
        }
    }
}

/// The key that `f` gives for `p`, where it gives one key for each point.
pub open spec fn key_of<P, K, F: Fn(&P) -> K>(f: F, p: P) -> K {
    choose|key: K| f.ensures((&p,), key)
}

/// Whether `f` gives at most one key for each point.
pub open spec fn gives_one_key<P, K, F: Fn(&P) -> K>(f: F) -> bool {
    forall|p: P, k1: K, k2: K| #[trigger] f.ensures((&p,), k1) && #[trigger] f.ensures((&p,), k2) ==> k1 == k2
}

/// Whether point `j` of `points` is the first point of `input` with its key,
/// and `indices` gives `j` for it.
pub open spec fn is_first_with_key<P, K, F: Fn(&P) -> K>(
    f: F,
    input: Seq<P>,
    indices: Seq<usize>,
    points: Seq<P>,
    j: int,
) -> bool {
    exists|i: int|
        #![trigger indices[i]]
        0 <= i < input.len() && input[i] == points[j] && indices[i] == j && (forall|h: int|
            #![trigger input[h]]
            0 <= h < i ==> key_of(f, input[h]) != key_of(f, input[i]))
}

/// Whether each of `points` is the first point of `input` with its key, and
/// `indices` gives that point's place for it.
pub open spec fn keeps_first_points<P, K, F: Fn(&P) -> K>(
    f: F,
    input: Seq<P>,
    indices: Seq<usize>,
    points: Seq<P>,
) -> bool {
    forall|j: int| 0 <= j < points.len() ==> #[trigger] is_first_with_key(f, input, indices, points, j)
}

/// Whether no point of `input` before point `i` has its key.
pub open spec fn new_key_at<P, K, F: Fn(&P) -> K>(f: F, input: Seq<P>, i: int) -> bool {
    forall|h: int| #![trigger input[h]] 0 <= h < i ==> key_of(f, input[h]) != key_of(f, input[i])
}

/// Whether each point whose key is new gets an index above those of all the
/// points before it: the keys are indexed in the order in which they are
/// first seen.
pub open spec fn indexed_in_first_order<P, K, F: Fn(&P) -> K>(
    f: F,
    input: Seq<P>,
    indices: Seq<usize>,
) -> bool {
    forall|h: int, i: int|
        #![trigger indices[h], indices[i]]
        0 <= h < i < input.len() && new_key_at(f, input, i) ==> indices[h] < indices[i]
}

/// Sequences of primitives whose points can be indexed.
pub trait Index<T: IntoPoints>: Sized {
    /// The primitives of the sequence.
    spec fn primitive_seq(&self) -> Seq<T>;

    /// Gives, for each point of each primitive in order, the index of its
    /// key, and one point for each key, the first with it, in the order in
    /// which the keys were first seen.
    fn index_with_key<K: Eq + Hash, F: Fn(&T::Point) -> K>(self, f: F) -> (r: (
        Vec<usize>,
        Vec<T::Point>,
    ))
        requires
            obeys_key_model::<K>(),
            forall|p: T::Point| #[trigger] f.requires((&p,)),
            gives_one_key(f),
            split_all(|t: T| t.point_seq(), self.primitive_seq()).len() < usize::MAX,
        ensures
            ({
                let input = split_all(|t: T| t.point_seq(), self.primitive_seq());
                let (indices, points) = r;
                &&& indices.len() == input.len()
                &&& points.len() <= input.len()
                &&& forall|i: int|
                    #![trigger input[i]]
                    0 <= i < input.len() ==> f.ensures((&input[i],), key_of(f, input[i]))
                &&& forall|i: int|
                    #![trigger indices[i]]
                    0 <= i < input.len() ==> indices[i] < points.len() && key_of(
                        f,
                        points[indices[i] as int],
                    ) == key_of(f, input[i])
                &&& keeps_first_points(f, input, indices@, points@)
                &&& indexed_in_first_order(f, input, indices@)
                &&& forall|j1: int, j2: int|
                    0 <= j1 < j2 < points.len() ==> key_of(f, #[trigger] points[j1]) != key_of(
                        f,
                        #[trigger] points[j2],
                    )
            }),
    ;

    /// Indexes the points by the points themselves: each point of each
    /// primitive, in order, gets the index of the first equal point, and each
    /// point is kept once, in the order in which the points are first seen.
    fn index(self) -> (r: (Vec<usize>, Vec<T::Point>))
        where
            T::Point: Copy + Eq + Hash,
        requires
            obeys_key_model::<T::Point>(),
            split_all(|t: T| t.point_seq(), self.primitive_seq()).len() < usize::MAX,
        ensures
            ({
                let input = split_all(|t: T| t.point_seq(), self.primitive_seq());
                let (indices, points) = r;
                &&& indices.len() == input.len()
                &&& points.len() <= input.len()
                &&& forall|i: int|
                    #![trigger indices[i]]
                    0 <= i < input.len() ==> indices[i] < points.len() && points[indices[i] as int]
                        == input[i]
                &&& forall|j1: int, j2: int|
                    0 <= j1 < j2 < points.len() ==> #[trigger] points[j1] != #[trigger] points[j2]
                &&& forall|h: int, i: int|
                    #![trigger indices[h], indices[i]]
                    0 <= h < i < input.len() && (forall|g: int|
                        #![trigger input[g]]
                        0 <= g < i ==> input[g] != input[i]) ==> indices[h] < indices[i]
            }),
    ;
}

impl<T: IntoPoints> Index<T> for Vec<T> {
    open spec fn primitive_seq(&self) -> Seq<T> {
        self@
    }

    #[verifier::rlimit(40)]
    fn index_with_key<K: Eq + Hash, F: Fn(&T::Point) -> K>(self, f: F) -> (r: (
        Vec<usize>,
        Vec<T::Point>,
    )) {
        let ghost input = split_all(|t: T| t.point_seq(), self@);
        let mut rest = self.points();
        let mut indexer: HashIndexer<K> = HashIndexer::new();
        let mut indices: Vec<usize> = Vec::new();
        let mut points: Vec<T::Point> = Vec::new();
        while rest.len() > 0
            invariant
                input.len() < usize::MAX,
                obeys_key_model::<K>(),
                forall|p: T::Point| #[trigger] f.requires((&p,)),
                gives_one_key(f),
                indices.len() <= input.len(),
                rest@ == input.subrange(indices.len() as int, input.len() as int),
                points.len() <= indices.len(),
                indexer.next_index() == points.len(),
                forall|i: int|
                    0 <= i < indices.len() ==> f.ensures((&input[i],), key_of(f, input[i])),
                forall|i: int|
                    #![trigger indices[i]]
                    0 <= i < indices.len() ==> indices[i] < points.len() && key_of(
                        f,
                        points[indices[i] as int],
                    ) == key_of(f, input[i]),
                forall|i: int|
                    0 <= i < indices.len() ==> indexer.key_map().contains_key(
                        #[trigger] key_of(f, input[i]),
                    ),
                forall|k: K|
                    #[trigger] indexer.key_map().contains_key(k) ==> indexer.key_map()[k]
                        < points.len() && key_of(f, points[indexer.key_map()[k] as int]) == k,
                forall|j: int|
                    #![trigger points[j]]
                    0 <= j < points.len() ==> indexer.key_map().contains_key(key_of(f, points[j]))
                        && indexer.key_map()[key_of(f, points[j])] == j,
                forall|j: int|
                    #![trigger points[j]]
                    0 <= j < points.len() ==> exists|i: int|
                        0 <= i < indices.len() && input[i] == points[j] && indices[i] == j && (
                        forall|h: int| 0 <= h < i ==> key_of(f, input[h]) != key_of(f, input[i])),
                forall|h: int, i: int|
                    #![trigger indices[h], indices[i]]
                    0 <= h < i < indices.len() && new_key_at(f, input, i) ==> indices[h] < indices[i],
            decreases rest.len(),
        {
            let ghost c = indices.len() as int;
            let ghost old_map = indexer.key_map();
            let ghost old_points = points@;
            let point = rest.remove(0);
            assert(point == input[c]);
            let (index, new_point) = Indexer::<T::Point, K>::index(&mut indexer, point, &f);
            let ghost key = key_of(f, input[c]);
            assert(f.ensures((&input[c],), key));
            indices.push(index);
            match new_point {
                Some(p) => {
                    points.push(p);
                    proof {
                        assert(!old_map.contains_key(key));
                        assert(points@ == old_points.push(input[c]));
                        assert forall|j: int|
                            #![trigger points[j]]
                            0 <= j < points.len() implies exists|i: int|
                                0 <= i < indices.len() && input[i] == points[j] && indices[i] == j
                                && (forall|h: int|
                                0 <= h < i ==> key_of(f, input[h]) != key_of(f, input[i])) by {
                            if j == c || j == old_points.len() {
                                if j == old_points.len() {
                                    assert(indices[c] == j);
                                    assert forall|h: int| 0 <= h < c implies key_of(f, input[h])
                                        != key_of(f, input[c]) by {
                                        assert(old_map.contains_key(key_of(f, input[h])));
                                    }
                                }
                            }
                            if j < old_points.len() {
                                assert(old_points[j] == points[j]);
                            }
                        }
                    }
                },
                None => {
                    proof {
                        assert(old_map.contains_key(key));
                        assert(points@ == old_points);
                    }
                },
            }
            assert(rest@ =~= input.subrange(indices.len() as int, input.len() as int));
        }
        assert(indices.len() == input.len());
        assert forall|j1: int, j2: int| 0 <= j1 < j2 < points.len() implies key_of(
            f,
            #[trigger] points[j1],
        ) != key_of(f, #[trigger] points[j2]) by {
            assert(indexer.key_map()[key_of(f, points[j1])] == j1);
            assert(indexer.key_map()[key_of(f, points[j2])] == j2);
        }
        assert forall|j: int| 0 <= j < points.len() implies #[trigger] is_first_with_key(
            f,
            input,
            indices@,
            points@,
            j,
        ) by {
            let i = choose|i: int|
                0 <= i < indices.len() && input[i] == points[j] && indices[i] == j && (forall|h: int|
                    0 <= h < i ==> key_of(f, input[h]) != key_of(f, input[i]));
            assert(indices@[i] == j);
        }
        (indices, points)
    }

    fn index(self) -> (r: (Vec<usize>, Vec<T::Point>))
        where
            T::Point: Copy + Eq + Hash,
    {
        let key = |p: &T::Point| -> (k: T::Point)
            ensures
                k == *p,
            { *p };
        let ghost input = split_all(|t: T| t.point_seq(), self@);
        let r = self.index_with_key(key);
        proof {
            let indices = r.0@;
            let points = r.1@;
            assert forall|j: int| 0 <= j < points.len() implies key_of(key, #[trigger] points[j])
                == points[j] by {
                assert(is_first_with_key(key, input, indices, points, j));
                let i = choose|i: int|
                    #![trigger indices[i]]
                    0 <= i < input.len() && input[i] == points[j] && indices[i] == j && (forall|h: int|
                        #![trigger input[h]]
                        0 <= h < i ==> key_of(key, input[h]) != key_of(key, input[i]));
                assert(key.ensures((&input[i],), key_of(key, input[i])));
            }
            assert forall|i: int| 0 <= i < input.len() implies #[trigger] points[indices[i] as int]
                == input[i] by {
                assert(key.ensures((&input[i],), key_of(key, input[i])));
                assert(r.0[i] == indices[i]);
            }
            assert forall|h: int, i: int|
                #![trigger indices[h], indices[i]]
                0 <= h < i < input.len() && (forall|g: int|
                    #![trigger input[g]]
                    0 <= g < i ==> input[g] != input[i]) implies indices[h] < indices[i] by {
                assert(key.ensures((&input[i],), key_of(key, input[i])));
                assert forall|g: int| #![trigger input[g]] 0 <= g < i implies key_of(key, input[g])
                    != key_of(key, input[i]) by {
                    assert(key.ensures((&input[g],), key_of(key, input[g])));
                }
                assert(new_key_at(key, input, i));
            }
        }
        r
    }
}

} // verus!
