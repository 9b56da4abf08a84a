//! Splitting buffers of cubes into two, by position or by load.
use vstd::prelude::*;

use crate::tree::{node_load, Cube};

verus! {

/// A buffer that can be empty.
pub trait IsEmpty {
    fn is_empty(&self) -> bool;
}

impl<T> IsEmpty for Vec<T> {
    fn is_empty(&self) -> (r: bool)
        ensures
            r == (self.len() == 0),
    {
        self.len() == 0
    }
}

/// A buffer with a midpoint.
pub trait Midpoint {
    fn midpoint(&self) -> usize;
}

impl<T> Midpoint for Vec<T> {
    /// Half the length, rounded down.
    fn midpoint(&self) -> (r: usize)
        ensures
            r == self.len() / 2,
    {
        self.len() / 2
    }
}

/// A buffer that can be split at an index.
pub trait SplitAt: Sized {
    /// Whether the buffer can be split at `index`.
    spec fn splits_at(&self, index: usize) -> bool;

    fn split_at(self, index: usize) -> (Self, Self)
        requires
            self.splits_at(index),
    ;
}

impl<T> SplitAt for Vec<T> {
    /// A vector splits at any index up to its length.
    open spec fn splits_at(&self, index: usize) -> bool {
        index <= self.len()
    }

    /// The items before `index` and the items from `index` on.
    fn split_at(self, index: usize) -> (r: (Self, Self))
        ensures
            r.0@ == self@.subrange(0, index as int),
            r.1@ == self@.subrange(index as int, self.len() as int),
    {
        let mut left = self;
        let right = left.split_off(index);
        (left, right)
    }
}

/// A buffer with a load: an estimate of the work it holds.
pub trait Load {
    fn load(&self) -> usize;
}

/// The summed loads of a sequence of cubes.
pub open spec fn loads(s: Seq<Cube>) -> int
    decreases s.len(),
{
    if s.len() == 0 {
        0
    } else {
        loads(s.drop_last()) + node_load(s.last().node_spec())
    }
}

/// The load of a buffer: the summed loads, saturated at `usize::MAX`.
pub open spec fn buffer_load(s: Seq<Cube>) -> usize {
    if loads(s) > usize::MAX {
        usize::MAX
    } else {
        loads(s) as usize
    }
}

impl<'a> Load for Vec<Cube<'a>> {
    fn load(&self) -> (r: usize)
        ensures
            r == buffer_load(self@),
    {
        let mut total: usize = 0;
        let mut i: usize = 0;
        while i < self.len()
            invariant
                i <= self.len(),
                total == buffer_load(self@.subrange(0, i as int)),
            decreases self.len() - i,
        {
            proof {
                assert(self@.subrange(0, i + 1).drop_last() =~= self@.subrange(0, i as int));
                lemma_loads_nonnegative(self@.subrange(0, i as int));
            }
            total = total.saturating_add(self[i].load());
            i = i + 1;
        }
        assert(self@.subrange(0, self.len() as int) =~= self@);
        total
    }
}

proof fn lemma_loads_nonnegative(s: Seq<Cube>)
    ensures
        loads(s) >= 0,
    decreases s.len(),
{
    if s.len() > 0 {
        lemma_loads_nonnegative(s.drop_last());
    }
}

/// A buffer that can be split by a `Splitter`.
pub trait SplitBuffer: IsEmpty + Load + Midpoint + SplitAt {

}

impl<T: IsEmpty + Load + Midpoint + SplitAt> SplitBuffer for T {

}

/// How a buffer is split.
#[derive(Clone, Copy, Debug, PartialEq, Eq, Structural)]
pub enum Splitter {
    /// Into the first and the second half.
    Midpoint,
    /// Greedily by load: each cube goes to the side with the smaller load so far.
    Load,
}

/// The greedy split by load: each cube in turn goes to the left unless the
/// left's load exceeds the right's.
pub open spec fn load_split(s: Seq<Cube>) -> (Seq<Cube>, Seq<Cube>)
    decreases s.len(),
{
    if s.len() == 0 {
        (Seq::empty(), Seq::empty())
    } else {
        let (l, r) = load_split(s.drop_last());
        if buffer_load(l) <= buffer_load(r) {
            (l.push(s.last()), r)
        } else {
            (l, r.push(s.last()))
        }
    }
}

/// `None` for an empty buffer.
pub open spec fn non_empty<T>(s: Seq<T>) -> bool {
    s.len() > 0
}

impl Splitter {
    /// Splits a buffer into two; the second part is `None` when it would be
    /// empty.
    pub fn split<'a>(&self, buffer: Vec<Cube<'a>>) -> (r: (Vec<Cube<'a>>, Option<Vec<Cube<'a>>>))
        ensures
            *self == Splitter::Midpoint ==> {
                &&& r.0@ == buffer@.subrange(0, (buffer.len() / 2) as int)
                &&& r.1 is Some <==> buffer.len() / 2 < buffer.len()
                &&& r.1 is Some ==> r.1->0@ == buffer@.subrange(
                    (buffer.len() / 2) as int,
                    buffer.len() as int,
                )
            },
            *self == Splitter::Load ==> {
                &&& r.0@ == load_split(buffer@).0
                &&& r.1 is Some <==> load_split(buffer@).1.len() > 0
                &&& r.1 is Some ==> r.1->0@ == load_split(buffer@).1
            },
    {
        match self {
            Splitter::Midpoint => split_midpoint(buffer),
            Splitter::Load => split_load(buffer),
        }
    }
}

fn split_midpoint<T>(buffer: Vec<T>) -> (r: (Vec<T>, Option<Vec<T>>))
    ensures
        r.0@ == buffer@.subrange(0, (buffer.len() / 2) as int),
        r.1 is Some <==> buffer.len() / 2 < buffer.len(),
        r.1 is Some ==> r.1->0@ == buffer@.subrange((buffer.len() / 2) as int, buffer.len() as int),
{
    let midpoint = Midpoint::midpoint(&buffer);
    let (left, right) = SplitAt::split_at(buffer, midpoint);
    if IsEmpty::is_empty(&right) {
        (left, None)
    } else {
        (left, Some(right))
    }
}

fn split_load<'a>(buffer: Vec<Cube<'a>>) -> (r: (Vec<Cube<'a>>, Option<Vec<Cube<'a>>>))
    ensures
        r.0@ == load_split(buffer@).0,
        r.1 is Some <==> load_split(buffer@).1.len() > 0,
        r.1 is Some ==> r.1->0@ == load_split(buffer@).1,
{
    let mut left: Vec<Cube<'a>> = Vec::new();
    let mut right: Vec<Cube<'a>> = Vec::new();
    let mut i: usize = 0;
    while i < buffer.len()
        invariant
            i <= buffer.len(),
            (left@, right@) == load_split(buffer@.subrange(0, i as int)),
        decreases buffer.len() - i,
    {
        proof {
            assert(buffer@.subrange(0, i + 1).drop_last() =~= buffer@.subrange(0, i as int));
        }
        let cube = buffer[i];
        if left.load() <= right.load() {
            left.push(cube);
        } else {
            right.push(cube);
        }
        i = i + 1;
    }
    assert(buffer@.subrange(0, buffer.len() as int) =~= buffer@);
    if IsEmpty::is_empty(&right) {
        (left, None)
    } else {
        (left, Some(right))
    }
}

} // verus!
