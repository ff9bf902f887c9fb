//! The scratch-memory provider for the hot loops of this crate.
//!
//! A `Workspace` is an arena of scalars consumed in stack (LIFO) order: a
//! routine takes a temporary matrix from the top of the arena, uses it, and
//! gives it back before returning, so a top-level caller can size one arena
//! once — with the pure `required_scalars` sizing function — and no routine
//! allocates independently in its hot path. Taking more than the remaining
//! capacity is a precondition violation, never a recoverable error. The
//! contents of a freshly taken matrix are unspecified: callers overwrite
//! them before reading.

use vstd::prelude::*;

use crate::field::Field;
use crate::mat::Mat;

verus! {

/// A stack-discipline arena of scalars backing temporary matrices.
pub struct Workspace<T> {
    /// The scalars not currently lent out.
    pub buf: Vec<T>,
}

/// The scalars needed to hold `count` scratch matrices of `nrows * ncols`
/// entries each.
pub open spec fn sp_required_scalars(nrows: int, ncols: int, count: int) -> int {
    nrows * ncols * count
}

/// The scalars needed to hold `count` scratch matrices of `nrows * ncols`
/// entries each: the pure sizing function callers compose to size one arena
/// for a whole call tree.
pub fn required_scalars(nrows: usize, ncols: usize, count: usize) -> (r: usize)
    requires
        nrows * ncols <= usize::MAX,
        nrows * ncols * count <= usize::MAX,
    ensures
        r == sp_required_scalars(nrows as int, ncols as int, count as int),
{
    let rc = nrows * ncols;
    rc * count
}

impl<T: Field> Workspace<T> {
    /// How many scalars remain available.
    pub open spec fn sp_capacity(self) -> int {
        self.buf@.len() as int
    }

    /// An arena with `capacity` scalars available.
    pub fn with_capacity(capacity: usize) -> (r: Workspace<T>)
        ensures
            r.sp_capacity() == capacity,
    {
        let mut buf: Vec<T> = Vec::new();
        let mut c: usize = 0;
        while c < capacity
            invariant
                c <= capacity,
                buf@.len() == c,
            decreases capacity - c,
        {
            buf.push(T::zero());
            c = c + 1;
        }
        Workspace { buf }
    }

    /// Take a scratch matrix from the top of the arena. Its entries are
    /// unspecified; the caller overwrites them. The arena shrinks by the
    /// matrix's size until `give_back` returns it.
    pub fn take_mat(&mut self, nrows: usize, ncols: usize) -> (m: Mat<T>)
        requires
            nrows * ncols <= old(self).sp_capacity(),
        ensures
            m.wf(),
            m.sp_nrows() == nrows,
            m.sp_ncols() == ncols,
            final(self).sp_capacity() == old(self).sp_capacity() - nrows * ncols,
    {
        proof {
            assert(self.buf.len() == self.buf@.len());
        }
        let total = nrows * ncols;
        let mut data: Vec<T> = Vec::new();
        let mut c: usize = 0;
        while c < total
            invariant
                c <= total,
                total == nrows * ncols,
                total <= old(self).sp_capacity(),
                data@.len() == c,
                self.buf@.len() == old(self).sp_capacity() - c,
            decreases total - c,
        {
            let x = match self.buf.pop() {
                Option::Some(x) => x,
                Option::None => T::zero(),
            };
            data.push(x);
            c = c + 1;
        }
        Mat { data, nrows, ncols }
    }

    /// Return a matrix's scalars to the arena, growing it back by the
    /// matrix's size.
    pub fn give_back(&mut self, m: Mat<T>)
        requires
            m.wf(),
            old(self).sp_capacity() + m.sp_nrows() * m.sp_ncols() <= usize::MAX,
        ensures
            final(self).sp_capacity() == old(self).sp_capacity() + m.sp_nrows() * m.sp_ncols(),
    {
        let mut m = m;
        self.buf.append(&mut m.data);
    }
}

} // verus!
