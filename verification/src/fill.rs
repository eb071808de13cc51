use vstd::prelude::*;

verus! {

/// Vectors that can be built, or extended, as a run of copies of one value.
///
/// The CHIP-8 state is a handful of fixed-size byte and word arrays; this
/// trait gives `Vec` the two constructors the machine needs to lay them out
/// zeroed (or set to any other fill byte).
pub trait FillableVector<T>: View<V = Seq<T>> where T: Copy {
    /// A vector of exactly `size` copies of `value`.
    fn with_filled_capacity(size: usize, value: T) -> (r: Vec<T>)
        ensures
            r@ == Seq::new(size as nat, |i: int| value),
    ;

    /// Append `limit` copies of `value` to the vector.
    fn fill(&mut self, limit: usize, value: T)
        ensures
            final(self)@ == old(self)@ + Seq::new(limit as nat, |i: int| value),
    ;
}

impl<T: Copy> FillableVector<T> for Vec<T> {
    fn with_filled_capacity(size: usize, value: T) -> (r: Vec<T>) {
        let mut filled_vec: Vec<T> = Vec::with_capacity(size);
        filled_vec.fill(size, value);

        filled_vec
    }

    fn fill(&mut self, limit: usize, value: T) {
        let mut count: usize = 0;
        while count < limit
            invariant
                count <= limit,
                self@ == old(self)@ + Seq::new(count as nat, |i: int| value),
            decreases limit - count,
        {
            self.push(value);
            count = count + 1;
            proof {
                assert(self@ =~= old(self)@ + Seq::new(count as nat, |i: int| value));
            }
        }
        proof {
            assert(self@ =~= old(self)@ + Seq::new(limit as nat, |i: int| value));
        }
    }
}

} // verus!
