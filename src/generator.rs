use vstd::prelude::*;

verus! {

/// A generator whose field holds one value everywhere.
pub struct UniformNoiseConfig<T> {
    pub val: T,
}

impl<T: Copy> UniformNoiseConfig<T> {
    /// A field of `width * height` samples, each equal to the configured value.
    pub fn get_noise(&self, width: usize, height: usize) -> (r: Vec<T>)
        requires
            width * height <= usize::MAX,
        ensures
            r@.len() == width * height,
            forall|i: int| 0 <= i < r@.len() ==> #[trigger] r@[i] == self.val,
    {
        let n: usize = width * height;
        let mut out: Vec<T> = Vec::with_capacity(n);
        let mut i: usize = 0;
        while i < n
            invariant
                0 <= i <= n,
                out@.len() == i,
                forall|j: int| 0 <= j < i ==> #[trigger] out@[j] == self.val,
            decreases n - i,
        {
            out.push(self.val);
            i = i + 1;
        }
        out
    }
}

} // verus!
