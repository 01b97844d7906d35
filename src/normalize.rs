use vstd::prelude::*;

verus! {

/// `ord` is a strict weak order: irreflexive, transitive, and with incomparability
/// transitive (whenever `a` is below `c`, any `b` is above `a` or below `c`).
pub open spec fn strict_weak_order<T>(ord: spec_fn(T, T) -> bool) -> bool {
    &&& forall|a: T| !#[trigger] ord(a, a)
    &&& forall|a: T, b: T, c: T| #[trigger] ord(a, b) && #[trigger] ord(b, c) ==> ord(a, c)
    &&& forall|a: T, b: T, c: T|
        #![trigger ord(a, c), ord(b, c)]
        #![trigger ord(a, c), ord(a, b)]
        ord(a, c) ==> ord(a, b) || ord(b, c)
}

/// Every answer that `less` gives on a pair is the one `ord` gives.
pub open spec fn decided_by<T, L: Fn(T, T) -> bool>(less: L, ord: spec_fn(T, T) -> bool) -> bool {
    forall|a: T, b: T, r: bool| less.ensures((a, b), r) ==> r == ord(a, b)
}

/// `less` may be called on any pair and answers as some strict weak order does.
pub open spec fn order_comparator<T, L: Fn(T, T) -> bool>(less: L) -> bool {
    &&& forall|a: T, b: T| less.requires((a, b))
    &&& exists|ord: spec_fn(T, T) -> bool| strict_weak_order(ord) && #[trigger] decided_by(less, ord)
}

/// `f` gives one result for each argument triple.
pub open spec fn deterministic3<A, B, C, R, F: Fn(A, B, C) -> R>(f: F) -> bool {
    forall|a: A, b: B, c: C, r1: R, r2: R| f.ensures((a, b, c), r1) && f.ensures((a, b, c), r2) ==> r1 == r2
}

/// `lo` is the first least sample of `s` and `hi` its first greatest, as recorded
/// by answers of `less`: no sample is below `s[lo]`, every earlier one is above it;
/// no sample is above `s[hi]`, every earlier one is below it.
pub open spec fn recorded_extremes<T, L: Fn(T, T) -> bool>(s: Seq<T>, less: L, lo: int, hi: int) -> bool {
    &&& 0 <= lo < s.len()
    &&& 0 <= hi < s.len()
    &&& forall|j: int| 0 <= j < s.len() ==> less.ensures((#[trigger] s[j], s[lo]), false)
    &&& forall|j: int| 0 <= j < s.len() ==> less.ensures((s[hi], #[trigger] s[j]), false)
    &&& forall|j: int| 0 <= j < lo ==> less.ensures((s[lo], #[trigger] s[j]), true)
    &&& forall|j: int| 0 <= j < hi ==> less.ensures((#[trigger] s[j], s[hi]), true)
}

/// `r` is `vec` normalized: each sample rescaled between the first least and first
/// greatest samples where the least is below the greatest, zero everywhere otherwise.
pub open spec fn normalizes<T, L: Fn(T, T) -> bool, S: Fn(T, T, T) -> T>(vec: Seq<T>, less: L, rescale: S, zero: T, r: NormalizedField<T>) -> bool {
    &&& r@.len() == vec.len()
    &&& vec.len() == 0 ==> r is Constant
    &&& vec.len() > 0 ==> exists|lo: int, hi: int| #[trigger] recorded_extremes(vec, less, lo, hi)
        && (r is Scaled ==> less.ensures((vec[lo], vec[hi]), true)
            && forall|i: int| 0 <= i < vec.len() ==> rescale.ensures((vec[i], vec[lo], vec[hi]), #[trigger] r@[i]))
        && (r is Constant ==> less.ensures((vec[lo], vec[hi]), false))
    &&& r is Constant ==> forall|i: int| 0 <= i < r@.len() ==> #[trigger] r@[i] == zero
}

/// A normalized field. A field whose minimum is not below its maximum (a constant
/// field, or an empty one) has no range to rescale: it is reported as `Constant`
/// and holds zero everywhere.
pub enum NormalizedField<T> {
    Scaled(Vec<T>),
    Constant(Vec<T>),
}

impl<T> NormalizedField<T> {
    pub open spec fn view(&self) -> Seq<T> {
        match self {
            NormalizedField::Scaled(v) => v@,
            NormalizedField::Constant(v) => v@,
        }
    }

    /// The samples, whichever way they were produced.
    pub fn into_vec(self) -> (r: Vec<T>)
        ensures
            r@ == self@,
    {
        match self {
            NormalizedField::Scaled(v) => v,
            NormalizedField::Constant(v) => v,
        }
    }
}

/// Normalization is a function: over a comparator that a strict weak order decides
/// and a rescale that gives one result for each input, a field has one normalized form.
pub proof fn lemma_normalize_deterministic<T, L: Fn(T, T) -> bool, S: Fn(T, T, T) -> T>(
    vec: Seq<T>,
    less: L,
    rescale: S,
    zero: T,
    r1: NormalizedField<T>,
    r2: NormalizedField<T>,
)
    requires
        order_comparator(less),
        deterministic3(rescale),
        normalizes(vec, less, rescale, zero, r1),
        normalizes(vec, less, rescale, zero, r2),
    ensures
        r1@ == r2@,
        r1 is Scaled <==> r2 is Scaled,
{
    if vec.len() > 0 {
        let (lo1, hi1) = choose|lo: int, hi: int| #[trigger] recorded_extremes(vec, less, lo, hi)
            && (r1 is Scaled ==> less.ensures((vec[lo], vec[hi]), true)
                && forall|i: int| 0 <= i < vec.len() ==> rescale.ensures((vec[i], vec[lo], vec[hi]), #[trigger] r1@[i]))
            && (r1 is Constant ==> less.ensures((vec[lo], vec[hi]), false));
        let (lo2, hi2) = choose|lo: int, hi: int| #[trigger] recorded_extremes(vec, less, lo, hi)
            && (r2 is Scaled ==> less.ensures((vec[lo], vec[hi]), true)
                && forall|i: int| 0 <= i < vec.len() ==> rescale.ensures((vec[i], vec[lo], vec[hi]), #[trigger] r2@[i]))
            && (r2 is Constant ==> less.ensures((vec[lo], vec[hi]), false));
        if lo1 < lo2 {
            assert(less.ensures((vec[lo2], vec[lo1]), true));
            assert(less.ensures((vec[lo2], vec[lo1]), false));
        }
        if lo2 < lo1 {
            assert(less.ensures((vec[lo1], vec[lo2]), true));
            assert(less.ensures((vec[lo1], vec[lo2]), false));
        }
        if hi1 < hi2 {
            assert(less.ensures((vec[hi1], vec[hi2]), true));
            assert(less.ensures((vec[hi1], vec[hi2]), false));
        }
        if hi2 < hi1 {
            assert(less.ensures((vec[hi2], vec[hi1]), true));
            assert(less.ensures((vec[hi2], vec[hi1]), false));
        }
        assert(lo1 == lo2 && hi1 == hi2);
        assert(r1@ =~= r2@);
    }
}

/// Finds the first least and first greatest samples of `vec` and maps each sample
/// `v` to `rescale(v, min, max)`, the linear min-max rescale `(v - min) / (max - min)`.
/// Where the minimum is not below the maximum, every sample becomes `zero`.
pub fn normalize<T: Copy, L: Fn(T, T) -> bool, S: Fn(T, T, T) -> T>(vec: &Vec<T>, less: &L, rescale: &S, zero: T) -> (r: NormalizedField<T>)
    requires
        order_comparator(*less),
        forall|v: T, lo: T, hi: T| rescale.requires((v, lo, hi)),
    ensures
        normalizes(vec@, *less, *rescale, zero, r),
{
    let n = vec.len();
    if n == 0 {
        return NormalizedField::Constant(Vec::new());
    }
    let ghost ord = choose|ord: spec_fn(T, T) -> bool| strict_weak_order(ord) && decided_by(*less, ord);
    let mut lo: usize = 0;
    let mut hi: usize = 0;
    let mut i: usize = 1;
    while i < n
        invariant
            order_comparator(*less),
            strict_weak_order(ord),
            decided_by(*less, ord),
            n == vec@.len(),
            1 <= i <= n,
            0 <= lo < i,
            0 <= hi < i,
            forall|j: int| 0 <= j < i ==> !ord(#[trigger] vec@[j], vec@[lo as int]),
            forall|j: int| 0 <= j < i ==> !ord(vec@[hi as int], #[trigger] vec@[j]),
            forall|j: int| 0 <= j < lo ==> ord(vec@[lo as int], #[trigger] vec@[j]),
            forall|j: int| 0 <= j < hi ==> ord(#[trigger] vec@[j], vec@[hi as int]),
        decreases n - i,
    {
        if less(vec[i], vec[lo]) {
            lo = i;
        }
        if less(vec[hi], vec[i]) {
            hi = i;
        }
        i = i + 1;
    }
    let mut j: usize = 0;
    while j < n
        invariant
            order_comparator(*less),
            decided_by(*less, ord),
            n == vec@.len(),
            0 <= j <= n,
            0 <= lo < n,
            0 <= hi < n,
            forall|k: int| 0 <= k < n ==> !ord(#[trigger] vec@[k], vec@[lo as int]),
            forall|k: int| 0 <= k < n ==> !ord(vec@[hi as int], #[trigger] vec@[k]),
            forall|k: int| 0 <= k < lo ==> ord(vec@[lo as int], #[trigger] vec@[k]),
            forall|k: int| 0 <= k < hi ==> ord(#[trigger] vec@[k], vec@[hi as int]),
            forall|k: int| 0 <= k < j ==> less.ensures((#[trigger] vec@[k], vec@[lo as int]), false),
            forall|k: int| 0 <= k < j ==> less.ensures((vec@[hi as int], #[trigger] vec@[k]), false),
            forall|k: int| 0 <= k < j && k < lo ==> less.ensures((vec@[lo as int], #[trigger] vec@[k]), true),
            forall|k: int| 0 <= k < j && k < hi ==> less.ensures((#[trigger] vec@[k], vec@[hi as int]), true),
        decreases n - j,
    {
        let _below = less(vec[j], vec[lo]);
        let _above = less(vec[hi], vec[j]);
        if j < lo {
            let _earlier_above = less(vec[lo], vec[j]);
        }
        if j < hi {
            let _earlier_below = less(vec[j], vec[hi]);
        }
        j = j + 1;
    }
    assert(recorded_extremes(vec@, *less, lo as int, hi as int));
    if !less(vec[lo], vec[hi]) {
        let mut out: Vec<T> = Vec::with_capacity(n);
        let mut k: usize = 0;
        while k < n
            invariant
                0 <= k <= n,
                out@.len() == k,
                forall|j: int| 0 <= j < k ==> #[trigger] out@[j] == zero,
            decreases n - k,
        {
            out.push(zero);
            k = k + 1;
        }
        return NormalizedField::Constant(out);
    }
    let min = vec[lo];
    let max = vec[hi];
    let mut out: Vec<T> = Vec::with_capacity(n);
    let mut k: usize = 0;
    while k < n
        invariant
            forall|v: T, a: T, b: T| rescale.requires((v, a, b)),
            n == vec@.len(),
            min == vec@[lo as int],
            max == vec@[hi as int],
            0 <= k <= n,
            out@.len() == k,
            forall|j: int| 0 <= j < k ==> rescale.ensures((vec@[j], min, max), #[trigger] out@[j]),
        decreases n - k,
    {
        out.push(rescale(vec[k], min, max));
        k = k + 1;
    }
    NormalizedField::Scaled(out)
}

} // verus!
