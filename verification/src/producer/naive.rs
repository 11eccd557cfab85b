use std::cmp::Ordering;
use std::marker::PhantomData;
use std::ops::{Add, Mul, Sub};
use vstd::prelude::*;
use vstd::std_specs::cmp::{PartialEqSpec, PartialOrdSpec};
use vstd::std_specs::ops::{AddSpec, MulSpec, SubSpec};

use crate::high_precision::{HighPrecision, div_bits, fits, one_bits, trunc_div};
use crate::types::Dimensions;

verus! {

/// Produces values by iterating each point on its own, with numbers of type
/// `T`.
pub struct NaiveProducer<T> {
    max_iterations: u32,
    _number_type: PhantomData<T>,
}

impl<T> NaiveProducer<T> {
    pub fn new(max_iterations: u32) -> (r: Self)
        ensures
            r.spec_max_iterations() == max_iterations,
    {
        Self { max_iterations, _number_type: PhantomData }
    }

    pub closed spec fn spec_max_iterations(&self) -> u32 {
        self.max_iterations
    }

    /// The amount of iterations after which a point counts as inside the set.
    pub fn max_iterations(&self) -> (r: u32)
        ensures
            r == self.spec_max_iterations(),
    {
        self.max_iterations
    }
}

impl<T> Clone for NaiveProducer<T> {
    fn clone(&self) -> (r: Self)
        ensures
            r.spec_max_iterations() == self.spec_max_iterations(),
    {
        Self::new(self.max_iterations)
    }
}

/// The `i`-th term of the arithmetic progression `start, start + step, ...`,
/// each term computed from the one before.
pub open spec fn range_term<T: Add<Output = T>>(start: T, step: T, i: nat) -> T
    decreases i,
{
    if i == 0 {
        start
    } else {
        range_term(start, step, (i - 1) as nat).add_spec(step)
    }
}

/// The first `count` terms of `start, start + step, start + step + step, ...`.
pub fn range<T: Copy + Add<Output = T>>(start: T, step: T, count: usize) -> (r: Vec<T>)
    requires
        T::obeys_add_spec(),
        forall|i: nat| i + 1 < count ==> #[trigger] range_term(start, step, i).add_req(step),
    ensures
        r.len() == count,
        forall|i: int| 0 <= i < count ==> r[i] == range_term(start, step, i as nat),
{
    let mut r: Vec<T> = Vec::new();
    if count == 0 {
        return r;
    }
    let mut x = start;
    r.push(x);
    let mut i: usize = 1;
    while i < count
        invariant
            T::obeys_add_spec(),
            forall|i: nat| i + 1 < count ==> #[trigger] range_term(start, step, i).add_req(step),
            1 <= i <= count,
            r.len() == i,
            x == range_term(start, step, (i - 1) as nat),
            forall|k: int| 0 <= k < i ==> r[k] == range_term(start, step, k as nat),
        decreases count - i,
    {
        assert(range_term(start, step, (i - 1) as nat).add_req(step));
        x = x.add(step);
        r.push(x);
        i = i + 1;
    }
    r
}

/// `a <= b` by the partial order of `T`, in specifications.
pub open spec fn spec_le<T: PartialOrd>(a: T, b: T) -> bool {
    a.partial_cmp_spec(&b) matches Some(Ordering::Less | Ordering::Equal)
}

/// Whether the operations of `T` that the iteration uses are all specified:
/// they then compute `add_spec`, `sub_spec`, `mul_spec`, `eq_spec` and
/// `partial_cmp_spec`.
pub open spec fn obeys_number_specs<
    T: PartialOrd + Add<Output = T> + Sub<Output = T> + Mul<Output = T>,
>() -> bool {
    &&& T::obeys_add_spec()
    &&& T::obeys_sub_spec()
    &&& T::obeys_mul_spec()
    &&& T::obeys_eq_spec()
    &&& T::obeys_partial_cmp_spec()
}

/// Whether the operations of `T` that the iteration uses accept every pair of
/// values (as floating-point operations do).
pub open spec fn total_number_ops<T: Add<Output = T> + Sub<Output = T> + Mul<Output = T>>() -> bool {
    forall|a: T, b: T|
        #![trigger a.add_req(b)]
        #![trigger a.sub_req(b)]
        #![trigger a.mul_req(b)]
        a.add_req(b) && a.sub_req(b) && a.mul_req(b)
}

/// The iteration count from the state `(x, y)`, with `x2 = x·x` and `y2 = y·y`
/// as last computed, at iteration `iteration`: the point `(x0, y0)` escapes
/// once `x2 + y2 <= bound` fails; reaching `max_iterations`, or a fixed point
/// of `z -> z² + c`, counts as staying inside.
pub open spec fn spec_divergence<T: PartialOrd + Add<Output = T> + Sub<Output = T> + Mul<Output = T>>(
    x0: T,
    y0: T,
    max_iterations: u32,
    two: T,
    bound: T,
    x: T,
    y: T,
    x2: T,
    y2: T,
    iteration: u32,
) -> u32
    decreases max_iterations - iteration,
{
    if !(spec_le(x2.add_spec(y2), bound) && iteration < max_iterations) {
        iteration
    } else {
        let nx2 = x.mul_spec(x);
        let ny2 = y.mul_spec(y);
        let ny = two.mul_spec(x).mul_spec(y).add_spec(y0);
        let nx = nx2.sub_spec(ny2).add_spec(x0);
        if x.eq_spec(&nx) && y.eq_spec(&ny) {
            max_iterations
        } else {
            spec_divergence(
                x0,
                y0,
                max_iterations,
                two,
                bound,
                nx,
                ny,
                nx2,
                ny2,
                (iteration + 1) as u32,
            )
        }
    }
}

/// Whether every operation of the iteration from the given state accepts its
/// operands, for a type whose operations are specified.
pub open spec fn orbit_ok<T: PartialOrd + Add<Output = T> + Sub<Output = T> + Mul<Output = T>>(
    x0: T,
    y0: T,
    max_iterations: u32,
    two: T,
    bound: T,
    x: T,
    y: T,
    x2: T,
    y2: T,
    iteration: u32,
) -> bool
    decreases max_iterations - iteration,
{
    &&& x2.add_req(y2)
    &&& (spec_le(x2.add_spec(y2), bound) && iteration < max_iterations) ==> {
        let nx2 = x.mul_spec(x);
        let ny2 = y.mul_spec(y);
        let ny = two.mul_spec(x).mul_spec(y).add_spec(y0);
        let nx = nx2.sub_spec(ny2).add_spec(x0);
        &&& x.mul_req(x)
        &&& y.mul_req(y)
        &&& two.mul_req(x)
        &&& two.mul_spec(x).mul_req(y)
        &&& two.mul_spec(x).mul_spec(y).add_req(y0)
        &&& nx2.sub_req(ny2)
        &&& nx2.sub_spec(ny2).add_req(x0)
        &&& !(x.eq_spec(&nx) && y.eq_spec(&ny)) ==> orbit_ok(
            x0,
            y0,
            max_iterations,
            two,
            bound,
            nx,
            ny,
            nx2,
            ny2,
            (iteration + 1) as u32,
        )
    }
}

/// The state after `k` steps of `z -> z² + c` from `z = 0`, for
/// `c = x0 + y0·i`: the real and imaginary parts of `z_k`, then the squares of
/// the parts of the point before it (zero at the start).
pub open spec fn orbit<T: PartialOrd + Add<Output = T> + Sub<Output = T> + Mul<Output = T>>(
    x0: T,
    y0: T,
    two: T,
    zero: T,
    k: nat,
) -> (T, T, T, T)
    decreases k,
{
    if k == 0 {
        (zero, zero, zero, zero)
    } else {
        let z = orbit(x0, y0, two, zero, (k - 1) as nat);
        let re2 = z.0.mul_spec(z.0);
        let im2 = z.1.mul_spec(z.1);
        (re2.sub_spec(im2).add_spec(x0), two.mul_spec(z.0).mul_spec(z.1).add_spec(y0), re2, im2)
    }
}

/// The squared modulus that is tested after `k` steps: that of the point
/// before `z_k` (zero at the start).
pub open spec fn orbit_norm<T: PartialOrd + Add<Output = T> + Sub<Output = T> + Mul<Output = T>>(
    x0: T,
    y0: T,
    two: T,
    zero: T,
    k: nat,
) -> T {
    let z = orbit(x0, y0, two, zero, k);
    z.2.add_spec(z.3)
}

/// Whether step `k + 1` leaves `z_k` where it is: a fixed point of the map.
pub open spec fn orbit_stalls<T: PartialOrd + Add<Output = T> + Sub<Output = T> + Mul<Output = T>>(
    x0: T,
    y0: T,
    two: T,
    zero: T,
    k: nat,
) -> bool {
    let z = orbit(x0, y0, two, zero, k);
    let w = orbit(x0, y0, two, zero, k + 1);
    z.0.eq_spec(&w.0) && z.1.eq_spec(&w.1)
}

/// What it means for `r` to be the escape count of `c = x0 + y0·i` with
/// `max_iterations` iterations and the escape bound `bound`, counting the
/// steps of the orbit tested before the answer from `from` on:
/// - if every tested squared modulus stays within `bound`, `r` is
///   `max_iterations` (the point counts as inside);
/// - if `r` is below `max_iterations`, the squared modulus tested at `r - 1`
///   exceeds `bound` and every one before it stays within;
/// - the first tested squared modulus that exceeds `bound`, reached without
///   meeting a fixed point, gives `r` as one past it;
/// - a fixed point met while every tested squared modulus so far stays within
///   `bound`, before the last iteration, gives `max_iterations`.
pub open spec fn escape_count_from<T: PartialOrd + Add<Output = T> + Sub<Output = T> + Mul<Output = T>>(
    x0: T,
    y0: T,
    max_iterations: u32,
    zero: T,
    two: T,
    bound: T,
    from: nat,
    r: u32,
) -> bool {
    &&& (forall|j: nat|
        from <= j && j + 1 < max_iterations ==> spec_le(
            #[trigger] orbit_norm(x0, y0, two, zero, j),
            bound,
        )) ==> r == max_iterations
    &&& r < max_iterations ==> {
        &&& from + 1 <= r
        &&& !spec_le(orbit_norm(x0, y0, two, zero, (r - 1) as nat), bound)
        &&& forall|j: nat|
            from <= j && j + 1 < r ==> spec_le(#[trigger] orbit_norm(x0, y0, two, zero, j), bound)
    }
    &&& forall|j: nat|
        #![trigger orbit_norm(x0, y0, two, zero, j)]
        from <= j && j + 1 < max_iterations && !spec_le(orbit_norm(x0, y0, two, zero, j), bound) && (
        forall|i: nat|
            from <= i < j ==> spec_le(#[trigger] orbit_norm(x0, y0, two, zero, i), bound)
                && !orbit_stalls(x0, y0, two, zero, i)) ==> r == j + 1
    &&& forall|i: nat|
        #![trigger orbit_stalls(x0, y0, two, zero, i)]
        from <= i && i + 1 < max_iterations && orbit_stalls(x0, y0, two, zero, i) && (forall|j: nat|
            from <= j <= i ==> spec_le(#[trigger] orbit_norm(x0, y0, two, zero, j), bound))
            ==> r == max_iterations
}

/// The escape count from the state after `k` steps, by induction on the
/// steps left.
proof fn lemma_escape_count_from<T: PartialOrd + Add<Output = T> + Sub<Output = T> + Mul<Output = T>>(
    x0: T,
    y0: T,
    max_iterations: u32,
    zero: T,
    two: T,
    bound: T,
    k: nat,
)
    requires
        k + 1 <= max_iterations,
    ensures
        escape_count_from(
            x0,
            y0,
            max_iterations,
            zero,
            two,
            bound,
            k,
            spec_divergence(
                x0,
                y0,
                max_iterations,
                two,
                bound,
                orbit(x0, y0, two, zero, k).0,
                orbit(x0, y0, two, zero, k).1,
                orbit(x0, y0, two, zero, k).2,
                orbit(x0, y0, two, zero, k).3,
                (k + 1) as u32,
            ),
        ),
    decreases max_iterations - k,
{
    let z = orbit(x0, y0, two, zero, k);
    let w = orbit(x0, y0, two, zero, k + 1);
    let r = spec_divergence(x0, y0, max_iterations, two, bound, z.0, z.1, z.2, z.3, (k + 1) as u32);
    assert(orbit_norm(x0, y0, two, zero, k) == z.2.add_spec(z.3));
    if spec_le(z.2.add_spec(z.3), bound) && k + 1 < max_iterations {
        assert(w.2 == z.0.mul_spec(z.0));
        assert(w.3 == z.1.mul_spec(z.1));
        assert(w.1 == two.mul_spec(z.0).mul_spec(z.1).add_spec(y0));
        assert(w.0 == w.2.sub_spec(w.3).add_spec(x0));
        if orbit_stalls(x0, y0, two, zero, k) {
            assert(r == max_iterations);
        } else {
            lemma_escape_count_from(x0, y0, max_iterations, zero, two, bound, k + 1);
            assert(r == spec_divergence(
                x0,
                y0,
                max_iterations,
                two,
                bound,
                w.0,
                w.1,
                w.2,
                w.3,
                (k + 2) as u32,
            ));
            assert(escape_count_from(x0, y0, max_iterations, zero, two, bound, k, r)) by {
                assert forall|j: nat|
                    k <= j && j + 1 < max_iterations && !spec_le(
                        #[trigger] orbit_norm(x0, y0, two, zero, j),
                        bound,
                    ) && (forall|i: nat|
                        k <= i < j ==> spec_le(#[trigger] orbit_norm(x0, y0, two, zero, i), bound)
                            && !orbit_stalls(x0, y0, two, zero, i)) implies r == j + 1 by {
                    assert(j != k);
                    assert(forall|i: nat|
                        k + 1 <= i < j ==> spec_le(
                            #[trigger] orbit_norm(x0, y0, two, zero, i),
                            bound,
                        ) && !orbit_stalls(x0, y0, two, zero, i));
                }
                assert forall|i: nat|
                    k <= i && i + 1 < max_iterations && #[trigger] orbit_stalls(
                        x0,
                        y0,
                        two,
                        zero,
                        i,
                    ) && (forall|j: nat|
                        k <= j <= i ==> spec_le(
                            #[trigger] orbit_norm(x0, y0, two, zero, j),
                            bound,
                        )) implies r == max_iterations by {
                    assert(i != k);
                    assert(forall|j: nat|
                        k + 1 <= j <= i ==> spec_le(
                            #[trigger] orbit_norm(x0, y0, two, zero, j),
                            bound,
                        ));
                }
            }
        }
    } else {
        assert(r == k + 1);
    }
}

/// The count that `divergence_iteration` gives is the escape count of the
/// orbit of `c = re + im·i` from `z = 0`: `max_iterations` when every tested
/// `|z|²` stays within `bound`, and otherwise one past the first step whose
/// `|z|²` exceeds `bound` (unless the orbit met a fixed point before, which
/// counts as inside). The test depends on `bound` alone.
pub proof fn lemma_escape_count<T: PartialOrd + Add<Output = T> + Sub<Output = T> + Mul<Output = T>>(
    re: T,
    im: T,
    max_iterations: u32,
    zero: T,
    two: T,
    bound: T,
)
    requires
        max_iterations >= 1,
    ensures
        escape_count_from(
            re,
            im,
            max_iterations,
            zero,
            two,
            bound,
            0,
            spec_divergence(re, im, max_iterations, two, bound, zero, zero, zero, zero, 1),
        ),
{
    lemma_escape_count_from(re, im, max_iterations, zero, two, bound, 0);
}

/// On fixed-point numbers the order of the iteration is that of the values.
pub proof fn lemma_high_precision_le(a: HighPrecision, b: HighPrecision)
    ensures
        spec_le(a, b) <==> a@ <= b@,
{
}

/// On fixed-point numbers the escape count is told by the values of the
/// orbit: `max_iterations` when every tested `|z|²` is at most `bound`;
/// below that, one past the first step whose `|z|²` exceeds `bound`; that
/// step gives the count whenever no step before it leaves `z` exactly where
/// it was; and a step that does, with every tested `|z|²` so far at most
/// `bound` and iterations left, gives `max_iterations`.
pub proof fn lemma_high_precision_escape_count(
    re: HighPrecision,
    im: HighPrecision,
    max_iterations: u32,
    zero: HighPrecision,
    two: HighPrecision,
    bound: HighPrecision,
)
    requires
        max_iterations >= 1,
    ensures
        ({
            let r = spec_divergence(re, im, max_iterations, two, bound, zero, zero, zero, zero, 1);
            &&& (forall|j: nat|
                j + 1 < max_iterations ==> (#[trigger] orbit_norm(re, im, two, zero, j))@ <= bound@)
                ==> r == max_iterations
            &&& r < max_iterations ==> {
                &&& 1 <= r
                &&& orbit_norm(re, im, two, zero, (r - 1) as nat)@ > bound@
                &&& forall|j: nat|
                    j + 1 < r ==> (#[trigger] orbit_norm(re, im, two, zero, j))@ <= bound@
            }
            &&& forall|j: nat|
                #![trigger orbit_norm(re, im, two, zero, j)]
                j + 1 < max_iterations && orbit_norm(re, im, two, zero, j)@ > bound@ && (forall|
                    i: nat,
                |
                    i < j ==> {
                        &&& (#[trigger] orbit_norm(re, im, two, zero, i))@ <= bound@
                        &&& orbit(re, im, two, zero, i).0@ != orbit(re, im, two, zero, i + 1).0@
                            || orbit(re, im, two, zero, i).1@ != orbit(re, im, two, zero, i + 1).1@
                    }) ==> r == j + 1
            &&& forall|i: nat|
                #![trigger orbit(re, im, two, zero, i)]
                {
                    &&& i + 1 < max_iterations
                    &&& orbit(re, im, two, zero, i).0@ == orbit(re, im, two, zero, i + 1).0@
                    &&& orbit(re, im, two, zero, i).1@ == orbit(re, im, two, zero, i + 1).1@
                    &&& forall|j: nat|
                        j <= i ==> (#[trigger] orbit_norm(re, im, two, zero, j))@ <= bound@
                } ==> r == max_iterations
        }),
{
    let r = spec_divergence(re, im, max_iterations, two, bound, zero, zero, zero, zero, 1);
    lemma_escape_count(re, im, max_iterations, zero, two, bound);
    assert forall|j: nat|
        #[trigger] spec_le(orbit_norm(re, im, two, zero, j), bound) <==> orbit_norm(
            re,
            im,
            two,
            zero,
            j,
        )@ <= bound@ by {}
    assert forall|i: nat|
        #[trigger] orbit_stalls(re, im, two, zero, i) <==> {
            &&& orbit(re, im, two, zero, i).0@ == orbit(re, im, two, zero, i + 1).0@
            &&& orbit(re, im, two, zero, i).1@ == orbit(re, im, two, zero, i + 1).1@
        } by {}
    if forall|j: nat|
        j + 1 < max_iterations ==> (#[trigger] orbit_norm(re, im, two, zero, j))@ <= bound@ {
        assert(forall|j: nat|
            0 <= j && j + 1 < max_iterations ==> spec_le(
                #[trigger] orbit_norm(re, im, two, zero, j),
                bound,
            ));
    }
    assert forall|j: nat|
        j + 1 < max_iterations && (#[trigger] orbit_norm(re, im, two, zero, j))@ > bound@ && (forall|
            i: nat,
        |
            i < j ==> {
                &&& (#[trigger] orbit_norm(re, im, two, zero, i))@ <= bound@
                &&& orbit(re, im, two, zero, i).0@ != orbit(re, im, two, zero, i + 1).0@
                    || orbit(re, im, two, zero, i).1@ != orbit(re, im, two, zero, i + 1).1@
            }) implies r == j + 1 by {
        assert(!spec_le(orbit_norm(re, im, two, zero, j), bound));
        assert(forall|i: nat|
            0 <= i < j ==> spec_le(#[trigger] orbit_norm(re, im, two, zero, i), bound)
                && !orbit_stalls(re, im, two, zero, i));
    }
    assert forall|i: nat|
        #![trigger orbit(re, im, two, zero, i)]
        {
            &&& i + 1 < max_iterations
            &&& orbit(re, im, two, zero, i).0@ == orbit(re, im, two, zero, i + 1).0@
            &&& orbit(re, im, two, zero, i).1@ == orbit(re, im, two, zero, i + 1).1@
            &&& forall|j: nat| j <= i ==> (#[trigger] orbit_norm(re, im, two, zero, j))@ <= bound@
        } implies r == max_iterations by {
        assert(orbit_stalls(re, im, two, zero, i));
        assert(forall|j: nat|
            0 <= j <= i ==> spec_le(#[trigger] orbit_norm(re, im, two, zero, j), bound));
    }
}

/// The number of iterations of `z -> z² + c` for `c = re + im·i`, starting
/// from `z = 0`, until `|z|²` exceeds `bound` (at least one, at most
/// `max_iterations` when that is positive). `zero`, `two` and `bound` are the
/// numbers 0, 2 and 4 of type `T`.
pub fn divergence_iteration<T: Copy + PartialOrd + Add<Output = T> + Sub<Output = T> + Mul<Output = T>>(
    re: T,
    im: T,
    max_iterations: u32,
    zero: T,
    two: T,
    bound: T,
) -> (r: u32)
    requires
        total_number_ops::<T>() || (obeys_number_specs::<T>() && orbit_ok(
            re,
            im,
            max_iterations,
            two,
            bound,
            zero,
            zero,
            zero,
            zero,
            1,
        )),
    ensures
        1 <= r,
        max_iterations >= 1 ==> r <= max_iterations,
        max_iterations == 0 ==> r == 1,
        obeys_number_specs::<T>() ==> r == spec_divergence(
            re,
            im,
            max_iterations,
            two,
            bound,
            zero,
            zero,
            zero,
            zero,
            1,
        ),
        obeys_number_specs::<T>() && max_iterations >= 1 ==> escape_count_from(
            re,
            im,
            max_iterations,
            zero,
            two,
            bound,
            0,
            r,
        ),
{
    proof {
        if max_iterations >= 1 {
            lemma_escape_count(re, im, max_iterations, zero, two, bound);
        }
    }
    let x0 = re;
    let y0 = im;

    let mut x = zero;
    let mut y = zero;
    let mut x2 = zero;
    let mut y2 = zero;

    let mut iteration: u32 = 1;

    loop
        invariant
            total_number_ops::<T>() || (obeys_number_specs::<T>() && orbit_ok(
                re,
                im,
                max_iterations,
                two,
                bound,
                x,
                y,
                x2,
                y2,
                iteration,
            )),
            x0 == re,
            y0 == im,
            1 <= iteration,
            max_iterations >= 1 ==> iteration <= max_iterations,
            max_iterations == 0 ==> iteration == 1,
            obeys_number_specs::<T>() ==> spec_divergence(
                re,
                im,
                max_iterations,
                two,
                bound,
                zero,
                zero,
                zero,
                zero,
                1,
            ) == spec_divergence(re, im, max_iterations, two, bound, x, y, x2, y2, iteration),
            max_iterations >= 1 ==> escape_count_from(
                re,
                im,
                max_iterations,
                zero,
                two,
                bound,
                0,
                spec_divergence(re, im, max_iterations, two, bound, zero, zero, zero, zero, 1),
            ),
        decreases max_iterations - iteration,
    {
        let sum = x2.add(y2);
        let inside = sum.le(&bound);
        if !(inside && iteration < max_iterations) {
            return iteration;
        }
        let prev_x = x;
        let prev_y = y;

        x2 = x.mul(x);
        y2 = y.mul(y);

        y = two.mul(x).mul(y).add(y0);
        x = x2.sub(y2).add(x0);

        // if it converges earlier, then it's inside
        if prev_x.eq(&x) && prev_y.eq(&y) {
            return max_iterations;
        }

        iteration = iteration + 1;
    }
}

/// Every operation of `HighPrecision` that the iteration uses is specified, so
/// `divergence_iteration` gives its exact count on fixed-point numbers.
pub proof fn lemma_high_precision_obeys_number_specs()
    ensures
        obeys_number_specs::<HighPrecision>(),
{
}

/// The raw coordinate of pixel `k` along a side that starts at `start` with
/// pixels `step` apart.
pub open spec fn grid_point(start: int, step: int, k: int) -> int {
    start + k * step
}

/// Whether the coordinates of all `count` pixels fit in range.
pub open spec fn grid_fits(start: int, step: int, count: int) -> bool {
    forall|k: int| 0 <= k < count ==> fits(#[trigger] grid_point(start, step, k))
}

/// Dividing by the fixed-point integer `n` divides the raw value by `n`,
/// rounding toward zero, and never grows it.
proof fn lemma_div_by_count(s: int, n: int)
    requires
        n > 0,
    ensures
        div_bits(s, n * one_bits()) == trunc_div(s, n),
        -(if s >= 0 { s } else { -s }) <= trunc_div(s, n) <= (if s >= 0 { s } else { -s }),
{
    let o = one_bits();
    let a = if s >= 0 {
        s
    } else {
        -s
    };
    assert(if s * o >= 0 {
        s * o
    } else {
        -(s * o)
    } == a * o) by (nonlinear_arith)
        requires
            o > 0,
            a == if s >= 0 {
                s
            } else {
                -s
            },
    ;
    assert(n * o > 0) by (nonlinear_arith)
        requires
            n > 0,
            o > 0,
    ;
    assert((a * o) / (n * o) == a / n) by (nonlinear_arith)
        requires
            a >= 0,
            o > 0,
            n > 0,
    {
        vstd::arithmetic::div_mod::lemma_div_denominator(a * o, o, n);
        vstd::arithmetic::div_mod::lemma_div_by_multiple(a, o);
        assert(o * n == n * o) by (nonlinear_arith);
    }
    assert((s * o < 0) == (s < 0)) by (nonlinear_arith)
        requires
            o > 0,
    ;
    assert(0 <= a / n <= a) by (nonlinear_arith)
        requires
            a >= 0,
            n > 0,
    {
        vstd::arithmetic::div_mod::lemma_div_is_ordered_by_denominator(a, 1, n);
    }
}

/// The terms of the progression of fixed-point numbers are the exact grid
/// points as long as those fit.
proof fn lemma_range_bits(start: HighPrecision, step: HighPrecision, k: nat)
    requires
        forall|j: int| 0 <= j <= k ==> fits(#[trigger] grid_point(start@ as int, step@ as int, j)),
    ensures
        range_term(start, step, k)@ == grid_point(start@ as int, step@ as int, k as int),
    decreases k,
{
    broadcast use HighPrecision::lemma_spec_from_bits;

    assert(fits(grid_point(start@ as int, step@ as int, 0)));
    if k > 0 {
        lemma_range_bits(start, step, (k - 1) as nat);
        assert(fits(grid_point(start@ as int, step@ as int, k as int)));
        assert(grid_point(start@ as int, step@ as int, k - 1) + step@ == grid_point(
            start@ as int,
            step@ as int,
            k as int,
        )) by (nonlinear_arith);
    }
}

/// The coordinates of the pixels of `view` split in `dims`: the `k`-th column
/// lies at `start.x + k * (size.w / dims.w)` and the `k`-th row at
/// `start.y + k * (size.h / dims.h)`, each step rounded toward zero. As the
/// progression computes each next point when it hands out a point, the point
/// one step past the last pixel of each side is computed too, and must fit.
pub fn pixel_grid(view: &crate::types::View, dims: Dimensions) -> (r: (
    Vec<HighPrecision>,
    Vec<HighPrecision>,
))
    requires
        0 < dims.w < 512,
        0 < dims.h < 512,
        grid_fits(view.start.x@ as int, trunc_div(view.size.w@ as int, dims.w as int), dims.w + 1),
        grid_fits(view.start.y@ as int, trunc_div(view.size.h@ as int, dims.h as int), dims.h + 1),
    ensures
        r.0.len() == dims.w,
        r.1.len() == dims.h,
        forall|k: int|
            0 <= k < dims.w ==> (#[trigger] r.0[k])@ == grid_point(
                view.start.x@ as int,
                trunc_div(view.size.w@ as int, dims.w as int),
                k,
            ),
        forall|k: int|
            0 <= k < dims.h ==> (#[trigger] r.1[k])@ == grid_point(
                view.start.y@ as int,
                trunc_div(view.size.h@ as int, dims.h as int),
                k,
            ),
{
    proof {
        lemma_div_by_count(view.size.w@ as int, dims.w as int);
        lemma_div_by_count(view.size.h@ as int, dims.h as int);
    }
    let step_x = view.size.w / HighPrecision::from_u64(dims.w);
    let step_y = view.size.h / HighPrecision::from_u64(dims.h);
    proof {
        broadcast use HighPrecision::lemma_spec_from_bits;

        assert forall|i: nat| i + 1 < dims.w implies #[trigger] range_term(
            view.start.x,
            step_x,
            i,
        ).add_req(step_x) by {
            lemma_range_bits(view.start.x, step_x, i);
            assert(fits(grid_point(view.start.x@ as int, step_x@ as int, i + 1int)));
            assert(grid_point(view.start.x@ as int, step_x@ as int, i as int) + step_x@
                == grid_point(view.start.x@ as int, step_x@ as int, i + 1int)) by (nonlinear_arith);
        }
        assert forall|i: nat| i + 1 < dims.h implies #[trigger] range_term(
            view.start.y,
            step_y,
            i,
        ).add_req(step_y) by {
            lemma_range_bits(view.start.y, step_y, i);
            assert(fits(grid_point(view.start.y@ as int, step_y@ as int, i + 1int)));
            assert(grid_point(view.start.y@ as int, step_y@ as int, i as int) + step_y@
                == grid_point(view.start.y@ as int, step_y@ as int, i + 1int)) by (nonlinear_arith);
        }
    }
    let xs = range(view.start.x, step_x, dims.w as usize);
    let ys = range(view.start.y, step_y, dims.h as usize);
    proof {
        assert forall|k: int| 0 <= k < dims.w implies (#[trigger] xs[k])@ == grid_point(
            view.start.x@ as int,
            step_x@ as int,
            k,
        ) by {
            lemma_range_bits(view.start.x, step_x, k as nat);
        }
        assert forall|k: int| 0 <= k < dims.h implies (#[trigger] ys[k])@ == grid_point(
            view.start.y@ as int,
            step_y@ as int,
            k,
        ) by {
            lemma_range_bits(view.start.y, step_y, k as nat);
        }
    }
    (xs, ys)
}

/// Whether the `count` grid points from `start`, `step` apart, all fit.
fn side_fits(start: HighPrecision, step: HighPrecision, count: u64) -> (r: bool)
    ensures
        r == grid_fits(start@ as int, step@ as int, count as int),
{
    if count == 0 {
        return true;
    }
    let mut p = start;
    let mut k: u64 = 0;
    assert(grid_point(start@ as int, step@ as int, 0) == start@) by (nonlinear_arith);
    while k + 1 < count
        invariant
            0 < count,
            k < count,
            p@ == grid_point(start@ as int, step@ as int, k as int),
            forall|j: int| 0 <= j <= k ==> fits(#[trigger] grid_point(start@ as int, step@ as int, j)),
        decreases count - k,
    {
        assert(grid_point(start@ as int, step@ as int, k as int) + step@ == grid_point(
            start@ as int,
            step@ as int,
            k + 1int,
        )) by (nonlinear_arith);
        match p.checked_add(step) {
            Some(q) => {
                p = q;
            },
            None => {
                assert(!fits(grid_point(start@ as int, step@ as int, k + 1int)));
                return false;
            },
        }
        k = k + 1;
    }
    true
}

/// `pixel_grid(view, dims)` when the sides have between one and 511 pixels and
/// every coordinate, up to one step past the last pixel, fits; `None`
/// otherwise.
pub fn checked_pixel_grid(view: &crate::types::View, dims: Dimensions) -> (r: Option<
    (Vec<HighPrecision>, Vec<HighPrecision>),
>)
    ensures
        r is Some <==> {
            &&& 0 < dims.w < 512
            &&& 0 < dims.h < 512
            &&& grid_fits(
                view.start.x@ as int,
                trunc_div(view.size.w@ as int, dims.w as int),
                dims.w + 1,
            )
            &&& grid_fits(
                view.start.y@ as int,
                trunc_div(view.size.h@ as int, dims.h as int),
                dims.h + 1,
            )
        },
        r matches Some(g) ==> {
            &&& g.0.len() == dims.w
            &&& g.1.len() == dims.h
            &&& forall|k: int|
                0 <= k < dims.w ==> (#[trigger] g.0[k])@ == grid_point(
                    view.start.x@ as int,
                    trunc_div(view.size.w@ as int, dims.w as int),
                    k,
                )
            &&& forall|k: int|
                0 <= k < dims.h ==> (#[trigger] g.1[k])@ == grid_point(
                    view.start.y@ as int,
                    trunc_div(view.size.h@ as int, dims.h as int),
                    k,
                )
        },
{
    if !(0 < dims.w && dims.w < 512 && 0 < dims.h && dims.h < 512) {
        return None;
    }
    proof {
        lemma_div_by_count(view.size.w@ as int, dims.w as int);
        lemma_div_by_count(view.size.h@ as int, dims.h as int);
    }
    let step_x = view.size.w / HighPrecision::from_u64(dims.w);
    let step_y = view.size.h / HighPrecision::from_u64(dims.h);
    if !side_fits(view.start.x, step_x, dims.w + 1) || !side_fits(view.start.y, step_y, dims.h + 1) {
        return None;
    }
    Some(pixel_grid(view, dims))
}

} // verus!
