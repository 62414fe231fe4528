//! Numeric data type abstraction.
//!
//! Every kernel of this library is written against [`Numeric`] alone. Each
//! operation of the trait comes as a pair: a specification function that
//! says what the operation yields, and an executable method that returns
//! exactly that value. Contracts elsewhere in the library are stated over
//! the specification functions, so they hold for any scalar, whatever its
//! rounding or overflow behaviour.
//!
//! The fixed-point scalar [`fixed16::x16`] is verified against its
//! specification functions. A scalar type that is defined elsewhere, such
//! as one over a hardware float, answers for the pairing itself: its
//! specification functions are to compute what its methods compute.

pub mod exact;
pub mod fixed16;

use vstd::prelude::*;

verus! {

/// Numeric data type.
///
/// A scalar supplies the constants `zero`, `one`, `tiny` (the smallest
/// meaningful increment) and `neginf` (a safe starting point for a running
/// maximum), the four arithmetic operations with negation, `exp` and `log`,
/// the comparisons `<`, `<=` and `==`, and a source of random values.
///
/// All operations are total: a scalar type decides for itself what
/// overflow or a zero divisor yields.
pub trait Numeric: Copy {
    /// The additive identity.
    spec fn zero_spec() -> Self;

    /// The multiplicative identity.
    spec fn one_spec() -> Self;

    /// The smallest meaningful increment.
    spec fn tiny_spec() -> Self;

    /// A value no other value lies below.
    spec fn neginf_spec() -> Self;

    /// The exponential of `self`.
    spec fn exp_spec(self) -> Self;

    /// The natural logarithm of `self`.
    spec fn log_spec(self) -> Self;

    /// Whether `random` may return `self`.
    spec fn random_spec(self) -> bool;

    /// `self + rhs`.
    spec fn add_spec(self, rhs: Self) -> Self;

    /// `self - rhs`.
    spec fn sub_spec(self, rhs: Self) -> Self;

    /// `self * rhs`.
    spec fn mul_spec(self, rhs: Self) -> Self;

    /// `self / rhs`.
    spec fn div_spec(self, rhs: Self) -> Self;

    /// `-self`.
    spec fn neg_spec(self) -> Self;

    /// `self < rhs`.
    spec fn lt_spec(self, rhs: Self) -> bool;

    /// `self <= rhs`.
    spec fn le_spec(self, rhs: Self) -> bool;

    /// `self == rhs`, as the scalar type compares.
    spec fn eq_spec(self, rhs: Self) -> bool;

    /// Zero.
    fn zero() -> (r: Self)
        ensures
            r == Self::zero_spec(),
    ;

    /// One.
    fn one() -> (r: Self)
        ensures
            r == Self::one_spec(),
    ;

    /// A tiny value.
    fn tiny() -> (r: Self)
        ensures
            r == Self::tiny_spec(),
    ;

    /// A value to start a running maximum from.
    fn neginf() -> (r: Self)
        ensures
            r == Self::neginf_spec(),
    ;

    /// Exponential.
    fn exp(self) -> (r: Self)
        ensures
            r == self.exp_spec(),
    ;

    /// Natural logarithm.
    fn log(self) -> (r: Self)
        ensures
            r == self.log_spec(),
    ;

    /// A random value: one of those that `random_spec` admits.
    fn random() -> (r: Self)
        ensures
            r.random_spec(),
    ;

    /// `self + rhs`.
    fn add(self, rhs: Self) -> (r: Self)
        ensures
            r == self.add_spec(rhs),
    ;

    /// `self - rhs`.
    fn sub(self, rhs: Self) -> (r: Self)
        ensures
            r == self.sub_spec(rhs),
    ;

    /// `self * rhs`.
    fn mul(self, rhs: Self) -> (r: Self)
        ensures
            r == self.mul_spec(rhs),
    ;

    /// `self / rhs`.
    fn div(self, rhs: Self) -> (r: Self)
        ensures
            r == self.div_spec(rhs),
    ;

    /// `-self`.
    fn neg(self) -> (r: Self)
        ensures
            r == self.neg_spec(),
    ;

    /// Whether `self < rhs`.
    fn lt(self, rhs: Self) -> (r: bool)
        ensures
            r == self.lt_spec(rhs),
    ;

    /// Whether `self <= rhs`.
    fn le(self, rhs: Self) -> (r: bool)
        ensures
            r == self.le_spec(rhs),
    ;

    /// Whether `self == rhs`.
    fn eq(self, rhs: Self) -> (r: bool)
        ensures
            r == self.eq_spec(rhs),
    ;
}

/// Left fold of `step` over the indices `0, 1, .., n - 1`, starting from
/// `init`: `step(.. step(step(init, 0), 1) .., n - 1)`.
///
/// Sums in this library are folds in a fixed order, because scalar addition
/// need not be associative.
pub open spec fn fold<T>(step: spec_fn(T, int) -> T, init: T, n: nat) -> T
    decreases n,
{
    if n == 0 {
        init
    } else {
        step(fold(step, init, (n - 1) as nat), n - 1)
    }
}

/// A fold over `n + 1` indices is one more step after a fold over `n`.
pub proof fn lemma_fold_step<T>(step: spec_fn(T, int) -> T, init: T, n: nat)
    ensures
        fold(step, init, n + 1) == step(fold(step, init, n), n as int),
{
    assert((n + 1 - 1) as nat == n);
}

/// The step over the columns of row `r` in a fold over a grid.
pub open spec fn inner_step<T>(step: spec_fn(T, int, int) -> T, r: int) -> spec_fn(T, int) -> T {
    |acc: T, c: int| step(acc, r, c)
}

/// The step over the rows in a fold over a grid of `cols` columns.
pub open spec fn outer_step<T>(step: spec_fn(T, int, int) -> T, cols: nat) -> spec_fn(
    T,
    int,
) -> T {
    |acc: T, r: int| fold(inner_step(step, r), acc, cols)
}

/// Left fold of `step` over the pairs `(r, c)` with `r < rows` and
/// `c < cols`, row by row, starting from `init`.
pub open spec fn fold2<T>(step: spec_fn(T, int, int) -> T, init: T, rows: nat, cols: nat) -> T {
    fold(outer_step(step, cols), init, rows)
}

/// A fold over a grid that has gone through all the columns of row `r`
/// has gone through `r + 1` rows.
pub proof fn lemma_fold2_row<T>(step: spec_fn(T, int, int) -> T, init: T, r: nat, cols: nat)
    ensures
        fold2(step, init, r + 1, cols) == fold(
            inner_step(step, r as int),
            fold2(step, init, r, cols),
            cols,
        ),
{
    assert(fold(outer_step(step, cols), init, r + 1) == outer_step(step, cols)(
        fold(outer_step(step, cols), init, r),
        r as int,
    ));
}

/// The step of a fold over a grid of `cols` columns, taken place by place:
/// place `t` is the cell in row `t / cols`, column `t % cols`.
pub open spec fn flattened<T>(step: spec_fn(T, int, int) -> T, cols: nat) -> spec_fn(T, int) -> T {
    |acc: T, t: int| step(acc, t / (cols as int), t % (cols as int))
}

/// A fold over the first `c` columns of row `r`, started from the fold
/// over all places before that row, is the fold over all places before
/// `(r, c)`.
pub proof fn lemma_fold2_flat_row<T>(
    step: spec_fn(T, int, int) -> T,
    init: T,
    r: nat,
    cols: nat,
    c: nat,
)
    requires
        c <= cols,
    ensures
        fold(inner_step(step, r as int), fold(flattened(step, cols), init, r * cols), c) == fold(
            flattened(step, cols),
            init,
            r * cols + c,
        ),
    decreases c,
{
    if c > 0 {
        let b = (c - 1) as nat;
        lemma_fold2_flat_row(step, init, r, cols, b);
        lemma_fold_step(
            inner_step(step, r as int),
            fold(flattened(step, cols), init, r * cols),
            b,
        );
        lemma_fold_step(flattened(step, cols), init, r * cols + b);
        vstd::arithmetic::div_mod::lemma_fundamental_div_mod_converse(
            (r * cols + b) as int,
            cols as int,
            r as int,
            b as int,
        );
        assert(r * cols == (r as int) * (cols as int));
        assert(r * cols + b + 1 == r * cols + c);
    }
}

/// A fold over a grid, row by row, is the fold over its places.
pub proof fn lemma_fold2_flat<T>(step: spec_fn(T, int, int) -> T, init: T, rows: nat, cols: nat)
    ensures
        fold2(step, init, rows, cols) == fold(flattened(step, cols), init, rows * cols),
    decreases rows,
{
    if rows == 0 {
        assert(0 * cols == 0);
    } else {
        let r = (rows - 1) as nat;
        lemma_fold2_flat(step, init, r, cols);
        lemma_fold2_row(step, init, r, cols);
        lemma_fold2_flat_row(step, init, r, cols, cols);
        assert(r * cols + cols == rows * cols) by (nonlinear_arith)
            requires
                r + 1 == rows,
        ;
    }
}

/// The step that adds one.
pub open spec fn count_step<T: Numeric>() -> spec_fn(T, int) -> T {
    |acc: T, k: int| acc.add_spec(T::one_spec())
}

/// `n` as a scalar: `one` added to `zero`, `n` times.
pub open spec fn count<T: Numeric>(n: nat) -> T {
    fold(count_step::<T>(), T::zero_spec(), n)
}

/// Computes `n` as a scalar by repeated addition of `one`.
pub fn count_as<T: Numeric>(n: usize) -> (r: T)
    ensures
        r == count::<T>(n as nat),
{
    let mut acc = T::zero();
    let mut k: usize = 0;
    while k < n
        invariant
            k <= n,
            acc == count::<T>(k as nat),
        decreases n - k,
    {
        acc = acc.add(T::one());
        k += 1;
    }
    acc
}

/// Computes `rows * cols` as a scalar by repeated addition of `one`, as
/// `count_as` does; the product itself need not fit in a machine integer.
pub fn count_grid<T: Numeric>(rows: usize, cols: usize) -> (r: T)
    ensures
        r == count::<T>((rows * cols) as nat),
{
    let mut acc = T::zero();
    let mut i: usize = 0;
    while i < rows
        invariant
            i <= rows,
            acc == count::<T>((i * cols) as nat),
        decreases rows - i,
    {
        let mut j: usize = 0;
        while j < cols
            invariant
                i < rows,
                j <= cols,
                acc == count::<T>((i * cols + j) as nat),
            decreases cols - j,
        {
            assert(i * cols >= 0) by (nonlinear_arith)
                requires
                    i >= 0,
                    cols >= 0,
            ;
            acc = acc.add(T::one());
            j += 1;
        }
        assert(i * cols + cols == (i + 1) * cols) by (nonlinear_arith);
        i += 1;
    }
    acc
}

} // verus!
