//! Exact arithmetic.
//!
//! A scalar that rounds or saturates obeys the laws of arithmetic only up
//! to its precision. What holds of the kernels in exact arithmetic, such
//! as that a backward pass is the adjoint of the forward pass, is stated
//! here for the scalars whose addition and multiplication obey the laws of
//! a commutative semiring, and proved from those laws alone. Laws that
//! speak of subtraction, of division or of the order name what they ask of
//! those in predicates of their own.

use crate::numeric::{fold, Numeric};
use vstd::prelude::*;

verus! {

/// Whether addition and multiplication in `T` are exact: both are
/// commutative and associative, zero is neutral for addition and absorbing
/// for multiplication, and multiplication distributes over addition.
#[verifier::opaque]
pub open spec fn is_exact<T: Numeric>() -> bool {
    &&& forall|a: T, b: T| #[trigger] a.add_spec(b) == b.add_spec(a)
    &&& forall|a: T, b: T, c: T| #[trigger] a.add_spec(b).add_spec(c) == a.add_spec(b.add_spec(c))
    &&& forall|a: T| #[trigger] a.add_spec(T::zero_spec()) == a
    &&& forall|a: T, b: T| #[trigger] a.mul_spec(b) == b.mul_spec(a)
    &&& forall|a: T, b: T, c: T| #[trigger] a.mul_spec(b).mul_spec(c) == a.mul_spec(b.mul_spec(c))
    &&& forall|a: T, b: T, c: T| #[trigger]
        a.mul_spec(b.add_spec(c)) == a.mul_spec(b).add_spec(a.mul_spec(c))
    &&& forall|a: T| #[trigger] a.mul_spec(T::zero_spec()) == T::zero_spec()
}

/// Whether division in `T` is exact in that it distributes over addition:
/// `(a + b) / d == a / d + b / d`, and `0 / d == 0`.
#[verifier::opaque]
pub open spec fn divides_exactly<T: Numeric>() -> bool {
    &&& forall|a: T, b: T, d: T| #[trigger]
        a.add_spec(b).div_spec(d) == a.div_spec(d).add_spec(b.div_spec(d))
    &&& forall|d: T| #[trigger] T::zero_spec().div_spec(d) == T::zero_spec()
}

/// Whether a shift of both operands is exact in `T`: it changes neither
/// their difference nor their order,
/// `(a + c) - (b + c) == a - b` and `(a + c < b + c) == (a < b)`.
#[verifier::opaque]
pub open spec fn shifts_exactly<T: Numeric>() -> bool {
    &&& forall|a: T, b: T, c: T| #[trigger]
        a.add_spec(c).sub_spec(b.add_spec(c)) == a.sub_spec(b)
    &&& forall|a: T, b: T, c: T| #[trigger]
        a.add_spec(c).lt_spec(b.add_spec(c)) == a.lt_spec(b)
}

/// Whether subtraction undoes addition in `T`, and one is neutral for
/// multiplication: `(a + b) - b == a` and `a * 1 == a`.
#[verifier::opaque]
pub open spec fn subtracts_exactly<T: Numeric>() -> bool {
    &&& forall|a: T, b: T| #[trigger] a.add_spec(b).sub_spec(b) == a
    &&& forall|a: T| #[trigger] a.mul_spec(T::one_spec()) == a
}

/// `(a + b) / d == a / d + b / d` and `0 / d == 0`.
pub proof fn lemma_div_distributes<T: Numeric>(a: T, b: T, d: T)
    requires
        divides_exactly::<T>(),
    ensures
        a.add_spec(b).div_spec(d) == a.div_spec(d).add_spec(b.div_spec(d)),
        T::zero_spec().div_spec(d) == T::zero_spec(),
{
    reveal(divides_exactly);
}

/// `(a + c) - (b + c) == a - b` and `(a + c < b + c) == (a < b)`.
pub proof fn lemma_shift_cancels<T: Numeric>(a: T, b: T, c: T)
    requires
        shifts_exactly::<T>(),
    ensures
        a.add_spec(c).sub_spec(b.add_spec(c)) == a.sub_spec(b),
        a.add_spec(c).lt_spec(b.add_spec(c)) == a.lt_spec(b),
{
    reveal(shifts_exactly);
}

/// `(a + b) - b == a` and `a * 1 == a`.
pub proof fn lemma_sub_undoes_add<T: Numeric>(a: T, b: T)
    requires
        subtracts_exactly::<T>(),
    ensures
        a.add_spec(b).sub_spec(b) == a,
        a.mul_spec(T::one_spec()) == a,
{
    reveal(subtracts_exactly);
}

/// Folds whose steps agree on the indices below `n` agree.
pub proof fn lemma_fold_congruent<T>(
    f: spec_fn(T, int) -> T,
    g: spec_fn(T, int) -> T,
    init: T,
    n: nat,
)
    requires
        forall|acc: T, i: int| 0 <= i < n ==> #[trigger] f(acc, i) == g(acc, i),
    ensures
        fold(f, init, n) == fold(g, init, n),
    decreases n,
{
    if n > 0 {
        lemma_fold_congruent(f, g, init, (n - 1) as nat);
        crate::numeric::lemma_fold_step(f, init, (n - 1) as nat);
        crate::numeric::lemma_fold_step(g, init, (n - 1) as nat);
    }
}

/// Folds over a grid whose steps agree on the cells of the grid agree.
pub proof fn lemma_fold2_congruent<T>(
    f: spec_fn(T, int, int) -> T,
    g: spec_fn(T, int, int) -> T,
    init: T,
    rows: nat,
    cols: nat,
)
    requires
        forall|acc: T, r: int, c: int|
            0 <= r < rows && 0 <= c < cols ==> #[trigger] f(acc, r, c) == g(acc, r, c),
    ensures
        crate::numeric::fold2(f, init, rows, cols) == crate::numeric::fold2(g, init, rows, cols),
{
    assert forall|acc: T, r: int| 0 <= r < rows implies #[trigger] crate::numeric::outer_step(
        f,
        cols,
    )(acc, r) == crate::numeric::outer_step(g, cols)(acc, r) by {
        assert forall|a: T, c: int| 0 <= c < cols implies #[trigger] crate::numeric::inner_step(
            f,
            r,
        )(a, c) == crate::numeric::inner_step(g, r)(a, c) by {
            assert(f(a, r, c) == g(a, r, c));
        }
        lemma_fold_congruent(
            crate::numeric::inner_step(f, r),
            crate::numeric::inner_step(g, r),
            acc,
            cols,
        );
    }
    lemma_fold_congruent(
        crate::numeric::outer_step(f, cols),
        crate::numeric::outer_step(g, cols),
        init,
        rows,
    );
}

/// `a + b == b + a`.
pub proof fn lemma_add_commutes<T: Numeric>(a: T, b: T)
    requires
        is_exact::<T>(),
    ensures
        a.add_spec(b) == b.add_spec(a),
{
    reveal(is_exact);
}

/// `(a + b) + c == a + (b + c)`.
pub proof fn lemma_add_associates<T: Numeric>(a: T, b: T, c: T)
    requires
        is_exact::<T>(),
    ensures
        a.add_spec(b).add_spec(c) == a.add_spec(b.add_spec(c)),
{
    reveal(is_exact);
}

/// `a + 0 == a` and `0 + a == a`.
pub proof fn lemma_add_zero<T: Numeric>(a: T)
    requires
        is_exact::<T>(),
    ensures
        a.add_spec(T::zero_spec()) == a,
        T::zero_spec().add_spec(a) == a,
{
    reveal(is_exact);
}

/// `a * b == b * a`.
pub proof fn lemma_mul_commutes<T: Numeric>(a: T, b: T)
    requires
        is_exact::<T>(),
    ensures
        a.mul_spec(b) == b.mul_spec(a),
{
    reveal(is_exact);
}

/// `(a * b) * c == a * (b * c)`.
pub proof fn lemma_mul_associates<T: Numeric>(a: T, b: T, c: T)
    requires
        is_exact::<T>(),
    ensures
        a.mul_spec(b).mul_spec(c) == a.mul_spec(b.mul_spec(c)),
{
    reveal(is_exact);
}

/// `a * (b + c) == a * b + a * c`.
pub proof fn lemma_mul_distributes<T: Numeric>(a: T, b: T, c: T)
    requires
        is_exact::<T>(),
    ensures
        a.mul_spec(b.add_spec(c)) == a.mul_spec(b).add_spec(a.mul_spec(c)),
{
    reveal(is_exact);
}

/// `a * 0 == 0` and `0 * a == 0`.
pub proof fn lemma_mul_zero<T: Numeric>(a: T)
    requires
        is_exact::<T>(),
    ensures
        a.mul_spec(T::zero_spec()) == T::zero_spec(),
        T::zero_spec().mul_spec(a) == T::zero_spec(),
{
    reveal(is_exact);
}

/// `(a + b) + (c + d) == (a + c) + (b + d)`.
pub proof fn lemma_add_interchanges<T: Numeric>(a: T, b: T, c: T, d: T)
    requires
        is_exact::<T>(),
    ensures
        a.add_spec(b).add_spec(c.add_spec(d)) == a.add_spec(c).add_spec(b.add_spec(d)),
{
    lemma_add_associates(a, b, c.add_spec(d));
    lemma_add_associates(b, c, d);
    lemma_add_commutes(b, c);
    lemma_add_associates(c, b, d);
    lemma_add_associates(a, c, b.add_spec(d));
}

/// `(k * g) * x == g * (k * x)`.
pub proof fn lemma_mul_rotates<T: Numeric>(k: T, g: T, x: T)
    requires
        is_exact::<T>(),
    ensures
        k.mul_spec(g).mul_spec(x) == g.mul_spec(k.mul_spec(x)),
{
    lemma_mul_commutes(k, g);
    lemma_mul_associates(g, k, x);
}

/// The step that adds `f(i)`.
pub open spec fn add_step<T: Numeric>(f: spec_fn(int) -> T) -> spec_fn(T, int) -> T {
    |acc: T, i: int| acc.add_spec(f(i))
}

/// `f(0) + .. + f(n - 1)`, from the left, starting from zero.
pub open spec fn sum<T: Numeric>(f: spec_fn(int) -> T, n: nat) -> T {
    fold(add_step(f), T::zero_spec(), n)
}

/// Row `i` of `f`: the function `j -> f(i, j)`.
pub open spec fn row_of<T>(f: spec_fn(int, int) -> T, i: int) -> spec_fn(int) -> T {
    |j: int| f(i, j)
}

/// Column `j` of `f`: the function `i -> f(i, j)`.
pub open spec fn col_of<T>(f: spec_fn(int, int) -> T, j: int) -> spec_fn(int) -> T {
    |i: int| f(i, j)
}

/// The sums of the rows of `f` over `m` columns.
pub open spec fn row_sums<T: Numeric>(f: spec_fn(int, int) -> T, m: nat) -> spec_fn(int) -> T {
    |i: int| sum(row_of(f, i), m)
}

/// The sums of the columns of `f` over `n` rows.
pub open spec fn col_sums<T: Numeric>(f: spec_fn(int, int) -> T, n: nat) -> spec_fn(int) -> T {
    |j: int| sum(col_of(f, j), n)
}

/// A sum over `n + 1` terms is the sum over `n` terms and the last term.
pub proof fn lemma_sum_step<T: Numeric>(f: spec_fn(int) -> T, n: nat)
    ensures
        sum(f, n + 1) == sum(f, n).add_spec(f(n as int)),
        sum(f, 0) == T::zero_spec(),
{
    crate::numeric::lemma_fold_step(add_step(f), T::zero_spec(), n);
}

/// A fold whose step adds `f(i)` to its accumulator is the initial value
/// plus the sum of `f`.
pub proof fn lemma_fold_is_sum<T: Numeric>(
    step: spec_fn(T, int) -> T,
    f: spec_fn(int) -> T,
    init: T,
    n: nat,
)
    requires
        is_exact::<T>(),
        forall|acc: T, i: int| 0 <= i < n ==> #[trigger] step(acc, i) == acc.add_spec(f(i)),
    ensures
        fold(step, init, n) == init.add_spec(sum(f, n)),
    decreases n,
{
    if n == 0 {
        lemma_add_zero(init);
    } else {
        let k = (n - 1) as nat;
        lemma_fold_is_sum(step, f, init, k);
        crate::numeric::lemma_fold_step(step, init, k);
        lemma_sum_step(f, k);
        lemma_add_associates(init, sum(f, k), f(k as int));
    }
}

/// Sums of functions that agree term by term agree.
pub proof fn lemma_sum_congruent<T: Numeric>(f: spec_fn(int) -> T, g: spec_fn(int) -> T, n: nat)
    requires
        forall|i: int| 0 <= i < n ==> #[trigger] f(i) == g(i),
    ensures
        sum(f, n) == sum(g, n),
    decreases n,
{
    if n > 0 {
        let k = (n - 1) as nat;
        lemma_sum_congruent(f, g, k);
        lemma_sum_step(f, k);
        lemma_sum_step(g, k);
    }
}

/// A sum of zeros is zero.
pub proof fn lemma_sum_of_zeros<T: Numeric>(f: spec_fn(int) -> T, n: nat)
    requires
        is_exact::<T>(),
        forall|i: int| 0 <= i < n ==> #[trigger] f(i) == T::zero_spec(),
    ensures
        sum(f, n) == T::zero_spec(),
    decreases n,
{
    if n > 0 {
        let k = (n - 1) as nat;
        lemma_sum_of_zeros(f, k);
        lemma_sum_step(f, k);
        lemma_add_zero(T::zero_spec());
    }
}

/// A sum in which only term `k` may differ from zero is that term.
pub proof fn lemma_sum_of_one_term<T: Numeric>(f: spec_fn(int) -> T, n: nat, k: int)
    requires
        is_exact::<T>(),
        0 <= k < n,
        forall|i: int| 0 <= i < n && i != k ==> #[trigger] f(i) == T::zero_spec(),
    ensures
        sum(f, n) == f(k),
    decreases n,
{
    let last = (n - 1) as nat;
    lemma_sum_step(f, last);
    if k == last {
        lemma_sum_of_zeros(f, last);
        lemma_add_zero(f(k));
    } else {
        lemma_sum_of_one_term(f, last, k);
        lemma_add_zero(f(k));
    }
}

/// The sum of `f(i) + g(i)` is the sum of `f` plus the sum of `g`.
pub proof fn lemma_sum_adds<T: Numeric>(
    f: spec_fn(int) -> T,
    g: spec_fn(int) -> T,
    h: spec_fn(int) -> T,
    n: nat,
)
    requires
        is_exact::<T>(),
        forall|i: int| 0 <= i < n ==> #[trigger] h(i) == f(i).add_spec(g(i)),
    ensures
        sum(h, n) == sum(f, n).add_spec(sum(g, n)),
    decreases n,
{
    if n == 0 {
        lemma_add_zero(T::zero_spec());
    } else {
        let k = (n - 1) as nat;
        lemma_sum_adds(f, g, h, k);
        lemma_sum_step(f, k);
        lemma_sum_step(g, k);
        lemma_sum_step(h, k);
        lemma_add_interchanges(sum(f, k), sum(g, k), f(k as int), g(k as int));
    }
}

/// The sum of `c * f(i)` is `c` times the sum of `f`.
pub proof fn lemma_sum_scales<T: Numeric>(c: T, f: spec_fn(int) -> T, h: spec_fn(int) -> T, n: nat)
    requires
        is_exact::<T>(),
        forall|i: int| 0 <= i < n ==> #[trigger] h(i) == c.mul_spec(f(i)),
    ensures
        sum(h, n) == c.mul_spec(sum(f, n)),
    decreases n,
{
    if n == 0 {
        lemma_mul_zero(c);
    } else {
        let k = (n - 1) as nat;
        lemma_sum_scales(c, f, h, k);
        lemma_sum_step(f, k);
        lemma_sum_step(h, k);
        lemma_mul_distributes(c, sum(f, k), f(k as int));
    }
}

/// The sum of `f(i) * c` is the sum of `f` times `c`.
pub proof fn lemma_sum_scales_right<T: Numeric>(
    c: T,
    f: spec_fn(int) -> T,
    h: spec_fn(int) -> T,
    n: nat,
)
    requires
        is_exact::<T>(),
        forall|i: int| 0 <= i < n ==> #[trigger] h(i) == f(i).mul_spec(c),
    ensures
        sum(h, n) == sum(f, n).mul_spec(c),
{
    assert forall|i: int| 0 <= i < n implies #[trigger] h(i) == c.mul_spec(f(i)) by {
        lemma_mul_commutes(f(i), c);
    }
    lemma_sum_scales(c, f, h, n);
    lemma_mul_commutes(c, sum(f, n));
}

/// A sum over a grid may be taken row by row or column by column.
pub proof fn lemma_sum_exchanges<T: Numeric>(f: spec_fn(int, int) -> T, n: nat, m: nat)
    requires
        is_exact::<T>(),
    ensures
        sum(row_sums(f, m), n) == sum(col_sums(f, n), m),
    decreases n,
{
    if n == 0 {
        assert forall|j: int| 0 <= j < m implies #[trigger] col_sums(f, 0)(j) == T::zero_spec() by {
            lemma_sum_step(col_of(f, j), 0);
        }
        lemma_sum_of_zeros(col_sums(f, 0), m);
    } else {
        let k = (n - 1) as nat;
        lemma_sum_exchanges(f, k, m);
        lemma_sum_step(row_sums(f, m), k);
        assert forall|j: int| 0 <= j < m implies #[trigger] col_sums(f, n)(j) == col_sums(f, k)(
            j,
        ).add_spec(row_of(f, k as int)(j)) by {
            lemma_sum_step(col_of(f, j), k);
        }
        lemma_sum_adds(col_sums(f, k), row_of(f, k as int), col_sums(f, n), m);
    }
}

/// The grid that holds `a(m)` at `(idx(m), m)` and zero elsewhere.
pub open spec fn placed<T: Numeric>(a: spec_fn(int) -> T, idx: spec_fn(int) -> int) -> spec_fn(
    int,
    int,
) -> T {
    |n: int, m: int|
        if idx(m) == n {
            a(m)
        } else {
            T::zero_spec()
        }
}

/// A sum may be taken in another order: where `idx` maps the indices
/// below `m` one to one to indices below `n`, `b` holds at `idx(i)` what
/// `a` holds at `i`, and `b` is zero where `idx` does not reach, the sums
/// of `a` and `b` agree.
pub proof fn lemma_sum_reindexes<T: Numeric>(
    a: spec_fn(int) -> T,
    b: spec_fn(int) -> T,
    idx: spec_fn(int) -> int,
    m: nat,
    n: nat,
)
    requires
        is_exact::<T>(),
        forall|i: int| 0 <= i < m ==> 0 <= #[trigger] idx(i) < n && b(idx(i)) == a(i),
        forall|i: int, j: int| 0 <= i < m && 0 <= j < m && #[trigger] idx(i) == #[trigger] idx(j) ==> i == j,
        forall|k: int|
            0 <= k < n && (forall|i: int| 0 <= i < m ==> #[trigger] idx(i) != k) ==> #[trigger] b(k)
                == T::zero_spec(),
    ensures
        sum(a, m) == sum(b, n),
{
    let grid = placed(a, idx);
    assert forall|k: int| 0 <= k < n implies #[trigger] row_sums(grid, m)(k) == b(k) by {
        if exists|i: int| 0 <= i < m && #[trigger] idx(i) == k {
            let i = choose|i: int| 0 <= i < m && #[trigger] idx(i) == k;
            assert forall|j: int| 0 <= j < m && j != i implies #[trigger] row_of(grid, k)(j)
                == T::zero_spec() by {
                if idx(j) == k {
                    assert(idx(i) == idx(j));
                }
            }
            lemma_sum_of_one_term(row_of(grid, k), m, i);
        } else {
            assert forall|j: int| 0 <= j < m implies #[trigger] row_of(grid, k)(j)
                == T::zero_spec() by {
                assert(idx(j) != k);
            }
            lemma_sum_of_zeros(row_of(grid, k), m);
            assert(forall|i: int| 0 <= i < m ==> #[trigger] idx(i) != k);
        }
    }
    assert forall|i: int| 0 <= i < m implies #[trigger] col_sums(grid, n)(i) == a(i) by {
        assert(0 <= idx(i) < n);
        lemma_sum_of_one_term(col_of(grid, i), n, idx(i));
    }
    lemma_sum_congruent(row_sums(grid, m), b, n);
    lemma_sum_congruent(col_sums(grid, n), a, m);
    lemma_sum_exchanges(grid, n, m);
}

/// The products `a[i] * b[i]`.
pub open spec fn products<T: Numeric>(a: Seq<T>, b: Seq<T>) -> spec_fn(int) -> T {
    |i: int| a[i].mul_spec(b[i])
}

/// A dot product is the sum of the products.
pub proof fn lemma_dot_is_sum<T: Numeric>(a: Seq<T>, b: Seq<T>, n: nat)
    requires
        is_exact::<T>(),
    ensures
        crate::tensors::dot(a, b, n) == sum(products(a, b), n),
{
    lemma_fold_is_sum(crate::tensors::dot_step(a, b), products(a, b), T::zero_spec(), n);
    lemma_add_zero(sum(products(a, b), n));
}

/// What tap `t` of a kernel gathers for output `m`: the kernel's weight
/// at the tap times the input at the place `idx(m, t)` that the tap reads.
pub open spec fn gathered<T: Numeric>(
    ker: spec_fn(int) -> T,
    x: Seq<T>,
    idx: spec_fn(int, int) -> int,
) -> spec_fn(int, int) -> T {
    |m: int, t: int| ker(t).mul_spec(x[idx(m, t)])
}

/// What tap `t` of a kernel scatters to input `n`: the kernel's weight at
/// the tap times `back(n, t)`, the output gradient that reaches `n`
/// through the tap, or zero.
pub open spec fn scattered<T: Numeric>(
    ker: spec_fn(int) -> T,
    back: spec_fn(int, int) -> T,
) -> spec_fn(int, int) -> T {
    |n: int, t: int| ker(t).mul_spec(back(n, t))
}

/// `g[m] * f(m, t)`.
pub open spec fn scaled_left<T: Numeric>(g: Seq<T>, f: spec_fn(int, int) -> T) -> spec_fn(
    int,
    int,
) -> T {
    |m: int, t: int| g[m].mul_spec(f(m, t))
}

/// `f(n, t) * x[n]`.
pub open spec fn scaled_right<T: Numeric>(f: spec_fn(int, int) -> T, x: Seq<T>) -> spec_fn(
    int,
    int,
) -> T {
    |n: int, t: int| f(n, t).mul_spec(x[n])
}

/// The place that tap `t` reads, as a function of the output.
pub open spec fn at_tap(idx: spec_fn(int, int) -> int, t: int) -> spec_fn(int) -> int {
    |m: int| idx(m, t)
}

/// Whether tap `t` of a kernel scatters back what it gathers: the tap
/// reads, for each of the `m` outputs `i`, another of the `n` inputs,
/// `idx(i, t)`; `back` hands that input the gradient `g[i]`, and zero to
/// every input that the tap reads for no output.
pub open spec fn tap_scatters_back<T: Numeric>(
    g: Seq<T>,
    idx: spec_fn(int, int) -> int,
    back: spec_fn(int, int) -> T,
    m: nat,
    n: nat,
    t: int,
) -> bool {
    &&& forall|i: int|
        0 <= i < m ==> 0 <= #[trigger] at_tap(idx, t)(i) < n && back(idx(i, t), t) == g[i]
    &&& forall|i: int, j: int|
        0 <= i < m && 0 <= j < m && #[trigger] at_tap(idx, t)(i) == #[trigger] at_tap(idx, t)(j)
            ==> i == j
    &&& forall|k: int|
        0 <= k < n && (forall|i: int| 0 <= i < m ==> #[trigger] at_tap(idx, t)(i) != k)
            ==> #[trigger] back(k, t) == T::zero_spec()
}

/// Whether each of the `taps` taps of a kernel scatters back what it
/// gathers.
pub open spec fn scatters_back<T: Numeric>(
    g: Seq<T>,
    idx: spec_fn(int, int) -> int,
    back: spec_fn(int, int) -> T,
    m: nat,
    n: nat,
    taps: nat,
) -> bool {
    forall|t: int| 0 <= t < taps ==> #[trigger] tap_scatters_back(g, idx, back, m, n, t)
}

/// A kernel that scatters the gradient back through the taps through
/// which it gathers its input is its own adjoint: the gradient `g` times
/// the output `out` sums to what the input gradient `gin` times the input
/// `x` sums to.
pub proof fn lemma_gather_adjoint<T: Numeric>(
    ker: spec_fn(int) -> T,
    x: Seq<T>,
    g: Seq<T>,
    idx: spec_fn(int, int) -> int,
    back: spec_fn(int, int) -> T,
    out: Seq<T>,
    gin: Seq<T>,
    taps: nat,
)
    requires
        is_exact::<T>(),
        out.len() == g.len(),
        gin.len() == x.len(),
        forall|m: int|
            0 <= m < g.len() ==> #[trigger] out[m] == sum(
                row_of(gathered(ker, x, idx), m),
                taps,
            ),
        forall|n: int|
            0 <= n < x.len() ==> #[trigger] gin[n] == sum(row_of(scattered(ker, back), n), taps),
        scatters_back(g, idx, back, g.len(), x.len(), taps),
    ensures
        crate::tensors::dot(g, out, g.len()) == crate::tensors::dot(gin, x, x.len()),
{
    let m_len = g.len();
    let n_len = x.len();
    let forth = scaled_left(g, gathered(ker, x, idx));
    let fro = scaled_right(scattered(ker, back), x);
    lemma_dot_is_sum(g, out, m_len);
    lemma_dot_is_sum(gin, x, n_len);
    assert forall|m: int| 0 <= m < m_len implies #[trigger] products(g, out)(m) == row_sums(
        forth,
        taps,
    )(m) by {
        lemma_sum_scales(g[m], row_of(gathered(ker, x, idx), m), row_of(forth, m), taps);
    }
    lemma_sum_congruent(products(g, out), row_sums(forth, taps), m_len);
    lemma_sum_exchanges(forth, m_len, taps);
    assert forall|n: int| 0 <= n < n_len implies #[trigger] products(gin, x)(n) == row_sums(
        fro,
        taps,
    )(n) by {
        lemma_sum_scales_right(x[n], row_of(scattered(ker, back), n), row_of(fro, n), taps);
    }
    lemma_sum_congruent(products(gin, x), row_sums(fro, taps), n_len);
    lemma_sum_exchanges(fro, n_len, taps);
    assert forall|t: int| 0 <= t < taps implies #[trigger] col_sums(forth, m_len)(t) == col_sums(
        fro,
        n_len,
    )(t) by {
        let a = col_of(forth, t);
        let b = col_of(fro, t);
        let at = at_tap(idx, t);
        assert(tap_scatters_back(g, idx, back, m_len, n_len, t));
        assert forall|i: int| 0 <= i < m_len implies 0 <= #[trigger] at(i) < n_len && b(at(i))
            == a(i) by {
            lemma_mul_rotates(ker(t), g[i], x[idx(i, t)]);
        }
        assert forall|k: int|
            0 <= k < n_len && (forall|i: int| 0 <= i < m_len ==> #[trigger] at(i) != k) implies #[trigger] b(
            k,
        ) == T::zero_spec() by {
            assert(back(k, t) == T::zero_spec());
            lemma_mul_zero(ker(t));
            lemma_mul_zero(x[k]);
        }
        lemma_sum_reindexes(a, b, at, m_len, n_len);
    }
    lemma_sum_congruent(col_sums(forth, m_len), col_sums(fro, n_len), taps);
}

} // verus!
