//! Colormap logic that needs no floating point: where an input falls on a table of samples,
//! and evaluation of a colormap over many inputs at once.
use vstd::arithmetic::power2::{
    lemma2_to64, lemma_pow2_adds, lemma_pow2_pos, lemma_pow2_strictly_increases, lemma_pow2_unfold,
    pow2,
};
use vstd::arithmetic::div_mod::{lemma_fundamental_div_mod, lemma_small_mod};
use vstd::prelude::*;

verus! {

/// Where an input of the unit interval falls on a table of equally spaced samples.
///
/// The input is given exactly as `m / 2^k`; on a table of `n` rows it lies at the continuous
/// index `(n - 1) * m / 2^k`. That index is `lower` plus the fraction `frac_num / 2^frac_shift`,
/// which is below 1. When the fraction is 0 the input sits on row `lower` and `upper == lower`;
/// otherwise it lies between rows `lower` and `upper == lower + 1`.
#[derive(Debug, Copy, Clone, PartialEq, Eq, Structural)]
pub struct GridPoint {
    pub lower: usize,
    pub upper: usize,
    pub frac_num: u128,
    pub frac_shift: u32,
}

/// The continuous table index of `m / 2^k` on `n` rows, scaled by `2^k`.
pub open spec fn scaled_index(n_rows: nat, m: nat) -> nat {
    m * (n_rows - 1) as nat
}

/// The row at or below the continuous index of `m / 2^k` on `n` rows.
pub open spec fn lower_row(n_rows: nat, m: nat, k: nat) -> nat {
    scaled_index(n_rows, m) / pow2(k)
}

/// The fraction past `lower_row`, scaled by `2^k`.
pub open spec fn frac_scaled(n_rows: nat, m: nat, k: nat) -> nat {
    scaled_index(n_rows, m) % pow2(k)
}

/// `m / 2^k` is a position of the unit interval, on a table that has rows.
pub open spec fn valid_position(n_rows: nat, m: nat, k: nat) -> bool {
    n_rows >= 1 && m <= pow2(k)
}

/// The grid point that `m / 2^k` falls on, on a table of `n` rows.
pub open spec fn grid_point_of(n_rows: nat, m: nat, k: nat) -> GridPoint {
    let lower = lower_row(n_rows, m, k);
    let frac = frac_scaled(n_rows, m, k);
    GridPoint {
        lower: lower as usize,
        upper: (if frac == 0 { lower } else { lower + 1 }) as usize,
        frac_num: frac as u128,
        frac_shift: k as u32,
    }
}

/// 2 to the power 128, the bound of `u128`.
proof fn lemma_pow2_128()
    ensures
        pow2(128) == 0x1_0000_0000_0000_0000_0000_0000_0000_0000,
{
    lemma2_to64();
    lemma_pow2_adds(64, 64);
}

/// `2^k` for `k` below 128.
fn pow2_u128(k: u32) -> (r: u128)
    requires
        k < 128,
    ensures
        r as nat == pow2(k as nat),
{
    let mut d: u128 = 1;
    let mut i: u32 = 0;
    proof {
        lemma2_to64();
    }
    while i < k
        invariant
            i <= k < 128,
            d as nat == pow2(i as nat),
        decreases k - i,
    {
        proof {
            lemma_pow2_unfold((i + 1) as nat);
            lemma_pow2_strictly_increases((i + 1) as nat, 128);
            lemma_pow2_128();
        }
        d = d * 2;
        i = i + 1;
    }
    d
}

/// Locates the input `m / 2^k` (between 0 and 1) on a table of `n_rows` rows: the row it sits
/// on, or the two neighbouring rows it lies between and how far past the first. Both rows are
/// within the table.
pub fn locate_row(n_rows: usize, m: u64, k: u32) -> (r: GridPoint)
    requires
        valid_position(n_rows as nat, m as nat, k as nat),
    ensures
        r == grid_point_of(n_rows as nat, m as nat, k as nat),
        r.lower <= r.upper < n_rows,
{
    let ghost n = n_rows as nat;
    let ghost p = pow2(k as nat);
    assert((m as nat) * ((n_rows - 1) as nat) <= 0xffff_ffff_ffff_ffff * 0xffff_ffff_ffff_ffff)
        by (nonlinear_arith)
        requires
            m as nat <= 0xffff_ffff_ffff_ffff,
            (n_rows - 1) as nat <= 0xffff_ffff_ffff_ffff,
    ;
    let product: u128 = (m as u128) * ((n_rows - 1) as u128);
    proof {
        lemma_pow2_pos(k as nat);
        assert(product as nat == scaled_index(n, m as nat));
        // the index is at most n - 1, and at n - 1 only on the last row
        assert(m as nat * (n - 1) as nat <= p * (n - 1) as nat) by (nonlinear_arith)
            requires
                m as nat <= p,
        ;
        assert(product as nat / p <= (n - 1) as nat) by (nonlinear_arith)
            requires
                product as nat <= p * (n - 1) as nat,
                p > 0,
        ;
        lemma_fundamental_div_mod(product as int, p as int);
        assert(product as nat / p == (n - 1) as nat ==> product as nat % p == 0)
            by (nonlinear_arith)
            requires
                product as nat <= p * (n - 1) as nat,
                p > 0,
                product as nat == p * (product as nat / p) + product as nat % p,
        ;
    }
    let (lower, frac): (u128, u128) = if k >= 128 {
        proof {
            lemma_pow2_128();
            if k > 128 {
                lemma_pow2_strictly_increases(128, k as nat);
            }
            lemma_small_mod(product as nat, p);
            assert(product as nat / p == 0) by (nonlinear_arith)
                requires
                    product as nat == p * (product as nat / p) + product as nat % p,
                    product as nat % p == product as nat,
                    p > 0,
            ;
        }
        (0, product)
    } else {
        let d = pow2_u128(k);
        (product / d, product % d)
    };
    let lower = lower as usize;
    let upper = if frac == 0 {
        lower
    } else {
        lower + 1
    };
    GridPoint { lower, upper, frac_num: frac, frac_shift: k }
}

/// An input that is exactly the position of row `i`, `i / (n - 1)`, gives row `i` itself with
/// no fraction. In particular 0 gives the first row and 1 the last.
pub proof fn lemma_grid_point_on_row(n_rows: nat, m: nat, k: nat, i: nat)
    requires
        valid_position(n_rows, m, k),
        scaled_index(n_rows, m) == i * pow2(k),
    ensures
        lower_row(n_rows, m, k) == i,
        frac_scaled(n_rows, m, k) == 0,
{
    lemma_pow2_pos(k);
    let p = pow2(k);
    assert((i * p) / p == i && (i * p) % p == 0) by (nonlinear_arith)
        requires
            p > 0,
    ;
}

/// Evaluates `transform_single` on every input, eagerly and in order: the `i`-th output is what
/// `transform_single` gave for the `i`-th input. Every input is evaluated exactly once, first to
/// last, so a colormap whose evaluation carries state sees the inputs in their given order.
pub fn transform_each<X: Copy, T, F: Fn(X) -> T>(transform_single: &F, inputs: &[X]) -> (r: Vec<T>)
    requires
        forall|i: int| 0 <= i < inputs@.len() ==> transform_single.requires((#[trigger] inputs@[i],)),
    ensures
        r@.len() == inputs@.len(),
        forall|i: int|
            0 <= i < inputs@.len() ==> transform_single.ensures((inputs@[i],), #[trigger] r@[i]),
{
    let mut out: Vec<T> = Vec::new();
    let mut i: usize = 0;
    while i < inputs.len()
        invariant
            i <= inputs@.len(),
            out@.len() == i,
            forall|k: int| 0 <= k < inputs@.len() ==> transform_single.requires((#[trigger] inputs@[k],)),
            forall|k: int| 0 <= k < i ==> transform_single.ensures((inputs@[k],), #[trigger] out@[k]),
        decreases inputs@.len() - i,
    {
        let y = transform_single(inputs[i]);
        out.push(y);
        i = i + 1;
    }
    out
}

} // verus!
