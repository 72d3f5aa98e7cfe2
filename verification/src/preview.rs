//! The choice of the DCT scaling a JPEG is decoded at before it is resized.
use vstd::prelude::*;

verus! {

/// A decoding scale `num / denom`.
#[derive(Debug, Clone, Copy, PartialEq, Eq, Structural)]
pub struct ScaleFactor {
    pub num: usize,
    pub denom: usize,
}

/// A dimension scaled by a factor, rounded up.
pub open spec fn spec_scale(f: ScaleFactor, dim: nat) -> int {
    (dim * f.num + f.denom - 1) / (f.denom as int)
}

/// A factor that can scale `dim` without overflow.
pub open spec fn factor_fits(f: ScaleFactor, dim: nat) -> bool {
    f.denom > 0 && dim * f.num + f.denom <= usize::MAX
}

/// A factor that scales `src_dim` to at least `target_dim`.
pub open spec fn reaches(f: ScaleFactor, src_dim: nat, target_dim: nat) -> bool {
    spec_scale(f, src_dim) >= target_dim
}

impl ScaleFactor {
    /// The factor that leaves an image as it is.
    pub open spec fn spec_one() -> ScaleFactor {
        ScaleFactor { num: 1, denom: 1 }
    }

    /// `dim` scaled by the factor, rounded up.
    pub fn scale(&self, dim: usize) -> (r: usize)
        requires
            factor_fits(*self, dim as nat),
        ensures
            r == spec_scale(*self, dim as nat),
    {
        (dim * self.num + self.denom - 1) / self.denom
    }
}

/// Picks the factor a JPEG whose long edge is `src_dim` is decoded at to
/// produce a long edge of `target_dim`: among the factors that scale to at
/// least the target, the first of those scaling least; the identity when
/// none reaches the target.
pub fn pick_scaling_factor(factors: &Vec<ScaleFactor>, src_dim: usize, target_dim: usize) -> (r: ScaleFactor)
    requires
        forall|i: int| 0 <= i < factors@.len() ==> factor_fits(#[trigger] factors@[i], src_dim as nat),
    ensures
        (exists|i: int| 0 <= i < factors@.len() && reaches(#[trigger] factors@[i], src_dim as nat, target_dim as nat))
            ==> exists|i: int| {
            &&& 0 <= i < factors@.len()
            &&& #[trigger] factors@[i] == r
            &&& reaches(r, src_dim as nat, target_dim as nat)
            &&& forall|j: int| 0 <= j < factors@.len() && reaches(#[trigger] factors@[j], src_dim as nat, target_dim as nat)
                ==> spec_scale(r, src_dim as nat) <= spec_scale(factors@[j], src_dim as nat)
            &&& forall|j: int| 0 <= j < i && reaches(#[trigger] factors@[j], src_dim as nat, target_dim as nat)
                ==> spec_scale(r, src_dim as nat) < spec_scale(factors@[j], src_dim as nat)
        },
        !(exists|i: int| 0 <= i < factors@.len() && reaches(#[trigger] factors@[i], src_dim as nat, target_dim as nat))
            ==> r == ScaleFactor::spec_one(),
{
    let n = factors.len();
    let mut best: Option<(usize, ScaleFactor, usize)> = None;
    let mut i: usize = 0;
    while i < n
        invariant
            n == factors@.len(),
            0 <= i <= n,
            forall|k: int| 0 <= k < factors@.len() ==> factor_fits(#[trigger] factors@[k], src_dim as nat),
            match best {
                None => forall|j: int| 0 <= j < i ==> !reaches(#[trigger] factors@[j], src_dim as nat, target_dim as nat),
                Some((b, f, s)) => {
                    &&& b < i
                    &&& factors@[b as int] == f
                    &&& s == spec_scale(f, src_dim as nat)
                    &&& reaches(f, src_dim as nat, target_dim as nat)
                    &&& forall|j: int| 0 <= j < i && reaches(#[trigger] factors@[j], src_dim as nat, target_dim as nat)
                        ==> s <= spec_scale(factors@[j], src_dim as nat)
                    &&& forall|j: int| 0 <= j < b && reaches(#[trigger] factors@[j], src_dim as nat, target_dim as nat)
                        ==> s < spec_scale(factors@[j], src_dim as nat)
                },
            },
        decreases n - i,
    {
        let f = factors[i];
        let s = f.scale(src_dim);
        if s >= target_dim {
            match best {
                None => {
                    best = Some((i, f, s));
                },
                Some((_, _, bs)) => {
                    if s < bs {
                        best = Some((i, f, s));
                    }
                },
            }
        }
        i += 1;
    }
    match best {
        Some((b, f, _)) => {
            assert(factors@[b as int] == f);
            f
        },
        None => ScaleFactor { num: 1, denom: 1 },
    }
}


/// The law of scaling: a scaled dimension is `dim * num / denom` rounded up,
/// the least whole number of at least that size.
pub proof fn law_scale_rounds_up(f: ScaleFactor, dim: nat)
    requires
        f.denom > 0,
    ensures
        spec_scale(f, dim) * f.denom >= dim * f.num,
        (spec_scale(f, dim) - 1) * f.denom < dim * f.num,
        spec_scale(f, dim) >= 0,
{
    let n = (dim * f.num) as int;
    let d = f.denom as int;
    let q = (n + d - 1) / d;
    let r = (n + d - 1) % d;
    assert(n + d - 1 == q * d + r) by (nonlinear_arith)
        requires
            q == (n + d - 1) / d,
            r == (n + d - 1) % d,
            d > 0,
    ;
    assert(0 <= r < d);
    assert(q * d >= n);
    assert((q - 1) * d < n) by (nonlinear_arith)
        requires
            n + d - 1 == q * d + r,
            0 <= r,
    ;
    assert(q >= 0) by (nonlinear_arith)
        requires
            q * d >= n,
            n >= 0,
            d > 0,
            (q - 1) * d < n,
            n + d - 1 == q * d + r,
            0 <= r < d,
    ;
}
} // verus!
