use vstd::prelude::*;

use crate::error::SlalError;
use crate::error::SlalErr;
use crate::matrix::Matrix;
use crate::ops::dot_prefix;
use crate::ops::dot_val;
use crate::rational::Rat;
use crate::rational::Rational;
use crate::rational::rat_int;
use crate::rational::rat_sub;
use crate::scalar::WideScalar;

verus! {

/// The fixed-point scale of the iteration vector: two to the twentieth
/// power. The Rayleigh quotient is stationary at an eigenvector, so the
/// eigenvalue estimate is sharp to roughly the square of the vector's
/// quantization step, fine enough for the convergence tolerance, while
/// the comparison arithmetic stays well inside the promoted kind.
pub const SCALE: i128 = 0x10_0000;

/// The reciprocal of the convergence tolerance on the eigenvalue
/// estimate.
pub const TOL_DEN: i128 = 10_000_000_000;

/// The magnitude of `x`.
pub open spec fn iabs(x: int) -> int {
    if x < 0 {
        -x
    } else {
        x
    }
}

/// The mathematical values of a vector of promoted-kind integers.
pub open spec fn ivals(s: Seq<i128>) -> Seq<int> {
    s.map(|k: int, x: i128| x as int)
}

/// The largest magnitude among the first `k` entries.
pub open spec fn max_abs_prefix(s: Seq<int>, k: int) -> int
    decreases k,
{
    if k <= 0 {
        0
    } else if iabs(s[k - 1]) > max_abs_prefix(s, k - 1) {
        iabs(s[k - 1])
    } else {
        max_abs_prefix(s, k - 1)
    }
}

/// The largest magnitude among the entries.
pub open spec fn max_abs_spec(s: Seq<int>) -> int {
    max_abs_prefix(s, s.len() as int)
}

/// `x` brought to the fixed-point scale of a vector whose largest
/// magnitude is `m`: the sign of `x` times `|x| * SCALE / m`, rounded
/// towards zero.
pub open spec fn scaled_div(x: int, m: int) -> int {
    if x < 0 {
        -((-x) * (SCALE as int) / m)
    } else {
        x * (SCALE as int) / m
    }
}

/// The vector scaled so that its largest magnitude becomes the
/// fixed-point unit.
pub open spec fn normalized(s: Seq<int>) -> Seq<int> {
    Seq::new(s.len(), |k: int| scaled_div(s[k], max_abs_spec(s)))
}

/// The grid applied to a vector: entry `j` is row `j` times the vector.
pub open spec fn apply_grid(g: Seq<Seq<int>>, u: Seq<int>) -> Seq<int> {
    Seq::new(g.len(), |j: int| dot_val(g[j], u))
}

/// Whether two estimates differ by less than the convergence tolerance.
pub open spec fn rat_close(a: Rat, b: Rat) -> bool {
    iabs(rat_sub(a, b).n) * (TOL_DEN as int) < iabs(rat_sub(a, b).d)
}

/// Every entry is nonzero.
pub open spec fn nonzero_all(u: Seq<int>) -> bool {
    forall|k: int| 0 <= k < u.len() ==> u[k] != 0
}

/// The vector is a nonzero random start vector, either raw or brought to
/// the fixed-point scale.
pub open spec fn seed_shape(s: Seq<int>) -> bool {
    exists|u: Seq<int>|
        #[trigger] nonzero_all(u) && u.len() == s.len() && (s == u || (max_abs_spec(u) > 0 && s
            == normalized(u)))
}

/// One accepted step of power iteration on the grid `g`: the vector `s`
/// is the renormalized image of the previous iterate `u`, and the
/// estimate `lam` is the Rayleigh quotient of `u`.
pub open spec fn eigen_step(g: Seq<Seq<int>>, u: Seq<int>, s: Seq<int>, lam: Rat) -> bool {
    &&& u.len() == g.len()
    &&& lam.n == dot_val(u, apply_grid(g, u))
    &&& lam.d == dot_val(u, u)
    &&& lam.d != 0
    &&& max_abs_spec(apply_grid(g, u)) > 0
    &&& s == normalized(apply_grid(g, u))
}

/// The numerators of a vector of ratios.
pub open spec fn seq_nums(s: Seq<Rational>) -> Seq<int> {
    s.map(|k: int, r: Rational| r.n as int)
}

/// The magnitude of `x`, where it fits the kind.
fn abs_checked(x: i128) -> (r: Option<i128>)
    ensures
        r matches Some(v) ==> v as int == iabs(x as int),
        r is None <==> x == i128::MIN,
{
    if x == i128::MIN {
        None
    } else if x < 0 {
        Some(-x)
    } else {
        Some(x)
    }
}

/// The largest magnitude among the entries, where every magnitude fits
/// the kind.
fn max_abs(v: &Vec<i128>) -> (r: Option<i128>)
    ensures
        r matches Some(m) ==> m as int == max_abs_spec(ivals(v@)),
{
    let mut best: i128 = 0;
    let mut k: usize = 0;
    let n = v.len();
    while k < n
        invariant
            0 <= k <= n,
            n == v@.len(),
            best as int == max_abs_prefix(ivals(v@), k as int),
        decreases n - k,
    {
        match abs_checked(v[k]) {
            Some(a) => {
                proof {
                    assert(ivals(v@)[k as int] == v@[k as int] as int);
                }
                if a > best {
                    best = a;
                }
            },
            None => {
                return None;
            },
        }
        k = k + 1;
    }
    Some(best)
}

/// The entries brought to the fixed-point scale of the largest magnitude;
/// fails on a zero vector or when the arithmetic leaves the kind.
fn normalize_scaled(v: &Vec<i128>) -> (r: Option<Vec<i128>>)
    ensures
        r matches Some(nv) ==> nv@.len() == v@.len() && max_abs_spec(ivals(v@)) > 0 && ivals(nv@)
            == normalized(ivals(v@)),
{
    let m = match max_abs(v) {
        Some(m) => m,
        None => {
            return None;
        },
    };
    if m == 0 {
        return None;
    }
    let n = v.len();
    let mut nv: Vec<i128> = Vec::new();
    let mut k: usize = 0;
    while k < n
        invariant
            0 <= k <= n,
            n == v@.len(),
            nv@.len() == k,
            m > 0,
            m as int == max_abs_spec(ivals(v@)),
            forall|t: int|
                0 <= t < k ==> nv@[t] as int == #[trigger] scaled_div(
                    ivals(v@)[t],
                    max_abs_spec(ivals(v@)),
                ),
        decreases n - k,
    {
        let e = v[k];
        let mag = match abs_checked(e) {
            Some(a) => a,
            None => {
                return None;
            },
        };
        let scaled = match mag.checked_mul(SCALE) {
            Some(s) => s,
            None => {
                return None;
            },
        };
        proof {
            assert(scaled as int == iabs(e as int) * (SCALE as int));
            assert(iabs(e as int) * (SCALE as int) >= 0) by (nonlinear_arith)
                requires
                    iabs(e as int) >= 0,
            ;
        }
        let q = scaled / m;
        let val = if e < 0 {
            -q
        } else {
            q
        };
        proof {
            assert(ivals(v@)[k as int] == e as int);
            assert(val as int == scaled_div(e as int, m as int));
        }
        nv.push(val);
        k = k + 1;
    }
    proof {
        assert forall|t: int|
            0 <= t < n implies ivals(nv@)[t] == normalized(ivals(v@))[t] by {
            assert(ivals(nv@)[t] == nv@[t] as int);
        }
        assert(ivals(nv@) =~= normalized(ivals(v@)));
    }
    Some(nv)
}

/// The inner product of two equal-length fixed-point vectors, where the
/// arithmetic stays inside the kind.
fn dot_checked(a: &Vec<i128>, b: &Vec<i128>) -> (r: Option<i128>)
    requires
        a@.len() == b@.len(),
    ensures
        r matches Some(s) ==> s as int == dot_val(ivals(a@), ivals(b@)),
{
    let n = a.len();
    let mut acc: i128 = 0;
    let mut k: usize = 0;
    while k < n
        invariant
            0 <= k <= n,
            n == a@.len() == b@.len(),
            acc as int == dot_prefix(ivals(a@), ivals(b@), k as int),
        decreases n - k,
    {
        let p = match a[k].checked_mul(b[k]) {
            Some(p) => p,
            None => {
                return None;
            },
        };
        proof {
            assert(ivals(a@)[k as int] == a@[k as int] as int);
            assert(ivals(b@)[k as int] == b@[k as int] as int);
            assert(dot_prefix(ivals(a@), ivals(b@), k + 1) == dot_prefix(
                ivals(a@),
                ivals(b@),
                k as int,
            ) + ivals(a@)[k as int] * ivals(b@)[k as int]);
        }
        acc = match acc.checked_add(p) {
            Some(s) => s,
            None => {
                return None;
            },
        };
        k = k + 1;
    }
    Some(acc)
}

/// The matrix applied to a fixed-point vector, where the arithmetic
/// stays inside the kind.
fn mat_vec_checked(m: &Matrix<i128>, v: &Vec<i128>) -> (r: Option<Vec<i128>>)
    requires
        m.wf(),
        v@.len() == m.width,
    ensures
        r matches Some(w) ==> w@.len() == m.height && ivals(w@) == apply_grid(m@, ivals(v@)),
{
    let h = m.size().1;
    let n = m.size().0;
    let mut w: Vec<i128> = Vec::new();
    let mut j: usize = 0;
    while j < h
        invariant
            0 <= j <= h,
            h == m.height,
            n == m.width == v@.len(),
            m.wf(),
            w@.len() == j,
            forall|t: int| 0 <= t < j ==> w@[t] as int == dot_val(#[trigger] m@[t], ivals(v@)),
        decreases h - j,
    {
        let mut acc: i128 = 0;
        let mut i: usize = 0;
        while i < n
            invariant
                0 <= i <= n,
                0 <= j < h,
                h == m.height,
                n == m.width == v@.len(),
                m.wf(),
                acc as int == dot_prefix(m@[j as int], ivals(v@), i as int),
            decreases n - i,
        {
            let p = match m.get(j, i).checked_mul(v[i]) {
                Some(p) => p,
                None => {
                    return None;
                },
            };
            proof {
                assert(ivals(v@)[i as int] == v@[i as int] as int);
                assert(dot_prefix(m@[j as int], ivals(v@), i + 1) == dot_prefix(
                    m@[j as int],
                    ivals(v@),
                    i as int,
                ) + m@[j as int][i as int] * ivals(v@)[i as int]);
            }
            acc = match acc.checked_add(p) {
                Some(s) => s,
                None => {
                    return None;
                },
            };
            i = i + 1;
        }
        w.push(acc);
        j = j + 1;
    }
    proof {
        assert forall|t: int|
            0 <= t < h implies ivals(w@)[t] == apply_grid(m@, ivals(v@))[t] by {
            assert(ivals(w@)[t] == w@[t] as int);
        }
        assert(ivals(w@) =~= apply_grid(m@, ivals(v@)));
    }
    Some(w)
}

/// Whether two estimates differ by less than the convergence tolerance,
/// where the comparison's arithmetic stays inside the kind.
fn close_enough(a: &Rational, b: &Rational) -> (r: Option<bool>)
    requires
        a.wf(),
        b.wf(),
    ensures
        r matches Some(c) ==> (c <==> rat_close(a@, b@)),
{
    let d1 = match a.n.checked_mul(b.d) {
        Some(x) => x,
        None => {
            return None;
        },
    };
    let d2 = match b.n.checked_mul(a.d) {
        Some(x) => x,
        None => {
            return None;
        },
    };
    let num = match d1.checked_sub(d2) {
        Some(x) => x,
        None => {
            return None;
        },
    };
    let den = match a.d.checked_mul(b.d) {
        Some(x) => x,
        None => {
            return None;
        },
    };
    let num_abs = match abs_checked(num) {
        Some(x) => x,
        None => {
            return None;
        },
    };
    let den_abs = match abs_checked(den) {
        Some(x) => x,
        None => {
            return None;
        },
    };
    let lhs = match num_abs.checked_mul(TOL_DEN) {
        Some(x) => x,
        None => {
            return None;
        },
    };
    proof {
        assert(num as int == rat_sub(a@, b@).n);
        assert(den as int == rat_sub(a@, b@).d);
    }
    Some(lhs < den_abs)
}

/// Best-effort approximation of the dominant eigenpair by power
/// iteration.
pub trait Eigen {
    type Output;

    /// What the approximation asks of the value.
    spec fn eigen_req(&self) -> bool;

    /// Everything the approximation promises of its result.
    spec fn eigen_post(&self, r: Self::Output) -> bool;

    /// Approximates the dominant eigenpair: from a random nonzero start
    /// vector, repeatedly applies the matrix, renormalizes, and estimates
    /// the eigenvalue by the Rayleigh quotient, stopping early once two
    /// successive estimates agree within the tolerance. No convergence is
    /// promised: the result is a best-effort approximation, meaningful
    /// chiefly when one eigenvalue strictly dominates.
    fn eigen(&self) -> (r: Self::Output)
        requires
            self.eigen_req(),
        ensures
            self.eigen_post(r),
    ;
}

impl<T: WideScalar> Eigen for Matrix<T> {
    type Output = SlalErr<(Vec<Rational>, Rational)>;

    /// A valid matrix.
    open spec fn eigen_req(&self) -> bool {
        self.wf()
    }

    /// A non-square matrix is rejected. Otherwise the result is `Ok`, the
    /// vector has the matrix's height, and every entry is a ratio at the
    /// fixed-point scale. Whatever the random draw and however many
    /// iterations completed before the arithmetic left the kind: either
    /// no iteration was accepted — the estimate is still the initial zero
    /// and the vector is the nonzero random start vector, raw or brought
    /// to scale — or the vector is the renormalized image of the last
    /// accepted iterate and the estimate is that iterate's Rayleigh
    /// quotient. The vector is normalized by its largest magnitude, which
    /// exact arithmetic can do where an Euclidean norm would need a
    /// square root.
    open spec fn eigen_post(&self, r: SlalErr<(Vec<Rational>, Rational)>) -> bool {
        &&& !self.is_square() ==> r == SlalErr::<(Vec<Rational>, Rational)>::Err(
            SlalError::NotSquareMatrix,
        )
        &&& self.is_square() ==> (r matches Ok(p) && p.0@.len() == self.height && (forall|k: int|
            0 <= k < p.0@.len() ==> (#[trigger] p.0@[k]).d == SCALE) && p.1.wf() && ((p.1@
            == rat_int(0) && seed_shape(seq_nums(p.0@))) || (exists|u: Seq<int>|
            eigen_step(self@, u, seq_nums(p.0@), p.1@))))
    }

    fn eigen(&self) -> (r: SlalErr<(Vec<Rational>, Rational)>) {
        if !self.is_sq() {
            return Err(SlalError::NotSquareMatrix);
        }
        let n = self.size().0;
        let wide = self.promote();
        let mut v: Vec<i128> = Vec::new();
        let mut k: usize = 0;
        while k < n
            invariant
                0 <= k <= n,
                v@.len() == k,
                forall|t: int| 0 <= t < k ==> #[trigger] v@[t] as int != 0,
            decreases n - k,
        {
            v.push(crate::random::sample_nonzero::<T>().to_wide());
            k = k + 1;
        }
        let ghost seedv = ivals(v@);
        proof {
            assert forall|t: int| 0 <= t < n implies #[trigger] seedv[t] != 0 by {
                assert(seedv[t] == v@[t] as int);
            }
            assert(nonzero_all(seedv));
        }
        if let Some(nv) = normalize_scaled(&v) {
            v = nv;
        }
        proof {
            assert(seed_shape(ivals(v@)));
        }
        let mut lambda = Rational::from_int(0);
        let mut it: usize = 0;
        while it < 100
            invariant
                0 <= it <= 100,
                v@.len() == n,
                n == self.width == self.height,
                wide.wf(),
                wide.width == n,
                wide.height == n,
                wide@ == self@,
                lambda.wf(),
                (lambda@ == rat_int(0) && seed_shape(ivals(v@))) || (exists|u: Seq<int>|
                    eigen_step(self@, u, ivals(v@), lambda@)),
            decreases 100 - it,
        {
            let w = match mat_vec_checked(&wide, &v) {
                Some(w) => w,
                None => {
                    break ;
                },
            };
            let num = match dot_checked(&v, &w) {
                Some(x) => x,
                None => {
                    break ;
                },
            };
            let den = match dot_checked(&v, &v) {
                Some(x) => x,
                None => {
                    break ;
                },
            };
            if den == 0 {
                break ;
            }
            let lambda_new = Rational { n: num, d: den };
            let v_new = match normalize_scaled(&w) {
                Some(x) => x,
                None => {
                    break ;
                },
            };
            let conv = match close_enough(&lambda_new, &lambda) {
                Some(c) => c,
                None => {
                    break ;
                },
            };
            if conv {
                break ;
            }
            proof {
                let u = ivals(v@);
                assert(ivals(w@) == apply_grid(self@, u));
                assert(lambda_new@.n == dot_val(u, apply_grid(self@, u)));
                assert(lambda_new@.d == dot_val(u, u));
                assert(max_abs_spec(apply_grid(self@, u)) > 0);
                assert(ivals(v_new@) == normalized(apply_grid(self@, u)));
                assert(eigen_step(self@, u, ivals(v_new@), lambda_new@));
            }
            v = v_new;
            lambda = lambda_new;
            it = it + 1;
        }
        let mut rv: Vec<Rational> = Vec::new();
        let mut k2: usize = 0;
        while k2 < n
            invariant
                0 <= k2 <= n,
                v@.len() == n,
                n == self.width == self.height,
                lambda.wf(),
                (lambda@ == rat_int(0) && seed_shape(ivals(v@))) || (exists|u: Seq<int>|
                    eigen_step(self@, u, ivals(v@), lambda@)),
                rv@.len() == k2,
                forall|t: int| 0 <= t < k2 ==> (#[trigger] rv@[t]).d == SCALE,
                forall|t: int| 0 <= t < k2 ==> (#[trigger] rv@[t]).n == v@[t],
            decreases n - k2,
        {
            rv.push(Rational { n: v[k2], d: SCALE });
            k2 = k2 + 1;
        }
        proof {
            assert forall|t: int| 0 <= t < n implies seq_nums(rv@)[t] == ivals(v@)[t] by {
                assert(seq_nums(rv@)[t] == rv@[t].n as int);
                assert(ivals(v@)[t] == v@[t] as int);
            }
            assert(seq_nums(rv@) =~= ivals(v@));
            if lambda@ == rat_int(0) {
            } else {
                let u = choose|u: Seq<int>| eigen_step(self@, u, ivals(v@), lambda@);
                assert(eigen_step(self@, u, seq_nums(rv@), lambda@));
            }
        }
        Ok((rv, lambda))
    }
}

} // verus!
