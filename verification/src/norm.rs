use vstd::prelude::*;

use crate::matrix::Matrix;
use crate::ops::dot_fits;
use crate::ops::dot_prefix;
use crate::ops::dot_val;
use crate::ops::in_range;
use crate::ops::prod2;
use crate::scalar::WideScalar;
use crate::vertex::Vertex;

verus! {

/// Column `i` of the grid `g` of height `h`.
pub open spec fn col_of(g: Seq<Seq<int>>, h: int, i: int) -> Seq<int> {
    Seq::new(h as nat, |j: int| g[j][i])
}

/// The exact sum of squares of a vertex — the integer core of its
/// Euclidean magnitude; only the square root is left to floating point,
/// outside the verified library. Defined exactly when every partial
/// value fits the promoted kind.
pub fn square_sum<T: WideScalar>(v: &Vertex<T>) -> (r: Option<i128>)
    ensures
        r is Some <==> dot_fits::<i128>(v@, v@),
        r matches Some(s) ==> s as int == dot_val(v@, v@),
{
    let n = v.len();
    let mut acc: i128 = 0;
    let mut k: usize = 0;
    while k < n
        invariant
            0 <= k <= n,
            n == v@.len(),
            acc as int == dot_prefix(v@, v@, k as int),
            forall|t: int| 0 <= t < k ==> in_range::<i128>(#[trigger] prod2(v@, v@, t)),
            forall|t: int| 0 <= t <= k ==> in_range::<i128>(#[trigger] dot_prefix(v@, v@, t)),
        decreases n - k,
    {
        let w = v.get(k).to_wide();
        let p = match w.checked_mul(w) {
            Some(p) => p,
            None => {
                proof {
                    assert(!in_range::<i128>(prod2(v@, v@, k as int)));
                }
                return None;
            },
        };
        proof {
            assert(p as int == prod2(v@, v@, k as int));
            assert(dot_prefix(v@, v@, k + 1) == dot_prefix(v@, v@, k as int) + prod2(
                v@,
                v@,
                k as int,
            ));
        }
        acc = match acc.checked_add(p) {
            Some(s) => s,
            None => {
                proof {
                    assert(!in_range::<i128>(dot_prefix(v@, v@, k + 1)));
                }
                return None;
            },
        };
        k = k + 1;
    }
    Some(acc)
}

/// The exact per-column sums of squares of a matrix — the integer core
/// of per-column Euclidean normalization; square roots and the final
/// division are left to floating point, outside the verified library.
/// Defined exactly when every column's partial values fit the promoted
/// kind.
pub fn column_squares<T: WideScalar>(m: &Matrix<T>) -> (r: Option<Vec<i128>>)
    requires
        m.wf(),
    ensures
        r is Some <==> (forall|i: int|
            0 <= i < m.width ==> dot_fits::<i128>(
                #[trigger] col_of(m@, m.height as int, i),
                col_of(m@, m.height as int, i),
            )),
        r matches Some(s) ==> s@.len() == m.width && (forall|i: int|
            0 <= i < m.width ==> s@[i] as int == dot_val(
                #[trigger] col_of(m@, m.height as int, i),
                col_of(m@, m.height as int, i),
            )),
{
    let w = m.size().0;
    let h = m.size().1;
    let ghost g = m@;
    let mut res: Vec<i128> = Vec::new();
    let mut i: usize = 0;
    while i < w
        invariant
            0 <= i <= w,
            w == m.width,
            h == m.height,
            m.wf(),
            g == m@,
            res@.len() == i,
            forall|i2: int|
                0 <= i2 < i ==> dot_fits::<i128>(
                    #[trigger] col_of(g, h as int, i2),
                    col_of(g, h as int, i2),
                ),
            forall|i2: int|
                0 <= i2 < i ==> res@[i2] as int == dot_val(
                    #[trigger] col_of(g, h as int, i2),
                    col_of(g, h as int, i2),
                ),
        decreases w - i,
    {
        let ghost c = col_of(g, h as int, i as int);
        let mut acc: i128 = 0;
        let mut j: usize = 0;
        while j < h
            invariant
                0 <= j <= h,
                0 <= i < w,
                w == m.width,
                h == m.height,
                m.wf(),
                g == m@,
                c == col_of(g, h as int, i as int),
                acc as int == dot_prefix(c, c, j as int),
                forall|t: int| 0 <= t < j ==> in_range::<i128>(#[trigger] prod2(c, c, t)),
                forall|t: int| 0 <= t <= j ==> in_range::<i128>(#[trigger] dot_prefix(c, c, t)),
            decreases h - j,
        {
            let e = m.get(j, i).to_wide();
            proof {
                assert(c[j as int] == g[j as int][i as int]);
            }
            let p = match e.checked_mul(e) {
                Some(p) => p,
                None => {
                    proof {
                        assert(!in_range::<i128>(prod2(c, c, j as int)));
                        assert(!dot_fits::<i128>(c, c));
                    }
                    return None;
                },
            };
            proof {
                assert(p as int == prod2(c, c, j as int));
                assert(dot_prefix(c, c, j + 1) == dot_prefix(c, c, j as int) + prod2(
                    c,
                    c,
                    j as int,
                ));
            }
            acc = match acc.checked_add(p) {
                Some(s) => s,
                None => {
                    proof {
                        assert(!in_range::<i128>(dot_prefix(c, c, j + 1)));
                        assert(!dot_fits::<i128>(c, c));
                    }
                    return None;
                },
            };
            j = j + 1;
        }
        proof {
            assert(c.len() == h);
            assert(dot_fits::<i128>(c, c));
            assert(acc as int == dot_val(c, c));
        }
        res.push(acc);
        i = i + 1;
    }
    Some(res)
}

} // verus!
