//! Laws of the matrix kernel, proved once and for all shapes: elementwise
//! addition is commutative, the identity matrix has determinant one, and
//! the all-zero square matrix has determinant zero.

use crate::matrix::cof_fits;
use crate::matrix::cofactor_sum;
use crate::matrix::cofactor_term;
use crate::matrix::det_fits;
use crate::matrix::in_i64;
use crate::matrix::is_identity;
use crate::matrix::lemma_flat_coords;
use crate::matrix::lemma_flat_in_range;
use crate::matrix::minor_index;
use crate::matrix::minor_seq;
use crate::matrix::spec_det;
use crate::matrix::sum_entries;
use vstd::prelude::*;

verus! {

/// Law: matrix addition is commutative. For equal-length row-major data,
/// the elementwise sums taken in either operand order are the same
/// sequence, so `a.sum(b)` and `b.sum(a)` hold identical entries.
pub proof fn lemma_sum_commutative(a: Seq<i64>, b: Seq<i64>)
    requires
        a.len() == b.len(),
    ensures
        sum_entries(a, b) == sum_entries(b, a),
{
    assert(sum_entries(a, b) =~= sum_entries(b, a));
}

/// Law: the determinant of the `n` by `n` all-zero matrix is 0 for every
/// `n >= 2`: every expansion term carries a zero coefficient from row 0.
pub proof fn lemma_zeros_determinant(n: nat, s: Seq<i64>)
    requires
        n >= 2,
        s.len() == n * n,
        forall|i: int| 0 <= i < s.len() ==> s[i] == 0i64,
    ensures
        spec_det(n, s) == 0,
{
    if n == 2 {
    } else {
        lemma_zeros_cofactor_sum(n, s, n);
    }
}

/// Every partial Laplace expansion of an all-zero matrix sums to 0.
proof fn lemma_zeros_cofactor_sum(n: nat, s: Seq<i64>, k: nat)
    requires
        n >= 1,
        k <= n,
        s.len() == n * n,
        forall|i: int| 0 <= i < s.len() ==> s[i] == 0i64,
    ensures
        cofactor_sum(n, s, k) == 0,
    decreases k,
{
    if k > 0 {
        lemma_zeros_cofactor_sum(n, s, (k - 1) as nat);
        assert(n <= n * n) by (nonlinear_arith)
            requires
                n >= 1,
        ;
        assert(s[k - 1] == 0i64);
        assert(cofactor_sum(n, s, k) == cofactor_sum(n, s, (k - 1) as nat) + cofactor_term(
            n,
            s,
            (k - 1) as nat,
        ));
        assert(cofactor_term(n, s, (k - 1) as nat) == 0);
    }
}

/// Law: the determinant of the `n` by `n` identity matrix is 1 for every
/// `n >= 2`. The expansion term that deletes column 0 contributes the
/// smaller identity's determinant; every other term carries a zero
/// coefficient from row 0.
pub proof fn lemma_identity_determinant(n: nat, s: Seq<i64>)
    requires
        n >= 2,
        is_identity(n as int, s),
    ensures
        spec_det(n, s) == 1,
    decreases n,
{
    if n == 2 {
        assert(s[0] == 1i64);
        assert(s[1] == 0i64);
        assert(s[2] == 0i64);
        assert(s[3] == 1i64);
    } else {
        lemma_identity_minor(n, s);
        lemma_identity_determinant((n - 1) as nat, minor_seq(n as int, s, 0));
        lemma_identity_cofactor_sum(n, s, n);
    }
}

/// Deleting row 0 and column 0 of an identity matrix leaves the smaller
/// identity matrix.
proof fn lemma_identity_minor(n: nat, s: Seq<i64>)
    requires
        n >= 2,
        is_identity(n as int, s),
    ensures
        is_identity(n as int - 1, minor_seq(n as int, s, 0)),
{
    let nn = n as int;
    let ms = minor_seq(nn, s, 0);
    assert(ms.len() == (nn - 1) * (nn - 1));
    assert forall|i: int| 0 <= i < ms.len() implies #[trigger] ms[i] == (if i / (nn - 1) == i % (nn
        - 1) {
        1i64
    } else {
        0i64
    }) by {
        let r = i / (nn - 1);
        let c = i % (nn - 1);
        vstd::arithmetic::div_mod::lemma_fundamental_div_mod(i, nn - 1);
        vstd::arithmetic::div_mod::lemma_mod_bound(i, nn - 1);
        assert(r < nn - 1) by (nonlinear_arith)
            requires
                i == (nn - 1) * r + c,
                0 <= c < nn - 1,
                i < (nn - 1) * (nn - 1),
        ;
        assert(minor_index(nn, 0, i) == (c + 1) + (r + 1) * nn);
        lemma_flat_in_range(nn, nn, r + 1, c + 1);
        lemma_flat_coords(nn, r + 1, c + 1);
        assert(s[(c + 1) + (r + 1) * nn] == (if r == c {
            1i64
        } else {
            0i64
        }));
    }
}

/// Every partial Laplace expansion of an identity matrix, once it covers
/// the first column, sums to 1: the first term is 1 and later terms have
/// zero coefficients.
proof fn lemma_identity_cofactor_sum(n: nat, s: Seq<i64>, k: nat)
    requires
        n >= 3,
        1 <= k <= n,
        is_identity(n as int, s),
        spec_det((n - 1) as nat, minor_seq(n as int, s, 0)) == 1,
    ensures
        cofactor_sum(n, s, k) == 1,
    decreases k,
{
    let nn = n as int;
    if k == 1 {
        lemma_flat_coords(nn, 0, 0);
        assert(n <= n * n) by (nonlinear_arith)
            requires
                n >= 1,
        ;
        assert(s[0] == 1i64);
        let b = spec_det((n - 1) as nat, minor_seq(nn, s, 0));
        assert(1 * (s[0] as int) * b == 1) by (nonlinear_arith)
            requires
                s[0] == 1i64,
                b == 1,
        ;
        assert(cofactor_sum(n, s, 1) == cofactor_sum(n, s, 0) + cofactor_term(n, s, 0));
        assert(cofactor_term(n, s, 0) == 1);
    } else {
        lemma_identity_cofactor_sum(n, s, (k - 1) as nat);
        let j = k - 1;
        assert(n <= n * n) by (nonlinear_arith)
            requires
                n >= 1,
        ;
        lemma_flat_coords(nn, 0, j);
        assert(s[j] == 0i64);
        let b = spec_det((n - 1) as nat, minor_seq(nn, s, j));
        assert(1 * (0 as int) * b == 0) by (nonlinear_arith);
        assert((-1) * (0 as int) * b == 0) by (nonlinear_arith);
        assert(cofactor_sum(n, s, k) == cofactor_sum(n, s, (k - 1) as nat) + cofactor_term(
            n,
            s,
            (k - 1) as nat,
        ));
        assert(cofactor_term(n, s, (k - 1) as nat) == 0);
    }
}

/// The entry of the `n`-column row-major data `s` at coordinate `(r, c)`.
spec fn ent(n: int, s: Seq<i64>, r: int, c: int) -> i64 {
    s[c + r * n]
}

/// An `n` by `n` matrix whose entries are all 0 or 1, with at most one 1
/// in each row. Identity and all-zero matrices are of this form, and the
/// form survives taking minors, which makes it a handy induction vehicle:
/// every intermediate value of such a determinant stays in `[-1, 1]`.
spec fn row_sparse(n: int, s: Seq<i64>) -> bool {
    &&& n >= 0
    &&& s.len() == n * n
    &&& forall|r: int, c: int|
        0 <= r < n && 0 <= c < n ==> (#[trigger] ent(n, s, r, c) == 0i64 || ent(n, s, r, c)
            == 1i64)
    &&& forall|r: int, c1: int, c2: int|
        0 <= r < n && 0 <= c1 < n && 0 <= c2 < n && c1 != c2 && #[trigger] ent(n, s, r, c1)
            == 1i64 ==> #[trigger] ent(n, s, r, c2) == 0i64
}

/// Minors of a row-sparse matrix are row-sparse.
proof fn lemma_sparse_minor(n: int, s: Seq<i64>, mask: int)
    requires
        row_sparse(n, s),
        0 <= mask < n,
        n >= 1,
    ensures
        row_sparse(n - 1, minor_seq(n, s, mask)),
{
    let ms = minor_seq(n, s, mask);
    assert forall|r: int, c: int| 0 <= r < n - 1 && 0 <= c < n - 1 implies #[trigger] ent(
        n - 1,
        ms,
        r,
        c,
    ) == ent(
        n,
        s,
        r + 1,
        if c < mask {
            c
        } else {
            c + 1
        },
    ) by {
        lemma_flat_in_range(n - 1, n - 1, r, c);
        lemma_flat_coords(n - 1, r, c);
        let cc = if c < mask {
            c
        } else {
            c + 1
        };
        assert(minor_index(n, mask, c + r * (n - 1)) == cc + (r + 1) * n);
        lemma_flat_in_range(n, n, r + 1, cc);
    }
}

/// Row-sparse determinants stay within `[-1, 1]`, along with every
/// intermediate value of their computation.
proof fn lemma_sparse_det_fits(n: nat, s: Seq<i64>)
    requires
        row_sparse(n as int, s),
    ensures
        det_fits(n, s),
        -1 <= spec_det(n, s) <= 1,
    decreases n, n + 1,
{
    if n == 2 {
        assert(ent(2, s, 0, 0) == s[0] && ent(2, s, 0, 1) == s[1] && ent(2, s, 1, 0) == s[2]
            && ent(2, s, 1, 1) == s[3]);
    } else if n < 2 {
        assert(cofactor_sum(n, s, 0) == 0);
        if n == 1 {
            let ms = minor_seq(1, s, 0);
            assert(spec_det(0, ms) == 0);
            assert(det_fits(0nat, ms));
            let v = s[0] as int;
            assert(1 * v * 0 == 0) by (nonlinear_arith);
            assert(cofactor_term(1, s, 0) == 0);
            assert(cofactor_sum(1, s, 1) == 0);
            assert(cof_fits(1nat, s, 0nat));
            assert(in_i64(s[0] * spec_det(0, ms)));
            assert(in_i64(cofactor_sum(1, s, 1)));
            assert(cof_fits(1nat, s, 1nat));
        }
    } else {
        lemma_sparse_cof_fits(n, s, n);
    }
}

/// The partial Laplace expansions of a row-sparse matrix stay within
/// `[-1, 1]`, vanish while row 0's covered coefficients are all zero,
/// and keep every intermediate value in machine range.
proof fn lemma_sparse_cof_fits(n: nat, s: Seq<i64>, k: nat)
    requires
        row_sparse(n as int, s),
        n >= 3,
        k <= n,
    ensures
        cof_fits(n, s, k),
        -1 <= cofactor_sum(n, s, k) <= 1,
        (forall|c: int| 0 <= c < k ==> ent(n as int, s, 0, c) == 0i64) ==> cofactor_sum(n, s, k)
            == 0,
    decreases n, k,
{
    if k == 0 {
    } else {
        lemma_sparse_cof_fits(n, s, (k - 1) as nat);
        let nn = n as int;
        let mask = k - 1;
        lemma_sparse_minor(nn, s, mask);
        lemma_sparse_det_fits((n - 1) as nat, minor_seq(nn, s, mask));
        let b = spec_det((n - 1) as nat, minor_seq(nn, s, mask));
        assert(ent(nn, s, 0, mask) == s[mask]);
        assert(cofactor_sum(n, s, k) == cofactor_sum(n, s, (k - 1) as nat) + cofactor_term(
            n,
            s,
            (k - 1) as nat,
        ));
        if s[mask] == 0i64 {
            assert(1 * (0 as int) * b == 0) by (nonlinear_arith);
            assert((-1) * (0 as int) * b == 0) by (nonlinear_arith);
            assert(cofactor_term(n, s, (k - 1) as nat) == 0);
        } else {
            assert(ent(nn, s, 0, mask) == 1i64);
            assert forall|c: int| 0 <= c < k - 1 implies ent(nn, s, 0, c) == 0i64 by {
                assert(ent(nn, s, 0, mask) == 1i64 && c != mask);
            }
            assert(cofactor_sum(n, s, (k - 1) as nat) == 0);
            assert(1 * (1 as int) * b == b) by (nonlinear_arith);
            assert((-1) * (1 as int) * b == -b) by (nonlinear_arith);
            assert(cofactor_term(n, s, (k - 1) as nat) == b || cofactor_term(n, s, (k - 1) as nat)
                == -b);
        }
        assert(in_i64(s[mask] * b)) by {
            if s[mask] == 0i64 {
                assert((0 as int) * b == 0) by (nonlinear_arith);
            } else {
                assert((1 as int) * b == b) by (nonlinear_arith);
            }
        }
    }
}

/// Law, completing the identity-determinant statement: the identity
/// matrix's whole determinant computation stays in machine range, so
/// `identity(n).determinant()` is owed an `Ok` for every `n`.
pub proof fn lemma_identity_det_fits(n: nat, s: Seq<i64>)
    requires
        is_identity(n as int, s),
    ensures
        det_fits(n, s),
{
    lemma_identity_row_sparse(n, s);
    lemma_sparse_det_fits(n, s);
}

/// Law, completing the zero-determinant statement: the all-zero square
/// matrix's whole determinant computation stays in machine range, so
/// `square_zeros(n).determinant()` is owed an `Ok` for every `n`.
pub proof fn lemma_zeros_det_fits(n: nat, s: Seq<i64>)
    requires
        s.len() == n * n,
        forall|i: int| 0 <= i < s.len() ==> s[i] == 0i64,
    ensures
        det_fits(n, s),
{
    assert forall|r: int, c: int| 0 <= r < n && 0 <= c < n implies #[trigger] ent(
        n as int,
        s,
        r,
        c,
    ) == 0i64 by {
        lemma_flat_in_range(n as int, n as int, r, c);
    }
    lemma_sparse_det_fits(n, s);
}

/// The identity matrix is row-sparse.
proof fn lemma_identity_row_sparse(n: nat, s: Seq<i64>)
    requires
        is_identity(n as int, s),
    ensures
        row_sparse(n as int, s),
{
    let nn = n as int;
    assert forall|r: int, c: int| 0 <= r < nn && 0 <= c < nn implies #[trigger] ent(nn, s, r, c)
        == (if r == c {
        1i64
    } else {
        0i64
    }) by {
        lemma_flat_in_range(nn, nn, r, c);
        lemma_flat_coords(nn, r, c);
    }
}

} // verus!
