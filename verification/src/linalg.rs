//! Exact integer vector and matrix arithmetic for the reference kernel.
//!
//! Every cell is an `i64` and every operation wraps in two's complement, so
//! each computation is a total deterministic function of its inputs and the
//! orchestration layers above can be specified exactly.

use vstd::prelude::*;

verus! {

/// Wrapping sum of two cells.
pub open spec fn spec_wadd(a: i64, b: i64) -> i64 {
    vstd::wrapping::i64_specs::wrapping_add(a, b)
}

/// Wrapping product of two cells.
pub open spec fn spec_wmul(a: i64, b: i64) -> i64 {
    vstd::wrapping::i64_specs::wrapping_mul(a, b)
}

/// A matrix: a vector of rows. Also used for a batch of token-id rows or mask
/// rows (one row per batch element).
pub type Tensor2 = Vec<Vec<i64>>;

/// A batched sequence of vectors: batch x sequence x width.
pub type Tensor3 = Vec<Vec<Vec<i64>>>;

/// Every row of `m` has width `cols`.
pub open spec fn rows_wf(m: Seq<Seq<i64>>, cols: nat) -> bool {
    forall|i: int| 0 <= i < m.len() ==> (#[trigger] m[i]).len() == cols
}

/// `m` has exactly `rows` rows, each of width `cols`.
pub open spec fn mat_wf(m: Seq<Seq<i64>>, rows: nat, cols: nat) -> bool {
    m.len() == rows && rows_wf(m, cols)
}

/// The deep view of a vector of cells is its plain view.
pub broadcast proof fn lemma_row_deep_view(v: Vec<i64>)
    ensures
        #[trigger] v.deep_view() == v@,
{
    assert(v.deep_view() =~= v@);
}

/// Indexing the deep view of a matrix is the deep view of the row.
pub broadcast proof fn lemma_mat_deep_view_index(m: Vec<Vec<i64>>, i: int)
    requires
        0 <= i < m@.len(),
    ensures
        #[trigger] m.deep_view()[i] == m@[i]@,
{
    assert(m@[i].deep_view() =~= m@[i]@);
}

/// Indexing the deep view of a batched tensor is the deep view of the batch
/// element.
pub broadcast proof fn lemma_t3_deep_view_index(t: Vec<Vec<Vec<i64>>>, b: int)
    requires
        0 <= b < t@.len(),
    ensures
        #[trigger] t.deep_view()[b] == t@[b].deep_view(),
{
}

/// Wrapping dot product of the first `n` cells of `a` and `b`.
pub open spec fn sdot_upto(a: Seq<i64>, b: Seq<i64>, n: int) -> i64
    decreases n,
{
    if n <= 0 {
        0i64
    } else {
        spec_wadd(sdot_upto(a, b, n - 1), spec_wmul(a[n - 1], b[n - 1]))
    }
}

/// Wrapping dot product of `a` with the first `a.len()` cells of `b`.
pub open spec fn sdot(a: Seq<i64>, b: Seq<i64>) -> i64 {
    sdot_upto(a, b, a.len() as int)
}

/// Matrix-vector product: one dot product per row of `m`.
pub open spec fn spec_matvec(m: Seq<Seq<i64>>, x: Seq<i64>) -> Seq<i64> {
    Seq::new(m.len(), |i: int| sdot(m[i], x))
}

/// Element-wise wrapping sum, with the length of `a`.
pub open spec fn spec_vadd(a: Seq<i64>, b: Seq<i64>) -> Seq<i64> {
    Seq::new(a.len(), |i: int| spec_wadd(a[i], b[i]))
}

/// The all-zero vector of width `w`.
pub open spec fn zero_row(w: nat) -> Seq<i64> {
    Seq::new(w, |i: int| 0i64)
}

/// Wrapping sum of the first `n` rows of `vs`, as a vector of width `w`.
pub open spec fn vsum_upto(w: nat, vs: Seq<Seq<i64>>, n: int) -> Seq<i64>
    decreases n,
{
    if n <= 0 {
        zero_row(w)
    } else {
        spec_vadd(vsum_upto(w, vs, n - 1), vs[n - 1])
    }
}

/// Wrapping sum of the first `n` rows of `vs`, keeping only the rows whose
/// mask cell is non-zero.
pub open spec fn masked_vsum_upto(w: nat, vs: Seq<Seq<i64>>, mask: Seq<i64>, n: int) -> Seq<i64>
    decreases n,
{
    if n <= 0 {
        zero_row(w)
    } else {
        let rest = masked_vsum_upto(w, vs, mask, n - 1);
        if mask[n - 1] != 0 {
            spec_vadd(rest, vs[n - 1])
        } else {
            rest
        }
    }
}

/// Sum of all rows of `vs`, gated by an optional mask row.
pub open spec fn opt_masked_vsum(w: nat, vs: Seq<Seq<i64>>, mask: Option<Seq<i64>>) -> Seq<i64> {
    match mask {
        Option::Some(mk) => masked_vsum_upto(w, vs, mk, vs.len() as int),
        Option::None => vsum_upto(w, vs, vs.len() as int),
    }
}

/// Row-wise matrix-vector product of `m` with every entry of `xs`.
pub open spec fn proj_seq(m: Seq<Seq<i64>>, xs: Seq<Seq<i64>>) -> Seq<Seq<i64>> {
    Seq::new(xs.len(), |i: int| spec_matvec(m, xs[i]))
}

/// A prefix sum only reads the rows it covers: sequences that agree on their
/// first `n` rows have equal prefix sums.
pub proof fn lemma_vsum_upto_prefix(w: nat, vs1: Seq<Seq<i64>>, vs2: Seq<Seq<i64>>, n: int)
    requires
        forall|i: int| 0 <= i < n ==> vs1[i] == vs2[i],
    ensures
        vsum_upto(w, vs1, n) == vsum_upto(w, vs2, n),
    decreases n,
{
    if n > 0 {
        lemma_vsum_upto_prefix(w, vs1, vs2, n - 1);
    }
}

/// Wrapping dot product.
pub fn dot(a: &Vec<i64>, b: &Vec<i64>) -> (r: i64)
    requires
        a@.len() == b@.len(),
    ensures
        r == sdot(a@, b@),
{
    let mut acc: i64 = 0;
    let mut j: usize = 0;
    while j < a.len()
        invariant
            j <= a@.len(),
            acc == sdot_upto(a@, b@, j as int),
        decreases a@.len() - j,
    {
        acc = acc.wrapping_add(a[j].wrapping_mul(b[j]));
        j += 1;
    }
    acc
}

/// Matrix-vector product.
pub fn matvec(m: &Vec<Vec<i64>>, x: &Vec<i64>) -> (r: Vec<i64>)
    requires
        mat_wf(m.deep_view(), m@.len() as nat, x@.len() as nat),
    ensures
        r@ == spec_matvec(m.deep_view(), x@),
        r@.len() == m@.len(),
{
    broadcast use lemma_row_deep_view;

    let mut r: Vec<i64> = Vec::new();
    let mut i: usize = 0;
    while i < m.len()
        invariant
            i <= m@.len(),
            r@.len() == i,
            forall|k: int| 0 <= k < i ==> r@[k] == sdot(m@[k]@, x@),
        decreases m@.len() - i,
    {
        proof {
            assert(m.deep_view()[i as int].len() == x@.len());
        }
        let d: i64 = dot(&m[i], x);
        r.push(d);
        i += 1;
    }
    assert(r@ =~= spec_matvec(m.deep_view(), x@));
    r
}

/// Element-wise wrapping sum of two rows of equal width.
pub fn vadd_vec(a: &Vec<i64>, b: &Vec<i64>) -> (r: Vec<i64>)
    requires
        a@.len() == b@.len(),
    ensures
        r@ == spec_vadd(a@, b@),
        r@.len() == a@.len(),
{
    let mut r: Vec<i64> = Vec::new();
    let mut i: usize = 0;
    while i < a.len()
        invariant
            i <= a@.len(),
            b@.len() == a@.len(),
            r@.len() == i,
            forall|k: int| 0 <= k < i ==> r@[k] == spec_wadd(a@[k], b@[k]),
        decreases a@.len() - i,
    {
        r.push(a[i].wrapping_add(b[i]));
        i += 1;
    }
    assert(r@ =~= spec_vadd(a@, b@));
    r
}

/// A fresh all-zero row of width `w`.
pub fn zero_vec(w: usize) -> (r: Vec<i64>)
    ensures
        r@ == zero_row(w as nat),
{
    let mut r: Vec<i64> = Vec::new();
    let mut i: usize = 0;
    while i < w
        invariant
            i <= w,
            r@.len() == i,
            forall|k: int| 0 <= k < i ==> r@[k] == 0i64,
        decreases w - i,
    {
        r.push(0);
        i += 1;
    }
    assert(r@ =~= zero_row(w as nat));
    r
}

/// Sum of the rows of `vs`, gated by an optional mask row.
pub fn masked_sum(vs: &Vec<Vec<i64>>, mask: Option<&Vec<i64>>, w: usize) -> (r: Vec<i64>)
    requires
        mat_wf(vs.deep_view(), vs@.len() as nat, w as nat),
        mask is Some ==> mask.unwrap()@.len() == vs@.len(),
    ensures
        r@ == opt_masked_vsum(
            w as nat,
            vs.deep_view(),
            match mask {
                Option::Some(mk) => Option::Some(mk@),
                Option::None => Option::None,
            },
        ),
        r@.len() == w,
{
    broadcast use lemma_row_deep_view;

    let mut acc = zero_vec(w);
    let mut i: usize = 0;
    match mask {
        Option::Some(mk) => {
            while i < vs.len()
                invariant
                    i <= vs@.len(),
                    acc@.len() == w,
                    acc@ == masked_vsum_upto(w as nat, vs.deep_view(), mk@, i as int),
                decreases vs@.len() - i,
            {
                proof {
                    assert(vs.deep_view()[i as int].len() == w as nat);
                }
                if mk[i] != 0 {
                    acc = vadd_vec(&acc, &vs[i]);
                }
                i += 1;
            }
        },
        Option::None => {
            while i < vs.len()
                invariant
                    i <= vs@.len(),
                    acc@.len() == w,
                    acc@ == vsum_upto(w as nat, vs.deep_view(), i as int),
                decreases vs@.len() - i,
            {
                proof {
                    assert(vs.deep_view()[i as int].len() == w as nat);
                }
                acc = vadd_vec(&acc, &vs[i]);
                i += 1;
            }
        },
    }
    acc
}

/// Matrix-vector product of `m` with every entry of `xs`.
pub fn proj_rows(m: &Vec<Vec<i64>>, xs: &Vec<Vec<i64>>, cols: usize) -> (r: Vec<Vec<i64>>)
    requires
        mat_wf(m.deep_view(), m@.len() as nat, cols as nat),
        mat_wf(xs.deep_view(), xs@.len() as nat, cols as nat),
    ensures
        r.deep_view() == proj_seq(m.deep_view(), xs.deep_view()),
        r@.len() == xs@.len(),
        mat_wf(r.deep_view(), xs@.len() as nat, m@.len() as nat),
        forall|i: int| 0 <= i < r@.len() ==> (#[trigger] r@[i])@ == spec_matvec(
            m.deep_view(),
            xs@[i]@,
        ),
{
    broadcast use lemma_row_deep_view;

    let mut r: Vec<Vec<i64>> = Vec::new();
    let mut i: usize = 0;
    while i < xs.len()
        invariant
            i <= xs@.len(),
            r@.len() == i,
            forall|k: int| 0 <= k < i ==> (#[trigger] r@[k])@ == spec_matvec(m.deep_view(), xs@[k]@),
            forall|k: int| 0 <= k < i ==> (#[trigger] r@[k])@.len() == m@.len(),
        decreases xs@.len() - i,
    {
        proof {
            assert(xs.deep_view()[i as int].len() == cols as nat);
        }
        let row = matvec(m, &xs[i]);
        r.push(row);
        i += 1;
    }
    assert(r.deep_view() =~= proj_seq(m.deep_view(), xs.deep_view()));
    assert forall|i: int| 0 <= i < r.deep_view().len() implies (#[trigger] r.deep_view()[i]).len()
        == m@.len() by {
        assert(r@[i]@.len() == m@.len());
    }
    r
}

/// `r` is the integer square root of `n`.
pub open spec fn is_isqrt(r: int, n: int) -> bool {
    0 <= r && r * r <= n < (r + 1) * (r + 1)
}

/// The integer square root: the largest `r` with `r * r <= n`.
pub open spec fn spec_isqrt(n: int) -> int {
    choose|r: int| is_isqrt(r, n)
}

/// Any `r` with `r * r <= n < (r + 1) * (r + 1)` is `spec_isqrt(n)`.
pub proof fn lemma_isqrt_unique(n: int, r: int)
    requires
        0 <= r,
        r * r <= n,
        n < (r + 1) * (r + 1),
    ensures
        spec_isqrt(n) == r,
{
    assert(is_isqrt(r, n));
    let c = spec_isqrt(n);
    assert(is_isqrt(c, n));
    assert(c == r) by (nonlinear_arith)
        requires
            0 <= r,
            0 <= c,
            r * r <= n,
            n < (r + 1) * (r + 1),
            c * c <= n,
            n < (c + 1) * (c + 1),
    ;
}

/// The integer square root of `n`.
pub fn isqrt(n: u64) -> (r: u64)
    ensures
        r as int == spec_isqrt(n as int),
        r * r <= n,
        n < (r as int + 1) * (r as int + 1),
        1 <= n ==> 1 <= r,
{
    let mut r: u64 = 0;
    while ((r as u128) + 1) * ((r as u128) + 1) <= n as u128
        invariant
            (r as int) * (r as int) <= n as int,
            r as int <= n as int,
            (r as int + 1) * (r as int + 1) <= 0x1_0000_0000_0000_0000,
        decreases n - r,
    {
        assert(r as int + 1 <= n as int) by (nonlinear_arith)
            requires
                (r as int + 1) * (r as int + 1) <= n as int,
        ;
        assert((r as int + 2) * (r as int + 2) <= 0x1_0000_0000_0000_0000) by (nonlinear_arith)
            requires
                (r as int + 1) * (r as int + 1) <= n as int,
                n <= u64::MAX,
        ;
        r = r + 1;
    }
    assert(((r as int + 1) * (r as int + 1)) > n as int);
    proof {
        lemma_isqrt_unique(n as int, r as int);
        if 1 <= n && r == 0 {
            assert((r as int + 1) * (r as int + 1) == 1) by (nonlinear_arith)
                requires
                    r == 0u64,
            ;
        }
    }
    r
}

/// Truncated division of a cell by a positive scale: the quotient of the
/// magnitude, with the sign of the cell.
pub open spec fn spec_sdiv(x: i64, s: int) -> i64
    recommends
        1 <= s,
{
    if x >= 0 {
        ((x as int) / s) as i64
    } else {
        (0 - ((0 - x as int) / s)) as i64
    }
}

/// Truncated division of a cell by a positive scale.
pub fn sdiv(x: i64, s: u64) -> (r: i64)
    requires
        1 <= s,
    ensures
        r == spec_sdiv(x, s as int),
{
    broadcast use vstd::arithmetic::div_mod::lemma_div_nonincreasing, vstd::arithmetic::div_mod::lemma_div_pos_is_pos;

    if x >= 0 {
        let q: u64 = (x as u64) / s;
        assert(q as int == (x as int) / (s as int));
        q as i64
    } else {
        let m: i128 = -(x as i128);
        let mu: u64 = m as u64;
        let q: u64 = mu / s;
        (-(q as i128)) as i64
    }
}

/// Every cell divided by a positive scale.
pub open spec fn spec_scale_row(a: Seq<i64>, s: int) -> Seq<i64> {
    Seq::new(a.len(), |i: int| spec_sdiv(a[i], s))
}

/// Every cell divided by a positive scale.
pub fn scale_row(a: &Vec<i64>, s: u64) -> (r: Vec<i64>)
    requires
        1 <= s,
    ensures
        r@ == spec_scale_row(a@, s as int),
        r@.len() == a@.len(),
{
    let mut r: Vec<i64> = Vec::new();
    let mut i: usize = 0;
    while i < a.len()
        invariant
            i <= a@.len(),
            r@.len() == i,
            forall|k: int| 0 <= k < i ==> r@[k] == spec_sdiv(a@[k], s as int),
        decreases a@.len() - i,
    {
        r.push(sdiv(a[i], s));
        i += 1;
    }
    assert(r@ =~= spec_scale_row(a@, s as int));
    r
}

/// A copy of a row.
pub fn copy_row(a: &Vec<i64>) -> (r: Vec<i64>)
    ensures
        r@ == a@,
{
    let mut r: Vec<i64> = Vec::new();
    let mut i: usize = 0;
    while i < a.len()
        invariant
            i <= a@.len(),
            r@.len() == i,
            forall|k: int| 0 <= k < i ==> r@[k] == a@[k],
        decreases a@.len() - i,
    {
        r.push(a[i]);
        i += 1;
    }
    assert(r@ =~= a@);
    r
}

/// A copy of a matrix.
pub fn copy_rows(a: &Vec<Vec<i64>>) -> (r: Vec<Vec<i64>>)
    ensures
        r.deep_view() == a.deep_view(),
        r@.len() == a@.len(),
        forall|i: int| 0 <= i < r@.len() ==> (#[trigger] r@[i])@ == a@[i]@,
{
    broadcast use lemma_row_deep_view;

    let mut r: Vec<Vec<i64>> = Vec::new();
    let mut i: usize = 0;
    while i < a.len()
        invariant
            i <= a@.len(),
            r@.len() == i,
            forall|k: int| 0 <= k < i ==> (#[trigger] r@[k])@ == a@[k]@,
        decreases a@.len() - i,
    {
        let row = copy_row(&a[i]);
        r.push(row);
        i += 1;
    }
    assert(r.deep_view() =~= a.deep_view());
    r
}

/// A copy of a batched tensor.
pub fn copy_t3(a: &Tensor3) -> (r: Tensor3)
    ensures
        r.deep_view() == a.deep_view(),
        r@.len() == a@.len(),
        forall|b: int| 0 <= b < r@.len() ==> (#[trigger] r@[b]).deep_view() == a@[b].deep_view(),
{
    let mut r: Tensor3 = Vec::new();
    let mut i: usize = 0;
    while i < a.len()
        invariant
            i <= a@.len(),
            r@.len() == i,
            forall|k: int| 0 <= k < i ==> (#[trigger] r@[k]).deep_view() == a@[k].deep_view(),
        decreases a@.len() - i,
    {
        let rows = copy_rows(&a[i]);
        r.push(rows);
        i += 1;
    }
    assert(r.deep_view() =~= a.deep_view());
    r
}

} // verus!
