//! How work on a buffer is split into kernel launches, and the shape checks
//! that the matrix and row-wise operations make before launching.
use vstd::prelude::*;

verus! {

/// Largest number of elements one element-wise kernel launch processes.
pub const KERNEL_CHUNK: u64 = 17179869184;

/// Largest number of elements one softmax kernel launch processes.
pub const SOFTMAX_CHUNK: u64 = 2147483648;

/// Number of elements that one reduction pass folds into a single element.
pub const REDUCTION_BLOCK: u64 = 2048;

/// `chunks` splits `0..len` into consecutive `(start, count)` pieces, taking
/// `step` elements at a time: every piece but the last is `step` long, the
/// last is between 1 and `step` long, and there is no piece when `len == 0`.
pub open spec fn is_tiling(chunks: Seq<(u64, u64)>, len: nat, step: nat) -> bool {
    &&& (chunks.len() == 0 <==> len == 0)
    &&& forall|i: int| 0 <= i < chunks.len() ==> 0 < (#[trigger] chunks[i]).1 <= step
    &&& forall|i: int| 0 <= i < chunks.len() - 1 ==> (#[trigger] chunks[i]).1 == step
    &&& chunks.len() > 0 ==> chunks[0].0 == 0
    &&& chunks.len() > 0 ==> chunks.last().0 + chunks.last().1 == len
    &&& forall|i: int|
        0 <= i < chunks.len() - 1 ==> (#[trigger] chunks[i + 1]).0 == chunks[i].0 + chunks[i].1
}

/// Splits `0..len` into launches of at most `step` elements.
pub fn plan_chunks(len: u64, step: u64) -> (chunks: Vec<(u64, u64)>)
    requires
        step > 0,
    ensures
        is_tiling(chunks@, len as nat, step as nat),
{
    let mut chunks: Vec<(u64, u64)> = Vec::new();
    let mut remaining = len;
    let mut offset: u64 = 0;
    while remaining > 0
        invariant
            step > 0,
            offset + remaining == len,
            chunks@.len() == 0 <==> offset == 0,
            forall|i: int| 0 <= i < chunks@.len() ==> (#[trigger] chunks@[i]).1 == step,
            chunks@.len() > 0 ==> chunks@[0].0 == 0,
            chunks@.len() > 0 ==> chunks@.last().0 + chunks@.last().1 == offset,
            forall|i: int|
                0 <= i < chunks@.len() - 1 ==> (#[trigger] chunks@[i + 1]).0 == chunks@[i].0
                    + chunks@[i].1,
        decreases remaining,
    {
        let current = if remaining < step {
            remaining
        } else {
            step
        };
        chunks.push((offset, current));
        remaining = remaining - current;
        offset = offset + current;
        if remaining > 0 {
            assert(current == step);
        } else {
            assert(chunks@.len() > 0);
            assert(is_tiling(chunks@, len as nat, step as nat));
            return chunks;
        }
    }
    chunks
}

/// In a tiling, piece `i` starts at `i * step`.
pub proof fn lemma_tiling_starts(chunks: Seq<(u64, u64)>, len: nat, step: nat, i: int)
    requires
        is_tiling(chunks, len, step),
        0 <= i < chunks.len(),
    ensures
        chunks[i].0 == i * step,
    decreases i,
{
    if i > 0 {
        let j = i - 1;
        lemma_tiling_starts(chunks, len, step, j);
        assert(chunks[j + 1].0 == chunks[j].0 + chunks[j].1);
        assert(chunks[j].1 == step);
        assert(j * step + step == i * step) by (nonlinear_arith)
            requires
                j == i - 1,
        ;
        assert(chunks[i].0 == j * step + step);
    } else {
        assert(chunks[0].0 == 0);
        assert(0 * step == 0);
    }
}

/// Splits `0..len`, a whole number of rows of `cols` elements, into launches
/// of at most `limit / cols` whole rows each.
pub fn plan_rows(len: u64, cols: u64, limit: u64) -> (chunks: Vec<(u64, u64)>)
    requires
        cols > 0,
        len % cols == 0,
        len == 0 || cols <= limit,
    ensures
        is_tiling(chunks@, len as nat, (limit / cols * cols) as nat),
        forall|i: int|
            0 <= i < chunks@.len() ==> (#[trigger] chunks@[i]).0 % cols == 0 && chunks@[i].1 % cols
                == 0,
{
    if len == 0 {
        return Vec::new();
    }
    let rows = limit / cols;
    proof {
        assert(rows >= 1) by (nonlinear_arith)
            requires
                rows == limit / cols,
                cols <= limit,
                cols > 0,
        ;
        assert(rows * cols >= 1) by (nonlinear_arith)
            requires
                rows >= 1,
                cols >= 1,
        ;
        assert(rows * cols <= limit) by (nonlinear_arith)
            requires
                rows == limit / cols,
                cols > 0,
        ;
    }
    let step = rows * cols;
    let chunks = plan_chunks(len, step);
    proof {
        let n = chunks@.len();
        assert forall|i: int| 0 <= i < n implies (#[trigger] chunks@[i]).0 % cols == 0
            && chunks@[i].1 % cols == 0 by {
            lemma_tiling_starts(chunks@, len as nat, step as nat, i);
            let start = chunks@[i].0;
            assert(start == (i * rows) * cols) by (nonlinear_arith)
                requires
                    start == i * step,
                    step == rows * cols,
            ;
            vstd::arithmetic::div_mod::lemma_mod_multiples_basic(i * rows, cols as int);
            if i < n - 1 {
                vstd::arithmetic::div_mod::lemma_mod_multiples_basic(rows as int, cols as int);
            } else {
                let count = chunks@[i].1;
                assert(count == len - start);
                let q = len / cols;
                assert(len == q * cols) by (nonlinear_arith)
                    requires
                        len % cols == 0,
                        q == len / cols,
                        cols > 0,
                ;
                assert(count == (q - i * rows) * cols) by (nonlinear_arith)
                    requires
                        count == len - start,
                        len == q * cols,
                        start == (i * rows) * cols,
                ;
                assert(q - i * rows >= 0) by (nonlinear_arith)
                    requires
                        count == (q - i * rows) * cols,
                        count > 0,
                        cols > 0,
                ;
                vstd::arithmetic::div_mod::lemma_mod_multiples_basic(q - i * rows, cols as int);
            }
        }
    }
    chunks
}

/// The element counts that successive reduction passes start from:
/// `passes[0] == len`, each pass folds blocks of 2048 elements into one, and
/// passes run while at least 2048 elements are left. `remaining` is the
/// number of elements left after the last pass, fewer than 2048.
pub open spec fn is_reduction_plan(passes: Seq<u64>, remaining: u64, len: nat) -> bool {
    &&& passes.len() > 0 ==> passes[0] == len
    &&& forall|i: int| 0 <= i < passes.len() ==> #[trigger] passes[i] >= REDUCTION_BLOCK
    &&& forall|i: int|
        0 <= i < passes.len() - 1 ==> #[trigger] passes[i + 1] == passes[i] / REDUCTION_BLOCK
    &&& passes.len() == 0 ==> remaining == len
    &&& passes.len() > 0 ==> remaining == passes.last() / REDUCTION_BLOCK
    &&& remaining < REDUCTION_BLOCK
}

/// Plans the passes of a sum reduction over `len` elements.
pub fn plan_reduction(len: u64) -> (r: (Vec<u64>, u64))
    ensures
        is_reduction_plan(r.0@, r.1, len as nat),
{
    let mut passes: Vec<u64> = Vec::new();
    let mut current = len;
    while current >= REDUCTION_BLOCK
        invariant
            passes@.len() > 0 ==> passes@[0] == len,
            forall|i: int| 0 <= i < passes@.len() ==> #[trigger] passes@[i] >= REDUCTION_BLOCK,
            forall|i: int|
                0 <= i < passes@.len() - 1 ==> #[trigger] passes@[i + 1] == passes@[i]
                    / REDUCTION_BLOCK,
            passes@.len() == 0 ==> current == len,
            passes@.len() > 0 ==> current == passes@.last() / REDUCTION_BLOCK,
        decreases current,
    {
        passes.push(current);
        current = current / REDUCTION_BLOCK;
    }
    (passes, current)
}

/// Whether matrices of `a_len`, `b_len` and `c_len` elements fit the product
/// C (m x n) = A (m x k) * B (k x n), with m, n and k multiples of 64.
pub fn gemm_dims_valid(a_len: usize, b_len: usize, c_len: usize, m: usize, n: usize, k: usize) -> (ok:
    bool)
    ensures
        ok == (m % 64 == 0 && n % 64 == 0 && k % 64 == 0 && a_len == m * k && b_len == k * n
            && c_len == m * n),
{
    if m % 64 != 0 || n % 64 != 0 || k % 64 != 0 {
        return false;
    }
    let mk = m.checked_mul(k);
    let kn = k.checked_mul(n);
    let mn = m.checked_mul(n);
    match (mk, kn, mn) {
        (Some(x), Some(y), Some(z)) => x == a_len && y == b_len && z == c_len,
        _ => false,
    }
}

/// Whether an RMS normalisation of rows of `cols` elements applies to data
/// of `data_len` elements, a weight of `weight_len` elements and an output of
/// `out_len` elements: whole rows, one weight per column, columns a multiple
/// of 256, output as long as the data.
pub fn rmsnorm_dims_valid(data_len: usize, weight_len: usize, out_len: usize, cols: usize) -> (ok:
    bool)
    ensures
        ok == (cols > 0 && data_len % cols == 0 && weight_len == cols && cols % 256 == 0 && data_len
            == out_len),
{
    cols > 0 && data_len % cols == 0 && weight_len == cols && cols % 256 == 0 && data_len == out_len
}

/// Whether a row-wise softmax over rows of `cols` elements applies to `len`
/// elements: whole rows, columns a multiple of 8.
pub fn softmax_dims_valid(len: usize, cols: usize) -> (ok: bool)
    ensures
        ok == (cols > 0 && len % cols == 0 && cols % 8 == 0),
{
    cols > 0 && len % cols == 0 && cols % 8 == 0
}

} // verus!
