use vstd::arithmetic::div_mod::{lemma_fundamental_div_mod, lemma_fundamental_div_mod_converse, lemma_mod_pos_bound};
use vstd::prelude::*;

use crate::error::MatrixError;
use crate::numeric::Numeric;
use crate::text::{int_decimal, nat_decimal, push_int, push_nat};
use crate::vector::{dot, dot_product, Vector};

verus! {

/// How many workers the per-cell tasks of a product are spread over.
pub const NUM_THREADS: usize = 4;

/// A dense matrix stored row-major: the element at row `i`, column `j` sits
/// at flat index `i * col + j`.
pub struct Matrix<T> {
    data: Vec<T>,
    row: usize,
    col: usize,
}

impl<T> View for Matrix<T> {
    type V = Seq<T>;

    /// The flat, row-major elements.
    closed spec fn view(&self) -> Seq<T> {
        self.data@
    }
}

impl<T> Matrix<T> {
    pub closed spec fn rows(&self) -> nat {
        self.row as nat
    }

    pub closed spec fn cols(&self) -> nat {
        self.col as nat
    }

    /// The flat storage holds exactly `rows * cols` elements.
    pub open spec fn wf(&self) -> bool {
        self@.len() == self.rows() * self.cols()
    }

    pub fn new(data: Vec<T>, row: usize, col: usize) -> (r: Self)
        requires
            data@.len() == row * col,
        ensures
            r@ == data@,
            r.rows() == row,
            r.cols() == col,
            r.wf(),
    {
        Self { data, row, col }
    }

    pub fn row(&self) -> (r: usize)
        ensures
            r == self.rows(),
    {
        self.row
    }

    pub fn col(&self) -> (r: usize)
        ensures
            r == self.cols(),
    {
        self.col
    }

    pub fn data(&self) -> (r: &Vec<T>)
        ensures
            r@ == self@,
    {
        &self.data
    }
}

/// Row `i` of a matrix with `k` columns stored row-major in `s`.
pub open spec fn row_of<T>(s: Seq<T>, k: nat, i: nat) -> Seq<T> {
    s.subrange((i * k) as int, (i * k + k) as int)
}

/// Column `j` of a `k`-row, `n`-column matrix stored row-major in `s`.
pub open spec fn col_of<T>(s: Seq<T>, k: nat, n: nat, j: nat) -> Seq<T> {
    Seq::new(k, |t: int| s[t * n + j])
}

/// The cell at row `i`, column `j` of the product `a * b`.
pub open spec fn product_cell<T: Numeric>(a: Matrix<T>, b: Matrix<T>, i: nat, j: nat) -> T {
    dot(row_of(a@, a.cols(), i), col_of(b@, b.rows(), b.cols(), j))
}

/// The flat, row-major elements of the product `a * b`.
pub open spec fn product<T: Numeric>(a: Matrix<T>, b: Matrix<T>) -> Seq<T> {
    Seq::new(
        a.rows() * b.cols(),
        |p: int| product_cell(a, b, (p / b.cols() as int) as nat, (p % b.cols() as int) as nat),
    )
}

/// One per-cell task: the row of the left operand and the column of the
/// right one whose dot product belongs at flat index `idx` of the result.
pub struct MsgInput<T> {
    idx: usize,
    row: Vector<T>,
    col: Vector<T>,
}

impl<T> MsgInput<T> {
    pub closed spec fn spec_idx(&self) -> nat {
        self.idx as nat
    }

    pub closed spec fn spec_row(&self) -> Seq<T> {
        self.row@
    }

    pub closed spec fn spec_col(&self) -> Seq<T> {
        self.col@
    }

    pub fn new(idx: usize, row: Vector<T>, col: Vector<T>) -> (r: Self)
        ensures
            r.spec_idx() == idx,
            r.spec_row() == row@,
            r.spec_col() == col@,
    {
        Self { idx, row, col }
    }

    pub fn idx(&self) -> (r: usize)
        ensures
            r == self.spec_idx(),
    {
        self.idx
    }
}

/// The reply to one task: the computed value and where it belongs.
pub struct MsgOutput<T> {
    idx: usize,
    value: T,
}

impl<T> MsgOutput<T> {
    pub closed spec fn spec_idx(&self) -> nat {
        self.idx as nat
    }

    pub closed spec fn spec_value(&self) -> T {
        self.value
    }

    pub fn idx(&self) -> (r: usize)
        ensures
            r == self.spec_idx(),
    {
        self.idx
    }
}

impl<T: Copy> MsgOutput<T> {
    pub fn value(&self) -> (r: T)
        ensures
            r == self.spec_value(),
    {
        self.value
    }
}

/// The worker that the task for flat index `idx` is sent to.
pub fn worker_for(idx: usize) -> (r: usize)
    ensures
        r == idx % NUM_THREADS,
        r < NUM_THREADS,
{
    idx % NUM_THREADS
}

/// Copies row `i` of `a` into a vector of its own.
fn extract_row<T: Copy>(a: &Matrix<T>, i: usize) -> (r: Vector<T>)
    requires
        a.wf(),
        i < a.rows(),
    ensures
        r@ == row_of(a@, a.cols(), i as nat),
{
    let k = a.col;
    let len = a.data.len();
    proof {
        assert(i * k + k <= a.rows() * k) by (nonlinear_arith)
            requires i < a.rows();
    }
    let start = i * k;
    let mut out: Vec<T> = Vec::new();
    let mut t: usize = 0;
    while t < k
        invariant
            a.wf(),
            k == a.cols(),
            start == i * k,
            start + k <= a@.len(),
            a@.len() == len,
            t <= k,
            out@ == a@.subrange(start as int, start + t),
        decreases k - t,
    {
        out.push(a.data[start + t]);
        t = t + 1;
        assert(out@ =~= a@.subrange(start as int, start + t));
    }
    Vector::new(out)
}

/// Gathers column `j` of `b` (every `b.col`-th element from offset `j`) into
/// a contiguous vector.
fn extract_col<T: Copy>(b: &Matrix<T>, j: usize) -> (r: Vector<T>)
    requires
        b.wf(),
        j < b.cols(),
    ensures
        r@ == col_of(b@, b.rows(), b.cols(), j as nat),
{
    let k = b.row;
    let n = b.col;
    let len = b.data.len();
    let mut out: Vec<T> = Vec::new();
    let mut t: usize = 0;
    while t < k
        invariant
            b.wf(),
            k == b.rows(),
            n == b.cols(),
            j < n,
            t <= k,
            b@.len() == len,
            out@ =~= col_of(b@, k as nat, n as nat, j as nat).subrange(0, t as int),
        decreases k - t,
    {
        proof {
            assert(t * n + j < k * n) by (nonlinear_arith)
                requires t < k, j < n;
        }
        out.push(b.data[t * n + j]);
        t = t + 1;
        assert(out@ =~= col_of(b@, k as nat, n as nat, j as nat).subrange(0, t as int));
    }
    Vector::new(out)
}

/// Decomposes `a * b` into one task per result cell, in row-major order of
/// the cells, or reports that `a`'s column count differs from `b`'s row
/// count.
pub fn plan_tasks<T: Copy>(a: &Matrix<T>, b: &Matrix<T>) -> (r: Result<Vec<MsgInput<T>>, MatrixError>)
    requires
        a.wf(),
        b.wf(),
        a.rows() * b.cols() <= usize::MAX,
    ensures
        a.cols() != b.rows() ==> r == Err::<Vec<MsgInput<T>>, MatrixError>(
            MatrixError::DimensionMismatch { left: a.cols() as usize, right: b.rows() as usize },
        ),
        a.cols() == b.rows() ==> r is Ok,
        r matches Ok(tasks) ==> {
            &&& tasks@.len() == a.rows() * b.cols()
            &&& forall|p: int|
                0 <= p < tasks@.len() ==> {
                    &&& #[trigger] tasks@[p].spec_idx() == p
                    &&& tasks@[p].spec_row() == row_of(
                        a@,
                        a.cols(),
                        (p / b.cols() as int) as nat,
                    )
                    &&& tasks@[p].spec_col() == col_of(
                        b@,
                        b.rows(),
                        b.cols(),
                        (p % b.cols() as int) as nat,
                    )
                }
        },
{
    if a.col != b.row {
        return Err(MatrixError::DimensionMismatch { left: a.col, right: b.row });
    }
    let m = a.row;
    let n = b.col;
    let mut tasks: Vec<MsgInput<T>> = Vec::new();
    let mut i: usize = 0;
    while i < m
        invariant
            a.wf(),
            b.wf(),
            a.cols() == b.rows(),
            m == a.rows(),
            n == b.cols(),
            m * n <= usize::MAX,
            i <= m,
            tasks@.len() == i * n,
            forall|p: int|
                0 <= p < tasks@.len() ==> {
                    &&& #[trigger] tasks@[p].spec_idx() == p
                    &&& tasks@[p].spec_row() == row_of(a@, a.cols(), (p / n as int) as nat)
                    &&& tasks@[p].spec_col() == col_of(
                        b@,
                        b.rows(),
                        n as nat,
                        (p % n as int) as nat,
                    )
                },
        decreases m - i,
    {
        let mut j: usize = 0;
        while j < n
            invariant
                a.wf(),
                b.wf(),
                a.cols() == b.rows(),
                m == a.rows(),
                n == b.cols(),
                m * n <= usize::MAX,
                i < m,
                j <= n,
                tasks@.len() == i * n + j,
                forall|p: int|
                    0 <= p < tasks@.len() ==> {
                        &&& #[trigger] tasks@[p].spec_idx() == p
                        &&& tasks@[p].spec_row() == row_of(a@, a.cols(), (p / n as int) as nat)
                        &&& tasks@[p].spec_col() == col_of(
                            b@,
                            b.rows(),
                            n as nat,
                            (p % n as int) as nat,
                        )
                    },
            decreases n - j,
        {
            proof {
                assert(i * n + j < m * n) by (nonlinear_arith)
                    requires i < m, j < n;
                lemma_fundamental_div_mod_converse((i * n + j) as int, n as int, i as int, j as int);
            }
            let idx = i * n + j;
            let row = extract_row(a, i);
            let col = extract_col(b, j);
            tasks.push(MsgInput::new(idx, row, col));
            j = j + 1;
        }
        proof {
            assert(i * n + n == (i + 1) * n) by (nonlinear_arith);
        }
        i = i + 1;
    }
    Ok(tasks)
}

/// The worker's step: computes the dot product that a task asks for and tags
/// it with the task's destination.
pub fn run_task<T: Numeric>(input: MsgInput<T>) -> (r: Result<MsgOutput<T>, MatrixError>)
    ensures
        input.spec_row().len() == input.spec_col().len() ==> (r matches Ok(out) && out.spec_idx()
            == input.spec_idx() && out.spec_value() == dot(input.spec_row(), input.spec_col())),
        input.spec_row().len() != input.spec_col().len() ==> r == Err::<MsgOutput<T>, MatrixError>(
            MatrixError::DimensionMismatch {
                left: input.spec_row().len() as usize,
                right: input.spec_col().len() as usize,
            },
        ),
{
    let MsgInput { idx, row, col } = input;
    match dot_product(row, col) {
        Ok(value) => Ok(MsgOutput { idx, value }),
        Err(e) => Err(e),
    }
}

/// A buffer of `len` zeros.
pub open spec fn zeros<T: Numeric>(len: nat) -> Seq<T> {
    Seq::new(len, |p: int| T::spec_zero())
}

/// `buf` after each reply in `outs`, in order, has written its value at its
/// destination.
pub open spec fn apply_outputs<T>(buf: Seq<T>, outs: Seq<MsgOutput<T>>) -> Seq<T>
    decreases outs.len(),
{
    if outs.len() == 0 {
        buf
    } else {
        apply_outputs(buf, outs.drop_last()).update(
            outs.last().spec_idx() as int,
            outs.last().spec_value(),
        )
    }
}

/// Every reply in `outs` names a slot below `len`.
pub open spec fn all_in_range<T>(outs: Seq<MsgOutput<T>>, len: nat) -> bool {
    forall|k: int| 0 <= k < outs.len() ==> #[trigger] outs[k].spec_idx() < len
}

/// No two replies in `outs` name the same slot.
pub open spec fn distinct_targets<T>(outs: Seq<MsgOutput<T>>) -> bool {
    forall|k1: int, k2: int|
        0 <= k1 < outs.len() && 0 <= k2 < outs.len() && k1 != k2 ==> #[trigger] outs[k1].spec_idx()
            != #[trigger] outs[k2].spec_idx()
}

/// With distinct, in-range destinations, each reply's value ends up in its
/// own slot and every slot that no reply names keeps its old value.
pub proof fn lemma_apply_outputs_slots<T>(buf: Seq<T>, outs: Seq<MsgOutput<T>>)
    requires
        all_in_range(outs, buf.len()),
        distinct_targets(outs),
    ensures
        apply_outputs(buf, outs).len() == buf.len(),
        forall|k: int|
            0 <= k < outs.len() ==> apply_outputs(buf, outs)[#[trigger] outs[k].spec_idx() as int]
                == outs[k].spec_value(),
        forall|p: int|
            0 <= p < buf.len() && (forall|k: int| 0 <= k < outs.len() ==> #[trigger] outs[k].spec_idx() != p)
                ==> apply_outputs(buf, outs)[p] == buf[p],
    decreases outs.len(),
{
    if outs.len() > 0 {
        let init = outs.drop_last();
        assert forall|k1: int, k2: int|
            0 <= k1 < init.len() && 0 <= k2 < init.len() && k1 != k2 implies #[trigger] init[k1].spec_idx()
                != #[trigger] init[k2].spec_idx() by {
            assert(init[k1] == outs[k1] && init[k2] == outs[k2]);
        }
        assert forall|k: int| 0 <= k < init.len() implies #[trigger] init[k].spec_idx() < buf.len() by {
            assert(init[k] == outs[k]);
        }
        lemma_apply_outputs_slots(buf, init);
        let last = outs.len() - 1;
        assert forall|k: int|
            0 <= k < outs.len() implies apply_outputs(buf, outs)[#[trigger] outs[k].spec_idx() as int]
                == outs[k].spec_value() by {
            if k != last {
                assert(init[k] == outs[k]);
                assert(outs[k].spec_idx() != outs[last].spec_idx());
            }
        }
        assert forall|p: int|
            0 <= p < buf.len() && (forall|k: int| 0 <= k < outs.len() ==> #[trigger] outs[k].spec_idx() != p)
                implies apply_outputs(buf, outs)[p] == buf[p] by {
            assert forall|k: int| 0 <= k < init.len() implies #[trigger] init[k].spec_idx() != p by {
                assert(init[k] == outs[k]);
            }
            assert(outs[last].spec_idx() != p);
        }
    }
}

/// Placing replies is independent of the order in which they arrive: any
/// two arrival orders of the same replies, with distinct in-range
/// destinations, fill the buffer identically.
pub proof fn lemma_reduce_order_independent<T>(
    buf: Seq<T>,
    outs1: Seq<MsgOutput<T>>,
    outs2: Seq<MsgOutput<T>>,
)
    requires
        all_in_range(outs1, buf.len()),
        distinct_targets(outs1),
        distinct_targets(outs2),
        outs1.to_multiset() == outs2.to_multiset(),
    ensures
        apply_outputs(buf, outs1) == apply_outputs(buf, outs2),
{
    broadcast use vstd::seq_lib::group_to_multiset_ensures;

    assert forall|k: int| 0 <= k < outs2.len() implies #[trigger] outs2[k].spec_idx() < buf.len() by {
        assert(outs2.contains(outs2[k]));
        assert(outs2.to_multiset().count(outs2[k]) > 0);
        assert(outs1.contains(outs2[k]));
    }
    lemma_apply_outputs_slots(buf, outs1);
    lemma_apply_outputs_slots(buf, outs2);
    let r1 = apply_outputs(buf, outs1);
    let r2 = apply_outputs(buf, outs2);
    assert forall|p: int| 0 <= p < buf.len() implies r1[p] == r2[p] by {
        if exists|k: int| 0 <= k < outs1.len() && #[trigger] outs1[k].spec_idx() == p {
            let k = choose|k: int| 0 <= k < outs1.len() && #[trigger] outs1[k].spec_idx() == p;
            assert(outs1.contains(outs1[k]));
            assert(outs1.to_multiset().count(outs1[k]) > 0);
            assert(outs2.contains(outs1[k]));
            let k2 = choose|q: int| 0 <= q < outs2.len() && outs2[q] == outs1[k];
            assert(outs2[k2].spec_idx() == p);
            assert(r1[p] == outs1[k].spec_value());
            assert(r2[p] == outs2[k2].spec_value());
        } else {
            assert forall|k: int| 0 <= k < outs1.len() implies #[trigger] outs1[k].spec_idx() != p by {}
            assert(r1[p] == buf[p]);
            assert forall|k: int| 0 <= k < outs2.len() implies #[trigger] outs2[k].spec_idx() != p by {
                assert(outs2.contains(outs2[k]));
                assert(outs2.to_multiset().count(outs2[k]) > 0);
                assert(outs1.contains(outs2[k]));
                let q = choose|q: int| 0 <= q < outs1.len() && outs1[q] == outs2[k];
                assert(outs1[q].spec_idx() != p);
            }
            assert(r2[p] == buf[p]);
        }
    }
    assert(r1 =~= r2);
}

/// Writes each reply's value into a zero-filled `row` by `col` buffer at
/// the reply's destination, or reports a reply whose destination lies
/// outside the result.
pub fn reduce<T: Numeric>(row: usize, col: usize, outputs: Vec<MsgOutput<T>>) -> (r: Result<
    Matrix<T>,
    MatrixError,
>)
    requires
        row * col <= usize::MAX,
    ensures
        all_in_range(outputs@, (row * col) as nat) <==> r is Ok,
        r is Err ==> r == Err::<Matrix<T>, MatrixError>(MatrixError::WorkerCommunicationFailure),
        r matches Ok(m) ==> {
            &&& m.rows() == row
            &&& m.cols() == col
            &&& m.wf()
            &&& m@ == apply_outputs(zeros::<T>((row * col) as nat), outputs@)
        },
{
    let len = row * col;
    let mut data: Vec<T> = Vec::new();
    let mut p: usize = 0;
    while p < len
        invariant
            p <= len,
            data@ =~= zeros::<T>(p as nat),
        decreases len - p,
    {
        data.push(T::zero());
        p = p + 1;
    }
    let mut k: usize = 0;
    while k < outputs.len()
        invariant
            k <= outputs@.len(),
            len == row * col,
            data@ == apply_outputs(zeros::<T>(len as nat), outputs@.subrange(0, k as int)),
            data@.len() == len,
            all_in_range(outputs@.subrange(0, k as int), len as nat),
        decreases outputs@.len() - k,
    {
        let idx = outputs[k].idx;
        if idx >= len {
            assert(outputs@[k as int].spec_idx() >= len);
            return Err(MatrixError::WorkerCommunicationFailure);
        }
        data.set(idx, outputs[k].value);
        let ghost done = outputs@.subrange(0, k + 1);
        assert(done.drop_last() =~= outputs@.subrange(0, k as int));
        k = k + 1;
        assert forall|q: int| 0 <= q < done.len() implies #[trigger] done[q].spec_idx() < len by {
            if q < k - 1 {
                assert(outputs@.subrange(0, k - 1)[q] == done[q]);
            }
        }
    }
    assert(outputs@.subrange(0, k as int) =~= outputs@);
    Ok(Matrix { data, row, col })
}

/// The row and column of cell `p` of an `m` by `n` result lie within the
/// operands.
proof fn lemma_cell_position(p: int, m: int, n: int)
    requires
        0 <= p < m * n,
        0 <= m,
        0 <= n,
    ensures
        n > 0,
        0 <= p / n < m,
        0 <= p % n < n,
{
    assert(n > 0) by (nonlinear_arith)
        requires 0 <= p < m * n, 0 <= m, 0 <= n;
    lemma_fundamental_div_mod(p, n);
    lemma_mod_pos_bound(p, n);
    let q = p / n;
    let r = p % n;
    assert(0 <= q < m) by (nonlinear_arith)
        requires p == n * q + r, 0 <= r < n, 0 <= p < m * n, n > 0;
}

/// Multiplies `a` (m by k) by `b` (k by n), or reports that `a`'s column
/// count differs from `b`'s row count. Each cell of the result is the dot
/// product of a row of `a` with a column of `b`, computed as its own task.
pub fn multiply<T: Numeric>(a: &Matrix<T>, b: &Matrix<T>) -> (r: Result<Matrix<T>, MatrixError>)
    requires
        a.wf(),
        b.wf(),
        a.rows() * b.cols() <= usize::MAX,
    ensures
        a.cols() != b.rows() ==> r == Err::<Matrix<T>, MatrixError>(
            MatrixError::DimensionMismatch { left: a.cols() as usize, right: b.rows() as usize },
        ),
        a.cols() == b.rows() ==> (r matches Ok(m) && m.rows() == a.rows() && m.cols() == b.cols()
            && m.wf() && m@ == product(*a, *b)),
{
    let mut tasks = match plan_tasks(a, b) {
        Ok(tasks) => tasks,
        Err(e) => return Err(e),
    };
    let len = tasks.len();
    let ghost planned = tasks@;
    let ghost n = b.cols() as int;
    let ghost cells = product(*a, *b);
    let mut outputs: Vec<MsgOutput<T>> = Vec::new();
    let mut q: usize = 0;
    while q < len
        invariant
            a.wf(),
            b.wf(),
            a.cols() == b.rows(),
            len == planned.len(),
            len == a.rows() * b.cols(),
            n == b.cols(),
            cells == product(*a, *b),
            q <= len,
            tasks@ == planned.subrange(0, len - q),
            outputs@.len() == q,
            forall|p: int|
                0 <= p < planned.len() ==> {
                    &&& #[trigger] planned[p].spec_idx() == p
                    &&& planned[p].spec_row() == row_of(a@, a.cols(), (p / n) as nat)
                    &&& planned[p].spec_col() == col_of(b@, b.rows(), n as nat, (p % n) as nat)
                },
            forall|t: int|
                0 <= t < q ==> {
                    &&& #[trigger] outputs@[t].spec_idx() == len - 1 - t
                    &&& outputs@[t].spec_value() == cells[len - 1 - t]
                },
        decreases len - q,
    {
        let task = tasks.pop().unwrap();
        let ghost p = len - 1 - q;
        proof {
            assert(task == planned[p]);
            assert(planned[p].spec_idx() == p);
            lemma_cell_position(p, a.rows() as int, n);
            let i = p / n;
            assert(i * a.cols() + a.cols() <= a.rows() * a.cols()) by (nonlinear_arith)
                requires 0 <= i < a.rows();
            assert(0 <= i * a.cols()) by (nonlinear_arith)
                requires 0 <= i;
            assert(task.spec_row().len() == a.cols());
            assert(task.spec_col().len() == b.rows());
        }
        let out = match run_task(task) {
            Ok(out) => out,
            Err(e) => return Err(e),
        };
        outputs.push(out);
        q = q + 1;
    }
    let ghost outs = outputs@;
    proof {
        assert forall|k1: int, k2: int|
            0 <= k1 < outs.len() && 0 <= k2 < outs.len() && k1 != k2 implies #[trigger] outs[k1].spec_idx()
                != #[trigger] outs[k2].spec_idx() by {}
        lemma_apply_outputs_slots(zeros::<T>(len as nat), outs);
    }
    let r = reduce(a.row, b.col, outputs);
    match r {
        Ok(m) => {
            proof {
                assert forall|p: int| 0 <= p < len implies m@[p] == cells[p] by {
                    let t = len - 1 - p;
                    assert(outs[t].spec_idx() == p);
                }
                assert(m@ =~= cells);
            }
            Ok(m)
        },
        Err(e) => Err(e),
    }
}

/// Cell `(i, j)` of the product, stored at flat index `i * n + j`, is the dot
/// product of row `i` of `a` with column `j` of `b`.
pub proof fn lemma_product_cell<T: Numeric>(a: Matrix<T>, b: Matrix<T>, i: nat, j: nat)
    requires
        a.wf(),
        b.wf(),
        a.cols() == b.rows(),
        i < a.rows(),
        j < b.cols(),
    ensures
        product(a, b).len() == a.rows() * b.cols(),
        i * b.cols() + j < a.rows() * b.cols(),
        product(a, b)[(i * b.cols() + j) as int] == dot(
            row_of(a@, a.cols(), i),
            col_of(b@, b.rows(), b.cols(), j),
        ),
{
    let n = b.cols();
    assert(i * n + j < a.rows() * n) by (nonlinear_arith)
        requires i < a.rows(), j < n;
    lemma_fundamental_div_mod_converse((i * n + j) as int, n as int, i as int, j as int);
}

/// The elements of `s`, each in decimal, separated by single spaces.
pub open spec fn render_cells<T: Numeric>(s: Seq<T>) -> Seq<char>
    decreases s.len(),
{
    if s.len() == 0 {
        Seq::empty()
    } else if s.len() == 1 {
        int_decimal(s[0].spec_int())
    } else {
        render_cells(s.drop_last()) + seq![' '] + int_decimal(s.last().spec_int())
    }
}

/// The first `r` rows of a `k`-column matrix stored in `s`, each rendered by
/// `render_cells`, separated by `", "`.
pub open spec fn render_rows<T: Numeric>(s: Seq<T>, k: nat, r: nat) -> Seq<char>
    decreases r,
{
    if r == 0 {
        Seq::empty()
    } else if r == 1 {
        render_cells(row_of(s, k, 0))
    } else {
        render_rows(s, k, (r - 1) as nat) + seq![',', ' '] + render_cells(
            row_of(s, k, (r - 1) as nat),
        )
    }
}

/// The display text of a matrix: its rows inside braces, as in
/// `{1 2, 3 4}`.
pub open spec fn display_text<T: Numeric>(m: Matrix<T>) -> Seq<char> {
    seq!['{'] + render_rows(m@, m.cols(), m.rows()) + seq!['}']
}

/// The debug text of a matrix: its dimensions and its display text, as in
/// `Matrix(row=2, col=2, {1 2, 3 4})`.
pub open spec fn debug_text<T: Numeric>(m: Matrix<T>) -> Seq<char> {
    "Matrix(row="@ + nat_decimal(m.rows()) + ", col="@ + nat_decimal(m.cols()) + ", "@
        + display_text(m) + ")"@
}

/// Appends the elements of row `i` of `m` to `s`.
fn push_row<T: Numeric>(s: &mut String, m: &Matrix<T>, i: usize)
    requires
        m.wf(),
        i < m.rows(),
    ensures
        final(s)@ == old(s)@ + render_cells(row_of(m@, m.cols(), i as nat)),
{
    let k = m.col;
    let len = m.data.len();
    proof {
        assert(i * k + k <= m.rows() * k) by (nonlinear_arith)
            requires i < m.rows();
        assert(0 <= i * k) by (nonlinear_arith);
    }
    let start = i * k;
    let ghost cells = row_of(m@, m.cols(), i as nat);
    let mut j: usize = 0;
    while j < k
        invariant
            m.wf(),
            k == m.cols(),
            len == m@.len(),
            start == i * k,
            start + k <= len,
            cells == m@.subrange(start as int, start + k),
            j <= k,
            s@ == old(s)@ + render_cells(cells.subrange(0, j as int)),
        decreases k - j,
    {
        if j > 0 {
            proof {
                reveal_strlit(" ");
            }
            s.append(" ");
        }
        let v = m.data[start + j];
        push_int(s, v.to_i128());
        proof {
            let done = cells.subrange(0, j + 1);
            assert(done.drop_last() =~= cells.subrange(0, j as int));
            assert(done.last() == v);
            assert(s@ =~= old(s)@ + render_cells(done));
        }
        j = j + 1;
    }
    assert(cells.subrange(0, k as int) =~= cells);
}

impl<T: Numeric> Matrix<T> {
    /// The matrix as text: rows inside braces, elements separated by single
    /// spaces and rows by `", "`, as in `{7 10, 15 22}`.
    pub fn to_display_string(&self) -> (r: String)
        requires
            self.wf(),
        ensures
            r@ == display_text(*self),
    {
        let mut s = String::new();
        proof {
            reveal_strlit("{");
        }
        s.append("{");
        let mut i: usize = 0;
        while i < self.row
            invariant
                self.wf(),
                i <= self.rows(),
                s@ == seq!['{'] + render_rows(self@, self.cols(), i as nat),
            decreases self.rows() - i,
        {
            if i > 0 {
                proof {
                    reveal_strlit(", ");
                }
                s.append(", ");
            }
            push_row(&mut s, self, i);
            i = i + 1;
        }
        proof {
            reveal_strlit("}");
        }
        s.append("}");
        assert(s@ =~= display_text(*self));
        s
    }

    /// The matrix as text with its dimensions, as in
    /// `Matrix(row=2, col=2, {22 28, 49 64})`.
    pub fn to_debug_string(&self) -> (r: String)
        requires
            self.wf(),
        ensures
            r@ == debug_text(*self),
    {
        let mut s = String::new();
        s.append("Matrix(row=");
        push_nat(&mut s, self.row as u128);
        s.append(", col=");
        push_nat(&mut s, self.col as u128);
        s.append(", ");
        let body = self.to_display_string();
        s.append(body.as_str());
        s.append(")");
        assert(s@ =~= debug_text(*self));
        s
    }
}

} // verus!
