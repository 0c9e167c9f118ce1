use vstd::prelude::*;

use crate::dataset::ParticleItem;

verus! {

/// Columns of a feature row: position, then view direction.
pub const FEATURE_WIDTH: usize = 6;

/// Columns of a label row: red, green, blue.
pub const LABEL_WIDTH: usize = 3;

/// A mini-batch as two row-major buffers: `features` of shape
/// `[rows, 6]` (IEEE-754 single-precision bit patterns) and `labels` of
/// shape `[rows, 3]`.
pub struct ParticleBatch {
    pub rows: usize,
    pub features: Vec<u32>,
    pub labels: Vec<i32>,
}

/// Row `i` of `b` holds item `i` of `items`.
pub open spec fn batch_holds(b: ParticleBatch, items: Seq<ParticleItem>) -> bool {
    &&& b.rows == items.len()
    &&& b.features@.len() == items.len() * FEATURE_WIDTH
    &&& b.labels@.len() == items.len() * LABEL_WIDTH
    &&& forall|i: int, j: int|
        0 <= i < items.len() && 0 <= j < FEATURE_WIDTH ==> #[trigger] b.features@[row_major(
            i,
            j,
            FEATURE_WIDTH as int,
        )] == items[i].feature@[j]
    &&& forall|i: int, j: int|
        0 <= i < items.len() && 0 <= j < LABEL_WIDTH ==> #[trigger] b.labels@[row_major(
            i,
            j,
            LABEL_WIDTH as int,
        )] == items[i].label@[j]
}

/// Offset of cell `(i, j)` in a row-major buffer with `cols` columns.
pub open spec fn row_major(i: int, j: int, cols: int) -> int {
    i * cols + j
}

impl ParticleBatch {
    /// Shape `[rows, 6]` of the feature buffer.
    pub fn feature_shape(&self) -> (r: (usize, usize))
        ensures
            r == (self.rows, FEATURE_WIDTH),
    {
        (self.rows, FEATURE_WIDTH)
    }

    /// Shape `[rows, 3]` of the label buffer.
    pub fn label_shape(&self) -> (r: (usize, usize))
        ensures
            r == (self.rows, LABEL_WIDTH),
    {
        (self.rows, LABEL_WIDTH)
    }
}

proof fn lemma_row_major_step(i: int, j: int, cols: int)
    requires
        0 <= j < cols,
        0 <= i,
    ensures
        row_major(i, j, cols) < row_major(i + 1, 0, cols),
        row_major(i + 1, 0, cols) == row_major(i, 0, cols) + cols,
        row_major(i, j, cols) == row_major(i, 0, cols) + j,
        0 <= row_major(i, j, cols),
{
    assert((i + 1) * cols == i * cols + cols) by (nonlinear_arith);
    assert(0 <= i * cols) by (nonlinear_arith)
        requires 0 <= i, 0 <= cols;
}

/// Splits particles into a feature buffer and a label buffer, one row per
/// particle, in the order given. An empty list gives an empty batch of
/// zero rows.
pub fn batch(items: &Vec<ParticleItem>) -> (r: ParticleBatch)
    ensures
        batch_holds(r, items@),
{
    let mut features: Vec<u32> = Vec::new();
    let mut labels: Vec<i32> = Vec::new();
    let mut i: usize = 0;
    while i < items.len()
        invariant
            0 <= i <= items@.len(),
            features@.len() == i * FEATURE_WIDTH,
            labels@.len() == i * LABEL_WIDTH,
            forall|a: int, j: int|
                0 <= a < i && 0 <= j < FEATURE_WIDTH ==> #[trigger] features@[row_major(
                    a,
                    j,
                    FEATURE_WIDTH as int,
                )] == items@[a].feature@[j],
            forall|a: int, j: int|
                0 <= a < i && 0 <= j < LABEL_WIDTH ==> #[trigger] labels@[row_major(
                    a,
                    j,
                    LABEL_WIDTH as int,
                )] == items@[a].label@[j],
        decreases items@.len() - i,
    {
        let item = items[i];
        let ghost f0 = features@;
        let ghost l0 = labels@;
        let mut j: usize = 0;
        while j < FEATURE_WIDTH
            invariant
                0 <= j <= FEATURE_WIDTH,
                features@.len() == i * FEATURE_WIDTH + j,
                features@.subrange(0, i * FEATURE_WIDTH) == f0,
                f0.len() == i * FEATURE_WIDTH,
                forall|jj: int|
                    0 <= jj < j ==> #[trigger] features@[i * FEATURE_WIDTH + jj] == item.feature@[jj],
            decreases FEATURE_WIDTH - j,
        {
            features.push(item.feature[j]);
            assert(features@.subrange(0, i * FEATURE_WIDTH) =~= f0);
            j = j + 1;
        }
        let mut j: usize = 0;
        while j < LABEL_WIDTH
            invariant
                0 <= j <= LABEL_WIDTH,
                labels@.len() == i * LABEL_WIDTH + j,
                labels@.subrange(0, i * LABEL_WIDTH) == l0,
                l0.len() == i * LABEL_WIDTH,
                forall|jj: int|
                    0 <= jj < j ==> #[trigger] labels@[i * LABEL_WIDTH + jj] == item.label@[jj],
            decreases LABEL_WIDTH - j,
        {
            labels.push(item.label[j]);
            assert(labels@.subrange(0, i * LABEL_WIDTH) =~= l0);
            j = j + 1;
        }
        proof {
            assert(features@.len() == (i + 1) * FEATURE_WIDTH) by (nonlinear_arith)
                requires features@.len() == i * FEATURE_WIDTH + FEATURE_WIDTH;
            assert(labels@.len() == (i + 1) * LABEL_WIDTH) by (nonlinear_arith)
                requires labels@.len() == i * LABEL_WIDTH + LABEL_WIDTH;
            assert forall|a: int, j: int|
                0 <= a < i + 1 && 0 <= j < FEATURE_WIDTH implies #[trigger] features@[row_major(
                    a,
                    j,
                    FEATURE_WIDTH as int,
                )] == items@[a].feature@[j] by {
                lemma_row_major_step(a, j, FEATURE_WIDTH as int);
                if a < i {
                    lemma_row_major_step(a, 0, FEATURE_WIDTH as int);
                    assert(row_major(a + 1, 0, FEATURE_WIDTH as int) <= row_major(i as int, 0, FEATURE_WIDTH as int)) by (nonlinear_arith)
                        requires a + 1 <= i;
                    assert(features@[row_major(a, j, FEATURE_WIDTH as int)] == features@.subrange(0, i * FEATURE_WIDTH)[row_major(a, j, FEATURE_WIDTH as int)]);
                } else {
                    assert(row_major(a, j, FEATURE_WIDTH as int) == i * FEATURE_WIDTH + j);
                }
            }
            assert forall|a: int, j: int|
                0 <= a < i + 1 && 0 <= j < LABEL_WIDTH implies #[trigger] labels@[row_major(
                    a,
                    j,
                    LABEL_WIDTH as int,
                )] == items@[a].label@[j] by {
                lemma_row_major_step(a, j, LABEL_WIDTH as int);
                if a < i {
                    lemma_row_major_step(a, 0, LABEL_WIDTH as int);
                    assert(row_major(a + 1, 0, LABEL_WIDTH as int) <= row_major(i as int, 0, LABEL_WIDTH as int)) by (nonlinear_arith)
                        requires a + 1 <= i;
                    assert(labels@[row_major(a, j, LABEL_WIDTH as int)] == labels@.subrange(0, i * LABEL_WIDTH)[row_major(a, j, LABEL_WIDTH as int)]);
                } else {
                    assert(row_major(a, j, LABEL_WIDTH as int) == i * LABEL_WIDTH + j);
                }
            }
        }
        i = i + 1;
    }
    ParticleBatch { rows: items.len(), features, labels }
}

} // verus!
