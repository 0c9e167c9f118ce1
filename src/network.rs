use vstd::prelude::*;

use crate::error::ShapeError;

verus! {

/// Width of the network's output: three color channels and one density.
pub const OUTPUT_WIDTH: usize = 4;

/// Number of color channels of the network's output.
pub const RGB_WIDTH: usize = 3;

/// Hyper-parameters of the regression network.
///
/// `width_linear` is the width of the eight hidden layers, `d_input_pt` and
/// `d_input_dir` the widths of the encoded position and view direction.
#[derive(Clone, Copy, Debug, PartialEq, Eq, Structural)]
pub struct NerfModelConfig {
    pub width_linear: usize,
    pub d_input_pt: usize,
    pub d_input_dir: usize,
    pub d_output: usize,
}

/// Input and output widths of the eleven linear layers, in this order:
/// the eight hidden layers, the density head, the view projection and the
/// color projection. The fifth hidden layer also takes the raw position
/// input, the view projection the view-direction input.
pub open spec fn spec_layer_dims(w: int, p: int, d: int) -> Seq<(int, int)> {
    seq![
        (p, w), (w, w), (w, w), (w, w),
        (w + p, w), (w, w), (w, w), (w, w),
        (w, 1), (w + d, w / 2), (w / 2, RGB_WIDTH as int)
    ]
}

/// Output shape of the forward pass for an input of shape `input`.
pub open spec fn spec_forward_shape(c: NerfModelConfig, input: (usize, usize)) -> Result<
    (usize, usize),
    ShapeError,
> {
    if c.d_input_pt + c.d_input_dir > usize::MAX {
        Err(ShapeError::WidthOverflow)
    } else if input.1 as int != c.d_input_pt + c.d_input_dir {
        Err(
            ShapeError::InputWidth {
                expected: (c.d_input_pt + c.d_input_dir) as usize,
                found: input.1,
            },
        )
    } else {
        Ok((input.0, OUTPUT_WIDTH))
    }
}

impl NerfModelConfig {
    pub fn new(width_linear: usize, d_input_pt: usize, d_input_dir: usize, d_output: usize) -> (r:
        Self)
        ensures
            r.width_linear == width_linear,
            r.d_input_pt == d_input_pt,
            r.d_input_dir == d_input_dir,
            r.d_output == d_output,
    {
        NerfModelConfig { width_linear, d_input_pt, d_input_dir, d_output }
    }

    /// Widths of the eleven linear layers, or an error where one of the
    /// concatenated widths does not fit in a machine word.
    pub fn layer_dims(&self) -> (r: Result<Vec<(usize, usize)>, ShapeError>)
        ensures
            match r {
                Ok(v) => {
                    &&& self.width_linear + self.d_input_pt <= usize::MAX
                    &&& self.width_linear + self.d_input_dir <= usize::MAX
                    &&& v@.len() == 11
                    &&& forall|i: int|
                        0 <= i < 11 ==> (v@[i].0 as int, v@[i].1 as int) == #[trigger] spec_layer_dims(
                            self.width_linear as int,
                            self.d_input_pt as int,
                            self.d_input_dir as int,
                        )[i]
                },
                Err(e) => {
                    &&& e == ShapeError::WidthOverflow
                    &&& (self.width_linear + self.d_input_pt > usize::MAX || self.width_linear
                        + self.d_input_dir > usize::MAX)
                },
            },
    {
        let w = self.width_linear;
        let p = self.d_input_pt;
        let d = self.d_input_dir;
        if w > usize::MAX - p || w > usize::MAX - d {
            return Err(ShapeError::WidthOverflow);
        }
        let half = w / 2;
        let v: Vec<(usize, usize)> = vec![
            (p, w), (w, w), (w, w), (w, w),
            (w + p, w), (w, w), (w, w), (w, w),
            (w, 1), (w + d, half), (half, RGB_WIDTH)
        ];
        assert forall|i: int| 0 <= i < 11 implies (v@[i].0 as int, v@[i].1 as int)
            == #[trigger] spec_layer_dims(w as int, p as int, d as int)[i] by {}
        Ok(v)
    }

    /// Total input width of the network: position columns, then direction
    /// columns.
    pub fn input_width(&self) -> (r: Option<usize>)
        ensures
            match r {
                Some(n) => n == self.d_input_pt + self.d_input_dir,
                None => self.d_input_pt + self.d_input_dir > usize::MAX,
            },
    {
        self.d_input_pt.checked_add(self.d_input_dir)
    }

    /// Output shape of the forward pass on an input of shape `input`
    /// (rows, columns): `(rows, 4)` where the columns are the position and
    /// direction widths together, an error otherwise.
    pub fn forward_shape(&self, input: (usize, usize)) -> (r: Result<(usize, usize), ShapeError>)
        ensures
            r == spec_forward_shape(*self, input),
    {
        match self.input_width() {
            None => Err(ShapeError::WidthOverflow),
            Some(n) => {
                if input.1 != n {
                    Err(ShapeError::InputWidth { expected: n, found: input.1 })
                } else {
                    Ok((input.0, OUTPUT_WIDTH))
                }
            },
        }
    }

    /// Column ranges `(start, end)` of the position part and of the direction
    /// part of an input row.
    pub fn input_columns(&self) -> (r: Result<((usize, usize), (usize, usize)), ShapeError>)
        ensures
            match r {
                Ok(((a, b), (c, d))) => {
                    &&& a == 0 && b == self.d_input_pt && c == self.d_input_pt
                    &&& d == self.d_input_pt + self.d_input_dir
                },
                Err(e) => e == ShapeError::WidthOverflow && self.d_input_pt + self.d_input_dir
                    > usize::MAX,
            },
    {
        match self.input_width() {
            None => Err(ShapeError::WidthOverflow),
            Some(n) => Ok(((0, self.d_input_pt), (self.d_input_pt, n))),
        }
    }
}

/// Every batch whose width is the position and direction widths together
/// passes through the network as `rows` rows of four columns, whatever the
/// number of rows.
pub proof fn forward_shape_of_any_batch(c: NerfModelConfig, rows: usize)
    requires
        c.d_input_pt + c.d_input_dir <= usize::MAX,
    ensures
        spec_forward_shape(c, (rows, (c.d_input_pt + c.d_input_dir) as usize)) == Ok::<
            (usize, usize),
            ShapeError,
        >((rows, OUTPUT_WIDTH)),
        forall|cols: usize|
            cols != c.d_input_pt + c.d_input_dir ==> #[trigger] spec_forward_shape(
                c,
                (rows, cols),
            ).is_err(),
{
}

/// The layers chain: each hidden layer takes what the one before gives,
/// with the position input joined before the fifth; both heads take the
/// eighth layer's output, the view projection joined with the direction
/// input; the color projection takes the view projection's output.
pub proof fn layer_dims_chain(w: int, p: int, d: int)
    ensures
        ({
            let s = spec_layer_dims(w, p, d);
            &&& s[0].0 == p
            &&& forall|i: int| 0 <= i < 7 && i != 3 ==> s[i + 1].0 == #[trigger] s[i].1
            &&& s[4].0 == s[3].1 + p
            &&& s[8].0 == s[7].1
            &&& s[9].0 == s[7].1 + d
            &&& s[10].0 == s[9].1
            &&& s[8].1 + s[10].1 == OUTPUT_WIDTH
        }),
{
    let s = spec_layer_dims(w, p, d);
    assert forall|i: int| 0 <= i < 7 && i != 3 implies s[i + 1].0 == #[trigger] s[i].1 by {}
}

} // verus!
