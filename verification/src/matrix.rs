//! The flat, row-major form in which the weights and gradients of a dense
//! layer are stored and restored.

use vstd::prelude::*;

verus! {

/// The rows of `m`, one after the other.
pub open spec fn spec_flatten<T>(m: Seq<Seq<T>>) -> Seq<T>
    decreases m.len(),
{
    if m.len() == 0 {
        Seq::empty()
    } else {
        spec_flatten(m.drop_last()) + m.last()
    }
}

/// Whether `m` has `rows` rows of `cols` entries each.
pub open spec fn is_matrix<T>(m: Seq<Seq<T>>, rows: nat, cols: nat) -> bool {
    m.len() == rows && forall|r: int| 0 <= r < rows ==> #[trigger] m[r].len() == cols
}

/// The view of a matrix held as rows of vectors.
pub open spec fn rows_view<T>(m: Seq<Vec<T>>) -> Seq<Seq<T>> {
    m.map_values(|row: Vec<T>| row@)
}

/// The `rows` x `cols` matrix whose entry `(r, c)` is `flat[r * cols + c]`
/// where `flat` reaches that far, and `zero` elsewhere.
pub open spec fn spec_unflatten<T>(flat: Seq<T>, rows: nat, cols: nat, zero: T) -> Seq<Seq<T>> {
    Seq::new(
        rows,
        |r: int|
            Seq::new(
                cols,
                |c: int|
                    if r * cols + c < flat.len() {
                        flat[r * cols + c]
                    } else {
                        zero
                    },
            ),
    )
}

proof fn lemma_flatten_len<T>(m: Seq<Seq<T>>, rows: nat, cols: nat)
    requires
        is_matrix(m, rows, cols),
    ensures
        spec_flatten(m).len() == rows * cols,
    decreases rows,
{
    if rows > 0 {
        lemma_flatten_len(m.drop_last(), (rows - 1) as nat, cols);
        assert(m[rows - 1].len() == cols);
        assert(rows * cols == (rows - 1) * cols + cols) by (nonlinear_arith);
    } else {
        assert(rows * cols == 0) by (nonlinear_arith)
            requires
                rows == 0,
        ;
    }
}

proof fn lemma_flatten_index<T>(m: Seq<Seq<T>>, rows: nat, cols: nat, r: int, c: int)
    requires
        is_matrix(m, rows, cols),
        0 <= r < rows,
        0 <= c < cols,
    ensures
        0 <= r * cols + c < rows * cols,
        spec_flatten(m)[r * cols + c] == m[r][c],
    decreases rows,
{
    lemma_flatten_len(m, rows, cols);
    assert(0 <= r * cols + c < rows * cols) by (nonlinear_arith)
        requires
            0 <= r < rows,
            0 <= c < cols,
    ;
    let front = m.drop_last();
    lemma_flatten_len(front, (rows - 1) as nat, cols);
    if r < rows - 1 {
        lemma_flatten_index(front, (rows - 1) as nat, cols, r, c);
        assert(r * cols + c < (rows - 1) * cols) by (nonlinear_arith)
            requires
                0 <= r < rows - 1,
                0 <= c < cols,
        ;
    } else {
        assert(r * cols == (rows - 1) * cols);
    }
}

/// The entries of a matrix, row after row.
pub fn flatten_rows<T: Copy>(m: &Vec<Vec<T>>) -> (flat: Vec<T>)
    ensures
        flat@ == spec_flatten(rows_view(m@)),
{
    let mut flat: Vec<T> = Vec::new();
    let mut r: usize = 0;
    while r < m.len()
        invariant
            0 <= r <= m@.len(),
            flat@ == spec_flatten(rows_view(m@).subrange(0, r as int)),
        decreases m@.len() - r,
    {
        let row = &m[r];
        let ghost before = flat@;
        let mut c: usize = 0;
        while c < row.len()
            invariant
                0 <= c <= row@.len(),
                flat@ == before + row@.subrange(0, c as int),
            decreases row@.len() - c,
        {
            flat.push(row[c]);
            c = c + 1;
            assert(flat@ =~= before + row@.subrange(0, c as int));
        }
        assert(row@.subrange(0, row@.len() as int) =~= row@);
        assert(rows_view(m@).subrange(0, r + 1).drop_last() =~= rows_view(m@).subrange(
            0,
            r as int,
        ));
        r = r + 1;
    }
    assert(rows_view(m@).subrange(0, m@.len() as int) =~= rows_view(m@));
    flat
}

/// A vector of `len` entries whose entry `i` is `flat[i]` where `flat`
/// reaches that far, and `zero` elsewhere.
pub fn fill_vector<T: Copy>(flat: &Vec<T>, len: usize, zero: T) -> (v: Vec<T>)
    requires
        flat@.len() <= len,
    ensures
        v@ == Seq::new(
            len as nat,
            |i: int|
                if i < flat@.len() {
                    flat@[i]
                } else {
                    zero
                },
        ),
{
    let mut v: Vec<T> = Vec::new();
    let mut i: usize = 0;
    while i < len
        invariant
            0 <= i <= len,
            flat@.len() <= len,
            v@.len() == i,
            forall|k: int|
                0 <= k < i ==> #[trigger] v@[k] == (if k < flat@.len() {
                    flat@[k]
                } else {
                    zero
                }),
        decreases len - i,
    {
        if i < flat.len() {
            v.push(flat[i]);
        } else {
            v.push(zero);
        }
        i = i + 1;
    }
    assert(v@ =~= Seq::new(
        len as nat,
        |i: int|
            if i < flat@.len() {
                flat@[i]
            } else {
                zero
            },
    ));
    v
}

/// The `rows` x `cols` matrix filled row by row from `flat`, with `zero`
/// where `flat` runs out.
pub fn fill_matrix<T: Copy>(flat: &Vec<T>, rows: usize, cols: usize, zero: T) -> (m: Vec<Vec<T>>)
    requires
        flat@.len() <= rows * cols,
        rows * cols <= usize::MAX,
    ensures
        rows_view(m@) == spec_unflatten(flat@, rows as nat, cols as nat, zero),
{
    let mut m: Vec<Vec<T>> = Vec::new();
    let mut r: usize = 0;
    while r < rows
        invariant
            0 <= r <= rows,
            rows * cols <= usize::MAX,
            m@.len() == r,
            forall|k: int|
                0 <= k < r ==> (#[trigger] m@[k])@ == spec_unflatten(
                    flat@,
                    rows as nat,
                    cols as nat,
                    zero,
                )[k],
        decreases rows - r,
    {
        assert(r * cols + cols <= rows * cols) by (nonlinear_arith)
            requires
                r < rows,
        ;
        let start: usize = r * cols;
        let mut row: Vec<T> = Vec::new();
        let mut c: usize = 0;
        while c < cols
            invariant
                0 <= c <= cols,
                start == r * cols,
                start + cols <= usize::MAX,
                row@.len() == c,
                forall|k: int|
                    0 <= k < c ==> #[trigger] row@[k] == (if start + k < flat@.len() {
                        flat@[start + k]
                    } else {
                        zero
                    }),
            decreases cols - c,
        {
            if start + c < flat.len() {
                row.push(flat[start + c]);
            } else {
                row.push(zero);
            }
            c = c + 1;
        }
        assert(row@ =~= spec_unflatten(flat@, rows as nat, cols as nat, zero)[r as int]);
        m.push(row);
        r = r + 1;
    }
    assert(rows_view(m@) =~= spec_unflatten(flat@, rows as nat, cols as nat, zero));
    m
}

/// Restoring a matrix from its flat form gives back the matrix.
pub proof fn lemma_unflatten_flatten<T>(m: Seq<Seq<T>>, rows: nat, cols: nat, zero: T)
    requires
        is_matrix(m, rows, cols),
    ensures
        spec_flatten(m).len() == rows * cols,
        spec_unflatten(spec_flatten(m), rows, cols, zero) == m,
{
    lemma_flatten_len(m, rows, cols);
    let u = spec_unflatten(spec_flatten(m), rows, cols, zero);
    assert forall|r: int| 0 <= r < rows implies #[trigger] u[r] =~= m[r] by {
        assert forall|c: int| 0 <= c < cols implies u[r][c] == m[r][c] by {
            lemma_flatten_index(m, rows, cols, r, c);
        }
    }
    assert(u =~= m);
}

/// The parameters of a dense layer from `inputs` to `outputs` values: a
/// weight per output and input, a bias per output, and the gradients
/// gathered for each of them.
pub struct DenseParams<T> {
    pub weights: Vec<Vec<T>>,
    pub biases: Vec<T>,
    pub weight_grads: Vec<Vec<T>>,
    pub bias_grads: Vec<T>,
}

impl<T> DenseParams<T> {
    /// Whether the parameters are those of a layer from `inputs` to `outputs` values.
    pub open spec fn has_shape(&self, inputs: nat, outputs: nat) -> bool {
        &&& is_matrix(rows_view(self.weights@), outputs, inputs)
        &&& is_matrix(rows_view(self.weight_grads@), outputs, inputs)
        &&& self.biases@.len() == outputs
        &&& self.bias_grads@.len() == outputs
    }
}

impl<T: Copy> DenseParams<T> {
    /// The weights, biases, weight gradients and bias gradients, each flat
    /// and row-major.
    pub fn to_raw_data(&self) -> (raw: (Vec<T>, Vec<T>, Vec<T>, Vec<T>))
        ensures
            raw.0@ == spec_flatten(rows_view(self.weights@)),
            raw.1@ == self.biases@,
            raw.2@ == spec_flatten(rows_view(self.weight_grads@)),
            raw.3@ == self.bias_grads@,
    {
        let biases = copy_vec(&self.biases);
        let bias_grads = copy_vec(&self.bias_grads);
        (flatten_rows(&self.weights), biases, flatten_rows(&self.weight_grads), bias_grads)
    }

    /// The parameters of a layer from `inputs` to `outputs` values, read back
    /// from their flat forms; entries that the flat forms do not reach are
    /// `zero`.
    pub fn from_raw_data(
        raw: (Vec<T>, Vec<T>, Vec<T>, Vec<T>),
        inputs: usize,
        outputs: usize,
        zero: T,
    ) -> (p: DenseParams<T>)
        requires
            outputs * inputs <= usize::MAX,
            raw.0@.len() <= outputs * inputs,
            raw.1@.len() <= outputs,
            raw.2@.len() <= outputs * inputs,
            raw.3@.len() <= outputs,
        ensures
            p.has_shape(inputs as nat, outputs as nat),
            rows_view(p.weights@) == spec_unflatten(raw.0@, outputs as nat, inputs as nat, zero),
            p.biases@ == Seq::new(
                outputs as nat,
                |i: int|
                    if i < raw.1@.len() {
                        raw.1@[i]
                    } else {
                        zero
                    },
            ),
            rows_view(p.weight_grads@) == spec_unflatten(
                raw.2@,
                outputs as nat,
                inputs as nat,
                zero,
            ),
            p.bias_grads@ == Seq::new(
                outputs as nat,
                |i: int|
                    if i < raw.3@.len() {
                        raw.3@[i]
                    } else {
                        zero
                    },
            ),
    {
        let (weights, biases, weight_grads, bias_grads) = raw;
        let p = DenseParams {
            weights: fill_matrix(&weights, outputs, inputs, zero),
            biases: fill_vector(&biases, outputs, zero),
            weight_grads: fill_matrix(&weight_grads, outputs, inputs, zero),
            bias_grads: fill_vector(&bias_grads, outputs, zero),
        };
        proof {
            assert forall|r: int| 0 <= r < outputs implies #[trigger] rows_view(p.weights@)[r].len()
                == inputs by {
                assert(rows_view(p.weights@)[r] == spec_unflatten(
                    weights@,
                    outputs as nat,
                    inputs as nat,
                    zero,
                )[r]);
            }
            assert forall|r: int| 0 <= r < outputs implies #[trigger] rows_view(
                p.weight_grads@,
            )[r].len() == inputs by {
                assert(rows_view(p.weight_grads@)[r] == spec_unflatten(
                    weight_grads@,
                    outputs as nat,
                    inputs as nat,
                    zero,
                )[r]);
            }
        }
        p
    }
}

fn copy_vec<T: Copy>(v: &Vec<T>) -> (r: Vec<T>)
    ensures
        r@ == v@,
{
    let mut r: Vec<T> = Vec::new();
    let mut i: usize = 0;
    while i < v.len()
        invariant
            0 <= i <= v@.len(),
            r@ == v@.subrange(0, i as int),
        decreases v@.len() - i,
    {
        r.push(v[i]);
        i = i + 1;
        assert(r@ =~= v@.subrange(0, i as int));
    }
    assert(v@.subrange(0, v@.len() as int) =~= v@);
    r
}

/// Reading a layer's parameters back from the flat forms they were stored in
/// gives back the same parameters.
pub proof fn lemma_raw_data_roundtrip<T>(p: DenseParams<T>, inputs: nat, outputs: nat, zero: T)
    requires
        p.has_shape(inputs, outputs),
    ensures
        spec_unflatten(spec_flatten(rows_view(p.weights@)), outputs, inputs, zero) == rows_view(
            p.weights@,
        ),
        spec_unflatten(spec_flatten(rows_view(p.weight_grads@)), outputs, inputs, zero)
            == rows_view(p.weight_grads@),
        Seq::new(
            outputs,
            |i: int|
                if i < p.biases@.len() {
                    p.biases@[i]
                } else {
                    zero
                },
        ) == p.biases@,
        Seq::new(
            outputs,
            |i: int|
                if i < p.bias_grads@.len() {
                    p.bias_grads@[i]
                } else {
                    zero
                },
        ) == p.bias_grads@,
{
    lemma_unflatten_flatten(rows_view(p.weights@), outputs, inputs, zero);
    lemma_unflatten_flatten(rows_view(p.weight_grads@), outputs, inputs, zero);
    assert(Seq::new(
        outputs,
        |i: int|
            if i < p.biases@.len() {
                p.biases@[i]
            } else {
                zero
            },
    ) =~= p.biases@);
    assert(Seq::new(
        outputs,
        |i: int|
            if i < p.bias_grads@.len() {
                p.bias_grads@[i]
            } else {
                zero
            },
    ) =~= p.bias_grads@);
}

} // verus!
