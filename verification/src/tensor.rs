//! Bit-packed ternary matrices and their product with a vector.
use crate::arithmetic::{
    adds_consistently, compares_single_valued, law_wrap_is_congruent, lemma_wrap_absorbs,
    lemma_wrap_in_range, wrap, Arithmetic, Integers,
};
use crate::trit::{
    compares_exactly, law_encoding_round_trips, law_thresholding_agrees, quantizes, Trit,
};
use vstd::prelude::*;

verus! {

/// The two bits of the `k`-th weight of a word, counted from the least significant end.
pub open spec fn field(word: u64, k: int) -> u64 {
    (word >> ((2 * k) as u64)) & 0b11
}

/// A bit-packed matrix of ternary weights, in row-major order.
///
/// Each word holds 32 weights of two bits. The weight with the flat index `i` stands in the
/// word `i / 32`, in the two bits from `2 * (i % 32)` up: written from the most significant
/// bit, a word reads `t31 t30 .. t1 t0`.
#[derive(Debug)]
pub struct TernaryTensor {
    pub rows: usize,
    pub cols: usize,
    pub words: Vec<u64>,
}

impl View for TernaryTensor {
    type V = Seq<Trit>;

    /// All the weights that the words hold, 32 to a word, the unused ones at the end included.
    open spec fn view(&self) -> Seq<Trit> {
        Seq::new(
            32 * self.words@.len(),
            |i: int| Trit::decode(field(self.words@[i / 32], i % 32)),
        )
    }
}

impl Clone for TernaryTensor {
    fn clone(&self) -> (r: Self)
        ensures
            r.rows == self.rows,
            r.cols == self.cols,
            r.words@ == self.words@,
            r@ == self@,
    {
        TernaryTensor { rows: self.rows, cols: self.cols, words: self.words.clone() }
    }
}

impl TernaryTensor {
    /// Whether the words hold every weight of the matrix and an index can count them.
    pub open spec fn fits(&self) -> bool {
        &&& self.rows * self.cols <= self@.len()
        &&& self.rows * self.cols <= usize::MAX
    }

    /// Whether the matrix is packed as tightly as words allow: no word is there that holds
    /// none of its weights, what is left over in the last word is zero, and the unused
    /// pattern `0b11` stands nowhere.
    pub open spec fn packed(&self) -> bool {
        &&& self.fits()
        &&& self.words@.len() == (self.rows * self.cols + 31) / 32
        &&& forall|i: int|
            self.rows * self.cols <= i < self@.len() ==> #[trigger] self@[i] == Trit::Zero
        &&& forall|i: int|
            0 <= i < self@.len() ==> field(self.words@[i / 32], i % 32) == (
            #[trigger] self@[i]).code()
    }

    /// The weight in the given row and column.
    pub open spec fn weight(&self, row: int, col: int) -> Trit {
        self@[row * self.cols + col]
    }

    /// One row of the matrix.
    pub open spec fn row(&self, r: int) -> Seq<Trit> {
        Seq::new(self.cols as nat, |c: int| self.weight(r, c))
    }

    /// Packs a row-major matrix into ternary form. `threshold` sets the band around zero that
    /// becomes zero.
    pub fn from_floats<A: Arithmetic>(
        data: &[A::Elem],
        rows: usize,
        cols: usize,
        threshold: A::Elem,
    ) -> (t: TernaryTensor)
        requires
            data@.len() == rows * cols,
        ensures
            t.rows == rows,
            t.cols == cols,
            t.packed(),
            forall|i: int|
                0 <= i < data@.len() ==> quantizes::<A>(data@[i], threshold, #[trigger] t@[i]),
    {
        let n: usize = data.len();
        let n_words: usize = n / 32 + (if n % 32 == 0 {
            0
        } else {
            1
        });
        let mut t = TernaryTensor { rows, cols, words: vec![0u64; n_words] };
        proof {
            assert forall|i: int| 0 <= i < t@.len() implies #[trigger] t@[i] == Trit::Zero && field(
                t.words@[i / 32],
                i % 32,
            ) == 0 by {
                lemma_field_of_zero(i % 32);
            }
        }
        let mut i: usize = 0;
        while i < n
            invariant
                i <= n,
                n == data@.len(),
                n == rows * cols,
                t.rows == rows,
                t.cols == cols,
                t.words@.len() == (n + 31) / 32,
                forall|j: int|
                    0 <= j < i ==> quantizes::<A>(data@[j], threshold, #[trigger] t@[j]),
                forall|j: int| i <= j < t@.len() ==> #[trigger] t@[j] == Trit::Zero,
                forall|j: int|
                    0 <= j < t@.len() ==> field(t.words@[j / 32], j % 32) == (
                    #[trigger] t@[j]).code(),
            decreases n - i,
        {
            let trit = Trit::from_float::<A>(data[i], threshold);
            let word_idx: usize = i / 32;
            let slot: usize = i % 32;
            let ghost before = t;
            let word: u64 = t.words[word_idx];
            let bit_offset: u64 = (slot as u64) * 2;
            let packed: u64 = word | (trit.bits() << bit_offset);
            t.words.set(word_idx, packed);
            proof {
                assert(before@[i as int] == Trit::Zero);
                assert forall|j: int| 0 <= j < t@.len() implies #[trigger] t@[j] == (if j == i {
                    trit
                } else {
                    before@[j]
                }) && field(t.words@[j / 32], j % 32) == t@[j].code() by {
                    if j / 32 == word_idx as int {
                        lemma_set_field(word, trit, slot as u64, (j % 32) as u64);
                    }
                }
            }
            i = i + 1;
        }
        t
    }

    /// The weight in the given row and column: what stands at the flat index
    /// `row * cols + col`.
    pub fn get(&self, row: usize, col: usize) -> (t: Trit)
        requires
            row * self.cols + col <= usize::MAX,
            row * self.cols + col < self@.len(),
        ensures
            t == self.weight(row as int, col as int),
    {
        assert(row * self.cols <= usize::MAX);
        let i: usize = row * self.cols + col;
        let word: u64 = self.words[i / 32];
        let bits: u64 = (word >> (((i % 32) * 2) as u64)) & 0b11;
        Trit::from_bits(bits)
    }

    /// Whether the words hold every weight of the matrix, so that [`TernaryTensor::matvec`] can
    /// run.
    pub fn holds_all_weights(&self) -> (b: bool)
        ensures
            b == self.fits(),
    {
        match self.rows.checked_mul(self.cols) {
            Some(n) => {
                let whole: usize = n / 32;
                if n % 32 == 0 {
                    whole <= self.words.len()
                } else {
                    whole < self.words.len()
                }
            },
            None => false,
        }
    }

    /// The product with a vector, without a multiplication: each output starts at zero and
    /// runs along its row, adding the input where the weight is plus one, subtracting it where
    /// the weight is minus one, and passing over it where the weight is zero.
    pub fn matvec<A: Arithmetic>(&self, x: &[A::Elem]) -> (y: Vec<A::Elem>)
        requires
            self.fits(),
            x@.len() == self.cols,
        ensures
            y@.len() == self.rows,
            forall|r: int|
                0 <= r < self.rows ==> dot_product::<A>(self.row(r), x@, #[trigger] y@[r]),
    {
        let mut out: Vec<A::Elem> = Vec::new();
        let mut r: usize = 0;
        while r < self.rows
            invariant
                self.fits(),
                x@.len() == self.cols,
                r <= self.rows,
                out@.len() == r,
                forall|q: int|
                    0 <= q < r ==> dot_product::<A>(self.row(q), x@, #[trigger] out@[q]),
            decreases self.rows - r,
        {
            let ghost row = self.row(r as int);
            let mut acc: A::Elem = A::zero();
            let ghost mut run = seq![acc];
            let mut c: usize = 0;
            while c < self.cols
                invariant
                    self.fits(),
                    x@.len() == self.cols,
                    r < self.rows,
                    c <= self.cols,
                    row == self.row(r as int),
                    run.len() == c + 1,
                    run[c as int] == acc,
                    call_ensures(A::zero, (), run[0]),
                    forall|k: int|
                        0 <= k < c ==> accumulates::<A>(
                            #[trigger] row[k],
                            x@[k],
                            run[k],
                            run[k + 1],
                        ),
                decreases self.cols - c,
            {
                proof {
                    lemma_flat_index(r as int, c as int, self.rows as int, self.cols as int);
                }
                match self.get(r, c) {
                    Trit::PosOne => {
                        acc = A::plus(acc, x[c]);
                    },
                    Trit::NegOne => {
                        acc = A::minus(acc, x[c]);
                    },
                    Trit::Zero => {},
                }
                proof {
                    assert(accumulates::<A>(row[c as int], x@[c as int], run[c as int], acc));
                    run = run.push(acc);
                }
                c = c + 1;
            }
            assert(accumulator_run::<A>(row, x@, run));
            out.push(acc);
            r = r + 1;
        }
        out
    }

    /// The bytes that the packed weights take.
    pub fn packed_bytes(&self) -> (bytes: usize)
        requires
            8 * self.words@.len() <= usize::MAX,
        ensures
            bytes == 8 * self.words@.len(),
    {
        self.words.len() * 8
    }

    /// The bytes that the same weights would take as 32-bit floats.
    pub fn fp32_bytes(&self) -> (bytes: usize)
        requires
            self.rows * self.cols * 4 <= usize::MAX,
        ensures
            bytes == self.rows * self.cols * 4,
    {
        assert(self.rows * self.cols <= usize::MAX);
        self.rows * self.cols * 4
    }
}

/// That an accumulator goes from `before` to `after` at a weight `w` with the input `x`.
pub open spec fn accumulates<A: Arithmetic>(
    w: Trit,
    x: A::Elem,
    before: A::Elem,
    after: A::Elem,
) -> bool {
    match w {
        Trit::PosOne => call_ensures(A::plus, (before, x), after),
        Trit::NegOne => call_ensures(A::minus, (before, x), after),
        Trit::Zero => after == before,
    }
}

/// That `acc` is the run of an accumulator along a row of weights and a vector of inputs:
/// it starts at zero and takes one step for each weight, from left to right.
pub open spec fn accumulator_run<A: Arithmetic>(
    row: Seq<Trit>,
    x: Seq<A::Elem>,
    acc: Seq<A::Elem>,
) -> bool {
    &&& acc.len() == row.len() + 1
    &&& call_ensures(A::zero, (), acc[0])
    &&& forall|k: int|
        0 <= k < row.len() ==> accumulates::<A>(#[trigger] row[k], x[k], acc[k], acc[k + 1])
}

/// That `y` is where the run of an accumulator along a row and a vector ends.
pub open spec fn dot_product<A: Arithmetic>(row: Seq<Trit>, x: Seq<A::Elem>, y: A::Elem) -> bool {
    exists|acc: Seq<A::Elem>| #[trigger]
        accumulator_run::<A>(row, x, acc) && acc[row.len() as int] == y
}

/// The flat index of an entry of a matrix is below the number of entries.
proof fn lemma_flat_index(r: int, c: int, rows: int, cols: int)
    requires
        0 <= r < rows,
        0 <= c < cols,
    ensures
        0 <= r * cols,
        0 <= r * cols + c < rows * cols,
{
    assert(0 <= r * cols && (r + 1) * cols <= rows * cols && (r + 1) * cols == r * cols + cols)
        by (nonlinear_arith)
        requires
            0 <= r < rows,
            0 <= c < cols,
    ;
}

/// A word of zeros holds zeros.
proof fn lemma_field_of_zero(k: int)
    requires
        0 <= k < 32,
    ensures
        field(0, k) == 0,
{
    let s = (2 * k) as u64;
    assert((0u64 >> s) & 0b11 == 0) by (bit_vector);
}

/// Merging a weight into an empty place of a word sets that place and keeps the others.
proof fn lemma_set_field(word: u64, trit: Trit, k: u64, j: u64)
    requires
        k < 32,
        j < 32,
        field(word, k as int) == 0,
    ensures
        field(word | (trit.code() << ((k * 2) as u64)), j as int) == (if j == k {
            trit.code()
        } else {
            field(word, j as int)
        }),
{
    let c = trit.code();
    let sk = (k * 2) as u64;
    let sj = (j * 2) as u64;
    if j == k {
        assert(((word | (c << sk)) >> sk) & 0b11 == c) by (bit_vector)
            requires
                sk < 64,
                sk % 2 == 0,
                c <= 2,
                (word >> sk) & 0b11 == 0,
        ;
    } else {
        assert(((word | (c << sk)) >> sj) & 0b11 == (word >> sj) & 0b11) by (bit_vector)
            requires
                sk < 64,
                sj < 64,
                sk % 2 == 0,
                sj % 2 == 0,
                sk != sj,
                c <= 2,
        ;
    }
}

/// Register values as integers.
pub open spec fn as_ints(x: Seq<i64>) -> Seq<int> {
    Seq::new(x.len(), |i: int| x[i] as int)
}

/// The sum of the products of weights and inputs, over the integers.
pub open spec fn weighted_sum(row: Seq<Trit>, x: Seq<int>) -> int
    decreases row.len(),
{
    if row.len() == 0 {
        0
    } else {
        weighted_sum(row.drop_last(), x.drop_last()) + row.last().value() * x.last()
    }
}

/// The sum of the inputs whose weight is `w`, over the integers.
pub open spec fn sum_where(row: Seq<Trit>, w: Trit, x: Seq<int>) -> int
    decreases row.len(),
{
    if row.len() == 0 {
        0
    } else {
        sum_where(row.drop_last(), w, x.drop_last()) + if row.last() == w {
            x.last()
        } else {
            0
        }
    }
}

/// The sum of the magnitudes of the inputs, over the integers.
pub open spec fn sum_of_magnitudes(x: Seq<int>) -> int
    decreases x.len(),
{
    if x.len() == 0 {
        0
    } else {
        sum_of_magnitudes(x.drop_last()) + if x.last() < 0 {
            -x.last()
        } else {
            x.last()
        }
    }
}

/// That `A` adds and subtracts the inputs `x` without rounding as long as the accumulator
/// stays within `bound`, where `val` says which number an element is. For a float type this
/// holds up to the largest whole number below which it holds them all.
pub open spec fn adds_exactly<A: Arithmetic>(
    val: spec_fn(A::Elem) -> int,
    x: Seq<A::Elem>,
    bound: int,
) -> bool {
    &&& forall|z: A::Elem| #[trigger] call_ensures(A::zero, (), z) ==> val(z) == 0
    &&& forall|k: int, a: A::Elem, b: A::Elem|
        0 <= k < x.len() && -bound <= val(a) <= bound && -bound <= val(a) + val(x[k]) <= bound
            && #[trigger] call_ensures(A::plus, (a, x[k]), b) ==> val(b) == val(a) + val(x[k])
    &&& forall|k: int, a: A::Elem, b: A::Elem|
        0 <= k < x.len() && -bound <= val(a) <= bound && -bound <= val(a) - val(x[k]) <= bound
            && #[trigger] call_ensures(A::minus, (a, x[k]), b) ==> val(b) == val(a) - val(x[k])
}

/// Packing keeps every weight where it was: what a read at a row and a column gives is what
/// thresholding gives for the entry that stood there.
pub proof fn law_read_gives_back_packed<A: Arithmetic>(
    t: TernaryTensor,
    data: Seq<A::Elem>,
    threshold: A::Elem,
    row: int,
    col: int,
)
    requires
        t.packed(),
        data.len() == t.rows * t.cols,
        forall|i: int| 0 <= i < data.len() ==> quantizes::<A>(data[i], threshold, #[trigger] t@[i]),
        0 <= row < t.rows,
        0 <= col < t.cols,
    ensures
        0 <= row * t.cols + col < data.len(),
        row * t.cols + col < t@.len(),
        quantizes::<A>(data[row * t.cols + col], threshold, t.weight(row, col)),
        t.row(row)[col] == t.weight(row, col),
{
    lemma_flat_index(row, col, t.rows as int, t.cols as int);
}

/// What a read gives of a packed matrix is what [`Trit::from_float`] gives for the entry that
/// stood there, where comparisons have one verdict.
pub proof fn law_read_is_thresholding<A: Arithmetic>(
    t: TernaryTensor,
    data: Seq<A::Elem>,
    threshold: A::Elem,
    row: int,
    col: int,
    thresholded: Trit,
)
    requires
        compares_single_valued::<A>(),
        t.packed(),
        data.len() == t.rows * t.cols,
        forall|i: int| 0 <= i < data.len() ==> quantizes::<A>(data[i], threshold, #[trigger] t@[i]),
        0 <= row < t.rows,
        0 <= col < t.cols,
        call_ensures(Trit::from_float::<A>, (data[row * t.cols + col], threshold), thresholded),
    ensures
        t.weight(row, col) == thresholded,
{
    law_read_gives_back_packed::<A>(t, data, threshold, row, col);
    law_thresholding_agrees::<A>(
        data[row * t.cols + col],
        threshold,
        t.weight(row, col),
        thresholded,
    );
}

/// Packing a matrix of packed weights again changes nothing, at a positive threshold that is
/// not above the element for one.
pub proof fn law_repacking_changes_nothing<A: Arithmetic>(
    val: spec_fn(A::Elem) -> int,
    one: A::Elem,
    threshold: A::Elem,
    t: TernaryTensor,
    data: Seq<A::Elem>,
    again: TernaryTensor,
)
    requires
        t.packed(),
        data.len() == t.rows * t.cols,
        forall|i: int|
            0 <= i < data.len() ==> call_ensures(
                Trit::as_float::<A>,
                (t@[i],),
                #[trigger] data[i],
            ),
        forall|i: int|
            0 <= i < data.len() ==> compares_exactly::<A>(val, #[trigger] data[i], threshold),
        0 < val(threshold) <= val(one),
        forall|p: A::Elem| #[trigger] call_ensures(A::one, (), p) ==> val(p) == val(one),
        forall|n: A::Elem| #[trigger] call_ensures(A::minus_one, (), n) ==> val(n) == -val(one),
        again.rows == t.rows,
        again.cols == t.cols,
        again.packed(),
        forall|i: int|
            0 <= i < data.len() ==> quantizes::<A>(data[i], threshold, #[trigger] again@[i]),
    ensures
        again@ == t@,
        forall|row: int, col: int|
            0 <= row < t.rows && 0 <= col < t.cols ==> #[trigger] again.weight(row, col)
                == t.weight(row, col),
{
    assert forall|i: int| 0 <= i < t@.len() implies again@[i] == t@[i] by {
        if i < data.len() {
            assert(compares_exactly::<A>(val, data[i], threshold));
            law_encoding_round_trips::<A>(val, one, threshold, t@[i], data[i], again@[i]);
        }
    }
    assert(again@ == t@);
}

/// A packed matrix takes a sixteenth of the bytes that 32-bit floats take, but for what the
/// last word leaves unused, which is less than one word.
pub proof fn law_sixteen_times_denser(t: TernaryTensor)
    requires
        t.packed(),
    ensures
        0 <= t@.len() - t.rows * t.cols < 32,
        16 * (8 * t.words@.len()) == 4 * (t.rows * t.cols) + 4 * (t@.len() - t.rows * t.cols),
        (t.rows * t.cols) % 32 == 0 ==> t.rows * t.cols * 4 == 16 * (8 * t.words@.len()),
        8 * t.words@.len() <= usize::MAX,
{
    assert(0 <= t.rows * t.cols) by (nonlinear_arith);
}

/// A weight times a number is the number, nothing, or its negation.
proof fn lemma_value_times(w: Trit, x: int)
    ensures
        w.value() * x == (match w {
            Trit::PosOne => x,
            Trit::Zero => 0,
            Trit::NegOne => -x,
        }),
{
    assert(1 * x == x && 0 * x == 0 && -1 * x == -x) by (nonlinear_arith);
}

/// The product of a row and a vector is what is summed where the weight is plus one less what
/// is summed where it is minus one.
pub proof fn law_multiplication_free(row: Seq<Trit>, x: Seq<int>)
    requires
        row.len() == x.len(),
    ensures
        weighted_sum(row, x) == sum_where(row, Trit::PosOne, x) - sum_where(row, Trit::NegOne, x),
    decreases row.len(),
{
    if row.len() > 0 {
        law_multiplication_free(row.drop_last(), x.drop_last());
        lemma_value_times(row.last(), x.last());
    }
}

/// On integer registers an output of the product with a vector is the weighted sum of the
/// inputs modulo 2^64, and the weighted sum itself where that is in range.
pub proof fn law_integer_dot_product(row: Seq<Trit>, x: Seq<i64>, y: i64)
    requires
        row.len() == x.len(),
        dot_product::<Integers>(row, x, y),
    ensures
        y == wrap(weighted_sum(row, as_ints(x))),
        i64::MIN <= weighted_sum(row, as_ints(x)) <= i64::MAX ==> y == weighted_sum(
            row,
            as_ints(x),
        ),
{
    let acc = choose|acc: Seq<i64>| #[trigger]
        accumulator_run::<Integers>(row, x, acc) && acc[row.len() as int] == y;
    lemma_integer_run(row, x, acc, row.len() as int);
    assert(row.take(row.len() as int) == row);
    assert(as_ints(x).take(row.len() as int) == as_ints(x));
    if i64::MIN <= weighted_sum(row, as_ints(x)) <= i64::MAX {
        lemma_wrap_in_range(weighted_sum(row, as_ints(x)));
    }
}

proof fn lemma_integer_run(row: Seq<Trit>, x: Seq<i64>, acc: Seq<i64>, k: int)
    requires
        row.len() == x.len(),
        accumulator_run::<Integers>(row, x, acc),
        0 <= k <= row.len(),
    ensures
        acc[k] == wrap(weighted_sum(row.take(k), as_ints(x).take(k))),
    decreases k,
{
    let ints = as_ints(x);
    if k > 0 {
        lemma_integer_run(row, x, acc, k - 1);
        assert(row.take(k).drop_last() == row.take(k - 1));
        assert(ints.take(k).drop_last() == ints.take(k - 1));
        let prefix = weighted_sum(row.take(k - 1), ints.take(k - 1));
        lemma_wrap_absorbs(prefix, ints[k - 1]);
        lemma_value_times(row[k - 1], ints[k - 1]);
        assert(accumulates::<Integers>(row[k - 1], x[k - 1], acc[k - 1], acc[k - 1 + 1]));
    }
}

/// Where no addition rounds, an output of the product with a vector is the sum of the inputs
/// whose weight is plus one less the sum of those whose weight is minus one.
pub proof fn law_exact_dot_product<A: Arithmetic>(
    val: spec_fn(A::Elem) -> int,
    row: Seq<Trit>,
    x: Seq<A::Elem>,
    bound: int,
    y: A::Elem,
)
    requires
        row.len() == x.len(),
        dot_product::<A>(row, x, y),
        adds_exactly::<A>(val, x, bound),
        sum_of_magnitudes(x.map_values(val)) <= bound,
    ensures
        val(y) == weighted_sum(row, x.map_values(val)),
        val(y) == sum_where(row, Trit::PosOne, x.map_values(val)) - sum_where(
            row,
            Trit::NegOne,
            x.map_values(val),
        ),
{
    let acc = choose|acc: Seq<A::Elem>| #[trigger]
        accumulator_run::<A>(row, x, acc) && acc[row.len() as int] == y;
    let ints = x.map_values(val);
    lemma_exact_run::<A>(val, row, x, bound, acc, row.len() as int);
    assert(row.take(row.len() as int) == row);
    assert(ints.take(row.len() as int) == ints);
    law_multiplication_free(row, ints);
}

proof fn lemma_exact_run<A: Arithmetic>(
    val: spec_fn(A::Elem) -> int,
    row: Seq<Trit>,
    x: Seq<A::Elem>,
    bound: int,
    acc: Seq<A::Elem>,
    k: int,
)
    requires
        row.len() == x.len(),
        accumulator_run::<A>(row, x, acc),
        adds_exactly::<A>(val, x, bound),
        sum_of_magnitudes(x.map_values(val)) <= bound,
        0 <= k <= row.len(),
    ensures
        val(acc[k]) == weighted_sum(row.take(k), x.map_values(val).take(k)),
        -sum_of_magnitudes(x.map_values(val).take(k)) <= val(acc[k]) <= sum_of_magnitudes(
            x.map_values(val).take(k),
        ),
    decreases k,
{
    let ints = x.map_values(val);
    if k > 0 {
        lemma_exact_run::<A>(val, row, x, bound, acc, k - 1);
        assert(row.take(k).drop_last() == row.take(k - 1));
        assert(ints.take(k).drop_last() == ints.take(k - 1));
        lemma_magnitudes_of_prefix(ints, k);
        lemma_magnitudes_of_prefix(ints, k - 1);
        lemma_value_times(row[k - 1], ints[k - 1]);
        assert(accumulates::<A>(row[k - 1], x[k - 1], acc[k - 1], acc[k - 1 + 1]));
    }
}

proof fn lemma_magnitudes_of_prefix(x: Seq<int>, k: int)
    requires
        0 <= k <= x.len(),
    ensures
        0 <= sum_of_magnitudes(x.take(k)) <= sum_of_magnitudes(x),
    decreases x.len(),
{
    if k == x.len() {
        assert(x.take(k) == x);
        if k > 0 {
            lemma_magnitudes_of_prefix(x.drop_last(), k - 1);
            assert(x.drop_last().take(k - 1) == x.drop_last());
        }
    } else {
        lemma_magnitudes_of_prefix(x.drop_last(), k);
        assert(x.drop_last().take(k) == x.take(k));
    }
}

/// Where all inputs but one are zero, the weighted sum is that one input times its weight.
pub proof fn law_unit_vector_selects(row: Seq<Trit>, x: Seq<int>, j: int)
    requires
        row.len() == x.len(),
        0 <= j < row.len(),
        forall|k: int| 0 <= k < x.len() && k != j ==> #[trigger] x[k] == 0,
    ensures
        weighted_sum(row, x) == row[j].value() * x[j],
        sum_of_magnitudes(x) == (if x[j] < 0 {
            -x[j]
        } else {
            x[j]
        }),
    decreases row.len(),
{
    let shorter = row.drop_last();
    let rest = x.drop_last();
    if j == row.len() - 1 {
        lemma_zero_inputs(shorter, rest);
    } else {
        law_unit_vector_selects(shorter, rest, j);
        assert(x[x.len() - 1] == 0);
        lemma_value_times(row.last(), 0);
    }
}

proof fn lemma_zero_inputs(row: Seq<Trit>, x: Seq<int>)
    requires
        row.len() == x.len(),
        forall|k: int| 0 <= k < x.len() ==> #[trigger] x[k] == 0,
    ensures
        weighted_sum(row, x) == 0,
        sum_of_magnitudes(x) == 0,
    decreases row.len(),
{
    if row.len() > 0 {
        lemma_zero_inputs(row.drop_last(), x.drop_last());
        assert(x[x.len() - 1] == 0);
        lemma_value_times(row.last(), 0);
    }
}

/// A unit vector reads out a column: where the input is one in a column and zero in every
/// other, each output is the weight of its row in that column.
pub proof fn law_unit_vector_reads_column<A: Arithmetic>(
    val: spec_fn(A::Elem) -> int,
    t: TernaryTensor,
    x: Seq<A::Elem>,
    r: int,
    j: int,
    y: A::Elem,
    e: A::Elem,
)
    requires
        x.len() == t.cols,
        0 <= j < t.cols,
        0 < val(x[j]),
        forall|k: int| 0 <= k < x.len() && k != j ==> val(#[trigger] x[k]) == 0,
        adds_exactly::<A>(val, x, val(x[j])),
        dot_product::<A>(t.row(r), x, y),
        call_ensures(Trit::as_float::<A>, (t.weight(r, j),), e),
        forall|p: A::Elem| #[trigger] call_ensures(A::one, (), p) ==> val(p) == val(x[j]),
        forall|n: A::Elem| #[trigger] call_ensures(A::minus_one, (), n) ==> val(n) == -val(x[j]),
    ensures
        val(y) == t.weight(r, j).value() * val(x[j]),
        val(y) == val(e),
{
    let row = t.row(r);
    let ints = x.map_values(val);
    assert forall|k: int| 0 <= k < ints.len() && k != j implies #[trigger] ints[k] == 0 by {
        assert(val(x[k]) == 0);
    }
    law_unit_vector_selects(row, ints, j);
    law_exact_dot_product::<A>(val, row, x, val(x[j]), y);
    assert(row[j] == t.weight(r, j));
    lemma_value_times(t.weight(r, j), val(x[j]));
}

/// On integer registers a unit vector reads out a column exactly.
pub proof fn law_integer_unit_vector_reads_column(
    t: TernaryTensor,
    x: Seq<i64>,
    r: int,
    j: int,
    y: i64,
)
    requires
        x.len() == t.cols,
        0 <= j < t.cols,
        x[j] == 1,
        forall|k: int| 0 <= k < x.len() && k != j ==> #[trigger] x[k] == 0,
        dot_product::<Integers>(t.row(r), x, y),
    ensures
        y == t.weight(r, j).value(),
{
    law_unit_vector_selects(t.row(r), as_ints(x), j);
    law_integer_dot_product(t.row(r), x, y);
    assert(t.row(r)[j] == t.weight(r, j));
}

/// An input whose weight is zero has no part in the product: any other value in its place
/// gives the same output.
pub proof fn law_zero_weight_skips_input<A: Arithmetic>(
    row: Seq<Trit>,
    x: Seq<A::Elem>,
    other: Seq<A::Elem>,
    y: A::Elem,
)
    requires
        row.len() == x.len(),
        row.len() == other.len(),
        forall|c: int| 0 <= c < row.len() && #[trigger] row[c] != Trit::Zero ==> x[c] == other[c],
    ensures
        dot_product::<A>(row, x, y) == dot_product::<A>(row, other, y),
{
    if dot_product::<A>(row, x, y) {
        let acc = choose|acc: Seq<A::Elem>| #[trigger]
            accumulator_run::<A>(row, x, acc) && acc[row.len() as int] == y;
        assert(accumulator_run::<A>(row, other, acc));
    }
    if dot_product::<A>(row, other, y) {
        let acc = choose|acc: Seq<A::Elem>| #[trigger]
            accumulator_run::<A>(row, other, acc) && acc[row.len() as int] == y;
        assert(accumulator_run::<A>(row, x, acc));
    }
}

/// Inputs under a zero weight do not change the output: two vectors that are the same wherever
/// the weight is not zero give the same output, where additions are consistent.
pub proof fn law_zero_weight_keeps_output<A: Arithmetic>(
    same: spec_fn(A::Elem, A::Elem) -> bool,
    row: Seq<Trit>,
    x: Seq<A::Elem>,
    other: Seq<A::Elem>,
    y: A::Elem,
    z: A::Elem,
)
    requires
        adds_consistently::<A>(same),
        row.len() == x.len(),
        row.len() == other.len(),
        forall|c: int|
            0 <= c < row.len() && #[trigger] row[c] != Trit::Zero ==> same(x[c], other[c]),
        dot_product::<A>(row, x, y),
        dot_product::<A>(row, other, z),
    ensures
        same(y, z),
{
    let a = choose|acc: Seq<A::Elem>| #[trigger]
        accumulator_run::<A>(row, x, acc) && acc[row.len() as int] == y;
    let b = choose|acc: Seq<A::Elem>| #[trigger]
        accumulator_run::<A>(row, other, acc) && acc[row.len() as int] == z;
    lemma_runs_agree::<A>(same, row, x, other, a, b, row.len() as int);
}

proof fn lemma_runs_agree<A: Arithmetic>(
    same: spec_fn(A::Elem, A::Elem) -> bool,
    row: Seq<Trit>,
    x: Seq<A::Elem>,
    other: Seq<A::Elem>,
    a: Seq<A::Elem>,
    b: Seq<A::Elem>,
    k: int,
)
    requires
        adds_consistently::<A>(same),
        row.len() == x.len(),
        row.len() == other.len(),
        forall|c: int|
            0 <= c < row.len() && #[trigger] row[c] != Trit::Zero ==> same(x[c], other[c]),
        accumulator_run::<A>(row, x, a),
        accumulator_run::<A>(row, other, b),
        0 <= k <= row.len(),
    ensures
        same(a[k], b[k]),
    decreases k,
{
    if k > 0 {
        lemma_runs_agree::<A>(same, row, x, other, a, b, k - 1);
        assert(accumulates::<A>(row[k - 1], x[k - 1], a[k - 1], a[k - 1 + 1]));
        assert(accumulates::<A>(row[k - 1], other[k - 1], b[k - 1], b[k - 1 + 1]));
    }
}

/// Two runs along one row and one vector end in the same output, where additions are
/// consistent.
pub proof fn law_dot_product_agrees<A: Arithmetic>(
    same: spec_fn(A::Elem, A::Elem) -> bool,
    row: Seq<Trit>,
    x: Seq<A::Elem>,
    y: A::Elem,
    z: A::Elem,
)
    requires
        adds_consistently::<A>(same),
        row.len() == x.len(),
        dot_product::<A>(row, x, y),
        dot_product::<A>(row, x, z),
    ensures
        same(y, z),
{
    law_zero_weight_keeps_output::<A>(same, row, x, x, y, z);
}

/// The weights of a tensor are what its words spell: two bits for each, 32 to a word, from the
/// least significant end.
pub proof fn law_words_spell_weights(t: TernaryTensor, i: int)
    requires
        0 <= i < 32 * t.words@.len(),
    ensures
        t@.len() == 32 * t.words@.len(),
        ({
            let bits = (t.words@[i / 32] >> ((2 * (i % 32)) as u64)) & 0b11;
            &&& t@[i] == Trit::PosOne <==> bits == 0b01
            &&& t@[i] == Trit::NegOne <==> bits == 0b10
        }),
{
}

/// The words of a packed matrix are no more than it needs, hold the code of every weight, and
/// are zero past the last one.
pub proof fn law_packed_words(t: TernaryTensor, i: int)
    requires
        t.packed(),
        0 <= i < 32 * t.words@.len(),
    ensures
        t.rows * t.cols <= 32 * t.words@.len() < t.rows * t.cols + 32,
        ({
            let bits = (t.words@[i / 32] >> ((2 * (i % 32)) as u64)) & 0b11;
            &&& bits == t@[i].code()
            &&& i >= t.rows * t.cols ==> bits == 0
        }),
{
}

/// A matrix fits its words exactly where they have room for its entries, 32 to a word, and the
/// entries can be counted.
pub proof fn law_fitting_is_room(t: TernaryTensor)
    ensures
        t.fits() <==> t.rows * t.cols <= 32 * t.words@.len() && t.rows * t.cols <= usize::MAX,
{
}

/// A read gives the weight that two bits of a word spell, and an entry of a row is what a read
/// at its place gives.
pub proof fn law_read_gives_bits(t: TernaryTensor, row: usize, col: usize, g: Trit)
    requires
        row * t.cols + col < 32 * t.words@.len(),
        call_ensures(TernaryTensor::get, (&t, row, col), g),
    ensures
        ({
            let i = row * t.cols + col;
            let bits = (t.words@[i / 32] >> ((2 * (i % 32)) as u64)) & 0b11;
            &&& g == Trit::PosOne <==> bits == 0b01
            &&& g == Trit::NegOne <==> bits == 0b10
        }),
        t.row(row as int).len() == t.cols,
        col < t.cols ==> t.row(row as int)[col as int] == g,
{
    assert(0 <= row * t.cols) by (nonlinear_arith);
}

/// Packing and then reading is thresholding: what [`TernaryTensor::get`] gives of what
/// [`TernaryTensor::from_floats`] made is what [`Trit::from_float`] gives for the entry in the
/// same row and column, in a matrix of the same shape.
pub proof fn law_pack_then_read<A: Arithmetic>(
    data: &[A::Elem],
    rows: usize,
    cols: usize,
    threshold: A::Elem,
    t: TernaryTensor,
    row: usize,
    col: usize,
    read: Trit,
    thresholded: Trit,
)
    requires
        compares_single_valued::<A>(),
        data@.len() == rows * cols,
        call_ensures(TernaryTensor::from_floats::<A>, (data, rows, cols, threshold), t),
        row < rows,
        col < cols,
        call_ensures(TernaryTensor::get, (&t, row, col), read),
        call_ensures(
            Trit::from_float::<A>,
            (data@[row * cols + col], threshold),
            thresholded,
        ),
    ensures
        t.rows == rows,
        t.cols == cols,
        read == thresholded,
{
    law_read_is_thresholding::<A>(t, data@, threshold, row as int, col as int, thresholded);
}

/// A packed matrix takes eight bytes for every 32 weights, rounded up.
pub proof fn law_packed_bytes<A: Arithmetic>(
    data: &[A::Elem],
    rows: usize,
    cols: usize,
    threshold: A::Elem,
    t: TernaryTensor,
    bytes: usize,
)
    requires
        data@.len() == rows * cols,
        call_ensures(TernaryTensor::from_floats::<A>, (data, rows, cols, threshold), t),
        call_ensures(TernaryTensor::packed_bytes, (&t,), bytes),
    ensures
        bytes % 8 == 0,
        rows * cols <= 4 * bytes < rows * cols + 32,
{
}

/// The product with a vector has one output for each row, each the end of a run of its own row.
pub proof fn law_one_output_per_row<A: Arithmetic>(
    t: TernaryTensor,
    x: &[A::Elem],
    y: Vec<A::Elem>,
)
    requires
        t.fits(),
        x@.len() == t.cols,
        call_ensures(TernaryTensor::matvec::<A>, (&t, x), y),
    ensures
        y@.len() == t.rows,
        forall|r: int|
            0 <= r < t.rows ==> dot_product::<A>(
                Seq::new(t.cols as nat, |c: int| t@[r * t.cols + c]),
                x@,
                #[trigger] y@[r],
            ),
{
    assert forall|r: int| 0 <= r < t.rows implies dot_product::<A>(
        Seq::new(t.cols as nat, |c: int| t@[r * t.cols + c]),
        x@,
        #[trigger] y@[r],
    ) by {
        assert(t.row(r) =~= Seq::new(t.cols as nat, |c: int| t@[r * t.cols + c]));
    }
}

/// The run along nothing ends where it starts, at zero.
pub proof fn law_dot_product_of_nothing<A: Arithmetic>(y: A::Elem)
    ensures
        dot_product::<A>(Seq::empty(), Seq::empty(), y) <==> call_ensures(A::zero, (), y),
{
    let row = Seq::<Trit>::empty();
    let x = Seq::<A::Elem>::empty();
    if call_ensures(A::zero, (), y) {
        assert(accumulator_run::<A>(row, x, seq![y]));
    }
}

/// One more weight and input take the output of the shorter run one operation further: an
/// addition, a subtraction or none.
pub proof fn law_dot_product_extends<A: Arithmetic>(
    row: Seq<Trit>,
    x: Seq<A::Elem>,
    w: Trit,
    e: A::Elem,
    y: A::Elem,
)
    requires
        row.len() == x.len(),
    ensures
        dot_product::<A>(row.push(w), x.push(e), y) <==> exists|before: A::Elem| #[trigger]
            dot_product::<A>(row, x, before) && match w {
                Trit::PosOne => call_ensures(A::plus, (before, e), y),
                Trit::NegOne => call_ensures(A::minus, (before, e), y),
                Trit::Zero => y == before,
            },
{
    let n = row.len() as int;
    let longer = row.push(w);
    let inputs = x.push(e);
    if dot_product::<A>(longer, inputs, y) {
        let acc = choose|acc: Seq<A::Elem>| #[trigger]
            accumulator_run::<A>(longer, inputs, acc) && acc[n + 1] == y;
        let shorter = acc.take(n + 1);
        assert forall|k: int| 0 <= k < row.len() implies accumulates::<A>(
            #[trigger] row[k],
            x[k],
            shorter[k],
            shorter[k + 1],
        ) by {
            assert(longer[k] == row[k]);
        }
        assert(accumulator_run::<A>(row, x, shorter));
        assert(dot_product::<A>(row, x, acc[n]));
        assert(accumulates::<A>(longer[n], inputs[n], acc[n], acc[n + 1]));
    }
    if exists|before: A::Elem| #[trigger]
        dot_product::<A>(row, x, before) && accumulates::<A>(w, e, before, y) {
        let before = choose|before: A::Elem| #[trigger]
            dot_product::<A>(row, x, before) && accumulates::<A>(w, e, before, y);
        let acc = choose|acc: Seq<A::Elem>| #[trigger]
            accumulator_run::<A>(row, x, acc) && acc[n] == before;
        let further = acc.push(y);
        assert forall|k: int| 0 <= k < longer.len() implies accumulates::<A>(
            #[trigger] longer[k],
            inputs[k],
            further[k],
            further[k + 1],
        ) by {
            if k < n {
                assert(longer[k] == row[k]);
            }
        }
        assert(accumulator_run::<A>(longer, inputs, further));
    }
}

/// The weighted sum, the sums of the inputs under one weight, and the sum of magnitudes are
/// what a fold from the left over their terms gives.
pub proof fn law_sums_are_folds(row: Seq<Trit>, w: Trit, x: Seq<int>)
    requires
        row.len() == x.len(),
    ensures
        weighted_sum(row, x) == Seq::new(
            row.len(),
            |c: int|
                match row[c] {
                    Trit::PosOne => x[c],
                    Trit::Zero => 0,
                    Trit::NegOne => -x[c],
                },
        ).fold_left(0, |a: int, b: int| a + b),
        sum_where(row, w, x) == Seq::new(
            row.len(),
            |c: int|
                if row[c] == w {
                    x[c]
                } else {
                    0
                },
        ).fold_left(0, |a: int, b: int| a + b),
        sum_of_magnitudes(x) == Seq::new(
            x.len(),
            |c: int|
                if x[c] < 0 {
                    -x[c]
                } else {
                    x[c]
                },
        ).fold_left(0, |a: int, b: int| a + b),
    decreases row.len(),
{
    let f = |a: int, b: int| a + b;
    let terms = Seq::new(
        row.len(),
        |c: int|
            match row[c] {
                Trit::PosOne => x[c],
                Trit::Zero => 0,
                Trit::NegOne => -x[c],
            },
    );
    let picked = Seq::new(
        row.len(),
        |c: int|
            if row[c] == w {
                x[c]
            } else {
                0
            },
    );
    let sizes = Seq::new(
        x.len(),
        |c: int|
            if x[c] < 0 {
                -x[c]
            } else {
                x[c]
            },
    );
    if row.len() > 0 {
        let shorter = row.drop_last();
        let rest = x.drop_last();
        law_sums_are_folds(shorter, w, rest);
        lemma_value_times(row.last(), x.last());
        assert(terms.drop_last() =~= Seq::new(
            shorter.len(),
            |c: int|
                match shorter[c] {
                    Trit::PosOne => rest[c],
                    Trit::Zero => 0,
                    Trit::NegOne => -rest[c],
                },
        ));
        assert(picked.drop_last() =~= Seq::new(
            shorter.len(),
            |c: int|
                if shorter[c] == w {
                    rest[c]
                } else {
                    0
                },
        ));
        assert(sizes.drop_last() =~= Seq::new(
            rest.len(),
            |c: int|
                if rest[c] < 0 {
                    -rest[c]
                } else {
                    rest[c]
                },
        ));
    }
}

/// On integer registers the product with a vector is, for each row, what is added where the
/// words spell plus one and subtracted where they spell minus one, modulo 2^64.
pub proof fn law_integer_matvec(t: TernaryTensor, x: &[i64], y: Vec<i64>, r: int)
    requires
        t.fits(),
        x@.len() == t.cols,
        call_ensures(TernaryTensor::matvec::<Integers>, (&t, x), y),
        0 <= r < t.rows,
    ensures
        y@.len() == t.rows,
        (y@[r] - Seq::new(
            t.cols as nat,
            |c: int|
                match t@[r * t.cols + c] {
                    Trit::PosOne => x@[c] as int,
                    Trit::Zero => 0,
                    Trit::NegOne => -x@[c],
                },
        ).fold_left(0, |a: int, b: int| a + b)) % 0x1_0000_0000_0000_0000 == 0,
{
    let row = t.row(r);
    let ints = as_ints(x@);
    law_integer_dot_product(row, x@, y@[r]);
    law_sums_are_folds(row, Trit::Zero, ints);
    law_wrap_is_congruent(weighted_sum(row, ints));
    assert(Seq::new(
        t.cols as nat,
        |c: int|
            match t@[r * t.cols + c] {
                Trit::PosOne => x@[c] as int,
                Trit::Zero => 0,
                Trit::NegOne => -x@[c],
            },
    ) =~= Seq::new(
        row.len(),
        |c: int|
            match row[c] {
                Trit::PosOne => ints[c],
                Trit::Zero => 0,
                Trit::NegOne => -ints[c],
            },
    ));
}

/// Integers add and subtract exactly as long as the accumulator stays in the range of `i64`.
pub proof fn law_integers_add_exactly(x: Seq<i64>, bound: int)
    requires
        bound <= i64::MAX,
    ensures
        adds_exactly::<Integers>(|e: i64| e as int, x, bound),
{
}

} // verus!
