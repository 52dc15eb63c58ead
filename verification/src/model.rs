//! Models, and what they make of frames.
use crate::arithmetic::{
    adds_consistently, law_wrap_is_congruent, lemma_wrap_absorbs, multiplies_consistently, wrap,
    Arithmetic, Integers,
};
use crate::tensor::{
    as_ints, dot_product, law_dot_product_agrees, law_integer_dot_product, law_sums_are_folds,
    weighted_sum, TernaryTensor,
};
use crate::trit::Trit;
use crate::version::ModelVersion;
use vstd::prelude::*;

verus! {

/// A deployed model: ternary weights and a version.
#[derive(Debug)]
pub struct TernaryModel<A: Arithmetic> {
    pub version: ModelVersion,
    pub weights: TernaryTensor,
    /// The factor applied to each output, which recovers the magnitude of activations.
    pub scale: A::Elem,
}

/// One processed frame: the input, the output, and the version that produced it.
#[derive(Debug)]
pub struct InferenceResult<A: Arithmetic> {
    pub input: Vec<A::Elem>,
    pub output: Vec<A::Elem>,
    pub model_version: ModelVersion,
}

/// That `y` is the product of a row and a vector, multiplied once by a factor.
pub open spec fn scaled_product<A: Arithmetic>(
    row: Seq<Trit>,
    x: Seq<A::Elem>,
    scale: A::Elem,
    y: A::Elem,
) -> bool {
    exists|raw: A::Elem| #[trigger]
        dot_product::<A>(row, x, raw) && call_ensures(A::times, (raw, scale), y)
}

/// That results are what one model makes of a batch of frames: one result for each frame, in
/// order, with a copy of the frame, what the model infers from it, and the model's version.
pub open spec fn batch_of<A: Arithmetic>(
    model: TernaryModel<A>,
    frames: Seq<Vec<A::Elem>>,
    results: Seq<InferenceResult<A>>,
) -> bool {
    &&& results.len() == frames.len()
    &&& forall|i: int|
        0 <= i < frames.len() ==> {
            &&& (#[trigger] results[i]).input@ == frames[i]@
            &&& model.infers(frames[i]@, results[i].output@)
            &&& results[i].model_version == model.version
        }
}

impl<A: Arithmetic> Clone for TernaryModel<A> {
    fn clone(&self) -> (r: Self)
        ensures
            r.version == self.version,
            r.weights.rows == self.weights.rows,
            r.weights.cols == self.weights.cols,
            r.weights.words@ == self.weights.words@,
            r.weights@ == self.weights@,
            r.scale == self.scale,
    {
        TernaryModel { version: self.version, weights: self.weights.clone(), scale: self.scale }
    }
}

impl<A: Arithmetic> TernaryModel<A> {
    /// Whether the model can take a frame: the frame has one element for each column of the
    /// weights.
    pub open spec fn accepts(&self, frame: Seq<A::Elem>) -> bool {
        &&& self.weights.fits()
        &&& frame.len() == self.weights.cols
    }

    /// That `y` is what the model infers from the frame `x`: one output for each row, the
    /// product of the row and the frame, multiplied once by the scale.
    pub open spec fn infers(&self, x: Seq<A::Elem>, y: Seq<A::Elem>) -> bool {
        &&& y.len() == self.weights.rows
        &&& forall|r: int|
            0 <= r < y.len() ==> scaled_product::<A>(
                self.weights.row(r),
                x,
                self.scale,
                #[trigger] y[r],
            )
    }

    /// A model of the given version.
    pub fn new(version: u64, weights: TernaryTensor, scale: A::Elem) -> (m: Self)
        ensures
            m.version == ModelVersion(version),
            m.weights == weights,
            m.scale == scale,
    {
        TernaryModel { version: ModelVersion(version), weights, scale }
    }

    /// Whether the model can run on a frame.
    pub fn can_run(&self, frame: &[A::Elem]) -> (b: bool)
        ensures
            b == self.accepts(frame@),
    {
        self.weights.holds_all_weights() && frame.len() == self.weights.cols
    }

    /// Runs the model on one frame.
    pub fn infer(&self, x: &[A::Elem]) -> (y: Vec<A::Elem>)
        requires
            self.accepts(x@),
        ensures
            self.infers(x@, y@),
    {
        let raw: Vec<A::Elem> = self.weights.matvec::<A>(x);
        let mut out: Vec<A::Elem> = Vec::new();
        let mut r: usize = 0;
        while r < raw.len()
            invariant
                r <= raw@.len(),
                out@.len() == r,
                raw@.len() == self.weights.rows,
                forall|q: int|
                    0 <= q < raw@.len() ==> dot_product::<A>(
                        self.weights.row(q),
                        x@,
                        #[trigger] raw@[q],
                    ),
                forall|q: int|
                    0 <= q < r ==> scaled_product::<A>(
                        self.weights.row(q),
                        x@,
                        self.scale,
                        #[trigger] out@[q],
                    ),
            decreases raw@.len() - r,
        {
            let y: A::Elem = A::times(raw[r], self.scale);
            assert(dot_product::<A>(self.weights.row(r as int), x@, raw@[r as int]));
            out.push(y);
            r = r + 1;
        }
        out
    }

    /// Runs the model on each frame of a batch.
    pub fn infer_batch(&self, frames: &[Vec<A::Elem>]) -> (results: Vec<InferenceResult<A>>)
        requires
            forall|i: int| 0 <= i < frames@.len() ==> self.accepts((#[trigger] frames@[i])@),
        ensures
            batch_of(*self, frames@, results@),
    {
        let mut results: Vec<InferenceResult<A>> = Vec::new();
        let mut i: usize = 0;
        while i < frames.len()
            invariant
                i <= frames@.len(),
                results@.len() == i,
                forall|j: int| 0 <= j < frames@.len() ==> self.accepts((#[trigger] frames@[j])@),
                forall|j: int|
                    0 <= j < i ==> {
                        &&& (#[trigger] results@[j]).input@ == frames@[j]@
                        &&& self.infers(frames@[j]@, results@[j].output@)
                        &&& results@[j].model_version == self.version
                    },
            decreases frames@.len() - i,
        {
            let frame: &Vec<A::Elem> = &frames[i];
            let result = InferenceResult {
                input: copied(frame.as_slice()),
                output: self.infer(frame.as_slice()),
                model_version: self.version,
            };
            results.push(result);
            i = i + 1;
        }
        results
    }
}

/// A vector with the same elements.
fn copied<T: Copy>(elems: &[T]) -> (r: Vec<T>)
    ensures
        r@ == elems@,
{
    let mut r: Vec<T> = Vec::new();
    let mut i: usize = 0;
    while i < elems.len()
        invariant
            i <= elems@.len(),
            r@ == elems@.take(i as int),
        decreases elems@.len() - i,
    {
        r.push(elems[i]);
        i = i + 1;
        assert(r@ == elems@.take(i as int));
    }
    assert(elems@.take(elems@.len() as int) == elems@);
    r
}

/// On integer registers each inferred output is the scaled weighted sum of the frame modulo
/// 2^64.
pub proof fn law_integer_inference(
    model: TernaryModel<Integers>,
    frame: Seq<i64>,
    output: Seq<i64>,
    r: int,
)
    requires
        model.accepts(frame),
        model.infers(frame, output),
        0 <= r < output.len(),
    ensures
        output[r] == wrap(weighted_sum(model.weights.row(r), as_ints(frame)) * model.scale),
{
    let row = model.weights.row(r);
    assert(scaled_product::<Integers>(row, frame, model.scale, output[r]));
    let raw = choose|raw: i64| #[trigger]
        dot_product::<Integers>(row, frame, raw) && call_ensures(
            <Integers as Arithmetic>::times,
            (raw, model.scale),
            output[r],
        );
    law_integer_dot_product(row, frame, raw);
    lemma_wrap_absorbs(weighted_sum(row, as_ints(frame)), model.scale as int);
}

/// Inference is the product with a vector times the scale, where the operations are
/// consistent: whatever [`TernaryTensor::matvec`] gives for the frame, an output is the same as
/// its product with the scale. A scale that multiplies nothing away leaves the product itself.
pub proof fn law_inference_is_scaled_product<A: Arithmetic>(
    same: spec_fn(A::Elem, A::Elem) -> bool,
    model: TernaryModel<A>,
    frame: Seq<A::Elem>,
    output: Seq<A::Elem>,
    r: int,
    raw: A::Elem,
)
    requires
        adds_consistently::<A>(same),
        multiplies_consistently::<A>(same),
        model.accepts(frame),
        model.infers(frame, output),
        0 <= r < output.len(),
        dot_product::<A>(model.weights.row(r), frame, raw),
    ensures
        forall|z: A::Elem| #[trigger]
            call_ensures(A::times, (raw, model.scale), z) ==> same(output[r], z),
        (forall|a: A::Elem, b: A::Elem| #[trigger]
            call_ensures(A::times, (a, model.scale), b) ==> same(b, a)) ==> same(output[r], raw),
{
    let row = model.weights.row(r);
    assert(scaled_product::<A>(row, frame, model.scale, output[r]));
    let first = choose|first: A::Elem| #[trigger]
        dot_product::<A>(row, frame, first) && call_ensures(
            A::times,
            (first, model.scale),
            output[r],
        );
    law_dot_product_agrees::<A>(same, row, frame, first, raw);
    assert(same(model.scale, model.scale));
}

/// One model makes the same of the same frames whenever it is run, where the operations are
/// consistent.
pub proof fn law_batches_agree<A: Arithmetic>(
    same: spec_fn(A::Elem, A::Elem) -> bool,
    model: TernaryModel<A>,
    frames: Seq<Vec<A::Elem>>,
    one: Seq<InferenceResult<A>>,
    other: Seq<InferenceResult<A>>,
    i: int,
    r: int,
)
    requires
        adds_consistently::<A>(same),
        multiplies_consistently::<A>(same),
        batch_of(model, frames, one),
        batch_of(model, frames, other),
        0 <= i < frames.len(),
        model.accepts(frames[i]@),
        0 <= r < model.weights.rows,
    ensures
        one[i].input@ == other[i].input@,
        one[i].model_version == other[i].model_version,
        one[i].output@.len() == other[i].output@.len(),
        same(one[i].output@[r], other[i].output@[r]),
{
    let row = model.weights.row(r);
    let y = other[i].output@;
    assert(other[i].input@ == frames[i]@);
    assert(one[i].input@ == frames[i]@);
    assert(scaled_product::<A>(row, frames[i]@, model.scale, y[r]));
    let raw = choose|raw: A::Elem| #[trigger]
        dot_product::<A>(row, frames[i]@, raw) && call_ensures(A::times, (raw, model.scale), y[r]);
    law_inference_is_scaled_product::<A>(same, model, frames[i]@, one[i].output@, r, raw);
}

/// A model can take a frame exactly where the frame has one element for each column and the
/// words have room for every weight.
pub proof fn law_acceptance_is_width<A: Arithmetic>(model: TernaryModel<A>, frame: Seq<A::Elem>)
    ensures
        model.accepts(frame) <==> {
            &&& frame.len() == model.weights.cols
            &&& model.weights.rows * model.weights.cols <= 32 * model.weights.words@.len()
            &&& model.weights.rows * model.weights.cols <= usize::MAX
        },
{
}

/// An inferred output has as many elements as the weights have rows, and each of them is one
/// multiplication by the scale away from a run of its own row along the frame.
pub proof fn law_one_scaled_output_per_row<A: Arithmetic>(
    model: TernaryModel<A>,
    x: Seq<A::Elem>,
    y: Seq<A::Elem>,
    r: int,
    row: Seq<Trit>,
)
    requires
        model.infers(x, y),
        0 <= r < model.weights.rows,
        row.len() == model.weights.cols,
        forall|c: int|
            0 <= c < row.len() ==> #[trigger] row[c] == model.weights@[r * model.weights.cols + c],
    ensures
        y.len() == model.weights.rows,
        exists|raw: A::Elem| #[trigger]
            dot_product::<A>(row, x, raw) && call_ensures(A::times, (raw, model.scale), y[r]),
{
    assert(model.weights.row(r) =~= row);
    assert(scaled_product::<A>(row, x, model.scale, y[r]));
}

/// An inferred output has as many elements as the weights have rows, also where there is none.
pub proof fn law_output_length<A: Arithmetic>(
    model: TernaryModel<A>,
    x: Seq<A::Elem>,
    y: Seq<A::Elem>,
)
    requires
        model.infers(x, y),
    ensures
        y.len() == model.weights.rows,
{
}

/// Running a model is multiplying by its weights and then by its scale: an output of
/// [`TernaryModel::infer`] is the same as the product of the scale and the output that
/// [`TernaryTensor::matvec`] gives for the same row, and there are as many of the one as of the
/// other.
pub proof fn law_infer_scales_matvec<A: Arithmetic>(
    same: spec_fn(A::Elem, A::Elem) -> bool,
    model: TernaryModel<A>,
    x: &[A::Elem],
    raw: Vec<A::Elem>,
    y: Vec<A::Elem>,
    r: int,
    z: A::Elem,
)
    requires
        adds_consistently::<A>(same),
        multiplies_consistently::<A>(same),
        model.accepts(x@),
        call_ensures(TernaryTensor::matvec::<A>, (&model.weights, x), raw),
        call_ensures(TernaryModel::<A>::infer, (&model, x), y),
        0 <= r < model.weights.rows,
        call_ensures(A::times, (raw@[r], model.scale), z),
    ensures
        y@.len() == model.weights.rows,
        raw@.len() == model.weights.rows,
        same(y@[r], z),
{
    law_inference_is_scaled_product::<A>(same, model, x@, y@, r, raw@[r]);
}

/// Every frame of a batch is served on its own: one result for each frame, in order, which
/// holds that frame, the version of the model, and one output for each row of the weights, the
/// product of the row and that very frame times the scale.
pub proof fn law_batch_serves_each_frame<A: Arithmetic>(
    same: spec_fn(A::Elem, A::Elem) -> bool,
    model: TernaryModel<A>,
    frames: Seq<Vec<A::Elem>>,
    results: Seq<InferenceResult<A>>,
    i: int,
    r: int,
    raw: A::Elem,
)
    requires
        adds_consistently::<A>(same),
        multiplies_consistently::<A>(same),
        batch_of(model, frames, results),
        0 <= i < frames.len(),
        model.accepts(frames[i]@),
        0 <= r < model.weights.rows,
        dot_product::<A>(
            Seq::new(
                model.weights.cols as nat,
                |c: int| model.weights@[r * model.weights.cols + c],
            ),
            frames[i]@,
            raw,
        ),
    ensures
        results.len() == frames.len(),
        results[i].input@ == frames[i]@,
        results[i].model_version == model.version,
        results[i].output@.len() == model.weights.rows,
        forall|z: A::Elem| #[trigger]
            call_ensures(A::times, (raw, model.scale), z) ==> same(results[i].output@[r], z),
{
    assert(results[i].input@ == frames[i]@);
    let row = model.weights.row(r);
    assert(row =~= Seq::new(
        model.weights.cols as nat,
        |c: int| model.weights@[r * model.weights.cols + c],
    ));
    law_inference_is_scaled_product::<A>(same, model, frames[i]@, results[i].output@, r, raw);
}

/// The shape of a batch on any arithmetic: one result for each frame, in order, with the frame,
/// the version, and an output that the model infers from that very frame, one element for each
/// row.
pub proof fn law_batch_shape<A: Arithmetic>(
    model: TernaryModel<A>,
    frames: Seq<Vec<A::Elem>>,
    results: Seq<InferenceResult<A>>,
    i: int,
)
    requires
        batch_of(model, frames, results),
        0 <= i < frames.len(),
    ensures
        results.len() == frames.len(),
        results[i].input@ == frames[i]@,
        results[i].model_version == model.version,
        results[i].output@.len() == model.weights.rows,
        model.infers(results[i].input@, results[i].output@),
{
    assert(results[i].input@ == frames[i]@);
}

/// A batch is its frames run one by one: the output in the result of [`TernaryModel::infer_batch`]
/// for a frame is the same as what [`TernaryModel::infer`] gives for that frame alone.
pub proof fn law_batch_is_frame_by_frame<A: Arithmetic>(
    same: spec_fn(A::Elem, A::Elem) -> bool,
    model: TernaryModel<A>,
    frames: &[Vec<A::Elem>],
    results: Vec<InferenceResult<A>>,
    i: int,
    frame: &[A::Elem],
    y: Vec<A::Elem>,
    r: int,
)
    requires
        adds_consistently::<A>(same),
        multiplies_consistently::<A>(same),
        call_ensures(TernaryModel::<A>::infer_batch, (&model, frames), results),
        0 <= i < frames@.len(),
        frame@ == frames@[i]@,
        model.accepts(frame@),
        call_ensures(TernaryModel::<A>::infer, (&model, frame), y),
        0 <= r < model.weights.rows,
    ensures
        results@.len() == frames@.len(),
        results@[i].input@ == frame@,
        results@[i].model_version == model.version,
        results@[i].output@.len() == y@.len(),
        y@.len() == model.weights.rows,
        same(results@[i].output@[r], y@[r]),
{
    let row = model.weights.row(r);
    assert(results@[i].input@ == frames@[i]@);
    assert(scaled_product::<A>(row, frame@, model.scale, y@[r]));
    let raw = choose|raw: A::Elem| #[trigger]
        dot_product::<A>(row, frame@, raw) && call_ensures(A::times, (raw, model.scale), y@[r]);
    law_inference_is_scaled_product::<A>(same, model, frame@, results@[i].output@, r, raw);
}

/// On integer registers each output of a batch is the scaled sum of its own frame, added where
/// the weight is plus one and subtracted where it is minus one, modulo 2^64.
pub proof fn law_integer_batch(
    model: TernaryModel<Integers>,
    frames: Seq<Vec<i64>>,
    results: Seq<InferenceResult<Integers>>,
    i: int,
    r: int,
)
    requires
        batch_of(model, frames, results),
        0 <= i < frames.len(),
        model.accepts(frames[i]@),
        0 <= r < model.weights.rows,
    ensures
        results.len() == frames.len(),
        results[i].input@ == frames[i]@,
        results[i].output@.len() == model.weights.rows,
        results[i].output@[r] == wrap(
            weighted_sum(
                Seq::new(
                    model.weights.cols as nat,
                    |c: int| model.weights@[r * model.weights.cols + c],
                ),
                as_ints(results[i].input@),
            ) * model.scale,
        ),
        (results[i].output@[r] - Seq::new(
            model.weights.cols as nat,
            |c: int|
                match model.weights@[r * model.weights.cols + c] {
                    Trit::PosOne => frames[i]@[c] as int,
                    Trit::Zero => 0,
                    Trit::NegOne => -frames[i]@[c],
                },
        ).fold_left(0, |a: int, b: int| a + b) * model.scale) % 0x1_0000_0000_0000_0000 == 0,
{
    assert(results[i].input@ == frames[i]@);
    let frame = frames[i]@;
    let row = model.weights.row(r);
    let ints = as_ints(frame);
    assert(row =~= Seq::new(
        model.weights.cols as nat,
        |c: int| model.weights@[r * model.weights.cols + c],
    ));
    law_integer_inference(model, frame, results[i].output@, r);
    law_sums_are_folds(row, Trit::Zero, ints);
    law_wrap_is_congruent(weighted_sum(row, ints) * model.scale);
    assert(Seq::new(
        model.weights.cols as nat,
        |c: int|
            match model.weights@[r * model.weights.cols + c] {
                Trit::PosOne => frames[i]@[c] as int,
                Trit::Zero => 0,
                Trit::NegOne => -frames[i]@[c],
            },
    ) =~= Seq::new(
        row.len(),
        |c: int|
            match row[c] {
                Trit::PosOne => ints[c],
                Trit::Zero => 0,
                Trit::NegOne => -ints[c],
            },
    ));
}

} // verus!
