//! The laws of the library on concrete values, and the edges of its functions.
use adaptive_inference::{
    AdaptiveInferencePipeline, Arithmetic, HotswapSlot, Integers, ModelVersion, NodeId,
    TernaryModel, TernaryTensor, Trit, VersionCrdt,
};

#[derive(Clone, Copy, Debug)]
struct Float32;

impl Arithmetic for Float32 {
    type Elem = f32;

    fn zero() -> f32 {
        0.0
    }

    fn one() -> f32 {
        1.0
    }

    fn minus_one() -> f32 {
        -1.0
    }

    fn plus(a: f32, b: f32) -> f32 {
        a + b
    }

    fn minus(a: f32, b: f32) -> f32 {
        a - b
    }

    fn times(a: f32, b: f32) -> f32 {
        a * b
    }

    fn magnitude(a: f32) -> f32 {
        a.abs()
    }

    fn less(a: f32, b: f32) -> bool {
        a < b
    }
}

fn integer_model(version: u64, data: &[i64], rows: usize, scale: i64) -> TernaryModel<Integers> {
    let cols = data.len() / rows;
    let weights = TernaryTensor::from_floats::<Integers>(data, rows, cols, 1);
    TernaryModel::new(version, weights, scale)
}

fn record(entries: &[(u32, u64)]) -> VersionCrdt {
    let mut crdt = VersionCrdt::new();
    for &(node, version) in entries {
        crdt.observe(NodeId(node), ModelVersion(version));
    }
    crdt
}

// Weights

#[test]
fn threshold_belongs_to_the_outer_bands() {
    assert_eq!(Trit::from_float::<Float32>(0.5, 0.5), Trit::PosOne);
    assert_eq!(Trit::from_float::<Float32>(-0.5, 0.5), Trit::NegOne);
    assert_eq!(Trit::from_float::<Float32>(0.49999997, 0.5), Trit::Zero);
    assert_eq!(Trit::from_float::<Float32>(-0.49999997, 0.5), Trit::Zero);
}

#[test]
fn what_is_not_above_zero_counts_as_negative() {
    // A threshold of zero leaves no band, and zero is not above zero.
    assert_eq!(Trit::from_float::<Float32>(0.0, 0.0), Trit::NegOne);
    assert_eq!(Trit::from_float::<Float32>(f32::NAN, 0.5), Trit::NegOne);
    assert_eq!(Trit::from_float::<Float32>(0.3, f32::NAN), Trit::PosOne);
    assert_eq!(Trit::from_float::<Float32>(f32::INFINITY, 0.5), Trit::PosOne);
    assert_eq!(Trit::from_float::<Float32>(f32::NEG_INFINITY, 0.5), Trit::NegOne);
}

#[test]
fn integer_weights_fall_into_three_bands() {
    assert_eq!(Trit::from_float::<Integers>(5, 5), Trit::PosOne);
    assert_eq!(Trit::from_float::<Integers>(4, 5), Trit::Zero);
    assert_eq!(Trit::from_float::<Integers>(-4, 5), Trit::Zero);
    assert_eq!(Trit::from_float::<Integers>(-5, 5), Trit::NegOne);
    assert_eq!(Trit::from_float::<Integers>(i64::MIN, i64::MAX), Trit::NegOne);
}

#[test]
fn encoding_the_value_of_a_trit_gives_it_back() {
    for t in [Trit::NegOne, Trit::Zero, Trit::PosOne] {
        let e: f32 = t.as_float::<Float32>();
        assert_eq!(Trit::from_float::<Float32>(e, 0.5), t);
        assert_eq!(Trit::from_float::<Float32>(e, 1.0), t);
        let i: i64 = t.as_float::<Integers>();
        assert_eq!(Trit::from_float::<Integers>(i, 1), t);
    }
}

#[test]
fn trit_values_and_bits() {
    assert_eq!(Trit::NegOne.as_float::<Float32>(), -1.0);
    assert_eq!(Trit::Zero.as_float::<Float32>(), 0.0);
    assert_eq!(Trit::PosOne.as_float::<Float32>(), 1.0);
    assert_eq!(Trit::NegOne.bits(), 0b10);
    assert_eq!(Trit::Zero.bits(), 0b00);
    assert_eq!(Trit::PosOne.bits(), 0b01);
    for t in [Trit::NegOne, Trit::Zero, Trit::PosOne] {
        assert_eq!(Trit::from_bits(t.bits()), t);
    }
    assert_eq!(Trit::from_bits(0b11), Trit::Zero);
}

#[test]
fn trit_casts_to_its_bits() {
    assert_eq!(Trit::Zero as u8, 0b00);
    assert_eq!(Trit::PosOne as u8, 0b01);
    assert_eq!(Trit::NegOne as u8, 0b10);
    for t in [Trit::NegOne, Trit::Zero, Trit::PosOne] {
        assert_eq!(t as u64, t.bits());
    }
}

#[test]
fn half_threshold_gives_the_nearest_value() {
    let trits = [Trit::NegOne, Trit::Zero, Trit::PosOne];
    for i in -40..=40 {
        let w = i as f32 / 16.0;
        let t = Trit::from_float::<Float32>(w, 0.5);
        let distance = (w - t.as_float::<Float32>()).abs();
        assert!(trits.iter().all(|o| distance <= (w - o.as_float::<Float32>()).abs()));
    }
    assert_eq!(Trit::from_float::<Integers>(i64::MIN, 5), Trit::NegOne);
    // At a smaller threshold the value need not be the nearest.
    assert_eq!(Trit::from_float::<Float32>(0.2, 0.1), Trit::PosOne);
}

#[test]
fn thresholds_at_and_below_zero_split_by_sign() {
    assert_eq!(Trit::from_float::<Float32>(0.1, 0.0), Trit::PosOne);
    assert_eq!(Trit::from_float::<Float32>(-0.1, 0.0), Trit::NegOne);
    assert_eq!(Trit::from_float::<Integers>(1, 0), Trit::PosOne);
    assert_eq!(Trit::from_float::<Integers>(-1, 0), Trit::NegOne);
    // Outside the overlap of the bands for a threshold of -3
    assert_eq!(Trit::from_float::<Integers>(4, -3), Trit::PosOne);
    assert_eq!(Trit::from_float::<Integers>(-4, -3), Trit::NegOne);
    // Inside it the sign decides
    assert_eq!(Trit::from_float::<Integers>(2, -3), Trit::PosOne);
    assert_eq!(Trit::from_float::<Integers>(0, -3), Trit::NegOne);
}

#[test]
fn integer_operations() {
    assert_eq!(Integers::plus(i64::MAX, 1), i64::MIN);
    assert_eq!(Integers::minus(i64::MIN, 1), i64::MAX);
    assert_eq!(Integers::times(i64::MAX, 2), -2);
    assert_eq!(Integers::magnitude(i64::MIN), i64::MAX);
    assert_eq!(Integers::magnitude(-7), 7);
    assert!(Integers::less(-1, 0) && !Integers::less(0, 0));
}

// Tensors

#[test]
fn read_gives_what_thresholding_gives() {
    let data: Vec<f32> = (0..40).map(|i| (i as f32 - 20.0) / 10.0).collect();
    let t = TernaryTensor::from_floats::<Float32>(&data, 8, 5, 0.7);
    for r in 0..8 {
        for c in 0..5 {
            assert_eq!(t.get(r, c), Trit::from_float::<Float32>(data[r * 5 + c], 0.7));
        }
    }
}

#[test]
fn repacking_changes_nothing() {
    let data: Vec<f32> = (0..35).map(|i| ((i * 7) % 11) as f32 / 5.0 - 1.0).collect();
    let t = TernaryTensor::from_floats::<Float32>(&data, 5, 7, 0.4);
    let mut values = Vec::new();
    for r in 0..5 {
        for c in 0..7 {
            values.push(t.get(r, c).as_float::<Float32>());
        }
    }
    for threshold in [0.01, 0.5, 1.0] {
        let again = TernaryTensor::from_floats::<Float32>(&values, 5, 7, threshold);
        assert_eq!(again.words, t.words);
    }
}

#[test]
fn unit_vector_reads_out_a_column() {
    let data = [1.0f32, 0.0, -1.0, -1.0, 1.0, 0.0, 0.0, -1.0, 1.0];
    let t = TernaryTensor::from_floats::<Float32>(&data, 3, 3, 0.5);
    let ints: Vec<i64> = data.iter().map(|&w| w as i64).collect();
    let u = TernaryTensor::from_floats::<Integers>(&ints, 3, 3, 1);
    for j in 0..3 {
        let mut x = vec![0.0f32; 3];
        x[j] = 1.0;
        let column: Vec<f32> = (0..3).map(|r| t.get(r, j).as_float::<Float32>()).collect();
        assert_eq!(t.matvec::<Float32>(&x), column);
        let mut x = vec![0i64; 3];
        x[j] = 1;
        let column: Vec<i64> = (0..3).map(|r| ints[r * 3 + j]).collect();
        assert_eq!(u.matvec::<Integers>(&x), column);
    }
}

#[test]
fn words_hold_all_weights_or_not() {
    let full = TernaryTensor { rows: 3, cols: 11, words: vec![0, 0] };
    assert!(full.holds_all_weights());
    let short = TernaryTensor { rows: 3, cols: 11, words: vec![0] };
    assert!(!short.holds_all_weights());
    let exact = TernaryTensor { rows: 4, cols: 8, words: vec![0] };
    assert!(exact.holds_all_weights());
    let empty = TernaryTensor { rows: usize::MAX, cols: 0, words: vec![] };
    assert!(empty.holds_all_weights());
    let huge = TernaryTensor { rows: usize::MAX, cols: 2, words: vec![0] };
    assert!(!huge.holds_all_weights());
}

#[test]
fn packed_words_have_the_documented_layout() {
    let data = [0.8f32, -0.6, 0.0, 0.9, -0.3, 0.5];
    let t = TernaryTensor::from_floats::<Float32>(&data, 2, 3, 0.5);
    assert_eq!((t.rows, t.cols), (2, 3));
    assert_eq!(t.words, vec![0b01_00_01_00_10_01]);
}

#[test]
fn weights_cross_word_boundaries() {
    // 7 x 5 = 35 weights: one full word and three weights
    let data: Vec<f32> = (0..35).map(|i| [0.0, 1.0, -1.0][i % 3]).collect();
    let t = TernaryTensor::from_floats::<Float32>(&data, 7, 5, 0.5);
    let expected = [Trit::Zero, Trit::PosOne, Trit::NegOne];
    for r in 0..7 {
        for c in 0..5 {
            assert_eq!(t.get(r, c), expected[(r * 5 + c) % 3]);
        }
    }
    assert_eq!(t.words.len(), 2);
    assert_eq!(t.packed_bytes(), 16);
    assert_eq!(t.fp32_bytes(), 140);
    // What the last word leaves unused is 29 weights.
    assert_eq!(16 * t.packed_bytes(), t.fp32_bytes() + 4 * 29);
}

#[test]
fn get_goes_by_the_flat_index() {
    let data = [1i64, 0, -1, -1, 1, 0];
    let t = TernaryTensor::from_floats::<Integers>(&data, 2, 3, 1);
    // A column past the row runs on into the next one, and what follows the matrix is zero.
    assert_eq!(t.get(0, 3), t.get(1, 0));
    assert_eq!(t.get(0, 4), Trit::PosOne);
    assert_eq!(t.get(0, 6), Trit::Zero);
    assert_eq!(t.get(10, 1), Trit::Zero);
}

#[test]
fn unused_bit_pattern_reads_as_zero() {
    let t = TernaryTensor { rows: 1, cols: 3, words: vec![0b01_11_10] };
    assert_eq!(t.get(0, 0), Trit::NegOne);
    assert_eq!(t.get(0, 1), Trit::Zero);
    assert_eq!(t.get(0, 2), Trit::PosOne);
    assert_eq!(t.matvec::<Integers>(&[7, 100, 9]), vec![2]);
}

#[test]
fn empty_matrices() {
    let t = TernaryTensor::from_floats::<Float32>(&[], 0, 4, 0.5);
    assert_eq!(t.packed_bytes(), 0);
    assert_eq!(t.fp32_bytes(), 0);
    assert!(t.matvec::<Float32>(&[1.0, 2.0, 3.0, 4.0]).is_empty());
    let t = TernaryTensor::from_floats::<Float32>(&[], 3, 0, 0.5);
    assert_eq!(t.matvec::<Float32>(&[]), vec![0.0, 0.0, 0.0]);
}

#[test]
fn product_of_a_thresholded_matrix() {
    let weights = vec![0.8f32, -0.6, 0.0, 0.9, -0.3, 0.5];
    let tensor = TernaryTensor::from_floats::<Float32>(&weights, 2, 3, 0.5);
    let input = vec![1.0, -1.0, 0.5];
    let output = tensor.matvec::<Float32>(&input);
    // (+1.0) - (-1.0), 0.5 skipped; then 1.0 + 0.5, -1.0 skipped
    assert_eq!(output, vec![2.0, 1.5]);
}

#[test]
fn product_is_plus_sum_less_minus_sum() {
    let data = [1i64, -1, 0, 1, -1, 1];
    let t = TernaryTensor::from_floats::<Integers>(&data, 1, 6, 1);
    let x = [10i64, 3, 1000, 20, 4, 30];
    assert_eq!(t.matvec::<Integers>(&x), vec![(10 + 20 + 30) - (3 + 4)]);
    // Floats agree where no addition rounds.
    let data: Vec<f32> = data.iter().map(|&w| w as f32).collect();
    let t = TernaryTensor::from_floats::<Float32>(&data, 1, 6, 0.5);
    let x: Vec<f32> = x.iter().map(|&e| e as f32).collect();
    assert_eq!(t.matvec::<Float32>(&x), vec![53.0]);
}

#[test]
fn product_accumulates_from_left_to_right() {
    // 16777216 + 1 rounds back to 16777216, so the order of the additions shows.
    let t = TernaryTensor::from_floats::<Float32>(&[1.0, 1.0, -1.0], 1, 3, 0.5);
    assert_eq!(t.matvec::<Float32>(&[16777216.0, 1.0, 16777216.0]), vec![0.0]);
    let t = TernaryTensor::from_floats::<Float32>(&[1.0, -1.0, 1.0], 1, 3, 0.5);
    assert_eq!(t.matvec::<Float32>(&[16777216.0, 16777216.0, 1.0]), vec![1.0]);
}

#[test]
fn zero_weight_skips_its_input() {
    let t = TernaryTensor::from_floats::<Float32>(&[1.0, 0.0, -1.0], 1, 3, 0.5);
    for skipped in [0.0, 1e30, f32::INFINITY, f32::NAN] {
        assert_eq!(t.matvec::<Float32>(&[5.0, skipped, 2.0]), vec![3.0]);
    }
}

#[test]
fn integer_product_wraps() {
    let t = TernaryTensor::from_floats::<Integers>(&[1, 1], 1, 2, 1);
    assert_eq!(t.matvec::<Integers>(&[i64::MAX, 1]), vec![i64::MIN]);
    let t = TernaryTensor::from_floats::<Integers>(&[-1, -1], 1, 2, 1);
    assert_eq!(t.matvec::<Integers>(&[i64::MAX, 2]), vec![i64::MAX]);
}

#[test]
fn cloned_tensor_is_the_same() {
    let t = TernaryTensor::from_floats::<Integers>(&[1, 0, -1, 1], 2, 2, 1);
    let u = t.clone();
    assert_eq!((u.rows, u.cols, u.words.clone()), (t.rows, t.cols, t.words.clone()));
}

// Models and slots

#[test]
fn inference_scales_each_output() {
    let model = integer_model(1, &[1, -1, 0, 1], 2, -3);
    assert_eq!(model.version, ModelVersion(1));
    assert_eq!(model.infer(&[3, 5]), vec![6, -15]);
    let copy = model.clone();
    assert_eq!(copy.version, ModelVersion(1));
    assert_eq!(copy.infer(&[3, 5]), vec![6, -15]);
}

#[test]
fn inference_is_the_product_times_the_scale() {
    let data = [1.0f32, -1.0, 0.0, 1.0, 1.0, 1.0];
    let weights = TernaryTensor::from_floats::<Float32>(&data, 2, 3, 0.5);
    let x = [0.1f32, 0.7, 1.3];
    let raw = weights.matvec::<Float32>(&x);
    let model: TernaryModel<Float32> = TernaryModel::new(1, weights.clone(), 0.3);
    let scaled: Vec<f32> = raw.iter().map(|y| y * 0.3).collect();
    assert_eq!(model.infer(&x), scaled);
    assert_eq!(model.infer(&x), model.infer(&x));
    let unscaled: TernaryModel<Float32> = TernaryModel::new(1, weights, 1.0);
    assert_eq!(unscaled.infer(&x), raw);
}

#[test]
fn model_runs_on_frames_of_its_width_alone() {
    let mut model = integer_model(1, &[1, -1, 0, 1], 2, 1);
    assert!(model.can_run(&[1, 2]));
    assert!(!model.can_run(&[1]));
    assert!(!model.can_run(&[1, 2, 3]));
    model.weights.rows = 17;
    assert!(!model.can_run(&[1, 2]));
}

#[test]
fn batch_gives_one_result_per_frame_in_order() {
    let model = integer_model(9, &[1, 1, 1, -1], 2, 1);
    let results = model.infer_batch(&[vec![1, 2], vec![30, 4], vec![0, 0]]);
    assert_eq!(results.len(), 3);
    assert_eq!(results[0].input, vec![1, 2]);
    assert_eq!(results[0].output, vec![3, -1]);
    assert_eq!(results[1].input, vec![30, 4]);
    assert_eq!(results[1].output, vec![34, 26]);
    assert_eq!(results[2].output, vec![0, 0]);
    assert!(results.iter().all(|r| r.model_version == ModelVersion(9)));
    assert!(model.infer_batch(&[]).is_empty());
}

#[test]
fn each_swap_evicts_its_predecessor() {
    let mut slot = HotswapSlot::new(integer_model(1, &[1], 1, 1));
    let mut evicted = Vec::new();
    for v in 2..6 {
        evicted.push(slot.swap(integer_model(v, &[1], 1, 1)).version.0);
    }
    assert_eq!(evicted, vec![1, 2, 3, 4]);
    assert_eq!(slot.load().version, ModelVersion(5));
    assert_eq!(slot.swap_count(), 4);
}

// Version records

#[test]
fn observing_version_zero_makes_a_node_known() {
    let crdt = record(&[(4, 0)]);
    assert_eq!(crdt.version_of(NodeId(4)), Some(ModelVersion(0)));
    assert_eq!(crdt.version_of(NodeId(5)), None);
    assert_eq!(crdt.quorum_floor(), Some(ModelVersion(0)));
    assert!(crdt.all_at_least(ModelVersion(0)));
    assert!(!crdt.all_at_least(ModelVersion(1)));
}

#[test]
fn empty_record_has_no_floor_and_no_convergence() {
    let crdt = VersionCrdt::default();
    assert!(crdt.versions.is_empty());
    assert_eq!(crdt.quorum_floor(), None);
    assert!(!crdt.all_at_least(ModelVersion(0)));
    assert!(VersionCrdt::new().versions.is_empty());
}

#[test]
fn merge_is_associative_and_leaves_its_argument() {
    let a = record(&[(0, 3), (1, 2)]);
    let b = record(&[(1, 4), (2, 1)]);
    let c = record(&[(0, 5), (2, 1), (3, 7)]);

    let mut ab_c = a.clone();
    ab_c.merge(&b);
    ab_c.merge(&c);

    let mut bc = b.clone();
    bc.merge(&c);
    let mut a_bc = a.clone();
    a_bc.merge(&bc);

    assert_eq!(ab_c.versions, a_bc.versions);
    assert_eq!(ab_c.versions, record(&[(0, 5), (1, 4), (2, 1), (3, 7)]).versions);
    assert_eq!(b.versions, record(&[(1, 4), (2, 1)]).versions);
}

#[test]
fn merges_in_any_order_and_number_converge() {
    let records = [record(&[(0, 3)]), record(&[(0, 1), (1, 9)]), record(&[(2, 2), (1, 4)])];
    let expected = record(&[(0, 3), (1, 9), (2, 2)]);
    for order in [vec![0, 1, 2], vec![2, 1, 0], vec![1, 0, 2, 0, 1], vec![2, 2, 0, 1, 1]] {
        let mut merged = VersionCrdt::new();
        for i in order {
            merged.merge(&records[i]);
        }
        assert_eq!(merged.versions, expected.versions);
    }
}

#[test]
fn observe_is_merge_of_one_node() {
    for version in [1, 3, 8] {
        let mut observed = record(&[(0, 3), (1, 2)]);
        let mut merged = observed.clone();
        observed.observe(NodeId(0), ModelVersion(version));
        merged.merge(&record(&[(0, version)]));
        assert_eq!(observed.versions, merged.versions);
        assert_eq!(observed.versions[&0], ModelVersion(version.max(3)));
        assert_eq!(observed.versions[&1], ModelVersion(2));
    }
}

#[test]
fn convergence_is_what_the_floor_says() {
    let crdt = record(&[(0, 5), (1, 3), (2, 7)]);
    let floor = crdt.quorum_floor().unwrap();
    for target in 0..9 {
        assert_eq!(crdt.all_at_least(ModelVersion(target)), floor.0 >= target);
    }
}

// Pipelines

#[test]
fn new_pipeline_knows_itself_alone() {
    let pipeline = AdaptiveInferencePipeline::new(6, integer_model(4, &[1], 1, 1));
    let crdt = pipeline.crdt_snapshot();
    assert_eq!(crdt.versions, record(&[(6, 4)]).versions);
    assert_eq!(pipeline.node_id, NodeId(6));
    assert_eq!(pipeline.slot.swap_count(), 0);
}

#[test]
fn batch_that_ends_after_a_swap_ran_on_the_evicted_model() {
    let mut pipeline = AdaptiveInferencePipeline::new(0, integer_model(1, &[1, 1], 1, 1));
    let frames = vec![vec![2, 3], vec![4, 5]];

    let model = pipeline.begin_batch();
    let evicted = pipeline.hotswap_model(integer_model(2, &[-1, -1], 1, 1));
    let results = model.infer_batch(&frames);
    pipeline.finish_batch(model.version);

    assert_eq!(evicted.version, ModelVersion(1));
    assert!(results.iter().all(|r| r.model_version == ModelVersion(1)));
    assert_eq!(results[0].output, vec![5]);
    assert_eq!(results[1].output, vec![9]);
    // The late end of the batch does not move the record back.
    assert_eq!(pipeline.crdt_snapshot().versions, record(&[(0, 2)]).versions);

    let results = pipeline.process_batch(&frames);
    assert!(results.iter().all(|r| r.model_version == ModelVersion(2)));
    assert_eq!(results[0].output, vec![-5]);
    assert_eq!(results[0].input, vec![2, 3]);
}

#[test]
fn rollback_keeps_the_latest_version_on_record() {
    let mut pipeline = AdaptiveInferencePipeline::new(0, integer_model(5, &[1], 1, 1));
    pipeline.hotswap_model(integer_model(3, &[1], 1, 1));
    let results = pipeline.process_batch(&[vec![1]]);
    assert_eq!(results[0].model_version, ModelVersion(3));
    assert_eq!(pipeline.crdt_snapshot().versions, record(&[(0, 5)]).versions);
    assert_eq!(pipeline.slot.load().version, ModelVersion(3));
}

#[test]
fn own_entry_never_falls_below_what_was_used() {
    let mut pipeline = AdaptiveInferencePipeline::new(2, integer_model(4, &[1], 1, 1));
    let mut used = 4;
    let mut entry = 4;
    for v in [6, 1, 3, 9, 2] {
        pipeline.merge_crdt(&record(&[(2, 5), (7, v)]));
        let in_flight = pipeline.begin_batch();
        pipeline.hotswap_model(integer_model(v, &[1], 1, 1));
        pipeline.finish_batch(in_flight.version);
        let results = pipeline.process_batch(&[vec![1]]);
        used = used.max(v).max(results[0].model_version.0);
        let now = pipeline.crdt_snapshot().versions[&2].0;
        assert!(now >= entry && now >= used);
        entry = now;
    }
    assert_eq!(pipeline.crdt_snapshot().versions, record(&[(2, 9), (7, 9)]).versions);
}

#[test]
fn gossip_in_any_order() {
    let remote = record(&[(0, 1), (1, 8)]);
    let mut early = AdaptiveInferencePipeline::new(0, integer_model(1, &[1], 1, 1));
    early.merge_crdt(&remote);
    early.hotswap_model(integer_model(2, &[1], 1, 1));
    let mut late = AdaptiveInferencePipeline::new(0, integer_model(1, &[1], 1, 1));
    late.hotswap_model(integer_model(2, &[1], 1, 1));
    late.merge_crdt(&remote);
    assert_eq!(early.crdt_snapshot().versions, late.crdt_snapshot().versions);
    assert_eq!(early.crdt_snapshot().versions, record(&[(0, 2), (1, 8)]).versions);
}

#[test]
fn nobody_believes_a_replica_further_than_it_is() {
    let mut replicas: Vec<AdaptiveInferencePipeline<Integers>> =
        (0..3).map(|n| AdaptiveInferencePipeline::new(n, integer_model(1, &[1], 1, 1))).collect();
    let stale = replicas[0].crdt_snapshot();
    replicas[0].hotswap_model(integer_model(4, &[1], 1, 1));
    replicas[1].hotswap_model(integer_model(3, &[1], 1, 1));
    let fresh = replicas[0].crdt_snapshot();
    replicas[1].merge_crdt(&fresh);
    let relayed = replicas[1].crdt_snapshot();
    replicas[2].merge_crdt(&relayed);
    replicas[2].merge_crdt(&stale);
    for observer in &replicas {
        for (node, version) in &observer.crdt.versions {
            assert!(replicas[*node as usize].crdt.versions[node] >= *version);
        }
    }
    // Replica 2 knows all, and what it sees reached by all is reached by all.
    let seen = replicas[2].crdt_snapshot();
    assert_eq!(seen.versions, record(&[(0, 4), (1, 3), (2, 1)]).versions);
    assert_eq!(seen.quorum_floor(), Some(ModelVersion(1)));
}
