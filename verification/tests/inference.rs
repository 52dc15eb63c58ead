//! Inference on 32-bit floats, from packed weights to replicas that converge.
use adaptive_inference::{
    AdaptiveInferencePipeline, Arithmetic, HotswapSlot, ModelVersion, NodeId, TernaryModel,
    TernaryTensor, Trit, VersionCrdt,
};

#[derive(Clone, Copy, Debug)]
struct Float32;

impl Arithmetic for Float32 {
    type Elem = f32;

    fn zero() -> f32 {
        0.0
    }

    fn one() -> f32 {
        1.0
    }

    fn minus_one() -> f32 {
        -1.0
    }

    fn plus(a: f32, b: f32) -> f32 {
        a + b
    }

    fn minus(a: f32, b: f32) -> f32 {
        a - b
    }

    fn times(a: f32, b: f32) -> f32 {
        a * b
    }

    fn magnitude(a: f32) -> f32 {
        a.abs()
    }

    fn less(a: f32, b: f32) -> bool {
        a < b
    }
}

fn small_model(version: u64) -> TernaryModel<Float32> {
    // 4x4 weight matrix: a +1 row, a -1 row, a zero row, an alternating row
    let data: Vec<f32> = vec![
        1.0, 1.0, 1.0, 1.0, // row 0: all +1
        -1.0, -1.0, -1.0, -1.0, // row 1: all -1
        0.0, 0.0, 0.0, 0.0, // row 2: all zero
        1.0, -1.0, 1.0, -1.0, // row 3: alternating
    ];
    let weights = TernaryTensor::from_floats::<Float32>(&data, 4, 4, 0.5);
    TernaryModel::new(version, weights, 1.0)
}

#[test]
fn trit_encoding_round_trips() {
    assert_eq!(Trit::from_float::<Float32>(0.8, 0.5), Trit::PosOne);
    assert_eq!(Trit::from_float::<Float32>(-0.8, 0.5), Trit::NegOne);
    assert_eq!(Trit::from_float::<Float32>(0.3, 0.5), Trit::Zero);
    assert_eq!(Trit::from_float::<Float32>(0.0, 0.5), Trit::Zero);
}

#[test]
fn ternary_tensor_get_matches_input() {
    let data = vec![1.0f32, 0.0, -1.0, 0.0, 1.0, -1.0, 1.0, 0.0, -1.0];
    let t = TernaryTensor::from_floats::<Float32>(&data, 3, 3, 0.5);
    assert_eq!(t.get(0, 0), Trit::PosOne);
    assert_eq!(t.get(0, 1), Trit::Zero);
    assert_eq!(t.get(0, 2), Trit::NegOne);
    assert_eq!(t.get(1, 0), Trit::Zero);
    assert_eq!(t.get(1, 1), Trit::PosOne);
    assert_eq!(t.get(1, 2), Trit::NegOne);
}

#[test]
fn matvec_correctness() {
    let model = small_model(1);
    let x = vec![1.0, 2.0, 3.0, 4.0];
    let y = model.infer(&x);
    // row 0: sum = 1+2+3+4 = 10
    // row 1: sum = -(1+2+3+4) = -10
    // row 2: sum = 0
    // row 3: 1-2+3-4 = -2
    assert!((y[0] - 10.0).abs() < 1e-6, "row 0 = {}", y[0]);
    assert!((y[1] + 10.0).abs() < 1e-6, "row 1 = {}", y[1]);
    assert!((y[2] - 0.0).abs() < 1e-6, "row 2 = {}", y[2]);
    assert!((y[3] + 2.0).abs() < 1e-6, "row 3 = {}", y[3]);
}

#[test]
fn ternary_is_16x_denser_than_fp32() {
    let data: Vec<f32> = (0..1024)
        .map(|i| if i % 3 == 0 { 1.0 } else if i % 3 == 1 { -1.0 } else { 0.0 })
        .collect();
    let t = TernaryTensor::from_floats::<Float32>(&data, 32, 32, 0.5);
    // 1024 weights of 2 bits = 256 bytes packed; FP32 = 4096 bytes
    assert_eq!(t.packed_bytes(), 256);
    assert_eq!(t.fp32_bytes(), 4096);
    assert_eq!(t.fp32_bytes() / t.packed_bytes(), 16);
}

#[test]
fn matvec_with_scale() {
    let data = vec![1.0f32, -1.0, 0.0, 1.0];
    let weights = TernaryTensor::from_floats::<Float32>(&data, 2, 2, 0.5);
    let model: TernaryModel<Float32> = TernaryModel::new(1, weights, 2.0);
    let x = vec![3.0, 5.0];
    let y = model.infer(&x);
    // row 0: (3 - 5) * 2 = -4
    // row 1: (0 + 5) * 2 = 10
    assert!((y[0] + 4.0).abs() < 1e-6);
    assert!((y[1] - 10.0).abs() < 1e-6);
}

#[test]
fn hotswap_replaces_model_atomically() {
    let model_v1 = small_model(1);
    let mut slot = HotswapSlot::new(model_v1);

    // Load before swap: should be v1
    let loaded = slot.load();
    assert_eq!(loaded.version, ModelVersion(1));

    // Swap in v2
    let model_v2 = small_model(2);
    let evicted = slot.swap(model_v2);
    assert_eq!(evicted.version, ModelVersion(1), "evicted should be old model");

    // Load after swap: should be v2
    let loaded = slot.load();
    assert_eq!(loaded.version, ModelVersion(2));
    assert_eq!(slot.swap_count(), 1);
}

#[test]
fn in_flight_batch_uses_snapshot_not_swapped_model() {
    let model_v1 = small_model(1);
    let mut slot = HotswapSlot::new(model_v1);

    // A batch begins and loads the model
    let batch_model = slot.load();

    // The swap happens after the batch has begun
    let model_v2 = small_model(2);
    let _evicted = slot.swap(model_v2);

    // The batch completes on the model it took
    assert_eq!(
        batch_model.version,
        ModelVersion(1),
        "in-flight batch must see the model it loaded, not the swapped-in model"
    );

    // New batches get v2
    let new_batch_model = slot.load();
    assert_eq!(new_batch_model.version, ModelVersion(2));
}

#[test]
fn evicted_model_stays_alive_while_held() {
    let mut slot = HotswapSlot::new(small_model(1));
    let evicted = slot.swap(small_model(2));
    // The evicted model can still infer
    let x = vec![1.0, 0.0, 0.0, 0.0];
    let y = evicted.infer(&x);
    assert_eq!(y.len(), 4);
}

#[test]
fn crdt_observe_is_monotone() {
    let mut crdt = VersionCrdt::new();
    let n = NodeId(0);
    crdt.observe(n, ModelVersion(3));
    crdt.observe(n, ModelVersion(1)); // lower: ignored
    assert_eq!(crdt.versions[&n.0], ModelVersion(3));
    crdt.observe(n, ModelVersion(5));
    assert_eq!(crdt.versions[&n.0], ModelVersion(5));
}

#[test]
fn crdt_merge_is_commutative() {
    let mut a = VersionCrdt::new();
    a.observe(NodeId(0), ModelVersion(3));
    a.observe(NodeId(1), ModelVersion(2));

    let mut b = VersionCrdt::new();
    b.observe(NodeId(0), ModelVersion(2));
    b.observe(NodeId(1), ModelVersion(4));

    let mut ab = a.clone();
    ab.merge(&b);

    let mut ba = b.clone();
    ba.merge(&a);

    assert_eq!(ab.versions[&0], ba.versions[&0]);
    assert_eq!(ab.versions[&1], ba.versions[&1]);

    // Each takes the later version
    assert_eq!(ab.versions[&0], ModelVersion(3));
    assert_eq!(ab.versions[&1], ModelVersion(4));
}

#[test]
fn crdt_merge_is_idempotent() {
    let mut a = VersionCrdt::new();
    a.observe(NodeId(0), ModelVersion(5));
    let b = a.clone();
    a.merge(&b);
    a.merge(&b); // double merge
    assert_eq!(a.versions[&0], ModelVersion(5));
}

#[test]
fn crdt_quorum_floor_is_min_version() {
    let mut crdt = VersionCrdt::new();
    crdt.observe(NodeId(0), ModelVersion(5));
    crdt.observe(NodeId(1), ModelVersion(3));
    crdt.observe(NodeId(2), ModelVersion(7));
    assert_eq!(crdt.quorum_floor(), Some(ModelVersion(3)));
}

#[test]
fn crdt_all_at_least_reflects_convergence() {
    let mut crdt = VersionCrdt::new();
    crdt.observe(NodeId(0), ModelVersion(4));
    crdt.observe(NodeId(1), ModelVersion(3));
    assert!(!crdt.all_at_least(ModelVersion(4)), "node 1 is still at v3");
    crdt.observe(NodeId(1), ModelVersion(4));
    assert!(crdt.all_at_least(ModelVersion(4)), "all nodes now at v4");
}

#[test]
fn pipeline_processes_batch_with_correct_version() {
    let mut pipeline = AdaptiveInferencePipeline::new(0, small_model(1));
    let frames = vec![vec![1.0, 0.0, 0.0, 0.0], vec![0.0, 1.0, 0.0, 0.0]];
    let results = pipeline.process_batch(&frames);
    assert_eq!(results.len(), 2);
    for r in &results {
        assert_eq!(r.model_version, ModelVersion(1));
    }
}

#[test]
fn pipeline_hotswap_changes_version_for_next_batch() {
    let mut pipeline = AdaptiveInferencePipeline::new(0, small_model(1));

    let frames = vec![vec![1.0, 0.0, 0.0, 0.0]];
    let batch1 = pipeline.process_batch(&frames);
    assert_eq!(batch1[0].model_version, ModelVersion(1));

    // Hotswap between batches
    pipeline.hotswap_model(small_model(2));

    let batch2 = pipeline.process_batch(&frames);
    assert_eq!(
        batch2[0].model_version,
        ModelVersion(2),
        "after hotswap, new batches must use the new model"
    );
}

#[test]
fn pipeline_output_changes_after_hotswap() {
    // v1: all-+1 weights in row 0
    let model_v1: TernaryModel<Float32> = {
        let data = vec![1.0f32; 4];
        let w = TernaryTensor::from_floats::<Float32>(&data, 1, 4, 0.5);
        TernaryModel::new(1, w, 1.0)
    };
    // v2: all--1 weights in row 0
    let model_v2: TernaryModel<Float32> = {
        let data = vec![-1.0f32; 4];
        let w = TernaryTensor::from_floats::<Float32>(&data, 1, 4, 0.5);
        TernaryModel::new(2, w, 1.0)
    };

    let mut pipeline = AdaptiveInferencePipeline::new(0, model_v1);
    let x = vec![vec![1.0, 1.0, 1.0, 1.0]];

    let before = pipeline.process_batch(&x);
    assert!((before[0].output[0] - 4.0).abs() < 1e-6, "v1: sum of +1 weights = 4");

    pipeline.hotswap_model(model_v2);
    let after = pipeline.process_batch(&x);
    assert!(
        (after[0].output[0] + 4.0).abs() < 1e-6,
        "v2: sum of -1 weights = -4 (model changed without pipeline restart)"
    );
}

#[test]
fn pipeline_crdt_records_versions_used() {
    let mut pipeline = AdaptiveInferencePipeline::new(1, small_model(1));
    pipeline.process_batch(&[vec![1.0, 0.0, 0.0, 0.0]]);
    pipeline.hotswap_model(small_model(3));
    pipeline.process_batch(&[vec![0.0, 1.0, 0.0, 0.0]]);

    let crdt = pipeline.crdt_snapshot();
    // After hotswap and second batch, this node should be at v3
    assert_eq!(crdt.versions[&1], ModelVersion(3));
}

#[test]
fn two_replicas_converge_via_crdt_merge() {
    // Two replicas start at the same version
    let mut replica0 = AdaptiveInferencePipeline::new(0, small_model(1));
    let mut replica1 = AdaptiveInferencePipeline::new(1, small_model(1));

    let frame = vec![vec![1.0, 0.0, 0.0, 0.0]];

    // Replica 0 advances to v3; replica 1 stays at v1
    replica0.hotswap_model(small_model(2));
    replica0.hotswap_model(small_model(3));
    replica0.process_batch(&frame);

    replica1.process_batch(&frame);

    // Before merge: each replica only knows about itself
    let crdt0 = replica0.crdt_snapshot();
    let crdt1 = replica1.crdt_snapshot();
    assert!(!crdt0.versions.contains_key(&1));
    assert!(!crdt1.versions.contains_key(&0));

    // Gossip: merge replica 0's state into replica 1
    replica1.merge_crdt(&crdt0);
    let merged = replica1.crdt_snapshot();

    // After merge: replica 1 knows replica 0 is at v3, itself at v1
    assert_eq!(merged.versions[&0], ModelVersion(3));
    assert_eq!(merged.versions[&1], ModelVersion(1));

    // Quorum floor = min(v3, v1) = v1: v1 cannot be collected yet
    assert_eq!(merged.quorum_floor(), Some(ModelVersion(1)));

    // Bring replica 1 up to date
    replica1.hotswap_model(small_model(3));
    replica1.process_batch(&frame);
    let updated = replica1.crdt_snapshot();
    assert!(
        updated.all_at_least(ModelVersion(3)),
        "after replica 1 catches up, all known nodes are at v3"
    );
}

#[test]
fn hotswap_count_tracks_swaps_correctly() {
    let mut slot = HotswapSlot::new(small_model(1));
    assert_eq!(slot.swap_count(), 0);
    slot.swap(small_model(2));
    slot.swap(small_model(3));
    slot.swap(small_model(4));
    assert_eq!(slot.swap_count(), 3);
}

/// A content moderation pipeline on a live stream: threat patterns change, a new model is
/// deployed, the pipeline never stops, and the record audits two replicas.
#[test]
fn end_to_end_content_moderation_scenario() {
    // Two replicas processing the same stream
    let mut gpu0 = AdaptiveInferencePipeline::new(0, small_model(1));
    let mut gpu1 = AdaptiveInferencePipeline::new(1, small_model(1));

    // 10 frames arrive, processed in batches of 2
    let frames: Vec<Vec<f32>> =
        (0..10).map(|i| vec![i as f32, (i * 2) as f32, 0.0, 1.0]).collect();

    for chunk in frames.chunks(2) {
        let chunk_vec: Vec<Vec<f32>> = chunk.to_vec();
        gpu0.process_batch(&chunk_vec);
        gpu1.process_batch(&chunk_vec);
    }

    // New threat pattern detected: deploy model v2 to gpu0 first
    gpu0.hotswap_model(small_model(2));

    // gpu0 continues processing with v2; gpu1 still on v1
    for chunk in frames.chunks(2) {
        let chunk_vec: Vec<Vec<f32>> = chunk.to_vec();
        gpu0.process_batch(&chunk_vec);
    }

    // Gossip: gpu1 learns gpu0 is at v2
    let crdt0 = gpu0.crdt_snapshot();
    gpu1.merge_crdt(&crdt0);

    let merged1 = gpu1.crdt_snapshot();
    // gpu1 now knows: gpu0=v2, gpu1=v1; rollback safe to v1
    assert_eq!(merged1.quorum_floor(), Some(ModelVersion(1)));
    assert!(!merged1.all_at_least(ModelVersion(2)));

    // Deploy v2 to gpu1 as well
    gpu1.hotswap_model(small_model(2));
    gpu1.process_batch(&[vec![0.0; 4]]);
    gpu1.merge_crdt(&gpu0.crdt_snapshot());

    let final1 = gpu1.crdt_snapshot();
    assert!(
        final1.all_at_least(ModelVersion(2)),
        "both replicas converged to v2 — v1 can be garbage collected"
    );

    // No downtime: both replicas processed all frames without gaps
    assert_eq!(gpu0.slot.swap_count(), 1);
    assert_eq!(gpu1.slot.swap_count(), 1);
}
