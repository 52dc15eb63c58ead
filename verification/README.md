# adaptive_inference

Adaptive ternary inference with model hotswap and version tracking, verified with Verus.

- `src/arithmetic.rs`: the scalar operations that inference is built from, as a trait, and
  their integer instance.
- `src/trit.rs`, `src/tensor.rs`: ternary weights, two bits each, and the multiplication-free
  product with a vector.
- `src/model.rs`: models, and what they make of frames and batches.
- `src/slot.rs`: the slot that holds the running model.
- `src/crdt.rs`, `src/version.rs`: the version record that replicas merge.
- `src/pipeline.rs`: the pipeline of one replica.
- `src/replicas.rs`: what the records of a replica set say about its members.
- `app/`: 32-bit float arithmetic, and locks for sharing slots and pipelines between threads.

Each module states its functions' behaviour in their contracts, and the properties that span
functions in public proof functions whose names begin with `law_`.
