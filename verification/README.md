# parakeet

Inference front ends for the Parakeet speech models, with proofs in Verus.

- `src/model.rs`: the CTC model.
- `src/model_eou.rs`: the streaming model with end-of-utterance detection, its
  encoder cache and its decoder.
- `src/model_tdt.rs`: the token-and-duration transducer; `src/search.rs` holds the
  greedy search, `src/logits.rs` the order of scores.
- `src/files.rs`: which files of a model directory to load.
- `src/runtime.rs` and `src/array.rs`: the edges to `rten`, which evaluates the
  networks, and to `ndarray`, which stores the arrays.
- `app/`: loading models from disk, and conversion from and to floats.

Floats are carried as 32-bit patterns in `i32` cells. A contract that speaks of a
network says which inputs the network was run on, and what is made of whatever it
answered; it says nothing about the answer itself.
