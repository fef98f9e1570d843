# minfer

The decision core of a small language-model inference engine, written in Verus.

The library works on plain values. It reads model metadata, lays out and decodes
block-quantised weights, builds the compute graphs of Qwen2 and Qwen3 models,
splits them over backends, plans what goes onto a device, encodes device commands,
and drives the command line and the conversation. Floating-point numbers travel
through it as their bits.

- `src/gguf.rs`, `src/loader.rs`, `src/tensor.rs`, `src/model/`: files and tensors
- `src/block.rs`, `src/quantize.rs`, `src/q4k_dsc.rs`: the byte layouts of weights
- `src/kernel.rs`: matrix products and embeddings on the host
- `src/graph/`: compute graphs, batches, the graph cache, offloading, the scheduler
- `src/models/`: the architectures, loading, registration and forward passes
- `src/metal/`: kernels, commands and weights of a Metal device
- `src/cli/`, `src/generate.rs`, `src/live.rs`, `src/optiming.rs`: the program's rules
- `app/`: the program around the library, with arithmetic and I/O
- `tests/`: the library from the outside

A proof function whose name starts with `law_` states something that holds of
several functions at once.
