//! The decision core of a small language-model inference engine.
//!
//! Everything here works on plain values: tensor geometry, block-quantised
//! bytes, GGUF metadata, compute graphs, schedules and the rules that choose
//! between kernels, devices and fused operators. Floating-point arithmetic and
//! I/O belong to the program around the library; a stored float travels through
//! it as its bit pattern.
pub mod bits;
pub mod block;
pub mod cli;
pub mod generate;
pub mod gguf;
pub mod graph;
pub mod kernel;
pub mod live;
pub mod loader;
pub mod metal;
pub mod model;
pub mod models;
pub mod optiming;
pub mod q4k_dsc;
pub mod quantize;
pub mod tensor;
pub mod text;
