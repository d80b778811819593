//! A minimal feed-forward neural network engine.
//!
//! A network is an ordered stack of layers — learnable affine transforms,
//! elementwise activations, softmax — with a learning rate and a chosen
//! loss. It runs forward inference, computes the loss against a target,
//! propagates gradients backward through the stack by plain stochastic
//! gradient descent, and persists itself to a compact binary image that
//! reloads bit for bit.
//!
//! Every scalar is an IEEE-754 binary64 value carried as its 64-bit
//! encoding. The arithmetic primitives live in `fp`, each wrapping one
//! `rustc_apfloat` operation and naming its result; everything above them —
//! the elementary functions, the matrix algebra, the layers, the training
//! loop, the model format — is verified against contracts written over
//! those names, which pin each computation to one exact result per input.

use vstd::prelude::*;

pub mod activation_fns;
pub mod activation_layer;
pub mod digits;
pub mod fp;
pub mod loss_fns;
pub mod matrix;
pub mod nural_network;
pub mod nural_network_layer;
pub mod persist;
pub mod rng;
pub mod scalar;
pub mod softmax_layer;
pub mod transform_layer;
