//! Fused tensor operations: AdamW steps, `y + alpha * x`, products with IQ2 weights, and
//! attention over dense, packed and TurboQuant caches.
//!
//! An operation takes tensors as plain values ([`tensor::Tensor`]). On the host it computes its
//! result; for a Metal device it says which kernels to launch, with which arguments and on which
//! grid ([`launch::Launch`]). A refused call is answered with an error that names what is wrong.
//!
//! Floating-point arithmetic comes from outside, through [`scalar::Scalars`].
pub mod activation_quant;
pub mod adamw;
pub mod adamw_laws;
pub mod adamw_values;
pub mod arith;
pub mod axpy;
pub mod axpy_laws;
pub mod candle;
pub mod dtype;
pub mod exact;
pub mod host;
pub mod iq2_laws;
pub mod iq2_matmul;
pub mod kv_attn;
pub mod launch;
pub mod launch_laws;
pub mod layout;
pub mod pipeline_cache;
pub mod relation;
pub mod scalar;
pub mod setting;
pub mod tensor;
