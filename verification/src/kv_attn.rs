//! Attention over a cache of keys and values.
pub mod attend;
pub mod attend_laws;
pub mod bits;
pub mod codes;
pub mod dense;
pub mod dense_laws;
pub mod dense_plans;
pub mod heads;
pub mod pack;
pub mod pack_laws;
pub mod pack_plans;
pub mod pack_values;
pub mod quantized;
pub mod rowwise;
pub mod rowwise_laws;
pub mod rowwise_pack;
pub mod rowwise_plans;
pub mod rowwise_values;
pub mod turbo;
pub mod turbo_kernel;
pub mod turbo_laws;
pub mod turbo_plans;
pub mod turbo_values;

pub use codes::{expected_packed_cols, RowwiseQuantKind};
pub use dense::{attn_weighted_sum, qk_scores};
pub use pack::pack_rowwise_quantized;
pub use quantized::{attn_weighted_sum_quantized_vt, qk_scores_quantized_k};
pub use rowwise::{attn_weighted_sum_quantized_rowwise, qk_scores_quantized_rowwise};
pub use turbo::{qk_scores_turboquant, qk_scores_turboquant_packed};
pub use turbo_kernel::TurboQuantKind;
