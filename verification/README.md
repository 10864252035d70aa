# candelora-metal-kernels

Fused tensor operations for `candle_core`, with a verified core: AdamW steps, `y + alpha * x`,
products with weights in the IQ2 formats, and attention over dense, packed and TurboQuant caches.

## Layout

- `src/` is the library, verified with Verus. An operation takes tensors as plain values. On the
  host it computes its result; for a Metal device it plans kernel launches.
  - `scalar`: the floating-point operations that the kernels are written over. The contracts say
    which operations produce each result and in which order, and nothing about rounding.
  - `dtype`, `layout`, `tensor`, `host`: element types, strided layouts, tensors, and host
    elements in single precision.
  - `launch`, `arith`: kernel launches and their grids.
  - `setting`: what the texts of environment variables mean.
  - `pipeline_cache`: which pipelines exist, and what has to be made for a new one.
  - `candle`: the calls into `candle_core`.
  - `axpy`, `adamw`, `iq2_matmul`, `activation_quant`, `kv_attn`: the operations.
  - `relation`: when two results count as the same, although an operation may return one of
    several numbers, such as one of several NaNs. `adamw_laws` and the `*_laws` modules of
    `kv_attn` prove what relates calls to each other: what several steps come to, that packed rows
    are attended to as the numbers that they stand for, what packing makes of negated rows and of
    rows of zeros, and what changes no score.
- `tests/` runs the library with IEEE numbers.
- `app/` puts the operations on `candle_core` tensors: it converts tensors, reads the environment
  and encodes the launches. The kernel sources belong in `app/metal_src/`.

## Settings

- `CANDELORA_DISABLE_FUSED_PACK`: rows are packed by two kernels instead of one.
- `CANDLORA_DISABLE_FUSED_ADAMW_METAL`: no fused AdamW step is taken.
- `CANDELORA_TURBO_TG_SIZE`: the threads of a group of the grouped TurboQuant kernels.
