use candelora_metal_kernels::dtype::DType;
use candelora_metal_kernels::kv_attn::bits::unpack_packed_u8_values;
use candelora_metal_kernels::kv_attn::codes::code_of;
use candelora_metal_kernels::kv_attn::dense::{self, DenseError, DenseOperand};
use candelora_metal_kernels::kv_attn::heads::Heads;
use candelora_metal_kernels::kv_attn::pack::{PackError, PackOutcome};
use candelora_metal_kernels::kv_attn::quantized::{
    QuantizedError, QuantizedInfo, QuantizedProduct,
};
use candelora_metal_kernels::kv_attn::rowwise::{
    is_qk_countable, is_sum_countable, RowwiseError, RowwiseOperand, RowwiseShape,
};
use candelora_metal_kernels::kv_attn::turbo::{
    is_turboquant_countable, TurboError, TurboInputs, TurboOutcome, TurboRequest,
};
use candelora_metal_kernels::kv_attn::turbo_kernel::{
    cpu_qk_scores_turboquant_impl, TurboKeys, TurboShape,
};
use candelora_metal_kernels::kv_attn::{
    attn_weighted_sum, attn_weighted_sum_quantized_rowwise, attn_weighted_sum_quantized_vt,
    expected_packed_cols, pack_rowwise_quantized, qk_scores, qk_scores_quantized_k,
    qk_scores_quantized_rowwise, qk_scores_turboquant, qk_scores_turboquant_packed,
    RowwiseQuantKind, TurboQuantKind,
};
use candelora_metal_kernels::launch::Outcome;
use candelora_metal_kernels::layout::Layout;
use candelora_metal_kernels::scalar::Scalars;
use candelora_metal_kernels::tensor::{Device, HostData, HostTensor, HostVec, Storage, Tensor};
use half::{bf16, f16};

struct Ieee;

impl Scalars for Ieee {
    type F16 = f16;
    type BF16 = bf16;
    type F32 = f32;
    type F64 = f64;

    fn zero() -> f32 {
        0.0
    }

    fn frac_1_sqrt_2() -> f32 {
        std::f32::consts::FRAC_1_SQRT_2
    }

    fn tiny() -> f32 {
        1e-8
    }

    fn from_i32(value: i32) -> f32 {
        value as f32
    }

    fn plus(a: f32, b: f32) -> f32 {
        a + b
    }

    fn minus(a: f32, b: f32) -> f32 {
        a - b
    }

    fn times(a: f32, b: f32) -> f32 {
        a * b
    }

    fn divide(a: f32, b: f32) -> f32 {
        a / b
    }

    fn negate(a: f32) -> f32 {
        -a
    }

    fn larger(a: f32, b: f32) -> f32 {
        a.max(b)
    }

    fn magnitude(a: f32) -> f32 {
        a.abs()
    }

    fn root(a: f32) -> f32 {
        a.sqrt()
    }

    fn is_zero(a: f32) -> bool {
        a == 0.0
    }

    fn round_clamped(a: f32, low: i8, high: i8) -> i8 {
        a.round().clamp(f32::from(low), f32::from(high)) as i8
    }

    fn widen_f16(a: f16) -> f32 {
        a.to_f32()
    }

    fn widen_bf16(a: bf16) -> f32 {
        a.to_f32()
    }

    fn narrow_f16(a: f32) -> f16 {
        f16::from_f32(a)
    }

    fn narrow_bf16(a: f32) -> bf16 {
        bf16::from_f32(a)
    }

    fn single(a: f64) -> f32 {
        a as f32
    }

    fn one_minus(a: f64) -> f64 {
        1.0 - a
    }

    fn is_one(a: f64) -> bool {
        (a - 1.0).abs() < f64::EPSILON
    }
}

/// Numbers in one of the formats of host tensors.
enum Numbers {
    U8(Vec<u8>),
    F16(Vec<f16>),
    BF16(Vec<bf16>),
    F32(Vec<f32>),
}

impl Numbers {
    fn new(values: &[f32], dtype: DType) -> Numbers {
        match dtype {
            DType::F16 => Numbers::F16(values.iter().map(|v| f16::from_f32(*v)).collect()),
            DType::BF16 => Numbers::BF16(values.iter().map(|v| bf16::from_f32(*v)).collect()),
            _ => Numbers::F32(values.to_vec()),
        }
    }

    fn data(&self) -> HostData<'_, Ieee> {
        match self {
            Numbers::U8(v) => HostData::U8(v),
            Numbers::F16(v) => HostData::F16(v),
            Numbers::BF16(v) => HostData::BF16(v),
            Numbers::F32(v) => HostData::F32(v),
        }
    }

    fn tensor(&self, dims: &[usize]) -> Tensor<'_, Ieee> {
        Tensor { storage: Storage::Host(self.data()), layout: row_major(dims) }
    }

    fn strided(&self, dims: &[usize], stride: &[usize]) -> Tensor<'_, Ieee> {
        let layout = Layout { dims: dims.to_vec(), stride: stride.to_vec(), start_offset: 0 };
        Tensor { storage: Storage::Host(self.data()), layout }
    }
}

fn row_major(dims: &[usize]) -> Layout {
    let mut stride = vec![1usize; dims.len()];
    for i in (1..dims.len()).rev() {
        stride[i - 1] = stride[i] * dims[i];
    }
    Layout { dims: dims.to_vec(), stride, start_offset: 0 }
}

fn other(dtype: DType, dims: &[usize]) -> Tensor<'static, Ieee> {
    let len = dims.iter().product();
    Tensor {
        storage: Storage::Host(HostData::Other { dtype, len }),
        layout: row_major(dims),
    }
}

fn cuda(dtype: DType, dims: &[usize]) -> Tensor<'static, Ieee> {
    Tensor { storage: Storage::Cuda { device: 0, dtype }, layout: row_major(dims) }
}

fn floats(tensor: HostTensor<Ieee>) -> (Vec<f32>, Vec<usize>) {
    match tensor.data {
        HostVec::F32(values) => (values, tensor.dims),
        _ => panic!("expected numbers in single precision"),
    }
}

fn bytes(tensor: HostTensor<Ieee>) -> (Vec<u8>, Vec<usize>) {
    match tensor.data {
        HostVec::U8(values) => (values, tensor.dims),
        _ => panic!("expected bytes"),
    }
}

fn on_host(outcome: Outcome<Ieee>) -> (Vec<f32>, Vec<usize>) {
    match outcome {
        Outcome::Host(tensor) => floats(tensor),
        _ => panic!("expected a result on the host"),
    }
}

fn turbo_on_host(outcome: Result<TurboOutcome<Ieee>, TurboError>) -> (Vec<f32>, Vec<usize>) {
    match outcome {
        Ok(TurboOutcome::Host(tensor)) => floats(tensor),
        _ => panic!("expected scores on the host"),
    }
}

fn assert_close(got: &[f32], expected: &[f32], atol: f32, rtol: f32) {
    assert_eq!(got.len(), expected.len());
    for (idx, (g, e)) in got.iter().zip(expected.iter()).enumerate() {
        let diff = (g - e).abs();
        let tol = atol + rtol * e.abs().max(g.abs());
        assert!(
            diff <= tol,
            "mismatch at {idx}: got={g} expected={e} diff={diff} tol={tol}"
        );
    }
}

fn run_case(dtype: DType) {
    let q = Numbers::new(&[1.0, 2.0, 3.0, 4.0], dtype);
    let k = Numbers::new(
        &[
            1.0, 0.0, 0.0, 0.0, // dot=1
            0.0, 1.0, 1.0, 0.0, // dot=5
            1.0, 1.0, 1.0, 1.0, // dot=10
        ],
        dtype,
    );
    let out = qk_scores(&q.tensor(&[1, 1, 4]), &k.tensor(&[1, 1, 3, 4]), 0.5).ok().unwrap();
    let (out, dims) = on_host(out);
    assert_eq!(dims, vec![1, 1, 3]);
    assert_close(&out, &[0.5, 2.5, 5.0], 1e-3, 1e-3);
}

fn run_weighted_sum_case(dtype: DType) {
    let attn = Numbers::new(&[0.2, 0.3, 0.5], DType::F32);
    let v = Numbers::new(&[1.0, 2.0, 3.0, 4.0, 5.0, 6.0], dtype);
    let out =
        attn_weighted_sum(&attn.tensor(&[1, 1, 3]), &v.tensor(&[1, 1, 3, 2])).ok().unwrap();
    let (out, dims) = on_host(out);
    assert_eq!(dims, vec![1, 1, 2]);
    // 0.2*[1,2] + 0.3*[3,4] + 0.5*[5,6] = [3.6, 4.6]
    assert_close(&out, &[3.6, 4.6], 1e-3, 1e-3);
}

#[test]
fn qk_scores_cpu_all_dtypes() {
    run_case(DType::F32);
    run_case(DType::F16);
    run_case(DType::BF16);
    run_weighted_sum_case(DType::F32);
    run_weighted_sum_case(DType::F16);
    run_weighted_sum_case(DType::BF16);
}

#[test]
fn kv_attn_qk_scores_cpu_all_dtypes() {
    for dtype in [DType::F32, DType::F16, DType::BF16] {
        run_case(dtype);
        run_weighted_sum_case(dtype);
    }
}

struct TurboCase {
    q: Numbers,
    codes: Numbers,
    scales: Numbers,
    pair_signs: Numbers,
    residual_signs: Numbers,
    residual_scales: Numbers,
}

const TURBO_Q: [f32; 8] = [1.0, 2.0, 3.0, 4.0, 4.0, 3.0, 2.0, 1.0];
const TURBO_CODES: [u8; 8] = [6, 3, 5, 2, 1, 4, 0, 6];
const TURBO_SCALES: [f32; 4] = [0.5, 0.25, 0.75, 0.4];
const TURBO_PAIR_SIGNS: [f32; 2] = [1.0, -1.0];
const TURBO_RESIDUAL_SIGNS: [u8; 8] = [1, 0, 1, 0, 0, 1, 0, 1];
const TURBO_RESIDUAL_SCALES: [f32; 4] = [0.1, 0.05, 0.2, 0.07];

fn turbo_case(scales: DType) -> TurboCase {
    TurboCase {
        q: Numbers::new(&TURBO_Q, DType::F32),
        codes: Numbers::U8(TURBO_CODES.to_vec()),
        scales: Numbers::new(&TURBO_SCALES, scales),
        pair_signs: Numbers::new(&TURBO_PAIR_SIGNS, DType::F32),
        residual_signs: Numbers::U8(TURBO_RESIDUAL_SIGNS.to_vec()),
        residual_scales: Numbers::new(&TURBO_RESIDUAL_SCALES, scales),
    }
}

fn turbo_scores(case: &TurboCase) -> Vec<f32> {
    let (out, dims) = turbo_on_host(qk_scores_turboquant(
        &case.q.tensor(&[1, 2, 4]),
        &case.codes.tensor(&[2, 4]),
        &case.scales.tensor(&[2, 2]),
        &case.pair_signs.tensor(&[2]),
        Some(&case.residual_signs.tensor(&[2, 4])),
        Some(&case.residual_scales.tensor(&[2, 2])),
        1,
        2,
        2,
        4,
        2,
        TurboQuantKind::Turbo3,
        0.5,
    ));
    assert_eq!(dims, vec![1, 2, 2]);
    out
}

fn turbo_shape() -> TurboShape {
    TurboShape {
        heads: Heads {
            batch: 1,
            full_heads: 2,
            kv_heads: 1,
            repeat_factor: 2,
            tokens: 2,
            head_dim: 4,
        },
        subvector_dim: 2,
        scale_block_dim: 2,
        kind: TurboQuantKind::Turbo3,
    }
}

fn turbo_reference() -> Vec<f32> {
    let keys = TurboKeys::<Ieee> {
        codes: &TURBO_CODES,
        scales: &TURBO_SCALES,
        residual: Some((&TURBO_RESIDUAL_SIGNS, &TURBO_RESIDUAL_SCALES)),
    };
    cpu_qk_scores_turboquant_impl::<Ieee>(
        &TURBO_Q,
        &keys,
        &TURBO_PAIR_SIGNS,
        &turbo_shape(),
        0.5,
    )
}

fn pack_values(values: &[u8], bits_per_value: usize) -> Vec<u8> {
    let total_bits = values.len() * bits_per_value;
    let mut out = vec![0u8; (total_bits + 7) / 8];
    let mask = (1u16 << bits_per_value) - 1;
    let mut bit_cursor = 0usize;
    for &value in values {
        let byte_idx = bit_cursor / 8;
        let bit_offset = bit_cursor % 8;
        let val = u16::from(value) & mask;
        out[byte_idx] |= (val << bit_offset) as u8;
        if bit_offset + bits_per_value > 8 {
            out[byte_idx + 1] |= (val >> (8 - bit_offset)) as u8;
        }
        bit_cursor += bits_per_value;
    }
    out
}

#[test]
fn qk_scores_turboquant_cpu_matches_reference() {
    let out = turbo_scores(&turbo_case(DType::F32));
    assert_close(&out, &turbo_reference(), 1e-5, 1e-5);
}

#[test]
fn qk_scores_turboquant_packed_cpu_matches_reference() {
    let case = turbo_case(DType::F32);
    let packed_codes = Numbers::U8(pack_values(&TURBO_CODES, 3));
    let packed_residual_signs = Numbers::U8(pack_values(&TURBO_RESIDUAL_SIGNS, 1));
    let (out, _) = turbo_on_host(qk_scores_turboquant_packed(
        &case.q.tensor(&[1, 2, 4]),
        &packed_codes.tensor(&[3]),
        &case.scales.tensor(&[2, 2]),
        &case.pair_signs.tensor(&[2]),
        Some(&packed_residual_signs.tensor(&[1])),
        Some(&case.residual_scales.tensor(&[2, 2])),
        1,
        2,
        2,
        4,
        2,
        2,
        3,
        TurboQuantKind::Turbo3,
        0.5,
    ));
    assert_close(&out, &turbo_reference(), 1e-5, 1e-5);
}

#[test]
fn qk_scores_turboquant_cpu_accepts_f16_scales() {
    let expected = turbo_scores(&turbo_case(DType::F32));
    let got = turbo_scores(&turbo_case(DType::F16));
    assert_close(&got, &expected, 1e-3, 1e-3);
}

#[test]
fn turboquant_scores_by_hand() {
    // One head, one token, no residual: the query [2, 0] turned by 45 degrees is
    // [2, -2] / sqrt(2) for a positive sign, and the codes [3, 1] of Turbo3 stand for [0, -2].
    let q = Numbers::new(&[2.0, 0.0], DType::F32);
    let codes = Numbers::U8(vec![3, 1]);
    let scales = Numbers::new(&[0.5], DType::F32);
    let signs = Numbers::new(&[1.0], DType::F32);
    let (out, _) = turbo_on_host(qk_scores_turboquant(
        &q.tensor(&[1, 1, 2]),
        &codes.tensor(&[1, 2]),
        &scales.tensor(&[1, 1]),
        &signs.tensor(&[1]),
        None,
        None,
        1,
        1,
        1,
        2,
        2,
        TurboQuantKind::Turbo3,
        3.0,
    ));
    assert_close(&out, &[3.0 * 2.0 * std::f32::consts::FRAC_1_SQRT_2], 1e-6, 1e-6);
    // With Turbo4 the same codes stand for [-4, -6].
    let (out, _) = turbo_on_host(qk_scores_turboquant(
        &q.tensor(&[1, 1, 2]),
        &codes.tensor(&[1, 2]),
        &scales.tensor(&[1, 1]),
        &signs.tensor(&[1]),
        None,
        None,
        1,
        1,
        1,
        2,
        2,
        TurboQuantKind::Turbo4,
        1.0,
    ));
    let expected = 0.5 * (2.0 * -4.0 + -2.0 * -6.0) * std::f32::consts::FRAC_1_SQRT_2;
    assert_close(&out, &[expected], 1e-6, 1e-6);
}

#[test]
fn turboquant_reads_strided_tensors() {
    // The codes are stored transposed: column by column.
    let case = turbo_case(DType::F32);
    let mut transposed = vec![0u8; 8];
    for row in 0..2 {
        for col in 0..4 {
            transposed[col * 2 + row] = TURBO_CODES[row * 4 + col];
        }
    }
    let codes = Numbers::U8(transposed);
    let (out, _) = turbo_on_host(qk_scores_turboquant(
        &case.q.tensor(&[1, 2, 4]),
        &codes.strided(&[2, 4], &[1, 2]),
        &case.scales.tensor(&[2, 2]),
        &case.pair_signs.tensor(&[2]),
        Some(&case.residual_signs.tensor(&[2, 4])),
        Some(&case.residual_scales.tensor(&[2, 2])),
        1,
        2,
        2,
        4,
        2,
        TurboQuantKind::Turbo3,
        0.5,
    ));
    assert_close(&out, &turbo_reference(), 1e-6, 1e-6);
}

#[test]
fn turboquant_packed_with_blocks_of_two_subvectors() {
    // One scale for the whole key, in a block of two subvectors.
    let q = Numbers::new(&[1.0, 2.0, 3.0, 4.0], DType::F32);
    let codes = [6u8, 3, 5, 2];
    let packed = Numbers::U8(pack_values(&codes, 4));
    let plain = Numbers::U8(codes.to_vec());
    let one_scale = Numbers::new(&[0.5], DType::F32);
    let two_scales = Numbers::new(&[0.5, 0.5], DType::F32);
    let signs = Numbers::new(&TURBO_PAIR_SIGNS, DType::F32);
    let (packed_out, _) = turbo_on_host(qk_scores_turboquant_packed(
        &q.tensor(&[1, 1, 4]),
        &packed.tensor(&[2]),
        &one_scale.tensor(&[1, 1]),
        &signs.tensor(&[2]),
        None,
        None,
        1,
        1,
        1,
        4,
        2,
        4,
        4,
        TurboQuantKind::Turbo4,
        1.0,
    ));
    let (plain_out, _) = turbo_on_host(qk_scores_turboquant(
        &q.tensor(&[1, 1, 4]),
        &plain.tensor(&[1, 4]),
        &two_scales.tensor(&[1, 2]),
        &signs.tensor(&[2]),
        None,
        None,
        1,
        1,
        1,
        4,
        2,
        TurboQuantKind::Turbo4,
        1.0,
    ));
    assert_eq!(packed_out, plain_out);
}

#[test]
fn turboquant_reads_bytes_and_asks_for_help_with_other_queries() {
    let case = turbo_case(DType::F32);
    let run = |q: &Tensor<Ieee>| {
        qk_scores_turboquant(
            q,
            &case.codes.tensor(&[2, 4]),
            &case.scales.tensor(&[2, 2]),
            &case.pair_signs.tensor(&[2]),
            None,
            None,
            1,
            2,
            2,
            4,
            2,
            TurboQuantKind::Turbo3,
            0.5,
        )
    };
    let (numbers, _) = turbo_on_host(run(&case.q.tensor(&[1, 2, 4])));
    let byte_query = Numbers::U8(vec![1, 2, 3, 4, 4, 3, 2, 1]);
    let (of_bytes, _) = turbo_on_host(run(&byte_query.tensor(&[1, 2, 4])));
    assert_eq!(numbers, of_bytes);
    assert!(matches!(run(&other(DType::F64, &[1, 2, 4])), Ok(TurboOutcome::CastQuery)));

    let on_cuda = qk_scores_turboquant(
        &cuda(DType::F32, &[1, 2, 4]),
        &cuda(DType::U8, &[2, 4]),
        &cuda(DType::F32, &[2, 2]),
        &cuda(DType::F32, &[2]),
        None,
        None,
        1,
        2,
        2,
        4,
        2,
        TurboQuantKind::Turbo3,
        0.5,
    );
    assert!(matches!(on_cuda, Ok(TurboOutcome::MoveToHost)));
}

/// The numbers of one TurboQuant call, to be changed one at a time.
#[derive(Clone, Copy)]
struct Numbered {
    kv_heads: usize,
    repeat_factor: usize,
    tokens: usize,
    head_dim: usize,
    subvector_dim: usize,
    scale_block_dim: usize,
    code_bits: usize,
}

const NUMBERED: Numbered = Numbered {
    kv_heads: 1,
    repeat_factor: 2,
    tokens: 2,
    head_dim: 4,
    subvector_dim: 2,
    scale_block_dim: 2,
    code_bits: 3,
};

fn turbo_error(n: Numbered) -> Option<TurboError> {
    let case = turbo_case(DType::F32);
    let codes = Numbers::U8(pack_values(&TURBO_CODES, 3));
    qk_scores_turboquant_packed(
        &case.q.tensor(&[1, 2, 4]),
        &codes.tensor(&[3]),
        &case.scales.tensor(&[2, 2]),
        &case.pair_signs.tensor(&[2]),
        None,
        None,
        n.kv_heads,
        n.repeat_factor,
        n.tokens,
        n.head_dim,
        n.subvector_dim,
        n.scale_block_dim,
        n.code_bits,
        TurboQuantKind::Turbo3,
        1.0,
    )
    .err()
}

#[test]
fn turboquant_refuses_wrong_numbers() {
    let n = NUMBERED;
    assert_eq!(turbo_error(n), None);
    assert_eq!(
        turbo_error(Numbered { repeat_factor: 0, ..n }),
        Some(TurboError::RepeatFactorZero)
    );
    assert_eq!(turbo_error(Numbered { head_dim: 0, ..n }), Some(TurboError::HeadDimZero));
    assert_eq!(
        turbo_error(Numbered { subvector_dim: 0, ..n }),
        Some(TurboError::SubvectorDimZero)
    );
    assert_eq!(
        turbo_error(Numbered { scale_block_dim: 0, ..n }),
        Some(TurboError::ScaleBlockDimZero)
    );
    assert_eq!(turbo_error(Numbered { code_bits: 0, ..n }), Some(TurboError::CodeBits(0)));
    assert_eq!(turbo_error(Numbered { code_bits: 9, ..n }), Some(TurboError::CodeBits(9)));
    assert_eq!(turbo_error(Numbered { head_dim: 3, ..n }), Some(TurboError::OddHeadDim(3)));
    assert_eq!(
        turbo_error(Numbered { subvector_dim: 3, ..n }),
        Some(TurboError::SubvectorSplit { head_dim: 4, subvector_dim: 3 })
    );
    assert_eq!(
        turbo_error(Numbered { subvector_dim: 1, scale_block_dim: 3, ..n }),
        Some(TurboError::ScaleBlockSplit { head_dim: 4, scale_block_dim: 3 })
    );
    assert_eq!(
        turbo_error(Numbered { subvector_dim: 4, ..n }),
        Some(TurboError::SubvectorAcrossBlocks { scale_block_dim: 2, subvector_dim: 4 })
    );
    assert_eq!(
        turbo_error(Numbered { head_dim: 2, ..n }),
        Some(TurboError::QueryHeadDim { got: 4, expected: 2 })
    );
    assert_eq!(
        turbo_error(Numbered { kv_heads: 2, ..n }),
        Some(TurboError::HeadConfig { full_heads: 2, kv_heads: 2, repeat_factor: 2 })
    );
    assert_eq!(
        turbo_error(Numbered { code_bits: 4, ..n }),
        Some(TurboError::CodesSize { got: 3, expected: 4 })
    );
    assert_eq!(
        turbo_error(Numbered { scale_block_dim: 4, ..n }),
        Some(TurboError::ScalesShape { rows: 2, blocks: 1 })
    );
}

#[test]
fn turboquant_refuses_wrong_tensors() {
    let case = turbo_case(DType::F32);
    let halves = turbo_case(DType::F16);
    let q = case.q.tensor(&[1, 2, 4]);
    let codes = case.codes.tensor(&[2, 4]);
    let scales = case.scales.tensor(&[2, 2]);
    let signs = case.pair_signs.tensor(&[2]);
    let bits = case.residual_signs.tensor(&[2, 4]);
    let rscales = case.residual_scales.tensor(&[2, 2]);
    let run = |q: &Tensor<Ieee>,
               codes: &Tensor<Ieee>,
               scales: &Tensor<Ieee>,
               signs: &Tensor<Ieee>,
               bits: Option<&Tensor<Ieee>>,
               rscales: Option<&Tensor<Ieee>>| {
        qk_scores_turboquant(
            q,
            codes,
            scales,
            signs,
            bits,
            rscales,
            1,
            2,
            2,
            4,
            2,
            TurboQuantKind::Turbo3,
            1.0,
        )
        .err()
    };
    assert_eq!(
        run(&q, &codes, &scales, &signs, Some(&bits), None),
        Some(TurboError::UnpairedResidual)
    );
    assert_eq!(
        run(&case.q.tensor(&[2, 4]), &codes, &scales, &signs, None, None),
        Some(TurboError::QueryRank)
    );
    assert_eq!(
        run(&q, &case.codes.tensor(&[4, 2]), &scales, &signs, None, None),
        Some(TurboError::CodesShape { rows: 2, head_dim: 4 })
    );
    assert_eq!(
        run(&q, &other(DType::I32, &[2, 4]), &scales, &signs, None, None),
        Some(TurboError::CodesDType(DType::I32))
    );
    assert_eq!(
        run(&q, &codes, &case.scales.tensor(&[4]), &signs, None, None),
        Some(TurboError::ScalesShape { rows: 2, blocks: 2 })
    );
    assert_eq!(
        run(&q, &codes, &other(DType::F64, &[2, 2]), &signs, None, None),
        Some(TurboError::ScalesDType(DType::F64))
    );
    assert_eq!(
        run(&q, &codes, &scales, &case.pair_signs.tensor(&[1, 2]), None, None),
        Some(TurboError::PairSignsShape { pairs: 2 })
    );
    let half_signs = Numbers::new(&TURBO_PAIR_SIGNS, DType::F16);
    assert_eq!(
        run(&q, &codes, &scales, &half_signs.tensor(&[2]), None, None),
        Some(TurboError::PairSignsDType(DType::F16))
    );
    assert_eq!(
        run(&q, &cuda(DType::U8, &[2, 4]), &scales, &signs, None, None),
        Some(TurboError::DeviceMismatch)
    );
    assert_eq!(
        run(
            &q,
            &codes,
            &scales,
            &signs,
            Some(&case.residual_signs.tensor(&[8])),
            Some(&rscales)
        ),
        Some(TurboError::ResidualSignsShape { rows: 2, head_dim: 4 })
    );
    assert_eq!(
        run(&q, &codes, &scales, &signs, Some(&other(DType::I64, &[2, 4])), Some(&rscales)),
        Some(TurboError::ResidualSignsDType(DType::I64))
    );
    assert_eq!(
        run(
            &q,
            &codes,
            &scales,
            &signs,
            Some(&bits),
            Some(&case.residual_scales.tensor(&[4, 1]))
        ),
        Some(TurboError::ResidualScalesShape { rows: 2, blocks: 2 })
    );
    assert_eq!(
        run(&q, &codes, &scales, &signs, Some(&bits), Some(&other(DType::F64, &[2, 2]))),
        Some(TurboError::ResidualScalesDType(DType::F64))
    );
    assert_eq!(
        run(
            &q,
            &codes,
            &scales,
            &signs,
            Some(&bits),
            Some(&halves.residual_scales.tensor(&[2, 2]))
        ),
        Some(TurboError::ResidualScalesDTypeMismatch {
            scales: DType::F32,
            residual_scales: DType::F16
        })
    );
    assert_eq!(
        run(&q, &codes, &scales, &signs, Some(&cuda(DType::U8, &[2, 4])), Some(&rscales)),
        Some(TurboError::ResidualDeviceMismatch)
    );
    let packed = Numbers::U8(pack_values(&TURBO_CODES, 3));
    let sign_bits = Numbers::U8(vec![0, 0]);
    let wrong_size = qk_scores_turboquant_packed(
        &q,
        &packed.tensor(&[3]),
        &scales,
        &signs,
        Some(&sign_bits.tensor(&[2])),
        Some(&rscales),
        1,
        2,
        2,
        4,
        2,
        2,
        3,
        TurboQuantKind::Turbo3,
        1.0,
    );
    assert_eq!(
        wrong_size.err(),
        Some(TurboError::ResidualSignsSize { got: 2, expected: 1 })
    );
}

#[test]
fn values_are_unpacked_lowest_bit_first() {
    assert_eq!(unpack_packed_u8_values(&[0b1010_1101, 0b0000_0110], 3, 4), vec![5, 5, 2, 3]);
    assert_eq!(unpack_packed_u8_values(&[0xab, 0xcd], 8, 2), vec![0xab, 0xcd]);
    assert_eq!(unpack_packed_u8_values(&[0b1000_0001], 1, 8), vec![1, 0, 0, 0, 0, 0, 0, 1]);
    // Behind the end every bit is zero.
    assert_eq!(unpack_packed_u8_values(&[0xff], 3, 4), vec![7, 7, 3, 0]);
    for bits in 1..=8usize {
        let values: Vec<u8> = (0..40u32).map(|i| ((i * 37) & ((1 << bits) - 1)) as u8).collect();
        assert_eq!(unpack_packed_u8_values(&pack_values(&values, bits), bits, 40), values);
    }
}

#[test]
fn rows_share_heads_by_group() {
    let heads = Heads {
        batch: 2,
        full_heads: 6,
        kv_heads: 3,
        repeat_factor: 2,
        tokens: 5,
        head_dim: 8,
    };
    let rows: Vec<usize> = (0..12).map(|query| heads.first_cache_row(query)).collect();
    assert_eq!(rows, vec![0, 0, 5, 5, 10, 10, 15, 15, 20, 20, 25, 25]);
    // With a cached head for every query head the rows come in order.
    let heads = Heads { kv_heads: 6, repeat_factor: 1, ..heads };
    let rows: Vec<usize> = (0..12).map(|query| heads.first_cache_row(query)).collect();
    assert_eq!(rows, (0..12).map(|query| query * 5).collect::<Vec<_>>());
}

#[test]
fn dense_attention_refuses_wrong_tensors() {
    let q = Numbers::new(&[1.0, 2.0, 3.0, 4.0], DType::F32);
    let k = Numbers::new(&[1.0; 12], DType::F32);
    let half_k = Numbers::new(&[1.0; 12], DType::F16);
    let q3 = q.tensor(&[1, 1, 4]);
    let k4 = k.tensor(&[1, 1, 3, 4]);
    let err = |q: &Tensor<Ieee>, k: &Tensor<Ieee>| qk_scores(q, k, 1.0).err();
    assert_eq!(err(&q3, &cuda(DType::F32, &[1, 1, 3, 4])), Some(DenseError::DeviceMismatch));
    assert_eq!(
        err(&q3, &half_k.tensor(&[1, 1, 3, 4])),
        Some(DenseError::DTypeMismatch { q: DType::F32, k: DType::F16 })
    );
    assert_eq!(err(&q.tensor(&[1, 4]), &k4), Some(DenseError::Ranks));
    assert_eq!(err(&q.tensor(&[1, 2, 2]), &k4), Some(DenseError::ShapeMismatch));
    assert_eq!(
        err(&other(DType::I64, &[1, 1, 4]), &other(DType::I64, &[1, 1, 3, 4])),
        Some(DenseError::DTypes)
    );
    assert_eq!(
        err(&q.strided(&[1, 2, 2], &[4, 1, 2]), &k.tensor(&[1, 2, 3, 2])),
        Some(DenseError::NotContiguous(DenseOperand::Q))
    );
    assert_eq!(
        err(&q3, &k.strided(&[1, 1, 3, 4], &[12, 12, 1, 3])),
        Some(DenseError::NotContiguous(DenseOperand::K))
    );
    assert_eq!(
        err(&cuda(DType::F32, &[1, 1, 4]), &cuda(DType::F32, &[1, 1, 3, 4])),
        Some(DenseError::NoCudaKernel)
    );

    let attn = Numbers::new(&[0.5; 6], DType::F32);
    let half_attn = Numbers::new(&[0.5; 6], DType::F16);
    let v = Numbers::new(&[1.0; 12], DType::F32);
    let err = |a: &Tensor<Ieee>, v: &Tensor<Ieee>| attn_weighted_sum(a, v).err();
    assert_eq!(
        err(&half_attn.tensor(&[1, 2, 3]), &v.tensor(&[1, 2, 3, 2])),
        Some(DenseError::AttnDType(DType::F16))
    );
    assert_eq!(
        err(&attn.tensor(&[1, 2, 3]), &cuda(DType::F32, &[1, 2, 3, 2])),
        Some(DenseError::DeviceMismatch)
    );
    assert_eq!(err(&attn.tensor(&[6]), &v.tensor(&[1, 2, 3, 2])), Some(DenseError::Ranks));
    assert_eq!(
        err(&attn.tensor(&[1, 3, 2]), &v.tensor(&[1, 2, 3, 2])),
        Some(DenseError::ShapeMismatch)
    );
    assert_eq!(
        err(&attn.tensor(&[1, 2, 3]), &other(DType::I64, &[1, 2, 3, 2])),
        Some(DenseError::DTypes)
    );
    assert_eq!(
        err(&attn.strided(&[1, 2, 3], &[6, 1, 2]), &v.tensor(&[1, 2, 3, 2])),
        Some(DenseError::NotContiguous(DenseOperand::AttnProbs))
    );
    assert_eq!(
        err(&attn.tensor(&[1, 2, 3]), &v.strided(&[1, 2, 3, 2], &[12, 6, 1, 3])),
        Some(DenseError::NotContiguous(DenseOperand::V))
    );
}

fn pack(
    x: &Tensor<Ieee>,
    head_dim: usize,
    kind: RowwiseQuantKind,
) -> (Vec<u8>, Vec<usize>, Vec<f32>) {
    match pack_rowwise_quantized(x, head_dim, kind, None) {
        Ok(PackOutcome::Host(out)) => {
            let (data, dims) = bytes(out.packed);
            let (scales, scale_dims) = floats(out.scales);
            assert_eq!(scale_dims, vec![dims[0]]);
            (data, dims, scales)
        }
        _ => panic!("expected packed rows on the host"),
    }
}

#[test]
fn int8_rows_by_hand() {
    // The largest magnitude of the first row becomes 127, and a row of zeros has the smallest
    // scale.
    let x = Numbers::new(&[1.27, -0.64, 0.0, 0.0, 0.0, 0.0], DType::F32);
    let (data, dims, scales) = pack(&x.tensor(&[2, 3]), 3, RowwiseQuantKind::Int8);
    assert_eq!(dims, vec![2, 3]);
    assert_eq!(data, vec![255, 64, 128, 128, 128, 128]);
    assert_close(&scales, &[0.01, 1e-8], 0.0, 1e-6);
}

#[test]
fn int4_rows_by_hand() {
    // Two columns share a byte, the even one in the low half; the last half is zero.
    let x = Numbers::new(&[0.7, -0.2, 0.1], DType::F32);
    let (data, dims, scales) = pack(&x.tensor(&[3]), 3, RowwiseQuantKind::Int4);
    assert_eq!(dims, vec![1, 2]);
    assert_eq!(data, vec![0xe7, 0x01]);
    assert_close(&scales, &[0.1], 0.0, 1e-6);
    assert_eq!(expected_packed_cols(3, RowwiseQuantKind::Int4), 2);
    assert_eq!(expected_packed_cols(3, RowwiseQuantKind::Int8), 3);
}

#[test]
fn packed_codes_are_read_back() {
    let values: Vec<f32> = (0..35).map(|i| ((i as f32) * 0.37).sin()).collect();
    for kind in [RowwiseQuantKind::Int8, RowwiseQuantKind::Int4] {
        for dtype in [DType::F32, DType::F16, DType::BF16] {
            let x = Numbers::new(&values, dtype);
            let wide: Vec<f32> = match &x {
                Numbers::F16(v) => v.iter().map(|a| a.to_f32()).collect(),
                Numbers::BF16(v) => v.iter().map(|a| a.to_f32()).collect(),
                _ => values.clone(),
            };
            let (data, _, scales) = pack(&x.tensor(&[5, 7]), 7, kind);
            let (low, high) = match kind {
                RowwiseQuantKind::Int8 => (-127.0, 127.0),
                RowwiseQuantKind::Int4 => (-8.0, 7.0),
            };
            for row in 0..5 {
                for col in 0..7 {
                    let expected =
                        (wide[row * 7 + col] / scales[row]).round().clamp(low, high) as i32;
                    assert_eq!(code_of(&data, row, col, 7, kind), expected);
                }
            }
        }
    }
}

#[test]
fn strided_rows_are_packed_in_row_major_order() {
    let x = Numbers::new(&[1.0, 4.0, 2.0, 5.0, 3.0, 6.0], DType::F32);
    let dense = Numbers::new(&[1.0, 2.0, 3.0, 4.0, 5.0, 6.0], DType::F32);
    let half_x = Numbers::new(&[1.0, 4.0, 2.0, 5.0, 3.0, 6.0], DType::BF16);
    for kind in [RowwiseQuantKind::Int8, RowwiseQuantKind::Int4] {
        let expected = pack(&dense.tensor(&[2, 3]), 3, kind);
        assert_eq!(pack(&x.strided(&[2, 3], &[1, 2]), 3, kind), expected);
        assert_eq!(pack(&half_x.strided(&[2, 3], &[1, 2]), 3, kind), expected);
    }
}

#[test]
fn packing_refuses_wrong_tensors() {
    let x = Numbers::new(&[1.0; 6], DType::F32);
    let kind = RowwiseQuantKind::Int8;
    let err = |x: &Tensor<Ieee>, d: usize| pack_rowwise_quantized(x, d, kind, None).err();
    assert_eq!(err(&x.tensor(&[2, 3]), 0), Some(PackError::HeadDimZero));
    assert_eq!(err(&x.tensor(&[]), 3), Some(PackError::Rank));
    assert_eq!(
        err(&x.tensor(&[2, 3]), 2),
        Some(PackError::LastDim { got: 3, expected: 2 })
    );
    assert_eq!(
        err(&x.strided(&[2, 3], &[1, 2]), 2),
        Some(PackError::LastDim { got: 3, expected: 2 })
    );
    assert_eq!(err(&other(DType::I32, &[2, 3]), 3), Some(PackError::XDType(DType::I32)));
    assert_eq!(
        err(&Numbers::U8(vec![0; 6]).strided(&[2, 3], &[1, 2]), 3),
        Some(PackError::XDType(DType::U8))
    );
    assert_eq!(err(&cuda(DType::F32, &[2, 3]), 3), Some(PackError::NoCudaKernel));
}

/// Keys `[1, 2, 3, 4]` of two cached heads and three tokens.
fn cached_numbers() -> Vec<f32> {
    (0..24).map(|i| ((i as f32) * 0.61).cos() * 2.0).collect()
}

/// The cache written out for four query heads, in groups of two.
fn written_out(data: &[u8], scales: &[f32], kind: RowwiseQuantKind) -> Vec<f32> {
    let mut dense = vec![0f32; 4 * 3 * 4];
    for head in 0..4 {
        for tok in 0..3 {
            let row = (head / 2) * 3 + tok;
            for col in 0..4 {
                let code = code_of(data, row, col, 4, kind) as f32;
                dense[(head * 3 + tok) * 4 + col] = code * scales[row];
            }
        }
    }
    dense
}

#[test]
fn packed_attention_is_attention_over_the_rows_written_out() {
    let cache = Numbers::new(&cached_numbers(), DType::F32);
    let q = Numbers::new(&(0..16).map(|i| (i as f32) * 0.25 - 1.5).collect::<Vec<_>>(), DType::F32);
    let attn =
        Numbers::new(&(0..12).map(|i| 0.1 + (i as f32) * 0.05).collect::<Vec<_>>(), DType::F32);
    for kind in [RowwiseQuantKind::Int8, RowwiseQuantKind::Int4] {
        let (data, dims, scales) = pack(&cache.tensor(&[1, 2, 3, 4]), 4, kind);
        let dense = Numbers::F32(written_out(&data, &scales, kind));
        let packed = Numbers::U8(data);
        let scales = Numbers::F32(scales);

        let (got, got_dims) = on_host(
            qk_scores_quantized_rowwise(
                &q.tensor(&[1, 4, 4]),
                &packed.tensor(&dims),
                &scales.tensor(&[6]),
                2,
                2,
                3,
                4,
                kind,
                0.5,
            )
            .ok()
            .unwrap(),
        );
        let (expected, expected_dims) = on_host(
            qk_scores(&q.tensor(&[1, 4, 4]), &dense.tensor(&[1, 4, 3, 4]), 0.5).ok().unwrap(),
        );
        assert_eq!(got, expected);
        assert_eq!(got_dims, expected_dims);

        let (got, got_dims) = on_host(
            attn_weighted_sum_quantized_rowwise(
                &attn.tensor(&[1, 4, 3]),
                &packed.tensor(&dims),
                &scales.tensor(&[6]),
                2,
                2,
                3,
                4,
                kind,
            )
            .ok()
            .unwrap(),
        );
        let (expected, expected_dims) = on_host(
            attn_weighted_sum(&attn.tensor(&[1, 4, 3]), &dense.tensor(&[1, 4, 3, 4]))
                .ok()
                .unwrap(),
        );
        assert_eq!(got, expected);
        assert_eq!(got_dims, expected_dims);
    }
}

#[test]
fn packed_attention_by_hand() {
    // One row [2, -3] with the scale 0.5, against the query [4, 1].
    let packed = Numbers::U8(vec![130, 125]);
    let scales = Numbers::new(&[0.5], DType::F16);
    for dtype in [DType::F32, DType::F16, DType::BF16] {
        let q = Numbers::new(&[4.0, 1.0], dtype);
        let (out, _) = on_host(
            qk_scores_quantized_rowwise(
                &q.tensor(&[1, 1, 2]),
                &packed.tensor(&[1, 2]),
                &scales.tensor(&[1]),
                1,
                1,
                1,
                2,
                RowwiseQuantKind::Int8,
                2.0,
            )
            .ok()
            .unwrap(),
        );
        assert_eq!(out, vec![5.0]);
    }
    // The nibbles 0x7 and 0x8 are 7 and -8.
    let attn = Numbers::new(&[0.5], DType::F32);
    let (out, dims) = on_host(
        attn_weighted_sum_quantized_rowwise(
            &attn.tensor(&[1, 1, 1]),
            &Numbers::U8(vec![0x87]).tensor(&[1, 1]),
            &scales.tensor(&[1]),
            1,
            1,
            1,
            2,
            RowwiseQuantKind::Int4,
        )
        .ok()
        .unwrap(),
    );
    assert_eq!(out, vec![1.75, -2.0]);
    assert_eq!(dims, vec![1, 1, 2]);
}

#[test]
fn packed_scores_refuse_wrong_tensors() {
    let q = Numbers::new(&[1.0; 16], DType::F32);
    let packed = Numbers::U8(vec![128; 24]);
    let scales = Numbers::new(&[1.0; 6], DType::F32);
    let kind = RowwiseQuantKind::Int8;
    let q3 = q.tensor(&[1, 4, 4]);
    let p2 = packed.tensor(&[6, 4]);
    let s1 = scales.tensor(&[6]);
    let err = |q: &Tensor<Ieee>,
               p: &Tensor<Ieee>,
               s: &Tensor<Ieee>,
               kv_heads: usize,
               repeat: usize,
               head_dim: usize| {
        qk_scores_quantized_rowwise(q, p, s, kv_heads, repeat, 3, head_dim, kind, 1.0).err()
    };
    assert_eq!(err(&q3, &p2, &s1, 2, 2, 4), None);
    assert_eq!(err(&q3, &p2, &s1, 2, 0, 4), Some(RowwiseError::RepeatFactorZero));
    assert_eq!(err(&q.tensor(&[16]), &p2, &s1, 2, 2, 4), Some(RowwiseError::FirstRank));
    assert_eq!(
        err(&q3, &p2, &s1, 2, 2, 8),
        Some(RowwiseError::HeadDim { got: 4, expected: 8 })
    );
    assert_eq!(
        err(&q3, &cuda(DType::U8, &[6, 4]), &s1, 2, 2, 4),
        Some(RowwiseError::DeviceMismatch)
    );
    assert_eq!(
        err(&q3, &p2, &s1, 2, 3, 4),
        Some(RowwiseError::HeadSplit { full_heads: 4, repeat_factor: 3 })
    );
    assert_eq!(
        err(&q3, &p2, &s1, 2, 4, 4),
        Some(RowwiseError::KvHeads { derived: 1, expected: 2 })
    );
    assert_eq!(
        err(&q3, &packed.tensor(&[24]), &s1, 2, 2, 4),
        Some(RowwiseError::PackedRank)
    );
    assert_eq!(
        err(&q3, &packed.tensor(&[4, 6]), &s1, 2, 2, 4),
        Some(RowwiseError::PackedShape { rows: 6, cols: 4 })
    );
    assert_eq!(
        err(&q3, &p2, &scales.tensor(&[6, 1]), 2, 2, 4),
        Some(RowwiseError::ScalesShape { rows: 6 })
    );
    assert_eq!(
        err(&q3, &other(DType::I32, &[6, 4]), &s1, 2, 2, 4),
        Some(RowwiseError::PackedDType(DType::I32))
    );
    assert_eq!(
        err(&q3, &packed.strided(&[6, 4], &[1, 6]), &s1, 2, 2, 4),
        Some(RowwiseError::NotContiguous(RowwiseOperand::Packed))
    );
    let bf16_scales = Numbers::new(&[1.0; 6], DType::BF16);
    assert_eq!(
        err(&q3, &p2, &bf16_scales.tensor(&[6]), 2, 2, 4),
        Some(RowwiseError::ScalesDType(DType::BF16))
    );
    let wide_scales = Numbers::new(&[1.0; 12], DType::F32);
    assert_eq!(
        err(&q3, &p2, &wide_scales.strided(&[6], &[2]), 2, 2, 4),
        Some(RowwiseError::NotContiguous(RowwiseOperand::Scales))
    );
    assert_eq!(
        err(&other(DType::I64, &[1, 4, 4]), &p2, &s1, 2, 2, 4),
        Some(RowwiseError::FirstDType(DType::I64))
    );
    assert_eq!(
        err(&q.strided(&[1, 4, 4], &[16, 1, 4]), &p2, &s1, 2, 2, 4),
        Some(RowwiseError::NotContiguous(RowwiseOperand::Q))
    );
    assert_eq!(
        err(
            &cuda(DType::F32, &[1, 4, 4]),
            &cuda(DType::U8, &[6, 4]),
            &cuda(DType::F32, &[6]),
            2,
            2,
            4
        ),
        Some(RowwiseError::NoCudaKernel)
    );
}

#[test]
fn packed_sums_refuse_wrong_tensors() {
    let attn = Numbers::new(&[0.25; 12], DType::F32);
    let packed = Numbers::U8(vec![128; 24]);
    let scales = Numbers::new(&[1.0; 6], DType::F32);
    let kind = RowwiseQuantKind::Int8;
    let a3 = attn.tensor(&[1, 4, 3]);
    let p2 = packed.tensor(&[6, 4]);
    let s1 = scales.tensor(&[6]);
    let err = |a: &Tensor<Ieee>, kv_heads: usize, repeat: usize, tokens: usize| {
        attn_weighted_sum_quantized_rowwise(a, &p2, &s1, kv_heads, repeat, tokens, 4, kind).err()
    };
    assert_eq!(err(&a3, 2, 2, 3), None);
    assert_eq!(err(&a3, 2, 0, 3), Some(RowwiseError::RepeatFactorZero));
    let half = Numbers::new(&[0.25; 12], DType::F16);
    assert_eq!(
        err(&half.tensor(&[1, 4, 3]), 2, 2, 3),
        Some(RowwiseError::FirstDType(DType::F16))
    );
    assert_eq!(err(&attn.tensor(&[12]), 2, 2, 3), Some(RowwiseError::FirstRank));
    assert_eq!(
        err(&a3, 2, 2, 4),
        Some(RowwiseError::Tokens { got: 3, expected: 4 })
    );
    assert_eq!(
        err(&a3, 2, 3, 3),
        Some(RowwiseError::HeadConfig { full_heads: 4, kv_heads: 2, repeat_factor: 3 })
    );
    assert_eq!(
        err(&attn.strided(&[1, 4, 3], &[12, 1, 4]), 2, 2, 3),
        Some(RowwiseError::NotContiguous(RowwiseOperand::AttnProbs))
    );
}

#[test]
fn quantized_products_are_planned() {
    let q = Numbers::new(&[1.0; 8], DType::F32);
    let half_q = Numbers::new(&[1.0; 8], DType::F16);
    let k = QuantizedInfo { dims: vec![3, 4], device: Device::Cpu };
    assert_eq!(
        qk_scores_quantized_k(&q.tensor(&[2, 4]), &k, 1.0),
        Ok(QuantizedProduct { cast_first: false, rescale: false, rows: 2, cols: 3 })
    );
    assert_eq!(
        qk_scores_quantized_k(&half_q.tensor(&[2, 4]), &k, 0.5),
        Ok(QuantizedProduct { cast_first: true, rescale: true, rows: 2, cols: 3 })
    );
    assert_eq!(
        qk_scores_quantized_k(&q.tensor(&[1, 2, 4]), &k, 1.0),
        Err(QuantizedError::FirstRank)
    );
    let vector = QuantizedInfo { dims: vec![4], device: Device::Cpu };
    assert_eq!(
        qk_scores_quantized_k(&q.tensor(&[2, 4]), &vector, 1.0),
        Err(QuantizedError::QuantizedRank)
    );
    let elsewhere = QuantizedInfo { dims: vec![3, 4], device: Device::Metal(0) };
    assert_eq!(
        attn_weighted_sum_quantized_vt(&q.tensor(&[2, 4]), &elsewhere),
        Err(QuantizedError::DeviceMismatch)
    );
    assert_eq!(
        attn_weighted_sum_quantized_vt(&half_q.tensor(&[2, 4]), &k),
        Ok(QuantizedProduct { cast_first: true, rescale: false, rows: 2, cols: 3 })
    );
}

#[test]
fn weighted_sums_of_quantized_values_are_scores_with_scale_one() {
    let k = QuantizedInfo { dims: vec![3, 4], device: Device::Cpu };
    for dtype in [DType::F32, DType::F16, DType::BF16] {
        let q = Numbers::new(&[1.0; 8], dtype);
        for dims in [vec![2, 4], vec![8]] {
            assert_eq!(
                attn_weighted_sum_quantized_vt(&q.tensor(&dims), &k),
                qk_scores_quantized_k(&q.tensor(&dims), &k, 1.0)
            );
        }
    }
}

/// Two keys of four coordinates, packed, with one scale for each and optional residuals.
fn packed_scores(subvector_dim: usize, scales: &Numbers, residual: Option<&Numbers>) -> Vec<f32> {
    let case = turbo_case(DType::F32);
    let codes = Numbers::U8(pack_values(&TURBO_CODES, 3));
    let bits = Numbers::U8(pack_values(&TURBO_RESIDUAL_SIGNS, 1));
    let bits = bits.tensor(&[1]);
    let residual_scales = residual.map(|numbers| numbers.tensor(&[2, 1]));
    let (out, _) = turbo_on_host(qk_scores_turboquant_packed(
        &case.q.tensor(&[1, 2, 4]),
        &codes.tensor(&[3]),
        &scales.tensor(&[2, 1]),
        &case.pair_signs.tensor(&[2]),
        residual_scales.as_ref().map(|_| &bits),
        residual_scales.as_ref(),
        1,
        2,
        2,
        4,
        subvector_dim,
        4,
        3,
        TurboQuantKind::Turbo3,
        0.5,
    ));
    out
}

#[test]
fn subvectors_change_no_packed_score() {
    let scales = Numbers::new(&[0.5, 0.3], DType::F32);
    let residual = Numbers::new(&[0.1, 0.2], DType::F32);
    let expected = packed_scores(4, &scales, Some(&residual));
    for subvector_dim in [1, 2] {
        assert_eq!(packed_scores(subvector_dim, &scales, Some(&residual)), expected);
    }
}

#[test]
fn half_scales_score_as_their_values_in_single_precision() {
    let half = [f16::from_f32(0.3), f16::from_f32(-0.7)];
    let wide = Numbers::F32(half.iter().map(|s| s.to_f32()).collect());
    let half = Numbers::F16(half.to_vec());
    assert_eq!(packed_scores(2, &half, None), packed_scores(2, &wide, None));
    assert_eq!(packed_scores(2, &half, Some(&half)), packed_scores(2, &wide, Some(&wide)));
}

#[test]
fn residuals_of_zero_change_no_score() {
    let scales = Numbers::new(&[0.5, -0.3], DType::F32);
    let zeros = Numbers::new(&[0.0, 0.0], DType::F32);
    assert_eq!(packed_scores(2, &scales, Some(&zeros)), packed_scores(2, &scales, None));
}

#[test]
fn negated_rows_have_mirrored_bytes() {
    let values: Vec<f32> = (0..21).map(|i| ((i as f32) * 0.83).sin() * 3.0).collect();
    let negated: Vec<f32> = values.iter().map(|v| -v).collect();
    let kind = RowwiseQuantKind::Int8;
    let (up, _, scales) = pack(&Numbers::F32(values).tensor(&[3, 7]), 7, kind);
    let (down, _, negated_scales) = pack(&Numbers::F32(negated).tensor(&[3, 7]), 7, kind);
    assert_eq!(scales, negated_scales);
    for (a, b) in up.iter().zip(&down) {
        assert!(*a >= 1);
        assert_eq!(u16::from(*a) + u16::from(*b), 256);
    }
}

#[test]
fn half_scales_of_packed_rows_read_as_single_scales() {
    let cache = Numbers::new(&cached_numbers(), DType::F32);
    let q = Numbers::new(&(0..16).map(|i| (i as f32) * 0.3 - 2.0).collect::<Vec<_>>(), DType::F16);
    let attn =
        Numbers::new(&(0..12).map(|i| 0.2 + (i as f32) * 0.03).collect::<Vec<_>>(), DType::F32);
    for kind in [RowwiseQuantKind::Int8, RowwiseQuantKind::Int4] {
        let (data, dims, scales) = pack(&cache.tensor(&[1, 2, 3, 4]), 4, kind);
        let packed = Numbers::U8(data);
        let half: Vec<f16> = scales.iter().map(|s| f16::from_f32(*s)).collect();
        let wide = Numbers::F32(half.iter().map(|s| s.to_f32()).collect());
        let half = Numbers::F16(half);
        let scored = |scales: &Numbers| {
            let result = qk_scores_quantized_rowwise(
                &q.tensor(&[1, 4, 4]),
                &packed.tensor(&dims),
                &scales.tensor(&[6]),
                2,
                2,
                3,
                4,
                kind,
                0.5,
            );
            on_host(result.ok().unwrap())
        };
        assert_eq!(scored(&half), scored(&wide));
        let summed = |scales: &Numbers| {
            let result = attn_weighted_sum_quantized_rowwise(
                &attn.tensor(&[1, 4, 3]),
                &packed.tensor(&dims),
                &scales.tensor(&[6]),
                2,
                2,
                3,
                4,
                kind,
            );
            on_host(result.ok().unwrap())
        };
        assert_eq!(summed(&half), summed(&wide));
    }
}

#[test]
fn rows_of_zeros_get_the_smallest_scale_and_zeros() {
    for dtype in [DType::F32, DType::F16, DType::BF16] {
        let x = Numbers::new(&[0.0, -0.0, 0.0, 2.0, -1.0, 0.5, -0.0, -0.0, -0.0], dtype);
        for kind in [RowwiseQuantKind::Int8, RowwiseQuantKind::Int4] {
            let (data, _, scales) = pack(&x.tensor(&[3, 3]), 3, kind);
            for row in [0, 2] {
                assert_eq!(scales[row], 1e-8);
                for col in 0..3 {
                    assert_eq!(code_of(&data, row, col, 3, kind), 0);
                }
            }
            let largest = if kind == RowwiseQuantKind::Int8 { 127.0 } else { 7.0 };
            assert_eq!(scales[1], 2.0 / largest);
        }
        let (data, _, _) = pack(&x.tensor(&[3, 3]), 3, RowwiseQuantKind::Int8);
        assert_eq!(data[0..3], [128, 128, 128]);
        let (data, _, _) = pack(&x.tensor(&[3, 3]), 3, RowwiseQuantKind::Int4);
        assert_eq!(data[0..2], [0, 0]);
    }
}

#[test]
fn packed_numbers_come_back_within_half_a_step() {
    let values: Vec<f32> = (0..60).map(|i| ((i * i) as f32 * 0.71).sin() * (i as f32)).collect();
    let x = Numbers::F32(values.clone());
    for kind in [RowwiseQuantKind::Int8, RowwiseQuantKind::Int4] {
        let (data, _, scales) = pack(&x.tensor(&[5, 12]), 12, kind);
        for row in 0..5 {
            for col in 0..12 {
                let back = code_of(&data, row, col, 12, kind) as f32 * scales[row];
                let gap = (values[row * 12 + col] - back).abs();
                assert!(gap <= 0.501 * scales[row], "{gap} over {}", scales[row]);
            }
        }
    }
}

fn rowwise_shape(tokens: usize, head_dim: usize) -> RowwiseShape {
    let kind = RowwiseQuantKind::Int8;
    RowwiseShape { kv_heads: 2, repeat_factor: 2, tokens, head_dim, kind }
}

#[test]
fn sizes_of_packed_attention_are_counted_where_it_gets_to_them() {
    let numbers = Numbers::new(&[1.0; 24], DType::F32);
    let packed = Numbers::U8(vec![128; 24]);
    let q = numbers.tensor(&[1, 4, 4]);
    let attn = numbers.tensor(&[1, 4, 3]);
    let rows = packed.tensor(&[6, 4]);
    let scales = numbers.tensor(&[6]);
    let cols = rowwise_shape(3, 4);
    assert!(is_qk_countable(&q, &rows, &scales, &cols));
    assert!(is_sum_countable(&attn, &rows, &scales, &cols));
    // Twice as many rows as can be counted.
    let many = rowwise_shape(usize::MAX, 4);
    assert!(!is_qk_countable(&q, &rows, &scales, &many));
    // The call ends before it comes to the rows.
    let none = RowwiseShape { repeat_factor: 0, ..many };
    assert!(is_qk_countable(&q, &rows, &scales, &none));
    assert!(is_qk_countable(&attn, &rows, &scales, &many));
    assert!(is_sum_countable(&attn, &rows, &scales, &many));
    // The rows can be counted and the sums cannot, but rows of another width are refused first.
    let wide = rowwise_shape(3, usize::MAX);
    assert!(is_sum_countable(&attn, &rows, &scales, &wide));
    let refused = attn_weighted_sum_quantized_rowwise(
        &attn,
        &rows,
        &scales,
        2,
        2,
        3,
        usize::MAX,
        RowwiseQuantKind::Int8,
    );
    assert_eq!(refused.err(), Some(RowwiseError::PackedShape { rows: 6, cols: usize::MAX }));
    // Without tokens there are no rows to be of another width.
    let empty = Numbers::U8(Vec::new());
    let nothing = Numbers::new(&[], DType::F32);
    let no_rows = empty.tensor(&[0, usize::MAX]);
    let no_attn = nothing.tensor(&[1, 4, 0]);
    let no_scales = nothing.tensor(&[0]);
    assert!(!is_sum_countable(&no_attn, &no_rows, &no_scales, &rowwise_shape(0, usize::MAX)));
    let halves = Numbers::F16(Vec::new());
    let half_attn = halves.tensor(&[1, 4, 0]);
    assert!(is_sum_countable(&half_attn, &no_rows, &no_scales, &rowwise_shape(0, usize::MAX)));
}

#[test]
fn sums_are_counted_where_dense_attention_gets_to_them() {
    let nothing = Numbers::new(&[], DType::F32);
    let bytes = Numbers::U8(Vec::new());
    let attn = nothing.tensor(&[1 << 40, 1 << 20, 0]);
    let v = nothing.tensor(&[1 << 40, 1 << 20, 0, 1 << 20]);
    assert!(!dense::is_sum_countable(&attn, &v));
    assert!(dense::is_sum_countable(&attn, &bytes.tensor(&[1 << 40, 1 << 20, 0, 1 << 20])));
    assert!(dense::is_sum_countable(&attn, &nothing.tensor(&[1 << 40, 1 << 20, 0, 8])));
    assert!(dense::is_sum_countable(&attn, &nothing.tensor(&[1 << 40, 1, 0, 1 << 20])));
    assert!(dense::is_sum_countable(&nothing.tensor(&[0, 2]), &v));
}

#[test]
fn sizes_of_turboquant_calls_are_counted_where_they_get_to_them() {
    let case = turbo_case(DType::F32);
    let q = case.q.tensor(&[1, 2, 4]);
    let codes = case.codes.tensor(&[2, 4]);
    let scales = case.scales.tensor(&[2, 2]);
    let pair_signs = case.pair_signs.tensor(&[2]);
    let inputs = TurboInputs {
        q: &q,
        codes: &codes,
        scales: &scales,
        pair_signs: &pair_signs,
        residual_signs: None,
        residual_scales: None,
    };
    let request = |tokens: usize, head_dim: usize, code_bits: Option<usize>| TurboRequest {
        kv_heads: 1,
        repeat_factor: 2,
        tokens,
        head_dim,
        subvector_dim: 2,
        scale_block_dim: 2,
        code_bits,
        kind: TurboQuantKind::Turbo3,
    };
    assert!(is_turboquant_countable(&inputs, &request(2, 4, None)));
    assert!(is_turboquant_countable(&inputs, &request(2, 4, Some(3))));
    // As many rows as can be counted, and too many codes.
    assert!(is_turboquant_countable(&inputs, &request(usize::MAX, 4, None)));
    assert!(!is_turboquant_countable(&inputs, &request(usize::MAX, 4, Some(3))));
    // The codes can be counted, and their bits cannot.
    assert!(!is_turboquant_countable(&inputs, &request(usize::MAX / 4, 4, Some(3))));
    // The call ends before it comes to the codes.
    assert!(is_turboquant_countable(&inputs, &request(usize::MAX, 4, Some(usize::MAX))));
    assert!(is_turboquant_countable(&inputs, &request(usize::MAX, 6, Some(3))));
    let refused = qk_scores_turboquant_packed(
        &q,
        &codes,
        &scales,
        &pair_signs,
        None,
        None,
        1,
        2,
        2,
        4,
        2,
        2,
        usize::MAX,
        TurboQuantKind::Turbo3,
        0.5,
    );
    assert_eq!(refused.err(), Some(TurboError::CodeBits(usize::MAX)));
}
