use candelora_metal_kernels::axpy::{AxpyError, AxpyOp};
use candelora_metal_kernels::dtype::DType;
use candelora_metal_kernels::kv_attn::dense::{
    parse_attn_v_shapes, parse_qk_shapes, AttnWeightedSumOp, DenseError, QkScoresOp,
};
use candelora_metal_kernels::kv_attn::pack::{
    parse_rowwise_pack_input, PackError, PackOperand, RowwisePackDataOp, RowwisePackScalesOp,
};
use candelora_metal_kernels::kv_attn::rowwise::{
    MetalStep, RowwiseAttnWeightedSumOp, RowwiseError, RowwiseQkScoresOp, RowwiseShape,
};
use candelora_metal_kernels::kv_attn::turbo::TurboError;
use candelora_metal_kernels::kv_attn::{
    pack_rowwise_quantized, qk_scores_turboquant, RowwiseQuantKind, TurboQuantKind,
};
use candelora_metal_kernels::launch::Quantity;
use candelora_metal_kernels::layout::Layout;
use candelora_metal_kernels::scalar::Scalars;
use candelora_metal_kernels::tensor::{HostData, HostVec, MetalData, Storage, Tensor};
use half::{bf16, f16};

struct Ieee;

impl Scalars for Ieee {
    type F16 = f16;
    type BF16 = bf16;
    type F32 = f32;
    type F64 = f64;

    fn zero() -> f32 {
        0.0
    }

    fn frac_1_sqrt_2() -> f32 {
        std::f32::consts::FRAC_1_SQRT_2
    }

    fn tiny() -> f32 {
        1e-8
    }

    fn from_i32(value: i32) -> f32 {
        value as f32
    }

    fn plus(a: f32, b: f32) -> f32 {
        a + b
    }

    fn minus(a: f32, b: f32) -> f32 {
        a - b
    }

    fn times(a: f32, b: f32) -> f32 {
        a * b
    }

    fn divide(a: f32, b: f32) -> f32 {
        a / b
    }

    fn negate(a: f32) -> f32 {
        -a
    }

    fn larger(a: f32, b: f32) -> f32 {
        a.max(b)
    }

    fn magnitude(a: f32) -> f32 {
        a.abs()
    }

    fn root(a: f32) -> f32 {
        a.sqrt()
    }

    fn is_zero(a: f32) -> bool {
        a == 0.0
    }

    fn round_clamped(a: f32, low: i8, high: i8) -> i8 {
        a.round().clamp(f32::from(low), f32::from(high)) as i8
    }

    fn widen_f16(a: f16) -> f32 {
        a.to_f32()
    }

    fn widen_bf16(a: bf16) -> f32 {
        a.to_f32()
    }

    fn narrow_f16(a: f32) -> f16 {
        f16::from_f32(a)
    }

    fn narrow_bf16(a: f32) -> bf16 {
        bf16::from_f32(a)
    }

    fn single(a: f64) -> f32 {
        a as f32
    }

    fn one_minus(a: f64) -> f64 {
        1.0 - a
    }

    fn is_one(a: f64) -> bool {
        (a - 1.0).abs() < f64::EPSILON
    }
}

fn row_major(dims: &[usize]) -> Layout {
    let mut stride = vec![1usize; dims.len()];
    for i in (1..dims.len()).rev() {
        stride[i - 1] = stride[i] * dims[i];
    }
    Layout { dims: dims.to_vec(), stride, start_offset: 0 }
}

fn column_major(dims: [usize; 2]) -> Layout {
    Layout { dims: dims.to_vec(), stride: vec![1, dims[0]], start_offset: 0 }
}

const F32_0: MetalData = MetalData { device: 0, dtype: DType::F32 };
const F32_1: MetalData = MetalData { device: 1, dtype: DType::F32 };
const U8_0: MetalData = MetalData { device: 0, dtype: DType::U8 };
const I64_0: MetalData = MetalData { device: 0, dtype: DType::I64 };

#[test]
fn devices_of_operations_are_compared() {
    let op = AxpyOp::<Ieee> { alpha: 1.0 };
    let l = row_major(&[4]);
    assert_eq!(
        op.metal_fwd(&F32_0, &l, &F32_1, &l).err(),
        Some(AxpyError::MetalDeviceMismatch)
    );
    let op = QkScoresOp::<Ieee> { scale: 1.0 };
    let (q, k) = (row_major(&[1, 2, 4]), row_major(&[1, 2, 3, 4]));
    assert_eq!(
        op.metal_fwd(&F32_0, &q, &F32_1, &k).err(),
        Some(DenseError::MetalDeviceMismatch)
    );
    let (a, v) = (row_major(&[1, 2, 3]), row_major(&[1, 2, 3, 4]));
    assert_eq!(
        AttnWeightedSumOp.metal_fwd::<Ieee>(&F32_0, &a, &F32_1, &v).err(),
        Some(DenseError::MetalDeviceMismatch)
    );
    assert_eq!(
        AttnWeightedSumOp.metal_fwd::<Ieee>(&I64_0, &a, &F32_0, &v).err(),
        Some(DenseError::AttnDType(DType::I64))
    );
}

#[test]
fn shapes_of_dense_tensors_are_compared() {
    let rank_1 = row_major(&[4]);
    let rank_3 = row_major(&[1, 2, 4]);
    let rank_4 = row_major(&[1, 2, 3, 4]);
    assert_eq!(parse_qk_shapes(&rank_1, &rank_4).err(), Some(DenseError::FirstRank));
    assert_eq!(parse_qk_shapes(&rank_3, &rank_1).err(), Some(DenseError::SecondRank));
    assert_eq!(parse_attn_v_shapes(&rank_1, &rank_4).err(), Some(DenseError::FirstRank));
    assert_eq!(parse_attn_v_shapes(&rank_3, &rank_1).err(), Some(DenseError::SecondRank));
    assert_eq!(parse_attn_v_shapes(&rank_3, &rank_4).err(), Some(DenseError::ShapeMismatch));
    let heads = parse_qk_shapes(&rank_3, &rank_4).unwrap();
    assert_eq!((heads.batch, heads.full_heads, heads.tokens, heads.head_dim), (1, 2, 3, 4));
    assert_eq!(QkScoresOp::<Ieee> { scale: 1.0 }.name(), "candelora-kv-attn-qk-scores");
    assert_eq!(AttnWeightedSumOp.name(), "candelora-kv-attn-weighted-sum");
}

fn shape() -> RowwiseShape {
    RowwiseShape {
        kv_heads: 2,
        repeat_factor: 2,
        tokens: 3,
        head_dim: 4,
        kind: RowwiseQuantKind::Int8,
    }
}

#[test]
fn packed_operations_refuse_wrong_steps() {
    let scores = RowwiseQkScoresOp::<Ieee> { shape: shape(), scale: 1.0 };
    let sums = RowwiseAttnWeightedSumOp { shape: shape() };
    let (q, attn) = (row_major(&[1, 4, 4]), row_major(&[1, 4, 3]));
    let (packed, scales) = (row_major(&[6, 4]), row_major(&[6]));
    let step = |first, first_layout, scale_data| MetalStep {
        first,
        first_layout,
        packed: &U8_0,
        packed_layout: &packed,
        scales: scale_data,
        scales_layout: &scales,
    };
    assert!(scores.metal_fwd(&step(&F32_0, &q, &F32_0)).is_ok());
    assert!(sums.metal_fwd::<Ieee>(&step(&F32_0, &attn, &F32_0)).is_ok());
    assert_eq!(
        scores.metal_fwd(&step(&F32_0, &q, &F32_1)).err(),
        Some(RowwiseError::MetalDeviceMismatch)
    );
    assert_eq!(
        scores.metal_fwd(&step(&F32_0, &q, &I64_0)).err(),
        Some(RowwiseError::ScalesDType(DType::I64))
    );
    let odd = row_major(&[1, 3, 4]);
    assert_eq!(
        scores.metal_fwd(&step(&F32_0, &odd, &F32_0)).err(),
        Some(RowwiseError::HeadConfig { full_heads: 3, kv_heads: 2, repeat_factor: 2 })
    );
    let many: usize = 1 << 32;
    let large = RowwiseQkScoresOp::<Ieee> {
        shape: RowwiseShape { kv_heads: many, repeat_factor: 1, ..shape() },
        scale: 1.0,
    };
    let (q, packed, scales) =
        (row_major(&[1, many, 4]), row_major(&[3 * many, 4]), row_major(&[3 * many]));
    let step = MetalStep {
        first: &F32_0,
        first_layout: &q,
        packed: &U8_0,
        packed_layout: &packed,
        scales: &F32_0,
        scales_layout: &scales,
    };
    assert_eq!(large.metal_fwd(&step).err(), Some(RowwiseError::TooLarge(Quantity::BhFull)));
    assert_eq!(scores.name(), "candelora-kv-attn-rowwise-qk");
    assert_eq!(sums.name(), "candelora-kv-attn-rowwise-weighted-sum");
}

#[test]
fn pack_operations_refuse_wrong_scales() {
    let kind = RowwiseQuantKind::Int8;
    let op = RowwisePackDataOp { head_dim: 3, kind };
    let numbers = [1f32, 2.0, 3.0, 4.0, 5.0, 6.0];
    let x = HostData::<Ieee>::F32(&numbers);
    let bytes = HostData::<Ieee>::U8(&[1, 2]);
    let (rows, two) = (row_major(&[2, 3]), row_major(&[2]));
    let err = |xl: &Layout, scales: &HostData<Ieee>, sl: &Layout| {
        op.cpu_fwd::<Ieee>(&x, xl, scales, sl).err()
    };
    assert_eq!(
        err(&rows, &x, &row_major(&[3])),
        Some(PackError::ScalesShape { rows: 2 })
    );
    assert_eq!(err(&rows, &bytes, &two), Some(PackError::ScalesDType(DType::U8)));
    let spread = Layout { dims: vec![2], stride: vec![2], start_offset: 0 };
    assert_eq!(
        err(&rows, &x, &spread),
        Some(PackError::NotContiguous(PackOperand::Scales))
    );
    assert_eq!(
        err(&column_major([2, 3]), &x, &two),
        Some(PackError::NotContiguous(PackOperand::X))
    );
    let metal = |xl: &Layout, scales: &MetalData, sl: &Layout| {
        op.metal_fwd::<Ieee>(&F32_0, xl, scales, sl).err()
    };
    assert_eq!(metal(&rows, &F32_0, &two), None);
    assert_eq!(
        metal(&column_major([2, 3]), &F32_0, &two),
        Some(PackError::LayoutsNotContiguous)
    );
    assert_eq!(metal(&rows, &F32_1, &two), Some(PackError::MetalDeviceMismatch));
    assert_eq!(metal(&rows, &I64_0, &two), Some(PackError::ScalesDType(DType::I64)));
    assert_eq!(
        metal(&rows, &F32_0, &row_major(&[2, 1])),
        Some(PackError::ScalesShape { rows: 2 })
    );
    let scales = RowwisePackScalesOp { head_dim: 3, kind };
    assert_eq!(
        scales.metal_fwd::<Ieee>(&F32_0, &column_major([2, 3])).err(),
        Some(PackError::NotContiguous(PackOperand::X))
    );
    match scales.cpu_fwd::<Ieee>(&x, &rows).ok().unwrap().data {
        HostVec::F32(values) => assert_eq!(values, vec![3.0 / 127.0, 6.0 / 127.0]),
        _ => panic!("expected scales in single precision"),
    }
    assert_eq!(scales.name(), "candelora-kv-attn-rowwise-pack-scales");
    assert_eq!(op.name(), "candelora-kv-attn-rowwise-pack-data");
}

#[test]
fn rows_hold_all_elements_of_a_tensor() {
    assert_eq!(parse_rowwise_pack_input(&row_major(&[2, 5, 3]), 3), Ok(10));
    assert_eq!(parse_rowwise_pack_input(&row_major(&[0, 3]), 3), Ok(0));
    assert_eq!(parse_rowwise_pack_input(&row_major(&[]), 3), Err(PackError::Rank));
    assert_eq!(
        parse_rowwise_pack_input(&row_major(&[3, 2]), 3),
        Err(PackError::LastDim { got: 2, expected: 3 })
    );
}

fn metal(dtype: DType, dims: &[usize]) -> Tensor<'static, Ieee> {
    Tensor { storage: Storage::Metal(MetalData { device: 0, dtype }), layout: row_major(dims) }
}

#[test]
fn sizes_that_kernels_cannot_count_are_refused() {
    let many: usize = 1 << 32;
    assert_eq!(
        pack_rowwise_quantized(&metal(DType::F32, &[many, 2]), 2, RowwiseQuantKind::Int8, None)
            .err(),
        Some(PackError::TooLarge(Quantity::Rows))
    );
    let outcome = qk_scores_turboquant(
        &metal(DType::F32, &[1, 1, 4]),
        &metal(DType::U8, &[many, 4]),
        &metal(DType::F32, &[many, 1]),
        &metal(DType::F32, &[2]),
        None,
        None,
        1,
        1,
        many,
        4,
        4,
        TurboQuantKind::Turbo4,
        1.0,
    );
    assert_eq!(outcome.err(), Some(TurboError::TooLarge(Quantity::Tokens)));
}
