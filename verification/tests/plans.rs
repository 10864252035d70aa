use candelora_metal_kernels::activation_quant::{ActivationQuantConfig, ActivationQuantMode};
use candelora_metal_kernels::adamw::{
    adamw_packed_update, adamw_step_in_place, AdamWError, AdamWStepParams, StepOutcome,
};
use candelora_metal_kernels::axpy::{axpy, AxpyError};
use candelora_metal_kernels::dtype::DType;
use candelora_metal_kernels::iq2_matmul::{
    iq2_matmul, iq2_matmul_with_activation_quant, iq2_s_matmul, iq2_xs_matmul, iq2_xxs_matmul,
    Iq2Error, Iq2MatmulVariant,
};
use candelora_metal_kernels::kv_attn::dense::DenseError;
use candelora_metal_kernels::kv_attn::pack::{PackError, PackOutcome};
use candelora_metal_kernels::kv_attn::rowwise::RowwiseError;
use candelora_metal_kernels::kv_attn::turbo::{
    turboquant_kernel_name, TurboError, TurboOutcome, TurboPlan,
};
use candelora_metal_kernels::kv_attn::{
    attn_weighted_sum, attn_weighted_sum_quantized_rowwise, pack_rowwise_quantized, qk_scores,
    qk_scores_quantized_rowwise, qk_scores_turboquant, qk_scores_turboquant_packed,
    RowwiseQuantKind, TurboQuantKind,
};
use candelora_metal_kernels::launch::{
    DeviceTensor, Grid, KernelArg, Launch, Operand, Outcome, Quantity,
};
use candelora_metal_kernels::layout::Layout;
use candelora_metal_kernels::pipeline_cache::{Lookup, PipelineCache};
use candelora_metal_kernels::scalar::Scalars;
use candelora_metal_kernels::setting::{
    is_adamw_disabled, is_pack_disabled, turboquant_grouped_threads,
};
use candelora_metal_kernels::tensor::{HostData, MetalData, Storage, Tensor};
use half::{bf16, f16};

struct Ieee;

impl Scalars for Ieee {
    type F16 = f16;
    type BF16 = bf16;
    type F32 = f32;
    type F64 = f64;

    fn zero() -> f32 {
        0.0
    }

    fn frac_1_sqrt_2() -> f32 {
        std::f32::consts::FRAC_1_SQRT_2
    }

    fn tiny() -> f32 {
        1e-8
    }

    fn from_i32(value: i32) -> f32 {
        value as f32
    }

    fn plus(a: f32, b: f32) -> f32 {
        a + b
    }

    fn minus(a: f32, b: f32) -> f32 {
        a - b
    }

    fn times(a: f32, b: f32) -> f32 {
        a * b
    }

    fn divide(a: f32, b: f32) -> f32 {
        a / b
    }

    fn negate(a: f32) -> f32 {
        -a
    }

    fn larger(a: f32, b: f32) -> f32 {
        a.max(b)
    }

    fn magnitude(a: f32) -> f32 {
        a.abs()
    }

    fn root(a: f32) -> f32 {
        a.sqrt()
    }

    fn is_zero(a: f32) -> bool {
        a == 0.0
    }

    fn round_clamped(a: f32, low: i8, high: i8) -> i8 {
        a.round().clamp(f32::from(low), f32::from(high)) as i8
    }

    fn widen_f16(a: f16) -> f32 {
        a.to_f32()
    }

    fn widen_bf16(a: bf16) -> f32 {
        a.to_f32()
    }

    fn narrow_f16(a: f32) -> f16 {
        f16::from_f32(a)
    }

    fn narrow_bf16(a: f32) -> bf16 {
        bf16::from_f32(a)
    }

    fn single(a: f64) -> f32 {
        a as f32
    }

    fn one_minus(a: f64) -> f64 {
        1.0 - a
    }

    fn is_one(a: f64) -> bool {
        (a - 1.0).abs() < f64::EPSILON
    }
}

fn row_major(dims: &[usize]) -> Layout {
    let mut stride = vec![1usize; dims.len()];
    for i in (1..dims.len()).rev() {
        stride[i - 1] = stride[i] * dims[i];
    }
    Layout { dims: dims.to_vec(), stride, start_offset: 0 }
}

fn metal(dtype: DType, dims: &[usize]) -> Tensor<'static, Ieee> {
    metal_at(dtype, row_major(dims), 0)
}

/// A tensor whose first element is at position `start`.
fn shifted(dtype: DType, dims: &[usize], start: usize) -> Tensor<'static, Ieee> {
    let mut layout = row_major(dims);
    layout.start_offset = start;
    metal_at(dtype, layout, 0)
}

fn transposed(dtype: DType, dims: [usize; 2]) -> Tensor<'static, Ieee> {
    let layout = Layout { dims: dims.to_vec(), stride: vec![1, dims[0]], start_offset: 0 };
    metal_at(dtype, layout, 0)
}

fn metal_at(dtype: DType, layout: Layout, device: usize) -> Tensor<'static, Ieee> {
    Tensor { storage: Storage::Metal(MetalData { device, dtype }), layout }
}

fn on_device_1(dtype: DType, dims: &[usize]) -> Tensor<'static, Ieee> {
    metal_at(dtype, row_major(dims), 1)
}

fn on_host(values: &[f32]) -> Tensor<'_, Ieee> {
    Tensor { storage: Storage::Host(HostData::F32(values)), layout: row_major(&[values.len()]) }
}

fn spelled(arg: &KernelArg<Ieee>) -> String {
    match arg {
        KernelArg::U32(n) => format!("u{n}"),
        KernelArg::I32(n) => format!("i{n}"),
        KernelArg::Size(n) => format!("size {n}"),
        KernelArg::F32(x) => format!("f{x}"),
        KernelArg::Buffer { operand, offset_in_bytes } => {
            let name = match operand {
                Operand::Argument(i) => format!("arg{i}"),
                Operand::Compacted(i) => format!("copy{i}"),
                Operand::Placeholder(dtype) => format!("zero {dtype:?}"),
                Operand::Staged => "staged".to_string(),
                Operand::Output(i) => format!("out{i}"),
            };
            format!("{name}+{offset_in_bytes}")
        }
    }
}

fn assert_launch(launch: &Launch<Ieee>, kernel: &str, label: &str, args: &str, grid: Grid) {
    assert_eq!(launch.device, 0);
    assert_eq!(launch.kernel, kernel);
    assert_eq!(launch.label, label);
    let spelled: Vec<String> = launch.args.iter().map(spelled).collect();
    assert_eq!(spelled.join(", "), args);
    assert_eq!(launch.grid, grid);
}

fn assert_output(output: &DeviceTensor, dtype: DType, dims: &[usize]) {
    assert_eq!(output.dtype, dtype);
    assert_eq!(output.dims, dims.to_vec());
}

fn launched<E: std::fmt::Debug>(
    outcome: Result<Outcome<Ieee>, E>,
) -> (Launch<Ieee>, DeviceTensor) {
    match outcome {
        Ok(Outcome::Launch(launch, output)) => (launch, output),
        Ok(_) => panic!("expected a launch"),
        Err(e) => panic!("refused: {e:?}"),
    }
}

fn empty<E: std::fmt::Debug>(outcome: Result<Outcome<Ieee>, E>) -> DeviceTensor {
    match outcome {
        Ok(Outcome::Empty(output)) => output,
        Ok(_) => panic!("expected an empty result"),
        Err(e) => panic!("refused: {e:?}"),
    }
}

#[test]
fn axpy_on_a_device() {
    let (launch, output) =
        launched(axpy(&shifted(DType::F16, &[2, 3], 5), &metal(DType::F16, &[6]), 0.25));
    assert_launch(
        &launch,
        "axpy_f16",
        "candelora_axpy",
        "size 6, f0.25, arg0+10, arg1+0, out0+0",
        Grid::PerItem(6),
    );
    assert_output(&output, DType::F16, &[2, 3]);
    assert_output(
        &empty(axpy(&metal(DType::F32, &[0, 3]), &metal(DType::F32, &[0]), 1.0)),
        DType::F32,
        &[0, 3],
    );
    let err = |y: &Tensor<Ieee>, x: &Tensor<Ieee>| axpy(y, x, 1.0).err();
    assert_eq!(
        err(&transposed(DType::F32, [2, 3]), &metal(DType::F32, &[6])),
        Some(AxpyError::LayoutsNotContiguous)
    );
    assert_eq!(
        err(&metal(DType::I64, &[6]), &metal(DType::I64, &[6])),
        Some(AxpyError::KernelDType(DType::I64))
    );
    assert_eq!(
        err(&metal(DType::F32, &[6]), &on_device_1(DType::F32, &[6])),
        Some(AxpyError::DeviceMismatch)
    );
}

fn params() -> AdamWStepParams<Ieee> {
    AdamWStepParams {
        beta1: 0.5,
        beta2: 0.75,
        scale_m: 2.0,
        scale_v: 4.0,
        eps: 0.125,
        lr: 0.25,
        lr_lambda: 0.0625,
    }
}

#[test]
fn adamw_on_a_device() {
    let t = metal(DType::BF16, &[2, 3]);
    let (launch, output) =
        launched(adamw_packed_update(&t, &t, &shifted(DType::BF16, &[2, 3], 3), &t, params()));
    assert_launch(
        &launch,
        "adamw_pack_bf16",
        "candelora_adamw_pack",
        "size 6, f0.5, f0.75, f2, f4, f0.125, f0.25, f0.0625, \
         arg0+0, arg1+0, arg2+6, arg3+0, out0+0",
        Grid::PerItem(6),
    );
    assert_output(&output, DType::BF16, &[3, 6]);
    assert!(matches!(
        adamw_step_in_place(&t, &t, &t, &t, params(), None).outcome,
        StepOutcome::Device(Outcome::Launch(_, _))
    ));
    let err = |m: &Tensor<Ieee>, g: &Tensor<Ieee>| {
        adamw_packed_update(&t, m, &t, g, params()).err()
    };
    let host = [0f32; 6];
    assert_eq!(err(&t, &on_host(&host)), Some(AdamWError::GradNotMetal));
    assert_eq!(
        err(&transposed(DType::BF16, [2, 3]), &t),
        Some(AdamWError::LayoutsNotContiguous)
    );
    assert_eq!(err(&metal(DType::F16, &[2, 3]), &t), Some(AdamWError::DTypeMismatch));
    assert_eq!(err(&t, &on_device_1(DType::BF16, &[2, 3])), Some(AdamWError::MetalDeviceMismatch));
    let ints = metal(DType::I64, &[6]);
    assert_eq!(
        adamw_packed_update(&ints, &ints, &ints, &ints, params()).err(),
        Some(AdamWError::KernelDType(DType::I64))
    );
}

#[test]
fn dense_attention_on_a_device() {
    let (launch, output) = launched(qk_scores(
        &shifted(DType::F16, &[2, 3, 8], 2),
        &metal(DType::F16, &[2, 3, 5, 8]),
        0.5,
    ));
    assert_launch(
        &launch,
        "qk_scores_f16",
        "candelora_kv_attn_qk",
        "u6, u5, u8, f0.5, arg0+4, arg1+0, out0+0",
        Grid::PerItem(30),
    );
    assert_output(&output, DType::F32, &[2, 3, 5]);

    let (launch, output) = launched(attn_weighted_sum(
        &shifted(DType::F32, &[2, 3, 5], 1),
        &shifted(DType::BF16, &[2, 3, 5, 8], 1),
    ));
    assert_launch(
        &launch,
        "attn_weighted_sum_v_bf16",
        "candelora_kv_attn_weighted_sum",
        "u6, u5, u8, arg0+4, arg1+2, out0+0",
        Grid::PerItem(48),
    );
    assert_output(&output, DType::F32, &[2, 3, 8]);

    let none = empty(qk_scores(
        &metal(DType::F32, &[1, 2, 4]),
        &metal(DType::F32, &[1, 2, 0, 4]),
        1.0,
    ));
    assert_output(&none, DType::F32, &[1, 2, 0]);
    assert_eq!(
        qk_scores(&metal(DType::I64, &[1, 2, 4]), &metal(DType::I64, &[1, 2, 3, 4]), 1.0).err(),
        Some(DenseError::KernelDType(DType::I64))
    );
    let sideways = Layout { dims: vec![1, 2, 4], stride: vec![8, 1, 2], start_offset: 0 };
    assert_eq!(
        qk_scores(
            &metal_at(DType::F32, sideways, 0),
            &metal(DType::F32, &[1, 2, 3, 4]),
            1.0
        )
        .err(),
        Some(DenseError::LayoutsNotContiguous)
    );
    let long: usize = 1 << 33;
    assert_eq!(
        qk_scores(&metal(DType::F32, &[1, 1, long]), &metal(DType::F32, &[1, 1, 1, long]), 1.0)
            .err(),
        Some(DenseError::TooLarge(Quantity::D))
    );
}

#[test]
fn packed_attention_on_a_device() {
    let scores = |q: &Tensor<Ieee>, packed: &Tensor<Ieee>, scales: &Tensor<Ieee>, kind| {
        qk_scores_quantized_rowwise(q, packed, scales, 2, 2, 3, 6, kind, 0.5)
    };
    let (launch, output) = launched(scores(
        &metal(DType::BF16, &[1, 4, 6]),
        &shifted(DType::U8, &[6, 3], 7),
        &shifted(DType::F16, &[6], 2),
        RowwiseQuantKind::Int4,
    ));
    assert_launch(
        &launch,
        "qk_scores_rowwise_q4_bf16_sf16",
        "candelora_kv_attn_rowwise_qk",
        "u4, u4, u2, u2, u3, u6, f0.5, arg0+0, arg1+7, arg2+4, out0+0",
        Grid::PerItem(12),
    );
    assert_output(&output, DType::F32, &[1, 4, 3]);

    // Scales are read from their first element, in their own type.
    let offset = |dtype: DType, start: usize| {
        let (launch, _) = launched(attn_weighted_sum_quantized_rowwise(
            &metal(DType::F32, &[1, 4, 3]),
            &metal(DType::U8, &[6, 6]),
            &shifted(dtype, &[6], start),
            2,
            2,
            3,
            6,
            RowwiseQuantKind::Int8,
        ));
        spelled(&launch.args[8])
    };
    assert_eq!(offset(DType::F16, 0), "arg2+0");
    assert_eq!(offset(DType::F16, 5), "arg2+10");
    assert_eq!(offset(DType::F32, 5), "arg2+20");

    let (launch, output) = launched(attn_weighted_sum_quantized_rowwise(
        &metal(DType::F32, &[1, 4, 3]),
        &metal(DType::U8, &[6, 6]),
        &metal(DType::F32, &[6]),
        2,
        2,
        3,
        6,
        RowwiseQuantKind::Int8,
    ));
    assert_launch(
        &launch,
        "attn_weighted_sum_rowwise_q8",
        "candelora_kv_attn_rowwise_weighted_sum",
        "u4, u4, u2, u2, u3, u6, arg0+0, arg1+0, arg2+0, out0+0",
        Grid::PerItem(24),
    );
    assert_output(&output, DType::F32, &[1, 4, 6]);

    let q = metal(DType::F32, &[1, 4, 6]);
    let packed = metal(DType::U8, &[6, 6]);
    let scales = metal(DType::F32, &[6]);
    let kind = RowwiseQuantKind::Int8;
    assert_eq!(
        scores(&q, &transposed(DType::U8, [6, 6]), &scales, kind).err(),
        Some(RowwiseError::LayoutsNotContiguous)
    );
    assert_eq!(
        scores(&metal(DType::I64, &[1, 4, 6]), &packed, &scales, kind).err(),
        Some(RowwiseError::KernelDTypes { q: DType::I64, scales: DType::F32 })
    );
}

#[test]
fn rows_are_packed_by_one_kernel_or_by_two() {
    let x = shifted(DType::F16, &[2, 3, 5], 4);
    let fused = match pack_rowwise_quantized(&x, 5, RowwiseQuantKind::Int4, None) {
        Ok(PackOutcome::Fused(fused)) => fused,
        _ => panic!("expected one launch"),
    };
    assert_launch(
        &fused.launch.unwrap(),
        "pack_rowwise_fused_q4_f16",
        "candelora_kv_attn_rowwise_pack_fused",
        "u6, u5, arg0+8, out0+0, out1+0",
        Grid::PerItem(6),
    );
    assert_output(&fused.packed, DType::U8, &[6, 3]);
    assert_output(&fused.scales, DType::F32, &[6]);

    for word in ["1", " TRUE ", "yes", "On"] {
        let staged = match pack_rowwise_quantized(&x, 5, RowwiseQuantKind::Int4, Some(word)) {
            Ok(PackOutcome::Staged(staged)) => staged,
            _ => panic!("expected two launches"),
        };
        let (scales, scales_out) = launched::<PackError>(Ok(staged.scales));
        assert_launch(
            &scales,
            "pack_scales_rowwise_q8_f16",
            "candelora_kv_attn_rowwise_pack_scales",
            "u6, u5, f7, arg0+8, out0+0",
            Grid::PerItem(6),
        );
        assert_output(&scales_out, DType::F32, &[6]);
        let (packed, packed_out) = launched::<PackError>(Ok(staged.packed));
        assert_launch(
            &packed,
            "pack_data_rowwise_q4_f16",
            "candelora_kv_attn_rowwise_pack_data",
            "u6, u5, arg0+8, arg1+0, out0+0",
            Grid::PerItem(6),
        );
        assert_output(&packed_out, DType::U8, &[6, 3]);
    }
    for word in ["1", "0"] {
        let outcome = pack_rowwise_quantized(&x, 6, RowwiseQuantKind::Int4, Some(word));
        assert_eq!(outcome.err(), Some(PackError::LastDim { got: 5, expected: 6 }));
    }
    for word in ["0", "false", "", "y"] {
        let outcome = pack_rowwise_quantized(&x, 5, RowwiseQuantKind::Int4, Some(word));
        assert!(matches!(outcome, Ok(PackOutcome::Fused(_))));
    }
    assert_eq!(
        pack_rowwise_quantized(&metal(DType::I64, &[6]), 6, RowwiseQuantKind::Int8, None).err(),
        Some(PackError::KernelDType(DType::I64))
    );
}

#[test]
fn turboquant_kernels_are_named_by_their_formats() {
    let names: Vec<(DType, DType, usize, bool, Option<usize>, bool, &str)> = vec![
        (
            DType::F16,
            DType::F16,
            4,
            true,
            Some(3),
            false,
            "qk_scores_turbo_packed_fast_sv4c3_nr_qf16_sf16",
        ),
        (
            DType::F16,
            DType::F16,
            4,
            true,
            Some(3),
            true,
            "qk_scores_turbo_packed_fast_sv4c3_res_qf16_sf16",
        ),
        (
            DType::F16,
            DType::F16,
            4,
            true,
            Some(4),
            false,
            "qk_scores_turbo_packed_fast_sv4c4_nr_qf16_sf16",
        ),
        (
            DType::F16,
            DType::F16,
            4,
            true,
            Some(4),
            true,
            "qk_scores_turbo_packed_fast_sv4c4_res_qf16_sf16",
        ),
        (
            DType::F16,
            DType::F16,
            8,
            true,
            Some(3),
            false,
            "qk_scores_turbo_packed_fast_sv8c3_nr_qf16_sf16",
        ),
        (
            DType::F16,
            DType::F16,
            8,
            true,
            Some(3),
            true,
            "qk_scores_turbo_packed_fast_sv8c3_res_qf16_sf16",
        ),
        (
            DType::F16,
            DType::F16,
            8,
            true,
            Some(4),
            false,
            "qk_scores_turbo_packed_fast_sv8c4_nr_qf16_sf16",
        ),
        (
            DType::F16,
            DType::F16,
            8,
            true,
            Some(4),
            true,
            "qk_scores_turbo_packed_fast_sv8c4_res_qf16_sf16",
        ),
        (DType::F32, DType::F32, 4, true, Some(2), true, "qk_scores_turbo_packed_sv4_qf32_sf32"),
        (DType::F32, DType::F16, 4, true, Some(2), true, "qk_scores_turbo_packed_sv4_qf32_sf16"),
        (DType::F16, DType::F32, 4, true, Some(2), true, "qk_scores_turbo_packed_sv4_qf16_sf32"),
        (DType::F16, DType::F16, 4, true, Some(2), true, "qk_scores_turbo_packed_sv4_qf16_sf16"),
        (DType::BF16, DType::F32, 4, true, Some(2), true, "qk_scores_turbo_packed_sv4_qbf16_sf32"),
        (DType::BF16, DType::F16, 4, true, Some(2), true, "qk_scores_turbo_packed_sv4_qbf16_sf16"),
        (DType::F32, DType::F32, 8, true, Some(2), true, "qk_scores_turbo_packed_sv8_qf32_sf32"),
        (DType::F32, DType::F16, 8, true, Some(2), true, "qk_scores_turbo_packed_sv8_qf32_sf16"),
        (DType::F16, DType::F32, 8, true, Some(2), true, "qk_scores_turbo_packed_sv8_qf16_sf32"),
        (DType::F16, DType::F16, 8, true, Some(2), true, "qk_scores_turbo_packed_sv8_qf16_sf16"),
        (DType::BF16, DType::F32, 8, true, Some(2), true, "qk_scores_turbo_packed_sv8_qbf16_sf32"),
        (DType::BF16, DType::F16, 8, true, Some(2), true, "qk_scores_turbo_packed_sv8_qbf16_sf16"),
        (DType::F32, DType::F32, 2, true, Some(2), true, "qk_scores_turbo_packed_qf32_sf32"),
        (DType::F32, DType::F16, 2, true, Some(2), true, "qk_scores_turbo_packed_qf32_sf16"),
        (DType::F16, DType::F32, 2, true, Some(2), true, "qk_scores_turbo_packed_qf16_sf32"),
        (DType::F16, DType::F16, 2, true, Some(2), true, "qk_scores_turbo_packed_qf16_sf16"),
        (DType::BF16, DType::F32, 2, true, Some(2), true, "qk_scores_turbo_packed_qbf16_sf32"),
        (DType::BF16, DType::F16, 2, true, Some(2), true, "qk_scores_turbo_packed_qbf16_sf16"),
        (DType::F32, DType::F32, 4, false, None, true, "qk_scores_turbo_sv4_qf32_sf32"),
        (DType::F32, DType::F16, 4, false, None, true, "qk_scores_turbo_sv4_qf32_sf16"),
        (DType::F16, DType::F32, 4, false, None, true, "qk_scores_turbo_sv4_qf16_sf32"),
        (DType::F16, DType::F16, 4, false, None, true, "qk_scores_turbo_sv4_qf16_sf16"),
        (DType::BF16, DType::F32, 4, false, None, true, "qk_scores_turbo_sv4_qbf16_sf32"),
        (DType::BF16, DType::F16, 4, false, None, true, "qk_scores_turbo_sv4_qbf16_sf16"),
        (DType::F32, DType::F32, 8, false, None, true, "qk_scores_turbo_sv8_qf32_sf32"),
        (DType::F32, DType::F16, 8, false, None, true, "qk_scores_turbo_sv8_qf32_sf16"),
        (DType::F16, DType::F32, 8, false, None, true, "qk_scores_turbo_sv8_qf16_sf32"),
        (DType::F16, DType::F16, 8, false, None, true, "qk_scores_turbo_sv8_qf16_sf16"),
        (DType::BF16, DType::F32, 8, false, None, true, "qk_scores_turbo_sv8_qbf16_sf32"),
        (DType::BF16, DType::F16, 8, false, None, true, "qk_scores_turbo_sv8_qbf16_sf16"),
        (DType::F32, DType::F32, 2, false, None, true, "qk_scores_turbo_qf32_sf32"),
        (DType::F32, DType::F16, 2, false, None, true, "qk_scores_turbo_qf32_sf16"),
        (DType::F16, DType::F32, 2, false, None, true, "qk_scores_turbo_qf16_sf32"),
        (DType::F16, DType::F16, 2, false, None, true, "qk_scores_turbo_qf16_sf16"),
        (DType::BF16, DType::F32, 2, false, None, true, "qk_scores_turbo_qbf16_sf32"),
        (DType::BF16, DType::F16, 2, false, None, true, "qk_scores_turbo_qbf16_sf16"),
    ];
    for (q, scales, subvector_dim, packed, code_bits, has_residual, name) in names {
        assert_eq!(
            turboquant_kernel_name(q, scales, subvector_dim, packed, code_bits, has_residual),
            Some(name.to_string())
        );
    }
    assert_eq!(turboquant_kernel_name(DType::F64, DType::F32, 4, false, None, false), None);
    assert_eq!(turboquant_kernel_name(DType::F32, DType::BF16, 4, true, Some(3), false), None);
}

/// The plan for one cached head, two query heads and three tokens.
fn turbo_plan(
    head_dim: usize,
    subvector_dim: usize,
    q_dtype: DType,
    scales_dtype: DType,
    residual: bool,
) -> Result<TurboPlan<Ieee>, TurboError> {
    let blocks = head_dim / subvector_dim;
    let signs = metal(DType::U8, &[3, head_dim]);
    let scales = metal(scales_dtype, &[3, blocks]);
    let outcome = qk_scores_turboquant(
        &shifted(q_dtype, &[1, 2, head_dim], 3),
        &transposed(DType::U8, [3, head_dim]),
        &scales,
        &metal(DType::F32, &[head_dim / 2]),
        if residual { Some(&signs) } else { None },
        if residual { Some(&scales) } else { None },
        1,
        2,
        3,
        head_dim,
        subvector_dim,
        TurboQuantKind::Turbo3,
        0.5,
    );
    match outcome {
        Ok(TurboOutcome::Device(plan)) => Ok(plan),
        Ok(_) => panic!("expected a plan"),
        Err(e) => Err(e),
    }
}

#[test]
fn turboquant_on_a_device() {
    // Subvectors of four: a thread group per query row, which rotates the query itself.
    let plan = turbo_plan(8, 4, DType::F16, DType::F32, true).unwrap();
    assert!(plan.rotation.is_none());
    assert_launch(
        &plan.scores.unwrap(),
        "qk_scores_turbo_sv4_qf16_sf32",
        "candelora_kv_attn_turbo_qk",
        "u2, u2, u1, u2, u3, u8, u4, i3, u1, f0.5, \
         arg0+6, copy1+0, arg2+0, arg3+0, arg4+0, arg5+0, out0+0",
        Grid::PerGroup(2),
    );
    assert_output(&plan.output, DType::F32, &[1, 2, 3]);

    // Other subvectors: the query is rotated first, and every score has a thread.
    let plan = turbo_plan(8, 2, DType::F32, DType::F16, false).unwrap();
    assert_launch(
        &plan.rotation.unwrap(),
        "rotate_pairwise_query_f32",
        "candelora_kv_attn_turbo_rotate_q",
        "u2, u8, arg0+12, arg3+0, out0+0",
        Grid::PerItem(8),
    );
    assert_launch(
        &plan.scores.unwrap(),
        "qk_scores_turbo_qf32_sf16",
        "candelora_kv_attn_turbo_qk",
        "u2, u2, u1, u2, u3, u8, u2, i3, u0, f0.5, \
         staged+0, copy1+0, arg2+0, arg3+0, zero U8+0, zero F16+0, out0+0",
        Grid::PerItem(6),
    );

    // So are heads too large for a group.
    assert!(turbo_plan(264, 4, DType::F32, DType::F32, false).unwrap().rotation.is_some());
    assert_eq!(
        turbo_plan(8, 2, DType::I64, DType::F32, false).err(),
        Some(TurboError::RotationDType(DType::I64))
    );
    assert_eq!(
        turbo_plan(8, 4, DType::I64, DType::F32, false).err(),
        Some(TurboError::KernelDTypes { q: DType::I64, scales: DType::F32 })
    );
}

#[test]
fn packed_turboquant_on_a_device() {
    let outcome = qk_scores_turboquant_packed(
        &metal(DType::F16, &[1, 2, 8]),
        &metal(DType::U8, &[9]),
        &metal(DType::F16, &[3, 1]),
        &metal(DType::F32, &[4]),
        None,
        None,
        1,
        2,
        3,
        8,
        4,
        8,
        3,
        TurboQuantKind::Turbo3,
        0.5,
    );
    let plan = match outcome {
        Ok(TurboOutcome::Device(plan)) => plan,
        _ => panic!("expected a plan"),
    };
    assert_launch(
        &plan.scores.unwrap(),
        "qk_scores_turbo_packed_fast_sv4c3_nr_qf16_sf16",
        "candelora_kv_attn_turbo_qk_packed",
        "u2, u2, u1, u2, u3, u8, u4, u8, u3, i3, u0, f0.5, \
         arg0+0, arg1+0, arg2+0, arg3+0, zero U8+0, zero F16+0, out0+0",
        Grid::PerGroup(2),
    );
}

#[test]
fn iq2_products_on_a_device() {
    let codes = metal(DType::U8, &[2 * 2 * 72]);
    let scales = shifted(DType::U8, &[2 * 2 * 10], 1);
    let row = metal(DType::F32, &[300]);
    let rows = metal(DType::BF16, &[4, 300]);
    let (launch, output) = launched(iq2_xxs_matmul(&row, &codes, &scales, 2, 300));
    assert_launch(
        &launch,
        "iq2_xxs_matmul_f32",
        "candelora_iq2_matmul",
        "u1, u2, u300, u2, arg0+0, arg1+0, arg2+1, out0+0",
        Grid::PerItem(2),
    );
    assert_output(&output, DType::F32, &[2]);
    let (launch, output) = launched(iq2_xs_matmul(&rows, &codes, &scales, 2, 300));
    assert_launch(
        &launch,
        "iq2_xs_matmul_bf16",
        "candelora_iq2_matmul",
        "u4, u2, u300, u2, arg0+0, arg1+0, arg2+1, out0+0",
        Grid::PerItem(8),
    );
    assert_output(&output, DType::F32, &[4, 2]);
    let (launch, _) = launched(iq2_s_matmul(
        &transposed(DType::F16, [4, 300]),
        &codes,
        &scales,
        2,
        300,
    ));
    assert_launch(
        &launch,
        "iq2_s_matmul_f16",
        "candelora_iq2_matmul",
        "u4, u2, u300, u2, copy0+0, arg1+0, arg2+1, out0+0",
        Grid::PerItem(8),
    );
    assert_output(
        &empty(iq2_s_matmul(&metal(DType::F32, &[0, 300]), &codes, &scales, 2, 300)),
        DType::F32,
        &[0, 2],
    );
}

#[test]
fn iq2_products_are_refused() {
    let codes = metal(DType::U8, &[64]);
    let scales = metal(DType::U8, &[2]);
    let x = metal(DType::F32, &[8]);
    let err = |x: &Tensor<Ieee>, codes: &Tensor<Ieee>, scales: &Tensor<Ieee>, out, inp| {
        iq2_matmul(x, codes, scales, out, inp, Iq2MatmulVariant::Iq2Xxs).err()
    };
    assert_eq!(err(&x, &codes, &scales, 1, 8), None);
    assert_eq!(err(&x, &codes, &scales, 0, 8), Some(Iq2Error::ZeroDims));
    let host = [0f32; 8];
    assert_eq!(err(&on_host(&host), &codes, &scales, 1, 8), Some(Iq2Error::NotMetal));
    assert_eq!(
        err(&x, &on_device_1(DType::U8, &[64]), &scales, 1, 8),
        Some(Iq2Error::DeviceMismatch)
    );
    assert_eq!(
        err(&x, &metal(DType::F16, &[64]), &scales, 1, 8),
        Some(Iq2Error::WeightDTypes { bytes: DType::F16, scales: DType::U8 })
    );
    assert_eq!(
        err(&x, &codes, &scales, 1, 9),
        Some(Iq2Error::InputDim { got: 8, expected: 9 })
    );
    assert_eq!(
        err(&metal(DType::F32, &[2, 8]), &codes, &scales, 1, 9),
        Some(Iq2Error::InputLastDim { got: 8, expected: 9 })
    );
    assert_eq!(
        err(&metal(DType::F32, &[1, 1, 8]), &codes, &scales, 1, 8),
        Some(Iq2Error::InputRank)
    );
    assert_eq!(
        err(&x, &codes, &scales, usize::MAX, 8),
        Some(Iq2Error::BytesOverflow)
    );
    assert_eq!(
        err(&x, &codes, &scales, 2, 8),
        Some(Iq2Error::BytesTooSmall { got: 64, expected: 128 })
    );
    assert_eq!(
        err(&x, &metal(DType::U8, &[128]), &scales, 2, 8),
        Some(Iq2Error::ScalesTooSmall { got: 2, expected: 4 })
    );
    let endless: usize = 1 << 60;
    let empty_input = Layout { dims: vec![endless, 8], stride: vec![0, 0], start_offset: 0 };
    assert_eq!(
        err(
            &metal_at(DType::F32, empty_input, 0),
            &metal(DType::U8, &[64 * 32]),
            &metal(DType::U8, &[64]),
            32,
            8
        ),
        Some(Iq2Error::OutputOverflow)
    );
    assert_eq!(
        err(&x, &transposed(DType::U8, [2, 32]), &scales, 1, 8),
        Some(Iq2Error::LayoutsNotContiguous)
    );
    assert_eq!(
        err(&metal(DType::I64, &[8]), &codes, &scales, 1, 8),
        Some(Iq2Error::XDType(DType::I64))
    );
    let many: usize = 1 << 32;
    assert_eq!(
        err(&metal(DType::F32, &[many, 8]), &codes, &scales, 1, 8),
        Some(Iq2Error::TooLarge(Quantity::M))
    );
}

#[test]
fn formats_have_their_block_sizes() {
    let sizes = |v: Iq2MatmulVariant| (v.bytes_per_block(), v.scales_per_block());
    assert_eq!(sizes(Iq2MatmulVariant::Iq2Xxs), (64, 2));
    assert_eq!(sizes(Iq2MatmulVariant::Iq2Xs), (64, 10));
    assert_eq!(sizes(Iq2MatmulVariant::Iq2S), (72, 10));
    for v in [Iq2MatmulVariant::Iq2Xxs, Iq2MatmulVariant::Iq2Xs, Iq2MatmulVariant::Iq2S] {
        assert!(v.scales_per_block() <= v.bytes_per_block());
    }
}

#[test]
fn activation_formats_are_ignored_unless_the_caller_insists() {
    let codes = metal(DType::U8, &[64]);
    let scales = metal(DType::U8, &[2]);
    let x = metal(DType::F32, &[8]);
    let run = |mode, strict| {
        iq2_matmul_with_activation_quant(
            &x,
            &codes,
            &scales,
            1,
            8,
            Iq2MatmulVariant::Iq2Xxs,
            &ActivationQuantConfig { mode, strict },
        )
        .err()
    };
    assert_eq!(run(ActivationQuantMode::Off, false), None);
    assert_eq!(run(ActivationQuantMode::Off, true), None);
    assert_eq!(run(ActivationQuantMode::W8A8, false), None);
    assert_eq!(
        run(ActivationQuantMode::W4A8, true),
        Some(Iq2Error::ActivationQuant(ActivationQuantMode::W4A8))
    );
}

#[test]
fn grids_have_a_thread_for_every_item() {
    assert_eq!(Grid::PerItem(1000).size(256, None), (4, 256));
    assert_eq!(Grid::PerItem(1024).size(256, None), (4, 256));
    assert_eq!(Grid::PerItem(3).size(256, None), (1, 3));
    assert_eq!(Grid::PerItem(0).size(256, None), (0, 1));
    for items in 1..70usize {
        for max in 1..20usize {
            let (groups, threads) = Grid::PerItem(items).size(max, None);
            assert!(threads <= max && groups * threads >= items);
            assert!((groups - 1) * threads < items);
        }
    }
    assert_eq!(Grid::PerGroup(7).size(1024, None), (7, 256));
    assert_eq!(Grid::PerGroup(7).size(64, None), (7, 64));
    assert_eq!(Grid::PerGroup(7).size(1024, Some("512")), (7, 512));
}

#[test]
fn settings_are_read() {
    assert!(is_pack_disabled(Some("\t YES\n")));
    assert!(!is_pack_disabled(Some("y")));
    assert!(is_adamw_disabled(Some("Y")));
    assert!(!is_adamw_disabled(Some(" on")));
    assert_eq!(turboquant_grouped_threads(Some("+32"), 1024, 256), 32);
    assert_eq!(turboquant_grouped_threads(Some("0032"), 1024, 256), 32);
    for word in ["0", "-1", "", "+", " 32", "32 ", "0x20", "99999999999999999999999"] {
        assert_eq!(turboquant_grouped_threads(Some(word), 1024, 256), 256, "{word}");
    }
    assert_eq!(turboquant_grouped_threads(Some("4096"), 1024, 256), 1024);
    assert_eq!(turboquant_grouped_threads(None, 0, 256), 1);
}

#[test]
fn pipelines_are_made_once() {
    let mut cache: PipelineCache<&str, u32> = PipelineCache::new();
    let axpy = "axpy_f32".to_string();
    let scores = "qk_scores_f32".to_string();
    assert!(matches!(cache.look_up(0, &axpy), Lookup::Compile));
    cache.remember_library(0, "library of 0", axpy.clone(), 1);
    assert!(matches!(cache.look_up(0, &axpy), Lookup::Hit(&1)));
    assert!(matches!(cache.look_up(0, &scores), Lookup::Load(&"library of 0")));
    assert!(matches!(cache.look_up(1, &axpy), Lookup::Compile));
    cache.remember_pipeline(0, scores.clone(), 2);
    cache.remember_library(1, "library of 1", axpy.clone(), 3);
    assert!(matches!(cache.look_up(0, &axpy), Lookup::Hit(&1)));
    assert!(matches!(cache.look_up(0, &scores), Lookup::Hit(&2)));
    assert!(matches!(cache.look_up(1, &axpy), Lookup::Hit(&3)));
    assert!(matches!(cache.look_up(1, &scores), Lookup::Load(&"library of 1")));
}
