use candelora_metal_kernels::adamw::{
    adamw_packed_update, adamw_step_in_place, AdamWError, AdamWOperand, AdamWPackedUpdateOp,
    AdamWStepParams, StepEnd, StepOutcome, StepWrites,
};
use candelora_metal_kernels::axpy::{axpy, AxpyError, AxpyOp, AxpyOperand};
use candelora_metal_kernels::dtype::DType;
use candelora_metal_kernels::launch::Outcome;
use candelora_metal_kernels::layout::Layout;
use candelora_metal_kernels::scalar::Scalars;
use candelora_metal_kernels::tensor::{HostData, HostTensor, HostVec, Storage, Tensor};
use half::{bf16, f16};

struct Ieee;

impl Scalars for Ieee {
    type F16 = f16;
    type BF16 = bf16;
    type F32 = f32;
    type F64 = f64;

    fn zero() -> f32 {
        0.0
    }

    fn frac_1_sqrt_2() -> f32 {
        std::f32::consts::FRAC_1_SQRT_2
    }

    fn tiny() -> f32 {
        1e-8
    }

    fn from_i32(value: i32) -> f32 {
        value as f32
    }

    fn plus(a: f32, b: f32) -> f32 {
        a + b
    }

    fn minus(a: f32, b: f32) -> f32 {
        a - b
    }

    fn times(a: f32, b: f32) -> f32 {
        a * b
    }

    fn divide(a: f32, b: f32) -> f32 {
        a / b
    }

    fn negate(a: f32) -> f32 {
        -a
    }

    fn larger(a: f32, b: f32) -> f32 {
        a.max(b)
    }

    fn magnitude(a: f32) -> f32 {
        a.abs()
    }

    fn root(a: f32) -> f32 {
        a.sqrt()
    }

    fn is_zero(a: f32) -> bool {
        a == 0.0
    }

    fn round_clamped(a: f32, low: i8, high: i8) -> i8 {
        a.round().clamp(f32::from(low), f32::from(high)) as i8
    }

    fn widen_f16(a: f16) -> f32 {
        a.to_f32()
    }

    fn widen_bf16(a: bf16) -> f32 {
        a.to_f32()
    }

    fn narrow_f16(a: f32) -> f16 {
        f16::from_f32(a)
    }

    fn narrow_bf16(a: f32) -> bf16 {
        bf16::from_f32(a)
    }

    fn single(a: f64) -> f32 {
        a as f32
    }

    fn one_minus(a: f64) -> f64 {
        1.0 - a
    }

    fn is_one(a: f64) -> bool {
        (a - 1.0).abs() < f64::EPSILON
    }
}

/// Numbers in one of the formats of host tensors.
enum Numbers {
    U8(Vec<u8>),
    F16(Vec<f16>),
    BF16(Vec<bf16>),
    F32(Vec<f32>),
}

impl Numbers {
    fn new(values: &[f32], dtype: DType) -> Numbers {
        match dtype {
            DType::F16 => Numbers::F16(values.iter().map(|v| f16::from_f32(*v)).collect()),
            DType::BF16 => Numbers::BF16(values.iter().map(|v| bf16::from_f32(*v)).collect()),
            _ => Numbers::F32(values.to_vec()),
        }
    }

    fn data(&self) -> HostData<'_, Ieee> {
        match self {
            Numbers::U8(v) => HostData::U8(v),
            Numbers::F16(v) => HostData::F16(v),
            Numbers::BF16(v) => HostData::BF16(v),
            Numbers::F32(v) => HostData::F32(v),
        }
    }

    fn tensor(&self, dims: &[usize]) -> Tensor<'_, Ieee> {
        Tensor { storage: Storage::Host(self.data()), layout: row_major(dims) }
    }

    fn strided(&self, dims: &[usize], stride: &[usize]) -> Tensor<'_, Ieee> {
        let layout = Layout { dims: dims.to_vec(), stride: stride.to_vec(), start_offset: 0 };
        Tensor { storage: Storage::Host(self.data()), layout }
    }
}

fn row_major(dims: &[usize]) -> Layout {
    let mut stride = vec![1usize; dims.len()];
    for i in (1..dims.len()).rev() {
        stride[i - 1] = stride[i] * dims[i];
    }
    Layout { dims: dims.to_vec(), stride, start_offset: 0 }
}

fn other(dtype: DType, dims: &[usize]) -> Tensor<'static, Ieee> {
    let len = dims.iter().product();
    Tensor {
        storage: Storage::Host(HostData::Other { dtype, len }),
        layout: row_major(dims),
    }
}

fn cuda(dtype: DType, dims: &[usize]) -> Tensor<'static, Ieee> {
    Tensor { storage: Storage::Cuda { device: 0, dtype }, layout: row_major(dims) }
}

/// The numbers of a result, and its type.
fn wide(tensor: &HostTensor<Ieee>) -> (Vec<f32>, DType) {
    match &tensor.data {
        HostVec::F16(v) => (v.iter().map(|a| a.to_f32()).collect(), DType::F16),
        HostVec::BF16(v) => (v.iter().map(|a| a.to_f32()).collect(), DType::BF16),
        HostVec::F32(v) => (v.clone(), DType::F32),
        HostVec::U8(_) => panic!("expected floating-point numbers"),
    }
}

fn of_result(tensor: HostTensor<Ieee>) -> Numbers {
    match tensor.data {
        HostVec::U8(v) => Numbers::U8(v),
        HostVec::F16(v) => Numbers::F16(v),
        HostVec::BF16(v) => Numbers::BF16(v),
        HostVec::F32(v) => Numbers::F32(v),
    }
}

fn widened(numbers: &Numbers) -> Vec<f32> {
    match numbers {
        Numbers::U8(_) => panic!("expected floating-point numbers"),
        Numbers::F16(v) => v.iter().map(|a| a.to_f32()).collect(),
        Numbers::BF16(v) => v.iter().map(|a| a.to_f32()).collect(),
        Numbers::F32(v) => v.clone(),
    }
}

fn on_host(outcome: Outcome<Ieee>) -> HostTensor<Ieee> {
    match outcome {
        Outcome::Host(tensor) => tensor,
        _ => panic!("expected a result on the host"),
    }
}

fn assert_all_close(actual: &[f32], expected: &[f32], atol: f32, rtol: f32) {
    assert_eq!(actual.len(), expected.len());
    for (idx, (a, e)) in actual.iter().zip(expected.iter()).enumerate() {
        let diff = (a - e).abs();
        let tol = atol + rtol * e.abs();
        assert!(
            diff <= tol,
            "mismatch at index {idx}: actual={a} expected={e} diff={diff} tol={tol}"
        );
    }
}

fn tolerances(dtype: DType) -> (f32, f32) {
    match dtype {
        DType::F32 => (1e-6, 1e-5),
        DType::F16 => (3e-3, 3e-3),
        DType::BF16 => (3e-2, 3e-2),
        _ => (1e-6, 1e-5),
    }
}

#[test]
fn axpy_cpu_all_dtypes() {
    for dtype in [DType::F32, DType::F16, DType::BF16] {
        let y = Numbers::new(&[1.0, -2.0, 3.5, 0.0], dtype);
        let x = Numbers::new(&[4.0, 1.5, -2.0, 8.0], dtype);
        let out = axpy(&y.tensor(&[4]), &x.tensor(&[4]), 0.25).ok().unwrap();
        let out = on_host(out);
        let (values, out_dtype) = wide(&out);
        assert_eq!(out_dtype, dtype);
        assert_eq!(out.dims, vec![4]);
        assert_all_close(&values, &[2.0, -1.625, 3.0, 2.0], 1e-3, 1e-3);
    }
}

#[test]
fn axpy_keeps_the_shape_of_y_and_skips_the_start() {
    let y = Numbers::new(&[9.0, 1.0, 2.0, 3.0, 4.0], DType::F32);
    let x = Numbers::new(&[10.0, 20.0, 30.0, 40.0], DType::F32);
    let shifted = Tensor {
        storage: Storage::Host(y.data()),
        layout: Layout { dims: vec![2, 2], stride: vec![2, 1], start_offset: 1 },
    };
    let out = on_host(axpy(&shifted, &x.tensor(&[4]), 0.5).ok().unwrap());
    assert_eq!(out.dims, vec![2, 2]);
    assert_eq!(wide(&out).0, vec![6.0, 12.0, 18.0, 24.0]);
}

#[test]
fn axpy_refuses_wrong_tensors() {
    let y = Numbers::new(&[1.0; 6], DType::F32);
    let half_y = Numbers::new(&[1.0; 6], DType::F16);
    let err = |y: &Tensor<Ieee>, x: &Tensor<Ieee>| axpy(y, x, 1.0).err();
    assert_eq!(
        err(&y.tensor(&[6]), &y.tensor(&[2, 2])),
        Some(AxpyError::Sizes { y: 6, x: 4 })
    );
    assert_eq!(
        err(&y.tensor(&[6]), &half_y.tensor(&[6])),
        Some(AxpyError::DTypeMismatch(DType::F32, DType::F16))
    );
    assert_eq!(
        err(&y.tensor(&[6]), &cuda(DType::F32, &[6])),
        Some(AxpyError::DeviceMismatch)
    );
    assert_eq!(
        err(&other(DType::I64, &[6]), &other(DType::I64, &[6])),
        Some(AxpyError::DTypes)
    );
    assert_eq!(
        err(&y.strided(&[2, 3], &[1, 2]), &y.tensor(&[6])),
        Some(AxpyError::NotContiguous(AxpyOperand::Y))
    );
    assert_eq!(
        err(&y.tensor(&[6]), &y.strided(&[2, 3], &[1, 2])),
        Some(AxpyError::NotContiguous(AxpyOperand::X))
    );
    assert_eq!(
        err(&cuda(DType::F32, &[6]), &cuda(DType::F32, &[6])),
        Some(AxpyError::NoCudaKernel)
    );
    assert_eq!(AxpyOp::<Ieee> { alpha: 1.0 }.name(), "candelora-axpy-fused");
}

fn reference_adamw(
    theta: &[f32],
    m: &[f32],
    v: &[f32],
    g: &[f32],
    p: AdamWStepParams<Ieee>,
) -> (Vec<f32>, Vec<f32>, Vec<f32>) {
    let mut next_m = vec![0f32; theta.len()];
    let mut next_v = vec![0f32; theta.len()];
    let mut next_theta = vec![0f32; theta.len()];
    let beta1 = p.beta1 as f32;
    let beta2 = p.beta2 as f32;
    let one_minus_beta1 = 1f32 - beta1;
    let one_minus_beta2 = 1f32 - beta2;
    let scale_m = p.scale_m as f32;
    let scale_v = p.scale_v as f32;
    let eps = p.eps as f32;
    let lr = p.lr as f32;
    let one_minus_lr_lambda = (1f64 - p.lr_lambda) as f32;
    for i in 0..theta.len() {
        let nm = beta1 * m[i] + one_minus_beta1 * g[i];
        let nv = beta2 * v[i] + one_minus_beta2 * g[i] * g[i];
        let m_hat = nm * scale_m;
        let v_hat = nv * scale_v;
        let nt = one_minus_lr_lambda * theta[i] - lr * (m_hat / (v_hat.sqrt() + eps));
        next_m[i] = nm;
        next_v[i] = nv;
        next_theta[i] = nt;
    }
    (next_m, next_v, next_theta)
}

fn params_for_step(step_idx: usize) -> AdamWStepParams<Ieee> {
    let beta1 = 0.9f64;
    let beta2 = 0.999f64;
    let step = (step_idx + 1) as i32;
    AdamWStepParams {
        beta1: 0.9,
        beta2: 0.999,
        scale_m: 1.0 / (1.0 - beta1.powi(step)),
        scale_v: 1.0 / (1.0 - beta2.powi(step)),
        eps: 1e-8,
        lr: 1e-3,
        lr_lambda: 0.01,
    }
}

fn make_theta(len: usize) -> Vec<f32> {
    (0..len).map(|i| ((i as f32 * 0.137).sin() * 0.7) - 0.2).collect()
}

fn make_first_moment(len: usize) -> Vec<f32> {
    (0..len).map(|i| ((i as f32 * 0.097).cos() * 0.04) - 0.01).collect()
}

fn make_second_moment(len: usize) -> Vec<f32> {
    (0..len).map(|i| 0.001 + ((i as f32 * 0.071).sin().abs() * 0.009)).collect()
}

fn make_grad(len: usize, step: usize) -> Vec<f32> {
    let s = step as f32 + 1.0;
    (0..len).map(|i| (((i as f32 + 1.0) * 0.113 + s * 0.037).sin()) * 0.25).collect()
}

fn run_packed_update_case(dtype: DType, shape: (usize, usize), atol: f32, rtol: f32) {
    let len = shape.0 * shape.1;
    let dims = [shape.0, shape.1];
    let theta = Numbers::new(&make_theta(len), dtype);
    let first_moment = Numbers::new(&make_first_moment(len), dtype);
    let second_moment = Numbers::new(&make_second_moment(len), dtype);
    let grad = Numbers::new(&make_grad(len, 0), dtype);
    let (m_expected, v_expected, theta_expected) = reference_adamw(
        &widened(&theta),
        &widened(&first_moment),
        &widened(&second_moment),
        &widened(&grad),
        params_for_step(0),
    );

    let packed = adamw_packed_update(
        &theta.tensor(&dims),
        &first_moment.tensor(&dims),
        &second_moment.tensor(&dims),
        &grad.tensor(&dims),
        params_for_step(0),
    );
    let packed = on_host(packed.ok().unwrap());
    assert_eq!(packed.dims, vec![3, len]);
    let (packed, packed_dtype) = wide(&packed);
    assert_eq!(packed_dtype, dtype);
    let n = len;
    assert_eq!(packed.len(), 3 * n);
    assert_all_close(&packed[0..n], &m_expected, atol, rtol);
    assert_all_close(&packed[n..2 * n], &v_expected, atol, rtol);
    assert_all_close(&packed[2 * n..3 * n], &theta_expected, atol, rtol);
}

#[test]
fn packed_update_matches_reference_cpu_all_dtypes_and_shapes() {
    let dtypes = [DType::F32, DType::F16, DType::BF16];
    let shapes = [(2usize, 3usize), (4, 4), (1, 17)];
    for dtype in dtypes {
        let (atol, rtol) = tolerances(dtype);
        for shape in shapes {
            run_packed_update_case(dtype, shape, atol, rtol);
        }
    }
}

fn candle_dtype(dtype: DType) -> candle_core::DType {
    match dtype {
        DType::F16 => candle_core::DType::F16,
        DType::BF16 => candle_core::DType::BF16,
        _ => candle_core::DType::F32,
    }
}

fn candle_tensor(
    values: Vec<f32>,
    shape: (usize, usize),
    dtype: DType,
) -> candle_core::Result<candle_core::Tensor> {
    candle_core::Tensor::from_vec(values, shape, &candle_core::Device::Cpu)?
        .to_dtype(candle_dtype(dtype))
}

fn tensor_to_f32_vec(t: &candle_core::Tensor) -> candle_core::Result<Vec<f32>> {
    t.flatten_all()?.to_dtype(candle_core::DType::F32)?.to_vec1::<f32>()
}

/// The step by one tensor operation after the other: the next first moments, second moments and
/// parameters.
fn unfused_step(
    theta: &candle_core::Tensor,
    first_moment: &candle_core::Tensor,
    second_moment: &candle_core::Tensor,
    grad: &candle_core::Tensor,
    params: &AdamWStepParams<Ieee>,
) -> candle_core::Result<(candle_core::Tensor, candle_core::Tensor, candle_core::Tensor)> {
    let next_m = ((first_moment * params.beta1)? + (grad * (1.0 - params.beta1))?)?;
    let next_v = ((second_moment * params.beta2)? + (grad.sqr()? * (1.0 - params.beta2))?)?;
    let m_hat = (&next_m * params.scale_m)?;
    let v_hat = (&next_v * params.scale_v)?;
    let next_theta = (theta * (1f64 - params.lr_lambda))?;
    let adjusted_grad = (m_hat / (v_hat.sqrt()? + params.eps)?)?;
    let next_theta = (next_theta - (adjusted_grad * params.lr)?)?;
    Ok((next_m, next_v, next_theta))
}

fn run_fused_vs_unfused_sequence_case(
    dtype: DType,
    shape: (usize, usize),
    steps: usize,
    atol: f32,
    rtol: f32,
) -> candle_core::Result<()> {
    let len = shape.0 * shape.1;
    let dims = [shape.0, shape.1];
    let mut fused_theta = Numbers::new(&make_theta(len), dtype);
    let mut fused_m = Numbers::new(&make_first_moment(len), dtype);
    let mut fused_v = Numbers::new(&make_second_moment(len), dtype);
    let mut unfused_theta = candle_tensor(make_theta(len), shape, dtype)?;
    let mut unfused_m = candle_tensor(make_first_moment(len), shape, dtype)?;
    let mut unfused_v = candle_tensor(make_second_moment(len), shape, dtype)?;

    for step in 0..steps {
        let params = params_for_step(step);
        let fused_grad = Numbers::new(&make_grad(len, step), dtype);
        let grad = candle_tensor(make_grad(len, step), shape, dtype)?;
        let step_taken = adamw_step_in_place(
            &fused_theta.tensor(&dims),
            &fused_m.tensor(&dims),
            &fused_v.tensor(&dims),
            &fused_grad.tensor(&dims),
            params_for_step(step),
            None,
        );
        assert_eq!(step_taken.writes.end, StepEnd::Taken);
        let state = match step_taken.outcome {
            StepOutcome::Host(state) => state,
            _ => panic!("expected fused AdamW path to run for dtype={dtype:?} shape={shape:?}"),
        };
        assert_eq!(state.first_moment.dims, dims.to_vec());
        assert_eq!(state.second_moment.dims, dims.to_vec());
        assert_eq!(state.theta.dims, dims.to_vec());
        fused_m = of_result(state.first_moment);
        fused_v = of_result(state.second_moment);
        fused_theta = of_result(state.theta);

        let (m, v, theta) =
            unfused_step(&unfused_theta, &unfused_m, &unfused_v, &grad, &params)?;
        unfused_m = m;
        unfused_v = v;
        unfused_theta = theta;

        assert_all_close(&widened(&fused_m), &tensor_to_f32_vec(&unfused_m)?, atol, rtol);
        assert_all_close(&widened(&fused_v), &tensor_to_f32_vec(&unfused_v)?, atol, rtol);
        assert_all_close(&widened(&fused_theta), &tensor_to_f32_vec(&unfused_theta)?, atol, rtol);
    }
    Ok(())
}

#[test]
fn fused_vs_unfused_across_steps_cpu_all_dtypes_and_shapes() {
    let dtypes = [DType::F32, DType::F16, DType::BF16];
    let shapes = [(2usize, 3usize), (4, 4), (1, 17)];
    for dtype in dtypes {
        let (atol, rtol) = tolerances(dtype);
        for shape in shapes {
            run_fused_vs_unfused_sequence_case(dtype, shape, 5, atol, rtol).unwrap();
        }
    }
}

#[test]
fn a_step_by_hand() {
    // Half of the first moment and half of the gradient; a quarter of the second moment and
    // three quarters of the square; then 0.5 * 8 - 2 * (3 / (sqrt(4) + 1)).
    let params = || AdamWStepParams::<Ieee> {
        beta1: 0.5,
        beta2: 0.25,
        scale_m: 1.0,
        scale_v: 1.0,
        eps: 1.0,
        lr: 2.0,
        lr_lambda: 0.5,
    };
    let theta = Numbers::new(&[8.0], DType::F32);
    let m = Numbers::new(&[4.0], DType::F32);
    let v = Numbers::new(&[4.0], DType::F32);
    let g = Numbers::new(&[2.0], DType::F32);
    let packed = adamw_packed_update(
        &theta.tensor(&[1]),
        &m.tensor(&[1]),
        &v.tensor(&[1]),
        &g.tensor(&[1]),
        params(),
    );
    assert_eq!(wide(&on_host(packed.ok().unwrap())).0, vec![3.0, 4.0, 2.0]);
}

#[test]
fn a_refused_step_changes_nothing() {
    let numbers = Numbers::new(&[1.0; 6], DType::F32);
    let halves = Numbers::new(&[1.0; 6], DType::F16);
    let t = numbers.tensor(&[2, 3]);
    let transposed = numbers.strided(&[2, 3], &[1, 2]);
    let small = numbers.tensor(&[4]);
    let elsewhere = cuda(DType::F32, &[2, 3]);
    let err = |theta: &Tensor<Ieee>, m: &Tensor<Ieee>, v: &Tensor<Ieee>, g: &Tensor<Ieee>| {
        let skipped = matches!(
            adamw_step_in_place(theta, m, v, g, params_for_step(0), None).outcome,
            StepOutcome::Skipped
        );
        let error = adamw_packed_update(theta, m, v, g, params_for_step(0)).err();
        assert_eq!(skipped, error.is_some());
        error
    };
    assert_eq!(err(&t, &t, &t, &t), None);
    assert_eq!(err(&t, &elsewhere, &t, &t), Some(AdamWError::DeviceMismatch));
    assert_eq!(err(&t, &t, &elsewhere, &t), Some(AdamWError::DeviceMismatch));
    assert_eq!(err(&t, &t, &t, &elsewhere), Some(AdamWError::Combination));
    assert_eq!(err(&t, &t, &t, &small), Some(AdamWError::Sizes));
    assert_eq!(
        err(&t, &t, &t, &halves.tensor(&[2, 3])),
        Some(AdamWError::Combination)
    );
    assert_eq!(
        err(&t, &halves.tensor(&[2, 3]), &t, &t),
        Some(AdamWError::Combination)
    );
    assert_eq!(
        err(&transposed, &t, &t, &t),
        Some(AdamWError::NotContiguous(AdamWOperand::Theta))
    );
    assert_eq!(
        err(&t, &transposed, &t, &t),
        Some(AdamWError::NotContiguous(AdamWOperand::FirstMoment))
    );
    assert_eq!(
        err(&t, &t, &transposed, &t),
        Some(AdamWError::NotContiguous(AdamWOperand::SecondMoment))
    );
    assert_eq!(
        err(&t, &t, &t, &transposed),
        Some(AdamWError::NotContiguous(AdamWOperand::Grad))
    );
    assert_eq!(
        err(&elsewhere, &elsewhere, &elsewhere, &elsewhere),
        Some(AdamWError::NoCudaKernel)
    );
    let op = AdamWPackedUpdateOp::<Ieee> { grad: &t, params: params_for_step(0) };
    assert_eq!(op.name(), "candelora-adamw-packed-update");
}

#[test]
fn a_setting_switches_the_fused_step_off() {
    let numbers = Numbers::new(&[1.0; 6], DType::F32);
    let t = numbers.tensor(&[2, 3]);
    let skipped = |setting: Option<&str>| {
        matches!(
            adamw_step_in_place(&t, &t, &t, &t, params_for_step(0), setting).outcome,
            StepOutcome::Skipped
        )
    };
    for word in ["1", "true", "TRUE", "Yes", "y", "on"] {
        assert!(skipped(Some(word)), "{word}");
    }
    for word in ["0", "off", "", " 1", "no"] {
        assert!(!skipped(Some(word)), "{word}");
    }
    assert!(!skipped(None));
}

#[test]
fn a_step_ends_at_a_variable_of_another_shape() {
    let numbers = Numbers::new(&[1.0; 6], DType::F32);
    let wide = numbers.tensor(&[2, 3]);
    let tall = numbers.tensor(&[3, 2]);
    let writes = |m: &Tensor<Ieee>, v: &Tensor<Ieee>, setting: Option<&str>| {
        adamw_step_in_place(&wide, m, v, &wide, params_for_step(0), setting).writes
    };
    let none = StepWrites {
        first_moment: false,
        second_moment: false,
        theta: false,
        end: StepEnd::NotTaken,
    };
    assert_eq!(
        writes(&wide, &wide, None),
        StepWrites { first_moment: true, second_moment: true, theta: true, end: StepEnd::Taken }
    );
    // The first moments are written before the second ones are found to have another shape.
    assert_eq!(
        writes(&wide, &tall, None),
        StepWrites {
            first_moment: true,
            end: StepEnd::Failed(AdamWOperand::SecondMoment),
            ..none
        }
    );
    assert_eq!(
        writes(&tall, &wide, None),
        StepWrites { end: StepEnd::Failed(AdamWOperand::FirstMoment), ..none }
    );
    assert_eq!(writes(&tall, &tall, Some("on")), none);
    // The gradient is only read, so its shape does not matter.
    let step = adamw_step_in_place(&wide, &wide, &wide, &tall, params_for_step(0), None);
    assert_eq!(step.writes.end, StepEnd::Taken);
}

#[test]
fn steps_apply_in_turn_by_hand() {
    // The first step is 8, 4, 4 with the gradient 2; then the gradient is zero: the first moment
    // is halved, the second moment quartered, and the parameter is 0.5 * 2 - 2 * (1.5 / (1 + 1)),
    // then 0.5 * -0.5 - 2 * (0.75 / (0.5 + 1)).
    let params = || AdamWStepParams::<Ieee> {
        beta1: 0.5,
        beta2: 0.25,
        scale_m: 1.0,
        scale_v: 1.0,
        eps: 1.0,
        lr: 2.0,
        lr_lambda: 0.5,
    };
    for dtype in [DType::F32, DType::F16, DType::BF16] {
        let mut theta = Numbers::new(&[8.0], dtype);
        let mut m = Numbers::new(&[4.0], dtype);
        let mut v = Numbers::new(&[4.0], dtype);
        let expected = [(3.0, 4.0, 2.0), (1.5, 1.0, -0.5), (0.75, 0.25, -1.25)];
        for (step, (next_m, next_v, next_theta)) in expected.into_iter().enumerate() {
            let g = Numbers::new(&[if step == 0 { 2.0 } else { 0.0 }], dtype);
            let taken = adamw_step_in_place(
                &theta.tensor(&[1]),
                &m.tensor(&[1]),
                &v.tensor(&[1]),
                &g.tensor(&[1]),
                params(),
                None,
            );
            assert_eq!(taken.writes.end, StepEnd::Taken);
            let state = match taken.outcome {
                StepOutcome::Host(state) => state,
                _ => panic!("expected a step on the host"),
            };
            theta = of_result(state.theta);
            m = of_result(state.first_moment);
            v = of_result(state.second_moment);
            assert_eq!(widened(&m), vec![next_m]);
            assert_eq!(widened(&v), vec![next_v]);
            assert_eq!(widened(&theta), vec![next_theta]);
        }
    }
}
