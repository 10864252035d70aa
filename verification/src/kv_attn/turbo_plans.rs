//! When scores against TurboQuant keys are refused, and what they launch.
use crate::dtype::DType;
use crate::kv_attn::rowwise_plans::{lemma_groups, lemma_two};
use crate::kv_attn::turbo::{
    packed_request, plain_request, rotation_sizes, score_args, score_sizes, turbo_countable, turbo_fault, turbo_outcome, TurboError, TurboInputs,
    TurboOutcome, TurboPlan, TurboRequest,
};
use crate::kv_attn::turbo_kernel::TurboQuantKind;
use crate::launch::{Grid, KernelArg, Launch, Operand};
use crate::launch_laws::{counts, reads, sizes_fit_in_32_bits, writes};
use crate::layout::lemma_rank_3;
use crate::scalar::Scalars;
use crate::tensor::{Device, Tensor};
use vstd::prelude::*;

verus! {

proof fn lemma_names_by_4()
    ensures
        "qk_scores_turbo"@ + ""@ + "_sv4"@ + "_q"@ + "f32"@ + "_s"@ + "f32"@ == "qk_scores_turbo_sv4_qf32_sf32"@,
        "qk_scores_turbo"@ + ""@ + "_sv4"@ + "_q"@ + "f32"@ + "_s"@ + "f16"@ == "qk_scores_turbo_sv4_qf32_sf16"@,
        "qk_scores_turbo"@ + ""@ + "_sv4"@ + "_q"@ + "f16"@ + "_s"@ + "f32"@ == "qk_scores_turbo_sv4_qf16_sf32"@,
        "qk_scores_turbo"@ + ""@ + "_sv4"@ + "_q"@ + "f16"@ + "_s"@ + "f16"@ == "qk_scores_turbo_sv4_qf16_sf16"@,
        "qk_scores_turbo"@ + ""@ + "_sv4"@ + "_q"@ + "bf16"@ + "_s"@ + "f32"@ == "qk_scores_turbo_sv4_qbf16_sf32"@,
        "qk_scores_turbo"@ + ""@ + "_sv4"@ + "_q"@ + "bf16"@ + "_s"@ + "f16"@ == "qk_scores_turbo_sv4_qbf16_sf16"@,
{
    reveal_strlit("");
    reveal_strlit("_q");
    reveal_strlit("_s");
    reveal_strlit("_sv4");
    reveal_strlit("bf16");
    reveal_strlit("f16");
    reveal_strlit("f32");
    reveal_strlit("qk_scores_turbo");
    reveal_strlit("qk_scores_turbo_sv4_qbf16_sf16");
    reveal_strlit("qk_scores_turbo_sv4_qbf16_sf32");
    reveal_strlit("qk_scores_turbo_sv4_qf16_sf16");
    reveal_strlit("qk_scores_turbo_sv4_qf16_sf32");
    reveal_strlit("qk_scores_turbo_sv4_qf32_sf16");
    reveal_strlit("qk_scores_turbo_sv4_qf32_sf32");
    assert("qk_scores_turbo"@ + ""@ + "_sv4"@ + "_q"@ + "f32"@ + "_s"@ + "f32"@ =~= "qk_scores_turbo_sv4_qf32_sf32"@);
    assert("qk_scores_turbo"@ + ""@ + "_sv4"@ + "_q"@ + "f32"@ + "_s"@ + "f16"@ =~= "qk_scores_turbo_sv4_qf32_sf16"@);
    assert("qk_scores_turbo"@ + ""@ + "_sv4"@ + "_q"@ + "f16"@ + "_s"@ + "f32"@ =~= "qk_scores_turbo_sv4_qf16_sf32"@);
    assert("qk_scores_turbo"@ + ""@ + "_sv4"@ + "_q"@ + "f16"@ + "_s"@ + "f16"@ =~= "qk_scores_turbo_sv4_qf16_sf16"@);
    assert("qk_scores_turbo"@ + ""@ + "_sv4"@ + "_q"@ + "bf16"@ + "_s"@ + "f32"@ =~= "qk_scores_turbo_sv4_qbf16_sf32"@);
    assert("qk_scores_turbo"@ + ""@ + "_sv4"@ + "_q"@ + "bf16"@ + "_s"@ + "f16"@ =~= "qk_scores_turbo_sv4_qbf16_sf16"@);
}

proof fn lemma_names_by_8()
    ensures
        "qk_scores_turbo"@ + ""@ + "_sv8"@ + "_q"@ + "f32"@ + "_s"@ + "f32"@ == "qk_scores_turbo_sv8_qf32_sf32"@,
        "qk_scores_turbo"@ + ""@ + "_sv8"@ + "_q"@ + "f32"@ + "_s"@ + "f16"@ == "qk_scores_turbo_sv8_qf32_sf16"@,
        "qk_scores_turbo"@ + ""@ + "_sv8"@ + "_q"@ + "f16"@ + "_s"@ + "f32"@ == "qk_scores_turbo_sv8_qf16_sf32"@,
        "qk_scores_turbo"@ + ""@ + "_sv8"@ + "_q"@ + "f16"@ + "_s"@ + "f16"@ == "qk_scores_turbo_sv8_qf16_sf16"@,
        "qk_scores_turbo"@ + ""@ + "_sv8"@ + "_q"@ + "bf16"@ + "_s"@ + "f32"@ == "qk_scores_turbo_sv8_qbf16_sf32"@,
        "qk_scores_turbo"@ + ""@ + "_sv8"@ + "_q"@ + "bf16"@ + "_s"@ + "f16"@ == "qk_scores_turbo_sv8_qbf16_sf16"@,
{
    reveal_strlit("");
    reveal_strlit("_q");
    reveal_strlit("_s");
    reveal_strlit("_sv8");
    reveal_strlit("bf16");
    reveal_strlit("f16");
    reveal_strlit("f32");
    reveal_strlit("qk_scores_turbo");
    reveal_strlit("qk_scores_turbo_sv8_qbf16_sf16");
    reveal_strlit("qk_scores_turbo_sv8_qbf16_sf32");
    reveal_strlit("qk_scores_turbo_sv8_qf16_sf16");
    reveal_strlit("qk_scores_turbo_sv8_qf16_sf32");
    reveal_strlit("qk_scores_turbo_sv8_qf32_sf16");
    reveal_strlit("qk_scores_turbo_sv8_qf32_sf32");
    assert("qk_scores_turbo"@ + ""@ + "_sv8"@ + "_q"@ + "f32"@ + "_s"@ + "f32"@ =~= "qk_scores_turbo_sv8_qf32_sf32"@);
    assert("qk_scores_turbo"@ + ""@ + "_sv8"@ + "_q"@ + "f32"@ + "_s"@ + "f16"@ =~= "qk_scores_turbo_sv8_qf32_sf16"@);
    assert("qk_scores_turbo"@ + ""@ + "_sv8"@ + "_q"@ + "f16"@ + "_s"@ + "f32"@ =~= "qk_scores_turbo_sv8_qf16_sf32"@);
    assert("qk_scores_turbo"@ + ""@ + "_sv8"@ + "_q"@ + "f16"@ + "_s"@ + "f16"@ =~= "qk_scores_turbo_sv8_qf16_sf16"@);
    assert("qk_scores_turbo"@ + ""@ + "_sv8"@ + "_q"@ + "bf16"@ + "_s"@ + "f32"@ =~= "qk_scores_turbo_sv8_qbf16_sf32"@);
    assert("qk_scores_turbo"@ + ""@ + "_sv8"@ + "_q"@ + "bf16"@ + "_s"@ + "f16"@ =~= "qk_scores_turbo_sv8_qbf16_sf16"@);
}

proof fn lemma_names()
    ensures
        "qk_scores_turbo"@ + ""@ + ""@ + "_q"@ + "f32"@ + "_s"@ + "f32"@ == "qk_scores_turbo_qf32_sf32"@,
        "qk_scores_turbo"@ + ""@ + ""@ + "_q"@ + "f32"@ + "_s"@ + "f16"@ == "qk_scores_turbo_qf32_sf16"@,
        "qk_scores_turbo"@ + ""@ + ""@ + "_q"@ + "f16"@ + "_s"@ + "f32"@ == "qk_scores_turbo_qf16_sf32"@,
        "qk_scores_turbo"@ + ""@ + ""@ + "_q"@ + "f16"@ + "_s"@ + "f16"@ == "qk_scores_turbo_qf16_sf16"@,
        "qk_scores_turbo"@ + ""@ + ""@ + "_q"@ + "bf16"@ + "_s"@ + "f32"@ == "qk_scores_turbo_qbf16_sf32"@,
        "qk_scores_turbo"@ + ""@ + ""@ + "_q"@ + "bf16"@ + "_s"@ + "f16"@ == "qk_scores_turbo_qbf16_sf16"@,
{
    reveal_strlit("");
    reveal_strlit("_q");
    reveal_strlit("_s");
    reveal_strlit("bf16");
    reveal_strlit("f16");
    reveal_strlit("f32");
    reveal_strlit("qk_scores_turbo");
    reveal_strlit("qk_scores_turbo_qbf16_sf16");
    reveal_strlit("qk_scores_turbo_qbf16_sf32");
    reveal_strlit("qk_scores_turbo_qf16_sf16");
    reveal_strlit("qk_scores_turbo_qf16_sf32");
    reveal_strlit("qk_scores_turbo_qf32_sf16");
    reveal_strlit("qk_scores_turbo_qf32_sf32");
    assert("qk_scores_turbo"@ + ""@ + ""@ + "_q"@ + "f32"@ + "_s"@ + "f32"@ =~= "qk_scores_turbo_qf32_sf32"@);
    assert("qk_scores_turbo"@ + ""@ + ""@ + "_q"@ + "f32"@ + "_s"@ + "f16"@ =~= "qk_scores_turbo_qf32_sf16"@);
    assert("qk_scores_turbo"@ + ""@ + ""@ + "_q"@ + "f16"@ + "_s"@ + "f32"@ =~= "qk_scores_turbo_qf16_sf32"@);
    assert("qk_scores_turbo"@ + ""@ + ""@ + "_q"@ + "f16"@ + "_s"@ + "f16"@ =~= "qk_scores_turbo_qf16_sf16"@);
    assert("qk_scores_turbo"@ + ""@ + ""@ + "_q"@ + "bf16"@ + "_s"@ + "f32"@ =~= "qk_scores_turbo_qbf16_sf32"@);
    assert("qk_scores_turbo"@ + ""@ + ""@ + "_q"@ + "bf16"@ + "_s"@ + "f16"@ =~= "qk_scores_turbo_qbf16_sf16"@);
}

proof fn lemma_names_packed_by_4()
    ensures
        "qk_scores_turbo"@ + "_packed"@ + "_sv4"@ + "_q"@ + "f32"@ + "_s"@ + "f32"@ == "qk_scores_turbo_packed_sv4_qf32_sf32"@,
        "qk_scores_turbo"@ + "_packed"@ + "_sv4"@ + "_q"@ + "f32"@ + "_s"@ + "f16"@ == "qk_scores_turbo_packed_sv4_qf32_sf16"@,
        "qk_scores_turbo"@ + "_packed"@ + "_sv4"@ + "_q"@ + "f16"@ + "_s"@ + "f32"@ == "qk_scores_turbo_packed_sv4_qf16_sf32"@,
        "qk_scores_turbo"@ + "_packed"@ + "_sv4"@ + "_q"@ + "f16"@ + "_s"@ + "f16"@ == "qk_scores_turbo_packed_sv4_qf16_sf16"@,
        "qk_scores_turbo"@ + "_packed"@ + "_sv4"@ + "_q"@ + "bf16"@ + "_s"@ + "f32"@ == "qk_scores_turbo_packed_sv4_qbf16_sf32"@,
        "qk_scores_turbo"@ + "_packed"@ + "_sv4"@ + "_q"@ + "bf16"@ + "_s"@ + "f16"@ == "qk_scores_turbo_packed_sv4_qbf16_sf16"@,
{
    reveal_strlit("_packed");
    reveal_strlit("_q");
    reveal_strlit("_s");
    reveal_strlit("_sv4");
    reveal_strlit("bf16");
    reveal_strlit("f16");
    reveal_strlit("f32");
    reveal_strlit("qk_scores_turbo");
    reveal_strlit("qk_scores_turbo_packed_sv4_qbf16_sf16");
    reveal_strlit("qk_scores_turbo_packed_sv4_qbf16_sf32");
    reveal_strlit("qk_scores_turbo_packed_sv4_qf16_sf16");
    reveal_strlit("qk_scores_turbo_packed_sv4_qf16_sf32");
    reveal_strlit("qk_scores_turbo_packed_sv4_qf32_sf16");
    reveal_strlit("qk_scores_turbo_packed_sv4_qf32_sf32");
    assert("qk_scores_turbo"@ + "_packed"@ + "_sv4"@ + "_q"@ + "f32"@ + "_s"@ + "f32"@ =~= "qk_scores_turbo_packed_sv4_qf32_sf32"@);
    assert("qk_scores_turbo"@ + "_packed"@ + "_sv4"@ + "_q"@ + "f32"@ + "_s"@ + "f16"@ =~= "qk_scores_turbo_packed_sv4_qf32_sf16"@);
    assert("qk_scores_turbo"@ + "_packed"@ + "_sv4"@ + "_q"@ + "f16"@ + "_s"@ + "f32"@ =~= "qk_scores_turbo_packed_sv4_qf16_sf32"@);
    assert("qk_scores_turbo"@ + "_packed"@ + "_sv4"@ + "_q"@ + "f16"@ + "_s"@ + "f16"@ =~= "qk_scores_turbo_packed_sv4_qf16_sf16"@);
    assert("qk_scores_turbo"@ + "_packed"@ + "_sv4"@ + "_q"@ + "bf16"@ + "_s"@ + "f32"@ =~= "qk_scores_turbo_packed_sv4_qbf16_sf32"@);
    assert("qk_scores_turbo"@ + "_packed"@ + "_sv4"@ + "_q"@ + "bf16"@ + "_s"@ + "f16"@ =~= "qk_scores_turbo_packed_sv4_qbf16_sf16"@);
}

proof fn lemma_names_packed_by_8()
    ensures
        "qk_scores_turbo"@ + "_packed"@ + "_sv8"@ + "_q"@ + "f32"@ + "_s"@ + "f32"@ == "qk_scores_turbo_packed_sv8_qf32_sf32"@,
        "qk_scores_turbo"@ + "_packed"@ + "_sv8"@ + "_q"@ + "f32"@ + "_s"@ + "f16"@ == "qk_scores_turbo_packed_sv8_qf32_sf16"@,
        "qk_scores_turbo"@ + "_packed"@ + "_sv8"@ + "_q"@ + "f16"@ + "_s"@ + "f32"@ == "qk_scores_turbo_packed_sv8_qf16_sf32"@,
        "qk_scores_turbo"@ + "_packed"@ + "_sv8"@ + "_q"@ + "f16"@ + "_s"@ + "f16"@ == "qk_scores_turbo_packed_sv8_qf16_sf16"@,
        "qk_scores_turbo"@ + "_packed"@ + "_sv8"@ + "_q"@ + "bf16"@ + "_s"@ + "f32"@ == "qk_scores_turbo_packed_sv8_qbf16_sf32"@,
        "qk_scores_turbo"@ + "_packed"@ + "_sv8"@ + "_q"@ + "bf16"@ + "_s"@ + "f16"@ == "qk_scores_turbo_packed_sv8_qbf16_sf16"@,
{
    reveal_strlit("_packed");
    reveal_strlit("_q");
    reveal_strlit("_s");
    reveal_strlit("_sv8");
    reveal_strlit("bf16");
    reveal_strlit("f16");
    reveal_strlit("f32");
    reveal_strlit("qk_scores_turbo");
    reveal_strlit("qk_scores_turbo_packed_sv8_qbf16_sf16");
    reveal_strlit("qk_scores_turbo_packed_sv8_qbf16_sf32");
    reveal_strlit("qk_scores_turbo_packed_sv8_qf16_sf16");
    reveal_strlit("qk_scores_turbo_packed_sv8_qf16_sf32");
    reveal_strlit("qk_scores_turbo_packed_sv8_qf32_sf16");
    reveal_strlit("qk_scores_turbo_packed_sv8_qf32_sf32");
    assert("qk_scores_turbo"@ + "_packed"@ + "_sv8"@ + "_q"@ + "f32"@ + "_s"@ + "f32"@ =~= "qk_scores_turbo_packed_sv8_qf32_sf32"@);
    assert("qk_scores_turbo"@ + "_packed"@ + "_sv8"@ + "_q"@ + "f32"@ + "_s"@ + "f16"@ =~= "qk_scores_turbo_packed_sv8_qf32_sf16"@);
    assert("qk_scores_turbo"@ + "_packed"@ + "_sv8"@ + "_q"@ + "f16"@ + "_s"@ + "f32"@ =~= "qk_scores_turbo_packed_sv8_qf16_sf32"@);
    assert("qk_scores_turbo"@ + "_packed"@ + "_sv8"@ + "_q"@ + "f16"@ + "_s"@ + "f16"@ =~= "qk_scores_turbo_packed_sv8_qf16_sf16"@);
    assert("qk_scores_turbo"@ + "_packed"@ + "_sv8"@ + "_q"@ + "bf16"@ + "_s"@ + "f32"@ =~= "qk_scores_turbo_packed_sv8_qbf16_sf32"@);
    assert("qk_scores_turbo"@ + "_packed"@ + "_sv8"@ + "_q"@ + "bf16"@ + "_s"@ + "f16"@ =~= "qk_scores_turbo_packed_sv8_qbf16_sf16"@);
}

proof fn lemma_names_packed()
    ensures
        "qk_scores_turbo"@ + "_packed"@ + ""@ + "_q"@ + "f32"@ + "_s"@ + "f32"@ == "qk_scores_turbo_packed_qf32_sf32"@,
        "qk_scores_turbo"@ + "_packed"@ + ""@ + "_q"@ + "f32"@ + "_s"@ + "f16"@ == "qk_scores_turbo_packed_qf32_sf16"@,
        "qk_scores_turbo"@ + "_packed"@ + ""@ + "_q"@ + "f16"@ + "_s"@ + "f32"@ == "qk_scores_turbo_packed_qf16_sf32"@,
        "qk_scores_turbo"@ + "_packed"@ + ""@ + "_q"@ + "f16"@ + "_s"@ + "f16"@ == "qk_scores_turbo_packed_qf16_sf16"@,
        "qk_scores_turbo"@ + "_packed"@ + ""@ + "_q"@ + "bf16"@ + "_s"@ + "f32"@ == "qk_scores_turbo_packed_qbf16_sf32"@,
        "qk_scores_turbo"@ + "_packed"@ + ""@ + "_q"@ + "bf16"@ + "_s"@ + "f16"@ == "qk_scores_turbo_packed_qbf16_sf16"@,
{
    reveal_strlit("");
    reveal_strlit("_packed");
    reveal_strlit("_q");
    reveal_strlit("_s");
    reveal_strlit("bf16");
    reveal_strlit("f16");
    reveal_strlit("f32");
    reveal_strlit("qk_scores_turbo");
    reveal_strlit("qk_scores_turbo_packed_qbf16_sf16");
    reveal_strlit("qk_scores_turbo_packed_qbf16_sf32");
    reveal_strlit("qk_scores_turbo_packed_qf16_sf16");
    reveal_strlit("qk_scores_turbo_packed_qf16_sf32");
    reveal_strlit("qk_scores_turbo_packed_qf32_sf16");
    reveal_strlit("qk_scores_turbo_packed_qf32_sf32");
    assert("qk_scores_turbo"@ + "_packed"@ + ""@ + "_q"@ + "f32"@ + "_s"@ + "f32"@ =~= "qk_scores_turbo_packed_qf32_sf32"@);
    assert("qk_scores_turbo"@ + "_packed"@ + ""@ + "_q"@ + "f32"@ + "_s"@ + "f16"@ =~= "qk_scores_turbo_packed_qf32_sf16"@);
    assert("qk_scores_turbo"@ + "_packed"@ + ""@ + "_q"@ + "f16"@ + "_s"@ + "f32"@ =~= "qk_scores_turbo_packed_qf16_sf32"@);
    assert("qk_scores_turbo"@ + "_packed"@ + ""@ + "_q"@ + "f16"@ + "_s"@ + "f16"@ =~= "qk_scores_turbo_packed_qf16_sf16"@);
    assert("qk_scores_turbo"@ + "_packed"@ + ""@ + "_q"@ + "bf16"@ + "_s"@ + "f32"@ =~= "qk_scores_turbo_packed_qbf16_sf32"@);
    assert("qk_scores_turbo"@ + "_packed"@ + ""@ + "_q"@ + "bf16"@ + "_s"@ + "f16"@ =~= "qk_scores_turbo_packed_qbf16_sf16"@);
}

proof fn lemma_fast_names_by_4()
    ensures
        "qk_scores_turbo"@ + "_packed"@ + ("_fast"@ + "_sv4"@ + "c3"@ + "_res"@) + "_q"@ + "f16"@ + "_s"@
            + "f16"@ == "qk_scores_turbo_packed_fast_sv4c3_res_qf16_sf16"@,
        "qk_scores_turbo"@ + "_packed"@ + ("_fast"@ + "_sv4"@ + "c3"@ + "_nr"@) + "_q"@ + "f16"@ + "_s"@
            + "f16"@ == "qk_scores_turbo_packed_fast_sv4c3_nr_qf16_sf16"@,
        "qk_scores_turbo"@ + "_packed"@ + ("_fast"@ + "_sv4"@ + "c4"@ + "_res"@) + "_q"@ + "f16"@ + "_s"@
            + "f16"@ == "qk_scores_turbo_packed_fast_sv4c4_res_qf16_sf16"@,
        "qk_scores_turbo"@ + "_packed"@ + ("_fast"@ + "_sv4"@ + "c4"@ + "_nr"@) + "_q"@ + "f16"@ + "_s"@
            + "f16"@ == "qk_scores_turbo_packed_fast_sv4c4_nr_qf16_sf16"@,
{
    reveal_strlit("_fast");
    reveal_strlit("_nr");
    reveal_strlit("_packed");
    reveal_strlit("_q");
    reveal_strlit("_res");
    reveal_strlit("_s");
    reveal_strlit("_sv4");
    reveal_strlit("c3");
    reveal_strlit("c4");
    reveal_strlit("f16");
    reveal_strlit("qk_scores_turbo");
    reveal_strlit("qk_scores_turbo_packed_fast_sv4c3_nr_qf16_sf16");
    reveal_strlit("qk_scores_turbo_packed_fast_sv4c3_res_qf16_sf16");
    reveal_strlit("qk_scores_turbo_packed_fast_sv4c4_nr_qf16_sf16");
    reveal_strlit("qk_scores_turbo_packed_fast_sv4c4_res_qf16_sf16");
    assert("qk_scores_turbo"@ + "_packed"@ + ("_fast"@ + "_sv4"@ + "c3"@ + "_res"@) + "_q"@ + "f16"@ + "_s"@
            + "f16"@ =~= "qk_scores_turbo_packed_fast_sv4c3_res_qf16_sf16"@);
    assert("qk_scores_turbo"@ + "_packed"@ + ("_fast"@ + "_sv4"@ + "c3"@ + "_nr"@) + "_q"@ + "f16"@ + "_s"@
            + "f16"@ =~= "qk_scores_turbo_packed_fast_sv4c3_nr_qf16_sf16"@);
    assert("qk_scores_turbo"@ + "_packed"@ + ("_fast"@ + "_sv4"@ + "c4"@ + "_res"@) + "_q"@ + "f16"@ + "_s"@
            + "f16"@ =~= "qk_scores_turbo_packed_fast_sv4c4_res_qf16_sf16"@);
    assert("qk_scores_turbo"@ + "_packed"@ + ("_fast"@ + "_sv4"@ + "c4"@ + "_nr"@) + "_q"@ + "f16"@ + "_s"@
            + "f16"@ =~= "qk_scores_turbo_packed_fast_sv4c4_nr_qf16_sf16"@);
}

proof fn lemma_fast_names_by_8()
    ensures
        "qk_scores_turbo"@ + "_packed"@ + ("_fast"@ + "_sv8"@ + "c3"@ + "_res"@) + "_q"@ + "f16"@ + "_s"@
            + "f16"@ == "qk_scores_turbo_packed_fast_sv8c3_res_qf16_sf16"@,
        "qk_scores_turbo"@ + "_packed"@ + ("_fast"@ + "_sv8"@ + "c3"@ + "_nr"@) + "_q"@ + "f16"@ + "_s"@
            + "f16"@ == "qk_scores_turbo_packed_fast_sv8c3_nr_qf16_sf16"@,
        "qk_scores_turbo"@ + "_packed"@ + ("_fast"@ + "_sv8"@ + "c4"@ + "_res"@) + "_q"@ + "f16"@ + "_s"@
            + "f16"@ == "qk_scores_turbo_packed_fast_sv8c4_res_qf16_sf16"@,
        "qk_scores_turbo"@ + "_packed"@ + ("_fast"@ + "_sv8"@ + "c4"@ + "_nr"@) + "_q"@ + "f16"@ + "_s"@
            + "f16"@ == "qk_scores_turbo_packed_fast_sv8c4_nr_qf16_sf16"@,
{
    reveal_strlit("_fast");
    reveal_strlit("_nr");
    reveal_strlit("_packed");
    reveal_strlit("_q");
    reveal_strlit("_res");
    reveal_strlit("_s");
    reveal_strlit("_sv8");
    reveal_strlit("c3");
    reveal_strlit("c4");
    reveal_strlit("f16");
    reveal_strlit("qk_scores_turbo");
    reveal_strlit("qk_scores_turbo_packed_fast_sv8c3_nr_qf16_sf16");
    reveal_strlit("qk_scores_turbo_packed_fast_sv8c3_res_qf16_sf16");
    reveal_strlit("qk_scores_turbo_packed_fast_sv8c4_nr_qf16_sf16");
    reveal_strlit("qk_scores_turbo_packed_fast_sv8c4_res_qf16_sf16");
    assert("qk_scores_turbo"@ + "_packed"@ + ("_fast"@ + "_sv8"@ + "c3"@ + "_res"@) + "_q"@ + "f16"@ + "_s"@
            + "f16"@ =~= "qk_scores_turbo_packed_fast_sv8c3_res_qf16_sf16"@);
    assert("qk_scores_turbo"@ + "_packed"@ + ("_fast"@ + "_sv8"@ + "c3"@ + "_nr"@) + "_q"@ + "f16"@ + "_s"@
            + "f16"@ =~= "qk_scores_turbo_packed_fast_sv8c3_nr_qf16_sf16"@);
    assert("qk_scores_turbo"@ + "_packed"@ + ("_fast"@ + "_sv8"@ + "c4"@ + "_res"@) + "_q"@ + "f16"@ + "_s"@
            + "f16"@ =~= "qk_scores_turbo_packed_fast_sv8c4_res_qf16_sf16"@);
    assert("qk_scores_turbo"@ + "_packed"@ + ("_fast"@ + "_sv8"@ + "c4"@ + "_nr"@) + "_q"@ + "f16"@ + "_s"@
            + "f16"@ =~= "qk_scores_turbo_packed_fast_sv8c4_nr_qf16_sf16"@);
}

/// The kernel of scores over codes with a byte each is the one for the length of a subvector and
/// the types of query and scales.
pub proof fn plain_scores_launch_the_kernel_of_their_types<N: Scalars>(
    t: TurboInputs<N>,
    r: TurboRequest,
    scale: N::F64,
    plan: TurboPlan<N>,
    launch: Launch<N>,
)
    requires
        turbo_outcome(t, r, scale, Ok(TurboOutcome::Device(plan))),
        plan.scores == Some(launch),
        r.code_bits is None,
    ensures
        r.subvector_dim == 4 && t.q.spec_dtype() == DType::F32 && t.scales.spec_dtype()
            == DType::F32 ==> launch.kernel@ == "qk_scores_turbo_sv4_qf32_sf32"@,
        r.subvector_dim == 4 && t.q.spec_dtype() == DType::F32 && t.scales.spec_dtype()
            == DType::F16 ==> launch.kernel@ == "qk_scores_turbo_sv4_qf32_sf16"@,
        r.subvector_dim == 4 && t.q.spec_dtype() == DType::F16 && t.scales.spec_dtype()
            == DType::F32 ==> launch.kernel@ == "qk_scores_turbo_sv4_qf16_sf32"@,
        r.subvector_dim == 4 && t.q.spec_dtype() == DType::F16 && t.scales.spec_dtype()
            == DType::F16 ==> launch.kernel@ == "qk_scores_turbo_sv4_qf16_sf16"@,
        r.subvector_dim == 4 && t.q.spec_dtype() == DType::BF16 && t.scales.spec_dtype()
            == DType::F32 ==> launch.kernel@ == "qk_scores_turbo_sv4_qbf16_sf32"@,
        r.subvector_dim == 4 && t.q.spec_dtype() == DType::BF16 && t.scales.spec_dtype()
            == DType::F16 ==> launch.kernel@ == "qk_scores_turbo_sv4_qbf16_sf16"@,
        r.subvector_dim == 8 && t.q.spec_dtype() == DType::F32 && t.scales.spec_dtype()
            == DType::F32 ==> launch.kernel@ == "qk_scores_turbo_sv8_qf32_sf32"@,
        r.subvector_dim == 8 && t.q.spec_dtype() == DType::F32 && t.scales.spec_dtype()
            == DType::F16 ==> launch.kernel@ == "qk_scores_turbo_sv8_qf32_sf16"@,
        r.subvector_dim == 8 && t.q.spec_dtype() == DType::F16 && t.scales.spec_dtype()
            == DType::F32 ==> launch.kernel@ == "qk_scores_turbo_sv8_qf16_sf32"@,
        r.subvector_dim == 8 && t.q.spec_dtype() == DType::F16 && t.scales.spec_dtype()
            == DType::F16 ==> launch.kernel@ == "qk_scores_turbo_sv8_qf16_sf16"@,
        r.subvector_dim == 8 && t.q.spec_dtype() == DType::BF16 && t.scales.spec_dtype()
            == DType::F32 ==> launch.kernel@ == "qk_scores_turbo_sv8_qbf16_sf32"@,
        r.subvector_dim == 8 && t.q.spec_dtype() == DType::BF16 && t.scales.spec_dtype()
            == DType::F16 ==> launch.kernel@ == "qk_scores_turbo_sv8_qbf16_sf16"@,
        r.subvector_dim != 4 && r.subvector_dim != 8 && t.q.spec_dtype() == DType::F32 && t.scales.spec_dtype()
            == DType::F32 ==> launch.kernel@ == "qk_scores_turbo_qf32_sf32"@,
        r.subvector_dim != 4 && r.subvector_dim != 8 && t.q.spec_dtype() == DType::F32 && t.scales.spec_dtype()
            == DType::F16 ==> launch.kernel@ == "qk_scores_turbo_qf32_sf16"@,
        r.subvector_dim != 4 && r.subvector_dim != 8 && t.q.spec_dtype() == DType::F16 && t.scales.spec_dtype()
            == DType::F32 ==> launch.kernel@ == "qk_scores_turbo_qf16_sf32"@,
        r.subvector_dim != 4 && r.subvector_dim != 8 && t.q.spec_dtype() == DType::F16 && t.scales.spec_dtype()
            == DType::F16 ==> launch.kernel@ == "qk_scores_turbo_qf16_sf16"@,
        r.subvector_dim != 4 && r.subvector_dim != 8 && t.q.spec_dtype() == DType::BF16 && t.scales.spec_dtype()
            == DType::F32 ==> launch.kernel@ == "qk_scores_turbo_qbf16_sf32"@,
        r.subvector_dim != 4 && r.subvector_dim != 8 && t.q.spec_dtype() == DType::BF16 && t.scales.spec_dtype()
            == DType::F16 ==> launch.kernel@ == "qk_scores_turbo_qbf16_sf16"@,
{
    lemma_names_by_4();
    lemma_names_by_8();
    lemma_names();
}

/// The kernel of scores over packed codes is the one for the length of a subvector and the types of
/// query and scales.
pub proof fn packed_scores_launch_the_kernel_of_their_types<N: Scalars>(
    t: TurboInputs<N>,
    r: TurboRequest,
    scale: N::F64,
    plan: TurboPlan<N>,
    launch: Launch<N>,
)
    requires
        turbo_outcome(t, r, scale, Ok(TurboOutcome::Device(plan))),
        plan.scores == Some(launch),
        r.code_bits is Some,
    ensures
        r.subvector_dim == 4 && t.q.spec_dtype() == DType::F32 && t.scales.spec_dtype()
            == DType::F32 ==> launch.kernel@ == "qk_scores_turbo_packed_sv4_qf32_sf32"@,
        r.subvector_dim == 4 && t.q.spec_dtype() == DType::F32 && t.scales.spec_dtype()
            == DType::F16 ==> launch.kernel@ == "qk_scores_turbo_packed_sv4_qf32_sf16"@,
        r.subvector_dim == 4 && t.q.spec_dtype() == DType::F16 && t.scales.spec_dtype()
            == DType::F32 ==> launch.kernel@ == "qk_scores_turbo_packed_sv4_qf16_sf32"@,
        r.subvector_dim == 4 && r.code_bits != Some(3usize) && r.code_bits
            != Some(4usize) && t.q.spec_dtype() == DType::F16 && t.scales.spec_dtype()
            == DType::F16 ==> launch.kernel@ == "qk_scores_turbo_packed_sv4_qf16_sf16"@,
        r.subvector_dim == 4 && t.q.spec_dtype() == DType::BF16 && t.scales.spec_dtype()
            == DType::F32 ==> launch.kernel@ == "qk_scores_turbo_packed_sv4_qbf16_sf32"@,
        r.subvector_dim == 4 && t.q.spec_dtype() == DType::BF16 && t.scales.spec_dtype()
            == DType::F16 ==> launch.kernel@ == "qk_scores_turbo_packed_sv4_qbf16_sf16"@,
        r.subvector_dim == 8 && t.q.spec_dtype() == DType::F32 && t.scales.spec_dtype()
            == DType::F32 ==> launch.kernel@ == "qk_scores_turbo_packed_sv8_qf32_sf32"@,
        r.subvector_dim == 8 && t.q.spec_dtype() == DType::F32 && t.scales.spec_dtype()
            == DType::F16 ==> launch.kernel@ == "qk_scores_turbo_packed_sv8_qf32_sf16"@,
        r.subvector_dim == 8 && t.q.spec_dtype() == DType::F16 && t.scales.spec_dtype()
            == DType::F32 ==> launch.kernel@ == "qk_scores_turbo_packed_sv8_qf16_sf32"@,
        r.subvector_dim == 8 && r.code_bits != Some(3usize) && r.code_bits
            != Some(4usize) && t.q.spec_dtype() == DType::F16 && t.scales.spec_dtype()
            == DType::F16 ==> launch.kernel@ == "qk_scores_turbo_packed_sv8_qf16_sf16"@,
        r.subvector_dim == 8 && t.q.spec_dtype() == DType::BF16 && t.scales.spec_dtype()
            == DType::F32 ==> launch.kernel@ == "qk_scores_turbo_packed_sv8_qbf16_sf32"@,
        r.subvector_dim == 8 && t.q.spec_dtype() == DType::BF16 && t.scales.spec_dtype()
            == DType::F16 ==> launch.kernel@ == "qk_scores_turbo_packed_sv8_qbf16_sf16"@,
        r.subvector_dim != 4 && r.subvector_dim != 8 && t.q.spec_dtype() == DType::F32 && t.scales.spec_dtype()
            == DType::F32 ==> launch.kernel@ == "qk_scores_turbo_packed_qf32_sf32"@,
        r.subvector_dim != 4 && r.subvector_dim != 8 && t.q.spec_dtype() == DType::F32 && t.scales.spec_dtype()
            == DType::F16 ==> launch.kernel@ == "qk_scores_turbo_packed_qf32_sf16"@,
        r.subvector_dim != 4 && r.subvector_dim != 8 && t.q.spec_dtype() == DType::F16 && t.scales.spec_dtype()
            == DType::F32 ==> launch.kernel@ == "qk_scores_turbo_packed_qf16_sf32"@,
        r.subvector_dim != 4 && r.subvector_dim != 8 && t.q.spec_dtype() == DType::F16 && t.scales.spec_dtype()
            == DType::F16 ==> launch.kernel@ == "qk_scores_turbo_packed_qf16_sf16"@,
        r.subvector_dim != 4 && r.subvector_dim != 8 && t.q.spec_dtype() == DType::BF16 && t.scales.spec_dtype()
            == DType::F32 ==> launch.kernel@ == "qk_scores_turbo_packed_qbf16_sf32"@,
        r.subvector_dim != 4 && r.subvector_dim != 8 && t.q.spec_dtype() == DType::BF16 && t.scales.spec_dtype()
            == DType::F16 ==> launch.kernel@ == "qk_scores_turbo_packed_qbf16_sf16"@,
{
    lemma_names_packed_by_4();
    lemma_names_packed_by_8();
    lemma_names_packed();
}

/// Packed codes of three or four bits, in subvectors of four or eight, with query and scales in half
/// precision, have kernels of their own, with and without a residual.
pub proof fn short_codes_launch_the_fast_kernel<N: Scalars>(
    t: TurboInputs<N>,
    r: TurboRequest,
    scale: N::F64,
    plan: TurboPlan<N>,
    launch: Launch<N>,
)
    requires
        turbo_outcome(t, r, scale, Ok(TurboOutcome::Device(plan))),
        plan.scores == Some(launch),
        r.code_bits is Some,
    ensures
        r.subvector_dim == 4 && r.code_bits == Some(3usize) && t.residual_signs is Some
            && t.q.spec_dtype() == DType::F16 && t.scales.spec_dtype() == DType::F16
            ==> launch.kernel@ == "qk_scores_turbo_packed_fast_sv4c3_res_qf16_sf16"@,
        r.subvector_dim == 4 && r.code_bits == Some(3usize) && t.residual_signs is None
            && t.q.spec_dtype() == DType::F16 && t.scales.spec_dtype() == DType::F16
            ==> launch.kernel@ == "qk_scores_turbo_packed_fast_sv4c3_nr_qf16_sf16"@,
        r.subvector_dim == 4 && r.code_bits == Some(4usize) && t.residual_signs is Some
            && t.q.spec_dtype() == DType::F16 && t.scales.spec_dtype() == DType::F16
            ==> launch.kernel@ == "qk_scores_turbo_packed_fast_sv4c4_res_qf16_sf16"@,
        r.subvector_dim == 4 && r.code_bits == Some(4usize) && t.residual_signs is None
            && t.q.spec_dtype() == DType::F16 && t.scales.spec_dtype() == DType::F16
            ==> launch.kernel@ == "qk_scores_turbo_packed_fast_sv4c4_nr_qf16_sf16"@,
        r.subvector_dim == 8 && r.code_bits == Some(3usize) && t.residual_signs is Some
            && t.q.spec_dtype() == DType::F16 && t.scales.spec_dtype() == DType::F16
            ==> launch.kernel@ == "qk_scores_turbo_packed_fast_sv8c3_res_qf16_sf16"@,
        r.subvector_dim == 8 && r.code_bits == Some(3usize) && t.residual_signs is None
            && t.q.spec_dtype() == DType::F16 && t.scales.spec_dtype() == DType::F16
            ==> launch.kernel@ == "qk_scores_turbo_packed_fast_sv8c3_nr_qf16_sf16"@,
        r.subvector_dim == 8 && r.code_bits == Some(4usize) && t.residual_signs is Some
            && t.q.spec_dtype() == DType::F16 && t.scales.spec_dtype() == DType::F16
            ==> launch.kernel@ == "qk_scores_turbo_packed_fast_sv8c4_res_qf16_sf16"@,
        r.subvector_dim == 8 && r.code_bits == Some(4usize) && t.residual_signs is None
            && t.q.spec_dtype() == DType::F16 && t.scales.spec_dtype() == DType::F16
            ==> launch.kernel@ == "qk_scores_turbo_packed_fast_sv8c4_nr_qf16_sf16"@,
{
    lemma_fast_names_by_4();
    lemma_fast_names_by_8();
}

/// Query rows have a thread group each, and are rotated by the kernel of the scores.
pub open spec fn rotates_in_place(r: TurboRequest) -> bool {
    (r.subvector_dim == 4 || r.subvector_dim == 8) && r.head_dim <= 256
}

/// Scores over subvectors of four or eight, in keys of at most 256 numbers, are launched with a
/// thread group per query row, and read the query as it is; all others with a thread per score, and
/// read what the rotation, which is launched before, has left.
pub proof fn queries_are_rotated_once<N: Scalars>(
    t: TurboInputs<N>,
    r: TurboRequest,
    scale: N::F64,
    plan: TurboPlan<N>,
)
    requires
        t.valid(),
        t.q.shape()[0] * t.q.shape()[1] * r.tokens <= usize::MAX,
        turbo_outcome(t, r, scale, Ok(TurboOutcome::Device(plan))),
    ensures
        plan.output.dtype == DType::F32,
        plan.output.dims@ == seq![t.q.shape()[0], t.q.shape()[1], r.tokens],
        plan.rotation is Some <==> !rotates_in_place(r) && t.q.shape()[0] * t.q.shape()[1] > 0,
        plan.scores is Some <==> t.q.shape()[0] * t.q.shape()[1] * r.tokens > 0,
        plan.scores matches Some(launch) ==> {
            &&& t.q.spec_device() == Device::Metal(launch.device)
            &&& r.code_bits is None ==> launch.label@ == "candelora_kv_attn_turbo_qk"@
            &&& r.code_bits is Some ==> launch.label@ == "candelora_kv_attn_turbo_qk_packed"@
            &&& rotates_in_place(r) ==> (launch.grid matches Grid::PerGroup(rows) && rows
                == t.q.shape()[0] * t.q.shape()[1])
            &&& !rotates_in_place(r) ==> (launch.grid matches Grid::PerItem(items) && items
                == t.q.shape()[0] * t.q.shape()[1] * r.tokens)
        },
{
    lemma_rank_3(t.q.shape());
    lemma_two(t.q.shape());
    let (rows, tokens) = (t.q.shape()[0] * t.q.shape()[1], r.tokens as int);
    assert(rows * tokens >= 0) by (nonlinear_arith)
        requires
            rows >= 0,
            tokens >= 0,
    ;
}

/// The rotation is launched for the type of the query, with a thread for every pair. It gets the
/// query rows and their length, and is told where query and signs begin.
pub proof fn rotations_launch_the_kernel_of_their_type<N: Scalars>(
    t: TurboInputs<N>,
    r: TurboRequest,
    scale: N::F64,
    plan: TurboPlan<N>,
    launch: Launch<N>,
)
    requires
        t.valid(),
        turbo_outcome(t, r, scale, Ok(TurboOutcome::Device(plan))),
        plan.rotation == Some(launch),
    ensures
        t.q.spec_device() == Device::Metal(launch.device),
        t.q.spec_dtype() == DType::F32 ==> launch.kernel@ == "rotate_pairwise_query_f32"@,
        t.q.spec_dtype() == DType::F16 ==> launch.kernel@ == "rotate_pairwise_query_f16"@,
        t.q.spec_dtype() == DType::BF16 ==> launch.kernel@ == "rotate_pairwise_query_bf16"@,
        t.q.spec_dtype() == DType::F32 || t.q.spec_dtype() == DType::F16 || t.q.spec_dtype()
            == DType::BF16,
        launch.grid matches Grid::PerItem(pairs) && 2 * pairs == t.q.count(),
        launch.label@ == "candelora_kv_attn_turbo_rotate_q"@,
        launch.args@.len() == 5,
        counts(launch.args@[0], t.q.shape()[0] * t.q.shape()[1]),
        counts(launch.args@[1], r.head_dim as int),
        reads(launch.args@[2], 0, t.q.layout, t.q.spec_dtype()),
        reads(launch.args@[3], 3, t.pair_signs.layout, DType::F32),
        writes(launch.args@[4], 0),
{
    reveal_strlit("bf16");
    reveal_strlit("f16");
    reveal_strlit("f32");
    reveal_strlit("rotate_pairwise_query_");
    reveal_strlit("rotate_pairwise_query_bf16");
    reveal_strlit("rotate_pairwise_query_f16");
    reveal_strlit("rotate_pairwise_query_f32");
    assert("rotate_pairwise_query_"@ + "f32"@ =~= "rotate_pairwise_query_f32"@);
    assert("rotate_pairwise_query_"@ + "f16"@ =~= "rotate_pairwise_query_f16"@);
    assert("rotate_pairwise_query_"@ + "bf16"@ =~= "rotate_pairwise_query_bf16"@);
    lemma_rank_3(t.q.shape());
    lemma_two(t.q.shape());
    assert(t.q.shape().take(3) =~= t.q.shape());
    let heads = r.shape(t.q.shape()).heads;
    let sizes = rotation_sizes(heads);
    sizes_fit_in_32_bits(sizes);
    assert(sizes[0].0 <= 0xffff_ffff && sizes[1].0 <= 0xffff_ffff);
    let (rows, d) = (heads.query_rows(), r.head_dim as int);
    let half = d / 2;
    assert(0 <= rows * half && 2 * (rows * half) == rows * d) by (nonlinear_arith)
        requires
            rows >= 0,
            half >= 0,
            d == 2 * half,
    ;
}

/// The scores get the sizes of the call, the middle of the codes, 3 or 7, whether there is a
/// residual, and the scale, and are told where their tensors begin.
pub proof fn scores_are_told_their_tensors<N: Scalars>(
    t: TurboInputs<N>,
    r: TurboRequest,
    scale: N::F64,
    plan: TurboPlan<N>,
    launch: Launch<N>,
)
    requires
        t.valid(),
        turbo_outcome(t, r, scale, Ok(TurboOutcome::Device(plan))),
        plan.scores == Some(launch),
    ensures
        ({
            let n = if r.code_bits is Some {
                9int
            } else {
                7int
            };
            let args = launch.args@;
            &&& args.len() == n + 10
            &&& counts(args[0], t.q.shape()[0] * t.q.shape()[1])
            &&& counts(args[1], t.q.shape()[1] as int)
            &&& counts(args[2], r.kv_heads as int)
            &&& counts(args[3], r.repeat_factor as int)
            &&& counts(args[4], r.tokens as int)
            &&& counts(args[5], r.head_dim as int)
            &&& counts(args[6], r.subvector_dim as int)
            &&& r.code_bits matches Some(bits) ==> counts(args[7], r.scale_block_dim as int)
                && counts(args[8], bits as int)
            &&& args[n] == KernelArg::<N>::I32(
                if r.kind == TurboQuantKind::Turbo3 {
                    3i32
                } else {
                    7i32
                },
            )
            &&& counts(
                args[n + 1],
                if t.residual_signs is Some {
                    1
                } else {
                    0
                },
            )
            &&& args[n + 2] matches KernelArg::F32(single) && call_ensures(
                N::single,
                (scale,),
                single,
            )
            &&& rotates_in_place(r) ==> reads(args[n + 3], 0, t.q.layout, t.q.spec_dtype())
            &&& !rotates_in_place(r) ==> args[n + 3] == (KernelArg::<N>::Buffer {
                operand: Operand::Staged,
                offset_in_bytes: 0,
            })
            &&& reads(args[n + 4], 1, t.codes.layout, DType::U8)
            &&& reads(args[n + 5], 2, t.scales.layout, t.scales.spec_dtype())
            &&& reads(args[n + 6], 3, t.pair_signs.layout, DType::F32)
            &&& t.residual_signs matches Some(signs) ==> reads(
                args[n + 7],
                4,
                signs.layout,
                DType::U8,
            )
            &&& t.residual_scales matches Some(scales) ==> reads(
                args[n + 8],
                5,
                scales.layout,
                t.scales.spec_dtype(),
            )
            &&& t.residual_signs is None ==> args[n + 7] == (KernelArg::<N>::Buffer {
                operand: Operand::Placeholder(DType::U8),
                offset_in_bytes: 0,
            }) && args[n + 8] == (KernelArg::<N>::Buffer {
                operand: Operand::Placeholder(t.scales.spec_dtype()),
                offset_in_bytes: 0,
            })
            &&& writes(args[n + 9], 0)
        }),
{
    lemma_rank_3(t.q.shape());
    lemma_two(t.q.shape());
    let shape = r.shape(t.q.shape());
    let sizes = score_sizes(shape, r.code_bits);
    sizes_fit_in_32_bits(sizes);
    assert(sizes[0].0 <= 0xffff_ffff && sizes[1].0 <= 0xffff_ffff && sizes[2].0 <= 0xffff_ffff
        && sizes[3].0 <= 0xffff_ffff && sizes[4].0 <= 0xffff_ffff && sizes[5].0 <= 0xffff_ffff
        && sizes[6].0 <= 0xffff_ffff);
    if r.code_bits is Some {
        assert(sizes[7].0 <= 0xffff_ffff && sizes[8].0 <= 0xffff_ffff);
    }
    let single = choose|single: N::F32| #[trigger]
        call_ensures(N::single, (scale,), single) && launch.args@ == score_args::<N>(
            t,
            r,
            single,
        );
}

/// The sizes of a call go together.
pub open spec fn sizes_agree(r: TurboRequest) -> bool {
    &&& r.repeat_factor > 0 && r.head_dim > 0 && r.subvector_dim > 0 && r.scale_block_dim > 0
    &&& r.head_dim % 2 == 0
    &&& r.head_dim % r.subvector_dim == 0
    &&& r.head_dim % r.scale_block_dim == 0
    &&& r.scale_block_dim % r.subvector_dim == 0
    &&& r.code_bits matches Some(bits) ==> 1 <= bits <= 8
}

/// `values` holds `rows` rows of `head_dim` values, with a byte each, or packed, `bits` bits each.
pub open spec fn holds_values<N: Scalars>(
    values: Tensor<N>,
    r: TurboRequest,
    rows: int,
    bits: int,
) -> bool {
    &&& values.spec_dtype() == DType::U8
    &&& if r.code_bits is None {
        values.shape().len() == 2 && values.shape()[0] == rows && values.shape()[1] == r.head_dim
    } else {
        values.count() == (rows * r.head_dim * bits + 7) / 8
    }
}

/// `scales` holds a scale for every block of `rows` rows, in a format that scales have.
pub open spec fn holds_scales<N: Scalars>(scales: Tensor<N>, r: TurboRequest, rows: int) -> bool {
    &&& scales.spec_dtype() == DType::F32 || scales.spec_dtype() == DType::F16
    &&& scales.shape().len() == 2 && scales.shape()[0] == rows && scales.shape()[1] == r.head_dim
        / r.scale_block_dim
}

/// A call is accepted where its sizes go together, the query has the shape
/// `[b, kv_heads * repeat_factor, head_dim]`, codes, scales and signs fit it, the residual, which
/// has both parts or none, has the shapes and types of codes and scales, and all are on one device.
pub proof fn calls_are_accepted_where_tensors_agree<N: Scalars>(t: TurboInputs<N>, r: TurboRequest)
    ensures
        turbo_fault(t, r) is None <==> {
            let rows = t.q.shape()[0] * r.kv_heads * r.tokens;
            let device = t.q.spec_device();
            &&& sizes_agree(r)
            &&& t.residual_signs is Some <==> t.residual_scales is Some
            &&& t.q.shape().len() == 3 && t.q.shape()[2] == r.head_dim
            &&& t.q.shape()[1] == r.kv_heads * r.repeat_factor
            &&& holds_values(
                *t.codes,
                r,
                rows,
                if r.code_bits is Some {
                    r.code_bits->0 as int
                } else {
                    8
                },
            )
            &&& holds_scales(*t.scales, r, rows)
            &&& t.pair_signs.shape().len() == 1 && 2 * t.pair_signs.shape()[0] == r.head_dim
            &&& t.pair_signs.spec_dtype() == DType::F32
            &&& t.codes.spec_device() == device && t.scales.spec_device() == device
                && t.pair_signs.spec_device() == device
            &&& t.residual_signs matches Some(signs) ==> holds_values(*signs, r, rows, 1)
                && signs.spec_device() == device
            &&& t.residual_scales matches Some(scales) ==> holds_scales(*scales, r, rows)
                && scales.spec_device() == device && scales.spec_dtype() == t.scales.spec_dtype()
        },
{
    lemma_groups(t.q.shape()[1] as int, r.repeat_factor as int, r.kv_heads as int);
}

/// What is accepted is computed on the host, planned on a Metal device unless a format or a size
/// stands against it, or left to the caller: a query that the host kernels do not read is cast, and
/// tensors on a CUDA device are moved.
pub proof fn accepted_calls_have_an_outcome<N: Scalars>(
    t: TurboInputs<N>,
    r: TurboRequest,
    scale: N::F64,
    result: Result<TurboOutcome<N>, TurboError>,
)
    requires
        t.valid(),
        turbo_fault(t, r) is None,
        turbo_outcome(t, r, scale, result),
    ensures
        result is Ok <==> (t.q.spec_device() is Metal ==> {
            let rows = t.q.shape()[0] * t.q.shape()[1];
            let float = t.q.spec_dtype() == DType::F32 || t.q.spec_dtype() == DType::F16
                || t.q.spec_dtype() == DType::BF16;
            &&& rows > 0 && !rotates_in_place(r) ==> float && rows <= 0xffff_ffff && r.head_dim
                <= 0xffff_ffff
            &&& rows * r.tokens > 0 ==> {
                &&& float
                &&& rows <= 0xffff_ffff && t.q.shape()[1] <= 0xffff_ffff && r.kv_heads
                    <= 0xffff_ffff && r.repeat_factor <= 0xffff_ffff && r.tokens <= 0xffff_ffff
                    && r.head_dim <= 0xffff_ffff && r.subvector_dim <= 0xffff_ffff
                &&& r.code_bits is Some ==> r.scale_block_dim <= 0xffff_ffff
            }
        }),
        result matches Ok(outcome) ==> {
            &&& outcome is Device <==> t.q.spec_device() is Metal
            &&& outcome is MoveToHost <==> t.q.spec_device() is Cuda
            &&& outcome is Host ==> t.q.spec_device() is Cpu
            &&& outcome is CastQuery <==> t.q.spec_device() is Cpu && t.q.spec_dtype() != DType::U8
                && t.q.spec_dtype() != DType::F16 && t.q.spec_dtype() != DType::BF16
                && t.q.spec_dtype() != DType::F32
        },
{
    lemma_rank_3(t.q.shape());
    lemma_two(t.q.shape());
    let shape = r.shape(t.q.shape());
    let (rows, tokens) = (t.q.shape()[0] * t.q.shape()[1], r.tokens as int);
    assert(rows * tokens >= 0) by (nonlinear_arith)
        requires
            rows >= 0,
            tokens >= 0,
    ;
    let turning = rotation_sizes(shape.heads);
    sizes_fit_in_32_bits(turning);
    assert(turning[0].0 == rows && turning[1].0 == r.head_dim);
    let sizes = score_sizes(shape, r.code_bits);
    sizes_fit_in_32_bits(sizes);
    assert(sizes[0].0 == rows && sizes[1].0 == t.q.shape()[1] && sizes[2].0 == r.kv_heads
        && sizes[3].0 == r.repeat_factor && sizes[4].0 == r.tokens && sizes[5].0 == r.head_dim
        && sizes[6].0 == r.subvector_dim);
    if r.code_bits is Some {
        assert(sizes[7].0 == r.scale_block_dim && sizes[8].0 == r.code_bits->0);
    }
}

/// A call with a byte per code has a scale per subvector; all other numbers of a call are those
/// that the caller gives.
pub proof fn requests_keep_their_numbers(
    kv_heads: usize,
    repeat_factor: usize,
    tokens: usize,
    head_dim: usize,
    subvector_dim: usize,
    scale_block_dim: usize,
    code_bits: usize,
    kind: TurboQuantKind,
)
    ensures
        ({
            let plain = plain_request(
                kv_heads,
                repeat_factor,
                tokens,
                head_dim,
                subvector_dim,
                kind,
            );
            let packed = packed_request(
                kv_heads,
                repeat_factor,
                tokens,
                head_dim,
                subvector_dim,
                scale_block_dim,
                code_bits,
                kind,
            );
            &&& plain.code_bits is None && plain.scale_block_dim == subvector_dim
            &&& packed.code_bits == Some(code_bits) && packed.scale_block_dim == scale_block_dim
            &&& plain.kv_heads == kv_heads && packed.kv_heads == kv_heads
            &&& plain.repeat_factor == repeat_factor && packed.repeat_factor == repeat_factor
            &&& plain.tokens == tokens && packed.tokens == tokens
            &&& plain.head_dim == head_dim && packed.head_dim == head_dim
            &&& plain.subvector_dim == subvector_dim && packed.subvector_dim == subvector_dim
            &&& plain.kind == kind && packed.kind == kind
        }),
{
}

/// A refused call names what is wrong.
pub proof fn refused_calls_name_the_fault<N: Scalars>(
    t: TurboInputs<N>,
    r: TurboRequest,
    e: TurboError,
)
    requires
        turbo_fault(t, r) == Some(e),
    ensures
        e is RepeatFactorZero <==> r.repeat_factor == 0,
        e is HeadDimZero ==> r.head_dim == 0,
        e is SubvectorDimZero ==> r.subvector_dim == 0,
        e is ScaleBlockDimZero ==> r.scale_block_dim == 0,
        e matches TurboError::CodeBits(bits) ==> r.code_bits == Some(bits) && !(1 <= bits <= 8),
        e matches TurboError::OddHeadDim(dim) ==> dim == r.head_dim && dim % 2 == 1,
        e matches TurboError::SubvectorSplit { head_dim, subvector_dim } ==> head_dim == r.head_dim
            && subvector_dim == r.subvector_dim && head_dim as int % (subvector_dim as int) != 0,
        e matches TurboError::ScaleBlockSplit { head_dim, scale_block_dim } ==> head_dim
            == r.head_dim && scale_block_dim == r.scale_block_dim && head_dim as int
            % (scale_block_dim as int) != 0,
        e matches TurboError::SubvectorAcrossBlocks { scale_block_dim, subvector_dim }
            ==> scale_block_dim == r.scale_block_dim && subvector_dim == r.subvector_dim
            && scale_block_dim as int % (subvector_dim as int) != 0,
        e is UnpairedResidual ==> (t.residual_signs is Some) != (t.residual_scales is Some),
        e is QueryRank ==> t.q.shape().len() != 3,
        e matches TurboError::QueryHeadDim { got, expected } ==> got == t.q.shape()[2] && expected
            == r.head_dim && got != expected,
        e matches TurboError::HeadConfig { full_heads, kv_heads, repeat_factor } ==> full_heads
            == t.q.shape()[1] && kv_heads == r.kv_heads && repeat_factor == r.repeat_factor
            && full_heads != kv_heads * repeat_factor,
        e is CodesShape ==> r.code_bits is None && !(t.codes.shape().len() == 2
            && t.codes.shape()[1] == r.head_dim && t.codes.shape()[0] == t.q.shape()[0]
            * r.kv_heads * r.tokens),
        e is CodesSize ==> r.code_bits is Some && t.codes.count() != (t.q.shape()[0] * r.kv_heads
            * r.tokens * r.head_dim * r.code_bits->0 + 7) / 8,
        e matches TurboError::CodesDType(dtype) ==> dtype == t.codes.spec_dtype() && dtype
            != DType::U8,
        e is ScalesShape ==> !(t.scales.shape().len() == 2 && t.scales.shape()[0]
            == t.q.shape()[0] * r.kv_heads * r.tokens && t.scales.shape()[1] == r.head_dim
            / r.scale_block_dim),
        e matches TurboError::ScalesDType(dtype) ==> dtype == t.scales.spec_dtype() && dtype
            != DType::F32 && dtype != DType::F16,
        e is PairSignsShape ==> !(t.pair_signs.shape().len() == 1 && 2 * t.pair_signs.shape()[0]
            == r.head_dim),
        e matches TurboError::PairSignsDType(dtype) ==> dtype == t.pair_signs.spec_dtype() && dtype
            != DType::F32,
        e is DeviceMismatch ==> t.codes.spec_device() != t.q.spec_device()
            || t.scales.spec_device() != t.q.spec_device() || t.pair_signs.spec_device()
            != t.q.spec_device(),
        e matches TurboError::ResidualSignsDType(dtype) ==> t.residual_signs is Some && dtype
            == t.residual_signs->0.spec_dtype() && dtype != DType::U8,
        e matches TurboError::ResidualScalesDType(dtype) ==> t.residual_scales is Some && dtype
            == t.residual_scales->0.spec_dtype() && dtype != DType::F32 && dtype != DType::F16,
        e matches TurboError::ResidualScalesDTypeMismatch { scales: left, residual_scales: right }
            ==> t.residual_scales is Some && left == t.scales.spec_dtype() && right
            == t.residual_scales->0.spec_dtype() && left != right,
        e is ResidualDeviceMismatch ==> t.residual_signs is Some && t.residual_scales is Some && (
        t.residual_signs->0.spec_device() != t.q.spec_device()
            || t.residual_scales->0.spec_device() != t.q.spec_device()),
        !(e is RotationDType) && !(e is KernelDTypes) && !(e is TooLarge),
{
    lemma_groups(t.q.shape()[1] as int, r.repeat_factor as int, r.kv_heads as int);
}

/// Scores are counted where there is room to count them, the rows of the cache and the bits of its
/// codes.
pub proof fn calls_are_countable_where_they_fit<N: Scalars>(t: TurboInputs<N>, r: TurboRequest)
    requires
        t.q.shape()[0] * t.q.shape()[1] * r.tokens <= usize::MAX,
        t.q.shape()[0] * r.kv_heads * r.tokens <= usize::MAX,
        r.code_bits matches Some(bits) ==> t.q.shape()[0] * r.kv_heads * r.tokens * r.head_dim
            * bits <= usize::MAX,
    ensures
        turbo_countable(t, r),
{
}

} // verus!
