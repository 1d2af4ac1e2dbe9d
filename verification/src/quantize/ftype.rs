//! Formats of quantized models.

use vstd::prelude::*;

verus! {

/// A format, by its name; `Other` is any further one, by the engine's number.
#[allow(non_camel_case_types)]
#[derive(Clone, Copy, Debug, PartialEq, Eq, Structural)]
pub enum llama_ftype {
    LLAMA_FTYPE_ALL_F32,
    LLAMA_FTYPE_MOSTLY_BF16,
    LLAMA_FTYPE_MOSTLY_F16,
    LLAMA_FTYPE_MOSTLY_Q2_K,
    LLAMA_FTYPE_MOSTLY_Q2_K_S,
    LLAMA_FTYPE_MOSTLY_Q3_K_L,
    LLAMA_FTYPE_MOSTLY_Q3_K_M,
    LLAMA_FTYPE_MOSTLY_Q3_K_S,
    LLAMA_FTYPE_MOSTLY_Q4_0,
    LLAMA_FTYPE_MOSTLY_Q4_1,
    LLAMA_FTYPE_MOSTLY_Q4_K_M,
    LLAMA_FTYPE_MOSTLY_Q4_K_S,
    LLAMA_FTYPE_MOSTLY_Q5_0,
    LLAMA_FTYPE_MOSTLY_Q5_1,
    LLAMA_FTYPE_MOSTLY_Q5_K_M,
    LLAMA_FTYPE_MOSTLY_Q5_K_S,
    LLAMA_FTYPE_MOSTLY_Q6_K,
    LLAMA_FTYPE_MOSTLY_Q8_0,
    LLAMA_FTYPE_MOSTLY_IQ1_M,
    LLAMA_FTYPE_MOSTLY_IQ1_S,
    LLAMA_FTYPE_MOSTLY_IQ2_M,
    LLAMA_FTYPE_MOSTLY_IQ2_S,
    LLAMA_FTYPE_MOSTLY_IQ2_XS,
    LLAMA_FTYPE_MOSTLY_IQ2_XXS,
    LLAMA_FTYPE_MOSTLY_IQ3_M,
    LLAMA_FTYPE_MOSTLY_IQ3_S,
    LLAMA_FTYPE_MOSTLY_IQ3_XXS,
    LLAMA_FTYPE_MOSTLY_IQ4_NL,
    LLAMA_FTYPE_MOSTLY_IQ4_XS,
    LLAMA_FTYPE_MOSTLY_IQ1_KT,
    LLAMA_FTYPE_MOSTLY_IQ2_K,
    LLAMA_FTYPE_MOSTLY_IQ2_KL,
    LLAMA_FTYPE_MOSTLY_IQ2_KS,
    LLAMA_FTYPE_MOSTLY_IQ2_KT,
    LLAMA_FTYPE_MOSTLY_IQ3_K,
    LLAMA_FTYPE_MOSTLY_IQ3_KL,
    LLAMA_FTYPE_MOSTLY_IQ3_KS,
    LLAMA_FTYPE_MOSTLY_IQ3_KT,
    LLAMA_FTYPE_MOSTLY_IQ4_K,
    LLAMA_FTYPE_MOSTLY_IQ4_KS,
    LLAMA_FTYPE_MOSTLY_IQ4_KSS,
    LLAMA_FTYPE_MOSTLY_IQ4_KT,
    LLAMA_FTYPE_MOSTLY_IQ5_K,
    LLAMA_FTYPE_MOSTLY_IQ5_KS,
    LLAMA_FTYPE_MOSTLY_IQ6_K,
    LLAMA_FTYPE_MOSTLY_Q8_KV,
    Other(u32),
}

} // verus!
