//! Quantizing a model file.

pub mod ftype;

use vstd::prelude::*;

use crate::cstr::{CText, NulError};
use crate::path::{path_text, PathError};
use crate::quantize::ftype::llama_ftype;

verus! {

/// A model could not be quantized.
#[derive(Debug, PartialEq, Eq)]
pub enum QuantizeError {
    /// A path is no text.
    InvalidPath,
    /// A path held a NUL.
    Nul(NulError),
    /// The engine's status.
    Quantize(u32),
}

/// Settings of a run, as the engine takes them.
#[derive(Clone, Copy, Debug, PartialEq, Eq, Structural)]
pub struct QuantizeSettings {
    /// The format of the result.
    pub ftype: llama_ftype,
    pub nthread: i32,
    pub allow_requantize: bool,
    pub quantize_output_tensor: bool,
}

/// The settings that a caller has chosen.
#[derive(Clone, Copy, Debug, PartialEq, Eq, Structural)]
pub struct LlamaQuantizeParams {
    pub ftype: Option<llama_ftype>,
    pub nthread: Option<i32>,
    pub allow_requantize: Option<bool>,
    pub quantize_output_tensor: Option<bool>,
}

impl Default for LlamaQuantizeParams {
    /// Nothing is set.
    fn default() -> (params: LlamaQuantizeParams)
        ensures
            params == (LlamaQuantizeParams {
                ftype: None,
                nthread: None,
                allow_requantize: None,
                quantize_output_tensor: None,
            }),
    {
        LlamaQuantizeParams {
            ftype: None,
            nthread: None,
            allow_requantize: None,
            quantize_output_tensor: None,
        }
    }
}

impl LlamaQuantizeParams {
    /// The format of the result.
    pub fn with_ftype(self, ftype: llama_ftype) -> (params: LlamaQuantizeParams)
        ensures
            params == (LlamaQuantizeParams { ftype: Some(ftype), ..self }),
    {
        LlamaQuantizeParams { ftype: Some(ftype), ..self }
    }

    /// How many threads to use; 0 leaves it to the engine.
    pub fn with_n_threads(self, n_threads: i32) -> (params: LlamaQuantizeParams)
        ensures
            params == (LlamaQuantizeParams { nthread: Some(n_threads), ..self }),
    {
        LlamaQuantizeParams { nthread: Some(n_threads), ..self }
    }

    /// Whether to quantize what is quantized already.
    pub fn with_allow_requantize(self, allow_requantize: bool) -> (params: LlamaQuantizeParams)
        ensures
            params == (LlamaQuantizeParams { allow_requantize: Some(allow_requantize), ..self }),
    {
        LlamaQuantizeParams { allow_requantize: Some(allow_requantize), ..self }
    }

    /// Whether to quantize the output tensor too.
    pub fn with_quantize_output_tensor(self, quantize_output_tensor: bool) -> (params: LlamaQuantizeParams)
        ensures
            params == (LlamaQuantizeParams { quantize_output_tensor: Some(quantize_output_tensor), ..self }),
    {
        LlamaQuantizeParams { quantize_output_tensor: Some(quantize_output_tensor), ..self }
    }

    /// The settings in force: what is set here, and the engine's own value for
    /// the rest.
    pub open spec fn over(self, defaults: QuantizeSettings) -> QuantizeSettings {
        QuantizeSettings {
            ftype: match self.ftype {
                Some(v) => v,
                None => defaults.ftype,
            },
            nthread: match self.nthread {
                Some(v) => v,
                None => defaults.nthread,
            },
            allow_requantize: match self.allow_requantize {
                Some(v) => v,
                None => defaults.allow_requantize,
            },
            quantize_output_tensor: match self.quantize_output_tensor {
                Some(v) => v,
                None => defaults.quantize_output_tensor,
            },
        }
    }

    /// The settings for the engine, whose own settings are `defaults`.
    pub fn as_raw(&self, defaults: QuantizeSettings) -> (settings: QuantizeSettings)
        ensures
            settings == self.over(defaults),
    {
        QuantizeSettings {
            ftype: match self.ftype {
                Some(v) => v,
                None => defaults.ftype,
            },
            nthread: match self.nthread {
                Some(v) => v,
                None => defaults.nthread,
            },
            allow_requantize: match self.allow_requantize {
                Some(v) => v,
                None => defaults.allow_requantize,
            },
            quantize_output_tensor: match self.quantize_output_tensor {
                Some(v) => v,
                None => defaults.quantize_output_tensor,
            },
        }
    }
}

/// Where nothing is set, the engine's own settings are in force.
pub proof fn lemma_nothing_set_changes_nothing(defaults: QuantizeSettings)
    ensures
        (LlamaQuantizeParams {
            ftype: None,
            nthread: None,
            allow_requantize: None,
            quantize_output_tensor: None,
        }).over(defaults) == defaults,
{
}

/// The two files of a run, as the engine takes them.
#[derive(Debug, PartialEq, Eq)]
pub struct QuantizeFiles {
    pub input: CText,
    pub output: CText,
}

fn from_path_error(e: PathError) -> (error: QuantizeError)
    ensures
        error == match e {
            PathError::NotText => QuantizeError::InvalidPath,
            PathError::Nul(e) => QuantizeError::Nul(e),
        },
{
    match e {
        PathError::NotText => QuantizeError::InvalidPath,
        PathError::Nul(e) => QuantizeError::Nul(e),
    }
}

/// The engine can be told of this path.
pub open spec fn is_usable(path: Option<&str>) -> bool {
    path is Some && crate::cstr::nul_free(vstd::utf8::encode_utf8(path->0@))
}

/// The first half of quantizing a model: the paths as the engine takes them. The
/// input is looked at before the output.
pub fn quantize(input: Option<&str>, output: Option<&str>) -> (r: Result<
    QuantizeFiles,
    QuantizeError,
>)
    ensures
        match r {
            Ok(files) => {
                &&& is_usable(input) && is_usable(output)
                &&& files.input@ == vstd::utf8::encode_utf8(input->0@)
                &&& files.output@ == vstd::utf8::encode_utf8(output->0@)
            },
            Err(QuantizeError::InvalidPath) => {
                ||| input is None
                ||| is_usable(input) && output is None
            },
            Err(QuantizeError::Nul(e)) => {
                ||| input is Some && e.found_in(vstd::utf8::encode_utf8(input->0@))
                ||| is_usable(input) && output is Some && e.found_in(
                    vstd::utf8::encode_utf8(output->0@),
                )
            },
            Err(QuantizeError::Quantize(_)) => false,
        },
{
    let input = match path_text(input) {
        Ok(text) => text,
        Err(e) => return Err(from_path_error(e)),
    };
    let output = match path_text(output) {
        Ok(text) => text,
        Err(e) => return Err(from_path_error(e)),
    };
    Ok(QuantizeFiles { input, output })
}

/// The second half: reads the engine's status.
pub fn quantized(status: u32) -> (r: Result<(), QuantizeError>)
    ensures
        r == if status == 0 {
            Ok::<(), QuantizeError>(())
        } else {
            Err(QuantizeError::Quantize(status))
        },
{
    if status == 0 {
        Ok(())
    } else {
        Err(QuantizeError::Quantize(status))
    }
}

/// Each setting that was chosen is in force as it was chosen, and each that was not is
/// the engine's own; no choice touches another setting.
pub proof fn lemma_what_is_set_is_in_force(
    params: LlamaQuantizeParams,
    defaults: QuantizeSettings,
    settings: QuantizeSettings,
)
    requires
        call_ensures(LlamaQuantizeParams::as_raw, (&params, defaults), settings),
    ensures
        params.ftype is Some ==> settings.ftype == params.ftype->0,
        params.ftype is None ==> settings.ftype == defaults.ftype,
        params.nthread is Some ==> settings.nthread == params.nthread->0,
        params.nthread is None ==> settings.nthread == defaults.nthread,
        params.allow_requantize is Some ==> settings.allow_requantize == params.allow_requantize->0,
        params.allow_requantize is None ==> settings.allow_requantize == defaults.allow_requantize,
        params.quantize_output_tensor is Some ==> settings.quantize_output_tensor == params.quantize_output_tensor->0,
        params.quantize_output_tensor is None ==> settings.quantize_output_tensor == defaults.quantize_output_tensor,
{
}

/// Both files go to the engine as their encodings, the input as the input and the
/// output as the output; and a run is refused just where one of them is no text or
/// holds a NUL, the input's fault before the output's.
pub proof fn lemma_files_go_to_the_engine(
    input: Option<&str>,
    output: Option<&str>,
    r: Result<QuantizeFiles, QuantizeError>,
)
    requires
        call_ensures(quantize, (input, output), r),
    ensures
        r is Ok <==> {
            &&& input is Some
            &&& output is Some
            &&& !input->0@.contains('\0')
            &&& !output->0@.contains('\0')
        },
        r matches Ok(files) ==> {
            &&& files.input@ == vstd::utf8::encode_utf8(input->0@)
            &&& files.output@ == vstd::utf8::encode_utf8(output->0@)
        },
        input is None ==> r->Err_0 is InvalidPath,
        input is Some && input->0@.contains('\0') ==> {
            &&& r->Err_0 is Nul
            &&& r->Err_0->Nul_0.bytes@ == vstd::utf8::encode_utf8(input->0@)
        },
        input is Some && !input->0@.contains('\0') && output is None ==> r->Err_0 is InvalidPath,
        input is Some && !input->0@.contains('\0') && output is Some && output->0@.contains('\0')
            ==> {
            &&& r->Err_0 is Nul
            &&& r->Err_0->Nul_0.bytes@ == vstd::utf8::encode_utf8(output->0@)
        },
{
    if input is Some {
        crate::cstr::lemma_nul_byte_iff_nul_char(input->0@);
    }
    if output is Some {
        crate::cstr::lemma_nul_byte_iff_nul_char(output->0@);
    }
    if let Err(QuantizeError::Nul(e)) = r {
        if input is Some && e.found_in(vstd::utf8::encode_utf8(input->0@)) {
            crate::cstr::lemma_error_points_at_the_first_nul(
                e,
                vstd::utf8::encode_utf8(input->0@),
            );
        }
        if output is Some && e.found_in(vstd::utf8::encode_utf8(output->0@)) {
            crate::cstr::lemma_error_points_at_the_first_nul(
                e,
                vstd::utf8::encode_utf8(output->0@),
            );
        }
    }
}

/// Whatever was chosen before, a further choice comes to the engine as it was made and
/// leaves every other setting as it was. Each choice stands with what it is given, what
/// it leaves chosen, and what is in force then.
pub proof fn lemma_a_choice_changes_its_own_setting(
    params: LlamaQuantizeParams,
    defaults: QuantizeSettings,
    before: QuantizeSettings,
    ftype: (llama_ftype, LlamaQuantizeParams, QuantizeSettings),
    n_threads: (i32, LlamaQuantizeParams, QuantizeSettings),
    allow_requantize: (bool, LlamaQuantizeParams, QuantizeSettings),
    quantize_output_tensor: (bool, LlamaQuantizeParams, QuantizeSettings),
)
    requires
        call_ensures(LlamaQuantizeParams::as_raw, (&params, defaults), before),
        call_ensures(LlamaQuantizeParams::with_ftype, (params, ftype.0), ftype.1),
        call_ensures(LlamaQuantizeParams::as_raw, (&ftype.1, defaults), ftype.2),
        call_ensures(LlamaQuantizeParams::with_n_threads, (params, n_threads.0), n_threads.1),
        call_ensures(LlamaQuantizeParams::as_raw, (&n_threads.1, defaults), n_threads.2),
        call_ensures(LlamaQuantizeParams::with_allow_requantize, (params, allow_requantize.0), allow_requantize.1),
        call_ensures(LlamaQuantizeParams::as_raw, (&allow_requantize.1, defaults), allow_requantize.2),
        call_ensures(LlamaQuantizeParams::with_quantize_output_tensor, (params, quantize_output_tensor.0), quantize_output_tensor.1),
        call_ensures(LlamaQuantizeParams::as_raw, (&quantize_output_tensor.1, defaults), quantize_output_tensor.2),
    ensures
        ftype.2 == (QuantizeSettings { ftype: ftype.0, ..before }),
        n_threads.2 == (QuantizeSettings { nthread: n_threads.0, ..before }),
        allow_requantize.2 == (QuantizeSettings { allow_requantize: allow_requantize.0, ..before }),
        quantize_output_tensor.2 == (QuantizeSettings { quantize_output_tensor: quantize_output_tensor.0, ..before }),
{
}

/// A run has gone well just where its status is zero, and otherwise the error holds it.
pub proof fn lemma_status_of_a_run_is_reported(status: u32, r: Result<(), QuantizeError>)
    requires
        call_ensures(quantized, (status,), r),
    ensures
        r is Ok <==> status == 0,
        r is Err ==> r->Err_0 is Quantize && r->Err_0->Quantize_0 == status,
{
}

} // verus!
