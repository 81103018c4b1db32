//! Clip formats: which formats the mask accepts, the format it produces, and
//! the sample kernel that processes each format.
use vstd::prelude::*;

verus! {

/// How the samples of a clip are stored.
#[derive(Clone, Copy, Debug, PartialEq, Eq, Structural)]
pub enum SampleType {
    Integer,
    Float,
}

/// The colour family of a clip.
#[derive(Clone, Copy, Debug, PartialEq, Eq, Structural)]
pub enum ColorFamily {
    Gray,
    RGB,
    YUV,
    YCoCg,
    Compat,
}

/// A constant clip format, described by the values the host reports for it.
#[derive(Clone, Copy, Debug, PartialEq, Eq, Structural)]
pub struct ClipFormat {
    pub color_family: ColorFamily,
    pub sample_type: SampleType,
    pub bits_per_sample: u8,
    pub sub_sampling_w: u8,
    pub sub_sampling_h: u8,
}

/// Why a clip is refused when a mask is created for it.
#[derive(Clone, Copy, Debug, PartialEq, Eq, Structural)]
pub enum FormatError {
    /// The clip's format is not constant.
    VariableFormat,
    /// The clip holds floating point samples that are not 32 bits wide.
    HalfPrecisionFloat,
}

/// The routine that turns the luma plane of a source frame into the mask.
#[derive(Clone, Copy, Debug, PartialEq, Eq, Structural)]
pub enum Kernel {
    /// Integer samples of at most 8 bits, stored in bytes.
    Integer8,
    /// Integer samples of 9 to 16 bits, stored in 16-bit words.
    Integer16,
    /// Integer samples of 17 to 32 bits, stored in 32-bit words.
    Integer32,
    /// Floating point samples.
    Float,
}

/// Why a frame of an accepted clip cannot be processed.
#[derive(Clone, Copy, Debug, PartialEq, Eq, Structural)]
pub enum KernelError {
    /// Integer samples wider than 32 bits; the depth is carried along.
    UnsupportedDepth(u8),
}

/// A constant format is accepted unless it holds floating point samples of a
/// width other than 32 bits.
pub open spec fn accepts_format(format: ClipFormat) -> bool {
    !(format.sample_type == SampleType::Float && format.bits_per_sample != 32)
}

/// The outcome of creating a mask for a clip whose format is `format`
/// (`None` for a clip whose format is not constant).
pub open spec fn spec_check_clip_format(format: Option<ClipFormat>) -> Result<ClipFormat, FormatError> {
    match format {
        None => Err(FormatError::VariableFormat),
        Some(f) => if accepts_format(f) {
            Ok(f)
        } else {
            Err(FormatError::HalfPrecisionFloat)
        },
    }
}

/// The mask is a single grey plane with the sample type and depth of the source.
pub open spec fn spec_output_format(input: ClipFormat) -> ClipFormat {
    ClipFormat {
        color_family: ColorFamily::Gray,
        sample_type: input.sample_type,
        bits_per_sample: input.bits_per_sample,
        sub_sampling_w: 0,
        sub_sampling_h: 0,
    }
}

/// The kernel for a format: integer depths up to 8, 16 and 32 bits go to the
/// byte, word and double-word kernels; wider integers are refused; floating
/// point samples go to the float kernel.
pub open spec fn spec_select_kernel(format: ClipFormat) -> Result<Kernel, KernelError> {
    match format.sample_type {
        SampleType::Integer => {
            let depth = format.bits_per_sample;
            if depth <= 8 {
                Ok(Kernel::Integer8)
            } else if depth <= 16 {
                Ok(Kernel::Integer16)
            } else if depth <= 32 {
                Ok(Kernel::Integer32)
            } else {
                Err(KernelError::UnsupportedDepth(depth))
            }
        },
        SampleType::Float => Ok(Kernel::Float),
    }
}

/// The width in bits of the storage a kernel reads and writes.
pub open spec fn kernel_bits(kernel: Kernel) -> nat {
    match kernel {
        Kernel::Integer8 => 8,
        Kernel::Integer16 => 16,
        Kernel::Integer32 => 32,
        Kernel::Float => 32,
    }
}

/// Decides whether a mask can be created for a clip of the given format
/// (`None` when the clip's format is not constant); on success the format is
/// handed back.
pub fn check_clip_format(format: Option<ClipFormat>) -> (r: Result<ClipFormat, FormatError>)
    ensures
        r == spec_check_clip_format(format),
        r is Ok <==> (format is Some && accepts_format(format->0)),
        r == Err::<ClipFormat, FormatError>(FormatError::VariableFormat) <==> format is None,
        format is Some && format->0.sample_type == SampleType::Integer ==> r == Ok::<
            ClipFormat,
            FormatError,
        >(format->0),
        format is Some && format->0.sample_type == SampleType::Float ==> (r is Ok
            <==> format->0.bits_per_sample == 32),
        r matches Ok(g) ==> format == Some(g),
{
    match format {
        None => Err(FormatError::VariableFormat),
        Some(f) => {
            let is_float = match f.sample_type {
                SampleType::Float => true,
                SampleType::Integer => false,
            };
            if is_float && f.bits_per_sample != 32 {
                Err(FormatError::HalfPrecisionFloat)
            } else {
                Ok(f)
            }
        },
    }
}

/// The format of the mask clip made from a source of format `input`.
pub fn output_format(input: &ClipFormat) -> (r: ClipFormat)
    ensures
        r == spec_output_format(*input),
        r.color_family == ColorFamily::Gray,
        r.sample_type == input.sample_type,
        r.bits_per_sample == input.bits_per_sample,
        r.sub_sampling_w == 0,
        r.sub_sampling_h == 0,
{
    ClipFormat {
        color_family: ColorFamily::Gray,
        sample_type: input.sample_type,
        bits_per_sample: input.bits_per_sample,
        sub_sampling_w: 0,
        sub_sampling_h: 0,
    }
}

/// Chooses the kernel that processes frames of the given format.
pub fn select_kernel(format: &ClipFormat) -> (r: Result<Kernel, KernelError>)
    ensures
        r == spec_select_kernel(*format),
{
    match format.sample_type {
        SampleType::Integer => {
            let depth = format.bits_per_sample;
            if depth <= 8 {
                Ok(Kernel::Integer8)
            } else if depth <= 16 {
                Ok(Kernel::Integer16)
            } else if depth <= 32 {
                Ok(Kernel::Integer32)
            } else {
                Err(KernelError::UnsupportedDepth(depth))
            }
        },
        SampleType::Float => Ok(Kernel::Float),
    }
}

/// Only the sample type and depth of the source decide the mask's format and
/// the kernel that computes it: its colour family and chroma subsampling do
/// not matter, and the mask is always a grey clip without subsampling.
pub proof fn lemma_output_ignores_layout(a: ClipFormat, b: ClipFormat)
    requires
        a.sample_type == b.sample_type,
        a.bits_per_sample == b.bits_per_sample,
    ensures
        spec_output_format(a) == spec_output_format(b),
        spec_select_kernel(a) == spec_select_kernel(b),
        spec_output_format(a).color_family == ColorFamily::Gray,
        spec_output_format(a).sub_sampling_w == 0,
        spec_output_format(a).sub_sampling_h == 0,
{
}

/// A mask can itself be masked: the format of the mask of an accepted clip is
/// accepted too, and its frames go to the same kernel as the source's.
pub proof fn lemma_output_accepted(input: ClipFormat)
    requires
        accepts_format(input),
    ensures
        spec_check_clip_format(Some(spec_output_format(input))) == Ok::<ClipFormat, FormatError>(
            spec_output_format(input),
        ),
        spec_select_kernel(spec_output_format(input)) == spec_select_kernel(input),
{
}

/// Every accepted floating point clip, and every accepted integer clip of at
/// most 32 bits, has a kernel: no frame of it is refused.
pub proof fn lemma_accepted_has_kernel(format: ClipFormat)
    requires
        spec_check_clip_format(Some(format)) is Ok,
        format.sample_type == SampleType::Float || format.bits_per_sample <= 32,
    ensures
        spec_select_kernel(format) is Ok,
        format.sample_type == SampleType::Float ==> spec_select_kernel(format)
            == Ok::<Kernel, KernelError>(Kernel::Float),
{
}

/// The kernel chosen for an integer clip stores samples at least as wide as
/// the clip's depth, and no narrower kernel would do.
pub proof fn lemma_kernel_holds_depth(format: ClipFormat, kernel: Kernel)
    requires
        format.sample_type == SampleType::Integer,
        spec_select_kernel(format) == Ok::<Kernel, KernelError>(kernel),
    ensures
        format.bits_per_sample <= kernel_bits(kernel),
        kernel_bits(kernel) == 8 || format.bits_per_sample > kernel_bits(kernel) / 2,
{
}

/// Which clips a mask is created for: every constant integer format, at any
/// depth and in any layout, is accepted and handed back unchanged; a constant
/// floating point format is accepted exactly when its samples are 32 bits
/// wide, and refused as half precision otherwise; a format that is not
/// constant is refused as such.
pub proof fn lemma_accepted_formats(format: ClipFormat)
    ensures
        format.sample_type == SampleType::Integer ==> spec_check_clip_format(Some(format)) == Ok::<
            ClipFormat,
            FormatError,
        >(format),
        format.sample_type == SampleType::Float && format.bits_per_sample == 32
            ==> spec_check_clip_format(Some(format)) == Ok::<ClipFormat, FormatError>(format),
        format.sample_type == SampleType::Float && format.bits_per_sample != 32
            ==> spec_check_clip_format(Some(format)) == Err::<ClipFormat, FormatError>(
            FormatError::HalfPrecisionFloat,
        ),
        spec_check_clip_format(None) == Err::<ClipFormat, FormatError>(FormatError::VariableFormat),
{
}

/// The mask keeps the source's sample type and depth, and is a grey clip
/// without subsampling, for every source format.
pub proof fn lemma_output_keeps_type_and_depth(input: ClipFormat)
    ensures
        spec_output_format(input).sample_type == input.sample_type,
        spec_output_format(input).bits_per_sample == input.bits_per_sample,
        spec_output_format(input).color_family == ColorFamily::Gray,
        spec_output_format(input).sub_sampling_w == 0,
        spec_output_format(input).sub_sampling_h == 0,
        accepts_format(input) ==> accepts_format(spec_output_format(input)),
{
}

/// Every format gets an answer: floating point samples go to the float kernel;
/// an integer depth of at most 32 bits gets the narrowest of the 8-, 16- and
/// 32-bit kernels that holds it; a wider integer depth is refused with that
/// very depth.
pub proof fn lemma_kernel_for_every_format(format: ClipFormat)
    ensures
        format.sample_type == SampleType::Float ==> spec_select_kernel(format) == Ok::<
            Kernel,
            KernelError,
        >(Kernel::Float),
        format.sample_type == SampleType::Integer && format.bits_per_sample <= 8
            ==> spec_select_kernel(format) == Ok::<Kernel, KernelError>(Kernel::Integer8),
        format.sample_type == SampleType::Integer && 8 < format.bits_per_sample <= 16
            ==> spec_select_kernel(format) == Ok::<Kernel, KernelError>(Kernel::Integer16),
        format.sample_type == SampleType::Integer && 16 < format.bits_per_sample <= 32
            ==> spec_select_kernel(format) == Ok::<Kernel, KernelError>(Kernel::Integer32),
        format.sample_type == SampleType::Integer && format.bits_per_sample > 32
            ==> spec_select_kernel(format) == Err::<Kernel, KernelError>(
            KernelError::UnsupportedDepth(format.bits_per_sample),
        ),
{
}

} // verus!
