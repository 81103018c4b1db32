use adaptivegrain::format::{
    check_clip_format, output_format, select_kernel, ClipFormat, ColorFamily, FormatError,
    Kernel, KernelError, SampleType,
};

fn fmt(family: ColorFamily, sample_type: SampleType, bits: u8, ssw: u8, ssh: u8) -> ClipFormat {
    ClipFormat {
        color_family: family,
        sample_type,
        bits_per_sample: bits,
        sub_sampling_w: ssw,
        sub_sampling_h: ssh,
    }
}

#[test]
fn variable_format_is_refused() {
    assert_eq!(check_clip_format(None), Err(FormatError::VariableFormat));
}

#[test]
fn half_precision_float_is_refused() {
    let half = fmt(ColorFamily::YUV, SampleType::Float, 16, 1, 1);
    assert_eq!(check_clip_format(Some(half)), Err(FormatError::HalfPrecisionFloat));
}

#[test]
fn single_precision_float_is_accepted() {
    let single = fmt(ColorFamily::YUV, SampleType::Float, 32, 1, 1);
    assert_eq!(check_clip_format(Some(single)), Ok(single));
}

#[test]
fn integer_formats_are_accepted_at_any_depth() {
    for bits in [8u8, 10, 16, 32, 40] {
        let f = fmt(ColorFamily::YUV, SampleType::Integer, bits, 1, 0);
        assert_eq!(check_clip_format(Some(f)), Ok(f));
    }
}

#[test]
fn output_is_grey_without_subsampling() {
    let src = fmt(ColorFamily::YUV, SampleType::Integer, 10, 1, 1);
    let out = output_format(&src);
    assert_eq!(out, fmt(ColorFamily::Gray, SampleType::Integer, 10, 0, 0));
    let float_src = fmt(ColorFamily::RGB, SampleType::Float, 32, 0, 0);
    assert_eq!(
        output_format(&float_src),
        fmt(ColorFamily::Gray, SampleType::Float, 32, 0, 0)
    );
}

#[test]
fn output_ignores_subsampling_and_family() {
    let a = fmt(ColorFamily::YUV, SampleType::Integer, 12, 1, 1);
    let b = fmt(ColorFamily::YCoCg, SampleType::Integer, 12, 0, 2);
    assert_eq!(output_format(&a), output_format(&b));
}

#[test]
fn mask_of_mask_is_accepted_with_same_kernel() {
    let src = fmt(ColorFamily::YUV, SampleType::Integer, 16, 1, 1);
    let out = output_format(&src);
    assert_eq!(check_clip_format(Some(out)), Ok(out));
    assert_eq!(select_kernel(&out), select_kernel(&src));
}

#[test]
fn kernels_by_depth() {
    let int = |bits| fmt(ColorFamily::YUV, SampleType::Integer, bits, 1, 1);
    assert_eq!(select_kernel(&int(1)), Ok(Kernel::Integer8));
    assert_eq!(select_kernel(&int(8)), Ok(Kernel::Integer8));
    assert_eq!(select_kernel(&int(9)), Ok(Kernel::Integer16));
    assert_eq!(select_kernel(&int(16)), Ok(Kernel::Integer16));
    assert_eq!(select_kernel(&int(17)), Ok(Kernel::Integer32));
    assert_eq!(select_kernel(&int(32)), Ok(Kernel::Integer32));
    assert_eq!(select_kernel(&int(33)), Err(KernelError::UnsupportedDepth(33)));
    let float = fmt(ColorFamily::YUV, SampleType::Float, 32, 1, 1);
    assert_eq!(select_kernel(&float), Ok(Kernel::Float));
}
