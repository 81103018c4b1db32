use adaptivegrain::lut::{
    filter_row_16bit, filter_row_32bit, filter_row_8bit, peak_value, row_fits_table_16bit,
    row_fits_table_32bit, row_fits_table_8bit, LUT_LEN,
};

#[test]
fn peak_values() {
    assert_eq!(peak_value(0), 0);
    assert_eq!(peak_value(8), 255);
    assert_eq!(peak_value(10), 1023);
    assert_eq!(peak_value(16), 65535);
    assert_eq!(peak_value(30), (1u32 << 30) - 1);
    assert_eq!(peak_value(31), (1u32 << 31) - 1);
    assert_eq!(peak_value(32), u32::MAX);
}

#[test]
fn table_has_one_entry_per_8bit_level() {
    assert_eq!(LUT_LEN, 256);
}

#[test]
fn row_8bit_looks_up_each_sample() {
    let lut: Vec<u8> = (0..256u32).map(|i| (255 - i) as u8).collect();
    let src: Vec<u8> = vec![0, 1, 128, 255];
    let mut dst = vec![7u8; 4];
    assert!(row_fits_table_8bit(&src, dst.len(), lut.len(), 8));
    filter_row_8bit(&mut dst, &src, &lut, 8);
    assert_eq!(dst, vec![255, 254, 127, 0]);
}

#[test]
fn row_8bit_shorter_source_keeps_tail() {
    let lut: Vec<u8> = (0..256u32).map(|i| i as u8).collect();
    let src: Vec<u8> = vec![3, 4];
    let mut dst = vec![9u8; 4];
    filter_row_8bit(&mut dst, &src, &lut, 8);
    assert_eq!(dst, vec![3, 4, 9, 9]);
}

#[test]
fn row_16bit_uses_high_bits() {
    let lut: Vec<u16> = (0..256u32).map(|i| (i * 4) as u16).collect();
    let src: Vec<u16> = vec![0, 3, 4, 1023, 512];
    let mut dst = vec![0u16; 5];
    assert!(row_fits_table_16bit(&src, dst.len(), lut.len(), 10));
    filter_row_16bit(&mut dst, &src, &lut, 10);
    assert_eq!(dst, vec![0, 0, 4, 1020, 512]);
}

#[test]
fn row_16bit_sample_above_depth_does_not_fit() {
    let src: Vec<u16> = vec![0, 1024];
    assert!(!row_fits_table_16bit(&src, 2, 256, 10));
    assert!(row_fits_table_16bit(&src, 1, 256, 10));
    assert!(row_fits_table_16bit(&src, 2, 257, 10));
}

#[test]
fn row_32bit_full_range() {
    let lut: Vec<u32> = (0..256u32).collect();
    let src: Vec<u32> = vec![u32::MAX, 0, 1 << 24, (1 << 24) - 1];
    let mut dst = vec![0u32; 4];
    assert!(row_fits_table_32bit(&src, dst.len(), lut.len(), 32));
    filter_row_32bit(&mut dst, &src, &lut, 32);
    assert_eq!(dst, vec![255, 0, 1, 0]);
}

#[test]
fn row_8bit_short_table_does_not_fit() {
    let src: Vec<u8> = vec![10, 200];
    assert!(!row_fits_table_8bit(&src, 2, 100, 8));
    assert!(row_fits_table_8bit(&src, 1, 100, 8));
    assert!(!row_fits_table_32bit(&[300u32], 1, 256, 8));
}

#[test]
fn brighter_samples_never_use_earlier_entries() {
    let lut: Vec<u16> = (0..256u32).map(|i| i as u16).collect();
    let src: Vec<u16> = (0..4096u32).step_by(7).map(|v| v as u16).collect();
    let mut dst = vec![0u16; src.len()];
    filter_row_16bit(&mut dst, &src, &lut, 12);
    for w in dst.windows(2) {
        assert!(w[0] <= w[1]);
    }
    assert_eq!(*dst.last().unwrap(), (4095 / 16) as u16);
}

#[test]
fn equal_luma_rows_give_equal_mask_rows() {
    let lut: Vec<u16> = (0..256u32).map(|i| (i * 3) as u16).collect();
    let luma: Vec<u16> = vec![0, 300, 1023, 511];
    let mut a = vec![0u16; 4];
    let mut b = vec![0u16; 4];
    filter_row_16bit(&mut a, &luma, &lut, 10);
    filter_row_16bit(&mut b, &luma.clone(), &lut, 10);
    assert_eq!(a, b);
    assert_eq!(a, vec![0, 225, 765, 381]);
}
