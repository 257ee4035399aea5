//! The protocol's promises exercised on concrete values: alignment
//! arithmetic, overflow detection, reset/replay reproducibility, and
//! bit-exact float patterns.

use zaw::align::align_up;
use zaw::reader::Reader;
use zaw::writer::Writer;

#[test]
fn align_up_formula() {
    assert_eq!(0, align_up(0, 4));
    assert_eq!(4, align_up(1, 4));
    assert_eq!(4, align_up(3, 4));
    assert_eq!(4, align_up(4, 4));
    assert_eq!(8, align_up(5, 4));
    assert_eq!(0, align_up(0, 8));
    assert_eq!(8, align_up(1, 8));
    assert_eq!(8, align_up(8, 8));
    assert_eq!(16, align_up(9, 8));
    assert_eq!(7, align_up(7, 1));
}

#[test]
fn fits_detects_overflow() {
    let mut writer = Writer::from(vec![0u8; 8]);
    assert!(writer.fits(4, 1));
    assert!(writer.fits(8, 1));
    assert!(!writer.fits(4, 3));
    writer.write_u32(1);
    assert!(writer.fits(4, 1));
    assert!(!writer.fits(8, 1));
    writer.write_u32(2);
    assert!(!writer.fits(4, 1));
    assert!(!writer.fits(1, 1));
    assert!(writer.fits(4, 0));

    let mut reader = Reader::from(writer.into_buffer());
    reader.reset();
    assert_eq!(1, reader.read_u32());
    assert_eq!(2, reader.read_u32());
    assert!(!reader.fits(1, 1));
}

#[test]
fn reset_replay_reproduces_bytes() {
    let mut writer = Writer::from(vec![0u8; 64]);
    writer.write_u8(1);
    writer.write_u32(0xdead_beef);
    writer.write_u8(3);
    writer.write_f64_bits((6.5f64).to_bits());
    writer.copy_array_i32(&[-7, 7]);
    let first = writer.buffer().clone();

    writer.reset();
    writer.write_u8(1);
    writer.write_u32(0xdead_beef);
    writer.write_u8(3);
    writer.write_f64_bits((6.5f64).to_bits());
    writer.copy_array_i32(&[-7, 7]);

    assert_eq!(&first, writer.buffer());
}

#[test]
fn float64_nan_bits_round_trip() {
    let nan_bits = 0x7ff8_0000_0000_0001u64;
    let neg_zero_bits = (-0.0f64).to_bits();
    let mut writer = Writer::from(vec![0u8; 32]);
    writer.write_f64_bits(nan_bits);
    writer.write_f64_bits(neg_zero_bits);

    let mut reader = Reader::from(writer.into_buffer());
    reader.reset();
    assert_eq!(nan_bits, reader.read_f64_bits());
    assert_eq!(neg_zero_bits, reader.read_f64_bits());
}

#[test]
fn float32_nan_bits_round_trip() {
    let nan_bits = 0x7fc0_0001u32;
    let neg_zero_bits = (-0.0f32).to_bits();
    let mut writer = Writer::from(vec![0u8; 16]);
    writer.write_f32_bits(nan_bits);
    writer.write_f32_bits(neg_zero_bits);

    let mut reader = Reader::from(writer.into_buffer());
    reader.reset();
    assert_eq!(nan_bits, reader.read_f32_bits());
    assert_eq!(neg_zero_bits, reader.read_f32_bits());
}

#[test]
fn empty_float64_array() {
    let mut writer = Writer::from(vec![0u8; 16]);
    writer.copy_array_f64_bits(&[]);

    let storage = writer.into_buffer();
    assert_eq!(&[0, 0, 0, 0][..], &storage[..4]);

    let mut reader = Reader::from(storage);
    reader.reset();
    let arr = reader.read_array_f64_bits();
    assert_eq!(0, arr.len());
}

#[test]
fn write_usize_stores_u32() {
    let mut writer = Writer::from(vec![0u8; 8]);
    writer.write_usize(0x0102_0304);

    let storage = writer.into_buffer();
    assert_eq!(&[4, 3, 2, 1][..], &storage[..4]);

    let mut reader = Reader::from(storage);
    reader.reset();
    assert_eq!(0x0102_0304, reader.read_u32());
}

#[test]
fn padding_bytes_stay_zero() {
    let mut writer = Writer::from(vec![0u8; 32]);
    writer.write_u8(0xff);
    writer.write_u32(0xffff_ffff);
    writer.write_u8(0xff);
    writer.write_f64_bits(0xffff_ffff_ffff_ffffu64);

    let storage = writer.into_buffer();
    // Bytes 1..4 pad the u32; bytes 9..16 pad the 8-byte value.
    assert_eq!(&[0, 0, 0][..], &storage[1..4]);
    assert_eq!(&[0, 0, 0, 0, 0, 0, 0][..], &storage[9..16]);
}
