use cks::adpcm::AdpcmCore;
use cks::audio_util::{
    convert_f_to_i16, convert_f_to_i32, convert_i16_to_i32, convert_i32_to_i16, convert_i8_to_i32,
};
use cks::decoder::{Decoder, DecoderType};
use cks::error::{AdpcmError, CksError};
use cks::file_header::FileHeader;
use cks::reader::ByteReader;
use cks::sample_info::SampleInfo;
use cks::FormatType;

/// A container: marker, header fields, a sample-info record, then `data`.
fn container(format: u8, channels: u8, block_bytes: u16, data: &[u8]) -> Vec<u8> {
    let mut v = Vec::new();
    v.extend_from_slice(b"ckmk");
    v.extend_from_slice(&1u32.to_le_bytes());
    v.extend_from_slice(&2u32.to_le_bytes());
    v.extend_from_slice(&3u32.to_le_bytes());
    v.push(format);
    v.push(channels);
    v.extend_from_slice(&44100u16.to_le_bytes());
    v.extend_from_slice(&(-1i32).to_le_bytes());
    v.extend_from_slice(&block_bytes.to_le_bytes());
    v.extend_from_slice(&16u16.to_le_bytes());
    v.extend_from_slice(&200u16.to_le_bytes());
    v.extend_from_slice(&(-5i16).to_le_bytes());
    v.extend_from_slice(&7u32.to_le_bytes());
    v.extend_from_slice(&99u32.to_le_bytes());
    v.extend_from_slice(&(-1i16).to_le_bytes());
    v.extend_from_slice(&[0, 0]);
    v.extend_from_slice(data);
    v
}

/// An ADPCM channel block: predictor, delta, history samples, then 17 nibble bytes.
fn adpcm_block(predictor: u8, delta: i16, samp2: i16, samp1: i16, nibbles: [u8; 17]) -> Vec<u8> {
    let mut v = vec![predictor];
    v.extend_from_slice(&delta.to_le_bytes());
    v.extend_from_slice(&samp2.to_le_bytes());
    v.extend_from_slice(&samp1.to_le_bytes());
    v.extend_from_slice(&nibbles);
    v
}

fn open(bytes: Vec<u8>) -> Decoder {
    match Decoder::new(ByteReader::new(bytes)) {
        Ok(d) => d,
        Err(_) => panic!("container did not open"),
    }
}

fn pcm16_bytes(samples: &[i16]) -> Vec<u8> {
    samples.iter().flat_map(|s| s.to_le_bytes()).collect()
}

#[test]
fn v() {
    let buf0 = vec![0_i16; 72];
    let buf0 = FormatType::Int16(buf0);
    let buf1 = FormatType::new_int16();
    assert_eq!(buf0, buf1);
}

#[test]
fn new_int32_is_48_zeros() {
    assert_eq!(FormatType::new_int32(), FormatType::Int32(vec![0; 48]));
    assert_eq!(FormatType::new_int32().len(), 48);
    assert!(!FormatType::new_int32().is_empty());
    assert!(FormatType::Int16(Vec::new()).is_empty());
}

#[test]
fn silent_block_decodes_to_zeros() {
    let block = adpcm_block(0, 16, 0, 0, [0; 17]);
    let mut out = vec![7i16; 36];
    let r = AdpcmCore::dec_core(&block, 0, 24, &mut out, 0, 1);
    assert_eq!(r, Ok(36));
    assert_eq!(out, vec![0i16; 36]);
}

#[test]
fn history_samples_come_first() {
    let nibbles = [0x3a, 0x7f, 0x12, 0x99, 0x00, 0xff, 0x81, 0x18, 0x42, 0x24, 0x66, 0x5c, 0xc5, 0xe1,
        0x1e, 0x70, 0x07];
    for predictor in 0..7u8 {
        let block = adpcm_block(predictor, 300, 100, 200, nibbles);
        let mut out = vec![0i16; 36];
        assert_eq!(AdpcmCore::dec_core(&block, 0, 24, &mut out, 0, 1), Ok(36));
        assert_eq!(out[0], 100);
        assert_eq!(out[1], 200);
    }
}

#[test]
fn same_block_decodes_the_same_twice() {
    let block = adpcm_block(5, 1000, -1234, 4321, [0x5a; 17]);
    let mut a = vec![1i16; 36];
    let mut b = vec![-9i16; 36];
    assert_eq!(AdpcmCore::dec_core(&block, 0, 24, &mut a, 0, 1), Ok(36));
    assert_eq!(AdpcmCore::dec_core(&block, 0, 24, &mut b, 0, 1), Ok(36));
    assert_eq!(a, b);
}

#[test]
fn prediction_and_step_follow_the_tables() {
    // predictor 1: (512, -256); low nibble 1 then high nibble 0xf (-1)
    let mut nibbles = [0u8; 17];
    nibbles[0] = 0xf1;
    let block = adpcm_block(1, 16, 10, 20, nibbles);
    let mut out = vec![0i16; 36];
    assert_eq!(AdpcmCore::dec_core(&block, 0, 24, &mut out, 0, 1), Ok(36));
    // (20 * 512 - 10 * 256) / 256 + 16 * 1 = 46
    assert_eq!(out[2], 46);
    // (46 * 512 - 20 * 256) / 256 + 16 * -1 = 56
    assert_eq!(out[3], 56);
}

#[test]
fn prediction_rounds_toward_zero() {
    // predictor 4: (240, 0); -3 * 240 / 256 = -2.8125, which rounds to -2
    let block = adpcm_block(4, 16, 0, -3, [0; 17]);
    let mut out = vec![0i16; 36];
    assert_eq!(AdpcmCore::dec_core(&block, 0, 24, &mut out, 0, 1), Ok(36));
    assert_eq!(out[2], -2);
}

#[test]
fn prediction_is_clamped_and_delta_grows() {
    // predictor 2: (0, 0); nibble 7 with delta 30000 overflows and clamps
    let block = adpcm_block(2, 30000, 0, 0, [0xf7; 17]);
    let mut out = vec![0i16; 36];
    assert_eq!(AdpcmCore::dec_core(&block, 0, 24, &mut out, 0, 1), Ok(36));
    assert_eq!(out[2], 32767);
    // 30000 * 614 / 256 = 71953, whose low 16 bits read as 6417; nibble 15 is -1
    assert_eq!(out[3], -6417);
}

#[test]
fn step_size_keeps_16_bits() {
    // after nibble 7 the step is 6417; nibble 0 scales it by 230 / 256 to 5765
    let mut nibbles = [0u8; 17];
    nibbles[0] = 0x07;
    nibbles[1] = 0x01;
    let block = adpcm_block(2, 30000, 0, 0, nibbles);
    let mut out = vec![0i16; 36];
    assert_eq!(AdpcmCore::dec_core(&block, 0, 24, &mut out, 0, 1), Ok(36));
    assert_eq!(&out[2..5], &[32767, 0, 5765]);
    // small steps: delta 16 * 768 / 256 = 48 after nibble 8
    let mut small = [0u8; 17];
    small[0] = 0x18;
    let block = adpcm_block(2, 16, 0, 0, small);
    assert_eq!(AdpcmCore::dec_core(&block, 0, 24, &mut out, 0, 1), Ok(36));
    assert_eq!(&out[2..4], &[-128, 48]);
}

#[test]
fn block_decoder_rejects_bad_shapes() {
    let block = adpcm_block(0, 16, 0, 0, [0; 17]);
    let mut out = vec![5i16; 72];
    assert_eq!(AdpcmCore::dec_core(&block, 0, 24, &mut out, 0, 3), Err(AdpcmError::InvalidStride));
    assert_eq!(AdpcmCore::dec_core(&block, 0, 6, &mut out, 0, 1), Err(AdpcmError::NoEnoughInputBytes));
    let bad = adpcm_block(7, 16, 0, 0, [0; 17]);
    assert_eq!(AdpcmCore::dec_core(&bad, 0, 24, &mut out, 0, 1), Err(AdpcmError::InvalidPredictor));
    assert_eq!(out, vec![5i16; 72]);
}

#[test]
fn short_block_gives_twice_its_length_less_twelve() {
    let block = adpcm_block(0, 16, 3, 4, [0; 17]);
    let mut out = vec![0i16; 10];
    assert_eq!(AdpcmCore::dec_core(&block, 0, 8, &mut out, 0, 1), Ok(4));
    assert_eq!(&out[..2], &[3, 4]);
}

#[test]
fn bad_marker_is_not_a_container() {
    let mut bytes = container(0, 1, 4, &[1, 2, 3, 4]);
    bytes[..4].copy_from_slice(b"XXXX");
    assert!(matches!(Decoder::new(ByteReader::new(bytes)), Err(CksError::NotCksFile)));
    assert!(matches!(Decoder::new(ByteReader::new(vec![b'c', b'k'])), Err(CksError::NotCksFile)));
}

#[test]
fn truncated_header_is_a_read_error() {
    let bytes = container(0, 1, 4, &[]);
    assert!(matches!(Decoder::new(ByteReader::new(bytes[..30].to_vec())), Err(CksError::FileRead)));
    assert!(matches!(Decoder::new(ByteReader::new(bytes[..10].to_vec())), Err(CksError::FileRead)));
    assert!(Decoder::new(ByteReader::new(bytes)).is_ok());
}

#[test]
fn sample_info_is_parsed() {
    let dec = open(container(2, 2, 48, &[]));
    let info = dec.sample_info();
    assert_eq!(info.format, DecoderType::Adpcm);
    assert_eq!(info.channels, 2);
    assert_eq!(info.sample_rate, 44100);
    assert_eq!(info.blocks, -1);
    assert_eq!(info.block_bytes, 48);
    assert_eq!(info.block_frames, 16);
    assert_eq!(info.volume, 200);
    assert_eq!(info.pan, -5);
    assert_eq!(info.loop_start, 7);
    assert_eq!(info.loop_end, 99);
    assert_eq!(info.loop_count, -1);
    assert!(dec.is_done());
    let rest = dec.into_inner().into_inner();
    assert_eq!(rest.len(), 44);
}

#[test]
fn format_codes_map_to_types() {
    let codes = [
        (0u8, DecoderType::Pcmi16),
        (1, DecoderType::Pcmi8),
        (2, DecoderType::Adpcm),
        (3, DecoderType::Pcmf32),
        (4, DecoderType::Unknown),
        (200, DecoderType::Unknown),
    ];
    for (code, ty) in codes {
        assert_eq!(open(container(code, 1, 2, &[])).sample_info().format, ty);
    }
}

#[test]
fn sample_info_reset_gives_defaults() {
    let info = open(container(0, 2, 4, &[])).sample_info().reset();
    assert_eq!(info.format, DecoderType::Unknown);
    assert_eq!(info.channels, 0);
    assert_eq!(info.volume, u16::MAX);
    assert_eq!(info.loop_end, u32::MAX);
    assert_eq!(info.block_bytes, 0);
}

#[test]
fn record_parses_from_offset() {
    let bytes = container(3, 1, 8, &[]);
    let info = SampleInfo::new(&bytes, 16);
    assert_eq!(info.format, DecoderType::Pcmf32);
    assert_eq!(info.block_bytes, 8);
    let header = match FileHeader::new(&bytes) {
        Ok(h) => h,
        Err(_) => panic!("header"),
    };
    assert_eq!(&header.marker, b"ckmk");
    assert_eq!((header.targets, header.file_type, header.file_version), (1, 2, 3));
    assert!(matches!(FileHeader::new(&bytes[..15].to_vec()), Err(CksError::FileRead)));
}

#[test]
fn mono_adpcm_stream_decodes_block_by_block() {
    let b1 = adpcm_block(0, 16, 0, 0, [0; 17]);
    let b2 = adpcm_block(0, 16, 100, 200, [0; 17]);
    let mut data = b1.clone();
    data.extend_from_slice(&b2);
    let mut dec = open(container(2, 1, 24, &data));
    let mut buf = FormatType::Int16(vec![7; 72]);
    assert_eq!(dec.decode(&mut buf, 5), Some(36));
    let mut expected = vec![0i16; 36];
    expected.extend_from_slice(&[7; 36]);
    assert_eq!(buf, FormatType::Int16(expected));
    assert!(!dec.is_done());
    assert_eq!(dec.next(&mut buf), Some(36));
    match &buf {
        FormatType::Int16(v) => {
            assert_eq!(v.len(), 72);
            assert_eq!(&v[36..], &[7; 36]);
            assert_eq!((v[0], v[1]), (100, 200));
            // predictor 0 repeats sample 1
            assert_eq!(v[2], 200);
        }
        _ => panic!("tag changed"),
    }
    assert!(dec.is_done());
    assert_eq!(dec.next(&mut buf), None);
}

#[test]
fn stereo_adpcm_is_interleaved() {
    let left = adpcm_block(0, 16, 1, 2, [0; 17]);
    let right = adpcm_block(0, 16, -1, -2, [0; 17]);
    let mut data = left.clone();
    data.extend_from_slice(&right);
    let mut dec = open(container(2, 2, 48, &data));
    let mut buf = FormatType::Int16(vec![9; 80]);
    assert_eq!(dec.next(&mut buf), Some(72));
    let mut mono_l = vec![0i16; 36];
    let mut mono_r = vec![0i16; 36];
    AdpcmCore::dec_core(&left, 0, 24, &mut mono_l, 0, 1).unwrap();
    AdpcmCore::dec_core(&right, 0, 24, &mut mono_r, 0, 1).unwrap();
    let mut expected: Vec<i16> = (0..72).map(|i| if i % 2 == 0 { mono_l[i / 2] } else { mono_r[i / 2] }).collect();
    expected.extend_from_slice(&[9; 8]);
    assert_eq!(buf, FormatType::Int16(expected));
}

#[test]
fn truncated_adpcm_block_ends_the_stream() {
    let mut data = adpcm_block(0, 16, 0, 0, [0; 17]);
    data.extend_from_slice(&[0, 16, 0]);
    let mut dec = open(container(2, 1, 24, &data));
    let mut buf = FormatType::new_int16();
    assert_eq!(dec.next(&mut buf), Some(36));
    assert_eq!(dec.next(&mut buf), None);
    assert!(dec.is_done());
    assert_eq!(dec.next(&mut buf), None);
}

#[test]
fn adpcm_with_unknown_predictor_is_none() {
    let data = adpcm_block(9, 16, 0, 0, [0; 17]);
    let mut dec = open(container(2, 1, 24, &data));
    let mut buf = FormatType::new_int16();
    assert_eq!(dec.next(&mut buf), None);
    assert_eq!(buf, FormatType::new_int16());
}

#[test]
fn pcm16_decodes_into_int32() {
    let data = pcm16_bytes(&[1, -1, 64, i16::MIN, i16::MAX, 0]);
    let mut dec = open(container(0, 1, 4, &data));
    let mut buf = FormatType::new_int32();
    assert_eq!(dec.decode(&mut buf, 2), Some(8));
    assert_eq!(buf, FormatType::Int32(vec![512, -512, 32768, -16777216]));
    assert_eq!(dec.decode(&mut buf, 2), Some(4));
    assert_eq!(buf, FormatType::Int32(vec![16776704, 0]));
    assert!(dec.is_done());
    assert_eq!(dec.decode(&mut buf, 2), None);
}

#[test]
fn unsupported_buffer_is_none() {
    let data = pcm16_bytes(&[1, 2]);
    let mut dec = open(container(0, 1, 4, &data));
    let mut buf = FormatType::new_int16();
    assert_eq!(dec.decode(&mut buf, 1), None);
    assert_eq!(buf, FormatType::new_int16());
    assert_eq!(dec.get_num_frames(), 0);
    let mut unknown = open(container(9, 1, 4, &data));
    let mut ibuf = FormatType::new_int32();
    assert_eq!(unknown.decode(&mut ibuf, 1), None);
    let mut adpcm = open(container(2, 1, 24, &[0; 24]));
    assert_eq!(adpcm.decode(&mut ibuf, 1), None);
}

#[test]
fn pcm8_and_float_decode_into_int32() {
    let mut dec = open(container(1, 1, 2, &[1, 0xff, 0x80]));
    let mut buf = FormatType::new_int32();
    assert_eq!(dec.decode(&mut buf, 4), Some(3));
    assert_eq!(buf, FormatType::Int32(vec![131072, -131072, -128 * 131072]));

    let floats: Vec<u8> = [0.5f32, -1.0, 0.25].iter().flat_map(|f| f.to_le_bytes()).collect();
    let mut fdec = open(container(3, 1, 8, &floats));
    assert_eq!(fdec.decode(&mut buf, 1), Some(8));
    assert_eq!(buf, FormatType::Int32(vec![8388608, -16777216]));
    assert_eq!(fdec.decode(&mut buf, 1), Some(4));
    assert_eq!(buf, FormatType::Int32(vec![4194304]));
}

#[test]
fn trailing_partial_sample_is_consumed_but_not_decoded() {
    let mut dec = open(container(0, 1, 4, &[1, 0, 7]));
    let mut buf = FormatType::new_int32();
    assert_eq!(dec.decode(&mut buf, 1), Some(3));
    assert_eq!(buf, FormatType::Int32(vec![512]));
    assert!(dec.is_done());
}

#[test]
fn is_done_exactly_at_the_end() {
    let data = pcm16_bytes(&[5, 6, 7, 8]);
    let mut dec = open(container(0, 1, 4, &data));
    let mut buf = FormatType::new_int32();
    assert!(!dec.is_done());
    assert_eq!(dec.next(&mut buf), Some(4));
    assert!(!dec.is_done());
    assert_eq!(dec.next(&mut buf), Some(4));
    assert!(dec.is_done());
    for _ in 0..3 {
        assert_eq!(dec.next(&mut buf), None);
        assert!(dec.is_done());
    }
    dec.set_frame_pos(1);
    assert!(!dec.is_done());
    assert_eq!(dec.next(&mut buf), Some(4));
    assert_eq!(buf, FormatType::Int32(vec![7 * 512, 8 * 512]));
}

#[test]
fn seek_then_decode_matches_sequential_decode() {
    let samples: Vec<i16> = (0..40).map(|i| (i * 37 - 700) as i16).collect();
    let data = pcm16_bytes(&samples);
    for k in 0..10u32 {
        let mut seq = open(container(0, 1, 8, &data));
        let mut buf = FormatType::new_int32();
        let mut last = None;
        for _ in 0..=k {
            last = seq.next(&mut buf);
        }
        let mut seeked = open(container(0, 1, 8, &data));
        let mut sbuf = FormatType::new_int32();
        seeked.set_frame_pos(k);
        assert_eq!(seeked.next(&mut sbuf), last);
        assert_eq!(sbuf, buf);
    }
}

#[test]
fn seek_past_end_decodes_nothing() {
    let data = pcm16_bytes(&[1, 2, 3, 4]);
    let mut dec = open(container(0, 1, 4, &data));
    let mut buf = FormatType::new_int32();
    dec.set_frame_pos(2);
    assert!(dec.is_done());
    assert_eq!(dec.next(&mut buf), None);
    dec.set_frame_pos(500);
    assert_eq!(dec.decode(&mut buf, 3), None);
    assert_eq!(buf, FormatType::new_int32());
}

#[test]
fn frame_positions() {
    let data = pcm16_bytes(&[0; 8]);
    let mut dec = open(container(0, 1, 4, &data));
    assert_eq!(dec.get_num_frames(), 0);
    assert_eq!(dec.get_frame_pos(), 11);
    let mut buf = FormatType::new_int32();
    dec.next(&mut buf);
    assert_eq!(dec.get_num_frames(), 1);
    assert_eq!(dec.get_frame_pos(), 12);
    dec.set_frame_pos(3);
    assert_eq!(dec.get_num_frames(), 3);
}

#[test]
fn i16_to_i32_widens_by_nine_bits() {
    let mut out = vec![3i32; 1];
    convert_i16_to_i32(&pcm16_bytes(&[1, -1, 300]), &mut out);
    assert_eq!(out, vec![512, -512, 153600]);
}

#[test]
fn i16_round_trips_through_i32() {
    let all: Vec<i16> = (i16::MIN..=i16::MAX).collect();
    let mut wide = Vec::new();
    convert_i16_to_i32(&pcm16_bytes(&all), &mut wide);
    let bytes: Vec<u8> = wide.iter().flat_map(|w| w.to_le_bytes()).collect();
    let mut back = Vec::new();
    convert_i32_to_i16(&bytes, &mut back);
    assert_eq!(back, all);
}

#[test]
fn i32_to_i16_shifts_arithmetically() {
    let bytes: Vec<u8> = [131072i32, -512, -513, 511, 1 << 24, i32::MIN].iter()
        .flat_map(|w| w.to_le_bytes()).collect();
    let mut out = vec![0i16; 9];
    convert_i32_to_i16(&bytes, &mut out);
    // 2^24 >> 9 is 32768, whose low 16 bits read as -32768
    assert_eq!(out, vec![256, -1, -2, 0, -32768, 0]);
}

#[test]
fn i8_to_i32_widens_by_seventeen_bits() {
    let mut out = Vec::new();
    convert_i8_to_i32(&vec![0, 1, 127, 128, 255], &mut out);
    assert_eq!(out, vec![0, 131072, 127 * 131072, -128 * 131072, -131072]);
}

#[test]
fn float_to_q24_scales_truncates_and_saturates() {
    let vals = [0.5f32, -1.0, 1.0, 1.0e10, -1.0e10, f32::NAN, f32::INFINITY, -0.0, 1.0e-30,
        -0.3];
    let bytes: Vec<u8> = vals.iter().flat_map(|f| f.to_le_bytes()).collect();
    let mut out = Vec::new();
    convert_f_to_i32(&bytes, &mut out);
    let expected: Vec<i32> = vals.iter().map(|f| (f * (1 << 24) as f32) as i32).collect();
    assert_eq!(out, expected);
    assert_eq!(&out[..5], &[8388608, -16777216, 16777216, i32::MAX, i32::MIN]);
}

#[test]
fn q24_round_trip_error_is_below_one_step() {
    let mut vals = Vec::new();
    let mut x = -1.0f32;
    while x <= 1.0 {
        vals.push(x);
        x += 0.000123457;
    }
    vals.extend_from_slice(&[1.0, -1.0, 1.0e-9, -3.0e-8, 0.999_999_9]);
    let bytes: Vec<u8> = vals.iter().flat_map(|f| f.to_le_bytes()).collect();
    let mut out = Vec::new();
    convert_f_to_i32(&bytes, &mut out);
    let step = 1.0f64 / (1u64 << 24) as f64;
    for (v, q) in vals.iter().zip(out.iter()) {
        let back = (*q as f32) / (1 << 24) as f32;
        assert!(((back as f64) - (*v as f64)).abs() < step);
    }
}

#[test]
fn reader_reads_and_seeks() {
    let mut r = ByteReader::new(vec![1, 2, 3, 4, 5]);
    let mut buf = vec![0u8; 4];
    assert_eq!(r.read(&mut buf, 1, 3), 3);
    assert_eq!(buf, vec![0, 1, 2, 3]);
    assert_eq!(r.stream_position(), 3);
    assert_eq!(r.read(&mut buf, 0, 4), 2);
    assert_eq!(buf, vec![4, 5, 2, 3]);
    r.seek(9);
    assert_eq!(r.read(&mut buf, 0, 4), 0);
    r.rewind();
    assert_eq!(r.stream_position(), 0);
    assert_eq!(r.stream_len(), 5);
}

#[test]
fn float_to_i16_matches_float_arithmetic() {
    let mut vals: Vec<f32> = vec![0.0, -0.0, 1.0, -1.0, 0.5, 2.0, -2.0, 1.5, 1.0e-40, -1.0e-45,
        f32::MAX, f32::MIN, f32::INFINITY, f32::NEG_INFINITY, f32::NAN, 0.999_999_94,
        -0.999_999_94, 1.000_000_1, -1.000_030_5];
    // integers k / 32767 sit next to rounding boundaries of the product
    for k in (-40000i32..40000).step_by(7) {
        let base = k as f32 / 32767.0;
        vals.push(base);
        vals.push(f32::from_bits(base.to_bits().wrapping_add(1)));
        vals.push(f32::from_bits(base.to_bits().wrapping_sub(1)));
    }
    let mut bits: u32 = 0x3000_0000;
    while bits < 0x4100_0000 {
        vals.push(f32::from_bits(bits));
        vals.push(f32::from_bits(bits | 0x8000_0000));
        bits += 0x1f3d;
    }
    let bytes: Vec<u8> = vals.iter().flat_map(|f| f.to_le_bytes()).collect();
    let mut out = Vec::new();
    convert_f_to_i16(&bytes, &mut out);
    let expected: Vec<i16> = vals.iter().map(|f| (f * i16::MAX as f32) as i16).collect();
    assert_eq!(out, expected);
    assert_eq!(&out[..8], &[0, 0, 32767, -32767, 16383, 32767, -32768, 32767]);
}

#[test]
fn short_adpcm_buffer_grows_to_one_block() {
    let data = adpcm_block(0, 16, 5, 6, [0; 17]);
    let mut dec = open(container(2, 1, 24, &data));
    let mut buf = FormatType::Int16(vec![1; 4]);
    assert_eq!(dec.next(&mut buf), Some(36));
    assert_eq!(buf.len(), 36);
    match &buf {
        FormatType::Int16(v) => assert_eq!(&v[..3], &[5, 6, 6]),
        _ => panic!("tag changed"),
    }
}
