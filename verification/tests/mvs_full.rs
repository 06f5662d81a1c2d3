use frd_vnc::error::VncError;
use frd_vnc::mvs_bitstream::BitReader;
use frd_vnc::mvs_full::{
    DecodedMvsRect, MvsFullDecoder, PreparedMvsFull, MAX_MVS_DECODE_PIXELS, STREAM_TERMINAL,
};
use frd_vnc::mvs_huffman::decode_partial_ac;
use frd_vnc::mvs_paint::TILE_EDGE;
use frd_vnc::mvs_partial_record::PartialOrderEvent;
use frd_vnc::mvs_pixels::{
    apple_idct_range_limit, dequantize, inverse_dct_8x8, ycbcr_20_to_rgb, ycbcr_8_to_rgb,
};
use frd_vnc::mvs_rice::{decode_dc_rice, decode_luma_ac_rice, luma_ac_shift};
use frd_vnc::mvs_tables::{
    apple_chroma_ac_huffman, apple_luma_ac_huffman, AppleHuffmanTable, APPLE_CHROMA_AC_BITS,
    APPLE_CHROMA_AC_VALUES, APPLE_LUMA_AC_BITS, APPLE_LUMA_AC_VALUES, APPLE_NATURAL_ORDER,
};
use frd_vnc::mvs_tiles::MVS_CACHE_ENTRY_BYTES;
use frd_vnc::mvs_wire::{MvsFullRecord, MvsTables};

const RGB_CHANNELS: usize = 3;

struct TestBitWriter {
    bytes: Vec<u8>,
    bit_len: usize,
}

impl TestBitWriter {
    fn new() -> Self {
        Self {
            bytes: Vec::new(),
            bit_len: 0,
        }
    }

    fn write_bits(&mut self, value: u32, count: u8) {
        assert!(count <= u32::BITS as u8);
        for shift in (0..count).rev() {
            if self.bit_len % 8 == 0 {
                self.bytes.push(0);
            }
            let bit = ((value >> shift) & 1) as u8;
            let byte = self.bit_len / 8;
            self.bytes[byte] |= bit << (7 - self.bit_len % 8);
            self.bit_len += 1;
        }
    }

    fn write_bit_string(&mut self, bits: &str) {
        for bit in bits.bytes() {
            match bit {
                b'0' => self.write_bits(0, 1),
                b'1' => self.write_bits(1, 1),
                b' ' | b'_' => {}
                _ => panic!("invalid bit-string character"),
            }
        }
    }

    fn finish(self) -> Vec<u8> {
        self.bytes
    }
}

fn write_repeat(writer: &mut TestBitWriter, repeat: usize) {
    if repeat == 0 {
        writer.write_bits(0, 1);
    } else {
        assert!(repeat <= 15);
        writer.write_bits(1, 1);
        writer.write_bits(u32::try_from(repeat - 1).unwrap(), 4);
    }
}

fn mode_stream(runs: &[(u8, usize)]) -> Vec<u8> {
    let mut writer = TestBitWriter::new();
    writer.write_bits(0, 1); // Apple consumes one leading mode-stream bit.
    for &(mode, repeat) in runs {
        writer.write_bits(u32::from(mode), 3);
        write_repeat(&mut writer, repeat);
    }
    writer.write_bits(0x6d, 8);
    writer.finish()
}

fn terminal_only_data() -> Vec<u8> {
    let mut writer = TestBitWriter::new();
    writer.write_bits(0x6d, 8);
    writer.finish()
}

fn two_asymmetric_mode_three_tiles_data() -> Vec<u8> {
    let mut writer = TestBitWriter::new();
    for rows in [
        [0x80, 0x40, 0x20, 0x10, 0x08, 0x04, 0x02, 0x01],
        [0x01, 0x02, 0x04, 0x08, 0x10, 0x20, 0x40, 0x80],
    ] {
        writer.write_bits(0, 8); // Each row carries its own pixel mask.
        for row in rows {
            writer.write_bits(row, 8);
        }
    }
    writer.write_bits(0x6d, 8);
    writer.finish()
}

fn record<'a>(mode_stream: &'a [u8], data_stream: &'a [u8]) -> MvsFullRecord<'a> {
    record_with_thresholds(mode_stream, data_stream, 0, 0)
}

fn record_with_thresholds<'a>(
    mode_stream: &'a [u8],
    data_stream: &'a [u8],
    scale_threshold_a: u8,
    scale_threshold_b: u8,
) -> MvsFullRecord<'a> {
    MvsFullRecord {
        scale_threshold_a,
        scale_threshold_b,
        mode_stream,
        data_stream,
    }
}

fn decoder() -> MvsFullDecoder {
    MvsFullDecoder::new(MvsTables {
        luminance: [0; 64],
        chrominance: [0; 64],
    })
}

fn decoder_with_tables(luminance: u8, chrominance: u8) -> MvsFullDecoder {
    MvsFullDecoder::new(MvsTables {
        luminance: [luminance; 64],
        chrominance: [chrominance; 64],
    })
}

fn mode_five_data(tile_literals: &[&str]) -> Vec<u8> {
    let mut writer = TestBitWriter::new();
    for literal in tile_literals {
        writer.write_bit_string(literal);
    }
    writer.write_bits(0x6d, 8);
    writer.finish()
}

fn asymmetric_seed_mode_five_data(tile_count: usize) -> Vec<u8> {
    let cb_minus_forty = "11111110_000_1";
    let cr_plus_twenty_four = "111110_000_0";
    let y_minus_eighty = "1111111111110_000_1";
    let literal = format!("0_0_0_{cb_minus_forty}_{cr_plus_twenty_four}_{y_minus_eighty}_0010");
    let literals = vec![literal.as_str(); tile_count];
    mode_five_data(&literals)
}

fn mode_three_zero_bitmap_data() -> Vec<u8> {
    let mut writer = TestBitWriter::new();
    writer.write_bits(0xff, 8);
    writer.write_bits(STREAM_TERMINAL as u32, 8);
    writer.finish()
}

fn mode_four_reused_single_color_data() -> Vec<u8> {
    let mut writer = TestBitWriter::new();
    writer.write_bits(0, 1);
    writer.write_bits(1, 1);
    writer.write_bits(STREAM_TERMINAL as u32, 8);
    writer.finish()
}

fn coefficient_seed_snapshot(
    decoder: &MvsFullDecoder,
    tile_index: usize,
) -> Option<(u8, [i8; 64], u8, i8, u8, i8)> {
    let seed = decoder
        .surface_state
        .as_ref()?
        .tiles
        .get(tile_index)?
        .coefficients
        .as_ref()?;
    Some((
        seed.selected_threshold,
        seed.y,
        seed.cb_count,
        seed.cb_dc,
        seed.cr_count,
        seed.cr_dc,
    ))
}

fn reference_snapshot(decoder: &MvsFullDecoder, tile_index: usize) -> Option<(usize, usize)> {
    let reference = decoder
        .surface_state
        .as_ref()?
        .tiles
        .get(tile_index)?
        .reference
        .as_ref()?;
    Some((reference.tile_index, reference.framebuffer_offset))
}

fn partial_payload(chroma_extent: u8, cr_extent: u8, fields: &[&str]) -> Vec<u8> {
    partial_payload_with_terminals(chroma_extent, cr_extent, fields, [0x6d, 0x76, 0x73])
}

fn partial_payload_with_terminals(
    chroma_extent: u8,
    cr_extent: u8,
    fields: &[&str],
    terminals: [u8; 3],
) -> Vec<u8> {
    let mut writer = TestBitWriter::new();
    for field in fields {
        writer.write_bit_string(field);
    }
    for terminal in terminals {
        writer.write_bits(u32::from(terminal), 8);
    }
    let mut payload = vec![1, chroma_extent, cr_extent];
    payload.extend(writer.finish());
    payload
}

fn seed_asymmetric_surface(decoder: &mut MvsFullDecoder, width: usize, height: usize) {
    let tile_count = width.div_ceil(TILE_EDGE) * height.div_ceil(TILE_EDGE);
    let modes = mode_stream(&[(5, tile_count - 1)]);
    let data = asymmetric_seed_mode_five_data(tile_count);
    let record = record_with_thresholds(&modes, &data, 5, 31);
    let prepared = decoder.prepare(&record, width, height).unwrap();
    decoder.commit(prepared);
}

fn cache_entry_snapshot(decoder: &MvsFullDecoder, index: usize) -> Option<[i8; 99]> {
    decoder
        .cache_state
        .entries
        .get(index)
        .and_then(Option::as_ref)
        .map(|entry| *entry)
}

fn cache_index_snapshot(decoder: &MvsFullDecoder) -> (u16, u16, u32) {
    (
        decoder.cache_state.previous_cache_index,
        decoder.cache_state.last_insert_index,
        decoder.cache_state.population_count,
    )
}

fn ac_cache_entry(horizontal_direction: i8) -> [i8; MVS_CACHE_ENTRY_BYTES] {
    let mut entry = [0i8; MVS_CACHE_ENTRY_BYTES];
    // Hand cache fixture: signed scan-1 coefficient +/-2 with luminance
    // quantization 64 matches the independently frozen native IDCT vector.
    entry[1] = horizontal_direction.checked_mul(2).unwrap();
    entry
}

fn install_cache_entry(
    decoder: &mut MvsFullDecoder,
    index: u16,
    entry: [i8; MVS_CACHE_ENTRY_BYTES],
    population_count: u32,
) {
    decoder.cache_state.entries[usize::from(index)] = Some(entry);
    decoder.cache_state.population_count = population_count;
}

fn cache_mode_data(indices: &[u16]) -> Vec<u8> {
    let mut data = Vec::with_capacity(indices.len() * 2 + 1);
    for index in indices {
        data.extend_from_slice(&index.to_be_bytes());
    }
    data.push(STREAM_TERMINAL);
    data
}

fn pixel(decoded: &DecodedMvsRect, x: usize, y: usize) -> [u8; 3] {
    let offset = (y * decoded.width + x) * 3;
    decoded.rgb[offset..offset + 3].try_into().unwrap()
}

fn complete_tile(decoded: &DecodedMvsRect, tile_x: usize, tile_y: usize) -> Vec<u8> {
    let mut tile = Vec::with_capacity(8 * 8 * 3);
    for y in tile_y..tile_y + 8 {
        let start = (y * decoded.width + tile_x) * 3;
        tile.extend_from_slice(&decoded.rgb[start..start + 8 * 3]);
    }
    tile
}

fn prepare(
    decoder: &MvsFullDecoder,
    modes: &[u8],
    data: &[u8],
    width: usize,
    height: usize,
) -> Result<PreparedMvsFull, VncError> {
    decoder.prepare(&record(modes, data), width, height)
}

fn exact_reader_bytes(bits: &str) -> (Vec<u8>, u8) {
    let bit_count = bits
        .bytes()
        .filter(|bit| matches!(bit, b'0' | b'1'))
        .count();
    let prefix = u8::try_from((8 - bit_count % 8) % 8).unwrap();
    let mut writer = TestBitWriter::new();
    writer.write_bits(0, prefix);
    writer.write_bit_string(bits);
    (writer.finish(), prefix)
}

fn decode_dc_bits(bits: &str) -> Result<i16, VncError> {
    let (bytes, prefix) = exact_reader_bytes(bits);
    let mut reader = BitReader::new(&bytes);
    reader.read_bits(prefix)?;
    decode_dc_rice(&mut reader)
}

fn decode_ac_bits(bits: &str, threshold: u8) -> Result<[i16; 64], VncError> {
    let (bytes, prefix) = exact_reader_bytes(bits);
    let mut reader = BitReader::new(&bytes);
    reader.read_bits(prefix)?;
    decode_luma_ac_rice(&mut reader, threshold)
}

#[test]
fn dc_rice_literals_lock_signed_mapping_and_magnitude_boundaries() {
    for (bits, expected) in [
        ("00", 0),
        ("010", 1),
        ("011", -1),
        ("1000", 2),
        ("1011", -3),
        ("110000", 4),
        ("110111", -7),
        ("11100000", 8),
        ("11101111", -15),
    ] {
        assert_eq!(decode_dc_bits(bits).unwrap(), expected, "bits={bits}");
    }
}

#[test]
fn dc_rice_accepts_q38_and_rejects_the_fixed_q39_guard() {
    let accepted = format!("{}0_101_0", "1".repeat(38));
    assert_eq!(decode_dc_bits(&accepted).unwrap(), 293);

    let rejected = format!("{}0_000_0", "1".repeat(39));
    assert!(decode_dc_bits(&rejected).is_err());
}

#[test]
fn ac_special_tokens_lock_zero_eob_and_minimum_sign_mapping() {
    assert_eq!(decode_ac_bits("0010", 0).unwrap(), [0; 64]);

    let mut positive = [0i16; 64];
    positive[1] = 16;
    assert_eq!(decode_ac_bits("010_0010", 0).unwrap(), positive);

    let mut negative = [0i16; 64];
    negative[1] = -16;
    assert_eq!(decode_ac_bits("011_0010", 0).unwrap(), negative);
}

#[test]
fn ac_magnitude_literals_lock_both_band_formulas_and_signs() {
    let mut first_q3 = [0i16; 64];
    first_q3[1] = 17 << 4;
    assert_eq!(decode_ac_bits("11110_11_0_0010", 0).unwrap(), first_q3);

    let mut first_q4 = [0i16; 64];
    first_q4[1] = -(18 << 4);
    assert_eq!(decode_ac_bits("111110_000_1_0010", 0).unwrap(), first_q4);

    let first_five_zeros = "000".repeat(5);
    let mut second_q0 = [0i16; 64];
    second_q0[3] = 3 << 4;
    assert_eq!(
        decode_ac_bits(&format!("{first_five_zeros}10_1_0_0010"), 0).unwrap(),
        second_q0
    );

    let mut second_q1 = [0i16; 64];
    second_q1[3] = -(4 << 4);
    assert_eq!(
        decode_ac_bits(&format!("{first_five_zeros}110_00_1_0010"), 0).unwrap(),
        second_q1
    );

    let mut second_q2 = [0i16; 64];
    second_q2[3] = 8 << 4;
    assert_eq!(
        decode_ac_bits(&format!("{first_five_zeros}1110_000_0_0010"), 0).unwrap(),
        second_q2
    );
}

#[test]
fn ac_fixed_unary_guards_preserve_first_band_error_and_second_band_fail_soft() {
    let first_accepted = format!("1{}0_101_0_0010", "1".repeat(32));
    assert!(decode_ac_bits(&first_accepted, 0).is_ok());
    let first_rejected = format!("1{}0_000_0", "1".repeat(33));
    assert!(decode_ac_bits(&first_rejected, 0).is_err());

    let lead = "000".repeat(5);
    let second_accepted = format!("{lead}1{}0_101_0_0010", "1".repeat(18));
    assert!(decode_ac_bits(&second_accepted, 0).is_ok());
    let second_fail_soft = format!("{lead}1{}", "1".repeat(19));
    assert!(decode_ac_bits(&second_fail_soft, 0).is_ok());
}

#[test]
fn second_band_q19_fail_soft_preserves_partial_coefficients_and_cursor() {
    let mut writer = TestBitWriter::new();
    writer.write_bit_string("010");
    writer.write_bit_string(&"000".repeat(4));
    writer.write_bit_string("1");
    writer.write_bit_string(&"1".repeat(19));
    writer.write_bits(STREAM_TERMINAL as u32, 8);
    let bytes = writer.finish();
    let mut reader = BitReader::new(&bytes);

    let mut expected = [0i16; 64];
    expected[1] = 2;
    assert_eq!(decode_luma_ac_rice(&mut reader, 15).unwrap(), expected);
    assert_eq!(reader.bit_position(), 35);
    assert_eq!(reader.read_u8().unwrap(), STREAM_TERMINAL);
}

#[test]
fn apple_natural_order_is_the_complete_explicit_sixty_four_entry_map() {
    assert_eq!(
        APPLE_NATURAL_ORDER,
        [
            0, 1, 8, 16, 9, 2, 3, 10, 17, 24, 32, 25, 18, 11, 4, 5, 12, 19, 26, 33, 40, 48, 41,
            34, 27, 20, 13, 6, 7, 14, 21, 28, 35, 42, 49, 56, 57, 50, 43, 36, 29, 22, 15, 23,
            30, 37, 44, 51, 58, 59, 52, 45, 38, 31, 39, 46, 53, 60, 61, 54, 47, 55, 62, 63,
        ]
    );
}

#[test]
fn extended_zero_run_lands_exactly_at_coefficient_sixty_three() {
    let mut expected = [0i16; 64];
    expected[63] = 16;
    assert_eq!(
        decode_ac_bits("0_01_1_11_111_111_111_111_111_111_111_111_000_010", 0,).unwrap(),
        expected
    );
}

#[test]
fn short_zero_run_past_sixty_three_finishes_without_an_implicit_increment() {
    let lead = "000".repeat(59);
    assert_eq!(
        decode_ac_bits(&format!("{lead}0_01_1_10"), 0).unwrap(),
        [0; 64]
    );
}

#[test]
fn rice_truncation_is_rejected_at_unary_remainder_token_run_and_level_fields() {
    assert!(decode_dc_bits("").is_err());
    assert!(decode_dc_bits("01").is_err());
    assert!(decode_dc_bits("10").is_err());

    assert!(decode_ac_bits("0", 0).is_err());
    assert!(decode_ac_bits("001", 0).is_err());
    assert!(decode_ac_bits("0011", 0).is_err());
    assert!(decode_ac_bits("001111", 0).is_err());
    assert!(decode_ac_bits("10", 0).is_err());
}

#[test]
fn scale_threshold_selects_the_recovered_index_dependent_shifts() {
    assert_eq!(luma_ac_shift(1, 0).unwrap(), 4);
    assert_eq!(luma_ac_shift(1, 5).unwrap(), 3);
    assert_eq!(luma_ac_shift(5, 5).unwrap(), 4);
    assert_eq!(luma_ac_shift(6, 5).unwrap(), 4);
    assert_eq!(luma_ac_shift(1, 15).unwrap(), 1);
    assert_eq!(luma_ac_shift(6, 15).unwrap(), 1);
    assert_eq!(luma_ac_shift(15, 15).unwrap(), 3);
    assert!(luma_ac_shift(0, 0).is_err());
    assert!(luma_ac_shift(64, 0).is_err());
}

#[test]
fn idct_all_zero_and_signed_dc_only_blocks_are_uniform() {
    let quantization = [1u8; 64];
    assert_eq!(inverse_dct_8x8(&[0; 64], &quantization), [128; 64]);

    let mut positive = [0i16; 64];
    positive[0] = 80;
    assert_eq!(
        inverse_dct_8x8(&positive, &quantization),
        [138; 64]
    );

    let mut negative = [0i16; 64];
    negative[0] = -80;
    assert_eq!(
        inverse_dct_8x8(&negative, &quantization),
        [118; 64]
    );
}

#[test]
fn apple_ten_bit_masked_range_table_locks_all_piecewise_boundaries() {
    assert_eq!(
        [
            apple_idct_range_limit(383),
            apple_idct_range_limit(384),
            apple_idct_range_limit(895),
            apple_idct_range_limit(896),
            apple_idct_range_limit(1023),
            apple_idct_range_limit(1024),
            apple_idct_range_limit(-1024),
        ],
        [255, 0, 0, 0, 127, 128, 128]
    );
}

#[test]
fn idct_horizontal_ac_impulse_locks_orientation_and_both_passes() {
    let mut coefficients = [0i16; 64];
    coefficients[1] = 64;
    let expected_row = [139, 137, 134, 130, 126, 122, 119, 117];
    let expected = [
        139, 137, 134, 130, 126, 122, 119, 117, 139, 137, 134, 130, 126, 122, 119, 117, 139,
        137, 134, 130, 126, 122, 119, 117, 139, 137, 134, 130, 126, 122, 119, 117, 139, 137,
        134, 130, 126, 122, 119, 117, 139, 137, 134, 130, 126, 122, 119, 117, 139, 137, 134,
        130, 126, 122, 119, 117, 139, 137, 134, 130, 126, 122, 119, 117,
    ];
    assert_eq!(expected[..8], expected_row);
    assert_eq!(inverse_dct_8x8(&coefficients, &[1; 64]), expected);
}

#[test]
fn idct_mixed_literal_exercises_column_and_row_rounding() {
    let mut coefficients = [0i16; 64];
    coefficients[0] = 32;
    coefficients[1] = 64;
    coefficients[8] = -32;
    coefficients[19] = 24;
    assert_eq!(
        inverse_dct_8x8(&coefficients, &[1; 64]),
        [
            142, 135, 127, 126, 127, 126, 118, 111, 140, 136, 131, 128, 126, 123, 118, 114,
            138, 139, 137, 132, 125, 120, 119, 120, 137, 141, 143, 136, 126, 119, 120, 124,
            140, 144, 145, 138, 128, 121, 123, 127, 144, 145, 144, 139, 132, 127, 125, 126,
            150, 146, 141, 138, 136, 133, 128, 124, 153, 146, 138, 137, 138, 137, 129, 122,
        ]
    );
}

#[test]
fn idct_saturates_large_signed_dc_outputs() {
    let mut positive = [0i16; 64];
    positive[0] = 2048;
    assert_eq!(inverse_dct_8x8(&positive, &[1; 64]), [255; 64]);

    let mut negative = [0i16; 64];
    negative[0] = -2048;
    assert_eq!(inverse_dct_8x8(&negative, &[1; 64]), [0; 64]);
}

#[test]
fn quantization_multiply_preserves_signed_extremes_without_i16_wrap() {
    assert_eq!(dequantize(i16::MAX, u8::MAX), 8_355_585);
    assert_eq!(dequantize(i16::MIN, u8::MAX), -8_355_840);
}

#[test]
fn shared_eight_bit_color_converter_preserves_neutral_and_component_order() {
    assert_eq!(ycbcr_8_to_rgb(100, 128, 128), [100, 100, 100]);
    assert_eq!(ycbcr_8_to_rgb(100, 0, 255), [255, 53, 0]);
    assert_eq!(ycbcr_8_to_rgb(100, 255, 0), [0, 148, 255]);
    assert_eq!(ycbcr_20_to_rgb(100, 16, 48), [190, 76, 0]);
}

#[test]
fn mode_five_dc_only_tile_decodes_complete_dual_stream_to_neutral_rgb() {
    let modes = mode_stream(&[(5, 0)]);
    let data = mode_five_data(&["0_1_0_00_0010"]);
    let prepared = prepare(&decoder_with_tables(1, 1), &modes, &data, 8, 8).unwrap();
    assert_eq!(MvsFullDecoder::decoded(&prepared).rgb, vec![128; 8 * 8 * 3]);
}

#[test]
fn adjacent_mode_five_tiles_apply_previous_dc_predictor_in_decode_order() {
    let modes = mode_stream(&[(5, 1)]);
    let first_y_minus_eighty = "1111111111110_000_1";
    let second_y_minus_eight = "1110_000_1";
    let data = mode_five_data(&[
        &format!("0_0_0_00_00_{first_y_minus_eighty}_0010"),
        &format!("0_1_0_{second_y_minus_eight}_0010"),
    ]);
    let prepared = prepare(&decoder_with_tables(1, 1), &modes, &data, 16, 8).unwrap();
    let decoded = MvsFullDecoder::decoded(&prepared);
    assert_eq!(pixel(decoded, 0, 0), [138; 3]);
    assert_eq!(pixel(decoded, 7, 7), [138; 3]);
    assert_eq!(pixel(decoded, 8, 0), [139; 3]);
    assert_eq!(pixel(decoded, 15, 7), [139; 3]);
}

#[test]
fn adjacent_mode_five_tile_reuses_asymmetric_nonzero_chroma_predictors() {
    let modes = mode_stream(&[(5, 1)]);
    let cb_minus_forty = "11111110_000_1";
    let cr_plus_twenty_four = "111110_000_0";
    let y_minus_eight = "1110_000_1";
    let data = mode_five_data(&[
        &format!("0_0_0_{cb_minus_forty}_{cr_plus_twenty_four}_00_0010"),
        &format!("0_1_0_{y_minus_eight}_0010"),
    ]);
    let prepared = prepare(&decoder_with_tables(1, 1), &modes, &data, 16, 8).unwrap();
    let decoded = MvsFullDecoder::decoded(&prepared);

    assert!(complete_tile(decoded, 0, 0)
        .chunks_exact(3)
        .all(|rgb| rgb == [120, 129, 146]));
    assert!(complete_tile(decoded, 8, 0)
        .chunks_exact(3)
        .all(|rgb| rgb == [121, 130, 147]));
}

#[test]
fn mode_five_asymmetric_ac_tile_preserves_full_record_orientation() {
    let modes = mode_stream(&[(5, 0)]);
    let data = mode_five_data(&["0_1_0_00_010_0010"]);
    let record = record_with_thresholds(&modes, &data, 15, 0);
    let decoder = decoder_with_tables(64, 1);
    let prepared = decoder.prepare(&record, 8, 8).unwrap();
    let decoded = MvsFullDecoder::decoded(&prepared);
    let expected = [150, 147, 141, 132, 124, 115, 109, 106];
    for y in 0..8 {
        for (x, &channel) in expected.iter().enumerate() {
            assert_eq!(pixel(decoded, x, y), [channel; 3]);
        }
    }
}

#[test]
fn nonuniform_quantization_uses_nonzero_natural_ac_index_in_pixels() {
    let modes = mode_stream(&[(5, 0)]);
    let data = mode_five_data(&["0_1_0_00_010_0010"]);
    let record = record_with_thresholds(&modes, &data, 15, 0);
    let mut luminance = [0u8; 64];
    luminance[1] = 64;
    let decoder = MvsFullDecoder::new(MvsTables {
        luminance,
        chrominance: [1; 64],
    });
    let prepared = decoder.prepare(&record, 8, 8).unwrap();
    let decoded = MvsFullDecoder::decoded(&prepared);
    let expected = [
        [150, 150, 150],
        [147, 147, 147],
        [141, 141, 141],
        [132, 132, 132],
        [124, 124, 124],
        [115, 115, 115],
        [109, 109, 109],
        [106, 106, 106],
    ];
    for y in 0..8 {
        for (x, &expected_pixel) in expected.iter().enumerate() {
            assert_eq!(pixel(decoded, x, y), expected_pixel);
        }
    }
}

#[test]
fn second_band_q19_fail_soft_publishes_partial_coefficients_for_copy() {
    let modes = mode_stream(&[(5, 1)]);
    let q19 = format!("0_1_0_00_010_{}1{}", "000".repeat(4), "1".repeat(19));
    let data = mode_five_data(&[&q19, "1"]);
    let record = record_with_thresholds(&modes, &data, 15, 0);
    let prepared = decoder_with_tables(64, 1).prepare(&record, 16, 8).unwrap();
    let decoded = MvsFullDecoder::decoded(&prepared);

    assert_eq!(complete_tile(decoded, 0, 0), complete_tile(decoded, 8, 0));
    assert_eq!(pixel(decoded, 0, 0), [150; 3]);
    assert_eq!(pixel(decoded, 7, 7), [106; 3]);
}

#[test]
fn mode_five_tile_header_selects_scale_threshold_b_only_when_set() {
    let modes = mode_stream(&[(5, 1)]);
    let data = mode_five_data(&["0_1_0_00_010_0010", "0_1_1_00_010_0010"]);
    let record = record_with_thresholds(&modes, &data, 0, 15);
    let decoder = decoder_with_tables(8, 1);
    let prepared = decoder.prepare(&record, 16, 8).unwrap();
    let decoded = MvsFullDecoder::decoded(&prepared);
    assert_eq!(pixel(decoded, 0, 0), [150; 3]);
    assert_eq!(pixel(decoded, 8, 0), [131; 3]);
}

#[test]
fn mode_five_clipped_ten_by_nine_consumes_all_four_logical_tiles() {
    let modes = mode_stream(&[(5, 3)]);
    let data = mode_five_data(&[
        "0_1_0_00_0010",
        "0_1_0_00_0010",
        "0_1_0_00_0010",
        "0_1_0_00_0010",
    ]);
    let prepared = prepare(&decoder_with_tables(1, 1), &modes, &data, 10, 9).unwrap();
    let decoded = MvsFullDecoder::decoded(&prepared);
    assert_eq!(decoded.rgb.len(), 10 * 9 * 3);
    assert!(decoded.rgb.iter().all(|&channel| channel == 128));
}

#[test]
fn distinct_luma_and_chroma_tables_produce_literal_mode_five_rgb() {
    let modes = mode_stream(&[(5, 0)]);
    let minus_forty = "11111110_000_1";
    let data = mode_five_data(&[&format!("0_0_0_{minus_forty}_00_{minus_forty}_0010")]);
    let prepared = prepare(&decoder_with_tables(2, 1), &modes, &data, 8, 8).unwrap();
    assert!(MvsFullDecoder::decoded(&prepared)
        .rgb
        .chunks_exact(3)
        .all(|rgb| rgb == [138, 135, 156]));
}

#[test]
fn malformed_mode_five_ac_after_valid_components_commits_neither_pixels_nor_state() {
    let modes = mode_stream(&[(5, 0)]);
    let malformed = mode_five_data(&[&format!("0_0_0_00_00_00_1{}", "1".repeat(33))]);
    let valid = mode_five_data(&["0_1_0_00_0010"]);
    let decoder = decoder_with_tables(1, 1);
    assert!(prepare(&decoder, &modes, &malformed, 8, 8).is_err());
    assert_eq!(decoder.committed_records, 0);

    let after_failure = prepare(&decoder, &modes, &valid, 8, 8).unwrap();
    let fresh = prepare(&decoder_with_tables(1, 1), &modes, &valid, 8, 8).unwrap();
    assert_eq!(
        MvsFullDecoder::decoded(&after_failure),
        MvsFullDecoder::decoded(&fresh)
    );
}

#[test]
fn dropped_or_committed_mode_five_prepare_does_not_leak_record_local_predictors() {
    let modes = mode_stream(&[(5, 0)]);
    let y_minus_eighty = "1111111111110_000_1";
    let data = mode_five_data(&[&format!("0_0_0_00_00_{y_minus_eighty}_0010")]);
    let mut decoder = decoder_with_tables(1, 1);

    let dropped = prepare(&decoder, &modes, &data, 8, 8).unwrap();
    assert_eq!(pixel(MvsFullDecoder::decoded(&dropped), 0, 0), [138; 3]);
    drop(dropped);
    assert_eq!(decoder.committed_records, 0);

    let committed = prepare(&decoder, &modes, &data, 8, 8).unwrap();
    decoder.commit(committed);
    assert_eq!(decoder.committed_records, 1);

    let next_record = prepare(&decoder, &modes, &data, 8, 8).unwrap();
    let fresh = prepare(&decoder_with_tables(1, 1), &modes, &data, 8, 8).unwrap();
    assert_eq!(
        MvsFullDecoder::decoded(&next_record),
        MvsFullDecoder::decoded(&fresh)
    );
}

#[test]
fn mode_five_copy_uses_only_the_immediately_previous_mode_five_tile() {
    let modes = mode_stream(&[(5, 1)]);
    let y_minus_eighty = "1111111111110_000_1";
    let data = mode_five_data(&[&format!("0_0_0_00_00_{y_minus_eighty}_0010"), "1"]);
    let prepared = prepare(&decoder_with_tables(1, 1), &modes, &data, 16, 8).unwrap();
    let decoded = MvsFullDecoder::decoded(&prepared);
    assert_eq!(complete_tile(decoded, 0, 0), complete_tile(decoded, 8, 0));

    let invalid = mode_five_data(&["1"]);
    let cleared = prepare(
        &decoder_with_tables(1, 1),
        &mode_stream(&[(5, 0)]),
        &invalid,
        8,
        8,
    )
    .unwrap();
    assert_eq!(MvsFullDecoder::decoded(&cleared).rgb, vec![128; 8 * 8 * 3]);
}

#[test]
fn mode_five_copy_preserves_the_complete_ac_bearing_source_tile() {
    let modes = mode_stream(&[(5, 1)]);
    let cb_minus_forty = "11111110_000_1";
    let cr_plus_twenty_four = "111110_000_0";
    let source = format!("0_0_0_{cb_minus_forty}_{cr_plus_twenty_four}_00_010_0010");
    let data = mode_five_data(&[&source, "1"]);
    let record = record_with_thresholds(&modes, &data, 15, 0);
    let prepared = decoder_with_tables(64, 1).prepare(&record, 16, 8).unwrap();
    let decoded = MvsFullDecoder::decoded(&prepared);
    let source_tile = complete_tile(decoded, 0, 0);
    let copied_tile = complete_tile(decoded, 8, 0);

    assert_eq!(pixel(decoded, 0, 0), [142, 151, 168]);
    assert_eq!(pixel(decoded, 7, 0), [98, 107, 124]);
    assert_ne!(pixel(decoded, 0, 0), pixel(decoded, 7, 0));
    assert_eq!(copied_tile, source_tile);
}

#[test]
fn slice_a_mode_five_seed_is_staged_and_commit_serializes_exact_signed_bytes() {
    let modes = mode_stream(&[(5, 0)]);
    let data = asymmetric_seed_mode_five_data(1);
    let record = record_with_thresholds(&modes, &data, 15, 31);
    let mut decoder = decoder_with_tables(1, 1);

    let prepared = decoder.prepare(&record, 8, 8).unwrap();
    assert_eq!(coefficient_seed_snapshot(&decoder, 0), None);
    decoder.commit(prepared);

    let mut expected_y = [0i8; 64];
    expected_y[0] = 80;
    assert_eq!(
        coefficient_seed_snapshot(&decoder, 0),
        Some((15, expected_y, 1, 80, 1, -48))
    );
}

#[test]
fn slice_a_mode_five_copy_clones_the_asymmetric_predecessor_seed_exactly() {
    let modes = mode_stream(&[(5, 1)]);
    let cb_minus_forty = "11111110_000_1";
    let cr_plus_twenty_four = "111110_000_0";
    let y_minus_eighty = "1111111111110_000_1";
    let source = format!("0_0_0_{cb_minus_forty}_{cr_plus_twenty_four}_{y_minus_eighty}_0010");
    let data = mode_five_data(&[&source, "1"]);
    let record = record_with_thresholds(&modes, &data, 15, 31);
    let mut decoder = decoder_with_tables(1, 1);

    let prepared = decoder.prepare(&record, 16, 8).unwrap();
    decoder.commit(prepared);

    assert_eq!(
        coefficient_seed_snapshot(&decoder, 1),
        coefficient_seed_snapshot(&decoder, 0)
    );
}

#[test]
fn slice_a_dropped_seed_and_no_source_copy_preserve_exact_committed_presence() {
    let seed_modes = mode_stream(&[(5, 0)]);
    let seed_data = asymmetric_seed_mode_five_data(1);
    let seed_record = record_with_thresholds(&seed_modes, &seed_data, 15, 0);
    let copy_modes = mode_stream(&[(5, 0)]);
    let copy_data = mode_five_data(&["1"]);
    let copy_record = record_with_thresholds(&copy_modes, &copy_data, 0, 0);
    let mut decoder = decoder_with_tables(1, 1);

    drop(decoder.prepare(&seed_record, 8, 8).unwrap());
    assert_eq!(coefficient_seed_snapshot(&decoder, 0), None);

    let seeded = decoder.prepare(&seed_record, 8, 8).unwrap();
    decoder.commit(seeded);
    let committed = coefficient_seed_snapshot(&decoder, 0).unwrap();
    let copied = decoder.prepare(&copy_record, 8, 8).unwrap();
    decoder.commit(copied);
    assert_eq!(coefficient_seed_snapshot(&decoder, 0), Some(committed));

    let mut fresh = decoder_with_tables(1, 1);
    let absent = fresh.prepare(&copy_record, 8, 8).unwrap();
    fresh.commit(absent);
    assert_eq!(coefficient_seed_snapshot(&fresh, 0), None);
}

#[test]
fn slice_a_modes_zero_three_and_four_retain_but_never_create_coefficient_seed() {
    let seed_modes = mode_stream(&[(5, 0)]);
    let seed_data = asymmetric_seed_mode_five_data(1);
    let seed_record = record_with_thresholds(&seed_modes, &seed_data, 15, 0);

    for (mode, data) in [
        (0, terminal_only_data()),
        (3, mode_three_zero_bitmap_data()),
        (4, mode_four_reused_single_color_data()),
    ] {
        let modes = mode_stream(&[(mode, 0)]);
        let record = record(&modes, &data);
        let mut seeded = decoder_with_tables(1, 1);
        let prepared = seeded.prepare(&seed_record, 8, 8).unwrap();
        seeded.commit(prepared);
        let before = coefficient_seed_snapshot(&seeded, 0).unwrap();
        let prepared = seeded.prepare(&record, 8, 8).unwrap();
        seeded.commit(prepared);
        assert_eq!(coefficient_seed_snapshot(&seeded, 0), Some(before));

        let mut fresh = decoder_with_tables(1, 1);
        let prepared = fresh.prepare(&record, 8, 8).unwrap();
        fresh.commit(prepared);
        assert_eq!(coefficient_seed_snapshot(&fresh, 0), None);
    }
}

#[test]
fn slice_a_modes_one_and_two_replace_reference_metadata_without_clearing_seed() {
    for (width, height, copy_mode) in [(16, 8, 1), (8, 16, 2)] {
        let seed_modes = mode_stream(&[(5, 1)]);
        let seed_data = asymmetric_seed_mode_five_data(2);
        let seed_record = record_with_thresholds(&seed_modes, &seed_data, 15, 0);
        let copy_modes = mode_stream(&[(0, 0), (copy_mode, 0)]);
        let copy_data = terminal_only_data();
        let copy_record = record(&copy_modes, &copy_data);
        let mut decoder = decoder_with_tables(1, 1);

        let prepared = decoder.prepare(&seed_record, width, height).unwrap();
        decoder.commit(prepared);
        let before = coefficient_seed_snapshot(&decoder, 1).unwrap();
        let prepared = decoder.prepare(&copy_record, width, height).unwrap();
        decoder.commit(prepared);

        assert_eq!(coefficient_seed_snapshot(&decoder, 1), Some(before));
        assert_eq!(reference_snapshot(&decoder, 1), Some((0, 0)));
    }
}

#[test]
fn slice_a_subrectangle_updates_only_its_global_seed_metadata() {
    let seed_modes = mode_stream(&[(5, 1)]);
    let seed_data = asymmetric_seed_mode_five_data(2);
    let seed_record = record_with_thresholds(&seed_modes, &seed_data, 15, 0);
    let mut decoder = decoder_with_tables(1, 1);
    let prepared = decoder.prepare(&seed_record, 16, 8).unwrap();
    decoder.commit(prepared);
    let first = coefficient_seed_snapshot(&decoder, 0).unwrap();
    let second = coefficient_seed_snapshot(&decoder, 1).unwrap();

    let sub_modes = mode_stream(&[(0, 0)]);
    let sub_data = terminal_only_data();
    let prepared = decoder
        .prepare_rect(&record(&sub_modes, &sub_data), 8, 0, 8, 8, 16, 8)
        .unwrap();
    decoder.commit(prepared);

    assert_eq!(coefficient_seed_snapshot(&decoder, 0), Some(first));
    assert_eq!(coefficient_seed_snapshot(&decoder, 1), Some(second));
}

#[test]
fn slice_b_apple_chroma_ac_table_locks_counts_and_hand_literal_tokens() {
    assert_eq!(APPLE_LUMA_AC_BITS.len(), 16);
    assert_eq!(APPLE_LUMA_AC_VALUES.len(), 162);
    assert_eq!(
        APPLE_LUMA_AC_BITS
            .iter()
            .map(|&value| usize::from(value))
            .sum::<usize>(),
        162
    );
    assert_eq!(
        &APPLE_LUMA_AC_VALUES[..6],
        &[0x01, 0x02, 0x03, 0x00, 0x04, 0x11]
    );
    assert_eq!(APPLE_LUMA_AC_VALUES[31], 0xf0);
    assert_eq!(APPLE_CHROMA_AC_BITS.len(), 16);
    assert_eq!(APPLE_CHROMA_AC_VALUES.len(), 162);
    assert_eq!(
        APPLE_CHROMA_AC_BITS
            .iter()
            .map(|&value| usize::from(value))
            .sum::<usize>(),
        162
    );
    assert_eq!(
        &APPLE_CHROMA_AC_VALUES[..5],
        &[0x00, 0x01, 0x02, 0x03, 0x11]
    );
    assert_eq!(APPLE_CHROMA_AC_VALUES[31], 0xf0);

    let mut writer = TestBitWriter::new();
    // Canonical chroma AC: 1011 = run 1 / size 1, level bit 0 = -1,
    // then 00 = EOB. The value belongs at scan index 2 -> natural 8.
    writer.write_bit_string("1011_0_00");
    let bytes = writer.finish();
    let mut reader = BitReader::new(&bytes);
    let mut coefficients = [0i16; 64];
    decode_partial_ac(
        &mut reader,
        &mut coefficients,
        1,
        3,
        &apple_chroma_ac_huffman(),
    )
    .unwrap();
    assert_eq!(coefficients[8], -1);
    assert_eq!(coefficients.iter().filter(|&&value| value != 0).count(), 1);
    assert_eq!(reader.bit_position(), 7);

    let mut luma_writer = TestBitWriter::new();
    // Canonical luma AC: 00 = run 0 / size 1, level bit 1 = +1,
    // then 1010 = EOB.
    luma_writer.write_bit_string("00_1_1010");
    let luma_bytes = luma_writer.finish();
    let mut luma_reader = BitReader::new(&luma_bytes);
    let mut luma = [0i16; 64];
    decode_partial_ac(&mut luma_reader, &mut luma, 1, 2, &apple_luma_ac_huffman()).unwrap();
    assert_eq!(luma[APPLE_NATURAL_ORDER[1]], 1);
    assert_eq!(luma_reader.bit_position(), 7);
}

#[test]
fn partial_ac_nonzero_token_may_cross_extent_within_natural_order_table() {
    const BITS: [u8; 16] = [2, 0, 0, 0, 0, 0, 0, 0, 0, 0, 0, 0, 0, 0, 0, 0];
    const VALUES: [u8; 162] = {
        let mut values = [0u8; 162];
        values[0] = 0xa1;
        values[1] = 0x71;
        values
    };
    let table = AppleHuffmanTable {
        bits: BITS,
        values: VALUES,
    };
    let mut writer = TestBitWriter::new();
    // 0 = run 10 / size 1, then 1 = run 7 / size 1. Both levels are +1.
    // The second token reproduces cursor 11, extent 14, target 18.
    writer.write_bit_string("0_1_1_1");
    let bytes = writer.finish();
    let mut reader = BitReader::new(&bytes);
    let mut coefficients = [0i16; 64];

    decode_partial_ac(&mut reader, &mut coefficients, 1, 14, &table).unwrap();

    assert_eq!(coefficients[APPLE_NATURAL_ORDER[11]], 1);
    assert_eq!(coefficients[APPLE_NATURAL_ORDER[19]], 1);
    assert_eq!(coefficients.iter().filter(|&&value| value != 0).count(), 2);
    assert_eq!(reader.bit_position(), 4);
}

#[test]
fn partial_ac_zrl_may_cross_extent_without_consuming_another_token() {
    const BITS: [u8; 16] = [1, 0, 0, 0, 0, 0, 0, 0, 0, 0, 0, 0, 0, 0, 0, 0];
    const VALUES: [u8; 162] = {
        let mut values = [0u8; 162];
        values[0] = 0xf0;
        values
    };
    let table = AppleHuffmanTable {
        bits: BITS,
        values: VALUES,
    };
    let mut writer = TestBitWriter::new();
    writer.write_bit_string("0_1");
    let bytes = writer.finish();
    let mut reader = BitReader::new(&bytes);
    let mut coefficients = [0i16; 64];

    decode_partial_ac(&mut reader, &mut coefficients, 1, 14, &table).unwrap();

    assert!(coefficients.iter().all(|&value| value == 0));
    assert_eq!(reader.bit_position(), 1);
}

#[test]
fn partial_ac_rejects_nonzero_target_outside_natural_order_table() {
    const BITS: [u8; 16] = [1, 0, 0, 0, 0, 0, 0, 0, 0, 0, 0, 0, 0, 0, 0, 0];
    const VALUES: [u8; 162] = {
        let mut values = [0u8; 162];
        values[0] = 0xf1;
        values
    };
    let table = AppleHuffmanTable {
        bits: BITS,
        values: VALUES,
    };
    let mut writer = TestBitWriter::new();
    writer.write_bit_string("0_1");
    let bytes = writer.finish();
    let mut reader = BitReader::new(&bytes);
    let mut coefficients = [0i16; 64];

    let error = decode_partial_ac(&mut reader, &mut coefficients, 49, 16, &table)
        .unwrap_err()
        .message();

    assert!(error.contains("scan 索引越界"));
    assert!(coefficients.iter().all(|&value| value == 0));
    assert_eq!(reader.bit_position(), 2);
}

#[test]
fn slice_b_zrl_skips_exactly_sixteen_then_consumes_nonzero_or_eob() {
    let mut nonzero_writer = TestBitWriter::new();
    // Canonical chroma AC: 1111111010 = ZRL, 01/1 = +1, 00 = EOB.
    nonzero_writer.write_bit_string("1111111010_01_1_00");
    let nonzero_bytes = nonzero_writer.finish();
    let mut nonzero_reader = BitReader::new(&nonzero_bytes);
    let mut nonzero = [0i16; 64];
    decode_partial_ac(
        &mut nonzero_reader,
        &mut nonzero,
        1,
        18,
        &apple_chroma_ac_huffman(),
    )
    .unwrap();
    assert_eq!(nonzero[APPLE_NATURAL_ORDER[17]], 1);
    assert_eq!(nonzero_reader.bit_position(), 15);

    let mut eob_writer = TestBitWriter::new();
    eob_writer.write_bit_string("1111111010_00");
    let eob_bytes = eob_writer.finish();
    let mut eob_reader = BitReader::new(&eob_bytes);
    let mut eob = [0i16; 64];
    decode_partial_ac(&mut eob_reader, &mut eob, 1, 17, &apple_chroma_ac_huffman()).unwrap();
    assert!(eob.iter().all(|&value| value == 0));
    assert_eq!(eob_reader.bit_position(), 12);
}

#[test]
fn slice_b_opcode_zero_and_exact_bit_cursor_terminals_change_no_state() {
    let mut decoder = decoder_with_tables(1, 1);
    let full = decoder
        .prepare(
            &record(&mode_stream(&[(0, 0)]), &terminal_only_data()),
            8,
            8,
        )
        .unwrap();
    decoder.commit(full);
    let before = cache_index_snapshot(&decoder);
    let partial = partial_payload(0, 0, &["00"]);

    let prepared = decoder.prepare_partial(&partial, 0, 0, 8, 8, 8, 8).unwrap();
    assert_eq!(cache_index_snapshot(&decoder), before);
    decoder.commit_opaque(prepared);
    assert_eq!(cache_index_snapshot(&decoder), before);
    assert_eq!(cache_entry_snapshot(&decoder, 1), None);
}

#[test]
fn type_one_tile_failure_reports_rect_local_global_opcode_and_bit_cursors() {
    let mut decoder = decoder_with_tables(1, 1);
    let full = decoder
        .prepare(
            &record(&mode_stream(&[(0, 11)]), &terminal_only_data()),
            32,
            24,
        )
        .unwrap();
    decoder.commit(full);
    let partial = partial_payload(0, 0, &["00", "01"]);

    let error = decoder
        .prepare_partial(&partial, 8, 8, 16, 8, 32, 24)
        .unwrap_err();

    assert_eq!(
        error.message(),
        "MVS type-1 tile 处理失败: rect=(8,8,16,8) local_index=1 local_row=0 local_col=1 global_index=6 global_row=1 global_col=2 opcode=1 opcode_start_bit=2 failure_bit=4"
    );
    assert!(error.chain().contains("MVS type-1 opcode 1 缺少 full-frame 系数 seed"));
}

#[test]
fn type_one_opcode_read_failure_reports_tile_without_inventing_opcode() {
    let mut decoder = decoder_with_tables(1, 1);
    let full = decoder
        .prepare(
            &record(&mode_stream(&[(0, 0)]), &terminal_only_data()),
            8,
            8,
        )
        .unwrap();
    decoder.commit(full);

    let error = decoder
        .prepare_partial(&[1, 0, 0], 0, 0, 8, 8, 8, 8)
        .unwrap_err();

    assert_eq!(
        error.message(),
        "MVS type-1 opcode 读取失败: rect=(0,0,8,8) local_index=0 local_row=0 local_col=0 global_index=0 global_row=0 global_col=0 opcode_start_bit=0 failure_bit=0"
    );
    let chain = error.chain();
    assert!(chain.contains("MVS type-1 opcode 不完整"));
    assert!(!error.message().contains("opcode="));
}

#[test]
fn type_one_terminal_failure_reports_rect_and_terminal_cursor_without_tile() {
    let mut decoder = decoder_with_tables(1, 1);
    let full = decoder
        .prepare(
            &record(&mode_stream(&[(0, 0)]), &terminal_only_data()),
            8,
            8,
        )
        .unwrap();
    decoder.commit(full);
    let partial = partial_payload_with_terminals(0, 0, &["00"], [0x6d, 0x76, 0x72]);

    let error = decoder
        .prepare_partial(&partial, 0, 0, 8, 8, 8, 8)
        .unwrap_err();

    assert_eq!(
        error.message(),
        "MVS type-1 terminal 失败: rect=(0,0,8,8) terminal_index=2 terminal_bit=18 failure_bit=26"
    );
    assert!(error.chain().contains("MVS type-1 位流终止符非法: 0x72"));
    assert!(!error.message().contains("tile"));
}

#[test]
fn slice_b_minimal_opcode_one_stages_exact_slot_after_idct_then_commit() {
    let mut decoder = decoder_with_tables(1, 1);
    seed_asymmetric_surface(&mut decoder, 8, 8);
    let partial = partial_payload(1, 1, &["01_000000_0_00_0_00"]);

    let prepared = decoder.prepare_partial(&partial, 0, 0, 8, 8, 8, 8).unwrap();
    assert_eq!(cache_entry_snapshot(&decoder, 1), None);
    assert_eq!(
        prepared.events,
        vec![
            PartialOrderEvent::IdctScratch,
            PartialOrderEvent::CachePopulation
        ]
    );
    decoder.commit_opaque(prepared);

    let mut expected = [0i8; 99];
    expected[0] = 80;
    expected[64] = 80;
    expected[79] = -48;
    assert_eq!(cache_entry_snapshot(&decoder, 1), Some(expected));
    assert_eq!(cache_index_snapshot(&decoder), (0, 1, 1));
}

#[test]
fn slice_b_non_eob_ac_locks_run_sign_natural_order_and_exact_cache_byte() {
    let mut decoder = decoder_with_tables(1, 1);
    seed_asymmetric_surface(&mut decoder, 8, 8);
    // Cb: unchanged DC, run1/size1 -1, EOB. Cr: unchanged DC, EOB.
    let partial = partial_payload(3, 1, &["01_000000_0_1011_0_00_0_00"]);
    let prepared = decoder.prepare_partial(&partial, 0, 0, 8, 8, 8, 8).unwrap();
    decoder.commit_opaque(prepared);

    let entry = cache_entry_snapshot(&decoder, 1).unwrap();
    assert_eq!(entry[64], 80);
    assert_eq!(entry[65], 0);
    assert_eq!(entry[66], -1);
    assert_eq!(entry[79], -48);
}

#[test]
fn slice_b_natural_order_overflow_and_bad_terminal_roll_back_earlier_population() {
    let mut decoder = decoder_with_tables(1, 1);
    seed_asymmetric_surface(&mut decoder, 16, 8);
    let first = "01_000000_0_00_0_00";
    let overflow = "01_000000_0_00_0_1111111010_1111111010_1111111010_11111111100000_1";
    let bad_natural_order = partial_payload(1, 64, &[first, overflow]);
    assert!(decoder
        .prepare_partial(&bad_natural_order, 0, 0, 16, 8, 16, 8)
        .is_err());
    assert_eq!(cache_index_snapshot(&decoder), (0, 0, 0));
    assert_eq!(cache_entry_snapshot(&decoder, 1), None);

    let bad_terminal =
        partial_payload_with_terminals(1, 1, &[first, first], [0x6d, 0x76, 0x72]);
    assert!(decoder
        .prepare_partial(&bad_terminal, 0, 0, 16, 8, 16, 8)
        .is_err());
    assert_eq!(cache_index_snapshot(&decoder), (0, 0, 0));
    assert_eq!(cache_entry_snapshot(&decoder, 1), None);
}

#[test]
fn slice_b_bad_saved_chroma_count_fails_before_population() {
    let mut decoder = decoder_with_tables(1, 1);
    seed_asymmetric_surface(&mut decoder, 8, 8);
    decoder.surface_state.as_mut().unwrap().tiles[0]
        .coefficients
        .as_mut()
        .unwrap()
        .cb_count = 2;
    let partial = partial_payload(1, 1, &["01_000000_0_00_0_00"]);

    assert!(decoder.prepare_partial(&partial, 0, 0, 8, 8, 8, 8).is_err());
    assert_eq!(cache_index_snapshot(&decoder), (0, 0, 0));
    assert_eq!(cache_entry_snapshot(&decoder, 1), None);
}

#[test]
fn slice_b_opcode_two_validates_reference_without_cache_side_effects() {
    let modes = mode_stream(&[(0, 0), (1, 0)]);
    let data = terminal_only_data();
    let mut decoder = decoder_with_tables(1, 1);
    let full = decoder.prepare(&record(&modes, &data), 16, 8).unwrap();
    decoder.commit(full);
    let partial = partial_payload(0, 0, &["00_10"]);

    let prepared = decoder
        .prepare_partial(&partial, 0, 0, 16, 8, 16, 8)
        .unwrap();
    decoder.commit_opaque(prepared);
    assert_eq!(cache_index_snapshot(&decoder), (0, 0, 0));
    assert_eq!(cache_entry_snapshot(&decoder, 1), None);

    decoder.surface_state.as_mut().unwrap().tiles[0].generation += 1;
    let prepared = decoder
        .prepare_partial(&partial, 0, 0, 16, 8, 16, 8)
        .unwrap();
    decoder.commit_opaque(prepared);
    assert_eq!(cache_index_snapshot(&decoder), (0, 0, 0));
}

#[test]
fn slice_e_opcode_two_missing_reference_and_generation_mismatch_are_opaque_noops() {
    let mut missing = decoder_with_tables(1, 1);
    let full = missing
        .prepare(
            &record(&mode_stream(&[(0, 0)]), &terminal_only_data()),
            8,
            8,
        )
        .unwrap();
    missing.commit(full);
    let missing_reference = partial_payload(0, 0, &["10"]);
    let prepared = missing
        .prepare_partial(&missing_reference, 0, 0, 8, 8, 8, 8)
        .unwrap();
    missing.commit_opaque(prepared);
    assert_eq!(cache_index_snapshot(&missing), (0, 0, 0));

    let mut mismatched = decoder_with_tables(1, 1);
    let full = mismatched
        .prepare(
            &record(&mode_stream(&[(0, 0), (1, 0)]), &terminal_only_data()),
            16,
            8,
        )
        .unwrap();
    mismatched.commit(full);
    mismatched.surface_state.as_mut().unwrap().tiles[0].generation += 1;
    let generation_mismatch = partial_payload(0, 0, &["00_10"]);
    let prepared = mismatched
        .prepare_partial(&generation_mismatch, 0, 0, 16, 8, 16, 8)
        .unwrap();
    mismatched.commit_opaque(prepared);
    assert_eq!(cache_index_snapshot(&mismatched), (0, 0, 0));
}

#[test]
fn slice_b_opcode_three_explicit_big_endian_and_previous_plus_one_are_bounded() {
    let mut decoder = decoder_with_tables(1, 1);
    seed_asymmetric_surface(&mut decoder, 16, 8);
    let populate = partial_payload(1, 1, &["01_000000_0_00_0_00", "01_000000_0_00_0_00"]);
    let prepared = decoder
        .prepare_partial(&populate, 0, 0, 16, 8, 16, 8)
        .unwrap();
    decoder.commit_opaque(prepared);
    assert_eq!(cache_index_snapshot(&decoder), (0, 2, 2));

    let explicit_one = partial_payload(0, 0, &["11_0_00000000_00000001"]);
    let prepared = decoder
        .prepare_partial(&explicit_one, 0, 0, 8, 8, 16, 8)
        .unwrap();
    decoder.commit_opaque(prepared);
    assert_eq!(cache_index_snapshot(&decoder), (1, 2, 2));

    let next = partial_payload(0, 0, &["11_1"]);
    let prepared = decoder.prepare_partial(&next, 0, 0, 8, 8, 16, 8).unwrap();
    decoder.commit_opaque(prepared);
    assert_eq!(cache_index_snapshot(&decoder), (2, 2, 2));

    decoder.cache_state.previous_cache_index = u16::MAX;
    let prepared = decoder.prepare_partial(&next, 0, 0, 8, 8, 16, 8).unwrap();
    decoder.commit_opaque(prepared);
    assert_eq!(decoder.cache_state.previous_cache_index, u16::MAX);

    for invalid in ["11_0_00000000_00000000", "11_0_11111101_11101000"] {
        let payload = partial_payload(0, 0, &[invalid]);
        let prepared = decoder
            .prepare_partial(&payload, 0, 0, 8, 8, 16, 8)
            .unwrap();
        decoder.commit_opaque(prepared);
        assert_eq!(cache_index_snapshot(&decoder), (u16::MAX, 2, 2));
    }
}

#[test]
fn slice_e_opcode_three_lookup_miss_is_fail_soft_and_preserves_prior_population() {
    let mut decoder = decoder_with_tables(1, 1);
    seed_asymmetric_surface(&mut decoder, 16, 8);
    let populate_then_missing_lookup =
        partial_payload(1, 1, &["01_000000_0_00_0_00", "11_0_00000000_00000010"]);

    let prepared = decoder
        .prepare_partial(&populate_then_missing_lookup, 0, 0, 16, 8, 16, 8)
        .unwrap();
    decoder.commit_opaque(prepared);

    assert_eq!(cache_index_snapshot(&decoder), (0, 1, 1));
    assert!(cache_entry_snapshot(&decoder, 1).is_some());
    assert_eq!(cache_entry_snapshot(&decoder, 2), None);

    decoder.cache_state.population_count = 3;
    let uninitialized = partial_payload(0, 0, &["11_0_00000000_00000011"]);
    let prepared = decoder
        .prepare_partial(&uninitialized, 0, 0, 8, 8, 16, 8)
        .unwrap();
    decoder.commit_opaque(prepared);
    assert_eq!(cache_index_snapshot(&decoder), (0, 1, 3));
    assert_eq!(cache_entry_snapshot(&decoder, 3), None);

    for miss in [
        "11_0_00000000_00000000",
        "11_0_11111101_11101000",
        "11_0_11111111_11111111",
    ] {
        let payload = partial_payload(0, 0, &[miss]);
        let prepared = decoder
            .prepare_partial(&payload, 0, 0, 8, 8, 16, 8)
            .unwrap();
        decoder.commit_opaque(prepared);
        assert_eq!(cache_index_snapshot(&decoder), (0, 1, 3));
    }
}

#[test]
fn slice_b_population_advances_slot_two_and_wraps_64999_to_overwrite_slot_one() {
    let mut decoder = decoder_with_tables(1, 1);
    seed_asymmetric_surface(&mut decoder, 8, 8);
    let partial = partial_payload(1, 1, &["01_000000_0_00_0_00"]);
    let first = decoder.prepare_partial(&partial, 0, 0, 8, 8, 8, 8).unwrap();
    decoder.commit_opaque(first);
    let slot_one = cache_entry_snapshot(&decoder, 1).unwrap();
    let second = decoder.prepare_partial(&partial, 0, 0, 8, 8, 8, 8).unwrap();
    decoder.commit_opaque(second);
    let slot_two = cache_entry_snapshot(&decoder, 2).unwrap();
    assert_eq!(cache_index_snapshot(&decoder), (0, 2, 2));

    decoder.cache_state.last_insert_index = 64_999;
    decoder.surface_state.as_mut().unwrap().tiles[0]
        .coefficients
        .as_mut()
        .unwrap()
        .cb_dc = 79;
    let wrapped = decoder.prepare_partial(&partial, 0, 0, 8, 8, 8, 8).unwrap();
    decoder.commit_opaque(wrapped);
    let wrapped_slot_one = cache_entry_snapshot(&decoder, 1).unwrap();
    assert_ne!(wrapped_slot_one, slot_one);
    assert_eq!(wrapped_slot_one[64], 79);
    assert_eq!(cache_entry_snapshot(&decoder, 2), Some(slot_two));
    assert_eq!(decoder.cache_state.last_insert_index, 1);
    assert_eq!(decoder.cache_state.population_count, 3);
}

#[test]
fn slice_b_retained_seed_sequences_feed_opcode_one_and_copy_metadata_feeds_opcode_two() {
    for (mode, data) in [
        (0, terminal_only_data()),
        (3, mode_three_zero_bitmap_data()),
        (4, mode_four_reused_single_color_data()),
    ] {
        let mut seeded = decoder_with_tables(1, 1);
        seed_asymmetric_surface(&mut seeded, 8, 8);
        let modes = mode_stream(&[(mode, 0)]);
        let full = seeded.prepare(&record(&modes, &data), 8, 8).unwrap();
        seeded.commit(full);
        let opcode_one = partial_payload(1, 1, &["01_000000_0_00_0_00"]);
        let opaque = seeded
            .prepare_partial(&opcode_one, 0, 0, 8, 8, 8, 8)
            .unwrap();
        seeded.commit_opaque(opaque);
        assert!(cache_entry_snapshot(&seeded, 1).is_some());

        let mut unseeded = decoder_with_tables(1, 1);
        let full = unseeded.prepare(&record(&modes, &data), 8, 8).unwrap();
        unseeded.commit(full);
        assert!(unseeded
            .prepare_partial(&opcode_one, 0, 0, 8, 8, 8, 8)
            .is_err());
    }

    for (width, height, copy_mode) in [(16, 8, 1), (8, 16, 2)] {
        let mut decoder = decoder_with_tables(1, 1);
        seed_asymmetric_surface(&mut decoder, width, height);
        let modes = mode_stream(&[(0, 0), (copy_mode, 0)]);
        let full = decoder
            .prepare(&record(&modes, &terminal_only_data()), width, height)
            .unwrap();
        decoder.commit(full);
        assert!(reference_snapshot(&decoder, 1).is_some());

        let opcode_one = partial_payload(1, 1, &["00", "01_000000_0_00_0_00"]);
        let opaque = decoder
            .prepare_partial(&opcode_one, 0, 0, width, height, width, height)
            .unwrap();
        decoder.commit_opaque(opaque);
        assert!(cache_entry_snapshot(&decoder, 1).is_some());

        let opcode_two = partial_payload(0, 0, &["00", "10"]);
        let opaque = decoder
            .prepare_partial(&opcode_two, 0, 0, width, height, width, height)
            .unwrap();
        decoder.commit_opaque(opaque);
    }
}

#[test]
fn slice_c_mode_six_uses_big_endian_indices_and_distinct_ac_pixels() {
    let mut decoder = decoder_with_tables(64, 1);
    install_cache_entry(&mut decoder, 0x0102, ac_cache_entry(1), 0x0201);
    install_cache_entry(&mut decoder, 0x0201, ac_cache_entry(-1), 0x0201);
    let modes = mode_stream(&[(6, 0), (6, 0)]);
    let data = cache_mode_data(&[0x0102, 0x0201]);

    let prepared = decoder.prepare(&record(&modes, &data), 16, 8).unwrap();
    assert_eq!(cache_index_snapshot(&decoder).0, 0);
    let decoded = MvsFullDecoder::decoded(&prepared);
    let forward = [150, 147, 141, 132, 124, 115, 109, 106];
    let reverse = [106, 109, 115, 124, 132, 141, 147, 150];
    for y in 0..8 {
        for x in 0..8 {
            assert_eq!(pixel(decoded, x, y), [forward[x]; 3]);
            assert_eq!(pixel(decoded, x + 8, y), [reverse[x]; 3]);
        }
    }
    decoder.commit(prepared);
    assert_eq!(decoder.cache_state.previous_cache_index, 0x0201);
}

#[test]
fn slice_c_mode_seven_uses_previous_plus_one_including_initial_slot_one() {
    let mut decoder = decoder_with_tables(64, 1);
    install_cache_entry(&mut decoder, 0x0102, ac_cache_entry(1), 0x0103);
    install_cache_entry(&mut decoder, 0x0103, ac_cache_entry(-1), 0x0103);
    let modes = mode_stream(&[(6, 0), (7, 0)]);
    let data = cache_mode_data(&[0x0102]);
    let prepared = decoder.prepare(&record(&modes, &data), 16, 8).unwrap();
    assert_eq!(pixel(MvsFullDecoder::decoded(&prepared), 0, 0), [150; 3]);
    assert_eq!(pixel(MvsFullDecoder::decoded(&prepared), 8, 0), [106; 3]);
    decoder.commit(prepared);
    assert_eq!(decoder.cache_state.previous_cache_index, 0x0103);

    let mut initial = decoder_with_tables(64, 1);
    install_cache_entry(&mut initial, 1, ac_cache_entry(1), 1);
    let prepared = initial
        .prepare(
            &record(&mode_stream(&[(7, 0)]), &terminal_only_data()),
            8,
            8,
        )
        .unwrap();
    assert_eq!(pixel(MvsFullDecoder::decoded(&prepared), 0, 0), [150; 3]);
    initial.commit(prepared);
    assert_eq!(initial.cache_state.previous_cache_index, 1);

    let absent = decoder_with_tables(64, 1);
    assert!(absent
        .prepare(
            &record(&mode_stream(&[(7, 0)]), &terminal_only_data()),
            8,
            8,
        )
        .is_err());
}

#[test]
fn slice_c_invalid_uninitialized_and_count_mismatch_lookups_are_transactional() {
    for index in [0u16, 65_000u32 as u16] {
        let decoder = decoder_with_tables(64, 1);
        let data = cache_mode_data(&[index]);
        assert!(decoder
            .prepare(&record(&mode_stream(&[(6, 0)]), &data), 8, 8)
            .is_err());
        assert_eq!(decoder.cache_state.previous_cache_index, 0);
        assert!(decoder.surface_state.is_none());
    }

    let mut uninitialized = decoder_with_tables(64, 1);
    uninitialized.cache_state.population_count = 2;
    assert!(uninitialized
        .prepare(
            &record(&mode_stream(&[(6, 0)]), &cache_mode_data(&[2])),
            8,
            8,
        )
        .is_err());
    assert_eq!(uninitialized.cache_state.previous_cache_index, 0);

    let mut mismatch = decoder_with_tables(64, 1);
    install_cache_entry(&mut mismatch, 2, ac_cache_entry(1), 1);
    assert!(mismatch
        .prepare(
            &record(&mode_stream(&[(6, 0)]), &cache_mode_data(&[2])),
            8,
            8,
        )
        .is_err());
    assert_eq!(mismatch.cache_state.previous_cache_index, 0);

    let mut earlier_success = decoder_with_tables(64, 1);
    install_cache_entry(&mut earlier_success, 1, ac_cache_entry(1), 1);
    let modes = mode_stream(&[(6, 0), (6, 0)]);
    let data = cache_mode_data(&[1, 0]);
    assert!(earlier_success
        .prepare(&record(&modes, &data), 16, 8)
        .is_err());
    assert_eq!(earlier_success.cache_state.previous_cache_index, 0);
    assert!(earlier_success.surface_state.is_none());
}

#[test]
fn slice_c_edge_tiles_render_logical_eight_by_eight_but_clip_visible_pixels() {
    let mut decoder = decoder_with_tables(64, 1);
    install_cache_entry(&mut decoder, 1, ac_cache_entry(1), 1);
    let modes = mode_stream(&[(6, 3)]);
    let data = cache_mode_data(&[1, 1, 1, 1]);
    let prepared = decoder.prepare(&record(&modes, &data), 10, 9).unwrap();
    let decoded = MvsFullDecoder::decoded(&prepared);

    assert_eq!(decoded.rgb.len(), 10 * 9 * RGB_CHANNELS);
    assert_eq!(pixel(decoded, 8, 0), [150; 3]);
    assert_eq!(pixel(decoded, 9, 0), [147; 3]);
    assert_eq!(pixel(decoded, 8, 8), [150; 3]);
    assert_eq!(pixel(decoded, 9, 8), [147; 3]);
}

#[test]
fn slice_c_dropped_preparation_does_not_advance_previous_cache_index() {
    let mut decoder = decoder_with_tables(64, 1);
    install_cache_entry(&mut decoder, 1, ac_cache_entry(1), 1);
    let modes = mode_stream(&[(6, 0)]);
    let data = cache_mode_data(&[1]);
    let record = record(&modes, &data);

    let prepared = decoder.prepare(&record, 8, 8).unwrap();
    assert_eq!(decoder.cache_state.previous_cache_index, 0);
    drop(prepared);
    assert_eq!(decoder.cache_state.previous_cache_index, 0);

    let committed = decoder.prepare(&record, 8, 8).unwrap();
    decoder.commit(committed);
    assert_eq!(decoder.cache_state.previous_cache_index, 1);
}

#[test]
fn mode_zero_emits_exact_white_rgb_tile_without_data_fields() {
    let modes = mode_stream(&[(0, 0)]);
    let data = terminal_only_data();
    let prepared = prepare(&decoder(), &modes, &data, 8, 8).unwrap();
    assert_eq!(
        MvsFullDecoder::decoded(&prepared).rgb,
        vec![0xff; 8 * 8 * 3]
    );
}

#[test]
fn mode_one_copies_immediately_left_tile_and_rejects_first_column() {
    let modes = mode_stream(&[(3, 1), (1, 0)]);
    let data = two_asymmetric_mode_three_tiles_data();
    let prepared = prepare(&decoder(), &modes, &data, 24, 8).unwrap();
    let decoded = MvsFullDecoder::decoded(&prepared);
    let distractor = complete_tile(decoded, 0, 0);
    let immediate_left = complete_tile(decoded, 8, 0);
    let copied = complete_tile(decoded, 16, 0);
    assert_ne!(immediate_left, distractor);
    assert_eq!(pixel(decoded, 8, 0), [0, 0, 0]);
    assert_eq!(pixel(decoded, 15, 0), [255, 255, 255]);
    assert_eq!(copied, immediate_left);

    let invalid_modes = mode_stream(&[(1, 0)]);
    assert!(prepare(&decoder(), &invalid_modes, &terminal_only_data(), 8, 8,).is_err());
}

#[test]
fn mode_two_copies_immediately_above_tile_and_rejects_first_row() {
    let modes = mode_stream(&[(3, 1), (2, 0)]);
    let data = two_asymmetric_mode_three_tiles_data();
    let prepared = prepare(&decoder(), &modes, &data, 8, 24).unwrap();
    let decoded = MvsFullDecoder::decoded(&prepared);
    let distractor = complete_tile(decoded, 0, 0);
    let immediate_above = complete_tile(decoded, 0, 8);
    let copied = complete_tile(decoded, 0, 16);
    assert_ne!(immediate_above, distractor);
    assert_eq!(pixel(decoded, 0, 8), [0, 0, 0]);
    assert_eq!(pixel(decoded, 7, 8), [255, 255, 255]);
    assert_eq!(copied, immediate_above);

    let invalid_modes = mode_stream(&[(2, 0)]);
    assert!(prepare(&decoder(), &invalid_modes, &terminal_only_data(), 8, 8,).is_err());
}

#[test]
fn mode_three_preserves_msb_pixel_row_order_and_black_white_mapping() {
    let modes = mode_stream(&[(3, 0)]);
    let mut data = TestBitWriter::new();
    data.write_bits(0b0100_0000, 8);
    for bitmap in [0b1000_0001, 0b0100_0000, 0, 0, 0, 0, 0] {
        data.write_bits(bitmap, 8);
    }
    data.write_bits(0x6d, 8);
    let data = data.finish();

    let prepared = prepare(&decoder(), &modes, &data, 8, 8).unwrap();
    let decoded = MvsFullDecoder::decoded(&prepared);
    assert_eq!(pixel(decoded, 0, 0), [255, 255, 255]);
    assert_eq!(pixel(decoded, 1, 0), [0, 0, 0]);
    assert_eq!(pixel(decoded, 7, 0), [255, 255, 255]);
    assert_eq!(pixel(decoded, 0, 1), [255, 255, 255]);
    assert_eq!(pixel(decoded, 7, 1), [255, 255, 255]);
    assert_eq!(pixel(decoded, 0, 2), [0, 0, 0]);
    assert_eq!(pixel(decoded, 1, 2), [255, 255, 255]);
    assert_eq!(pixel(decoded, 0, 3), [0, 0, 0]);
}

#[test]
fn mode_four_one_color_uses_y_then_cb_then_cr_fields() {
    let modes = mode_stream(&[(4, 0)]);
    let mut data = TestBitWriter::new();
    data.write_bits(0, 1); // one color
    data.write_bits(0, 1); // new palette
    data.write_bits(100, 8);
    data.write_bits(16, 6); // Cb expands to 64
    data.write_bits(48, 6); // Cr expands to 192
    data.write_bits(0x6d, 8);
    let data = data.finish();

    let prepared = prepare(&decoder(), &modes, &data, 8, 8).unwrap();
    let decoded = MvsFullDecoder::decoded(&prepared);
    assert!(decoded.rgb.chunks_exact(3).all(|rgb| rgb == [190, 76, 0]));
}

#[test]
fn mode_four_two_color_preserves_palette_and_msb_bitmap_order() {
    let modes = mode_stream(&[(4, 0)]);
    let mut data = TestBitWriter::new();
    data.write_bits(1, 1); // two colors
    data.write_bits(0, 1); // new palette
    data.write_bits(100, 8);
    data.write_bits(16, 6);
    data.write_bits(48, 6);
    data.write_bits(50, 8);
    data.write_bits(48, 6);
    data.write_bits(16, 6);
    data.write_bits(0b0100_0000, 8);
    for bitmap in [0b1000_0001, 0, 0, 0, 0, 0, 0] {
        data.write_bits(bitmap, 8);
    }
    data.write_bits(0x6d, 8);
    let data = data.finish();

    let prepared = prepare(&decoder(), &modes, &data, 8, 8).unwrap();
    let decoded = MvsFullDecoder::decoded(&prepared);
    assert_eq!(pixel(decoded, 0, 0), [190, 76, 0]);
    assert_eq!(pixel(decoded, 1, 0), [0, 74, 163]);
    assert_eq!(pixel(decoded, 7, 0), [190, 76, 0]);
    assert_eq!(pixel(decoded, 0, 1), [190, 76, 0]);
    assert_eq!(pixel(decoded, 7, 1), [190, 76, 0]);
    assert_eq!(pixel(decoded, 0, 2), [0, 74, 163]);
}

#[test]
fn repeat_one_expands_to_exactly_two_tiles() {
    let modes = mode_stream(&[(0, 1)]);
    let data = terminal_only_data();
    let prepared = prepare(&decoder(), &modes, &data, 16, 8).unwrap();
    assert_eq!(
        MvsFullDecoder::decoded(&prepared).rgb,
        vec![0xff; 16 * 8 * 3]
    );
}

#[test]
fn edge_tiles_clip_to_exact_ten_by_nine_rgb_allocation() {
    let modes = mode_stream(&[(0, 3)]);
    let data = terminal_only_data();
    let prepared = prepare(&decoder(), &modes, &data, 10, 9).unwrap();
    let decoded = MvsFullDecoder::decoded(&prepared);
    assert_eq!((decoded.width, decoded.height), (10, 9));
    assert_eq!(decoded.rgb.len(), 10 * 9 * 3);
    assert!(decoded.rgb.iter().all(|&channel| channel == 255));
}

#[test]
fn dimensions_are_validated_before_allocation() {
    let modes = mode_stream(&[(0, 0)]);
    let data = terminal_only_data();
    let decoder = decoder();
    assert!(prepare(&decoder, &modes, &data, 0, 8).is_err());
    assert!(prepare(&decoder, &modes, &data, 8, 0).is_err());
    assert!(prepare(&decoder, &modes, &data, usize::MAX, 2).is_err());
    assert!(prepare(&decoder, &modes, &data, MAX_MVS_DECODE_PIXELS + 1, 1,).is_err());
}

#[test]
fn repeat_cannot_exceed_remaining_tile_count() {
    let modes = mode_stream(&[(0, 1)]);
    let data = terminal_only_data();
    assert!(prepare(&decoder(), &modes, &data, 8, 8).is_err());
}

#[test]
fn cache_modes_fail_closed_without_required_fields_or_initialized_slot() {
    let data = terminal_only_data();
    for mode in [6, 7] {
        let modes = mode_stream(&[(mode, 0)]);
        assert!(prepare(&decoder(), &modes, &data, 8, 8).is_err());
    }
}

#[test]
fn both_streams_require_exact_terminal_markers() {
    let valid_modes = mode_stream(&[(0, 0)]);
    let valid_data = terminal_only_data();

    let mut missing_mode = TestBitWriter::new();
    missing_mode.write_bits(0, 1);
    missing_mode.write_bits(0, 3);
    write_repeat(&mut missing_mode, 0);
    assert!(prepare(&decoder(), &missing_mode.finish(), &valid_data, 8, 8,).is_err());

    let mut wrong_mode = TestBitWriter::new();
    wrong_mode.write_bits(0, 1);
    wrong_mode.write_bits(0, 3);
    write_repeat(&mut wrong_mode, 0);
    wrong_mode.write_bits(0x6c, 8);
    assert!(prepare(&decoder(), &wrong_mode.finish(), &valid_data, 8, 8).is_err());
    assert!(prepare(&decoder(), &valid_modes, &[], 8, 8).is_err());
    assert!(prepare(&decoder(), &valid_modes, &[0x6c], 8, 8).is_err());
}

#[test]
fn premature_terminal_bits_cannot_replace_tile_fields() {
    let mut premature_mode = TestBitWriter::new();
    premature_mode.write_bits(0, 1);
    premature_mode.write_bits(0x6d, 8);
    let data = terminal_only_data();
    assert!(prepare(&decoder(), &premature_mode.finish(), &data, 8, 8).is_err());

    let modes = mode_stream(&[(4, 0)]);
    assert!(prepare(&decoder(), &modes, &terminal_only_data(), 8, 8).is_err());
}

#[test]
fn unaligned_terminal_is_exact_and_inserted_padding_is_rejected() {
    let modes = mode_stream(&[(0, 0)]);
    let data = terminal_only_data();
    assert!(prepare(&decoder(), &modes, &data, 8, 8).is_ok());

    let mut padded = TestBitWriter::new();
    padded.write_bits(0, 1);
    padded.write_bits(0, 3);
    write_repeat(&mut padded, 0);
    padded.write_bits(0, 1);
    padded.write_bits(0x6d, 8);
    assert!(prepare(&decoder(), &padded.finish(), &data, 8, 8).is_err());
}

#[test]
fn prepare_failure_and_valid_prepared_drop_leave_decoder_unchanged() {
    let modes = mode_stream(&[(0, 0)]);
    let data = terminal_only_data();
    let decoder = decoder();
    let prepared = prepare(&decoder, &modes, &data, 8, 8).unwrap();
    assert_eq!(decoder.committed_records, 0);
    drop(prepared);
    assert_eq!(decoder.committed_records, 0);

    let malformed_data = [0x6c];
    assert!(prepare(&decoder, &modes, &malformed_data, 8, 8).is_err());
    assert_eq!(decoder.committed_records, 0);

    let after_failure = prepare(&decoder, &modes, &data, 8, 8).unwrap();
    let fresh = prepare(&self::decoder(), &modes, &data, 8, 8).unwrap();
    assert_eq!(
        MvsFullDecoder::decoded(&after_failure),
        MvsFullDecoder::decoded(&fresh)
    );
}

#[test]
fn commit_returns_pixels_and_installs_only_staged_state() {
    let modes = mode_stream(&[(0, 0)]);
    let data = terminal_only_data();
    let mut decoder = decoder();
    let prepared = prepare(&decoder, &modes, &data, 8, 8).unwrap();
    assert_eq!(decoder.committed_records, 0);
    assert_eq!(prepared.next_decoder.committed_records, 1);

    let decoded = decoder.commit(prepared);
    assert_eq!(decoded.rgb, vec![0xff; 8 * 8 * 3]);
    assert_eq!(decoder.committed_records, 1);
}
#[test]
fn pixels_without_the_cache_do_not_depend_on_earlier_records() {
    let modes = mode_stream(&[(5, 1), (2, 0), (4, 0)]);
    let mut bits = TestBitWriter::new();
    bits.write_bits(1, 1);
    bits.write_bits(1, 1);
    bits.write_bits(0, 1);
    bits.write_bits(1, 1);
    bits.write_bits(u32::from(STREAM_TERMINAL), 8);
    let data = bits.finish();
    let fresh = decoder_with_tables(1, 1);
    let first = fresh.prepare(&record(&modes, &data), 16, 16).unwrap();

    let mut used = decoder_with_tables(1, 1);
    seed_asymmetric_surface(&mut used, 16, 16);
    let again = used.prepare(&record(&modes, &data), 16, 16).unwrap();
    assert_eq!(MvsFullDecoder::decoded(&first), MvsFullDecoder::decoded(&again));
}
