use frd_vnc::mvs_bitstream::{decode_repeat_count, BitReader};

#[test]
fn reads_msb_first_across_byte_boundary() {
    let mut bits = BitReader::new(&[0b1011_0010, 0b0110_0001]);
    assert_eq!(bits.read_bits(3).unwrap(), 0b101);
    assert_eq!(bits.read_bits(6).unwrap(), 0b100100);
    assert_eq!(bits.read_bits(7).unwrap(), 0b1100001);
}

#[test]
fn exhaustion_is_an_error_without_advancing() {
    let mut bits = BitReader::new(&[0x80]);
    assert!(bits.read_bits(9).is_err());
    assert_eq!(bits.bit_position(), 0);
    assert_eq!(bits.read_bits(1).unwrap(), 1);
}

#[test]
fn rejects_bit_counts_above_word_width_without_advancing() {
    let mut bits = BitReader::new(&[0xff; 8]);
    assert!(bits.read_bits(33).is_err());
    assert_eq!(bits.bit_position(), 0);
    assert_eq!(bits.read_u8().unwrap(), 0xff);
}

#[test]
fn zero_bits_do_not_move_the_cursor() {
    let mut bits = BitReader::new(&[0x80]);
    assert_eq!(bits.read_bits(0).unwrap(), 0);
    assert_eq!(bits.bit_position(), 0);
    assert_eq!(bits.remaining_bits(), 8);
    assert_eq!(bits.read_bits(1).unwrap(), 1);
}

#[test]
fn consumes_the_exact_last_bit() {
    let mut bits = BitReader::new(&[0x01]);
    assert_eq!(bits.read_bits(7).unwrap(), 0);
    assert_eq!(bits.read_bits(1).unwrap(), 1);
    assert_eq!(bits.bit_position(), 8);
    assert_eq!(bits.remaining_bits(), 0);
    assert!(bits.read_bits(1).is_err());
    assert_eq!(bits.bit_position(), 8);
}

#[test]
fn read_u8_crosses_a_non_byte_aligned_cursor() {
    let mut bits = BitReader::new(&[0b1110_1010, 0b0101_1100]);
    assert_eq!(bits.read_bits(3).unwrap(), 0b111);
    assert_eq!(bits.read_u8().unwrap(), 0x52);
    assert_eq!(bits.bit_position(), 11);
    assert_eq!(bits.remaining_bits(), 5);
}

#[test]
fn repeat_count_matches_each_recovered_prefix_branch_and_maximum() {
    struct Case {
        name: &'static str,
        bytes: &'static [u8],
        expected: usize,
        consumed_bits: usize,
    }

    let cases = [
        Case {
            name: "0",
            bytes: &[0x00],
            expected: 0,
            consumed_bits: 1,
        },
        Case {
            name: "1_0000",
            bytes: &[0x80],
            expected: 1,
            consumed_bits: 5,
        },
        Case {
            name: "1_1110",
            bytes: &[0xf0],
            expected: 15,
            consumed_bits: 5,
        },
        Case {
            name: "1_1111_00000000",
            bytes: &[0xf8, 0x00],
            expected: 16,
            consumed_bits: 13,
        },
        Case {
            name: "1_1111_01111111",
            bytes: &[0xfb, 0xf8],
            expected: 143,
            consumed_bits: 13,
        },
        Case {
            name: "1_1111_10000000_00000000",
            bytes: &[0xfc, 0x00, 0x00],
            expected: 16,
            consumed_bits: 21,
        },
        Case {
            name: "1_1111_11111111_01111111",
            bytes: &[0xff, 0xfb, 0xf8],
            expected: 16_399,
            consumed_bits: 21,
        },
        Case {
            name: "1_1111_10000000_10000000_00000000",
            bytes: &[0xfc, 0x04, 0x00, 0x00],
            expected: 16,
            consumed_bits: 29,
        },
        Case {
            name: "1_1111_11111111_11111111_11111111",
            bytes: &[0xff, 0xff, 0xff, 0xf8],
            expected: 4_194_319,
            consumed_bits: 29,
        },
    ];

    for case in cases {
        let mut bits = BitReader::new(case.bytes);
        assert_eq!(
            decode_repeat_count(&mut bits).unwrap(),
            case.expected,
            "{}",
            case.name
        );
        assert_eq!(bits.bit_position(), case.consumed_bits, "{}", case.name);
    }
}

#[test]
fn repeat_count_preserves_asymmetric_21_bit_group_weights() {
    let mut bits = BitReader::new(&[0xfc, 0x08, 0x10]);
    assert_eq!(decode_repeat_count(&mut bits).unwrap(), 273);
    assert_eq!(bits.bit_position(), 21);
}

#[test]
fn repeat_count_preserves_asymmetric_29_bit_group_weights() {
    let mut bits = BitReader::new(&[0xfc, 0x0c, 0x10, 0x18]);
    assert_eq!(decode_repeat_count(&mut bits).unwrap(), 49_425);
    assert_eq!(bits.bit_position(), 29);
}

#[test]
fn repeat_count_rejects_each_truncated_prefix_without_overread() {
    struct Case {
        name: &'static str,
        bytes: &'static [u8],
        skip_bits: u8,
        stopped_at: usize,
        remaining_bits: usize,
    }

    let cases = [
        Case {
            name: "zero_of_one_bits",
            bytes: &[],
            skip_bits: 0,
            stopped_at: 0,
            remaining_bits: 0,
        },
        Case {
            name: "four_of_five_bits",
            bytes: &[0x0f],
            skip_bits: 4,
            stopped_at: 5,
            remaining_bits: 3,
        },
        Case {
            name: "twelve_of_thirteen_bits",
            bytes: &[0x0f, 0x80],
            skip_bits: 4,
            stopped_at: 9,
            remaining_bits: 7,
        },
        Case {
            name: "twenty_of_twenty_one_bits",
            bytes: &[0x0f, 0xc0, 0x00],
            skip_bits: 4,
            stopped_at: 17,
            remaining_bits: 7,
        },
        Case {
            name: "twenty_eight_of_twenty_nine_bits",
            bytes: &[0x0f, 0xc0, 0x40, 0x00],
            skip_bits: 4,
            stopped_at: 25,
            remaining_bits: 7,
        },
    ];

    for case in cases {
        let mut bits = BitReader::new(case.bytes);
        bits.read_bits(case.skip_bits).unwrap();
        assert!(decode_repeat_count(&mut bits).is_err(), "{}", case.name);
        assert_eq!(bits.bit_position(), case.stopped_at, "{}", case.name);
        assert_eq!(bits.remaining_bits(), case.remaining_bits, "{}", case.name);
    }
}
#[test]
fn two_reads_give_the_digits_of_one() {
    let bytes = [0b1011_0010, 0b0110_0001, 0x5a, 0xc3, 0x0f];
    for (a, b) in [(3u8, 6u8), (0, 32), (32, 0), (13, 19), (1, 1)] {
        let mut twice = BitReader::new(&bytes);
        twice.read_bits(2).unwrap();
        let high = twice.read_bits(a).unwrap();
        let low = twice.read_bits(b).unwrap();
        let mut once = BitReader::new(&bytes);
        once.read_bits(2).unwrap();
        let whole = once.read_bits(a + b).unwrap();
        assert_eq!(u64::from(whole), (u64::from(high) << b) | u64::from(low));
        assert_eq!(once.bit_position(), twice.bit_position());
        assert_eq!(once.remaining_bits(), 40 - 2 - usize::from(a + b));
        assert_eq!(twice.remaining_bits(), once.remaining_bits());
    }
}
