use qrforge::encode::{
    build_combined_data, encode_segment, get_alphanumeric_index, get_bit_count, get_data, get_mode,
    get_size, is_mode_supported, is_segment_valid,
};
use qrforge::utils::{bits_to_bytes, get_available_data_size, num_of_bits, push_bits};
use qrforge::{ErrorCorrection, Mode};

fn bits(text: &str) -> Vec<bool> {
    text.chars().filter(|c| *c != ' ').map(|c| c == '1').collect()
}

#[test]
fn encode_numeric_triplets_and_remainders() {
    let (header, payload) = encode_segment(1, &Mode::Numeric, &vec![48, 49, 50, 51, 52, 53, 54, 55]);
    assert_eq!(header, bits("00010000001000"));
    assert_eq!(payload, bits("000000110001010110011000011"));
}

#[test]
fn encode_numeric_single_digit_left_over() {
    let (header, payload) = encode_segment(1, &Mode::Numeric, &vec![49, 50, 51, 52]);
    assert_eq!(header, bits("00010000000100"));
    assert_eq!(payload, bits("00011110110100"));
}

#[test]
fn encode_numeric_two_digits_left_over() {
    let (header, payload) = encode_segment(10, &Mode::Numeric, &vec![57, 56, 55, 54, 53]);
    assert_eq!(header, bits("0001000000000101"));
    assert_eq!(payload, bits("11110110111000001"));
}

#[test]
fn encode_alphanumeric_pairs() {
    let (header, payload) = encode_segment(1, &Mode::Alphanumeric, &vec![65, 67, 45, 52, 50]);
    assert_eq!(header, bits("0010000000101"));
    assert_eq!(payload, bits("0011100111011100111001000010"));
}

#[test]
fn encode_alphanumeric_hello_world() {
    let (header, payload) = encode_segment(1, &Mode::Alphanumeric, &vec![72, 69, 76, 76, 79, 32, 87, 79, 82, 76, 68]);
    assert_eq!(header, bits("0010000001011"));
    assert_eq!(payload, bits("0110000101101111000110100010111001011011100010011010100001101"));
}

#[test]
fn encode_byte_mode_bits() {
    let (header, payload) = encode_segment(1, &Mode::Byte, &vec![0, 255, 90, 129]);
    assert_eq!(header, bits("010000000100"));
    assert_eq!(payload, bits("00000000111111110101101010000001"));
}

#[test]
fn encode_byte_mode_wide_count() {
    let (header, payload) = encode_segment(10, &Mode::Byte, &vec![97, 98]);
    assert_eq!(header, bits("01000000000000000010"));
    assert_eq!(payload, bits("0110000101100010"));
}

#[test]
fn encode_kanji_pairs() {
    let (header, payload) = encode_segment(1, &Mode::Kanji, &vec![147, 95, 228, 170]);
    assert_eq!(header, bits("100000000010"));
    assert_eq!(payload, bits("01101100111111101010101010"));
}

#[test]
fn encode_kanji_wide_count() {
    let (header, payload) = encode_segment(27, &Mode::Kanji, &vec![129, 64, 159, 252, 224, 64, 235, 191]);
    assert_eq!(header, bits("1000000000000100"));
    assert_eq!(payload, bits("0000000000000101110011110010111010000001111111111111"));
}

#[test]
fn encode_micro_m1_numeric() {
    let (header, payload) = encode_segment(41, &Mode::Numeric, &vec![49, 50, 51, 52, 53]);
    assert_eq!(header, bits("101"));
    assert_eq!(payload, bits("00011110110101101"));
}

#[test]
fn encode_micro_m2_alphanumeric() {
    let (header, payload) = encode_segment(42, &Mode::Alphanumeric, &vec![65, 66, 49]);
    assert_eq!(header, bits("1011"));
    assert_eq!(payload, bits("00111001101000001"));
}

#[test]
fn encode_micro_m3_byte() {
    let (header, payload) = encode_segment(43, &Mode::Byte, &vec![104, 105]);
    assert_eq!(header, bits("100010"));
    assert_eq!(payload, bits("0110100001101001"));
}

#[test]
fn encode_micro_m4_kanji() {
    let (header, payload) = encode_segment(44, &Mode::Kanji, &vec![147, 95]);
    assert_eq!(header, bits("0110001"));
    assert_eq!(payload, bits("0110110011111"));
}

#[test]
fn encode_micro_m4_numeric() {
    let (header, payload) = encode_segment(44, &Mode::Numeric, &vec![48, 49, 50, 51, 52, 53, 54, 55, 56, 57]);
    assert_eq!(header, bits("000001010"));
    assert_eq!(payload, bits("0000001100010101100110101001101001"));
}

#[test]
fn encode_eci_has_header_only() {
    let (header, payload) = encode_segment(1, &Mode::ECI(26), &[]);
    assert_eq!(header, bits("0111 00011010"));
    assert!(payload.is_empty());
    let (header, payload) = encode_segment(5, &Mode::ECI(1000), &[]);
    assert_eq!(header, bits("0111 0000001111101000"));
    assert!(payload.is_empty());
    let (header, _) = encode_segment(5, &Mode::ECI(20000), &[]);
    assert_eq!(header, bits("0111 000000000100111000100000"));
    let (header, _) = encode_segment(5, &Mode::ECI(1000000), &[]);
    assert_eq!(header, bits("0111"));
}

#[test]
fn bit_count_by_version_band() {
    assert_eq!(get_bit_count(1, &Mode::Numeric), 10);
    assert_eq!(get_bit_count(9, &Mode::Numeric), 10);
    assert_eq!(get_bit_count(10, &Mode::Numeric), 12);
    assert_eq!(get_bit_count(26, &Mode::Numeric), 12);
    assert_eq!(get_bit_count(27, &Mode::Numeric), 14);
    assert_eq!(get_bit_count(40, &Mode::Numeric), 14);
    assert_eq!(get_bit_count(9, &Mode::Alphanumeric), 9);
    assert_eq!(get_bit_count(10, &Mode::Alphanumeric), 11);
    assert_eq!(get_bit_count(27, &Mode::Alphanumeric), 13);
    assert_eq!(get_bit_count(9, &Mode::Byte), 8);
    assert_eq!(get_bit_count(10, &Mode::Byte), 16);
    assert_eq!(get_bit_count(40, &Mode::Byte), 16);
    assert_eq!(get_bit_count(9, &Mode::Kanji), 8);
    assert_eq!(get_bit_count(26, &Mode::Kanji), 10);
    assert_eq!(get_bit_count(27, &Mode::Kanji), 12);
    assert_eq!(get_bit_count(41, &Mode::Numeric), 3);
    assert_eq!(get_bit_count(42, &Mode::Numeric), 4);
    assert_eq!(get_bit_count(43, &Mode::Numeric), 5);
    assert_eq!(get_bit_count(44, &Mode::Numeric), 6);
    assert_eq!(get_bit_count(42, &Mode::Alphanumeric), 3);
    assert_eq!(get_bit_count(44, &Mode::Alphanumeric), 5);
    assert_eq!(get_bit_count(43, &Mode::Byte), 4);
    assert_eq!(get_bit_count(44, &Mode::Byte), 5);
    assert_eq!(get_bit_count(43, &Mode::Kanji), 3);
    assert_eq!(get_bit_count(44, &Mode::Kanji), 4);
    assert_eq!(get_bit_count(1, &Mode::ECI(127)), 8);
    assert_eq!(get_bit_count(1, &Mode::ECI(128)), 16);
    assert_eq!(get_bit_count(1, &Mode::ECI(16383)), 16);
    assert_eq!(get_bit_count(1, &Mode::ECI(16384)), 24);
    assert_eq!(get_bit_count(1, &Mode::ECI(999999)), 24);
    assert_eq!(get_bit_count(1, &Mode::ECI(1000000)), 0);
}

#[test]
fn mode_indicators() {
    assert_eq!(get_mode(&Mode::Numeric, 1), bits("0001"));
    assert_eq!(get_mode(&Mode::Alphanumeric, 40), bits("0010"));
    assert_eq!(get_mode(&Mode::Byte, 7), bits("0100"));
    assert_eq!(get_mode(&Mode::Kanji, 7), bits("1000"));
    assert_eq!(get_mode(&Mode::ECI(3), 7), bits("0111"));
    assert_eq!(get_mode(&Mode::Numeric, 41), bits(""));
    assert_eq!(get_mode(&Mode::Numeric, 42), bits("0"));
    assert_eq!(get_mode(&Mode::Alphanumeric, 42), bits("1"));
    assert_eq!(get_mode(&Mode::Numeric, 43), bits("00"));
    assert_eq!(get_mode(&Mode::Alphanumeric, 43), bits("01"));
    assert_eq!(get_mode(&Mode::Byte, 43), bits("10"));
    assert_eq!(get_mode(&Mode::Kanji, 43), bits("11"));
    assert_eq!(get_mode(&Mode::Numeric, 44), bits("000"));
    assert_eq!(get_mode(&Mode::Alphanumeric, 44), bits("001"));
    assert_eq!(get_mode(&Mode::Byte, 44), bits("010"));
    assert_eq!(get_mode(&Mode::Kanji, 44), bits("011"));
}

#[test]
fn size_counts_characters() {
    assert_eq!(get_size(&[1, 2, 3], 8, &Mode::Byte), bits("00000011"));
    assert_eq!(get_size(&[0x93, 0x5F, 0xE4, 0xAA], 8, &Mode::Kanji), bits("00000010"));
    assert_eq!(get_size(&[], 8, &Mode::ECI(26)), bits("00011010"));
    assert_eq!(get_size(b"HELLO WORLD", 9, &Mode::Alphanumeric), bits("000001011"));
}

#[test]
fn data_of_an_empty_payload_is_empty() {
    assert!(get_data(&[], &Mode::Numeric).is_empty());
    assert!(get_data(&[], &Mode::Alphanumeric).is_empty());
    assert!(get_data(&[], &Mode::Byte).is_empty());
    assert!(get_data(&[], &Mode::Kanji).is_empty());
    assert!(get_data(&[1, 2], &Mode::ECI(5)).is_empty());
}

#[test]
fn kanji_leaves_a_single_byte_out() {
    assert_eq!(get_data(&[0x93, 0x5F, 0xE4], &Mode::Kanji), bits("0110110011111"));
}

#[test]
fn alphanumeric_index_table() {
    let set = "0123456789ABCDEFGHIJKLMNOPQRSTUVWXYZ $%*+-./:";
    for (index, c) in set.bytes().enumerate() {
        assert_eq!(get_alphanumeric_index(c), index);
    }
    assert_eq!(get_alphanumeric_index(b'a'), 0);
    assert_eq!(get_alphanumeric_index(b'#'), 0);
}

#[test]
fn supported_modes_by_version() {
    for version in 1..=40 {
        assert!(is_mode_supported(version, &Mode::Numeric));
        assert!(is_mode_supported(version, &Mode::Alphanumeric));
        assert!(is_mode_supported(version, &Mode::Byte));
        assert!(is_mode_supported(version, &Mode::Kanji));
        assert!(is_mode_supported(version, &Mode::ECI(1)));
    }
    assert!(is_mode_supported(41, &Mode::Numeric));
    assert!(!is_mode_supported(41, &Mode::Alphanumeric));
    assert!(!is_mode_supported(41, &Mode::Byte));
    assert!(is_mode_supported(42, &Mode::Alphanumeric));
    assert!(!is_mode_supported(42, &Mode::Byte));
    assert!(!is_mode_supported(42, &Mode::Kanji));
    assert!(is_mode_supported(43, &Mode::Byte));
    assert!(is_mode_supported(44, &Mode::Kanji));
    assert!(!is_mode_supported(44, &Mode::ECI(1)));
    assert!(!is_mode_supported(0, &Mode::Numeric));
    assert!(!is_mode_supported(45, &Mode::Numeric));
}

#[test]
fn valid_and_invalid_payloads() {
    assert!(is_segment_valid(&Mode::Numeric, b"0123456789"));
    assert!(!is_segment_valid(&Mode::Numeric, b"12a"));
    assert!(!is_segment_valid(&Mode::Numeric, b"/"));
    assert!(!is_segment_valid(&Mode::Numeric, b":"));
    assert!(is_segment_valid(&Mode::Alphanumeric, b"HELLO WORLD $%*+-./:"));
    assert!(!is_segment_valid(&Mode::Alphanumeric, b"hello"));
    assert!(is_segment_valid(&Mode::Byte, &[0, 255]));
    assert!(is_segment_valid(&Mode::Kanji, &[0x81, 0x40, 0xEB, 0xBF]));
    assert!(!is_segment_valid(&Mode::Kanji, &[0x81, 0x40, 0xEB]));
    assert!(!is_segment_valid(&Mode::Kanji, &[0x81, 0x3F]));
    assert!(!is_segment_valid(&Mode::Kanji, &[0xA0, 0x00]));
    assert!(is_segment_valid(&Mode::ECI(7), &[]));
}

#[test]
fn hello_world_codewords_after_assembly() {
    let (header, payload) = encode_segment(1, &Mode::Alphanumeric, b"HELLO WORLD");
    let mut data = header;
    data.extend_from_slice(&payload);
    let combined = build_combined_data(data, 1, &ErrorCorrection::M).unwrap();
    assert_eq!(
        combined,
        bits(
            "00100000 01011011 00001011 01111000 11010001 01110010 11011100 01001101 \
             01000011 01000000 11101100 00010001 11101100 00010001 11101100 00010001"
        )
    );
    assert_eq!(
        bits_to_bytes(&combined),
        vec![32, 91, 11, 120, 209, 114, 220, 77, 67, 64, 236, 17, 236, 17, 236, 17]
    );
}

#[test]
fn assembly_stops_the_terminator_at_the_capacity() {
    let combined = build_combined_data(vec![true; 150], 1, &ErrorCorrection::L).unwrap();
    let mut expected = vec![true; 150];
    expected.extend_from_slice(&[false, false]);
    assert_eq!(combined, expected);
    let combined = build_combined_data(vec![true; 152], 1, &ErrorCorrection::L).unwrap();
    assert_eq!(combined, vec![true; 152]);
}

#[test]
fn assembly_pads_with_alternating_codewords() {
    let combined = build_combined_data(vec![true; 3], 1, &ErrorCorrection::H).unwrap();
    assert_eq!(combined.len(), 72);
    assert_eq!(bits_to_bytes(&combined), vec![0xE0, 0xEC, 0x11, 0xEC, 0x11, 0xEC, 0x11, 0xEC, 0x11]);
}

#[test]
fn assembly_of_micro_symbols_pads_with_light_bits() {
    let combined = build_combined_data(vec![true; 5], 41, &ErrorCorrection::L).unwrap();
    let mut expected = vec![true; 5];
    expected.extend_from_slice(&[false; 15]);
    assert_eq!(combined, expected);
    let combined = build_combined_data(vec![true; 60], 43, &ErrorCorrection::M).unwrap();
    assert_eq!(combined.len(), 68);
    assert!(combined[60..].iter().all(|bit| !*bit));
}

#[test]
fn assembly_rejects_data_beyond_the_capacity() {
    let error = build_combined_data(vec![false; 153], 1, &ErrorCorrection::L).unwrap_err();
    assert_eq!(error.to_string(), "Data too large");
    let error = build_combined_data(vec![false; 21], 41, &ErrorCorrection::L).unwrap_err();
    assert_eq!(error.to_string(), "Data too large");
}

#[test]
fn assembly_rejects_versions_and_levels_that_do_not_exist() {
    for version in [0usize, 45, 1000] {
        let error = build_combined_data(vec![], version, &ErrorCorrection::L).unwrap_err();
        assert_eq!(error.to_string(), "Invalid version");
    }
    let error = build_combined_data(vec![], 41, &ErrorCorrection::M).unwrap_err();
    assert_eq!(error.to_string(), "Invalid version");
    let error = build_combined_data(vec![], 42, &ErrorCorrection::Q).unwrap_err();
    assert_eq!(error.to_string(), "Invalid version");
    let error = build_combined_data(vec![], 44, &ErrorCorrection::H).unwrap_err();
    assert_eq!(error.to_string(), "Invalid version");
}

#[test]
fn capacity_lookup_is_a_function_of_its_arguments() {
    for version in 1..=44 {
        for level in [ErrorCorrection::L, ErrorCorrection::M, ErrorCorrection::Q, ErrorCorrection::H] {
            assert_eq!(
                get_available_data_size(version, &level),
                get_available_data_size(version, &level)
            );
        }
    }
    assert_eq!(get_available_data_size(1, &ErrorCorrection::L), 152);
    assert_eq!(get_available_data_size(1, &ErrorCorrection::H), 72);
    assert_eq!(get_available_data_size(5, &ErrorCorrection::Q), 496);
    assert_eq!(get_available_data_size(40, &ErrorCorrection::L), 23648);
    assert_eq!(get_available_data_size(40, &ErrorCorrection::H), 10208);
    assert_eq!(get_available_data_size(41, &ErrorCorrection::L), 20);
    assert_eq!(get_available_data_size(43, &ErrorCorrection::M), 68);
    assert_eq!(get_available_data_size(44, &ErrorCorrection::Q), 80);
    assert_eq!(get_available_data_size(44, &ErrorCorrection::H), 0);
}

#[test]
fn bits_of_a_number_most_significant_first() {
    let mut out = vec![true];
    push_bits(&mut out, 5, 4);
    assert_eq!(out, bits("1 0101"));
    push_bits(&mut out, 7, 0);
    assert_eq!(out, bits("1 0101"));
    push_bits(&mut out, 0x1FF, 8);
    assert_eq!(out, bits("1 0101 11111111"));
}

#[test]
fn bytes_of_bits_drop_the_incomplete_byte() {
    assert_eq!(bits_to_bytes(&bits("10000001 01111110 101")), vec![0x81, 0x7E]);
    assert_eq!(bits_to_bytes(&bits("1010101")), Vec::<u8>::new());
}

#[test]
fn payload_bits_per_mode() {
    assert_eq!(num_of_bits(&Mode::Numeric, 0), 0);
    assert_eq!(num_of_bits(&Mode::Numeric, 1), 4);
    assert_eq!(num_of_bits(&Mode::Numeric, 2), 7);
    assert_eq!(num_of_bits(&Mode::Numeric, 3), 10);
    assert_eq!(num_of_bits(&Mode::Numeric, 8), 27);
    assert_eq!(num_of_bits(&Mode::Alphanumeric, 11), 61);
    assert_eq!(num_of_bits(&Mode::Alphanumeric, 4), 22);
    assert_eq!(num_of_bits(&Mode::Byte, 17), 136);
    assert_eq!(num_of_bits(&Mode::Kanji, 2), 26);
    assert_eq!(num_of_bits(&Mode::ECI(9), 5), 0);
}
