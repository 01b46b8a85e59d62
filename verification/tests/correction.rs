use qrforge::correction::{
    correction, ec_codewords, generate_generator_polynomial, multiply_polynomial, part0, partn,
    split_into_blocks,
};
use qrforge::encode::{build_combined_data, encode_segment};
use qrforge::galois::{lookup, reverse_lookup};
use qrforge::interleave::{get_remainder_bits, interleave, interleave_blocks};
use qrforge::{ErrorCorrection, Mode};

fn bits(text: &str) -> Vec<bool> {
    text.chars().filter(|c| *c != ' ').map(|c| c == '1').collect()
}

fn combined(version: usize, level: &ErrorCorrection, mode: &Mode, data: &[u8]) -> Vec<bool> {
    let (header, payload) = encode_segment(version, mode, data);
    let mut all = header;
    all.extend_from_slice(&payload);
    build_combined_data(all, version, level).unwrap()
}

#[test]
fn generator_polynomial_for_seven_codewords() {
    let exponents: Vec<u8> = generate_generator_polynomial(7).iter().map(|c| lookup(*c)).collect();
    assert_eq!(exponents, vec![0, 87, 229, 146, 149, 238, 102, 21]);
}

#[test]
fn generator_polynomial_for_ten_codewords() {
    let exponents: Vec<u8> = generate_generator_polynomial(10).iter().map(|c| lookup(*c)).collect();
    assert_eq!(exponents, vec![0, 251, 67, 46, 61, 118, 70, 64, 94, 32, 45]);
}

#[test]
fn generator_polynomial_values() {
    assert_eq!(generate_generator_polynomial(0), vec![1]);
    assert_eq!(generate_generator_polynomial(1), vec![1, 1]);
    assert_eq!(generate_generator_polynomial(2), vec![1, 3, 2]);
    assert_eq!(generate_generator_polynomial(30), vec![1, 212, 246, 77, 73, 195, 192, 75, 98, 5, 70, 103, 177, 22, 217, 138, 51, 181, 246, 72, 25, 18, 46, 228, 74, 216, 195, 11, 106, 130, 150]);
}

#[test]
fn polynomial_times_linear_factor() {
    assert_eq!(multiply_polynomial(&vec![1], 0), vec![1, 1]);
    assert_eq!(multiply_polynomial(&vec![1, 1], 1), vec![1, 3, 2]);
    assert_eq!(multiply_polynomial(&vec![1, 3, 2], 2), vec![1, 7, 14, 8]);
    assert_eq!(reverse_lookup(2), 4);
}

#[test]
fn division_step_takes_the_leading_term_off() {
    let generator = generate_generator_polynomial(2);
    let mut polynomial = vec![5u8, 0, 0, 9];
    partn(&mut polynomial, &generator, 0);
    assert_eq!(polynomial, vec![5, 15, 10, 9]);
    let mut polynomial = vec![0u8, 7, 7, 9];
    partn(&mut polynomial, &generator, 0);
    assert_eq!(polynomial, vec![0, 7, 7, 9]);
}

#[test]
fn hello_world_error_correction_codewords() {
    let generator = generate_generator_polynomial(10);
    let data = vec![32, 91, 11, 120, 209, 114, 220, 77, 67, 64, 236, 17, 236, 17, 236, 17];
    assert_eq!(part0(&generator, &data), vec![196, 35, 39, 119, 235, 215, 231, 226, 93, 23]);
}

#[test]
fn error_correction_of_zero_data_is_zero() {
    let generator = generate_generator_polynomial(7);
    assert_eq!(part0(&generator, &vec![0; 19]), vec![0; 7]);
    assert_eq!(part0(&generator, &vec![]), vec![0; 7]);
}

#[test]
fn error_correction_codeword_counts() {
    assert_eq!(ec_codewords(1, &ErrorCorrection::L), 7);
    assert_eq!(ec_codewords(1, &ErrorCorrection::M), 10);
    assert_eq!(ec_codewords(1, &ErrorCorrection::Q), 13);
    assert_eq!(ec_codewords(1, &ErrorCorrection::H), 17);
    assert_eq!(ec_codewords(5, &ErrorCorrection::Q), 18);
    assert_eq!(ec_codewords(40, &ErrorCorrection::H), 30);
    assert_eq!(ec_codewords(41, &ErrorCorrection::L), 2);
    assert_eq!(ec_codewords(44, &ErrorCorrection::Q), 14);
    for version in 1..=44 {
        assert_eq!(
            ec_codewords(version, &ErrorCorrection::M),
            ec_codewords(version, &ErrorCorrection::M)
        );
    }
}

#[test]
fn blocks_of_two_groups() {
    let data: Vec<u8> = (0..40).collect();
    let stream = combined(5, &ErrorCorrection::Q, &Mode::Byte, &data);
    let blocks = split_into_blocks(&stream, 5, &ErrorCorrection::Q);
    let expected: Vec<Vec<u8>> = vec![
        vec![66, 128, 0, 16, 32, 48, 64, 80, 96, 112, 128, 144, 160, 176, 192],
        vec![208, 224, 241, 1, 17, 33, 49, 65, 81, 97, 113, 129, 145, 161, 177],
        vec![193, 209, 225, 242, 2, 18, 34, 50, 66, 82, 98, 112, 236, 17, 236, 17],
        vec![236, 17, 236, 17, 236, 17, 236, 17, 236, 17, 236, 17, 236, 17, 236, 17],
    ];
    assert_eq!(blocks, expected);
}

#[test]
fn correction_protects_every_block() {
    let data: Vec<u8> = (0..40).collect();
    let stream = combined(5, &ErrorCorrection::Q, &Mode::Byte, &data);
    let (blocks, ec_blocks) = correction(5, &ErrorCorrection::Q, stream);
    assert_eq!(blocks.len(), 4);
    let expected: Vec<Vec<u8>> = vec![
        vec![98, 68, 16, 250, 59, 26, 204, 151, 234, 35, 62, 10, 21, 53, 253, 252, 26, 114],
        vec![138, 56, 215, 230, 125, 72, 72, 216, 39, 108, 205, 143, 246, 241, 60, 121, 238, 66],
        vec![25, 4, 255, 134, 218, 118, 125, 199, 113, 180, 69, 109, 252, 184, 239, 243, 100, 162],
        vec![253, 208, 208, 222, 148, 37, 141, 130, 227, 48, 182, 241, 103, 253, 37, 13, 171, 16],
    ];
    assert_eq!(ec_blocks, expected);
}

#[test]
fn last_codeword_of_m1_is_half_as_long() {
    let stream = combined(41, &ErrorCorrection::L, &Mode::Numeric, b"12345");
    assert_eq!(stream.len(), 20);
    let (blocks, ec_blocks) = correction(41, &ErrorCorrection::L, stream);
    assert_eq!(blocks, vec![vec![163, 218, 208]]);
    assert_eq!(ec_blocks, vec![vec![110, 199]]);
    let result = interleave(blocks, ec_blocks, 41);
    assert_eq!(result, bits("101000111101101011010110111011000111"));
}

#[test]
fn interleave_takes_codewords_in_round_robin() {
    let blocks = vec![vec![1u8, 2, 3], vec![4, 5, 6], vec![7, 8, 9, 10], vec![11, 12, 13, 14]];
    assert_eq!(interleave_blocks(&blocks), vec![1, 4, 7, 11, 2, 5, 8, 12, 3, 6, 9, 13, 10, 14]);
}

#[test]
fn interleave_blocks_of_uneven_groups() {
    let data: Vec<u8> = (0..40).collect();
    let stream = combined(5, &ErrorCorrection::Q, &Mode::Byte, &data);
    let (blocks, _) = correction(5, &ErrorCorrection::Q, stream);
    let order = interleave_blocks(&blocks);
    assert_eq!(order.len(), 62);
    for i in 0..15 {
        for b in 0..4 {
            assert_eq!(order[4 * i + b], blocks[b][i]);
        }
    }
    assert_eq!(order[60], blocks[2][15]);
    assert_eq!(order[61], blocks[3][15]);
}

#[test]
fn interleave_of_no_blocks_is_empty() {
    assert_eq!(interleave_blocks(&vec![]), Vec::<u8>::new());
    assert_eq!(interleave_blocks(&vec![vec![], vec![]]), Vec::<u8>::new());
    assert_eq!(interleave_blocks(&vec![vec![], vec![9]]), vec![9]);
}

#[test]
fn interleave_appends_the_remainder_bits() {
    let data: Vec<u8> = (0..40).collect();
    let stream = combined(5, &ErrorCorrection::Q, &Mode::Byte, &data);
    let (blocks, ec_blocks) = correction(5, &ErrorCorrection::Q, stream);
    let result = interleave(blocks, ec_blocks, 5);
    assert_eq!(result.len(), 62 * 8 + 72 * 8 + 7);
    assert_eq!(result, bits("01000010110100001100000111101100100000001110000011010001000100010000000011110001111000011110110000010000000000011111001000010001001000000001000100000010111011000011000000100001000100100001000101000000001100010010001011101100010100000100000100110010000100010110000001010001010000101110110001110000011000010101001000010001100000000111000101100010111011001001000010000001011100000001000110100000100100011110110011101100101100001010000100010001000100011100000010110001111011001110110000010001000100010110001010001010000110011111110101000100001110000000010011010000000100001101011111111111110100001111101011100110100001101101111000111011011111011101101010010100000110100100100001110110001001011100110001001000011111011000110110010111110110001100011110000010111010100010011101110001111000110010001101101100101101000011000000111110110011010100010110110110000010101000111101101101111100010001010111110110111111000110011100110101111100011011100011111101111111010011110011101111001001011111110001111001111100110000110100011010111011100110010010101011011100100100001010100010000100000000000"));
}

#[test]
fn remainder_bits_by_version() {
    let expected = [0, 7, 7, 7, 7, 7, 0, 0, 0, 0, 0, 0, 0, 3, 3, 3, 3, 3, 3, 3, 4, 4, 4, 4, 4, 4, 4, 3, 3, 3, 3, 3, 3, 3, 0, 0, 0, 0, 0, 0, 0, 0, 0, 0];
    for version in 1..=44 {
        assert_eq!(get_remainder_bits(version), vec![false; expected[version - 1]]);
    }
}
