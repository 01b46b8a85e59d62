use qrforge::drawing::{fill_rect, stamp_rings, write_run};
use qrforge::structured::{parity, split_into_chunks, split_segment, structured_append_header};
use qrforge::{Mode, QRCode};

fn bits(text: &str) -> Vec<bool> {
    text.chars().filter(|c| *c != ' ').map(|c| c == '1').collect()
}

fn cells(code: &QRCode) -> Vec<String> {
    let side = code.dimension();
    (0..side)
        .map(|y| {
            (0..side)
                .map(|x| {
                    if code.is_empty(x, y) {
                        '?'
                    } else if code.get(x, y) {
                        '#'
                    } else {
                        '.'
                    }
                })
                .collect()
        })
        .collect()
}

#[test]
fn header_of_a_symbol_among_several() {
    assert_eq!(structured_append_header(1, 2, 0xA5), bits("0011 0001 0010 10100101"));
    assert_eq!(structured_append_header(0, 1, 0), bits("0011 0000 0001 00000000"));
    assert_eq!(structured_append_header(15, 15, 255), bits("0011 1111 1111 11111111"));
}

#[test]
fn header_keeps_the_low_four_bits_of_index_and_count() {
    assert_eq!(structured_append_header(16, 17, 1), bits("0011 0000 0001 00000001"));
}

#[test]
fn parity_of_all_payload_bytes() {
    assert_eq!(parity(&[]), 0);
    assert_eq!(parity(&[(Mode::Byte, vec![0x12, 0x34])]), 0x26);
    let segments = vec![
        (Mode::Byte, b"I read the newspaper".to_vec()),
        (Mode::ECI(26), vec![]),
        (Mode::Numeric, b"1234567890".to_vec()),
    ];
    let expected = b"I read the newspaper1234567890".iter().fold(0u8, |acc, byte| acc ^ byte);
    assert_eq!(parity(&segments), expected);
}

#[test]
fn split_keeps_words_together() {
    // header of 14 bits, room for 27: one word of three digits fits
    let (left, right) = split_segment(&Mode::Numeric, &b"1234567".to_vec(), 14, 27);
    assert_eq!(left, b"123".to_vec());
    assert_eq!(right, b"4567".to_vec());
    let (left, right) = split_segment(&Mode::Byte, &b"abcdef".to_vec(), 12, 36);
    assert_eq!(left, b"abc".to_vec());
    assert_eq!(right, b"def".to_vec());
    let (left, right) = split_segment(&Mode::Alphanumeric, &b"ABCDE".to_vec(), 13, 40);
    assert_eq!(left, b"ABCD".to_vec());
    assert_eq!(right, b"E".to_vec());
}

#[test]
fn split_counts_a_kanji_character_twice() {
    let data = vec![0x93, 0xfa, 0x96, 0x7b, 0x82, 0xcc];
    let (left, right) = split_segment(&Mode::Kanji, &data, 12, 64);
    assert_eq!(left, vec![0x93, 0xfa, 0x96, 0x7b]);
    assert_eq!(right, vec![0x82, 0xcc]);
}

#[test]
fn split_lets_a_later_shorter_word_pass() {
    // room for 28 bits: the first word fits, the second does not, the last
    // digit of four bits does
    let (left, right) = split_segment(&Mode::Numeric, &b"1234567".to_vec(), 14, 28);
    assert_eq!(left, b"1237".to_vec());
    assert_eq!(right, b"456".to_vec());
}

#[test]
fn split_of_everything_and_of_nothing() {
    let (left, right) = split_segment(&Mode::Byte, &b"abc".to_vec(), 12, 100);
    assert_eq!(left, b"abc".to_vec());
    assert!(right.is_empty());
    let (left, right) = split_segment(&Mode::Byte, &b"abc".to_vec(), 12, 12);
    assert!(left.is_empty());
    assert_eq!(right, b"abc".to_vec());
    let (left, right) = split_segment(&Mode::Byte, &vec![], 12, 100);
    assert!(left.is_empty());
    assert!(right.is_empty());
}

#[test]
fn chunks_of_segments_that_fit_one_symbol() {
    let segments = vec![(Mode::Byte, b"ab".to_vec()), (Mode::Numeric, b"7".to_vec())];
    let chunks = split_into_chunks(1, &segments, 132);
    assert_eq!(
        chunks,
        vec![bits("0100 00000010 01100001 01100010 0001 0000000001 0111")]
    );
}

#[test]
fn chunks_split_a_segment_that_does_not_fit() {
    // room for 52 bits: header of 12 bits and five bytes
    let segments = vec![(Mode::Byte, b"abcdefgh".to_vec())];
    let chunks = split_into_chunks(1, &segments, 52);
    assert_eq!(
        chunks,
        vec![
            bits("0100 00000101 01100001 01100010 01100011 01100100 01100101"),
            bits("0100 00000011 01100110 01100111 01101000"),
        ]
    );
}

#[test]
fn chunks_begin_with_the_last_eci_header() {
    let segments = vec![(Mode::ECI(26), vec![]), (Mode::Byte, b"abcdefgh".to_vec())];
    let chunks = split_into_chunks(1, &segments, 52);
    assert_eq!(
        chunks,
        vec![
            bits("0100 00000101 01100001 01100010 01100011 01100100 01100101"),
            bits("0111 00011010 0100 00000011 01100110 01100111 01101000"),
        ]
    );
}

#[test]
fn chunks_close_a_symbol_that_has_no_room_for_a_header() {
    // the first segment takes 44 bits; the header of the second needs 12
    let segments = vec![(Mode::Byte, b"abcd".to_vec()), (Mode::Byte, vec![])];
    let chunks = split_into_chunks(1, &segments, 56);
    assert_eq!(
        chunks,
        vec![bits("0100 00000100 01100001 01100010 01100011 01100100"), bits("0100 00000000")]
    );
    let chunks = split_into_chunks(1, &segments, 57);
    assert_eq!(
        chunks,
        vec![bits("0100 00000100 01100001 01100010 01100011 01100100 0100 00000000")]
    );
    let segments = vec![(Mode::Byte, b"abcd".to_vec()), (Mode::Numeric, b"5".to_vec())];
    let chunks = split_into_chunks(1, &segments, 52);
    assert_eq!(
        chunks,
        vec![
            bits("0100 00000100 01100001 01100010 01100011 01100100"),
            bits("0001 0000000001 0101"),
        ]
    );
}

#[test]
fn chunks_of_nothing() {
    assert_eq!(split_into_chunks(1, &[], 52), Vec::<Vec<bool>>::new());
    assert_eq!(split_into_chunks(1, &[(Mode::ECI(3), vec![])], 52), Vec::<Vec<bool>>::new());
}

#[test]
fn rectangle_of_light_modules() {
    let mut code = QRCode::new(5);
    code.set(1, 1, true);
    fill_rect(&mut code, 1, 1, 3, 2, false, false);
    assert_eq!(cells(&code), vec!["?????", "?...?", "?...?", "?????", "?????"]);
}

#[test]
fn rectangle_over_unset_modules_only() {
    let mut code = QRCode::new(4);
    code.set(1, 0, true);
    code.set(2, 1, true);
    fill_rect(&mut code, 0, 0, 4, 2, false, true);
    assert_eq!(cells(&code), vec![".#..", "..#.", "????", "????"]);
    fill_rect(&mut code, 0, 2, 2, 2, true, true);
    assert_eq!(cells(&code), vec![".#..", "..#.", "##??", "##??"]);
    fill_rect(&mut code, 3, 3, 0, 0, true, false);
    assert_eq!(cells(&code), vec![".#..", "..#.", "##??", "##??"]);
}

#[test]
fn concentric_squares() {
    let mut code = QRCode::new(9);
    stamp_rings(&mut code, 4, 4, 3);
    assert_eq!(
        cells(&code),
        vec![
            "?????????",
            "?#######?",
            "?#.....#?",
            "?#.###.#?",
            "?#.###.#?",
            "?#.###.#?",
            "?#.....#?",
            "?#######?",
            "?????????",
        ]
    );
    let mut code = QRCode::new(5);
    stamp_rings(&mut code, 2, 2, 2);
    assert_eq!(cells(&code), vec!["#####", "#...#", "#.#.#", "#...#", "#####"]);
    let mut code = QRCode::new(3);
    stamp_rings(&mut code, 1, 1, 1);
    assert_eq!(cells(&code), vec!["###", "#.#", "###"]);
}

#[test]
fn runs_of_bits_in_four_directions() {
    let bits = bits("1101 0011");
    let mut code = QRCode::new(5);
    write_run(&mut code, &bits, 0, 4, 1, 0, true, true);
    write_run(&mut code, &bits, 4, 4, 4, 4, true, false);
    write_run(&mut code, &bits, 0, 3, 0, 1, false, true);
    write_run(&mut code, &bits, 5, 3, 4, 3, false, false);
    write_run(&mut code, &bits, 2, 0, 2, 2, true, true);
    assert_eq!(cells(&code), vec!["?##.#", "#???#", "#???#", ".???.", "?##.."]);
}
