use qrforge::{ErrorCorrection, Mode, QRCode, Version};

fn rows(code: &QRCode) -> Vec<String> {
    let side = code.dimension();
    (0..side)
        .map(|y| (0..side).map(|x| if code.get(x, y) { '#' } else { '.' }).collect())
        .collect()
}

fn fingerprint(code: &QRCode) -> u64 {
    let side = code.dimension();
    let mut hash: u64 = 0xcbf29ce484222325;
    for y in 0..side {
        for x in 0..side {
            hash ^= if code.get(x, y) { 1 } else { 0 };
            hash = hash.wrapping_mul(0x100000001b3);
        }
    }
    hash
}

fn every_module_is_set(code: &QRCode) -> bool {
    let side = code.dimension();
    (0..side).all(|y| (0..side).all(|x| !code.is_empty(x, y)))
}

#[test]
fn symbol_hello_world_version_1_m() {
    let segments = vec![(Mode::Alphanumeric, vec![72, 69, 76, 76, 79, 32, 87, 79, 82, 76, 68])];
    let code = QRCode::build(Version::V(1), ErrorCorrection::M, &segments).unwrap();
    assert_eq!(code.dimension(), 21);
    assert!(every_module_is_set(&code));
    let expected = vec![
        "#######...#.#.#######",
        "#.....#.###...#.....#",
        "#.###.#...#.#.#.###.#",
        "#.###.#...#.#.#.###.#",
        "#.###.#.#.###.#.###.#",
        "#.....#..###..#.....#",
        "#######.#.#.#.#######",
        ".....................",
        "#.#.#.#..#..#...#..#.",
        ".####...#..#....#...#",
        "...#######.#..#.##...",
        "####.#.##..###.#.###.",
        ".#..####.#.#..###.#.#",
        "........#.#...#...#.#",
        "#######.....#..#.##..",
        "#.....#..##...##.#...",
        "#.###.#.##..#.#######",
        "#.###.#...##.#.#...#.",
        "#.###.#.####.###.#..#",
        "#.....#....###...#.##",
        "#######.##.#.###....#",
    ];
    assert_eq!(rows(&code), expected);
    assert_eq!(fingerprint(&code), 0x1c376158ce5b2c55);
}

#[test]
fn symbol_bytes_version_2_l() {
    let segments = vec![(Mode::Byte, vec![104, 116, 116, 112, 115, 58, 47, 47, 101, 120, 97, 109, 112, 108, 101, 46, 111, 114, 103, 47, 113, 114])];
    let code = QRCode::build(Version::V(2), ErrorCorrection::L, &segments).unwrap();
    assert_eq!(code.dimension(), 25);
    assert!(every_module_is_set(&code));
    let expected = vec![
        "#######.####.#....#######",
        "#.....#....##.#.#.#.....#",
        "#.###.#..#.#.#....#.###.#",
        "#.###.#...##.#.##.#.###.#",
        "#.###.#...###.#.#.#.###.#",
        "#.....#..#.#.##.#.#.....#",
        "#######.#.#.#.#.#.#######",
        "........##..##.##........",
        "##.##.#..#..#...#.#.....#",
        "##..#...#.#..#####.#####.",
        "###...#.##..##.###.###..#",
        "###.##..#.....#..###.####",
        ".#....##.##....##.##....#",
        "#....#...##.##.##...#..#.",
        "###.#####.#..#.##.#.#####",
        "#.###..#....#....###.##.#",
        "#.##.##..#.###..#####.##.",
        "........##.#..#.#...#.##.",
        "#######..##.#.#.#.#.#...#",
        "#.....#..#.#.####...#....",
        "#.###.#.#.##.#.######..##",
        "#.###.#.#...###.###....##",
        "#.###.#...##.#.#.#..#####",
        "#.....#.##.###.#...##.###",
        "#######.######..#.#..#..#",
    ];
    assert_eq!(rows(&code), expected);
    assert_eq!(fingerprint(&code), 0x8c083238f3415b59);
}

#[test]
fn symbol_mixed_segments_version_7_q() {
    let segments = vec![(Mode::Byte, vec![72, 101, 108, 108, 111, 32, 119, 111, 114, 108, 100]), (Mode::Numeric, vec![48, 49, 50, 51, 52, 53, 54, 55, 56, 57, 48, 49, 50, 51, 52, 53, 54, 55, 56, 57, 48, 49, 50, 51, 52, 53, 54, 55, 56, 57, 48, 49, 50, 51])];
    let code = QRCode::build(Version::V(7), ErrorCorrection::Q, &segments).unwrap();
    assert_eq!(code.dimension(), 45);
    assert!(every_module_is_set(&code));
    let expected = vec![
        "#######.#..#.##.......##.######.#...#.#######",
        "#.....#...##....###.....#...#....#.#..#.....#",
        "#.###.#..####...#..##...#....#.#...#..#.###.#",
        "#.###.#...#..#.#####.##..#.#.##....##.#.###.#",
        "#.###.#.#..##..#...######....#.#.####.#.###.#",
        "#.....#.#....##.###.#...##.#..#..#....#.....#",
        "#######.#.#.#.#.#.#.#.#.#.#.#.#.#.#.#.#######",
        "..........#..##.##..#...#..#..#..#.#.........",
        ".#######..#..#.#.##.######..#####..##..##...#",
        "#..##...#.##.#####.#.#..#..##.#.##..##.#..#..",
        "####..###..#.##.#...##.#.#..#####..##.#.#####",
        "###..#.#.....#....#....#####.#.#..#.###...#.#",
        "#.#.######.##..#.##...#...#.#....##.#.##.####",
        "..#....#.######..#.###.#.###.#.#..#......#.#.",
        "####.##.#....#.##.#..#.#...#..#..#...#.#...#.",
        "###..#.#..##...#..#.#..#...#..#..#.....#.#...",
        "...#.###..#..##.#....#####.#######...#..#.###",
        ".#.##..##.##..#.#.#..#..#..#..#.#...#..##.#..",
        "#.##.#####.#.#...##.#.##.#.#.####.##.#..####.",
        "###.##.#.#...#.#####.#######.#..#.##.##...###",
        ".########.#...#####.#####.#.#..##..########.#",
        "...##...#..###.#...##...######.#..#.#...#....",
        ".####.#.##...####.###.#.#...#.#...#.#.#.#.###",
        "....#...#.####.#..###...###..#.##.#.#...###.#",
        "##########.###..#..#######.#..##.########..##",
        ".#.#.#.###......#.#####......####.#.#.##.###.",
        "#.#..###...####..#####.#.#.#...###..###......",
        "#..###..##.##..##..#.#.#..##.....#.....#.###.",
        "#.#.####....###.#..#......#.#.###..##..#.....",
        "#..###..###...#..###.##.#.####..##.#.#..#.#..",
        ".#..#####.#..#####.#....##..#.###..#...######",
        "..###..#######.#.#.########..#.#..#.##..#.#.#",
        "###.####..#.##...####.##..##.....##..########",
        ".#...#.##.###.....#.####.#...#.#..#.#.#..#...",
        "....#.#........#.##.###....#..#..#..#####....",
        ".####..#..#...#..#..##.##..#..#..#.....###.##",
        "#..##.#....#...#...######.#..####..######.#..",
        "........#....#.##.#.#...##....#.##..#...#.#..",
        "#######.#.#.##.###.##.#.##...####..##.#.###..",
        "#.....#.######..#.#.#...#....#.#...##...#.#..",
        "#.###.#.#.#.##...########..#......#########.#",
        "#.###.#.#.#####..##.#...#.##.#.#.....#####...",
        "#.###.#.##.....#.#.####.......#..###.........",
        "#.....#.###..#..###.#..##.....#.#...##...#...",
        "#######..##..#....#..#.##.##.##.#.###.#...##.",
    ];
    assert_eq!(rows(&code), expected);
    assert_eq!(fingerprint(&code), 0x8f73a6d961cc0bbd);
}

#[test]
fn symbol_micro_m1_digits() {
    let segments = vec![(Mode::Numeric, vec![49, 50, 51, 52, 53])];
    let code = QRCode::build(Version::M(1), ErrorCorrection::L, &segments).unwrap();
    assert_eq!(code.dimension(), 11);
    assert!(every_module_is_set(&code));
    let expected = vec![
        "#######.#.#",
        "#.....#.##.",
        "#.###.#.#..",
        "#.###.#....",
        "#.###.#.###",
        "#.....#..##",
        "#######.#..",
        ".........##",
        "##..###..##",
        ".#.#...##..",
        "####.....##",
    ];
    assert_eq!(rows(&code), expected);
    assert_eq!(fingerprint(&code), 0x99cccfaec0c90922);
}

#[test]
fn symbol_micro_m2_m_text() {
    let segments = vec![(Mode::Alphanumeric, vec![65, 66, 49, 50])];
    let code = QRCode::build(Version::M(2), ErrorCorrection::M, &segments).unwrap();
    assert_eq!(code.dimension(), 13);
    assert!(every_module_is_set(&code));
    let expected = vec![
        "#######.#.#.#",
        "#.....#.....#",
        "#.###.#.#.##.",
        "#.###.#..#.#.",
        "#.###.#.#...#",
        "#.....#..##.#",
        "#######...#..",
        "........##...",
        "###.#...#.##.",
        ".#####..#...#",
        "#........##.#",
        ".##..#.#.#...",
        "#...#.##.###.",
    ];
    assert_eq!(rows(&code), expected);
    assert_eq!(fingerprint(&code), 0x56dd8d33c77f431f);
}

#[test]
fn symbol_micro_m3_l_bytes() {
    let segments = vec![(Mode::Byte, vec![109, 105, 99, 114, 111, 32, 113, 114])];
    let code = QRCode::build(Version::M(3), ErrorCorrection::L, &segments).unwrap();
    assert_eq!(code.dimension(), 15);
    assert!(every_module_is_set(&code));
    let expected = vec![
        "#######.#.#.#.#",
        "#.....#....#.##",
        "#.###.#.#######",
        "#.###.#.#.##.##",
        "#.###.#..#.####",
        "#.....#.#.##..#",
        "#######..##.##.",
        "..............#",
        "######...#.#...",
        "...#.#.#..##.#.",
        "#.##..###.###..",
        ".#..####.###.#.",
        "###.##.##.#####",
        ".#...#..#...##.",
        "##...##.#..####",
    ];
    assert_eq!(rows(&code), expected);
    assert_eq!(fingerprint(&code), 0x7c35128efa7ff0f9);
}

#[test]
fn symbol_micro_m4_q_digits() {
    let segments = vec![(Mode::Numeric, vec![48, 49, 50, 51, 52, 53, 54, 55, 56, 57, 48, 49, 50, 51, 52, 53])];
    let code = QRCode::build(Version::M(4), ErrorCorrection::Q, &segments).unwrap();
    assert_eq!(code.dimension(), 17);
    assert!(every_module_is_set(&code));
    let expected = vec![
        "#######.#.#.#.#.#",
        "#.....#.#.....##.",
        "#.###.#...####...",
        "#.###.#.######..#",
        "#.###.#.#.##.##.#",
        "#.....#..##.###..",
        "#######..###.###.",
        ".........######..",
        "#.#####.####.###.",
        ".###..#...#.#..##",
        "######..########.",
        ".#.#.......####.#",
        "##..#.#..#.##.###",
        "....##....#.#.#..",
        "###.....##..##.#.",
        "..#.......#.#...#",
        "#..###.#..###..#.",
    ];
    assert_eq!(rows(&code), expected);
    assert_eq!(fingerprint(&code), 0x5b6ef80e05e4276c);
}

#[test]
fn symbol_kanji_version_3_h() {
    let segments = vec![(Mode::Kanji, vec![147, 250, 150, 123, 130, 204, 130, 193, 130, 189])];
    let code = QRCode::build(Version::V(3), ErrorCorrection::H, &segments).unwrap();
    assert_eq!(code.dimension(), 29);
    assert!(every_module_is_set(&code));
    assert_eq!(fingerprint(&code), 0xe3dd5afbb62f41f5);
}

#[test]
fn symbol_numeric_version_14_m() {
    let segments = vec![(Mode::Numeric, (0..500usize).map(|i| (i % 10) as u8 + 48).collect())];
    let code = QRCode::build(Version::V(14), ErrorCorrection::M, &segments).unwrap();
    assert_eq!(code.dimension(), 73);
    assert!(every_module_is_set(&code));
    assert_eq!(fingerprint(&code), 0x9d826eb4792303e7);
}

#[test]
fn symbol_bytes_version_21_h() {
    let segments = vec![(Mode::Byte, (0..300usize).map(|i| ((i * 7 + 3) % 256) as u8).collect())];
    let code = QRCode::build(Version::V(21), ErrorCorrection::H, &segments).unwrap();
    assert_eq!(code.dimension(), 101);
    assert!(every_module_is_set(&code));
    assert_eq!(fingerprint(&code), 0xa8919bf6b9f3d319);
}

#[test]
fn symbol_bytes_version_32_q() {
    let data: Vec<u8> = (0..900usize).map(|i| ((i * 13 + 1) % 256) as u8).collect();
    let segments = vec![(Mode::Byte, data)];
    let code = QRCode::build(Version::V(32), ErrorCorrection::Q, &segments).unwrap();
    assert_eq!(code.dimension(), 145);
    assert!(every_module_is_set(&code));
    assert_eq!(fingerprint(&code), 0xcf924c9473e0b05c);
}

#[test]
fn symbol_bytes_version_40_l() {
    let data: Vec<u8> = (0..2900usize).map(|i| ((i * 31 + 5) % 256) as u8).collect();
    let segments = vec![(Mode::Byte, data)];
    let code = QRCode::build(Version::V(40), ErrorCorrection::L, &segments).unwrap();
    assert_eq!(code.dimension(), 177);
    assert!(every_module_is_set(&code));
    assert_eq!(fingerprint(&code), 0xb032d60275eb2f41);
}

#[test]
fn capacity_boundary_of_version_1_l() {
    let code = QRCode::build(Version::V(1), ErrorCorrection::L, &[(Mode::Byte, vec![b'a'; 17])]);
    assert!(code.is_ok());
    let error = QRCode::build(Version::V(1), ErrorCorrection::L, &[(Mode::Byte, vec![b'a'; 18])])
        .unwrap_err();
    assert_eq!(error.to_string(), "Data too large");
}

#[test]
fn building_twice_gives_the_same_symbol() {
    let segments = vec![(Mode::Byte, b"determinism".to_vec()), (Mode::Numeric, b"20240229".to_vec())];
    for version in [Version::V(3), Version::V(9), Version::V(27)] {
        let first = QRCode::build(version, ErrorCorrection::L, &segments).unwrap();
        let second = QRCode::build(version, ErrorCorrection::L, &segments).unwrap();
        assert_eq!(rows(&first), rows(&second));
    }
    let segments = vec![(Mode::Alphanumeric, b"MICRO".to_vec()), (Mode::Numeric, b"2024".to_vec())];
    let first = QRCode::build(Version::M(4), ErrorCorrection::M, &segments).unwrap();
    let second = QRCode::build(Version::M(4), ErrorCorrection::M, &segments).unwrap();
    assert_eq!(rows(&first), rows(&second));
}

#[test]
fn every_module_of_every_version_is_set() {
    for version in 1..=40 {
        for level in [ErrorCorrection::L, ErrorCorrection::M, ErrorCorrection::Q, ErrorCorrection::H] {
            let code = QRCode::build(Version::V(version), level, &[(Mode::Byte, b"x".to_vec())]).unwrap();
            assert_eq!(code.dimension(), 4 * version + 17);
            assert!(every_module_is_set(&code));
        }
    }
    for version in 1..=4 {
        let code =
            QRCode::build(Version::M(version), ErrorCorrection::L, &[(Mode::Numeric, b"1".to_vec())])
                .unwrap();
        assert_eq!(code.dimension(), 2 * version + 9);
        assert!(every_module_is_set(&code));
    }
}

#[test]
fn empty_segment_list_gives_a_symbol_of_padding() {
    let code = QRCode::build(Version::V(1), ErrorCorrection::H, &[]).unwrap();
    assert!(every_module_is_set(&code));
}

#[test]
fn versions_that_do_not_exist_are_rejected() {
    for version in [Version::V(0), Version::V(41), Version::M(0), Version::M(5), Version::M(6)] {
        let error = QRCode::build(version, ErrorCorrection::L, &[]).unwrap_err();
        assert_eq!(error.to_string(), "Invalid version");
    }
}

#[test]
fn levels_that_a_micro_version_lacks_are_rejected() {
    for (version, level) in [
        (Version::M(1), ErrorCorrection::M),
        (Version::M(2), ErrorCorrection::Q),
        (Version::M(3), ErrorCorrection::Q),
        (Version::M(4), ErrorCorrection::H),
    ] {
        let error = QRCode::build(version, level, &[]).unwrap_err();
        assert_eq!(error.to_string(), "Invalid version");
    }
}

#[test]
fn modes_that_a_micro_version_lacks_are_rejected() {
    let error = QRCode::build(Version::M(1), ErrorCorrection::L, &[(Mode::Alphanumeric, b"A".to_vec())])
        .unwrap_err();
    assert_eq!(error.to_string(), "Invalid mode");
    let error =
        QRCode::build(Version::M(2), ErrorCorrection::L, &[(Mode::Byte, b"a".to_vec())]).unwrap_err();
    assert_eq!(error.to_string(), "Invalid mode");
    let error =
        QRCode::build(Version::M(4), ErrorCorrection::L, &[(Mode::ECI(3), vec![])]).unwrap_err();
    assert_eq!(error.to_string(), "Invalid mode");
}

#[test]
fn payloads_that_do_not_fit_their_mode_are_rejected() {
    let error = QRCode::build(Version::V(1), ErrorCorrection::L, &[(Mode::Numeric, b"12x".to_vec())])
        .unwrap_err();
    assert_eq!(error.to_string(), "Invalid data");
    let error =
        QRCode::build(Version::V(1), ErrorCorrection::L, &[(Mode::Alphanumeric, b"abc".to_vec())])
            .unwrap_err();
    assert_eq!(error.to_string(), "Invalid data");
    let error = QRCode::build(Version::V(1), ErrorCorrection::L, &[(Mode::Kanji, vec![0x93])])
        .unwrap_err();
    assert_eq!(error.to_string(), "Invalid data");
}

#[test]
fn a_mode_error_comes_before_a_data_error() {
    let segments = vec![(Mode::Numeric, b"x".to_vec()), (Mode::Byte, b"a".to_vec())];
    let error = QRCode::build(Version::M(1), ErrorCorrection::L, &segments).unwrap_err();
    assert_eq!(error.to_string(), "Invalid mode");
}

#[test]
fn eci_segment_goes_before_its_bytes() {
    let with_eci = vec![(Mode::ECI(26), vec![]), (Mode::Byte, vec![0xC3, 0xA9])];
    let without = vec![(Mode::Byte, vec![0xC3, 0xA9])];
    let first = QRCode::build(Version::V(1), ErrorCorrection::L, &with_eci).unwrap();
    let second = QRCode::build(Version::V(1), ErrorCorrection::L, &without).unwrap();
    assert_ne!(rows(&first), rows(&second));
    assert_eq!(fingerprint(&first), 0xc75b97c5623c7f81);
}

#[test]
fn clone_keeps_every_module() {
    let code = QRCode::build(Version::V(2), ErrorCorrection::M, &[(Mode::Byte, b"copy".to_vec())])
        .unwrap();
    let copy = code.clone();
    assert_eq!(copy.dimension(), code.dimension());
    assert_eq!(rows(&copy), rows(&code));
    assert!(every_module_is_set(&copy));
}

#[test]
fn new_symbol_is_blank_until_modules_are_set() {
    let mut code = QRCode::new(11);
    assert_eq!(code.dimension(), 11);
    assert!(code.is_empty(3, 4));
    assert!(!code.get(3, 4));
    code.set(3, 4, true);
    assert!(!code.is_empty(3, 4));
    assert!(code.get(3, 4));
    assert!(code.is_empty(4, 3));
    code.set(4, 3, false);
    assert!(!code.is_empty(4, 3));
    assert!(!code.get(4, 3));
}

#[test]
fn dimension_formulas() {
    assert_eq!(QRCode::calculate_dimension(1), 21);
    assert_eq!(QRCode::calculate_dimension(7), 45);
    assert_eq!(QRCode::calculate_dimension(40), 177);
    assert_eq!(QRCode::calculate_dimension(41), 11);
    assert_eq!(QRCode::calculate_dimension(42), 13);
    assert_eq!(QRCode::calculate_dimension(43), 15);
    assert_eq!(QRCode::calculate_dimension(44), 17);
}
