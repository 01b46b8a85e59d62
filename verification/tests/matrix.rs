use qrforge::mask::{apply_mask_pattern, mask_formula, pattern_of, select_mask};
use qrforge::matrix_builder::{
    add_alignment_patterns, add_dark_module, add_data, add_finder_patterns, add_reseverd_area,
    add_separators, add_timing_patterns, apply_format_version_information, get_alignment_location,
    get_format_information, get_version_information,
};
use qrforge::matrix_builder_micro;
use qrforge::penalty::{
    calculate_penalty, calculate_penalty_rule_1, calculate_penalty_rule_2, calculate_penalty_rule_3,
    calculate_penalty_rule_4, count_boxes, count_occurences,
};
use qrforge::{ErrorCorrection, QRCode};

fn bits(text: &str) -> Vec<bool> {
    text.chars().filter(|c| *c != ' ').map(|c| c == '1').collect()
}

fn cells(code: &QRCode) -> Vec<String> {
    let side = code.dimension();
    (0..side)
        .map(|y| {
            (0..side)
                .map(|x| {
                    if code.is_empty(x, y) {
                        '?'
                    } else if code.get(x, y) {
                        '#'
                    } else {
                        '.'
                    }
                })
                .collect()
        })
        .collect()
}

fn grid(rows: &[&str]) -> QRCode {
    let mut code = QRCode::new(rows.len());
    for (y, row) in rows.iter().enumerate() {
        for (x, c) in row.chars().enumerate() {
            if c != '?' {
                code.set(x, y, c == '#');
            }
        }
    }
    code
}

fn function_patterns(version: usize) -> QRCode {
    let mut code = QRCode::new(4 * version + 17);
    add_finder_patterns(&mut code);
    add_separators(&mut code);
    add_alignment_patterns(&mut code, version);
    add_timing_patterns(&mut code);
    add_dark_module(&mut code, version);
    add_reseverd_area(&mut code, version);
    code
}

#[test]
fn finder_patterns_in_three_corners() {
    let mut code = QRCode::new(25);
    add_finder_patterns(&mut code);
    let expected = vec![
        "#######???????????#######",
        "#.....#???????????#.....#",
        "#.###.#???????????#.###.#",
        "#.###.#???????????#.###.#",
        "#.###.#???????????#.###.#",
        "#.....#???????????#.....#",
        "#######???????????#######",
        "?????????????????????????",
        "?????????????????????????",
        "?????????????????????????",
        "?????????????????????????",
        "?????????????????????????",
        "?????????????????????????",
        "?????????????????????????",
        "?????????????????????????",
        "?????????????????????????",
        "?????????????????????????",
        "?????????????????????????",
        "#######??????????????????",
        "#.....#??????????????????",
        "#.###.#??????????????????",
        "#.###.#??????????????????",
        "#.###.#??????????????????",
        "#.....#??????????????????",
        "#######??????????????????",
    ];
    assert_eq!(cells(&code), expected);
}

#[test]
fn function_patterns_of_version_1() {
    let code = function_patterns(1);
    let expected = vec![
        "#######..????.#######",
        "#.....#..????.#.....#",
        "#.###.#..????.#.###.#",
        "#.###.#..????.#.###.#",
        "#.###.#..????.#.###.#",
        "#.....#..????.#.....#",
        "#######.#.#.#.#######",
        ".........????........",
        "......#..????........",
        "??????.??????????????",
        "??????#??????????????",
        "??????.??????????????",
        "??????#??????????????",
        "........#????????????",
        "#######..????????????",
        "#.....#..????????????",
        "#.###.#..????????????",
        "#.###.#..????????????",
        "#.###.#..????????????",
        "#.....#..????????????",
        "#######..????????????",
    ];
    assert_eq!(cells(&code), expected);
}

#[test]
fn function_patterns_of_version_2() {
    let code = function_patterns(2);
    let expected = vec![
        "#######..????????.#######",
        "#.....#..????????.#.....#",
        "#.###.#..????????.#.###.#",
        "#.###.#..????????.#.###.#",
        "#.###.#..????????.#.###.#",
        "#.....#..????????.#.....#",
        "#######.#.#.#.#.#.#######",
        ".........????????........",
        "......#..????????........",
        "??????.??????????????????",
        "??????#??????????????????",
        "??????.??????????????????",
        "??????#??????????????????",
        "??????.??????????????????",
        "??????#??????????????????",
        "??????.??????????????????",
        "??????#?????????#####????",
        "........#???????#...#????",
        "#######..???????#.#.#????",
        "#.....#..???????#...#????",
        "#.###.#..???????#####????",
        "#.###.#..????????????????",
        "#.###.#..????????????????",
        "#.....#..????????????????",
        "#######..????????????????",
    ];
    assert_eq!(cells(&code), expected);
}

#[test]
fn function_patterns_of_version_7() {
    let code = function_patterns(7);
    let expected = vec![
        "#######..?????????????????????????....#######",
        "#.....#..?????????????????????????....#.....#",
        "#.###.#..?????????????????????????....#.###.#",
        "#.###.#..?????????????????????????....#.###.#",
        "#.###.#..???????????#####?????????....#.###.#",
        "#.....#..???????????#...#?????????....#.....#",
        "#######.#.#.#.#.#.#.#.#.#.#.#.#.#.#.#.#######",
        ".........???????????#...#????????????........",
        "......#..???????????#####????????????........",
        "??????.??????????????????????????????????????",
        "??????#??????????????????????????????????????",
        "??????.??????????????????????????????????????",
        "??????#??????????????????????????????????????",
        "??????.??????????????????????????????????????",
        "??????#??????????????????????????????????????",
        "??????.??????????????????????????????????????",
        "??????#??????????????????????????????????????",
        "??????.??????????????????????????????????????",
        "??????#??????????????????????????????????????",
        "??????.??????????????????????????????????????",
        "????#####???????????#####???????????#####????",
        "????#...#???????????#...#???????????#...#????",
        "????#.#.#???????????#.#.#???????????#.#.#????",
        "????#...#???????????#...#???????????#...#????",
        "????#####???????????#####???????????#####????",
        "??????.??????????????????????????????????????",
        "??????#??????????????????????????????????????",
        "??????.??????????????????????????????????????",
        "??????#??????????????????????????????????????",
        "??????.??????????????????????????????????????",
        "??????#??????????????????????????????????????",
        "??????.??????????????????????????????????????",
        "??????#??????????????????????????????????????",
        "??????.??????????????????????????????????????",
        "......#??????????????????????????????????????",
        ".......??????????????????????????????????????",
        "......#?????????????#####???????????#####????",
        "........#???????????#...#???????????#...#????",
        "#######..???????????#.#.#???????????#.#.#????",
        "#.....#..???????????#...#???????????#...#????",
        "#.###.#..???????????#####???????????#####????",
        "#.###.#..????????????????????????????????????",
        "#.###.#..????????????????????????????????????",
        "#.....#..????????????????????????????????????",
        "#######..????????????????????????????????????",
    ];
    assert_eq!(cells(&code), expected);
}

#[test]
fn function_patterns_of_micro_m1() {
    let mut code = QRCode::new(11);
    matrix_builder_micro::add_finder_patterns(&mut code);
    matrix_builder_micro::add_separators(&mut code);
    matrix_builder_micro::add_timing_patterns(&mut code);
    matrix_builder_micro::add_reserverd_area(&mut code);
    let expected = vec![
        "#######.#.#",
        "#.....#..??",
        "#.###.#..??",
        "#.###.#..??",
        "#.###.#..??",
        "#.....#..??",
        "#######..??",
        ".........??",
        "#........??",
        ".??????????",
        "#??????????",
    ];
    assert_eq!(cells(&code), expected);
}

#[test]
fn function_patterns_of_micro_m4() {
    let mut code = QRCode::new(17);
    matrix_builder_micro::add_finder_patterns(&mut code);
    matrix_builder_micro::add_separators(&mut code);
    matrix_builder_micro::add_timing_patterns(&mut code);
    matrix_builder_micro::add_reserverd_area(&mut code);
    let expected = vec![
        "#######.#.#.#.#.#",
        "#.....#..????????",
        "#.###.#..????????",
        "#.###.#..????????",
        "#.###.#..????????",
        "#.....#..????????",
        "#######..????????",
        ".........????????",
        "#........????????",
        ".????????????????",
        "#????????????????",
        ".????????????????",
        "#????????????????",
        ".????????????????",
        "#????????????????",
        ".????????????????",
        "#????????????????",
    ];
    assert_eq!(cells(&code), expected);
}

#[test]
fn alignment_centres() {
    assert_eq!(get_alignment_location(1), vec![]);
    assert_eq!(get_alignment_location(2), vec![(6, 6), (6, 18), (18, 6), (18, 18)]);
    assert_eq!(
        get_alignment_location(7),
        vec![(6, 6), (6, 22), (6, 38), (22, 6), (22, 22), (22, 38), (38, 6), (38, 22), (38, 38)]
    );
    let last: Vec<usize> = get_alignment_location(40).iter().take(7).map(|c| c.1).collect();
    assert_eq!(last, vec![6, 30, 58, 86, 114, 142, 170]);
    let coordinates: Vec<usize> = get_alignment_location(32).iter().take(6).map(|c| c.1).collect();
    assert_eq!(coordinates, vec![6, 34, 60, 86, 112, 138]);
    for version in 1..=40 {
        let count = version / 7 + 2;
        let expected = if version == 1 { 0 } else { count * count };
        assert_eq!(get_alignment_location(version).len(), expected);
    }
}

#[test]
fn format_bits() {
    assert_eq!(get_format_information(&ErrorCorrection::L, 0), bits("111011111000100"));
    assert_eq!(get_format_information(&ErrorCorrection::M, 0), bits("101010000010010"));
    assert_eq!(get_format_information(&ErrorCorrection::Q, 3), bits("011101000000110"));
    assert_eq!(get_format_information(&ErrorCorrection::H, 7), bits("000100000111011"));
    assert_eq!(get_format_information(&ErrorCorrection::L, 4), bits("110011000101111"));
}

#[test]
fn version_bits() {
    assert_eq!(get_version_information(7), bits("000111110010010100"));
    assert_eq!(get_version_information(8), bits("001000010110111100"));
    assert_eq!(get_version_information(40), bits("101000110001101001"));
}

#[test]
fn micro_format_bits_start_with_the_lowest() {
    let bits_m1 = matrix_builder_micro::get_format_information(&ErrorCorrection::L, 41, 0);
    let expected: Vec<bool> = bits("100010001000101").into_iter().rev().collect();
    assert_eq!(bits_m1, expected);
    let bits_m4q = matrix_builder_micro::get_format_information(&ErrorCorrection::Q, 44, 3);
    let expected: Vec<bool> = bits("011101110111010").into_iter().rev().collect();
    assert_eq!(bits_m4q, expected);
}

#[test]
fn data_placement_walks_in_zigzag() {
    let mut code = function_patterns(1);
    let data: Vec<bool> = (0..208).map(|i| i % 3 == 0).collect();
    let visited = add_data(&mut code, data);
    assert_eq!(visited.len(), 208);
    assert_eq!(&visited[..10], &[(20, 20), (19, 20), (20, 19), (19, 19), (20, 18), (19, 18), (20, 17), (19, 17), (20, 16), (19, 16)]);
    assert_eq!(&visited[22..28], &[(20, 9), (19, 9), (18, 9), (17, 9), (18, 10), (17, 10)]);
    assert_eq!(&visited[118..128], &[(12, 9), (11, 9), (12, 8), (11, 8), (12, 7), (11, 7), (12, 5), (11, 5), (12, 4), (11, 4)]);
    assert_eq!(&visited[200..], &[(1, 9), (0, 9), (1, 10), (0, 10), (1, 11), (0, 11), (1, 12), (0, 12)]);
    let expected = vec![
        "#######....#..#######",
        "#.....#...#.#.#.....#",
        "#.###.#..#....#.###.#",
        "#.###.#....#..#.###.#",
        "#.###.#...#.#.#.###.#",
        "#.....#..#....#.....#",
        "#######.#.#.#.#######",
        "...........#.........",
        "......#...#.#........",
        "#..#...#.#....#...#..",
        ".....##.#..#.#.#.#.#.",
        ".##.#.....#.#...#...#",
        "#..#..##.#....#...#..",
        "........#..#.#.#.#.#.",
        "#######...#.#...#...#",
        "#.....#..#....#...#..",
        "#.###.#....#.#.#.#.#.",
        "#.###.#...#.#...#...#",
        "#.###.#..#....#...#..",
        "#.....#....#.#.#.#.#.",
        "#######...#.#...#...#",
    ];
    assert_eq!(cells(&code), expected);
}

#[test]
fn data_placement_fills_up_with_light_modules() {
    let mut code = function_patterns(1);
    let visited = add_data(&mut code, vec![true; 10]);
    assert_eq!(visited.len(), 208);
    let dark_data = visited.iter().filter(|c| code.get(c.0, c.1)).count();
    assert_eq!(dark_data, 10);
    assert!(cells(&code).iter().all(|row| !row.contains('?')));
}

#[test]
fn data_placement_drops_bits_beyond_the_last_module() {
    let mut code = function_patterns(1);
    let visited = add_data(&mut code, vec![true; 300]);
    assert_eq!(visited.len(), 208);
    assert!(visited.iter().all(|c| code.get(c.0, c.1)));
}

#[test]
fn micro_data_placement_keeps_column_zero() {
    let mut code = QRCode::new(11);
    matrix_builder_micro::add_finder_patterns(&mut code);
    matrix_builder_micro::add_separators(&mut code);
    matrix_builder_micro::add_timing_patterns(&mut code);
    matrix_builder_micro::add_reserverd_area(&mut code);
    let visited = matrix_builder_micro::add_data(&mut code, (0..36).map(|i| i % 2 == 0).collect());
    assert_eq!(visited, vec![(10, 10), (9, 10), (10, 9), (9, 9), (10, 8), (9, 8), (10, 7), (9, 7), (10, 6), (9, 6), (10, 5), (9, 5), (10, 4), (9, 4), (10, 3), (9, 3), (10, 2), (9, 2), (10, 1), (9, 1), (8, 9), (7, 9), (8, 10), (7, 10), (6, 10), (5, 10), (6, 9), (5, 9), (4, 9), (3, 9), (4, 10), (3, 10), (2, 10), (1, 10), (2, 9), (1, 9)]);
    let expected = vec![
        "#######.#.#",
        "#.....#...#",
        "#.###.#...#",
        "#.###.#...#",
        "#.###.#...#",
        "#.....#...#",
        "#######...#",
        "..........#",
        "#.........#",
        "..#.#.#.#.#",
        "#.#.#.#.#.#",
    ];
    assert_eq!(cells(&code), expected);
}

#[test]
fn mask_formulas() {
    let expected = ["101010", "010101", "101010", "010101", "101010", "010101"];
    for y in 0..6 {
        for x in 0..6 {
            assert_eq!(mask_formula(0, x, y), expected[y].as_bytes()[x] == b'1');
        }
    }
    let expected = ["111111", "000000", "111111", "000000", "111111", "000000"];
    for y in 0..6 {
        for x in 0..6 {
            assert_eq!(mask_formula(1, x, y), expected[y].as_bytes()[x] == b'1');
        }
    }
    let expected = ["100100", "100100", "100100", "100100", "100100", "100100"];
    for y in 0..6 {
        for x in 0..6 {
            assert_eq!(mask_formula(2, x, y), expected[y].as_bytes()[x] == b'1');
        }
    }
    let expected = ["100100", "001001", "010010", "100100", "001001", "010010"];
    for y in 0..6 {
        for x in 0..6 {
            assert_eq!(mask_formula(3, x, y), expected[y].as_bytes()[x] == b'1');
        }
    }
    let expected = ["111000", "111000", "000111", "000111", "111000", "111000"];
    for y in 0..6 {
        for x in 0..6 {
            assert_eq!(mask_formula(4, x, y), expected[y].as_bytes()[x] == b'1');
        }
    }
    let expected = ["111111", "100000", "100100", "101010", "100100", "100000"];
    for y in 0..6 {
        for x in 0..6 {
            assert_eq!(mask_formula(5, x, y), expected[y].as_bytes()[x] == b'1');
        }
    }
    let expected = ["111111", "111000", "110110", "101010", "101101", "100011"];
    for y in 0..6 {
        for x in 0..6 {
            assert_eq!(mask_formula(6, x, y), expected[y].as_bytes()[x] == b'1');
        }
    }
    let expected = ["101010", "000111", "100011", "010101", "111000", "011100"];
    for y in 0..6 {
        for x in 0..6 {
            assert_eq!(mask_formula(7, x, y), expected[y].as_bytes()[x] == b'1');
        }
    }
    assert!(!mask_formula(8, 0, 0));
    assert!(mask_formula(5, 177, 0));
    assert!(!mask_formula(5, 177, 177));
}

#[test]
fn micro_mask_numbers() {
    assert_eq!(pattern_of(0, true), 1);
    assert_eq!(pattern_of(1, true), 4);
    assert_eq!(pattern_of(2, true), 6);
    assert_eq!(pattern_of(3, true), 7);
    for mask in 0..8 {
        assert_eq!(pattern_of(mask, false), mask);
    }
}

#[test]
fn penalties_of_the_eight_masks() {
    let mut code = function_patterns(1);
    let data = bits("0010000001011011000010110111100011010001011100101101110001001101010000110100000011101100000100011110110000010001111011000001000111000100001000110010011101110111111010111101011111100111111000100101110100010111");
    let visited = add_data(&mut code, data);
    let expected: [(usize, usize, usize, usize); 8] = [(191, 159, 40, 0), (198, 195, 120, 0), (217, 183, 80, 0), (218, 219, 120, 0), (204, 201, 120, 0), (208, 198, 120, 0), (206, 192, 200, 0), (180, 168, 120, 0)];
    for mask in 0..8u32 {
        let mut masked = code.clone();
        apply_mask_pattern(&mut masked, mask, &visited);
        let (rule_1, rule_2, rule_3, rule_4) = expected[mask as usize];
        assert_eq!(calculate_penalty_rule_1(&masked), rule_1);
        assert_eq!(calculate_penalty_rule_2(&masked), rule_2);
        assert_eq!(calculate_penalty_rule_3(&masked), rule_3);
        assert_eq!(calculate_penalty_rule_4(&masked), rule_4);
        assert_eq!(calculate_penalty(&masked), rule_1 + rule_2 + rule_3 + rule_4);
    }
    let mask = select_mask(&mut code, &visited, false);
    assert_eq!(mask, 0);
}

#[test]
fn mask_pattern_inverts_data_modules_only() {
    let mut code = function_patterns(1);
    let before = cells(&code);
    let visited = add_data(&mut code, vec![false; 208]);
    apply_mask_pattern(&mut code, 1, &visited);
    let after = cells(&code);
    for y in 0..21 {
        for x in 0..21 {
            let was = before[y].as_bytes()[x];
            let is = after[y].as_bytes()[x];
            if was == b'?' {
                assert_eq!(is == b'#', y % 2 == 0);
            } else {
                assert_eq!(is, was);
            }
        }
    }
}

#[test]
fn applying_a_mask_twice_restores_the_symbol() {
    let mut code = function_patterns(2);
    let visited = add_data(&mut code, (0..359).map(|i| i % 5 < 2).collect());
    let before = cells(&code);
    for mask in 0..8 {
        apply_mask_pattern(&mut code, mask, &visited);
        apply_mask_pattern(&mut code, mask, &visited);
        assert_eq!(cells(&code), before);
    }
}

#[test]
fn penalty_of_a_light_grid() {
    let code = grid(&["...........", "...........", "...........", "...........", "...........", "...........", "...........", "...........", "...........", "...........", "..........."]);
    assert_eq!(calculate_penalty_rule_1(&code), 198);
    assert_eq!(count_boxes(&code), 100);
    assert_eq!(calculate_penalty_rule_2(&code), 300);
    assert_eq!(count_occurences(&code), 0);
    assert_eq!(calculate_penalty_rule_3(&code), 0);
    assert_eq!(calculate_penalty_rule_4(&code), 100);
    assert_eq!(calculate_penalty(&code), 598);
}

#[test]
fn penalty_of_a_dark_grid() {
    let code = grid(&["############", "############", "############", "############", "############", "############", "############", "############", "############", "############", "############", "############"]);
    assert_eq!(calculate_penalty_rule_1(&code), 240);
    assert_eq!(count_boxes(&code), 121);
    assert_eq!(calculate_penalty_rule_2(&code), 363);
    assert_eq!(count_occurences(&code), 0);
    assert_eq!(calculate_penalty_rule_3(&code), 0);
    assert_eq!(calculate_penalty_rule_4(&code), 100);
    assert_eq!(calculate_penalty(&code), 703);
}

#[test]
fn penalty_of_a_chessboard() {
    let code = grid(&["#.#.#.#.#.#", ".#.#.#.#.#.", "#.#.#.#.#.#", ".#.#.#.#.#.", "#.#.#.#.#.#", ".#.#.#.#.#.", "#.#.#.#.#.#", ".#.#.#.#.#.", "#.#.#.#.#.#", ".#.#.#.#.#.", "#.#.#.#.#.#"]);
    assert_eq!(calculate_penalty_rule_1(&code), 0);
    assert_eq!(count_boxes(&code), 0);
    assert_eq!(calculate_penalty_rule_2(&code), 0);
    assert_eq!(count_occurences(&code), 0);
    assert_eq!(calculate_penalty_rule_3(&code), 0);
    assert_eq!(calculate_penalty_rule_4(&code), 0);
    assert_eq!(calculate_penalty(&code), 0);
}

#[test]
fn penalty_of_runs_of_five_and_six() {
    let code = grid(&["#####.#.#.#.", ".#.#.#######", "#.#.#.#.#.#.", ".#.#.#.#.#.#", "#.#.#.#.#.#.", ".#.#.#.#.#.#", "#.#.#.#.#.#.", ".#.#.#.#.#.#", "#.#.#.#.#.#.", ".#.#.#.#.#.#", "#.#.#.#.#.#.", ".#.#.#.#.#.#"]);
    assert_eq!(calculate_penalty_rule_1(&code), 8);
    assert_eq!(count_boxes(&code), 0);
    assert_eq!(calculate_penalty_rule_2(&code), 0);
    assert_eq!(count_occurences(&code), 0);
    assert_eq!(calculate_penalty_rule_3(&code), 0);
    assert_eq!(calculate_penalty_rule_4(&code), 0);
    assert_eq!(calculate_penalty(&code), 8);
}

#[test]
fn penalty_of_finder_like_patterns() {
    let code = grid(&["#.###.#....#.", ".#.#.#.#.#.#.", "....#.###.#.#", ".#.#.#.#.#.#.", "#.###.#....#.", ".#.#.#.#.#.#.", "#.#.#.#.#.#.#", ".#.#.#.#.#.#.", "#.#.#.#.#.#.#", ".#.#.#.#.#.#.", "#.#.#.#.#.#.#", ".#.#.#.#.#.#.", "#.#.#.#.#.#.#"]);
    assert_eq!(calculate_penalty_rule_1(&code), 0);
    assert_eq!(count_boxes(&code), 0);
    assert_eq!(calculate_penalty_rule_2(&code), 0);
    assert_eq!(count_occurences(&code), 3);
    assert_eq!(calculate_penalty_rule_3(&code), 120);
    assert_eq!(calculate_penalty_rule_4(&code), 0);
    assert_eq!(calculate_penalty(&code), 120);
}

#[test]
fn penalty_of_overlapping_finder_like_patterns() {
    let code = grid(&["....#.###.#....", "#.#.#.#.#.#.#.#", ".#.#.#.#.#.#.#.", "#.#.#.#.#.#.#.#", ".#.#.#.#.#.#.#.", "#.#.#.#.#.#.#.#", ".#.#.#.#.#.#.#.", "#.#.#.#.#.#.#.#", ".#.#.#.#.#.#.#.", "#.#.#.#.#.#.#.#", ".#.#.#.#.#.#.#.", "#.#.#.#.#.#.#.#", ".#.#.#.#.#.#.#.", "#.#.#.#.#.#.#.#", ".#.#.#.#.#.#.#."]);
    assert_eq!(calculate_penalty_rule_1(&code), 0);
    assert_eq!(count_boxes(&code), 0);
    assert_eq!(calculate_penalty_rule_2(&code), 0);
    assert_eq!(count_occurences(&code), 2);
    assert_eq!(calculate_penalty_rule_3(&code), 80);
    assert_eq!(calculate_penalty_rule_4(&code), 0);
    assert_eq!(calculate_penalty(&code), 80);
}

#[test]
fn share_of_dark_modules() {
    assert_eq!(calculate_penalty_rule_4(&grid(&["..........", "..........", "..........", "..........", "..........", "..........", "..........", "..........", "..........", ".........."])), 100);
    assert_eq!(calculate_penalty_rule_4(&grid(&["##########", "##########", "##########", "#########.", "..........", "..........", "..........", "..........", "..........", ".........."])), 20);
    assert_eq!(calculate_penalty_rule_4(&grid(&["##########", "##########", "##########", "##########", "..........", "..........", "..........", "..........", "..........", ".........."])), 20);
    assert_eq!(calculate_penalty_rule_4(&grid(&["##########", "##########", "##########", "##########", "#.........", "..........", "..........", "..........", "..........", ".........."])), 10);
    assert_eq!(calculate_penalty_rule_4(&grid(&["##########", "##########", "##########", "##########", "####......", "..........", "..........", "..........", "..........", ".........."])), 10);
    assert_eq!(calculate_penalty_rule_4(&grid(&["##########", "##########", "##########", "##########", "#####.....", "..........", "..........", "..........", "..........", ".........."])), 10);
    assert_eq!(calculate_penalty_rule_4(&grid(&["##########", "##########", "##########", "##########", "######....", "..........", "..........", "..........", "..........", ".........."])), 0);
    assert_eq!(calculate_penalty_rule_4(&grid(&["##########", "##########", "##########", "##########", "#########.", "..........", "..........", "..........", "..........", ".........."])), 0);
    assert_eq!(calculate_penalty_rule_4(&grid(&["##########", "##########", "##########", "##########", "##########", "..........", "..........", "..........", "..........", ".........."])), 0);
    assert_eq!(calculate_penalty_rule_4(&grid(&["##########", "##########", "##########", "##########", "##########", "#.........", "..........", "..........", "..........", ".........."])), 0);
    assert_eq!(calculate_penalty_rule_4(&grid(&["##########", "##########", "##########", "##########", "##########", "####......", "..........", "..........", "..........", ".........."])), 0);
    assert_eq!(calculate_penalty_rule_4(&grid(&["##########", "##########", "##########", "##########", "##########", "#####.....", "..........", "..........", "..........", ".........."])), 10);
    assert_eq!(calculate_penalty_rule_4(&grid(&["##########", "##########", "##########", "##########", "##########", "######....", "..........", "..........", "..........", ".........."])), 10);
    assert_eq!(calculate_penalty_rule_4(&grid(&["##########", "##########", "##########", "##########", "##########", "##########", "..........", "..........", "..........", ".........."])), 20);
    assert_eq!(calculate_penalty_rule_4(&grid(&["##########", "##########", "##########", "##########", "##########", "##########", "#.........", "..........", "..........", ".........."])), 20);
    assert_eq!(calculate_penalty_rule_4(&grid(&["##########", "##########", "##########", "##########", "##########", "##########", "##########", "##########", "##########", "##########"])), 100);
}

#[test]
fn evaluation_of_the_four_micro_masks() {
    let mut code = QRCode::new(11);
    matrix_builder_micro::add_finder_patterns(&mut code);
    matrix_builder_micro::add_separators(&mut code);
    matrix_builder_micro::add_timing_patterns(&mut code);
    matrix_builder_micro::add_reserverd_area(&mut code);
    let visited = matrix_builder_micro::add_data(&mut code, bits("101000111101101011010110111011000111"));
    let expected = [69, 38, 85, 70];
    for mask in 0..4u32 {
        let mut masked = code.clone();
        apply_mask_pattern(&mut masked, pattern_of(mask, true), &visited);
        assert_eq!(matrix_builder_micro::calculate_evaluation(&masked), expected[mask as usize]);
    }
    let mask = matrix_builder_micro::apply_mask(&mut code, visited);
    assert_eq!(mask, 2);
}

#[test]
fn evaluation_counts_the_right_and_the_bottom_edge() {
    let code = grid(&["...#", "...#", "...#", "####"]);
    assert_eq!(matrix_builder_micro::calculate_evaluation(&code), 3 * 16 + 3);
    let code = grid(&["####", "#...", "#..#", "#.#."]);
    assert_eq!(matrix_builder_micro::calculate_evaluation(&code), 1 * 16 + 1);
    let code = grid(&["....", "...#", "...#", ".#.#"]);
    assert_eq!(matrix_builder_micro::calculate_evaluation(&code), 2 * 16 + 3);
}

#[test]
fn highest_mask_wins_a_tie_of_evaluations() {
    let mut code = QRCode::new(11);
    for y in 0..11 {
        for x in 0..11 {
            code.set(x, y, false);
        }
    }
    assert_eq!(matrix_builder_micro::apply_mask(&mut code, vec![]), 3);
}

#[test]
fn lowest_mask_wins_a_tie_of_penalties() {
    let mut code = QRCode::new(21);
    for y in 0..21 {
        for x in 0..21 {
            code.set(x, y, (x + y) % 2 == 0);
        }
    }
    assert_eq!(select_mask(&mut code, &vec![], false), 0);
}

#[test]
fn format_and_version_information_of_version_7() {
    let mut code = QRCode::new(45);
    apply_format_version_information(&mut code, 7, &ErrorCorrection::Q, 5);
    let expected = vec![
        "????????#?????????????????????????..#????????",
        "????????#?????????????????????????.#.????????",
        "????????.?????????????????????????.#.????????",
        "????????.?????????????????????????.##????????",
        "????????.?????????????????????????###????????",
        "????????.?????????????????????????...????????",
        "?????????????????????????????????????????????",
        "????????.????????????????????????????????????",
        ".#....?##????????????????????????????#.....##",
        "?????????????????????????????????????????????",
        "?????????????????????????????????????????????",
        "?????????????????????????????????????????????",
        "?????????????????????????????????????????????",
        "?????????????????????????????????????????????",
        "?????????????????????????????????????????????",
        "?????????????????????????????????????????????",
        "?????????????????????????????????????????????",
        "?????????????????????????????????????????????",
        "?????????????????????????????????????????????",
        "?????????????????????????????????????????????",
        "?????????????????????????????????????????????",
        "?????????????????????????????????????????????",
        "?????????????????????????????????????????????",
        "?????????????????????????????????????????????",
        "?????????????????????????????????????????????",
        "?????????????????????????????????????????????",
        "?????????????????????????????????????????????",
        "?????????????????????????????????????????????",
        "?????????????????????????????????????????????",
        "?????????????????????????????????????????????",
        "?????????????????????????????????????????????",
        "?????????????????????????????????????????????",
        "?????????????????????????????????????????????",
        "?????????????????????????????????????????????",
        "....#.???????????????????????????????????????",
        ".####.???????????????????????????????????????",
        "#..##.???????????????????????????????????????",
        "?????????????????????????????????????????????",
        "????????#????????????????????????????????????",
        "????????.????????????????????????????????????",
        "????????.????????????????????????????????????",
        "????????.????????????????????????????????????",
        "????????.????????????????????????????????????",
        "????????#????????????????????????????????????",
        "????????.????????????????????????????????????",
    ];
    assert_eq!(cells(&code), expected);
}

#[test]
fn format_information_of_version_1() {
    let mut code = QRCode::new(21);
    apply_format_version_information(&mut code, 1, &ErrorCorrection::L, 2);
    let expected = vec![
        "????????.????????????",
        "????????#????????????",
        "????????.????????????",
        "????????#????????????",
        "????????.????????????",
        "????????#????????????",
        "?????????????????????",
        "????????.????????????",
        "#####.?##????#.#.#.#.",
        "?????????????????????",
        "?????????????????????",
        "?????????????????????",
        "?????????????????????",
        "?????????????????????",
        "????????#????????????",
        "????????.????????????",
        "????????#????????????",
        "????????#????????????",
        "????????#????????????",
        "????????#????????????",
        "????????#????????????",
    ];
    assert_eq!(cells(&code), expected);
}

#[test]
fn format_information_of_micro_m2() {
    let mut code = QRCode::new(13);
    matrix_builder_micro::apply_format_version_information(&mut code, 42, &ErrorCorrection::M, 1);
    let expected = vec![
        "?????????????",
        "????????.????",
        "????????.????",
        "????????#????",
        "????????.????",
        "????????.????",
        "????????#????",
        "????????.????",
        "?##...#.#????",
        "?????????????",
        "?????????????",
        "?????????????",
        "?????????????",
    ];
    assert_eq!(cells(&code), expected);
}
