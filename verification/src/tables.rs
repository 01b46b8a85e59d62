//! Agreement of the tables of capacities, block layouts and error correction
//! codewords.

use crate::correction::{block_layout, ec_codeword_count, BlockLayout};
use crate::enums::ErrorCorrection;
use crate::utils::data_codeword_capacity;
use vstd::prelude::*;

verus! {

/// Whether the tables agree on a version and level: the blocks hold exactly
/// the codewords of the data capacity, the last of them half a codeword in
/// M1 and M3; there is a first group; the blocks of a second group are one
/// codeword longer than those of the first; and each block gets between 2
/// and 30 error correction codewords. Nothing is asked of a version and
/// level that do not exist.
pub open spec fn holds(version: int, level: ErrorCorrection) -> bool {
    data_codeword_capacity(version, level) > 0 ==> {
        &&& block_layout(version, level).codewords() == (data_codeword_capacity(version, level) + 7) / 8
        &&& block_layout(version, level).group1_count >= 1
        &&& block_layout(version, level).group1_size >= 1
        &&& block_layout(version, level).group2_count > 0 ==> block_layout(version, level).group2_size
            == block_layout(version, level).group1_size + 1
        &&& 2 <= ec_codeword_count(version, level) <= 30
    }
}

/// The number of codewords of a layout with the given counts and sizes.
proof fn lemma_count(layout: BlockLayout, count1: nat, size1: nat, count2: nat, size2: nat, total: nat)
    by (nonlinear_arith)
    requires
        layout.group1_count == count1,
        layout.group1_size == size1,
        layout.group2_count == count2,
        layout.group2_size == size2,
        total == count1 * size1 + count2 * size2,
    ensures
        layout.codewords() == total,
{
}

/// The tables agree on the versions 1 to 4.
proof fn lemma_layout_1_to_4(version: int, level: ErrorCorrection)
    requires
        1 <= version <= 4,
    ensures
        holds(version, level),
{
    reveal(block_layout);
    reveal(data_codeword_capacity);
    reveal(ec_codeword_count);
    let layout = block_layout(version, level);
    if version == 1 {
        match level {
            ErrorCorrection::L => lemma_count(layout, 1, 19, 0, 0, 19),
            ErrorCorrection::M => lemma_count(layout, 1, 16, 0, 0, 16),
            ErrorCorrection::Q => lemma_count(layout, 1, 13, 0, 0, 13),
            ErrorCorrection::H => lemma_count(layout, 1, 9, 0, 0, 9),
        }
    }
    if version == 2 {
        match level {
            ErrorCorrection::L => lemma_count(layout, 1, 34, 0, 0, 34),
            ErrorCorrection::M => lemma_count(layout, 1, 28, 0, 0, 28),
            ErrorCorrection::Q => lemma_count(layout, 1, 22, 0, 0, 22),
            ErrorCorrection::H => lemma_count(layout, 1, 16, 0, 0, 16),
        }
    }
    if version == 3 {
        match level {
            ErrorCorrection::L => lemma_count(layout, 1, 55, 0, 0, 55),
            ErrorCorrection::M => lemma_count(layout, 1, 44, 0, 0, 44),
            ErrorCorrection::Q => lemma_count(layout, 2, 17, 0, 0, 34),
            ErrorCorrection::H => lemma_count(layout, 2, 13, 0, 0, 26),
        }
    }
    if version == 4 {
        match level {
            ErrorCorrection::L => lemma_count(layout, 1, 80, 0, 0, 80),
            ErrorCorrection::M => lemma_count(layout, 2, 32, 0, 0, 64),
            ErrorCorrection::Q => lemma_count(layout, 2, 24, 0, 0, 48),
            ErrorCorrection::H => lemma_count(layout, 4, 9, 0, 0, 36),
        }
    }
}

/// The tables agree on the versions 5 to 8.
proof fn lemma_layout_5_to_8(version: int, level: ErrorCorrection)
    requires
        5 <= version <= 8,
    ensures
        holds(version, level),
{
    reveal(block_layout);
    reveal(data_codeword_capacity);
    reveal(ec_codeword_count);
    let layout = block_layout(version, level);
    if version == 5 {
        match level {
            ErrorCorrection::L => lemma_count(layout, 1, 108, 0, 0, 108),
            ErrorCorrection::M => lemma_count(layout, 2, 43, 0, 0, 86),
            ErrorCorrection::Q => lemma_count(layout, 2, 15, 2, 16, 62),
            ErrorCorrection::H => lemma_count(layout, 2, 11, 2, 12, 46),
        }
    }
    if version == 6 {
        match level {
            ErrorCorrection::L => lemma_count(layout, 2, 68, 0, 0, 136),
            ErrorCorrection::M => lemma_count(layout, 4, 27, 0, 0, 108),
            ErrorCorrection::Q => lemma_count(layout, 4, 19, 0, 0, 76),
            ErrorCorrection::H => lemma_count(layout, 4, 15, 0, 0, 60),
        }
    }
    if version == 7 {
        match level {
            ErrorCorrection::L => lemma_count(layout, 2, 78, 0, 0, 156),
            ErrorCorrection::M => lemma_count(layout, 4, 31, 0, 0, 124),
            ErrorCorrection::Q => lemma_count(layout, 2, 14, 4, 15, 88),
            ErrorCorrection::H => lemma_count(layout, 4, 13, 1, 14, 66),
        }
    }
    if version == 8 {
        match level {
            ErrorCorrection::L => lemma_count(layout, 2, 97, 0, 0, 194),
            ErrorCorrection::M => lemma_count(layout, 2, 38, 2, 39, 154),
            ErrorCorrection::Q => lemma_count(layout, 4, 18, 2, 19, 110),
            ErrorCorrection::H => lemma_count(layout, 4, 14, 2, 15, 86),
        }
    }
}

/// The tables agree on the versions 9 to 12.
proof fn lemma_layout_9_to_12(version: int, level: ErrorCorrection)
    requires
        9 <= version <= 12,
    ensures
        holds(version, level),
{
    reveal(block_layout);
    reveal(data_codeword_capacity);
    reveal(ec_codeword_count);
    let layout = block_layout(version, level);
    if version == 9 {
        match level {
            ErrorCorrection::L => lemma_count(layout, 2, 116, 0, 0, 232),
            ErrorCorrection::M => lemma_count(layout, 3, 36, 2, 37, 182),
            ErrorCorrection::Q => lemma_count(layout, 4, 16, 4, 17, 132),
            ErrorCorrection::H => lemma_count(layout, 4, 12, 4, 13, 100),
        }
    }
    if version == 10 {
        match level {
            ErrorCorrection::L => lemma_count(layout, 2, 68, 2, 69, 274),
            ErrorCorrection::M => lemma_count(layout, 4, 43, 1, 44, 216),
            ErrorCorrection::Q => lemma_count(layout, 6, 19, 2, 20, 154),
            ErrorCorrection::H => lemma_count(layout, 6, 15, 2, 16, 122),
        }
    }
    if version == 11 {
        match level {
            ErrorCorrection::L => lemma_count(layout, 4, 81, 0, 0, 324),
            ErrorCorrection::M => lemma_count(layout, 1, 50, 4, 51, 254),
            ErrorCorrection::Q => lemma_count(layout, 4, 22, 4, 23, 180),
            ErrorCorrection::H => lemma_count(layout, 3, 12, 8, 13, 140),
        }
    }
    if version == 12 {
        match level {
            ErrorCorrection::L => lemma_count(layout, 2, 92, 2, 93, 370),
            ErrorCorrection::M => lemma_count(layout, 6, 36, 2, 37, 290),
            ErrorCorrection::Q => lemma_count(layout, 4, 20, 6, 21, 206),
            ErrorCorrection::H => lemma_count(layout, 7, 14, 4, 15, 158),
        }
    }
}

/// The tables agree on the versions 13 to 16.
proof fn lemma_layout_13_to_16(version: int, level: ErrorCorrection)
    requires
        13 <= version <= 16,
    ensures
        holds(version, level),
{
    reveal(block_layout);
    reveal(data_codeword_capacity);
    reveal(ec_codeword_count);
    let layout = block_layout(version, level);
    if version == 13 {
        match level {
            ErrorCorrection::L => lemma_count(layout, 4, 107, 0, 0, 428),
            ErrorCorrection::M => lemma_count(layout, 8, 37, 1, 38, 334),
            ErrorCorrection::Q => lemma_count(layout, 8, 20, 4, 21, 244),
            ErrorCorrection::H => lemma_count(layout, 12, 11, 4, 12, 180),
        }
    }
    if version == 14 {
        match level {
            ErrorCorrection::L => lemma_count(layout, 3, 115, 1, 116, 461),
            ErrorCorrection::M => lemma_count(layout, 4, 40, 5, 41, 365),
            ErrorCorrection::Q => lemma_count(layout, 11, 16, 5, 17, 261),
            ErrorCorrection::H => lemma_count(layout, 11, 12, 5, 13, 197),
        }
    }
    if version == 15 {
        match level {
            ErrorCorrection::L => lemma_count(layout, 5, 87, 1, 88, 523),
            ErrorCorrection::M => lemma_count(layout, 5, 41, 5, 42, 415),
            ErrorCorrection::Q => lemma_count(layout, 5, 24, 7, 25, 295),
            ErrorCorrection::H => lemma_count(layout, 11, 12, 7, 13, 223),
        }
    }
    if version == 16 {
        match level {
            ErrorCorrection::L => lemma_count(layout, 5, 98, 1, 99, 589),
            ErrorCorrection::M => lemma_count(layout, 7, 45, 3, 46, 453),
            ErrorCorrection::Q => lemma_count(layout, 15, 19, 2, 20, 325),
            ErrorCorrection::H => lemma_count(layout, 3, 15, 13, 16, 253),
        }
    }
}

/// The tables agree on the versions 17 to 20.
proof fn lemma_layout_17_to_20(version: int, level: ErrorCorrection)
    requires
        17 <= version <= 20,
    ensures
        holds(version, level),
{
    reveal(block_layout);
    reveal(data_codeword_capacity);
    reveal(ec_codeword_count);
    let layout = block_layout(version, level);
    if version == 17 {
        match level {
            ErrorCorrection::L => lemma_count(layout, 1, 107, 5, 108, 647),
            ErrorCorrection::M => lemma_count(layout, 10, 46, 1, 47, 507),
            ErrorCorrection::Q => lemma_count(layout, 1, 22, 15, 23, 367),
            ErrorCorrection::H => lemma_count(layout, 2, 14, 17, 15, 283),
        }
    }
    if version == 18 {
        match level {
            ErrorCorrection::L => lemma_count(layout, 5, 120, 1, 121, 721),
            ErrorCorrection::M => lemma_count(layout, 9, 43, 4, 44, 563),
            ErrorCorrection::Q => lemma_count(layout, 17, 22, 1, 23, 397),
            ErrorCorrection::H => lemma_count(layout, 2, 14, 19, 15, 313),
        }
    }
    if version == 19 {
        match level {
            ErrorCorrection::L => lemma_count(layout, 3, 113, 4, 114, 795),
            ErrorCorrection::M => lemma_count(layout, 3, 44, 11, 45, 627),
            ErrorCorrection::Q => lemma_count(layout, 17, 21, 4, 22, 445),
            ErrorCorrection::H => lemma_count(layout, 9, 13, 16, 14, 341),
        }
    }
    if version == 20 {
        match level {
            ErrorCorrection::L => lemma_count(layout, 3, 107, 5, 108, 861),
            ErrorCorrection::M => lemma_count(layout, 3, 41, 13, 42, 669),
            ErrorCorrection::Q => lemma_count(layout, 15, 24, 5, 25, 485),
            ErrorCorrection::H => lemma_count(layout, 15, 15, 10, 16, 385),
        }
    }
}

/// The tables agree on the versions 21 to 24.
proof fn lemma_layout_21_to_24(version: int, level: ErrorCorrection)
    requires
        21 <= version <= 24,
    ensures
        holds(version, level),
{
    reveal(block_layout);
    reveal(data_codeword_capacity);
    reveal(ec_codeword_count);
    let layout = block_layout(version, level);
    if version == 21 {
        match level {
            ErrorCorrection::L => lemma_count(layout, 4, 116, 4, 117, 932),
            ErrorCorrection::M => lemma_count(layout, 17, 42, 0, 0, 714),
            ErrorCorrection::Q => lemma_count(layout, 17, 22, 6, 23, 512),
            ErrorCorrection::H => lemma_count(layout, 19, 16, 6, 17, 406),
        }
    }
    if version == 22 {
        match level {
            ErrorCorrection::L => lemma_count(layout, 2, 111, 7, 112, 1006),
            ErrorCorrection::M => lemma_count(layout, 17, 46, 0, 0, 782),
            ErrorCorrection::Q => lemma_count(layout, 7, 24, 16, 25, 568),
            ErrorCorrection::H => lemma_count(layout, 34, 13, 0, 0, 442),
        }
    }
    if version == 23 {
        match level {
            ErrorCorrection::L => lemma_count(layout, 4, 121, 5, 122, 1094),
            ErrorCorrection::M => lemma_count(layout, 4, 47, 14, 48, 860),
            ErrorCorrection::Q => lemma_count(layout, 11, 24, 14, 25, 614),
            ErrorCorrection::H => lemma_count(layout, 16, 15, 14, 16, 464),
        }
    }
    if version == 24 {
        match level {
            ErrorCorrection::L => lemma_count(layout, 6, 117, 4, 118, 1174),
            ErrorCorrection::M => lemma_count(layout, 6, 45, 14, 46, 914),
            ErrorCorrection::Q => lemma_count(layout, 11, 24, 16, 25, 664),
            ErrorCorrection::H => lemma_count(layout, 30, 16, 2, 17, 514),
        }
    }
}

/// The tables agree on the versions 25 to 28.
proof fn lemma_layout_25_to_28(version: int, level: ErrorCorrection)
    requires
        25 <= version <= 28,
    ensures
        holds(version, level),
{
    reveal(block_layout);
    reveal(data_codeword_capacity);
    reveal(ec_codeword_count);
    let layout = block_layout(version, level);
    if version == 25 {
        match level {
            ErrorCorrection::L => lemma_count(layout, 8, 106, 4, 107, 1276),
            ErrorCorrection::M => lemma_count(layout, 8, 47, 13, 48, 1000),
            ErrorCorrection::Q => lemma_count(layout, 7, 24, 22, 25, 718),
            ErrorCorrection::H => lemma_count(layout, 22, 15, 13, 16, 538),
        }
    }
    if version == 26 {
        match level {
            ErrorCorrection::L => lemma_count(layout, 10, 114, 2, 115, 1370),
            ErrorCorrection::M => lemma_count(layout, 19, 46, 4, 47, 1062),
            ErrorCorrection::Q => lemma_count(layout, 28, 22, 6, 23, 754),
            ErrorCorrection::H => lemma_count(layout, 33, 16, 4, 17, 596),
        }
    }
    if version == 27 {
        match level {
            ErrorCorrection::L => lemma_count(layout, 8, 122, 4, 123, 1468),
            ErrorCorrection::M => lemma_count(layout, 22, 45, 3, 46, 1128),
            ErrorCorrection::Q => lemma_count(layout, 8, 23, 26, 24, 808),
            ErrorCorrection::H => lemma_count(layout, 12, 15, 28, 16, 628),
        }
    }
    if version == 28 {
        match level {
            ErrorCorrection::L => lemma_count(layout, 3, 117, 10, 118, 1531),
            ErrorCorrection::M => lemma_count(layout, 3, 45, 23, 46, 1193),
            ErrorCorrection::Q => lemma_count(layout, 4, 24, 31, 25, 871),
            ErrorCorrection::H => lemma_count(layout, 11, 15, 31, 16, 661),
        }
    }
}

/// The tables agree on the versions 29 to 32.
proof fn lemma_layout_29_to_32(version: int, level: ErrorCorrection)
    requires
        29 <= version <= 32,
    ensures
        holds(version, level),
{
    reveal(block_layout);
    reveal(data_codeword_capacity);
    reveal(ec_codeword_count);
    let layout = block_layout(version, level);
    if version == 29 {
        match level {
            ErrorCorrection::L => lemma_count(layout, 7, 116, 7, 117, 1631),
            ErrorCorrection::M => lemma_count(layout, 21, 45, 7, 46, 1267),
            ErrorCorrection::Q => lemma_count(layout, 1, 23, 37, 24, 911),
            ErrorCorrection::H => lemma_count(layout, 19, 15, 26, 16, 701),
        }
    }
    if version == 30 {
        match level {
            ErrorCorrection::L => lemma_count(layout, 5, 115, 10, 116, 1735),
            ErrorCorrection::M => lemma_count(layout, 19, 47, 10, 48, 1373),
            ErrorCorrection::Q => lemma_count(layout, 15, 24, 25, 25, 985),
            ErrorCorrection::H => lemma_count(layout, 23, 15, 25, 16, 745),
        }
    }
    if version == 31 {
        match level {
            ErrorCorrection::L => lemma_count(layout, 13, 115, 3, 116, 1843),
            ErrorCorrection::M => lemma_count(layout, 2, 46, 29, 47, 1455),
            ErrorCorrection::Q => lemma_count(layout, 42, 24, 1, 25, 1033),
            ErrorCorrection::H => lemma_count(layout, 23, 15, 28, 16, 793),
        }
    }
    if version == 32 {
        match level {
            ErrorCorrection::L => lemma_count(layout, 17, 115, 0, 0, 1955),
            ErrorCorrection::M => lemma_count(layout, 10, 46, 23, 47, 1541),
            ErrorCorrection::Q => lemma_count(layout, 10, 24, 35, 25, 1115),
            ErrorCorrection::H => lemma_count(layout, 19, 15, 35, 16, 845),
        }
    }
}

/// The tables agree on the versions 33 to 36.
proof fn lemma_layout_33_to_36(version: int, level: ErrorCorrection)
    requires
        33 <= version <= 36,
    ensures
        holds(version, level),
{
    reveal(block_layout);
    reveal(data_codeword_capacity);
    reveal(ec_codeword_count);
    let layout = block_layout(version, level);
    if version == 33 {
        match level {
            ErrorCorrection::L => lemma_count(layout, 17, 115, 1, 116, 2071),
            ErrorCorrection::M => lemma_count(layout, 14, 46, 21, 47, 1631),
            ErrorCorrection::Q => lemma_count(layout, 29, 24, 19, 25, 1171),
            ErrorCorrection::H => lemma_count(layout, 11, 15, 46, 16, 901),
        }
    }
    if version == 34 {
        match level {
            ErrorCorrection::L => lemma_count(layout, 13, 115, 6, 116, 2191),
            ErrorCorrection::M => lemma_count(layout, 14, 46, 23, 47, 1725),
            ErrorCorrection::Q => lemma_count(layout, 44, 24, 7, 25, 1231),
            ErrorCorrection::H => lemma_count(layout, 59, 16, 1, 17, 961),
        }
    }
    if version == 35 {
        match level {
            ErrorCorrection::L => lemma_count(layout, 12, 121, 7, 122, 2306),
            ErrorCorrection::M => lemma_count(layout, 12, 47, 26, 48, 1812),
            ErrorCorrection::Q => lemma_count(layout, 39, 24, 14, 25, 1286),
            ErrorCorrection::H => lemma_count(layout, 22, 15, 41, 16, 986),
        }
    }
    if version == 36 {
        match level {
            ErrorCorrection::L => lemma_count(layout, 6, 121, 14, 122, 2434),
            ErrorCorrection::M => lemma_count(layout, 6, 47, 34, 48, 1914),
            ErrorCorrection::Q => lemma_count(layout, 46, 24, 10, 25, 1354),
            ErrorCorrection::H => lemma_count(layout, 2, 15, 64, 16, 1054),
        }
    }
}

/// The tables agree on the versions 37 to 40.
proof fn lemma_layout_37_to_40(version: int, level: ErrorCorrection)
    requires
        37 <= version <= 40,
    ensures
        holds(version, level),
{
    reveal(block_layout);
    reveal(data_codeword_capacity);
    reveal(ec_codeword_count);
    let layout = block_layout(version, level);
    if version == 37 {
        match level {
            ErrorCorrection::L => lemma_count(layout, 17, 122, 4, 123, 2566),
            ErrorCorrection::M => lemma_count(layout, 29, 46, 14, 47, 1992),
            ErrorCorrection::Q => lemma_count(layout, 49, 24, 10, 25, 1426),
            ErrorCorrection::H => lemma_count(layout, 24, 15, 46, 16, 1096),
        }
    }
    if version == 38 {
        match level {
            ErrorCorrection::L => lemma_count(layout, 4, 122, 18, 123, 2702),
            ErrorCorrection::M => lemma_count(layout, 13, 46, 32, 47, 2102),
            ErrorCorrection::Q => lemma_count(layout, 48, 24, 14, 25, 1502),
            ErrorCorrection::H => lemma_count(layout, 42, 15, 32, 16, 1142),
        }
    }
    if version == 39 {
        match level {
            ErrorCorrection::L => lemma_count(layout, 20, 117, 4, 118, 2812),
            ErrorCorrection::M => lemma_count(layout, 40, 47, 7, 48, 2216),
            ErrorCorrection::Q => lemma_count(layout, 43, 24, 22, 25, 1582),
            ErrorCorrection::H => lemma_count(layout, 10, 15, 67, 16, 1222),
        }
    }
    if version == 40 {
        match level {
            ErrorCorrection::L => lemma_count(layout, 19, 118, 6, 119, 2956),
            ErrorCorrection::M => lemma_count(layout, 18, 47, 31, 48, 2334),
            ErrorCorrection::Q => lemma_count(layout, 34, 24, 34, 25, 1666),
            ErrorCorrection::H => lemma_count(layout, 20, 15, 61, 16, 1276),
        }
    }
}

/// The tables agree on the versions 41 to 44.
proof fn lemma_layout_41_to_44(version: int, level: ErrorCorrection)
    requires
        41 <= version <= 44,
    ensures
        holds(version, level),
{
    reveal(block_layout);
    reveal(data_codeword_capacity);
    reveal(ec_codeword_count);
    let layout = block_layout(version, level);
    if version == 41 {
        match level {
            ErrorCorrection::L => lemma_count(layout, 1, 3, 0, 0, 3),
            ErrorCorrection::M => {},
            ErrorCorrection::Q => {},
            ErrorCorrection::H => {},
        }
    }
    if version == 42 {
        match level {
            ErrorCorrection::L => lemma_count(layout, 1, 5, 0, 0, 5),
            ErrorCorrection::M => lemma_count(layout, 1, 4, 0, 0, 4),
            ErrorCorrection::Q => {},
            ErrorCorrection::H => {},
        }
    }
    if version == 43 {
        match level {
            ErrorCorrection::L => lemma_count(layout, 1, 11, 0, 0, 11),
            ErrorCorrection::M => lemma_count(layout, 1, 9, 0, 0, 9),
            ErrorCorrection::Q => {},
            ErrorCorrection::H => {},
        }
    }
    if version == 44 {
        match level {
            ErrorCorrection::L => lemma_count(layout, 1, 16, 0, 0, 16),
            ErrorCorrection::M => lemma_count(layout, 1, 14, 0, 0, 14),
            ErrorCorrection::Q => lemma_count(layout, 1, 10, 0, 0, 10),
            ErrorCorrection::H => {},
        }
    }
}

/// The tables of capacities, block layouts and error correction codewords
/// agree on every version and level.
pub proof fn lemma_tables_agree(version: int, level: ErrorCorrection)
    requires
        1 <= version <= 44,
    ensures
        holds(version, level),
{
    if version <= 4 {
        lemma_layout_1_to_4(version, level);
    } else if version <= 8 {
        lemma_layout_5_to_8(version, level);
    } else if version <= 12 {
        lemma_layout_9_to_12(version, level);
    } else if version <= 16 {
        lemma_layout_13_to_16(version, level);
    } else if version <= 20 {
        lemma_layout_17_to_20(version, level);
    } else if version <= 24 {
        lemma_layout_21_to_24(version, level);
    } else if version <= 28 {
        lemma_layout_25_to_28(version, level);
    } else if version <= 32 {
        lemma_layout_29_to_32(version, level);
    } else if version <= 36 {
        lemma_layout_33_to_36(version, level);
    } else if version <= 40 {
        lemma_layout_37_to_40(version, level);
    } else if version <= 44 {
        lemma_layout_41_to_44(version, level);
    }
}

} // verus!
