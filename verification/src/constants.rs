//! The tables of the symbology.

use vstd::prelude::*;

verus! {

/// Number of symbol versions: 40 full-size versions followed by the four
/// Micro versions M1-M4, which are numbered 41-44.
pub const VERSION_COUNT: usize = 44;

/// Highest full-size version.
pub const MAX_STANDARD_VERSION: usize = 40;

/// Data capacity in bits, indexed by `version - 1` and then by error
/// correction level (L, M, Q, H). A zero marks a combination that does not
/// exist (Micro symbols offer only some of the levels).
pub const DATA_CODEWORDS: [[usize; 4]; 44] = [
    [152, 128, 104, 72],
    [272, 224, 176, 128],
    [440, 352, 272, 208],
    [640, 512, 384, 288],
    [864, 688, 496, 368],
    [1088, 864, 608, 480],
    [1248, 992, 704, 528],
    [1552, 1232, 880, 688],
    [1856, 1456, 1056, 800],
    [2192, 1728, 1232, 976],
    [2592, 2032, 1440, 1120],
    [2960, 2320, 1648, 1264],
    [3424, 2672, 1952, 1440],
    [3688, 2920, 2088, 1576],
    [4184, 3320, 2360, 1784],
    [4712, 3624, 2600, 2024],
    [5176, 4056, 2936, 2264],
    [5768, 4504, 3176, 2504],
    [6360, 5016, 3560, 2728],
    [6888, 5352, 3880, 3080],
    [7456, 5712, 4096, 3248],
    [8048, 6256, 4544, 3536],
    [8752, 6880, 4912, 3712],
    [9392, 7312, 5312, 4112],
    [10208, 8000, 5744, 4304],
    [10960, 8496, 6032, 4768],
    [11744, 9024, 6464, 5024],
    [12248, 9544, 6968, 5288],
    [13048, 10136, 7288, 5608],
    [13880, 10984, 7880, 5960],
    [14744, 11640, 8264, 6344],
    [15640, 12328, 8920, 6760],
    [16568, 13048, 9368, 7208],
    [17528, 13800, 9848, 7688],
    [18448, 14496, 10288, 7888],
    [19472, 15312, 10832, 8432],
    [20528, 15936, 11408, 8768],
    [21616, 16816, 12016, 9136],
    [22496, 17728, 12656, 9776],
    [23648, 18672, 13328, 10208],
    [20, 0, 0, 0],
    [40, 32, 0, 0],
    [84, 68, 0, 0],
    [128, 112, 80, 0],
];

/// Error correction codewords per block, indexed like `DATA_CODEWORDS`.
pub const EC_CODEWORDS: [[usize; 4]; 44] = [
    [7, 10, 13, 17],
    [10, 16, 22, 28],
    [15, 26, 18, 22],
    [20, 18, 26, 16],
    [26, 24, 18, 22],
    [18, 16, 24, 28],
    [20, 18, 18, 26],
    [24, 22, 22, 26],
    [30, 22, 20, 24],
    [18, 26, 24, 28],
    [20, 30, 28, 24],
    [24, 22, 26, 28],
    [26, 22, 24, 22],
    [30, 24, 20, 24],
    [22, 24, 30, 24],
    [24, 28, 24, 30],
    [28, 28, 28, 28],
    [30, 26, 28, 28],
    [28, 26, 26, 26],
    [28, 26, 30, 28],
    [28, 26, 28, 30],
    [28, 28, 30, 24],
    [30, 28, 30, 30],
    [30, 28, 30, 30],
    [26, 28, 30, 30],
    [28, 28, 28, 30],
    [30, 28, 30, 30],
    [30, 28, 30, 30],
    [30, 28, 30, 30],
    [30, 28, 30, 30],
    [30, 28, 30, 30],
    [30, 28, 30, 30],
    [30, 28, 30, 30],
    [30, 28, 30, 30],
    [30, 28, 30, 30],
    [30, 28, 30, 30],
    [30, 28, 30, 30],
    [30, 28, 30, 30],
    [30, 28, 30, 30],
    [30, 28, 30, 30],
    [2, 0, 0, 0],
    [5, 6, 0, 0],
    [6, 8, 0, 0],
    [8, 10, 14, 0],
];

/// Block layout, indexed like `DATA_CODEWORDS`: the number of blocks in
/// group 1, the data codewords in each of them, and the same pair for
/// group 2.
pub const BLOCK_LOOKUP: [[[usize; 4]; 4]; 44] = [
    [[1, 19, 0, 0], [1, 16, 0, 0], [1, 13, 0, 0], [1, 9, 0, 0]],
    [[1, 34, 0, 0], [1, 28, 0, 0], [1, 22, 0, 0], [1, 16, 0, 0]],
    [[1, 55, 0, 0], [1, 44, 0, 0], [2, 17, 0, 0], [2, 13, 0, 0]],
    [[1, 80, 0, 0], [2, 32, 0, 0], [2, 24, 0, 0], [4, 9, 0, 0]],
    [[1, 108, 0, 0], [2, 43, 0, 0], [2, 15, 2, 16], [2, 11, 2, 12]],
    [[2, 68, 0, 0], [4, 27, 0, 0], [4, 19, 0, 0], [4, 15, 0, 0]],
    [[2, 78, 0, 0], [4, 31, 0, 0], [2, 14, 4, 15], [4, 13, 1, 14]],
    [[2, 97, 0, 0], [2, 38, 2, 39], [4, 18, 2, 19], [4, 14, 2, 15]],
    [[2, 116, 0, 0], [3, 36, 2, 37], [4, 16, 4, 17], [4, 12, 4, 13]],
    [[2, 68, 2, 69], [4, 43, 1, 44], [6, 19, 2, 20], [6, 15, 2, 16]],
    [[4, 81, 0, 0], [1, 50, 4, 51], [4, 22, 4, 23], [3, 12, 8, 13]],
    [[2, 92, 2, 93], [6, 36, 2, 37], [4, 20, 6, 21], [7, 14, 4, 15]],
    [[4, 107, 0, 0], [8, 37, 1, 38], [8, 20, 4, 21], [12, 11, 4, 12]],
    [[3, 115, 1, 116], [4, 40, 5, 41], [11, 16, 5, 17], [11, 12, 5, 13]],
    [[5, 87, 1, 88], [5, 41, 5, 42], [5, 24, 7, 25], [11, 12, 7, 13]],
    [[5, 98, 1, 99], [7, 45, 3, 46], [15, 19, 2, 20], [3, 15, 13, 16]],
    [[1, 107, 5, 108], [10, 46, 1, 47], [1, 22, 15, 23], [2, 14, 17, 15]],
    [[5, 120, 1, 121], [9, 43, 4, 44], [17, 22, 1, 23], [2, 14, 19, 15]],
    [[3, 113, 4, 114], [3, 44, 11, 45], [17, 21, 4, 22], [9, 13, 16, 14]],
    [[3, 107, 5, 108], [3, 41, 13, 42], [15, 24, 5, 25], [15, 15, 10, 16]],
    [[4, 116, 4, 117], [17, 42, 0, 0], [17, 22, 6, 23], [19, 16, 6, 17]],
    [[2, 111, 7, 112], [17, 46, 0, 0], [7, 24, 16, 25], [34, 13, 0, 0]],
    [[4, 121, 5, 122], [4, 47, 14, 48], [11, 24, 14, 25], [16, 15, 14, 16]],
    [[6, 117, 4, 118], [6, 45, 14, 46], [11, 24, 16, 25], [30, 16, 2, 17]],
    [[8, 106, 4, 107], [8, 47, 13, 48], [7, 24, 22, 25], [22, 15, 13, 16]],
    [[10, 114, 2, 115], [19, 46, 4, 47], [28, 22, 6, 23], [33, 16, 4, 17]],
    [[8, 122, 4, 123], [22, 45, 3, 46], [8, 23, 26, 24], [12, 15, 28, 16]],
    [[3, 117, 10, 118], [3, 45, 23, 46], [4, 24, 31, 25], [11, 15, 31, 16]],
    [[7, 116, 7, 117], [21, 45, 7, 46], [1, 23, 37, 24], [19, 15, 26, 16]],
    [[5, 115, 10, 116], [19, 47, 10, 48], [15, 24, 25, 25], [23, 15, 25, 16]],
    [[13, 115, 3, 116], [2, 46, 29, 47], [42, 24, 1, 25], [23, 15, 28, 16]],
    [[17, 115, 0, 0], [10, 46, 23, 47], [10, 24, 35, 25], [19, 15, 35, 16]],
    [[17, 115, 1, 116], [14, 46, 21, 47], [29, 24, 19, 25], [11, 15, 46, 16]],
    [[13, 115, 6, 116], [14, 46, 23, 47], [44, 24, 7, 25], [59, 16, 1, 17]],
    [[12, 121, 7, 122], [12, 47, 26, 48], [39, 24, 14, 25], [22, 15, 41, 16]],
    [[6, 121, 14, 122], [6, 47, 34, 48], [46, 24, 10, 25], [2, 15, 64, 16]],
    [[17, 122, 4, 123], [29, 46, 14, 47], [49, 24, 10, 25], [24, 15, 46, 16]],
    [[4, 122, 18, 123], [13, 46, 32, 47], [48, 24, 14, 25], [42, 15, 32, 16]],
    [[20, 117, 4, 118], [40, 47, 7, 48], [43, 24, 22, 25], [10, 15, 67, 16]],
    [[19, 118, 6, 119], [18, 47, 31, 48], [34, 24, 34, 25], [20, 15, 61, 16]],
    [[1, 3, 0, 0], [0, 0, 0, 0], [0, 0, 0, 0], [0, 0, 0, 0]],
    [[1, 5, 0, 0], [1, 4, 0, 0], [0, 0, 0, 0], [0, 0, 0, 0]],
    [[1, 11, 0, 0], [1, 9, 0, 0], [0, 0, 0, 0], [0, 0, 0, 0]],
    [[1, 16, 0, 0], [1, 14, 0, 0], [1, 10, 0, 0], [0, 0, 0, 0]],
];

/// Remainder bits appended after the interleaved codewords, by `version - 1`.
pub const REMAINING_BITS: [usize; 44] = [
    0, 7, 7, 7, 7, 7, 0, 0, 0, 0,
    0, 0, 0, 3, 3, 3, 3, 3, 3, 3,
    4, 4, 4, 4, 4, 4, 4, 3, 3, 3,
    3, 3, 3, 3, 0, 0, 0, 0, 0, 0,
    0, 0, 0, 0,
];

/// The two pad codewords that alternate after the terminator.
pub const REMAINDER_BITS: [u8; 2] = [0xEC, 0x11];

/// Row and column coordinates of the alignment pattern centres for each
/// full-size version, by `version - 1`, padded with zeros.
pub const ALIGNMENT_PATTERN_LOCATION: [[usize; 7]; 40] = [
    [0, 0, 0, 0, 0, 0, 0],
    [6, 18, 0, 0, 0, 0, 0],
    [6, 22, 0, 0, 0, 0, 0],
    [6, 26, 0, 0, 0, 0, 0],
    [6, 30, 0, 0, 0, 0, 0],
    [6, 34, 0, 0, 0, 0, 0],
    [6, 22, 38, 0, 0, 0, 0],
    [6, 24, 42, 0, 0, 0, 0],
    [6, 26, 46, 0, 0, 0, 0],
    [6, 28, 50, 0, 0, 0, 0],
    [6, 30, 54, 0, 0, 0, 0],
    [6, 32, 58, 0, 0, 0, 0],
    [6, 34, 62, 0, 0, 0, 0],
    [6, 26, 46, 66, 0, 0, 0],
    [6, 26, 48, 70, 0, 0, 0],
    [6, 26, 50, 74, 0, 0, 0],
    [6, 30, 54, 78, 0, 0, 0],
    [6, 30, 56, 82, 0, 0, 0],
    [6, 30, 58, 86, 0, 0, 0],
    [6, 34, 62, 90, 0, 0, 0],
    [6, 28, 50, 72, 94, 0, 0],
    [6, 26, 50, 74, 98, 0, 0],
    [6, 30, 54, 78, 102, 0, 0],
    [6, 28, 54, 80, 106, 0, 0],
    [6, 32, 58, 84, 110, 0, 0],
    [6, 30, 58, 86, 114, 0, 0],
    [6, 34, 62, 90, 118, 0, 0],
    [6, 26, 50, 74, 98, 122, 0],
    [6, 30, 54, 78, 102, 126, 0],
    [6, 26, 52, 78, 104, 130, 0],
    [6, 30, 56, 82, 108, 134, 0],
    [6, 34, 60, 86, 112, 138, 0],
    [6, 30, 58, 86, 114, 142, 0],
    [6, 34, 62, 90, 118, 146, 0],
    [6, 30, 54, 78, 102, 126, 150],
    [6, 24, 50, 76, 102, 128, 154],
    [6, 28, 54, 80, 106, 132, 158],
    [6, 32, 58, 84, 110, 136, 162],
    [6, 26, 54, 82, 110, 138, 166],
    [6, 30, 58, 86, 114, 142, 170],
];

/// How many entries of each row of `ALIGNMENT_PATTERN_LOCATION` are in use.
pub const ALIGNMENT_PATTERN_COUNT: [usize; 40] = [
    0, 2, 2, 2, 2, 2, 3, 3, 3, 3,
    3, 3, 3, 4, 4, 4, 4, 4, 4, 4,
    5, 5, 5, 5, 5, 5, 5, 6, 6, 6,
    6, 6, 6, 6, 7, 7, 7, 7, 7, 7,
];

/// The fifteen format bits of a full-size symbol, indexed by the two level
/// bits followed by the three mask bits.
pub const FORMAT_INFORMATION: [u16; 32] = [
    0x5412, 0x5125, 0x5E7C, 0x5B4B, 0x45F9, 0x40CE, 0x4F97, 0x4AA0,
    0x77C4, 0x72F3, 0x7DAA, 0x789D, 0x662F, 0x6318, 0x6C41, 0x6976,
    0x1689, 0x13BE, 0x1CE7, 0x19D0, 0x0762, 0x0255, 0x0D0C, 0x083B,
    0x355F, 0x3068, 0x3F31, 0x3A06, 0x24B4, 0x2183, 0x2EDA, 0x2BED,
];

/// The eighteen version bits of versions 7 to 40, indexed by `version - 7`.
pub const VERSION_INFORMATION: [u32; 34] = [
    0x07C94, 0x085BC, 0x09A99, 0x0A4D3, 0x0BBF6, 0x0C762,
    0x0D847, 0x0E60D, 0x0F928, 0x10B78, 0x1145D, 0x12A17,
    0x13532, 0x149A6, 0x15683, 0x168C9, 0x177EC, 0x18EC4,
    0x191E1, 0x1AFAB, 0x1B08E, 0x1CC1A, 0x1D33F, 0x1ED75,
    0x1F250, 0x209D5, 0x216F0, 0x228BA, 0x2379F, 0x24B0B,
    0x2542E, 0x26A64, 0x27541, 0x28C69,
];

/// The fifteen format bits of a Micro symbol, indexed by the three symbol
/// number bits followed by the two mask bits.
pub const FORMAT_INFO_MICRO: [u16; 32] = [
    0x4445, 0x4172, 0x4E2B, 0x4B1C, 0x55AE, 0x5099, 0x5FC0, 0x5AF7,
    0x6793, 0x62A4, 0x6DFD, 0x68CA, 0x7678, 0x734F, 0x7C16, 0x7921,
    0x06DE, 0x03E9, 0x0CB0, 0x0987, 0x1735, 0x1202, 0x1D5B, 0x186C,
    0x2508, 0x203F, 0x2F66, 0x2A51, 0x34E3, 0x31D4, 0x3E8D, 0x3BBA,
];

/// Symbol number of a Micro symbol, by `version - 41` and level.
pub const MICRO_MAPPING: [[usize; 4]; 4] = [
    [0, 0, 0, 0],
    [1, 2, 0, 0],
    [3, 4, 0, 0],
    [5, 6, 7, 0],
];

/// Discrete logarithms to base alpha in GF(256); the entry for 0 is unused.
pub const LOG_TABLE: [u8; 256] = [
    0, 0, 1, 25, 2, 50, 26, 198, 3, 223, 51, 238, 27, 104, 199, 75,
    4, 100, 224, 14, 52, 141, 239, 129, 28, 193, 105, 248, 200, 8, 76, 113,
    5, 138, 101, 47, 225, 36, 15, 33, 53, 147, 142, 218, 240, 18, 130, 69,
    29, 181, 194, 125, 106, 39, 249, 185, 201, 154, 9, 120, 77, 228, 114, 166,
    6, 191, 139, 98, 102, 221, 48, 253, 226, 152, 37, 179, 16, 145, 34, 136,
    54, 208, 148, 206, 143, 150, 219, 189, 241, 210, 19, 92, 131, 56, 70, 64,
    30, 66, 182, 163, 195, 72, 126, 110, 107, 58, 40, 84, 250, 133, 186, 61,
    202, 94, 155, 159, 10, 21, 121, 43, 78, 212, 229, 172, 115, 243, 167, 87,
    7, 112, 192, 247, 140, 128, 99, 13, 103, 74, 222, 237, 49, 197, 254, 24,
    227, 165, 153, 119, 38, 184, 180, 124, 17, 68, 146, 217, 35, 32, 137, 46,
    55, 63, 209, 91, 149, 188, 207, 205, 144, 135, 151, 178, 220, 252, 190, 97,
    242, 86, 211, 171, 20, 42, 93, 158, 132, 60, 57, 83, 71, 109, 65, 162,
    31, 45, 67, 216, 183, 123, 164, 118, 196, 23, 73, 236, 127, 12, 111, 246,
    108, 161, 59, 82, 41, 157, 85, 170, 251, 96, 134, 177, 187, 204, 62, 90,
    203, 89, 95, 176, 156, 169, 160, 81, 11, 245, 22, 235, 122, 117, 44, 215,
    79, 174, 213, 233, 230, 231, 173, 232, 116, 214, 244, 234, 168, 80, 88, 175,
];

/// Powers of alpha in GF(256) with the primitive polynomial 0x11D.
pub const ANTILOG_TABLE: [u8; 256] = [
    1, 2, 4, 8, 16, 32, 64, 128, 29, 58, 116, 232, 205, 135, 19, 38,
    76, 152, 45, 90, 180, 117, 234, 201, 143, 3, 6, 12, 24, 48, 96, 192,
    157, 39, 78, 156, 37, 74, 148, 53, 106, 212, 181, 119, 238, 193, 159, 35,
    70, 140, 5, 10, 20, 40, 80, 160, 93, 186, 105, 210, 185, 111, 222, 161,
    95, 190, 97, 194, 153, 47, 94, 188, 101, 202, 137, 15, 30, 60, 120, 240,
    253, 231, 211, 187, 107, 214, 177, 127, 254, 225, 223, 163, 91, 182, 113, 226,
    217, 175, 67, 134, 17, 34, 68, 136, 13, 26, 52, 104, 208, 189, 103, 206,
    129, 31, 62, 124, 248, 237, 199, 147, 59, 118, 236, 197, 151, 51, 102, 204,
    133, 23, 46, 92, 184, 109, 218, 169, 79, 158, 33, 66, 132, 21, 42, 84,
    168, 77, 154, 41, 82, 164, 85, 170, 73, 146, 57, 114, 228, 213, 183, 115,
    230, 209, 191, 99, 198, 145, 63, 126, 252, 229, 215, 179, 123, 246, 241, 255,
    227, 219, 171, 75, 150, 49, 98, 196, 149, 55, 110, 220, 165, 87, 174, 65,
    130, 25, 50, 100, 200, 141, 7, 14, 28, 56, 112, 224, 221, 167, 83, 166,
    81, 162, 89, 178, 121, 242, 249, 239, 195, 155, 43, 86, 172, 69, 138, 9,
    18, 36, 72, 144, 61, 122, 244, 245, 247, 243, 251, 235, 203, 139, 11, 22,
    44, 88, 176, 125, 250, 233, 207, 131, 27, 54, 108, 216, 173, 71, 142, 1,
];

/// The decimal places of `a / 255` for every alpha value `a`, read as one
/// number. The quotient is taken in single precision and written with as
/// few places as tell it from its neighbours.
pub const ALPHA_DIGITS: [u32; 256] = [
    0, 3921569, 7843138, 11764706, 15686275, 19607844, 23529412, 2745098,
    3137255, 3529412, 39215688, 43137256, 47058824, 50980393, 5490196, 5882353,
    627451, 6666667, 7058824, 7450981, 78431375, 8235294, 8627451, 9019608,
    9411765, 9803922, 101960786, 105882354, 10980392, 11372549, 11764706, 12156863,
    1254902, 12941177, 13333334, 13725491, 14117648, 14509805, 14901961, 15294118,
    15686275, 16078432, 16470589, 16862746, 17254902, 1764706, 18039216, 18431373,
    1882353, 19215687, 19607843, 2, 20392157, 20784314, 21176471, 21568628,
    21960784, 22352941, 22745098, 23137255, 23529412, 23921569, 24313726, 24705882,
    2509804, 25490198, 25882354, 2627451, 26666668, 27058825, 27450982, 2784314,
    28235295, 28627452, 2901961, 29411766, 29803923, 3019608, 30588236, 30980393,
    3137255, 31764707, 32156864, 3254902, 32941177, 33333334, 3372549, 34117648,
    34509805, 34901962, 3529412, 35686275, 36078432, 3647059, 36862746, 37254903,
    3764706, 38039216, 38431373, 3882353, 39215687, 39607844, 4, 40392157,
    40784314, 4117647, 41568628, 41960785, 42352942, 42745098, 43137255, 43529412,
    4392157, 44313726, 44705883, 4509804, 45490196, 45882353, 4627451, 46666667,
    47058824, 4745098, 47843137, 48235294, 4862745, 49019608, 49411765, 49803922,
    5019608, 5058824, 50980395, 5137255, 5176471, 52156866, 5254902, 5294118,
    53333336, 5372549, 5411765, 54509807, 54901963, 5529412, 5568628, 56078434,
    5647059, 5686275, 57254905, 5764706, 5803922, 58431375, 5882353, 5921569,
    59607846, 6, 6039216, 60784316, 6117647, 6156863, 61960787, 62352943,
    627451, 6313726, 63529414, 6392157, 6431373, 64705884, 6509804, 654902,
    65882355, 6627451, 6666667, 67058825, 6745098, 6784314, 68235296, 6862745,
    6901961, 69411767, 69803923, 7019608, 7058824, 70980394, 7137255, 7176471,
    72156864, 7254902, 7294118, 73333335, 7372549, 7411765, 74509805, 7490196,
    7529412, 75686276, 7607843, 7647059, 76862746, 77254903, 7764706, 78039217,
    78431374, 7882353, 7921569, 79607844, 8, 8039216, 80784315, 8117647,
    8156863, 81960785, 8235294, 827451, 83137256, 8352941, 8392157, 84313726,
    84705883, 8509804, 85490197, 85882354, 8627451, 8666667, 87058824, 8745098,
    8784314, 88235295, 8862745, 8901961, 89411765, 8980392, 9019608, 90588236,
    9098039, 9137255, 91764706, 92156863, 9254902, 92941177, 93333334, 9372549,
    9411765, 94509804, 9490196, 9529412, 95686275, 9607843, 9647059, 96862745,
    972549, 9764706, 98039216, 9843137, 9882353, 99215686, 99607843, 0,
];

/// How many decimal places each entry of `ALPHA_DIGITS` stands for; zero
/// where the quotient is a whole number.
pub const ALPHA_PLACES: [u8; 256] = [
    0, 9, 9, 9, 9, 9, 9, 8, 8, 8, 9, 9, 9, 9, 8, 8,
    7, 8, 8, 8, 9, 8, 8, 8, 8, 8, 9, 9, 8, 8, 8, 8,
    7, 8, 8, 8, 8, 8, 8, 8, 8, 8, 8, 8, 8, 7, 8, 8,
    7, 8, 8, 1, 8, 8, 8, 8, 8, 8, 8, 8, 8, 8, 8, 8,
    7, 8, 8, 7, 8, 8, 8, 7, 8, 8, 7, 8, 8, 7, 8, 8,
    7, 8, 8, 7, 8, 8, 7, 8, 8, 8, 7, 8, 8, 7, 8, 8,
    7, 8, 8, 7, 8, 8, 1, 8, 8, 7, 8, 8, 8, 8, 8, 8,
    7, 8, 8, 7, 8, 8, 7, 8, 8, 7, 8, 8, 7, 8, 8, 8,
    7, 7, 8, 7, 7, 8, 7, 7, 8, 7, 7, 8, 8, 7, 7, 8,
    7, 7, 8, 7, 7, 8, 7, 7, 8, 1, 7, 8, 7, 7, 8, 8,
    6, 7, 8, 7, 7, 8, 7, 6, 8, 7, 7, 8, 7, 7, 8, 7,
    7, 8, 8, 7, 7, 8, 7, 7, 8, 7, 7, 8, 7, 7, 8, 7,
    7, 8, 7, 7, 8, 8, 7, 8, 8, 7, 7, 8, 1, 7, 8, 7,
    7, 8, 7, 6, 8, 7, 7, 8, 8, 7, 8, 8, 7, 7, 8, 7,
    7, 8, 7, 7, 8, 7, 7, 8, 7, 7, 8, 8, 7, 8, 8, 7,
    7, 8, 7, 7, 8, 7, 7, 8, 6, 7, 8, 7, 7, 8, 8, 0,
];

} // verus!
