//! Arithmetic in the field with 256 elements, through tables of powers and
//! logarithms of the primitive element alpha.

use crate::constants::{ANTILOG_TABLE, LOG_TABLE};
use vstd::prelude::*;

verus! {

/// The power `alpha^i` of the primitive element, for `0 <= i <= 255`.
#[verifier::opaque]
pub open spec fn antilog(i: int) -> u8 {
    ANTILOG_TABLE[i]
}

/// The exponent `i < 255` with `alpha^i == a`, for a nonzero `a`.
#[verifier::opaque]
pub open spec fn log(a: int) -> u8 {
    LOG_TABLE[a]
}

/// The product of two field elements.
#[verifier::opaque]
pub open spec fn product(a: u8, b: u8) -> u8 {
    if a == 0 || b == 0 {
        0
    } else {
        antilog((log(a as int) + log(b as int)) % 255)
    }
}

/// Multiplication by the primitive element: a shift to the left, reduced by
/// the primitive polynomial 0x11D when the result leaves eight bits.
pub open spec fn times_alpha(a: u8) -> u8 {
    if a & 0x80 == 0 {
        a << 1
    } else {
        (a << 1) ^ 0x1D
    }
}

/// The power `alpha^i`.
pub fn reverse_lookup(i: u8) -> (a: u8)
    ensures
        a == antilog(i as int),
{
    reveal(antilog);
    ANTILOG_TABLE[i as usize]
}

/// The logarithm of `a` to base alpha.
pub fn lookup(a: u8) -> (i: u8)
    ensures
        i == log(a as int),
{
    reveal(log);
    LOG_TABLE[a as usize]
}

/// The logarithm and the power functions are inverse to each other on the
/// nonzero elements: `alpha^log(a) == a` for every `a != 0`.
pub proof fn lemma_antilog_of_log(a: u8)
    requires
        a != 0,
    ensures
        log(a as int) < 255,
        antilog(log(a as int) as int) == a,
{
    reveal(antilog);
    reveal(log);
}

/// Every power of alpha below the 255th is nonzero and has its exponent as
/// its logarithm.
pub proof fn lemma_log_of_antilog(i: u8)
    requires
        i < 255,
    ensures
        antilog(i as int) != 0,
        log(antilog(i as int) as int) == i,
{
    reveal(antilog);
    reveal(log);
}

/// The powers of alpha start at one and come back to one after 255 steps.
pub proof fn lemma_antilog_ends()
    ensures
        antilog(0) == 1,
        antilog(255) == 1,
        log(1) == 0,
{
    reveal(antilog);
    reveal(log);
}

/// What `times_alpha` gives on each power of alpha, in the order of the
/// exponents.
proof fn lemma_times_alpha_values()
    by (bit_vector)
    ensures
        times_alpha(1) == 2 && times_alpha(2) == 4 && times_alpha(4) == 8 && times_alpha(8) == 16
        && times_alpha(16) == 32 && times_alpha(32) == 64 && times_alpha(64) == 128 && times_alpha(128) == 29
        && times_alpha(29) == 58 && times_alpha(58) == 116 && times_alpha(116) == 232 && times_alpha(232) == 205
        && times_alpha(205) == 135 && times_alpha(135) == 19 && times_alpha(19) == 38 && times_alpha(38) == 76
        && times_alpha(76) == 152 && times_alpha(152) == 45 && times_alpha(45) == 90 && times_alpha(90) == 180
        && times_alpha(180) == 117 && times_alpha(117) == 234 && times_alpha(234) == 201 && times_alpha(201) == 143
        && times_alpha(143) == 3 && times_alpha(3) == 6 && times_alpha(6) == 12 && times_alpha(12) == 24
        && times_alpha(24) == 48 && times_alpha(48) == 96 && times_alpha(96) == 192 && times_alpha(192) == 157
        && times_alpha(157) == 39 && times_alpha(39) == 78 && times_alpha(78) == 156 && times_alpha(156) == 37
        && times_alpha(37) == 74 && times_alpha(74) == 148 && times_alpha(148) == 53 && times_alpha(53) == 106
        && times_alpha(106) == 212 && times_alpha(212) == 181 && times_alpha(181) == 119 && times_alpha(119) == 238
        && times_alpha(238) == 193 && times_alpha(193) == 159 && times_alpha(159) == 35 && times_alpha(35) == 70
        && times_alpha(70) == 140 && times_alpha(140) == 5 && times_alpha(5) == 10 && times_alpha(10) == 20
        && times_alpha(20) == 40 && times_alpha(40) == 80 && times_alpha(80) == 160 && times_alpha(160) == 93
        && times_alpha(93) == 186 && times_alpha(186) == 105 && times_alpha(105) == 210 && times_alpha(210) == 185
        && times_alpha(185) == 111 && times_alpha(111) == 222 && times_alpha(222) == 161 && times_alpha(161) == 95
        && times_alpha(95) == 190 && times_alpha(190) == 97 && times_alpha(97) == 194 && times_alpha(194) == 153
        && times_alpha(153) == 47 && times_alpha(47) == 94 && times_alpha(94) == 188 && times_alpha(188) == 101
        && times_alpha(101) == 202 && times_alpha(202) == 137 && times_alpha(137) == 15 && times_alpha(15) == 30
        && times_alpha(30) == 60 && times_alpha(60) == 120 && times_alpha(120) == 240 && times_alpha(240) == 253
        && times_alpha(253) == 231 && times_alpha(231) == 211 && times_alpha(211) == 187 && times_alpha(187) == 107
        && times_alpha(107) == 214 && times_alpha(214) == 177 && times_alpha(177) == 127 && times_alpha(127) == 254
        && times_alpha(254) == 225 && times_alpha(225) == 223 && times_alpha(223) == 163 && times_alpha(163) == 91
        && times_alpha(91) == 182 && times_alpha(182) == 113 && times_alpha(113) == 226 && times_alpha(226) == 217
        && times_alpha(217) == 175 && times_alpha(175) == 67 && times_alpha(67) == 134 && times_alpha(134) == 17
        && times_alpha(17) == 34 && times_alpha(34) == 68 && times_alpha(68) == 136 && times_alpha(136) == 13
        && times_alpha(13) == 26 && times_alpha(26) == 52 && times_alpha(52) == 104 && times_alpha(104) == 208
        && times_alpha(208) == 189 && times_alpha(189) == 103 && times_alpha(103) == 206 && times_alpha(206) == 129
        && times_alpha(129) == 31 && times_alpha(31) == 62 && times_alpha(62) == 124 && times_alpha(124) == 248
        && times_alpha(248) == 237 && times_alpha(237) == 199 && times_alpha(199) == 147 && times_alpha(147) == 59
        && times_alpha(59) == 118 && times_alpha(118) == 236 && times_alpha(236) == 197 && times_alpha(197) == 151
        && times_alpha(151) == 51 && times_alpha(51) == 102 && times_alpha(102) == 204 && times_alpha(204) == 133
        && times_alpha(133) == 23 && times_alpha(23) == 46 && times_alpha(46) == 92 && times_alpha(92) == 184
        && times_alpha(184) == 109 && times_alpha(109) == 218 && times_alpha(218) == 169 && times_alpha(169) == 79
        && times_alpha(79) == 158 && times_alpha(158) == 33 && times_alpha(33) == 66 && times_alpha(66) == 132
        && times_alpha(132) == 21 && times_alpha(21) == 42 && times_alpha(42) == 84 && times_alpha(84) == 168
        && times_alpha(168) == 77 && times_alpha(77) == 154 && times_alpha(154) == 41 && times_alpha(41) == 82
        && times_alpha(82) == 164 && times_alpha(164) == 85 && times_alpha(85) == 170 && times_alpha(170) == 73
        && times_alpha(73) == 146 && times_alpha(146) == 57 && times_alpha(57) == 114 && times_alpha(114) == 228
        && times_alpha(228) == 213 && times_alpha(213) == 183 && times_alpha(183) == 115 && times_alpha(115) == 230
        && times_alpha(230) == 209 && times_alpha(209) == 191 && times_alpha(191) == 99 && times_alpha(99) == 198
        && times_alpha(198) == 145 && times_alpha(145) == 63 && times_alpha(63) == 126 && times_alpha(126) == 252
        && times_alpha(252) == 229 && times_alpha(229) == 215 && times_alpha(215) == 179 && times_alpha(179) == 123
        && times_alpha(123) == 246 && times_alpha(246) == 241 && times_alpha(241) == 255 && times_alpha(255) == 227
        && times_alpha(227) == 219 && times_alpha(219) == 171 && times_alpha(171) == 75 && times_alpha(75) == 150
        && times_alpha(150) == 49 && times_alpha(49) == 98 && times_alpha(98) == 196 && times_alpha(196) == 149
        && times_alpha(149) == 55 && times_alpha(55) == 110 && times_alpha(110) == 220 && times_alpha(220) == 165
        && times_alpha(165) == 87 && times_alpha(87) == 174 && times_alpha(174) == 65 && times_alpha(65) == 130
        && times_alpha(130) == 25 && times_alpha(25) == 50 && times_alpha(50) == 100 && times_alpha(100) == 200
        && times_alpha(200) == 141 && times_alpha(141) == 7 && times_alpha(7) == 14 && times_alpha(14) == 28
        && times_alpha(28) == 56 && times_alpha(56) == 112 && times_alpha(112) == 224 && times_alpha(224) == 221
        && times_alpha(221) == 167 && times_alpha(167) == 83 && times_alpha(83) == 166 && times_alpha(166) == 81
        && times_alpha(81) == 162 && times_alpha(162) == 89 && times_alpha(89) == 178 && times_alpha(178) == 121
        && times_alpha(121) == 242 && times_alpha(242) == 249 && times_alpha(249) == 239 && times_alpha(239) == 195
        && times_alpha(195) == 155 && times_alpha(155) == 43 && times_alpha(43) == 86 && times_alpha(86) == 172
        && times_alpha(172) == 69 && times_alpha(69) == 138 && times_alpha(138) == 9 && times_alpha(9) == 18
        && times_alpha(18) == 36 && times_alpha(36) == 72 && times_alpha(72) == 144 && times_alpha(144) == 61
        && times_alpha(61) == 122 && times_alpha(122) == 244 && times_alpha(244) == 245 && times_alpha(245) == 247
        && times_alpha(247) == 243 && times_alpha(243) == 251 && times_alpha(251) == 235 && times_alpha(235) == 203
        && times_alpha(203) == 139 && times_alpha(139) == 11 && times_alpha(11) == 22 && times_alpha(22) == 44
        && times_alpha(44) == 88 && times_alpha(88) == 176 && times_alpha(176) == 125 && times_alpha(125) == 250
        && times_alpha(250) == 233 && times_alpha(233) == 207 && times_alpha(207) == 131 && times_alpha(131) == 27
        && times_alpha(27) == 54 && times_alpha(54) == 108 && times_alpha(108) == 216 && times_alpha(216) == 173
        && times_alpha(173) == 71 && times_alpha(71) == 142 && times_alpha(142) == 1,
{
}

/// The table of powers is generated by the primitive element: each entry is
/// the one before it, multiplied by alpha.
pub proof fn lemma_antilog_step(i: u8)
    requires
        i < 255,
    ensures
        antilog(i + 1) == times_alpha(antilog(i as int)),
{
    reveal(antilog);
    lemma_times_alpha_values();
}

/// The product of two field elements, through the logarithm tables.
pub fn multiply(a: u8, b: u8) -> (c: u8)
    ensures
        c == product(a, b),
{
    reveal(product);
    if a == 0 || b == 0 {
        return 0;
    }
    let sum: usize = lookup(a) as usize + lookup(b) as usize;
    reverse_lookup((sum % 255) as u8)
}

/// Zero annihilates every element.
pub proof fn lemma_product_zero(a: u8)
    ensures
        product(a, 0) == 0,
        product(0, a) == 0,
{
    reveal(product);
}

/// One is neutral.
pub proof fn lemma_product_one(a: u8)
    ensures
        product(a, 1) == a,
        product(1, a) == a,
{
    reveal(product);
    lemma_antilog_ends();
    if a != 0 {
        lemma_antilog_of_log(a);
        let l = log(a as int) as int;
        assert((l + 0) % 255 == l);
        assert((0 + l) % 255 == l);
    }
}

/// The product does not depend on the order of its factors.
pub proof fn lemma_product_commutes(a: u8, b: u8)
    ensures
        product(a, b) == product(b, a),
{
    reveal(product);
}

/// The product of nonzero elements is nonzero.
pub proof fn lemma_product_nonzero(a: u8, b: u8)
    requires
        a != 0,
        b != 0,
    ensures
        product(a, b) != 0,
{
    reveal(product);
    let e = (log(a as int) + log(b as int)) % 255;
    lemma_log_of_antilog(e as u8);
}

} // verus!
