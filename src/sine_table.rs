use vstd::prelude::*;

verus! {

/// `round(2048 * sin(i * pi / 512))` for `i` in `0..=256`: a quarter wave.
pub open spec fn quarter_sine_table() -> Seq<u16> {
    seq![
        0, 13, 25, 38, 50, 63, 75, 88, 100, 113, 126, 138, 151, 163, 176, 188,
        201, 213, 226, 238, 251, 263, 276, 288, 301, 313, 325, 338, 350, 363, 375, 387,
        400, 412, 424, 436, 449, 461, 473, 485, 498, 510, 522, 534, 546, 558, 570, 582,
        595, 607, 619, 630, 642, 654, 666, 678, 690, 702, 714, 725, 737, 749, 760, 772,
        784, 795, 807, 818, 830, 841, 853, 864, 876, 887, 898, 910, 921, 932, 943, 954,
        965, 976, 988, 999, 1009, 1020, 1031, 1042, 1053, 1064, 1074, 1085, 1096, 1106, 1117, 1127,
        1138, 1148, 1159, 1169, 1179, 1190, 1200, 1210, 1220, 1230, 1240, 1250, 1260, 1270, 1280, 1289,
        1299, 1309, 1319, 1328, 1338, 1347, 1357, 1366, 1375, 1385, 1394, 1403, 1412, 1421, 1430, 1439,
        1448, 1457, 1466, 1475, 1483, 1492, 1500, 1509, 1517, 1526, 1534, 1543, 1551, 1559, 1567, 1575,
        1583, 1591, 1599, 1607, 1615, 1622, 1630, 1637, 1645, 1652, 1660, 1667, 1674, 1682, 1689, 1696,
        1703, 1710, 1717, 1724, 1730, 1737, 1744, 1750, 1757, 1763, 1769, 1776, 1782, 1788, 1794, 1800,
        1806, 1812, 1818, 1824, 1829, 1835, 1840, 1846, 1851, 1857, 1862, 1867, 1872, 1877, 1882, 1887,
        1892, 1897, 1902, 1906, 1911, 1915, 1920, 1924, 1928, 1932, 1937, 1941, 1945, 1949, 1952, 1956,
        1960, 1963, 1967, 1970, 1974, 1977, 1980, 1984, 1987, 1990, 1993, 1995, 1998, 2001, 2004, 2006,
        2009, 2011, 2013, 2016, 2018, 2020, 2022, 2024, 2026, 2028, 2029, 2031, 2033, 2034, 2036, 2037,
        2038, 2039, 2040, 2041, 2042, 2043, 2044, 2045, 2046, 2046, 2047, 2047, 2047, 2048, 2048, 2048,
        2048,
    ]
}

/// A quarter-wave entry of the sine table.
pub(crate) fn quarter_sine(i: usize) -> (r: i64)
    requires
        i <= 256,
    ensures
        r == quarter_sine_table()[i as int],
        0 <= r < 65536,
{
    let table: [u16; 257] = [
        0, 13, 25, 38, 50, 63, 75, 88, 100, 113, 126, 138, 151, 163, 176, 188,
        201, 213, 226, 238, 251, 263, 276, 288, 301, 313, 325, 338, 350, 363, 375, 387,
        400, 412, 424, 436, 449, 461, 473, 485, 498, 510, 522, 534, 546, 558, 570, 582,
        595, 607, 619, 630, 642, 654, 666, 678, 690, 702, 714, 725, 737, 749, 760, 772,
        784, 795, 807, 818, 830, 841, 853, 864, 876, 887, 898, 910, 921, 932, 943, 954,
        965, 976, 988, 999, 1009, 1020, 1031, 1042, 1053, 1064, 1074, 1085, 1096, 1106, 1117, 1127,
        1138, 1148, 1159, 1169, 1179, 1190, 1200, 1210, 1220, 1230, 1240, 1250, 1260, 1270, 1280, 1289,
        1299, 1309, 1319, 1328, 1338, 1347, 1357, 1366, 1375, 1385, 1394, 1403, 1412, 1421, 1430, 1439,
        1448, 1457, 1466, 1475, 1483, 1492, 1500, 1509, 1517, 1526, 1534, 1543, 1551, 1559, 1567, 1575,
        1583, 1591, 1599, 1607, 1615, 1622, 1630, 1637, 1645, 1652, 1660, 1667, 1674, 1682, 1689, 1696,
        1703, 1710, 1717, 1724, 1730, 1737, 1744, 1750, 1757, 1763, 1769, 1776, 1782, 1788, 1794, 1800,
        1806, 1812, 1818, 1824, 1829, 1835, 1840, 1846, 1851, 1857, 1862, 1867, 1872, 1877, 1882, 1887,
        1892, 1897, 1902, 1906, 1911, 1915, 1920, 1924, 1928, 1932, 1937, 1941, 1945, 1949, 1952, 1956,
        1960, 1963, 1967, 1970, 1974, 1977, 1980, 1984, 1987, 1990, 1993, 1995, 1998, 2001, 2004, 2006,
        2009, 2011, 2013, 2016, 2018, 2020, 2022, 2024, 2026, 2028, 2029, 2031, 2033, 2034, 2036, 2037,
        2038, 2039, 2040, 2041, 2042, 2043, 2044, 2045, 2046, 2046, 2047, 2047, 2047, 2048, 2048, 2048,
        2048,
    ];
    proof {
        assert(table@ =~= quarter_sine_table());
    }
    table[i] as i64
}

/// Entries `r` and `256 - r` of the quarter wave form a vector of length
/// 2048 to within `TABLE_SLACK` in the square.
pub open spec fn table_pair_close(r: int) -> bool {
    pair_close(quarter_sine_table()[r] as int, quarter_sine_table()[256 - r] as int)
}

/// `(a, b)` has length 2048 to within `TABLE_SLACK` in the square.
pub open spec fn pair_close(a: int, b: int) -> bool {
    2048 * 2048 - TABLE_SLACK <= a * a + b * b <= 2048 * 2048 + TABLE_SLACK
}

/// Squared-length slack of the sine table, in table units.
pub const TABLE_SLACK: i64 = 2400;

/// Every pair of the quarter wave is close to unit length, checked entry by
/// entry.
#[verifier::rlimit(100)]
pub proof fn lemma_table_close(r: int)
    requires
        0 <= r <= 256,
    ensures
        table_pair_close(r),
{
    if r == 0 {
        assert(table_pair_close(0)) by { assert(quarter_sine_table()[0] == 0 && quarter_sine_table()[256] == 2048 && pair_close(0, 2048)); }
    } else if r == 1 {
        assert(table_pair_close(1)) by { assert(quarter_sine_table()[1] == 13 && quarter_sine_table()[255] == 2048 && pair_close(13, 2048)); }
    } else if r == 2 {
        assert(table_pair_close(2)) by { assert(quarter_sine_table()[2] == 25 && quarter_sine_table()[254] == 2048 && pair_close(25, 2048)); }
    } else if r == 3 {
        assert(table_pair_close(3)) by { assert(quarter_sine_table()[3] == 38 && quarter_sine_table()[253] == 2048 && pair_close(38, 2048)); }
    } else if r == 4 {
        assert(table_pair_close(4)) by { assert(quarter_sine_table()[4] == 50 && quarter_sine_table()[252] == 2047 && pair_close(50, 2047)); }
    } else if r == 5 {
        assert(table_pair_close(5)) by { assert(quarter_sine_table()[5] == 63 && quarter_sine_table()[251] == 2047 && pair_close(63, 2047)); }
    } else if r == 6 {
        assert(table_pair_close(6)) by { assert(quarter_sine_table()[6] == 75 && quarter_sine_table()[250] == 2047 && pair_close(75, 2047)); }
    } else if r == 7 {
        assert(table_pair_close(7)) by { assert(quarter_sine_table()[7] == 88 && quarter_sine_table()[249] == 2046 && pair_close(88, 2046)); }
    } else if r == 8 {
        assert(table_pair_close(8)) by { assert(quarter_sine_table()[8] == 100 && quarter_sine_table()[248] == 2046 && pair_close(100, 2046)); }
    } else if r == 9 {
        assert(table_pair_close(9)) by { assert(quarter_sine_table()[9] == 113 && quarter_sine_table()[247] == 2045 && pair_close(113, 2045)); }
    } else if r == 10 {
        assert(table_pair_close(10)) by { assert(quarter_sine_table()[10] == 126 && quarter_sine_table()[246] == 2044 && pair_close(126, 2044)); }
    } else if r == 11 {
        assert(table_pair_close(11)) by { assert(quarter_sine_table()[11] == 138 && quarter_sine_table()[245] == 2043 && pair_close(138, 2043)); }
    } else if r == 12 {
        assert(table_pair_close(12)) by { assert(quarter_sine_table()[12] == 151 && quarter_sine_table()[244] == 2042 && pair_close(151, 2042)); }
    } else if r == 13 {
        assert(table_pair_close(13)) by { assert(quarter_sine_table()[13] == 163 && quarter_sine_table()[243] == 2041 && pair_close(163, 2041)); }
    } else if r == 14 {
        assert(table_pair_close(14)) by { assert(quarter_sine_table()[14] == 176 && quarter_sine_table()[242] == 2040 && pair_close(176, 2040)); }
    } else if r == 15 {
        assert(table_pair_close(15)) by { assert(quarter_sine_table()[15] == 188 && quarter_sine_table()[241] == 2039 && pair_close(188, 2039)); }
    } else if r == 16 {
        assert(table_pair_close(16)) by { assert(quarter_sine_table()[16] == 201 && quarter_sine_table()[240] == 2038 && pair_close(201, 2038)); }
    } else if r == 17 {
        assert(table_pair_close(17)) by { assert(quarter_sine_table()[17] == 213 && quarter_sine_table()[239] == 2037 && pair_close(213, 2037)); }
    } else if r == 18 {
        assert(table_pair_close(18)) by { assert(quarter_sine_table()[18] == 226 && quarter_sine_table()[238] == 2036 && pair_close(226, 2036)); }
    } else if r == 19 {
        assert(table_pair_close(19)) by { assert(quarter_sine_table()[19] == 238 && quarter_sine_table()[237] == 2034 && pair_close(238, 2034)); }
    } else if r == 20 {
        assert(table_pair_close(20)) by { assert(quarter_sine_table()[20] == 251 && quarter_sine_table()[236] == 2033 && pair_close(251, 2033)); }
    } else if r == 21 {
        assert(table_pair_close(21)) by { assert(quarter_sine_table()[21] == 263 && quarter_sine_table()[235] == 2031 && pair_close(263, 2031)); }
    } else if r == 22 {
        assert(table_pair_close(22)) by { assert(quarter_sine_table()[22] == 276 && quarter_sine_table()[234] == 2029 && pair_close(276, 2029)); }
    } else if r == 23 {
        assert(table_pair_close(23)) by { assert(quarter_sine_table()[23] == 288 && quarter_sine_table()[233] == 2028 && pair_close(288, 2028)); }
    } else if r == 24 {
        assert(table_pair_close(24)) by { assert(quarter_sine_table()[24] == 301 && quarter_sine_table()[232] == 2026 && pair_close(301, 2026)); }
    } else if r == 25 {
        assert(table_pair_close(25)) by { assert(quarter_sine_table()[25] == 313 && quarter_sine_table()[231] == 2024 && pair_close(313, 2024)); }
    } else if r == 26 {
        assert(table_pair_close(26)) by { assert(quarter_sine_table()[26] == 325 && quarter_sine_table()[230] == 2022 && pair_close(325, 2022)); }
    } else if r == 27 {
        assert(table_pair_close(27)) by { assert(quarter_sine_table()[27] == 338 && quarter_sine_table()[229] == 2020 && pair_close(338, 2020)); }
    } else if r == 28 {
        assert(table_pair_close(28)) by { assert(quarter_sine_table()[28] == 350 && quarter_sine_table()[228] == 2018 && pair_close(350, 2018)); }
    } else if r == 29 {
        assert(table_pair_close(29)) by { assert(quarter_sine_table()[29] == 363 && quarter_sine_table()[227] == 2016 && pair_close(363, 2016)); }
    } else if r == 30 {
        assert(table_pair_close(30)) by { assert(quarter_sine_table()[30] == 375 && quarter_sine_table()[226] == 2013 && pair_close(375, 2013)); }
    } else if r == 31 {
        assert(table_pair_close(31)) by { assert(quarter_sine_table()[31] == 387 && quarter_sine_table()[225] == 2011 && pair_close(387, 2011)); }
    } else if r == 32 {
        assert(table_pair_close(32)) by { assert(quarter_sine_table()[32] == 400 && quarter_sine_table()[224] == 2009 && pair_close(400, 2009)); }
    } else if r == 33 {
        assert(table_pair_close(33)) by { assert(quarter_sine_table()[33] == 412 && quarter_sine_table()[223] == 2006 && pair_close(412, 2006)); }
    } else if r == 34 {
        assert(table_pair_close(34)) by { assert(quarter_sine_table()[34] == 424 && quarter_sine_table()[222] == 2004 && pair_close(424, 2004)); }
    } else if r == 35 {
        assert(table_pair_close(35)) by { assert(quarter_sine_table()[35] == 436 && quarter_sine_table()[221] == 2001 && pair_close(436, 2001)); }
    } else if r == 36 {
        assert(table_pair_close(36)) by { assert(quarter_sine_table()[36] == 449 && quarter_sine_table()[220] == 1998 && pair_close(449, 1998)); }
    } else if r == 37 {
        assert(table_pair_close(37)) by { assert(quarter_sine_table()[37] == 461 && quarter_sine_table()[219] == 1995 && pair_close(461, 1995)); }
    } else if r == 38 {
        assert(table_pair_close(38)) by { assert(quarter_sine_table()[38] == 473 && quarter_sine_table()[218] == 1993 && pair_close(473, 1993)); }
    } else if r == 39 {
        assert(table_pair_close(39)) by { assert(quarter_sine_table()[39] == 485 && quarter_sine_table()[217] == 1990 && pair_close(485, 1990)); }
    } else if r == 40 {
        assert(table_pair_close(40)) by { assert(quarter_sine_table()[40] == 498 && quarter_sine_table()[216] == 1987 && pair_close(498, 1987)); }
    } else if r == 41 {
        assert(table_pair_close(41)) by { assert(quarter_sine_table()[41] == 510 && quarter_sine_table()[215] == 1984 && pair_close(510, 1984)); }
    } else if r == 42 {
        assert(table_pair_close(42)) by { assert(quarter_sine_table()[42] == 522 && quarter_sine_table()[214] == 1980 && pair_close(522, 1980)); }
    } else if r == 43 {
        assert(table_pair_close(43)) by { assert(quarter_sine_table()[43] == 534 && quarter_sine_table()[213] == 1977 && pair_close(534, 1977)); }
    } else if r == 44 {
        assert(table_pair_close(44)) by { assert(quarter_sine_table()[44] == 546 && quarter_sine_table()[212] == 1974 && pair_close(546, 1974)); }
    } else if r == 45 {
        assert(table_pair_close(45)) by { assert(quarter_sine_table()[45] == 558 && quarter_sine_table()[211] == 1970 && pair_close(558, 1970)); }
    } else if r == 46 {
        assert(table_pair_close(46)) by { assert(quarter_sine_table()[46] == 570 && quarter_sine_table()[210] == 1967 && pair_close(570, 1967)); }
    } else if r == 47 {
        assert(table_pair_close(47)) by { assert(quarter_sine_table()[47] == 582 && quarter_sine_table()[209] == 1963 && pair_close(582, 1963)); }
    } else if r == 48 {
        assert(table_pair_close(48)) by { assert(quarter_sine_table()[48] == 595 && quarter_sine_table()[208] == 1960 && pair_close(595, 1960)); }
    } else if r == 49 {
        assert(table_pair_close(49)) by { assert(quarter_sine_table()[49] == 607 && quarter_sine_table()[207] == 1956 && pair_close(607, 1956)); }
    } else if r == 50 {
        assert(table_pair_close(50)) by { assert(quarter_sine_table()[50] == 619 && quarter_sine_table()[206] == 1952 && pair_close(619, 1952)); }
    } else if r == 51 {
        assert(table_pair_close(51)) by { assert(quarter_sine_table()[51] == 630 && quarter_sine_table()[205] == 1949 && pair_close(630, 1949)); }
    } else if r == 52 {
        assert(table_pair_close(52)) by { assert(quarter_sine_table()[52] == 642 && quarter_sine_table()[204] == 1945 && pair_close(642, 1945)); }
    } else if r == 53 {
        assert(table_pair_close(53)) by { assert(quarter_sine_table()[53] == 654 && quarter_sine_table()[203] == 1941 && pair_close(654, 1941)); }
    } else if r == 54 {
        assert(table_pair_close(54)) by { assert(quarter_sine_table()[54] == 666 && quarter_sine_table()[202] == 1937 && pair_close(666, 1937)); }
    } else if r == 55 {
        assert(table_pair_close(55)) by { assert(quarter_sine_table()[55] == 678 && quarter_sine_table()[201] == 1932 && pair_close(678, 1932)); }
    } else if r == 56 {
        assert(table_pair_close(56)) by { assert(quarter_sine_table()[56] == 690 && quarter_sine_table()[200] == 1928 && pair_close(690, 1928)); }
    } else if r == 57 {
        assert(table_pair_close(57)) by { assert(quarter_sine_table()[57] == 702 && quarter_sine_table()[199] == 1924 && pair_close(702, 1924)); }
    } else if r == 58 {
        assert(table_pair_close(58)) by { assert(quarter_sine_table()[58] == 714 && quarter_sine_table()[198] == 1920 && pair_close(714, 1920)); }
    } else if r == 59 {
        assert(table_pair_close(59)) by { assert(quarter_sine_table()[59] == 725 && quarter_sine_table()[197] == 1915 && pair_close(725, 1915)); }
    } else if r == 60 {
        assert(table_pair_close(60)) by { assert(quarter_sine_table()[60] == 737 && quarter_sine_table()[196] == 1911 && pair_close(737, 1911)); }
    } else if r == 61 {
        assert(table_pair_close(61)) by { assert(quarter_sine_table()[61] == 749 && quarter_sine_table()[195] == 1906 && pair_close(749, 1906)); }
    } else if r == 62 {
        assert(table_pair_close(62)) by { assert(quarter_sine_table()[62] == 760 && quarter_sine_table()[194] == 1902 && pair_close(760, 1902)); }
    } else if r == 63 {
        assert(table_pair_close(63)) by { assert(quarter_sine_table()[63] == 772 && quarter_sine_table()[193] == 1897 && pair_close(772, 1897)); }
    } else if r == 64 {
        assert(table_pair_close(64)) by { assert(quarter_sine_table()[64] == 784 && quarter_sine_table()[192] == 1892 && pair_close(784, 1892)); }
    } else if r == 65 {
        assert(table_pair_close(65)) by { assert(quarter_sine_table()[65] == 795 && quarter_sine_table()[191] == 1887 && pair_close(795, 1887)); }
    } else if r == 66 {
        assert(table_pair_close(66)) by { assert(quarter_sine_table()[66] == 807 && quarter_sine_table()[190] == 1882 && pair_close(807, 1882)); }
    } else if r == 67 {
        assert(table_pair_close(67)) by { assert(quarter_sine_table()[67] == 818 && quarter_sine_table()[189] == 1877 && pair_close(818, 1877)); }
    } else if r == 68 {
        assert(table_pair_close(68)) by { assert(quarter_sine_table()[68] == 830 && quarter_sine_table()[188] == 1872 && pair_close(830, 1872)); }
    } else if r == 69 {
        assert(table_pair_close(69)) by { assert(quarter_sine_table()[69] == 841 && quarter_sine_table()[187] == 1867 && pair_close(841, 1867)); }
    } else if r == 70 {
        assert(table_pair_close(70)) by { assert(quarter_sine_table()[70] == 853 && quarter_sine_table()[186] == 1862 && pair_close(853, 1862)); }
    } else if r == 71 {
        assert(table_pair_close(71)) by { assert(quarter_sine_table()[71] == 864 && quarter_sine_table()[185] == 1857 && pair_close(864, 1857)); }
    } else if r == 72 {
        assert(table_pair_close(72)) by { assert(quarter_sine_table()[72] == 876 && quarter_sine_table()[184] == 1851 && pair_close(876, 1851)); }
    } else if r == 73 {
        assert(table_pair_close(73)) by { assert(quarter_sine_table()[73] == 887 && quarter_sine_table()[183] == 1846 && pair_close(887, 1846)); }
    } else if r == 74 {
        assert(table_pair_close(74)) by { assert(quarter_sine_table()[74] == 898 && quarter_sine_table()[182] == 1840 && pair_close(898, 1840)); }
    } else if r == 75 {
        assert(table_pair_close(75)) by { assert(quarter_sine_table()[75] == 910 && quarter_sine_table()[181] == 1835 && pair_close(910, 1835)); }
    } else if r == 76 {
        assert(table_pair_close(76)) by { assert(quarter_sine_table()[76] == 921 && quarter_sine_table()[180] == 1829 && pair_close(921, 1829)); }
    } else if r == 77 {
        assert(table_pair_close(77)) by { assert(quarter_sine_table()[77] == 932 && quarter_sine_table()[179] == 1824 && pair_close(932, 1824)); }
    } else if r == 78 {
        assert(table_pair_close(78)) by { assert(quarter_sine_table()[78] == 943 && quarter_sine_table()[178] == 1818 && pair_close(943, 1818)); }
    } else if r == 79 {
        assert(table_pair_close(79)) by { assert(quarter_sine_table()[79] == 954 && quarter_sine_table()[177] == 1812 && pair_close(954, 1812)); }
    } else if r == 80 {
        assert(table_pair_close(80)) by { assert(quarter_sine_table()[80] == 965 && quarter_sine_table()[176] == 1806 && pair_close(965, 1806)); }
    } else if r == 81 {
        assert(table_pair_close(81)) by { assert(quarter_sine_table()[81] == 976 && quarter_sine_table()[175] == 1800 && pair_close(976, 1800)); }
    } else if r == 82 {
        assert(table_pair_close(82)) by { assert(quarter_sine_table()[82] == 988 && quarter_sine_table()[174] == 1794 && pair_close(988, 1794)); }
    } else if r == 83 {
        assert(table_pair_close(83)) by { assert(quarter_sine_table()[83] == 999 && quarter_sine_table()[173] == 1788 && pair_close(999, 1788)); }
    } else if r == 84 {
        assert(table_pair_close(84)) by { assert(quarter_sine_table()[84] == 1009 && quarter_sine_table()[172] == 1782 && pair_close(1009, 1782)); }
    } else if r == 85 {
        assert(table_pair_close(85)) by { assert(quarter_sine_table()[85] == 1020 && quarter_sine_table()[171] == 1776 && pair_close(1020, 1776)); }
    } else if r == 86 {
        assert(table_pair_close(86)) by { assert(quarter_sine_table()[86] == 1031 && quarter_sine_table()[170] == 1769 && pair_close(1031, 1769)); }
    } else if r == 87 {
        assert(table_pair_close(87)) by { assert(quarter_sine_table()[87] == 1042 && quarter_sine_table()[169] == 1763 && pair_close(1042, 1763)); }
    } else if r == 88 {
        assert(table_pair_close(88)) by { assert(quarter_sine_table()[88] == 1053 && quarter_sine_table()[168] == 1757 && pair_close(1053, 1757)); }
    } else if r == 89 {
        assert(table_pair_close(89)) by { assert(quarter_sine_table()[89] == 1064 && quarter_sine_table()[167] == 1750 && pair_close(1064, 1750)); }
    } else if r == 90 {
        assert(table_pair_close(90)) by { assert(quarter_sine_table()[90] == 1074 && quarter_sine_table()[166] == 1744 && pair_close(1074, 1744)); }
    } else if r == 91 {
        assert(table_pair_close(91)) by { assert(quarter_sine_table()[91] == 1085 && quarter_sine_table()[165] == 1737 && pair_close(1085, 1737)); }
    } else if r == 92 {
        assert(table_pair_close(92)) by { assert(quarter_sine_table()[92] == 1096 && quarter_sine_table()[164] == 1730 && pair_close(1096, 1730)); }
    } else if r == 93 {
        assert(table_pair_close(93)) by { assert(quarter_sine_table()[93] == 1106 && quarter_sine_table()[163] == 1724 && pair_close(1106, 1724)); }
    } else if r == 94 {
        assert(table_pair_close(94)) by { assert(quarter_sine_table()[94] == 1117 && quarter_sine_table()[162] == 1717 && pair_close(1117, 1717)); }
    } else if r == 95 {
        assert(table_pair_close(95)) by { assert(quarter_sine_table()[95] == 1127 && quarter_sine_table()[161] == 1710 && pair_close(1127, 1710)); }
    } else if r == 96 {
        assert(table_pair_close(96)) by { assert(quarter_sine_table()[96] == 1138 && quarter_sine_table()[160] == 1703 && pair_close(1138, 1703)); }
    } else if r == 97 {
        assert(table_pair_close(97)) by { assert(quarter_sine_table()[97] == 1148 && quarter_sine_table()[159] == 1696 && pair_close(1148, 1696)); }
    } else if r == 98 {
        assert(table_pair_close(98)) by { assert(quarter_sine_table()[98] == 1159 && quarter_sine_table()[158] == 1689 && pair_close(1159, 1689)); }
    } else if r == 99 {
        assert(table_pair_close(99)) by { assert(quarter_sine_table()[99] == 1169 && quarter_sine_table()[157] == 1682 && pair_close(1169, 1682)); }
    } else if r == 100 {
        assert(table_pair_close(100)) by { assert(quarter_sine_table()[100] == 1179 && quarter_sine_table()[156] == 1674 && pair_close(1179, 1674)); }
    } else if r == 101 {
        assert(table_pair_close(101)) by { assert(quarter_sine_table()[101] == 1190 && quarter_sine_table()[155] == 1667 && pair_close(1190, 1667)); }
    } else if r == 102 {
        assert(table_pair_close(102)) by { assert(quarter_sine_table()[102] == 1200 && quarter_sine_table()[154] == 1660 && pair_close(1200, 1660)); }
    } else if r == 103 {
        assert(table_pair_close(103)) by { assert(quarter_sine_table()[103] == 1210 && quarter_sine_table()[153] == 1652 && pair_close(1210, 1652)); }
    } else if r == 104 {
        assert(table_pair_close(104)) by { assert(quarter_sine_table()[104] == 1220 && quarter_sine_table()[152] == 1645 && pair_close(1220, 1645)); }
    } else if r == 105 {
        assert(table_pair_close(105)) by { assert(quarter_sine_table()[105] == 1230 && quarter_sine_table()[151] == 1637 && pair_close(1230, 1637)); }
    } else if r == 106 {
        assert(table_pair_close(106)) by { assert(quarter_sine_table()[106] == 1240 && quarter_sine_table()[150] == 1630 && pair_close(1240, 1630)); }
    } else if r == 107 {
        assert(table_pair_close(107)) by { assert(quarter_sine_table()[107] == 1250 && quarter_sine_table()[149] == 1622 && pair_close(1250, 1622)); }
    } else if r == 108 {
        assert(table_pair_close(108)) by { assert(quarter_sine_table()[108] == 1260 && quarter_sine_table()[148] == 1615 && pair_close(1260, 1615)); }
    } else if r == 109 {
        assert(table_pair_close(109)) by { assert(quarter_sine_table()[109] == 1270 && quarter_sine_table()[147] == 1607 && pair_close(1270, 1607)); }
    } else if r == 110 {
        assert(table_pair_close(110)) by { assert(quarter_sine_table()[110] == 1280 && quarter_sine_table()[146] == 1599 && pair_close(1280, 1599)); }
    } else if r == 111 {
        assert(table_pair_close(111)) by { assert(quarter_sine_table()[111] == 1289 && quarter_sine_table()[145] == 1591 && pair_close(1289, 1591)); }
    } else if r == 112 {
        assert(table_pair_close(112)) by { assert(quarter_sine_table()[112] == 1299 && quarter_sine_table()[144] == 1583 && pair_close(1299, 1583)); }
    } else if r == 113 {
        assert(table_pair_close(113)) by { assert(quarter_sine_table()[113] == 1309 && quarter_sine_table()[143] == 1575 && pair_close(1309, 1575)); }
    } else if r == 114 {
        assert(table_pair_close(114)) by { assert(quarter_sine_table()[114] == 1319 && quarter_sine_table()[142] == 1567 && pair_close(1319, 1567)); }
    } else if r == 115 {
        assert(table_pair_close(115)) by { assert(quarter_sine_table()[115] == 1328 && quarter_sine_table()[141] == 1559 && pair_close(1328, 1559)); }
    } else if r == 116 {
        assert(table_pair_close(116)) by { assert(quarter_sine_table()[116] == 1338 && quarter_sine_table()[140] == 1551 && pair_close(1338, 1551)); }
    } else if r == 117 {
        assert(table_pair_close(117)) by { assert(quarter_sine_table()[117] == 1347 && quarter_sine_table()[139] == 1543 && pair_close(1347, 1543)); }
    } else if r == 118 {
        assert(table_pair_close(118)) by { assert(quarter_sine_table()[118] == 1357 && quarter_sine_table()[138] == 1534 && pair_close(1357, 1534)); }
    } else if r == 119 {
        assert(table_pair_close(119)) by { assert(quarter_sine_table()[119] == 1366 && quarter_sine_table()[137] == 1526 && pair_close(1366, 1526)); }
    } else if r == 120 {
        assert(table_pair_close(120)) by { assert(quarter_sine_table()[120] == 1375 && quarter_sine_table()[136] == 1517 && pair_close(1375, 1517)); }
    } else if r == 121 {
        assert(table_pair_close(121)) by { assert(quarter_sine_table()[121] == 1385 && quarter_sine_table()[135] == 1509 && pair_close(1385, 1509)); }
    } else if r == 122 {
        assert(table_pair_close(122)) by { assert(quarter_sine_table()[122] == 1394 && quarter_sine_table()[134] == 1500 && pair_close(1394, 1500)); }
    } else if r == 123 {
        assert(table_pair_close(123)) by { assert(quarter_sine_table()[123] == 1403 && quarter_sine_table()[133] == 1492 && pair_close(1403, 1492)); }
    } else if r == 124 {
        assert(table_pair_close(124)) by { assert(quarter_sine_table()[124] == 1412 && quarter_sine_table()[132] == 1483 && pair_close(1412, 1483)); }
    } else if r == 125 {
        assert(table_pair_close(125)) by { assert(quarter_sine_table()[125] == 1421 && quarter_sine_table()[131] == 1475 && pair_close(1421, 1475)); }
    } else if r == 126 {
        assert(table_pair_close(126)) by { assert(quarter_sine_table()[126] == 1430 && quarter_sine_table()[130] == 1466 && pair_close(1430, 1466)); }
    } else if r == 127 {
        assert(table_pair_close(127)) by { assert(quarter_sine_table()[127] == 1439 && quarter_sine_table()[129] == 1457 && pair_close(1439, 1457)); }
    } else if r == 128 {
        assert(table_pair_close(128)) by { assert(quarter_sine_table()[128] == 1448 && quarter_sine_table()[128] == 1448 && pair_close(1448, 1448)); }
    } else if r == 129 {
        assert(table_pair_close(129)) by { assert(quarter_sine_table()[129] == 1457 && quarter_sine_table()[127] == 1439 && pair_close(1457, 1439)); }
    } else if r == 130 {
        assert(table_pair_close(130)) by { assert(quarter_sine_table()[130] == 1466 && quarter_sine_table()[126] == 1430 && pair_close(1466, 1430)); }
    } else if r == 131 {
        assert(table_pair_close(131)) by { assert(quarter_sine_table()[131] == 1475 && quarter_sine_table()[125] == 1421 && pair_close(1475, 1421)); }
    } else if r == 132 {
        assert(table_pair_close(132)) by { assert(quarter_sine_table()[132] == 1483 && quarter_sine_table()[124] == 1412 && pair_close(1483, 1412)); }
    } else if r == 133 {
        assert(table_pair_close(133)) by { assert(quarter_sine_table()[133] == 1492 && quarter_sine_table()[123] == 1403 && pair_close(1492, 1403)); }
    } else if r == 134 {
        assert(table_pair_close(134)) by { assert(quarter_sine_table()[134] == 1500 && quarter_sine_table()[122] == 1394 && pair_close(1500, 1394)); }
    } else if r == 135 {
        assert(table_pair_close(135)) by { assert(quarter_sine_table()[135] == 1509 && quarter_sine_table()[121] == 1385 && pair_close(1509, 1385)); }
    } else if r == 136 {
        assert(table_pair_close(136)) by { assert(quarter_sine_table()[136] == 1517 && quarter_sine_table()[120] == 1375 && pair_close(1517, 1375)); }
    } else if r == 137 {
        assert(table_pair_close(137)) by { assert(quarter_sine_table()[137] == 1526 && quarter_sine_table()[119] == 1366 && pair_close(1526, 1366)); }
    } else if r == 138 {
        assert(table_pair_close(138)) by { assert(quarter_sine_table()[138] == 1534 && quarter_sine_table()[118] == 1357 && pair_close(1534, 1357)); }
    } else if r == 139 {
        assert(table_pair_close(139)) by { assert(quarter_sine_table()[139] == 1543 && quarter_sine_table()[117] == 1347 && pair_close(1543, 1347)); }
    } else if r == 140 {
        assert(table_pair_close(140)) by { assert(quarter_sine_table()[140] == 1551 && quarter_sine_table()[116] == 1338 && pair_close(1551, 1338)); }
    } else if r == 141 {
        assert(table_pair_close(141)) by { assert(quarter_sine_table()[141] == 1559 && quarter_sine_table()[115] == 1328 && pair_close(1559, 1328)); }
    } else if r == 142 {
        assert(table_pair_close(142)) by { assert(quarter_sine_table()[142] == 1567 && quarter_sine_table()[114] == 1319 && pair_close(1567, 1319)); }
    } else if r == 143 {
        assert(table_pair_close(143)) by { assert(quarter_sine_table()[143] == 1575 && quarter_sine_table()[113] == 1309 && pair_close(1575, 1309)); }
    } else if r == 144 {
        assert(table_pair_close(144)) by { assert(quarter_sine_table()[144] == 1583 && quarter_sine_table()[112] == 1299 && pair_close(1583, 1299)); }
    } else if r == 145 {
        assert(table_pair_close(145)) by { assert(quarter_sine_table()[145] == 1591 && quarter_sine_table()[111] == 1289 && pair_close(1591, 1289)); }
    } else if r == 146 {
        assert(table_pair_close(146)) by { assert(quarter_sine_table()[146] == 1599 && quarter_sine_table()[110] == 1280 && pair_close(1599, 1280)); }
    } else if r == 147 {
        assert(table_pair_close(147)) by { assert(quarter_sine_table()[147] == 1607 && quarter_sine_table()[109] == 1270 && pair_close(1607, 1270)); }
    } else if r == 148 {
        assert(table_pair_close(148)) by { assert(quarter_sine_table()[148] == 1615 && quarter_sine_table()[108] == 1260 && pair_close(1615, 1260)); }
    } else if r == 149 {
        assert(table_pair_close(149)) by { assert(quarter_sine_table()[149] == 1622 && quarter_sine_table()[107] == 1250 && pair_close(1622, 1250)); }
    } else if r == 150 {
        assert(table_pair_close(150)) by { assert(quarter_sine_table()[150] == 1630 && quarter_sine_table()[106] == 1240 && pair_close(1630, 1240)); }
    } else if r == 151 {
        assert(table_pair_close(151)) by { assert(quarter_sine_table()[151] == 1637 && quarter_sine_table()[105] == 1230 && pair_close(1637, 1230)); }
    } else if r == 152 {
        assert(table_pair_close(152)) by { assert(quarter_sine_table()[152] == 1645 && quarter_sine_table()[104] == 1220 && pair_close(1645, 1220)); }
    } else if r == 153 {
        assert(table_pair_close(153)) by { assert(quarter_sine_table()[153] == 1652 && quarter_sine_table()[103] == 1210 && pair_close(1652, 1210)); }
    } else if r == 154 {
        assert(table_pair_close(154)) by { assert(quarter_sine_table()[154] == 1660 && quarter_sine_table()[102] == 1200 && pair_close(1660, 1200)); }
    } else if r == 155 {
        assert(table_pair_close(155)) by { assert(quarter_sine_table()[155] == 1667 && quarter_sine_table()[101] == 1190 && pair_close(1667, 1190)); }
    } else if r == 156 {
        assert(table_pair_close(156)) by { assert(quarter_sine_table()[156] == 1674 && quarter_sine_table()[100] == 1179 && pair_close(1674, 1179)); }
    } else if r == 157 {
        assert(table_pair_close(157)) by { assert(quarter_sine_table()[157] == 1682 && quarter_sine_table()[99] == 1169 && pair_close(1682, 1169)); }
    } else if r == 158 {
        assert(table_pair_close(158)) by { assert(quarter_sine_table()[158] == 1689 && quarter_sine_table()[98] == 1159 && pair_close(1689, 1159)); }
    } else if r == 159 {
        assert(table_pair_close(159)) by { assert(quarter_sine_table()[159] == 1696 && quarter_sine_table()[97] == 1148 && pair_close(1696, 1148)); }
    } else if r == 160 {
        assert(table_pair_close(160)) by { assert(quarter_sine_table()[160] == 1703 && quarter_sine_table()[96] == 1138 && pair_close(1703, 1138)); }
    } else if r == 161 {
        assert(table_pair_close(161)) by { assert(quarter_sine_table()[161] == 1710 && quarter_sine_table()[95] == 1127 && pair_close(1710, 1127)); }
    } else if r == 162 {
        assert(table_pair_close(162)) by { assert(quarter_sine_table()[162] == 1717 && quarter_sine_table()[94] == 1117 && pair_close(1717, 1117)); }
    } else if r == 163 {
        assert(table_pair_close(163)) by { assert(quarter_sine_table()[163] == 1724 && quarter_sine_table()[93] == 1106 && pair_close(1724, 1106)); }
    } else if r == 164 {
        assert(table_pair_close(164)) by { assert(quarter_sine_table()[164] == 1730 && quarter_sine_table()[92] == 1096 && pair_close(1730, 1096)); }
    } else if r == 165 {
        assert(table_pair_close(165)) by { assert(quarter_sine_table()[165] == 1737 && quarter_sine_table()[91] == 1085 && pair_close(1737, 1085)); }
    } else if r == 166 {
        assert(table_pair_close(166)) by { assert(quarter_sine_table()[166] == 1744 && quarter_sine_table()[90] == 1074 && pair_close(1744, 1074)); }
    } else if r == 167 {
        assert(table_pair_close(167)) by { assert(quarter_sine_table()[167] == 1750 && quarter_sine_table()[89] == 1064 && pair_close(1750, 1064)); }
    } else if r == 168 {
        assert(table_pair_close(168)) by { assert(quarter_sine_table()[168] == 1757 && quarter_sine_table()[88] == 1053 && pair_close(1757, 1053)); }
    } else if r == 169 {
        assert(table_pair_close(169)) by { assert(quarter_sine_table()[169] == 1763 && quarter_sine_table()[87] == 1042 && pair_close(1763, 1042)); }
    } else if r == 170 {
        assert(table_pair_close(170)) by { assert(quarter_sine_table()[170] == 1769 && quarter_sine_table()[86] == 1031 && pair_close(1769, 1031)); }
    } else if r == 171 {
        assert(table_pair_close(171)) by { assert(quarter_sine_table()[171] == 1776 && quarter_sine_table()[85] == 1020 && pair_close(1776, 1020)); }
    } else if r == 172 {
        assert(table_pair_close(172)) by { assert(quarter_sine_table()[172] == 1782 && quarter_sine_table()[84] == 1009 && pair_close(1782, 1009)); }
    } else if r == 173 {
        assert(table_pair_close(173)) by { assert(quarter_sine_table()[173] == 1788 && quarter_sine_table()[83] == 999 && pair_close(1788, 999)); }
    } else if r == 174 {
        assert(table_pair_close(174)) by { assert(quarter_sine_table()[174] == 1794 && quarter_sine_table()[82] == 988 && pair_close(1794, 988)); }
    } else if r == 175 {
        assert(table_pair_close(175)) by { assert(quarter_sine_table()[175] == 1800 && quarter_sine_table()[81] == 976 && pair_close(1800, 976)); }
    } else if r == 176 {
        assert(table_pair_close(176)) by { assert(quarter_sine_table()[176] == 1806 && quarter_sine_table()[80] == 965 && pair_close(1806, 965)); }
    } else if r == 177 {
        assert(table_pair_close(177)) by { assert(quarter_sine_table()[177] == 1812 && quarter_sine_table()[79] == 954 && pair_close(1812, 954)); }
    } else if r == 178 {
        assert(table_pair_close(178)) by { assert(quarter_sine_table()[178] == 1818 && quarter_sine_table()[78] == 943 && pair_close(1818, 943)); }
    } else if r == 179 {
        assert(table_pair_close(179)) by { assert(quarter_sine_table()[179] == 1824 && quarter_sine_table()[77] == 932 && pair_close(1824, 932)); }
    } else if r == 180 {
        assert(table_pair_close(180)) by { assert(quarter_sine_table()[180] == 1829 && quarter_sine_table()[76] == 921 && pair_close(1829, 921)); }
    } else if r == 181 {
        assert(table_pair_close(181)) by { assert(quarter_sine_table()[181] == 1835 && quarter_sine_table()[75] == 910 && pair_close(1835, 910)); }
    } else if r == 182 {
        assert(table_pair_close(182)) by { assert(quarter_sine_table()[182] == 1840 && quarter_sine_table()[74] == 898 && pair_close(1840, 898)); }
    } else if r == 183 {
        assert(table_pair_close(183)) by { assert(quarter_sine_table()[183] == 1846 && quarter_sine_table()[73] == 887 && pair_close(1846, 887)); }
    } else if r == 184 {
        assert(table_pair_close(184)) by { assert(quarter_sine_table()[184] == 1851 && quarter_sine_table()[72] == 876 && pair_close(1851, 876)); }
    } else if r == 185 {
        assert(table_pair_close(185)) by { assert(quarter_sine_table()[185] == 1857 && quarter_sine_table()[71] == 864 && pair_close(1857, 864)); }
    } else if r == 186 {
        assert(table_pair_close(186)) by { assert(quarter_sine_table()[186] == 1862 && quarter_sine_table()[70] == 853 && pair_close(1862, 853)); }
    } else if r == 187 {
        assert(table_pair_close(187)) by { assert(quarter_sine_table()[187] == 1867 && quarter_sine_table()[69] == 841 && pair_close(1867, 841)); }
    } else if r == 188 {
        assert(table_pair_close(188)) by { assert(quarter_sine_table()[188] == 1872 && quarter_sine_table()[68] == 830 && pair_close(1872, 830)); }
    } else if r == 189 {
        assert(table_pair_close(189)) by { assert(quarter_sine_table()[189] == 1877 && quarter_sine_table()[67] == 818 && pair_close(1877, 818)); }
    } else if r == 190 {
        assert(table_pair_close(190)) by { assert(quarter_sine_table()[190] == 1882 && quarter_sine_table()[66] == 807 && pair_close(1882, 807)); }
    } else if r == 191 {
        assert(table_pair_close(191)) by { assert(quarter_sine_table()[191] == 1887 && quarter_sine_table()[65] == 795 && pair_close(1887, 795)); }
    } else if r == 192 {
        assert(table_pair_close(192)) by { assert(quarter_sine_table()[192] == 1892 && quarter_sine_table()[64] == 784 && pair_close(1892, 784)); }
    } else if r == 193 {
        assert(table_pair_close(193)) by { assert(quarter_sine_table()[193] == 1897 && quarter_sine_table()[63] == 772 && pair_close(1897, 772)); }
    } else if r == 194 {
        assert(table_pair_close(194)) by { assert(quarter_sine_table()[194] == 1902 && quarter_sine_table()[62] == 760 && pair_close(1902, 760)); }
    } else if r == 195 {
        assert(table_pair_close(195)) by { assert(quarter_sine_table()[195] == 1906 && quarter_sine_table()[61] == 749 && pair_close(1906, 749)); }
    } else if r == 196 {
        assert(table_pair_close(196)) by { assert(quarter_sine_table()[196] == 1911 && quarter_sine_table()[60] == 737 && pair_close(1911, 737)); }
    } else if r == 197 {
        assert(table_pair_close(197)) by { assert(quarter_sine_table()[197] == 1915 && quarter_sine_table()[59] == 725 && pair_close(1915, 725)); }
    } else if r == 198 {
        assert(table_pair_close(198)) by { assert(quarter_sine_table()[198] == 1920 && quarter_sine_table()[58] == 714 && pair_close(1920, 714)); }
    } else if r == 199 {
        assert(table_pair_close(199)) by { assert(quarter_sine_table()[199] == 1924 && quarter_sine_table()[57] == 702 && pair_close(1924, 702)); }
    } else if r == 200 {
        assert(table_pair_close(200)) by { assert(quarter_sine_table()[200] == 1928 && quarter_sine_table()[56] == 690 && pair_close(1928, 690)); }
    } else if r == 201 {
        assert(table_pair_close(201)) by { assert(quarter_sine_table()[201] == 1932 && quarter_sine_table()[55] == 678 && pair_close(1932, 678)); }
    } else if r == 202 {
        assert(table_pair_close(202)) by { assert(quarter_sine_table()[202] == 1937 && quarter_sine_table()[54] == 666 && pair_close(1937, 666)); }
    } else if r == 203 {
        assert(table_pair_close(203)) by { assert(quarter_sine_table()[203] == 1941 && quarter_sine_table()[53] == 654 && pair_close(1941, 654)); }
    } else if r == 204 {
        assert(table_pair_close(204)) by { assert(quarter_sine_table()[204] == 1945 && quarter_sine_table()[52] == 642 && pair_close(1945, 642)); }
    } else if r == 205 {
        assert(table_pair_close(205)) by { assert(quarter_sine_table()[205] == 1949 && quarter_sine_table()[51] == 630 && pair_close(1949, 630)); }
    } else if r == 206 {
        assert(table_pair_close(206)) by { assert(quarter_sine_table()[206] == 1952 && quarter_sine_table()[50] == 619 && pair_close(1952, 619)); }
    } else if r == 207 {
        assert(table_pair_close(207)) by { assert(quarter_sine_table()[207] == 1956 && quarter_sine_table()[49] == 607 && pair_close(1956, 607)); }
    } else if r == 208 {
        assert(table_pair_close(208)) by { assert(quarter_sine_table()[208] == 1960 && quarter_sine_table()[48] == 595 && pair_close(1960, 595)); }
    } else if r == 209 {
        assert(table_pair_close(209)) by { assert(quarter_sine_table()[209] == 1963 && quarter_sine_table()[47] == 582 && pair_close(1963, 582)); }
    } else if r == 210 {
        assert(table_pair_close(210)) by { assert(quarter_sine_table()[210] == 1967 && quarter_sine_table()[46] == 570 && pair_close(1967, 570)); }
    } else if r == 211 {
        assert(table_pair_close(211)) by { assert(quarter_sine_table()[211] == 1970 && quarter_sine_table()[45] == 558 && pair_close(1970, 558)); }
    } else if r == 212 {
        assert(table_pair_close(212)) by { assert(quarter_sine_table()[212] == 1974 && quarter_sine_table()[44] == 546 && pair_close(1974, 546)); }
    } else if r == 213 {
        assert(table_pair_close(213)) by { assert(quarter_sine_table()[213] == 1977 && quarter_sine_table()[43] == 534 && pair_close(1977, 534)); }
    } else if r == 214 {
        assert(table_pair_close(214)) by { assert(quarter_sine_table()[214] == 1980 && quarter_sine_table()[42] == 522 && pair_close(1980, 522)); }
    } else if r == 215 {
        assert(table_pair_close(215)) by { assert(quarter_sine_table()[215] == 1984 && quarter_sine_table()[41] == 510 && pair_close(1984, 510)); }
    } else if r == 216 {
        assert(table_pair_close(216)) by { assert(quarter_sine_table()[216] == 1987 && quarter_sine_table()[40] == 498 && pair_close(1987, 498)); }
    } else if r == 217 {
        assert(table_pair_close(217)) by { assert(quarter_sine_table()[217] == 1990 && quarter_sine_table()[39] == 485 && pair_close(1990, 485)); }
    } else if r == 218 {
        assert(table_pair_close(218)) by { assert(quarter_sine_table()[218] == 1993 && quarter_sine_table()[38] == 473 && pair_close(1993, 473)); }
    } else if r == 219 {
        assert(table_pair_close(219)) by { assert(quarter_sine_table()[219] == 1995 && quarter_sine_table()[37] == 461 && pair_close(1995, 461)); }
    } else if r == 220 {
        assert(table_pair_close(220)) by { assert(quarter_sine_table()[220] == 1998 && quarter_sine_table()[36] == 449 && pair_close(1998, 449)); }
    } else if r == 221 {
        assert(table_pair_close(221)) by { assert(quarter_sine_table()[221] == 2001 && quarter_sine_table()[35] == 436 && pair_close(2001, 436)); }
    } else if r == 222 {
        assert(table_pair_close(222)) by { assert(quarter_sine_table()[222] == 2004 && quarter_sine_table()[34] == 424 && pair_close(2004, 424)); }
    } else if r == 223 {
        assert(table_pair_close(223)) by { assert(quarter_sine_table()[223] == 2006 && quarter_sine_table()[33] == 412 && pair_close(2006, 412)); }
    } else if r == 224 {
        assert(table_pair_close(224)) by { assert(quarter_sine_table()[224] == 2009 && quarter_sine_table()[32] == 400 && pair_close(2009, 400)); }
    } else if r == 225 {
        assert(table_pair_close(225)) by { assert(quarter_sine_table()[225] == 2011 && quarter_sine_table()[31] == 387 && pair_close(2011, 387)); }
    } else if r == 226 {
        assert(table_pair_close(226)) by { assert(quarter_sine_table()[226] == 2013 && quarter_sine_table()[30] == 375 && pair_close(2013, 375)); }
    } else if r == 227 {
        assert(table_pair_close(227)) by { assert(quarter_sine_table()[227] == 2016 && quarter_sine_table()[29] == 363 && pair_close(2016, 363)); }
    } else if r == 228 {
        assert(table_pair_close(228)) by { assert(quarter_sine_table()[228] == 2018 && quarter_sine_table()[28] == 350 && pair_close(2018, 350)); }
    } else if r == 229 {
        assert(table_pair_close(229)) by { assert(quarter_sine_table()[229] == 2020 && quarter_sine_table()[27] == 338 && pair_close(2020, 338)); }
    } else if r == 230 {
        assert(table_pair_close(230)) by { assert(quarter_sine_table()[230] == 2022 && quarter_sine_table()[26] == 325 && pair_close(2022, 325)); }
    } else if r == 231 {
        assert(table_pair_close(231)) by { assert(quarter_sine_table()[231] == 2024 && quarter_sine_table()[25] == 313 && pair_close(2024, 313)); }
    } else if r == 232 {
        assert(table_pair_close(232)) by { assert(quarter_sine_table()[232] == 2026 && quarter_sine_table()[24] == 301 && pair_close(2026, 301)); }
    } else if r == 233 {
        assert(table_pair_close(233)) by { assert(quarter_sine_table()[233] == 2028 && quarter_sine_table()[23] == 288 && pair_close(2028, 288)); }
    } else if r == 234 {
        assert(table_pair_close(234)) by { assert(quarter_sine_table()[234] == 2029 && quarter_sine_table()[22] == 276 && pair_close(2029, 276)); }
    } else if r == 235 {
        assert(table_pair_close(235)) by { assert(quarter_sine_table()[235] == 2031 && quarter_sine_table()[21] == 263 && pair_close(2031, 263)); }
    } else if r == 236 {
        assert(table_pair_close(236)) by { assert(quarter_sine_table()[236] == 2033 && quarter_sine_table()[20] == 251 && pair_close(2033, 251)); }
    } else if r == 237 {
        assert(table_pair_close(237)) by { assert(quarter_sine_table()[237] == 2034 && quarter_sine_table()[19] == 238 && pair_close(2034, 238)); }
    } else if r == 238 {
        assert(table_pair_close(238)) by { assert(quarter_sine_table()[238] == 2036 && quarter_sine_table()[18] == 226 && pair_close(2036, 226)); }
    } else if r == 239 {
        assert(table_pair_close(239)) by { assert(quarter_sine_table()[239] == 2037 && quarter_sine_table()[17] == 213 && pair_close(2037, 213)); }
    } else if r == 240 {
        assert(table_pair_close(240)) by { assert(quarter_sine_table()[240] == 2038 && quarter_sine_table()[16] == 201 && pair_close(2038, 201)); }
    } else if r == 241 {
        assert(table_pair_close(241)) by { assert(quarter_sine_table()[241] == 2039 && quarter_sine_table()[15] == 188 && pair_close(2039, 188)); }
    } else if r == 242 {
        assert(table_pair_close(242)) by { assert(quarter_sine_table()[242] == 2040 && quarter_sine_table()[14] == 176 && pair_close(2040, 176)); }
    } else if r == 243 {
        assert(table_pair_close(243)) by { assert(quarter_sine_table()[243] == 2041 && quarter_sine_table()[13] == 163 && pair_close(2041, 163)); }
    } else if r == 244 {
        assert(table_pair_close(244)) by { assert(quarter_sine_table()[244] == 2042 && quarter_sine_table()[12] == 151 && pair_close(2042, 151)); }
    } else if r == 245 {
        assert(table_pair_close(245)) by { assert(quarter_sine_table()[245] == 2043 && quarter_sine_table()[11] == 138 && pair_close(2043, 138)); }
    } else if r == 246 {
        assert(table_pair_close(246)) by { assert(quarter_sine_table()[246] == 2044 && quarter_sine_table()[10] == 126 && pair_close(2044, 126)); }
    } else if r == 247 {
        assert(table_pair_close(247)) by { assert(quarter_sine_table()[247] == 2045 && quarter_sine_table()[9] == 113 && pair_close(2045, 113)); }
    } else if r == 248 {
        assert(table_pair_close(248)) by { assert(quarter_sine_table()[248] == 2046 && quarter_sine_table()[8] == 100 && pair_close(2046, 100)); }
    } else if r == 249 {
        assert(table_pair_close(249)) by { assert(quarter_sine_table()[249] == 2046 && quarter_sine_table()[7] == 88 && pair_close(2046, 88)); }
    } else if r == 250 {
        assert(table_pair_close(250)) by { assert(quarter_sine_table()[250] == 2047 && quarter_sine_table()[6] == 75 && pair_close(2047, 75)); }
    } else if r == 251 {
        assert(table_pair_close(251)) by { assert(quarter_sine_table()[251] == 2047 && quarter_sine_table()[5] == 63 && pair_close(2047, 63)); }
    } else if r == 252 {
        assert(table_pair_close(252)) by { assert(quarter_sine_table()[252] == 2047 && quarter_sine_table()[4] == 50 && pair_close(2047, 50)); }
    } else if r == 253 {
        assert(table_pair_close(253)) by { assert(quarter_sine_table()[253] == 2048 && quarter_sine_table()[3] == 38 && pair_close(2048, 38)); }
    } else if r == 254 {
        assert(table_pair_close(254)) by { assert(quarter_sine_table()[254] == 2048 && quarter_sine_table()[2] == 25 && pair_close(2048, 25)); }
    } else if r == 255 {
        assert(table_pair_close(255)) by { assert(quarter_sine_table()[255] == 2048 && quarter_sine_table()[1] == 13 && pair_close(2048, 13)); }
    } else if r == 256 {
        assert(table_pair_close(256)) by { assert(quarter_sine_table()[256] == 2048 && quarter_sine_table()[0] == 0 && pair_close(2048, 0)); }
    }
}

} // verus!
