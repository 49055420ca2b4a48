//! What holds of the twiddle factors: their size, their meaning as powers
//! of a root of unity, and which of them undo each other.
use vstd::prelude::*;
use crate::reduce::centered;
use crate::twiddle::{bit_reverse, inverse_twiddles, partner, root_power, zeta};

verus! {

/// Every twiddle is at most 1659 in absolute value.
pub proof fn lemma_zeta_bound(k: int)
    requires
        0 <= k < 128,
    ensures
        -1659 <= zeta(k) <= 1659,
{
}

/// The powers of 17 modulo `Q`, up to the 128th.
spec fn root_power_table(e: nat) -> int {
    if e == 0 { 1 }
    else if e == 1 { 17 }
    else if e == 2 { 289 }
    else if e == 3 { 1584 }
    else if e == 4 { 296 }
    else if e == 5 { 1703 }
    else if e == 6 { 2319 }
    else if e == 7 { 2804 }
    else if e == 8 { 1062 }
    else if e == 9 { 1409 }
    else if e == 10 { 650 }
    else if e == 11 { 1063 }
    else if e == 12 { 1426 }
    else if e == 13 { 939 }
    else if e == 14 { 2647 }
    else if e == 15 { 1722 }
    else if e == 16 { 2642 }
    else if e == 17 { 1637 }
    else if e == 18 { 1197 }
    else if e == 19 { 375 }
    else if e == 20 { 3046 }
    else if e == 21 { 1847 }
    else if e == 22 { 1438 }
    else if e == 23 { 1143 }
    else if e == 24 { 2786 }
    else if e == 25 { 756 }
    else if e == 26 { 2865 }
    else if e == 27 { 2099 }
    else if e == 28 { 2393 }
    else if e == 29 { 733 }
    else if e == 30 { 2474 }
    else if e == 31 { 2110 }
    else if e == 32 { 2580 }
    else if e == 33 { 583 }
    else if e == 34 { 3253 }
    else if e == 35 { 2037 }
    else if e == 36 { 1339 }
    else if e == 37 { 2789 }
    else if e == 38 { 807 }
    else if e == 39 { 403 }
    else if e == 40 { 193 }
    else if e == 41 { 3281 }
    else if e == 42 { 2513 }
    else if e == 43 { 2773 }
    else if e == 44 { 535 }
    else if e == 45 { 2437 }
    else if e == 46 { 1481 }
    else if e == 47 { 1874 }
    else if e == 48 { 1897 }
    else if e == 49 { 2288 }
    else if e == 50 { 2277 }
    else if e == 51 { 2090 }
    else if e == 52 { 2240 }
    else if e == 53 { 1461 }
    else if e == 54 { 1534 }
    else if e == 55 { 2775 }
    else if e == 56 { 569 }
    else if e == 57 { 3015 }
    else if e == 58 { 1320 }
    else if e == 59 { 2466 }
    else if e == 60 { 1974 }
    else if e == 61 { 268 }
    else if e == 62 { 1227 }
    else if e == 63 { 885 }
    else if e == 64 { 1729 }
    else if e == 65 { 2761 }
    else if e == 66 { 331 }
    else if e == 67 { 2298 }
    else if e == 68 { 2447 }
    else if e == 69 { 1651 }
    else if e == 70 { 1435 }
    else if e == 71 { 1092 }
    else if e == 72 { 1919 }
    else if e == 73 { 2662 }
    else if e == 74 { 1977 }
    else if e == 75 { 319 }
    else if e == 76 { 2094 }
    else if e == 77 { 2308 }
    else if e == 78 { 2617 }
    else if e == 79 { 1212 }
    else if e == 80 { 630 }
    else if e == 81 { 723 }
    else if e == 82 { 2304 }
    else if e == 83 { 2549 }
    else if e == 84 { 56 }
    else if e == 85 { 952 }
    else if e == 86 { 2868 }
    else if e == 87 { 2150 }
    else if e == 88 { 3260 }
    else if e == 89 { 2156 }
    else if e == 90 { 33 }
    else if e == 91 { 561 }
    else if e == 92 { 2879 }
    else if e == 93 { 2337 }
    else if e == 94 { 3110 }
    else if e == 95 { 2935 }
    else if e == 96 { 3289 }
    else if e == 97 { 2649 }
    else if e == 98 { 1756 }
    else if e == 99 { 3220 }
    else if e == 100 { 1476 }
    else if e == 101 { 1789 }
    else if e == 102 { 452 }
    else if e == 103 { 1026 }
    else if e == 104 { 797 }
    else if e == 105 { 233 }
    else if e == 106 { 632 }
    else if e == 107 { 757 }
    else if e == 108 { 2882 }
    else if e == 109 { 2388 }
    else if e == 110 { 648 }
    else if e == 111 { 1029 }
    else if e == 112 { 848 }
    else if e == 113 { 1100 }
    else if e == 114 { 2055 }
    else if e == 115 { 1645 }
    else if e == 116 { 1333 }
    else if e == 117 { 2687 }
    else if e == 118 { 2402 }
    else if e == 119 { 886 }
    else if e == 120 { 1746 }
    else if e == 121 { 3050 }
    else if e == 122 { 1915 }
    else if e == 123 { 2594 }
    else if e == 124 { 821 }
    else if e == 125 { 641 }
    else if e == 126 { 910 }
    else if e == 127 { 2154 }
    else { 3328 }
}

proof fn lemma_root_power_table(e: nat)
    requires
        e <= 128,
    ensures
        root_power(e) == root_power_table(e),
    decreases e,
{
    if e > 0 {
        lemma_root_power_table((e - 1) as nat);
    }
}

/// 17 is a primitive 256th root of unity modulo `Q`: its 128th power is -1.
pub proof fn lemma_root_of_unity()
    ensures
        root_power(128) == 3329 - 1,
{
    lemma_root_power_table(128);
}

/// What the table holds: twiddle `k` is the centered representative of
/// `17^brv(k) * 2^16` modulo `Q`, where `brv` reverses the seven bits of `k`.
pub proof fn lemma_zeta_is_root_power(k: int)
    requires
        0 <= k < 128,
    ensures
        zeta(k) == centered(0x1_0000 * root_power(bit_reverse(k) as nat)),
{
    lemma_root_power_table(bit_reverse(k) as nat);
}

proof fn lemma_twiddle_partner_low(k: int)
    requires
        1 <= k < 32,
    ensures
        inverse_twiddles(zeta(k), zeta(partner(k))),
{
    let a = zeta(k);
    let b = zeta(partner(k));
    if k == 1 {
        assert(inverse_twiddles(a, b)) by (nonlinear_arith)
            requires a == -758, b == -758;
    } else if k == 2 {
        assert(inverse_twiddles(a, b)) by (nonlinear_arith)
            requires a == -359, b == -1517;
    } else if k == 3 {
        assert(inverse_twiddles(a, b)) by (nonlinear_arith)
            requires a == -1517, b == -359;
    } else if k == 4 {
        assert(inverse_twiddles(a, b)) by (nonlinear_arith)
            requires a == 1493, b == 202;
    } else if k == 5 {
        assert(inverse_twiddles(a, b)) by (nonlinear_arith)
            requires a == 1422, b == 287;
    } else if k == 6 {
        assert(inverse_twiddles(a, b)) by (nonlinear_arith)
            requires a == 287, b == 1422;
    } else if k == 7 {
        assert(inverse_twiddles(a, b)) by (nonlinear_arith)
            requires a == 202, b == 1493;
    } else if k == 8 {
        assert(inverse_twiddles(a, b)) by (nonlinear_arith)
            requires a == -171, b == 1468;
    } else if k == 9 {
        assert(inverse_twiddles(a, b)) by (nonlinear_arith)
            requires a == 622, b == -1474;
    } else if k == 10 {
        assert(inverse_twiddles(a, b)) by (nonlinear_arith)
            requires a == 1577, b == -1202;
    } else if k == 11 {
        assert(inverse_twiddles(a, b)) by (nonlinear_arith)
            requires a == 182, b == 962;
    } else if k == 12 {
        assert(inverse_twiddles(a, b)) by (nonlinear_arith)
            requires a == 962, b == 182;
    } else if k == 13 {
        assert(inverse_twiddles(a, b)) by (nonlinear_arith)
            requires a == -1202, b == 1577;
    } else if k == 14 {
        assert(inverse_twiddles(a, b)) by (nonlinear_arith)
            requires a == -1474, b == 622;
    } else if k == 15 {
        assert(inverse_twiddles(a, b)) by (nonlinear_arith)
            requires a == 1468, b == -171;
    } else if k == 16 {
        assert(inverse_twiddles(a, b)) by (nonlinear_arith)
            requires a == 573, b == -1571;
    } else if k == 17 {
        assert(inverse_twiddles(a, b)) by (nonlinear_arith)
            requires a == -1325, b == -205;
    } else if k == 18 {
        assert(inverse_twiddles(a, b)) by (nonlinear_arith)
            requires a == 264, b == 411;
    } else if k == 19 {
        assert(inverse_twiddles(a, b)) by (nonlinear_arith)
            requires a == 383, b == -1542;
    } else if k == 20 {
        assert(inverse_twiddles(a, b)) by (nonlinear_arith)
            requires a == -829, b == 608;
    } else if k == 21 {
        assert(inverse_twiddles(a, b)) by (nonlinear_arith)
            requires a == 1458, b == 732;
    } else if k == 22 {
        assert(inverse_twiddles(a, b)) by (nonlinear_arith)
            requires a == -1602, b == 1017;
    } else if k == 23 {
        assert(inverse_twiddles(a, b)) by (nonlinear_arith)
            requires a == -130, b == -681;
    } else if k == 24 {
        assert(inverse_twiddles(a, b)) by (nonlinear_arith)
            requires a == -681, b == -130;
    } else if k == 25 {
        assert(inverse_twiddles(a, b)) by (nonlinear_arith)
            requires a == 1017, b == -1602;
    } else if k == 26 {
        assert(inverse_twiddles(a, b)) by (nonlinear_arith)
            requires a == 732, b == 1458;
    } else if k == 27 {
        assert(inverse_twiddles(a, b)) by (nonlinear_arith)
            requires a == 608, b == -829;
    } else if k == 28 {
        assert(inverse_twiddles(a, b)) by (nonlinear_arith)
            requires a == -1542, b == 383;
    } else if k == 29 {
        assert(inverse_twiddles(a, b)) by (nonlinear_arith)
            requires a == 411, b == 264;
    } else if k == 30 {
        assert(inverse_twiddles(a, b)) by (nonlinear_arith)
            requires a == -205, b == -1325;
    } else if k == 31 {
        assert(inverse_twiddles(a, b)) by (nonlinear_arith)
            requires a == -1571, b == 573;
    }
}

proof fn lemma_twiddle_partner_mid(k: int)
    requires
        32 <= k < 64,
    ensures
        inverse_twiddles(zeta(k), zeta(partner(k))),
{
    let a = zeta(k);
    let b = zeta(partner(k));
    if k == 32 {
        assert(inverse_twiddles(a, b)) by (nonlinear_arith)
            requires a == 1223, b == -1275;
    } else if k == 33 {
        assert(inverse_twiddles(a, b)) by (nonlinear_arith)
            requires a == 652, b == 677;
    } else if k == 34 {
        assert(inverse_twiddles(a, b)) by (nonlinear_arith)
            requires a == -552, b == -1065;
    } else if k == 35 {
        assert(inverse_twiddles(a, b)) by (nonlinear_arith)
            requires a == 1015, b == 448;
    } else if k == 36 {
        assert(inverse_twiddles(a, b)) by (nonlinear_arith)
            requires a == -1293, b == -725;
    } else if k == 37 {
        assert(inverse_twiddles(a, b)) by (nonlinear_arith)
            requires a == 1491, b == -1508;
    } else if k == 38 {
        assert(inverse_twiddles(a, b)) by (nonlinear_arith)
            requires a == -282, b == 961;
    } else if k == 39 {
        assert(inverse_twiddles(a, b)) by (nonlinear_arith)
            requires a == -1544, b == -398;
    } else if k == 40 {
        assert(inverse_twiddles(a, b)) by (nonlinear_arith)
            requires a == 516, b == -951;
    } else if k == 41 {
        assert(inverse_twiddles(a, b)) by (nonlinear_arith)
            requires a == -8, b == -247;
    } else if k == 42 {
        assert(inverse_twiddles(a, b)) by (nonlinear_arith)
            requires a == -320, b == -1421;
    } else if k == 43 {
        assert(inverse_twiddles(a, b)) by (nonlinear_arith)
            requires a == -666, b == 107;
    } else if k == 44 {
        assert(inverse_twiddles(a, b)) by (nonlinear_arith)
            requires a == -1618, b == 830;
    } else if k == 45 {
        assert(inverse_twiddles(a, b)) by (nonlinear_arith)
            requires a == -1162, b == -271;
    } else if k == 46 {
        assert(inverse_twiddles(a, b)) by (nonlinear_arith)
            requires a == 126, b == -90;
    } else if k == 47 {
        assert(inverse_twiddles(a, b)) by (nonlinear_arith)
            requires a == 1469, b == -853;
    } else if k == 48 {
        assert(inverse_twiddles(a, b)) by (nonlinear_arith)
            requires a == -853, b == 1469;
    } else if k == 49 {
        assert(inverse_twiddles(a, b)) by (nonlinear_arith)
            requires a == -90, b == 126;
    } else if k == 50 {
        assert(inverse_twiddles(a, b)) by (nonlinear_arith)
            requires a == -271, b == -1162;
    } else if k == 51 {
        assert(inverse_twiddles(a, b)) by (nonlinear_arith)
            requires a == 830, b == -1618;
    } else if k == 52 {
        assert(inverse_twiddles(a, b)) by (nonlinear_arith)
            requires a == 107, b == -666;
    } else if k == 53 {
        assert(inverse_twiddles(a, b)) by (nonlinear_arith)
            requires a == -1421, b == -320;
    } else if k == 54 {
        assert(inverse_twiddles(a, b)) by (nonlinear_arith)
            requires a == -247, b == -8;
    } else if k == 55 {
        assert(inverse_twiddles(a, b)) by (nonlinear_arith)
            requires a == -951, b == 516;
    } else if k == 56 {
        assert(inverse_twiddles(a, b)) by (nonlinear_arith)
            requires a == -398, b == -1544;
    } else if k == 57 {
        assert(inverse_twiddles(a, b)) by (nonlinear_arith)
            requires a == 961, b == -282;
    } else if k == 58 {
        assert(inverse_twiddles(a, b)) by (nonlinear_arith)
            requires a == -1508, b == 1491;
    } else if k == 59 {
        assert(inverse_twiddles(a, b)) by (nonlinear_arith)
            requires a == -725, b == -1293;
    } else if k == 60 {
        assert(inverse_twiddles(a, b)) by (nonlinear_arith)
            requires a == 448, b == 1015;
    } else if k == 61 {
        assert(inverse_twiddles(a, b)) by (nonlinear_arith)
            requires a == -1065, b == -552;
    } else if k == 62 {
        assert(inverse_twiddles(a, b)) by (nonlinear_arith)
            requires a == 677, b == 652;
    } else if k == 63 {
        assert(inverse_twiddles(a, b)) by (nonlinear_arith)
            requires a == -1275, b == 1223;
    }
}

proof fn lemma_twiddle_partner_high(k: int)
    requires
        64 <= k < 96,
    ensures
        inverse_twiddles(zeta(k), zeta(partner(k))),
{
    let a = zeta(k);
    let b = zeta(partner(k));
    if k == 64 {
        assert(inverse_twiddles(a, b)) by (nonlinear_arith)
            requires a == -1103, b == 1628;
    } else if k == 65 {
        assert(inverse_twiddles(a, b)) by (nonlinear_arith)
            requires a == 430, b == 1522;
    } else if k == 66 {
        assert(inverse_twiddles(a, b)) by (nonlinear_arith)
            requires a == 555, b == -1460;
    } else if k == 67 {
        assert(inverse_twiddles(a, b)) by (nonlinear_arith)
            requires a == 843, b == 958;
    } else if k == 68 {
        assert(inverse_twiddles(a, b)) by (nonlinear_arith)
            requires a == -1251, b == 991;
    } else if k == 69 {
        assert(inverse_twiddles(a, b)) by (nonlinear_arith)
            requires a == 871, b == 996;
    } else if k == 70 {
        assert(inverse_twiddles(a, b)) by (nonlinear_arith)
            requires a == 1550, b == -308;
    } else if k == 71 {
        assert(inverse_twiddles(a, b)) by (nonlinear_arith)
            requires a == 105, b == -108;
    } else if k == 72 {
        assert(inverse_twiddles(a, b)) by (nonlinear_arith)
            requires a == 422, b == 478;
    } else if k == 73 {
        assert(inverse_twiddles(a, b)) by (nonlinear_arith)
            requires a == 587, b == -870;
    } else if k == 74 {
        assert(inverse_twiddles(a, b)) by (nonlinear_arith)
            requires a == 177, b == -854;
    } else if k == 75 {
        assert(inverse_twiddles(a, b)) by (nonlinear_arith)
            requires a == -235, b == -1510;
    } else if k == 76 {
        assert(inverse_twiddles(a, b)) by (nonlinear_arith)
            requires a == -291, b == 794;
    } else if k == 77 {
        assert(inverse_twiddles(a, b)) by (nonlinear_arith)
            requires a == -460, b == -1278;
    } else if k == 78 {
        assert(inverse_twiddles(a, b)) by (nonlinear_arith)
            requires a == 1574, b == -1530;
    } else if k == 79 {
        assert(inverse_twiddles(a, b)) by (nonlinear_arith)
            requires a == 1653, b == -1185;
    } else if k == 80 {
        assert(inverse_twiddles(a, b)) by (nonlinear_arith)
            requires a == -246, b == -1659;
    } else if k == 81 {
        assert(inverse_twiddles(a, b)) by (nonlinear_arith)
            requires a == 778, b == -1187;
    } else if k == 82 {
        assert(inverse_twiddles(a, b)) by (nonlinear_arith)
            requires a == 1159, b == 220;
    } else if k == 83 {
        assert(inverse_twiddles(a, b)) by (nonlinear_arith)
            requires a == -147, b == -874;
    } else if k == 84 {
        assert(inverse_twiddles(a, b)) by (nonlinear_arith)
            requires a == -777, b == -1335;
    } else if k == 85 {
        assert(inverse_twiddles(a, b)) by (nonlinear_arith)
            requires a == 1483, b == 1218;
    } else if k == 86 {
        assert(inverse_twiddles(a, b)) by (nonlinear_arith)
            requires a == -602, b == -136;
    } else if k == 87 {
        assert(inverse_twiddles(a, b)) by (nonlinear_arith)
            requires a == 1119, b == -1215;
    } else if k == 88 {
        assert(inverse_twiddles(a, b)) by (nonlinear_arith)
            requires a == -1590, b == 384;
    } else if k == 89 {
        assert(inverse_twiddles(a, b)) by (nonlinear_arith)
            requires a == 644, b == -1465;
    } else if k == 90 {
        assert(inverse_twiddles(a, b)) by (nonlinear_arith)
            requires a == -872, b == -1285;
    } else if k == 91 {
        assert(inverse_twiddles(a, b)) by (nonlinear_arith)
            requires a == 349, b == 1322;
    } else if k == 92 {
        assert(inverse_twiddles(a, b)) by (nonlinear_arith)
            requires a == 418, b == 610;
    } else if k == 93 {
        assert(inverse_twiddles(a, b)) by (nonlinear_arith)
            requires a == 329, b == 603;
    } else if k == 94 {
        assert(inverse_twiddles(a, b)) by (nonlinear_arith)
            requires a == -156, b == 1097;
    } else if k == 95 {
        assert(inverse_twiddles(a, b)) by (nonlinear_arith)
            requires a == -75, b == 817;
    }
}

proof fn lemma_twiddle_partner_top(k: int)
    requires
        96 <= k < 128,
    ensures
        inverse_twiddles(zeta(k), zeta(partner(k))),
{
    let a = zeta(k);
    let b = zeta(partner(k));
    if k == 96 {
        assert(inverse_twiddles(a, b)) by (nonlinear_arith)
            requires a == 817, b == -75;
    } else if k == 97 {
        assert(inverse_twiddles(a, b)) by (nonlinear_arith)
            requires a == 1097, b == -156;
    } else if k == 98 {
        assert(inverse_twiddles(a, b)) by (nonlinear_arith)
            requires a == 603, b == 329;
    } else if k == 99 {
        assert(inverse_twiddles(a, b)) by (nonlinear_arith)
            requires a == 610, b == 418;
    } else if k == 100 {
        assert(inverse_twiddles(a, b)) by (nonlinear_arith)
            requires a == 1322, b == 349;
    } else if k == 101 {
        assert(inverse_twiddles(a, b)) by (nonlinear_arith)
            requires a == -1285, b == -872;
    } else if k == 102 {
        assert(inverse_twiddles(a, b)) by (nonlinear_arith)
            requires a == -1465, b == 644;
    } else if k == 103 {
        assert(inverse_twiddles(a, b)) by (nonlinear_arith)
            requires a == 384, b == -1590;
    } else if k == 104 {
        assert(inverse_twiddles(a, b)) by (nonlinear_arith)
            requires a == -1215, b == 1119;
    } else if k == 105 {
        assert(inverse_twiddles(a, b)) by (nonlinear_arith)
            requires a == -136, b == -602;
    } else if k == 106 {
        assert(inverse_twiddles(a, b)) by (nonlinear_arith)
            requires a == 1218, b == 1483;
    } else if k == 107 {
        assert(inverse_twiddles(a, b)) by (nonlinear_arith)
            requires a == -1335, b == -777;
    } else if k == 108 {
        assert(inverse_twiddles(a, b)) by (nonlinear_arith)
            requires a == -874, b == -147;
    } else if k == 109 {
        assert(inverse_twiddles(a, b)) by (nonlinear_arith)
            requires a == 220, b == 1159;
    } else if k == 110 {
        assert(inverse_twiddles(a, b)) by (nonlinear_arith)
            requires a == -1187, b == 778;
    } else if k == 111 {
        assert(inverse_twiddles(a, b)) by (nonlinear_arith)
            requires a == -1659, b == -246;
    } else if k == 112 {
        assert(inverse_twiddles(a, b)) by (nonlinear_arith)
            requires a == -1185, b == 1653;
    } else if k == 113 {
        assert(inverse_twiddles(a, b)) by (nonlinear_arith)
            requires a == -1530, b == 1574;
    } else if k == 114 {
        assert(inverse_twiddles(a, b)) by (nonlinear_arith)
            requires a == -1278, b == -460;
    } else if k == 115 {
        assert(inverse_twiddles(a, b)) by (nonlinear_arith)
            requires a == 794, b == -291;
    } else if k == 116 {
        assert(inverse_twiddles(a, b)) by (nonlinear_arith)
            requires a == -1510, b == -235;
    } else if k == 117 {
        assert(inverse_twiddles(a, b)) by (nonlinear_arith)
            requires a == -854, b == 177;
    } else if k == 118 {
        assert(inverse_twiddles(a, b)) by (nonlinear_arith)
            requires a == -870, b == 587;
    } else if k == 119 {
        assert(inverse_twiddles(a, b)) by (nonlinear_arith)
            requires a == 478, b == 422;
    } else if k == 120 {
        assert(inverse_twiddles(a, b)) by (nonlinear_arith)
            requires a == -108, b == 105;
    } else if k == 121 {
        assert(inverse_twiddles(a, b)) by (nonlinear_arith)
            requires a == -308, b == 1550;
    } else if k == 122 {
        assert(inverse_twiddles(a, b)) by (nonlinear_arith)
            requires a == 996, b == 871;
    } else if k == 123 {
        assert(inverse_twiddles(a, b)) by (nonlinear_arith)
            requires a == 991, b == -1251;
    } else if k == 124 {
        assert(inverse_twiddles(a, b)) by (nonlinear_arith)
            requires a == 958, b == 843;
    } else if k == 125 {
        assert(inverse_twiddles(a, b)) by (nonlinear_arith)
            requires a == -1460, b == 555;
    } else if k == 126 {
        assert(inverse_twiddles(a, b)) by (nonlinear_arith)
            requires a == 1522, b == 430;
    } else if k == 127 {
        assert(inverse_twiddles(a, b)) by (nonlinear_arith)
            requires a == 1628, b == -1103;
    }
}

/// The twiddle of a forward butterfly and the twiddle of the inverse
/// butterfly on the same pair of coefficients undo each other.
pub proof fn lemma_twiddle_partner(k: int)
    requires
        1 <= k < 128,
    ensures
        inverse_twiddles(zeta(k), zeta(partner(k))),
{
    if k < 32 {
        lemma_twiddle_partner_low(k);
    } else if k < 64 {
        lemma_twiddle_partner_mid(k);
    } else if k < 96 {
        lemma_twiddle_partner_high(k);
    } else {
        lemma_twiddle_partner_top(k);
    }
}

} // verus!
