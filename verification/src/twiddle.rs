//! The table of twiddle factors.
use vstd::prelude::*;

verus! {

/// Twiddle factor `k`: `17^brv(k) * 2^16` modulo `Q`, centered, where `brv`
/// reverses the seven bits of `k` and 17 is a primitive 256th root of unity.
pub open spec fn zeta(k: int) -> int {
    if k == 0 { -1044 }
    else if k == 1 { -758 }
    else if k == 2 { -359 }
    else if k == 3 { -1517 }
    else if k == 4 { 1493 }
    else if k == 5 { 1422 }
    else if k == 6 { 287 }
    else if k == 7 { 202 }
    else if k == 8 { -171 }
    else if k == 9 { 622 }
    else if k == 10 { 1577 }
    else if k == 11 { 182 }
    else if k == 12 { 962 }
    else if k == 13 { -1202 }
    else if k == 14 { -1474 }
    else if k == 15 { 1468 }
    else if k == 16 { 573 }
    else if k == 17 { -1325 }
    else if k == 18 { 264 }
    else if k == 19 { 383 }
    else if k == 20 { -829 }
    else if k == 21 { 1458 }
    else if k == 22 { -1602 }
    else if k == 23 { -130 }
    else if k == 24 { -681 }
    else if k == 25 { 1017 }
    else if k == 26 { 732 }
    else if k == 27 { 608 }
    else if k == 28 { -1542 }
    else if k == 29 { 411 }
    else if k == 30 { -205 }
    else if k == 31 { -1571 }
    else if k == 32 { 1223 }
    else if k == 33 { 652 }
    else if k == 34 { -552 }
    else if k == 35 { 1015 }
    else if k == 36 { -1293 }
    else if k == 37 { 1491 }
    else if k == 38 { -282 }
    else if k == 39 { -1544 }
    else if k == 40 { 516 }
    else if k == 41 { -8 }
    else if k == 42 { -320 }
    else if k == 43 { -666 }
    else if k == 44 { -1618 }
    else if k == 45 { -1162 }
    else if k == 46 { 126 }
    else if k == 47 { 1469 }
    else if k == 48 { -853 }
    else if k == 49 { -90 }
    else if k == 50 { -271 }
    else if k == 51 { 830 }
    else if k == 52 { 107 }
    else if k == 53 { -1421 }
    else if k == 54 { -247 }
    else if k == 55 { -951 }
    else if k == 56 { -398 }
    else if k == 57 { 961 }
    else if k == 58 { -1508 }
    else if k == 59 { -725 }
    else if k == 60 { 448 }
    else if k == 61 { -1065 }
    else if k == 62 { 677 }
    else if k == 63 { -1275 }
    else if k == 64 { -1103 }
    else if k == 65 { 430 }
    else if k == 66 { 555 }
    else if k == 67 { 843 }
    else if k == 68 { -1251 }
    else if k == 69 { 871 }
    else if k == 70 { 1550 }
    else if k == 71 { 105 }
    else if k == 72 { 422 }
    else if k == 73 { 587 }
    else if k == 74 { 177 }
    else if k == 75 { -235 }
    else if k == 76 { -291 }
    else if k == 77 { -460 }
    else if k == 78 { 1574 }
    else if k == 79 { 1653 }
    else if k == 80 { -246 }
    else if k == 81 { 778 }
    else if k == 82 { 1159 }
    else if k == 83 { -147 }
    else if k == 84 { -777 }
    else if k == 85 { 1483 }
    else if k == 86 { -602 }
    else if k == 87 { 1119 }
    else if k == 88 { -1590 }
    else if k == 89 { 644 }
    else if k == 90 { -872 }
    else if k == 91 { 349 }
    else if k == 92 { 418 }
    else if k == 93 { 329 }
    else if k == 94 { -156 }
    else if k == 95 { -75 }
    else if k == 96 { 817 }
    else if k == 97 { 1097 }
    else if k == 98 { 603 }
    else if k == 99 { 610 }
    else if k == 100 { 1322 }
    else if k == 101 { -1285 }
    else if k == 102 { -1465 }
    else if k == 103 { 384 }
    else if k == 104 { -1215 }
    else if k == 105 { -136 }
    else if k == 106 { 1218 }
    else if k == 107 { -1335 }
    else if k == 108 { -874 }
    else if k == 109 { 220 }
    else if k == 110 { -1187 }
    else if k == 111 { -1659 }
    else if k == 112 { -1185 }
    else if k == 113 { -1530 }
    else if k == 114 { -1278 }
    else if k == 115 { 794 }
    else if k == 116 { -1510 }
    else if k == 117 { -854 }
    else if k == 118 { -870 }
    else if k == 119 { 478 }
    else if k == 120 { -108 }
    else if k == 121 { -308 }
    else if k == 122 { 996 }
    else if k == 123 { 991 }
    else if k == 124 { 958 }
    else if k == 125 { -1460 }
    else if k == 126 { 1522 }
    else { 1628 }
}

/// The table of the 128 twiddle factors.
pub fn assume_init_are_valid_twiddles_impl() -> (t: [i16; 128])
    ensures
        forall|k: int| 0 <= k < 128 ==> #[trigger] t[k] == zeta(k),
{
    [
        -1044, -758, -359, -1517, 1493, 1422, 287, 202,
        -171, 622, 1577, 182, 962, -1202, -1474, 1468,
        573, -1325, 264, 383, -829, 1458, -1602, -130,
        -681, 1017, 732, 608, -1542, 411, -205, -1571,
        1223, 652, -552, 1015, -1293, 1491, -282, -1544,
        516, -8, -320, -666, -1618, -1162, 126, 1469,
        -853, -90, -271, 830, 107, -1421, -247, -951,
        -398, 961, -1508, -725, 448, -1065, 677, -1275,
        -1103, 430, 555, 843, -1251, 871, 1550, 105,
        422, 587, 177, -235, -291, -460, 1574, 1653,
        -246, 778, 1159, -147, -777, 1483, -602, 1119,
        -1590, 644, -872, 349, 418, 329, -156, -75,
        817, 1097, 603, 610, 1322, -1285, -1465, 384,
        -1215, -136, 1218, -1335, -874, 220, -1187, -1659,
        -1185, -1530, -1278, 794, -1510, -854, -870, 478,
        -108, -308, 996, 991, 958, -1460, 1522, 1628,
    ]
}

/// `17^e` modulo `Q`; 17 is a primitive 256th root of unity modulo `Q`.
pub open spec fn root_power(e: nat) -> int
    decreases e,
{
    if e == 0 {
        1
    } else {
        (17 * root_power((e - 1) as nat)) % 3329
    }
}

/// The seven bits of `k` in reverse order.
pub open spec fn bit_reverse(k: int) -> int {
    64 * (k % 2) + 32 * (k / 2 % 2) + 16 * (k / 4 % 2) + 8 * (k / 8 % 2) + 4 * (k / 16 % 2)
        + 2 * (k / 32 % 2) + k / 64 % 2
}

/// Whether two twiddles undo each other: as Montgomery factors, their
/// product is -1 modulo `Q` (169 is the inverse of 2^16 modulo `Q`).
pub open spec fn inverse_twiddles(a: int, b: int) -> bool {
    (169 * 169 * (a * b) + 1) % 3329 == 0
}

/// The index of the twiddle that the inverse transform uses where the
/// forward transform used twiddle `k`: within the layer that starts at the
/// power of two `h <= k < 2h`, the indices run in opposite directions.
pub open spec fn partner(k: int) -> int {
    if k < 2 {
        2 - k
    } else if k < 4 {
        5 - k
    } else if k < 8 {
        11 - k
    } else if k < 16 {
        23 - k
    } else if k < 32 {
        47 - k
    } else if k < 64 {
        95 - k
    } else {
        191 - k
    }
}

} // verus!
