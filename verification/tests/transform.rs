use kyber_ntt::ntt::{invntt, ntt};
use kyber_ntt::poly::Poly;
use kyber_ntt::polyvec::{polyvec_invntt, polyvec_ntt, Polyvec};
use kyber_ntt::reduce::{barrett_reduce, montgomery_reduce};

const Q: i32 = 3329;

fn sample() -> [i16; 256] {
    [
        -423, 764, 349, 277, -695, 7, 300, -604, 1392, -147, 754, -1273,
        -1132, -1054, -10, -743, -627, -1141, 108, 318, 1581, 1294, 1484, -1616,
        49, 1532, 1245, 1257, 1590, 401, -1507, -1247, 141, 194, -266, -665,
        947, -1454, -1376, -417, 1600, 935, 1658, 432, 569, -1452, 887, 92,
        -458, -326, -462, -1399, 286, -1257, 1094, 1145, 486, 882, 428, -142,
        1389, -421, 186, 516, -489, 716, 440, -353, -1554, 528, -1518, 1033,
        -755, 973, -47, 731, -714, -1341, -1367, 89, 646, 362, 450, 739,
        -998, 108, 1171, -665, -1523, -235, -922, 34, 1422, 1016, 236, 1625,
        1080, 986, 1455, -107, 744, 1638, -650, -572, 53, 591, 1655, 1291,
        843, -83, -1225, -1623, 600, 1089, 173, 889, -258, 1584, -1330, 193,
        -906, -815, 1244, 1366, 1043, -1137, -1474, 1558, 815, 643, -117, -375,
        1175, -858, -614, 334, 1497, 1354, 654, 65, -534, -1159, 815, -708,
        -130, -759, -1577, 605, -936, -497, -766, -735, 168, 636, -719, -1648,
        881, 1307, 1493, 1264, 1348, 729, 1305, -1273, 1661, -896, -418, 104,
        -1552, 953, -678, 1240, -631, -715, -395, -1047, -1479, 1616, -1345, -1388,
        643, -111, 878, 1249, -1224, 600, -1315, -451, -252, -964, 742, -345,
        -135, 1479, 138, -1192, -585, 358, 988, -925, 103, 308, 1315, -1268,
        -527, -1082, -578, -1358, -1655, 472, 266, 829, 260, -658, -1568, 1608,
        -533, -1428, 1107, -157, 543, 1209, 876, 889, 627, 136, -959, 108,
        -1075, -575, -13, 153, -1243, -959, 153, 1264, 177, -1273, 1303, 871,
        -785, -1191, -1028, 584, -446, -141, -687, 1469, 700, 819, 814, 539,
        -4, 353, 1376, 1394,
    ]
}

fn sample_transformed() -> [i16; 256] {
    [
        -540, -821, -2352, 2139, 3101, 1839, 547, 4839, 3764, 259, 1076, 1299,
        3093, 1303, 2463, -793, -1272, 561, -736, 2171, -3227, 4896, -3597, 2772,
        -596, 1988, -2970, 4996, -1135, 5139, 109, 7541, -3927, -5103, -4033, -2479,
        -4202, -1432, -3042, -3238, -1337, 1160, 983, 746, -1883, 445, -4111, -2843,
        2354, 2997, 1184, 1807, -1416, -1794, 1046, 1134, -1826, 1528, 10, 292,
        2226, -656, -298, 1612, 1565, -274, 455, 674, 2140, 3930, 4596, 1022,
        1818, -3, 2722, 3167, 3851, 951, 2133, 2405, 4175, -2221, 3735, 169,
        1809, 1456, 2049, 2568, -2553, 3306, -323, 1050, 802, 5386, 1330, 5342,
        1600, 2075, 1720, -933, -125, -480, 1245, -2330, 663, -1449, 1801, 701,
        1394, -1992, 3566, -5008, 2005, -5383, -465, -2135, 1368, 522, 3584, -1448,
        2484, -1335, 718, -1605, 1738, -704, 1824, -1728, -2214, 2098, -2524, -1112,
        -2581, -284, -2097, 2390, -1383, -1678, -879, 886, -2025, 1615, -5129, 1917,
        -3463, -1434, -453, -4152, -3709, -1187, -5267, -1723, -392, 541, -52, -2005,
        -1440, 1474, -1720, 1102, 3089, 1764, 2331, 1228, 4878, -684, 5154, -1168,
        990, 226, 1150, -1206, -673, 2862, 1457, -366, 915, 1132, -509, 366,
        2866, -1115, -68, -3327, 479, -4458, 61, -2790, -2829, 925, -1883, -2045,
        34, 646, -1148, 3818, -4131, 2211, -2263, 1, -4448, 5426, -1992, 2024,
        -2405, 718, -3071, 1852, -1113, 6752, -3185, 4104, -970, 6970, -924, 4690,
        -4233, 6228, -1207, 3808, -728, 1750, -824, 2298, -8004, -1955, -5652, 259,
        -4449, 667, -3987, 3905, -1959, 1814, -4013, -586, -1954, -768, -1534, -1544,
        -3274, 1838, -1546, 558, -2160, 3709, -3192, 967, 2830, -904, 1262, 1270,
        934, 1407, -1798, 4067,
    ]
}

fn sample_round_trip() -> [i16; 256] {
    [
        -1145, 1344, -1495, 435, -142, -650, -274, 1395, 1525, 334, -1532, 741,
        13, -1523, 453, 35, -1225, -578, 434, 908, 620, 638, -1311, -699,
        -1221, -1488, -1470, -682, 1211, 810, -1309, 229, -728, 533, 1397, -1501,
        45, -48, -1584, -751, 758, -743, 128, -1593, -1474, 1193, -566, 493,
        -1224, 786, -377, -875, 1026, 682, -289, -269, -1376, 1325, -746, -1557,
        1328, 96, -1102, 594, 1179, 1521, 42, -987, 1153, 1382, 188, 144,
        -753, -467, -867, -823, -280, -1505, -993, 296, 1363, 1578, -411, 812,
        -65, 434, -781, -1501, -1250, -1006, 487, 1123, 166, 1247, -38, 1290,
        1011, -723, -996, -1478, -1079, 1034, -516, 1277, 1261, -1139, -69, 441,
        -1236, 98, 564, -49, -548, 1602, -846, 675, -297, 817, 327, 1577,
        428, -1364, -426, -1292, -309, -1425, 858, 1329, 1364, 1166, -1025, -1322,
        -1628, 251, -1481, 849, -1567, 1249, -331, -1280, 1553, 1569, 1364, 114,
        -769, 94, -1467, 890, -1542, -456, 744, -1659, 1045, -1513, 1611, -581,
        -960, 382, -720, -1332, 855, 1265, -859, 741, 325, -25, 293, 1281,
        -935, 439, -1245, 421, -378, 764, -416, 1156, -580, 699, -658, 957,
        1166, -631, -1157, 1012, -480, -548, 1312, 1455, 97, 1058, 1009, 648,
        1122, 580, -925, -598, 1533, -904, 518, 290, -1004, 1361, -1312, -1150,
        903, 1077, 883, -402, 69, -76, -1397, 64, 1538, 1178, -876, -936,
        509, -560, -545, 787, -962, -505, 931, 675, 1225, 1163, -833, 434,
        427, 1080, 256, 60, -618, -833, 60, -1332, 1636, 741, 1229, -507,
        606, -1642, 1294, -489, -436, 728, 1493, 1033, 1580, 517, -921, -115,
        847, 987, 1584, -563,
    ]
}

/// A small generator of repeatable pseudo-random numbers.
fn next(state: &mut u64) -> u64 {
    *state = state.wrapping_mul(6364136223846793005).wrapping_add(1442695040888963407);
    *state >> 33
}

fn random_poly(state: &mut u64, bound: i16) -> Poly {
    let mut p = Poly::new();
    for c in p.coeffs.iter_mut() {
        let span = 2 * bound as u64 + 1;
        *c = (next(state) % span) as i16 - bound;
    }
    p
}

#[test]
fn new_poly_is_zero() {
    let p = Poly::new();
    assert_eq!(p.coeffs, [0i16; 256]);
}

#[test]
fn ntt_of_zero_is_zero() {
    let mut p = Poly::new();
    ntt(&mut p);
    assert_eq!(p.coeffs, [0i16; 256]);
    invntt(&mut p);
    assert_eq!(p.coeffs, [0i16; 256]);
}

#[test]
fn ntt_of_one() {
    // The constant polynomial 1 is 1 modulo every quadratic factor.
    let mut p = Poly::new();
    p.coeffs[0] = 1;
    ntt(&mut p);
    for i in 0..128 {
        assert_eq!(p.coeffs[2 * i], 1);
        assert_eq!(p.coeffs[2 * i + 1], 0);
    }
}

#[test]
fn ntt_of_x() {
    let mut p = Poly::new();
    p.coeffs[1] = 1;
    ntt(&mut p);
    for i in 0..128 {
        assert_eq!(p.coeffs[2 * i], 0);
        assert_eq!(p.coeffs[2 * i + 1], 1);
    }
}

#[test]
fn ntt_of_x_to_the_128() {
    // Only the first layer multiplies: by the first twiddle, 17^64.
    let mut p = Poly::new();
    p.coeffs[128] = 1;
    ntt(&mut p);
    for i in 0..64 {
        assert_eq!(p.coeffs[2 * i], -1600);
        assert_eq!(p.coeffs[2 * i + 1], 0);
        assert_eq!(p.coeffs[128 + 2 * i], 1600);
        assert_eq!(p.coeffs[128 + 2 * i + 1], 0);
    }
}

#[test]
fn ntt_known_answer() {
    let mut p = Poly { coeffs: sample() };
    ntt(&mut p);
    assert_eq!(p.coeffs, sample_transformed());
}

#[test]
fn invntt_known_answer() {
    let mut p = Poly { coeffs: sample_transformed() };
    invntt(&mut p);
    assert_eq!(p.coeffs, sample_round_trip());
}

#[test]
fn invntt_of_one() {
    let mut p = Poly::new();
    p.coeffs[0] = 1;
    invntt(&mut p);
    assert_eq!(&p.coeffs[..6], &[512, 0, -949, 0, 140, 0]);
}

#[test]
fn round_trip_gives_montgomery_form() {
    let mut state = 7u64;
    for _ in 0..50 {
        let p = random_poly(&mut state, 3328);
        let mut r = p;
        ntt(&mut r);
        invntt(&mut r);
        for i in 0..256 {
            let y = r.coeffs[i] as i32;
            let x = p.coeffs[i] as i32;
            assert!(-Q < y && y < Q);
            assert_eq!((y - 65536 * x).rem_euclid(Q), 0);
        }
    }
}

#[test]
fn round_trip_of_one_is_the_montgomery_factor() {
    // 2^16 modulo 3329 is 2285, whose centered representative is -1044:
    // the round trip does not give the coefficient 1 back as it stands.
    let mut p = Poly::new();
    p.coeffs[0] = 1;
    ntt(&mut p);
    invntt(&mut p);
    assert_eq!(p.coeffs[0], -1044);
    for i in 1..256 {
        assert_eq!(p.coeffs[i], 0);
    }
}

#[test]
fn round_trip_is_exact_after_normalization() {
    let mut state = 99u64;
    for _ in 0..50 {
        let p = random_poly(&mut state, 1664);
        let mut r = p;
        ntt(&mut r);
        invntt(&mut r);
        for i in 0..256 {
            let back = barrett_reduce(montgomery_reduce(r.coeffs[i] as i32));
            assert_eq!(back, p.coeffs[i]);
        }
    }
}

#[test]
fn round_trip_of_extreme_coefficients() {
    for &c in &[3328i16, -3328] {
        let mut p = Poly { coeffs: [c; 256] };
        ntt(&mut p);
        invntt(&mut p);
        for i in 0..256 {
            let y = p.coeffs[i] as i32;
            assert!(-Q < y && y < Q);
            assert_eq!((y - 65536 * c as i32).rem_euclid(Q), 0);
        }
    }
}

#[test]
fn ntt_twice_is_not_ntt_once() {
    let mut once = Poly::new();
    once.coeffs[0] = 1;
    ntt(&mut once);
    let mut twice = once;
    ntt(&mut twice);
    assert_ne!(once.coeffs, twice.coeffs);
    assert_eq!(&twice.coeffs[..8], &[-2913, 0, -2959, 0, -3838, 0, -3922, 0]);
    // Nor does one inverse transform bring the input back.
    invntt(&mut twice);
    let mut expected = [0i16; 256];
    expected[0] = -1044;
    assert_ne!(twice.coeffs, expected);
}

#[test]
fn ntt_wraps_instead_of_panicking() {
    let mut p = Poly { coeffs: [i16::MAX; 256] };
    ntt(&mut p);
    let mut q = Poly { coeffs: [i16::MIN; 256] };
    ntt(&mut q);
    invntt(&mut p);
    invntt(&mut q);
    let mut r = Poly { coeffs: [i16::MIN; 256] };
    invntt(&mut r);
    for i in 0..256 {
        assert!(-Q < r.coeffs[i] as i32 && (r.coeffs[i] as i32) < Q);
    }
}

#[test]
fn polyvec_round_trip() {
    let mut state = 2024u64;
    let mut v: Polyvec<3> = Polyvec::new();
    for k in 0..3 {
        v.vec[k] = random_poly(&mut state, 3);
    }
    let before = v;
    polyvec_ntt(&mut v);
    for k in 0..3 {
        let mut single = before.vec[k];
        ntt(&mut single);
        assert_eq!(v.vec[k].coeffs, single.coeffs);
    }
    polyvec_invntt(&mut v);
    let mut diff = 0;
    for k in 0..3 {
        for i in 0..256 {
            let back = barrett_reduce(montgomery_reduce(v.vec[k].coeffs[i] as i32));
            if back != before.vec[k].coeffs[i] {
                diff += 1;
            }
        }
    }
    assert_eq!(diff, 0);
}

#[test]
fn polyvec_of_other_sizes() {
    let mut two: Polyvec<2> = Polyvec::new();
    two.vec[1].coeffs[0] = 1;
    polyvec_ntt(&mut two);
    assert_eq!(two.vec[0].coeffs, [0i16; 256]);
    assert_eq!(&two.vec[1].coeffs[..4], &[1, 0, 1, 0]);
    let mut four: Polyvec<4> = Polyvec::new();
    four.vec[3].coeffs[0] = 1;
    polyvec_invntt(&mut four);
    assert_eq!(four.vec[0].coeffs, [0i16; 256]);
    assert_eq!(&four.vec[3].coeffs[..6], &[512, 0, -949, 0, 140, 0]);
}
