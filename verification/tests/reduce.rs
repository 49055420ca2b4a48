use kyber_ntt::params::{N, Q, QINV};
use kyber_ntt::reduce::{barrett_reduce, fqmul, montgomery_reduce};

#[test]
fn parameters() {
    assert_eq!(N, 256);
    assert_eq!(Q, 3329);
    assert_eq!(QINV, 62209);
    // QINV inverts Q modulo 2^16.
    assert_eq!((Q as u32 * QINV as u32) % 65536, 1);
}

#[test]
fn montgomery_reduce_known_values() {
    assert_eq!(montgomery_reduce(0), 0);
    assert_eq!(montgomery_reduce(1), 169);
    assert_eq!(montgomery_reduce(-1), -169);
    assert_eq!(montgomery_reduce(3329), 0);
    assert_eq!(montgomery_reduce(65536), 1);
    assert_eq!(montgomery_reduce(2285 * 65536), 2285);
    assert_eq!(montgomery_reduce(1 << 30), 16384);
    assert_eq!(montgomery_reduce(-(1 << 30)), -16384);
    assert_eq!(montgomery_reduce(123456789), 2767);
    assert_eq!(montgomery_reduce(-987654321), -13670);
}

#[test]
fn montgomery_reduce_wraps_at_the_ends() {
    assert_eq!(montgomery_reduce(i32::MAX), 32599);
    assert_eq!(montgomery_reduce(i32::MIN), -32768);
}

#[test]
fn montgomery_reduce_divides_by_two_to_the_16() {
    let q = Q as i64;
    let mut a: i64 = -(1 << 30);
    while a <= 1 << 30 {
        let r = montgomery_reduce(a as i32) as i64;
        assert_eq!((r * 65536 - a).rem_euclid(q), 0);
        assert_eq!((r - 169 * a).rem_euclid(q), 0);
        assert!(65536 * r <= a + 32768 * q);
        assert!(65536 * r >= a - 32767 * q);
        a += 104729;
    }
}

#[test]
fn montgomery_reduce_of_small_products_is_below_q() {
    let q = Q as i32;
    let mut a: i32 = -q * 32768;
    while a < q * 32768 {
        let r = montgomery_reduce(a) as i32;
        assert!(-q < r && r < q);
        a += 7919;
    }
}

#[test]
fn barrett_reduce_known_values() {
    assert_eq!(barrett_reduce(0), 0);
    assert_eq!(barrett_reduce(1), 1);
    assert_eq!(barrett_reduce(-1), -1);
    assert_eq!(barrett_reduce(1664), 1664);
    assert_eq!(barrett_reduce(1665), -1664);
    assert_eq!(barrett_reduce(-1664), -1664);
    assert_eq!(barrett_reduce(-1665), 1664);
    assert_eq!(barrett_reduce(3329), 0);
    assert_eq!(barrett_reduce(-3329), 0);
    assert_eq!(barrett_reduce(12345), -971);
    assert_eq!(barrett_reduce(i16::MAX), -523);
    assert_eq!(barrett_reduce(i16::MIN), 522);
}

#[test]
fn barrett_reduce_is_the_centered_residue() {
    for a in i16::MIN..=i16::MAX {
        let r = barrett_reduce(a) as i32;
        assert!(-1664 <= r && r <= 1664);
        assert!(r.abs() < Q as i32);
        assert_eq!((r - a as i32).rem_euclid(Q as i32), 0);
    }
}

#[test]
fn fqmul_known_values() {
    assert_eq!(fqmul(0, 0), 0);
    assert_eq!(fqmul(1, 1), 169);
    assert_eq!(fqmul(2285, 1), 1);
    assert_eq!(fqmul(-1044, -1044), -1044);
    assert_eq!(fqmul(1441, 128), -1044);
    assert_eq!(fqmul(17, 1353), -1103);
    assert_eq!(fqmul(-1659, 15700), -1186);
    assert_eq!(fqmul(i16::MAX, i16::MAX), 16552);
    assert_eq!(fqmul(i16::MIN, i16::MIN), 16384);
    assert_eq!(fqmul(i16::MIN, i16::MAX), -14719);
}

#[test]
fn fqmul_is_montgomery_reduce_of_the_product() {
    let mut a: i32 = -32768;
    while a <= 32767 {
        let mut b: i32 = -32768;
        while b <= 32767 {
            let r = fqmul(a as i16, b as i16);
            assert_eq!(r, montgomery_reduce(a * b));
            let d = r as i64 * 65536 - (a * b) as i64;
            assert_eq!(d.rem_euclid(Q as i64), 0);
            b += 509;
        }
        a += 251;
    }
}

#[test]
fn fqmul_commutes() {
    for &(a, b) in &[(3i16, -7i16), (1664, -1664), (i16::MAX, 2), (-3328, 3328)] {
        assert_eq!(fqmul(a, b), fqmul(b, a));
    }
}
