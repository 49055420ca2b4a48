use kyber_ntt::cbd::{cbd3, poly_getnoise_eta1, NOISE_BYTES};
use kyber_ntt::poly::Poly;

fn next(state: &mut u64) -> u64 {
    *state = state.wrapping_mul(6364136223846793005).wrapping_add(1442695040888963407);
    *state >> 33
}

fn sample_bytes() -> [u8; 192] {
    [
        63, 152, 153, 33, 102, 32, 112, 149, 165, 82, 128, 16, 56, 207, 66, 23,
        190, 233, 117, 60, 177, 66, 224, 154, 161, 215, 102, 149, 75, 93, 119, 221,
        0, 254, 218, 111, 255, 174, 84, 145, 101, 89, 93, 29, 75, 211, 96, 195,
        195, 203, 44, 32, 172, 130, 195, 115, 2, 102, 162, 145, 115, 124, 41, 103,
        178, 80, 198, 115, 127, 194, 180, 162, 185, 217, 179, 201, 238, 150, 57, 202,
        120, 60, 121, 107, 162, 226, 42, 32, 113, 208, 118, 175, 241, 199, 12, 155,
        46, 96, 252, 36, 130, 60, 10, 8, 187, 186, 142, 184, 15, 184, 212, 0,
        160, 109, 192, 182, 50, 0, 147, 204, 253, 242, 81, 72, 72, 114, 97, 96,
        239, 145, 179, 45, 200, 15, 89, 172, 39, 109, 244, 113, 83, 225, 216, 181,
        10, 86, 107, 55, 47, 75, 85, 252, 146, 250, 89, 151, 155, 14, 173, 220,
        132, 99, 56, 223, 249, 222, 115, 164, 109, 152, 7, 118, 127, 139, 114, 99,
        66, 133, 166, 250, 167, 230, 50, 94, 76, 85, 206, 12, 73, 142, 227, 100,
    ]
}

fn sample_noise() -> [i16; 256] {
    [
        0, -1, -1, 1, 0, -2, 2, -1, -2, 1, -1, -1, 0, 1, -1, 1,
        -3, -2, -1, -1, 2, -3, 0, -2, 0, -1, 1, -1, 1, 1, 0, 1,
        0, 0, 0, -1, 1, 0, 0, 2, 1, 0, 1, 0, -1, 0, -1, 0,
        0, -1, 0, 1, 0, 1, 1, 1, 0, 0, -1, 0, 1, 2, 0, -2,
        2, 1, 0, 1, -1, -2, -1, -1, 2, 2, 2, 0, 1, 0, -1, 0,
        0, -1, 2, 0, 2, 0, 1, 0, 2, 2, 1, 1, 1, 1, 0, -2,
        -2, 1, -1, -1, 0, -1, 0, 1, -2, -2, 0, 0, -2, 0, 1, -1,
        0, 0, 0, 0, -1, 1, 3, -1, 0, -1, -1, -2, 3, 0, -2, 1,
        0, 0, 2, 0, 0, -1, -1, 2, 0, -1, -2, 0, -2, -2, -1, 0,
        2, -1, 1, 0, 0, 0, -1, 0, 0, 0, 0, 0, 0, 0, 0, 0,
        -1, 1, 1, 0, -1, 0, 0, -1, 0, 1, 0, -1, 0, 1, 0, 1,
        -1, 0, -1, 1, -1, 0, 0, 0, -1, 3, 1, 0, 0, 1, 0, 0,
        0, -2, 0, -1, 1, -2, -1, 0, 1, -1, 1, 0, -2, 2, 0, 1,
        0, -2, -1, 0, -1, 1, -3, -2, -3, -2, 0, -1, 0, 2, 3, -1,
        0, 0, -2, 1, 0, -1, 1, 0, -1, 1, 1, -1, 2, -1, -1, -1,
        2, -1, 0, 0, 0, -1, 0, 1, 1, 0, -1, 0, 1, 1, 1, -1,
    ]
}

#[test]
fn noise_length_is_192() {
    assert_eq!(NOISE_BYTES, 192);
}

#[test]
fn noise_of_zero_bytes_is_zero() {
    let p = poly_getnoise_eta1(&[0u8; 192]);
    assert_eq!(p.coeffs, [0i16; 256]);
}

#[test]
fn noise_of_one_bytes_is_zero() {
    // Every group of three bits has weight 3: all differences vanish.
    let p = poly_getnoise_eta1(&[0xffu8; 192]);
    assert_eq!(p.coeffs, [0i16; 256]);
}

#[test]
fn noise_known_answer() {
    let p = poly_getnoise_eta1(&sample_bytes());
    assert_eq!(p.coeffs, sample_noise());
}

#[test]
fn noise_extremes() {
    let mut buf = [0u8; 192];
    for i in 0..64 {
        buf[3 * i] = 0x07;
    }
    let p = poly_getnoise_eta1(&buf);
    for i in 0..64 {
        assert_eq!(&p.coeffs[4 * i..4 * i + 4], &[3, 0, 0, 0]);
    }
    for i in 0..64 {
        buf[3 * i] = 0x38;
    }
    let p = poly_getnoise_eta1(&buf);
    for i in 0..64 {
        assert_eq!(&p.coeffs[4 * i..4 * i + 4], &[-3, 0, 0, 0]);
    }
}

#[test]
fn noise_crosses_byte_borders() {
    let mut buf = [0u8; 192];
    for i in 0..64 {
        buf[3 * i] = 0x55;
        buf[3 * i + 1] = 0xaa;
        buf[3 * i + 2] = 0x0f;
    }
    let p = poly_getnoise_eta1(&buf);
    for i in 0..64 {
        assert_eq!(&p.coeffs[4 * i..4 * i + 4], &[1, -1, -2, 2]);
    }
}

#[test]
fn cbd3_overwrites_every_coefficient() {
    let mut p = Poly { coeffs: [1234i16; 256] };
    cbd3(&mut p, &sample_bytes());
    assert_eq!(p.coeffs, sample_noise());
}

#[test]
fn noise_is_the_difference_of_bit_counts() {
    let mut state = 5u64;
    for _ in 0..20 {
        let mut buf = [0u8; 192];
        for b in buf.iter_mut() {
            *b = next(&mut state) as u8;
        }
        let p = poly_getnoise_eta1(&buf);
        for c in 0..256 {
            let bit = |n: usize| ((buf[n / 8] >> (n % 8)) & 1) as i16;
            let plus = bit(6 * c) + bit(6 * c + 1) + bit(6 * c + 2);
            let minus = bit(6 * c + 3) + bit(6 * c + 4) + bit(6 * c + 5);
            assert_eq!(p.coeffs[c], plus - minus);
            assert!(-3 <= p.coeffs[c] && p.coeffs[c] <= 3);
        }
    }
}

#[test]
fn noise_follows_the_binomial_law() {
    // Over uniform bytes the value v has probability C(6, v + 3) / 64.
    let mut state = 31337u64;
    let mut counts = [0u64; 7];
    let rounds = 400;
    for _ in 0..rounds {
        let mut buf = [0u8; 192];
        for b in buf.iter_mut() {
            *b = next(&mut state) as u8;
        }
        let p = poly_getnoise_eta1(&buf);
        for &c in p.coeffs.iter() {
            counts[(c + 3) as usize] += 1;
        }
    }
    let total = (rounds * 256) as f64;
    let weights = [1.0, 6.0, 15.0, 20.0, 15.0, 6.0, 1.0];
    for v in 0..7 {
        let expected = weights[v] / 64.0;
        let seen = counts[v] as f64 / total;
        assert!((seen - expected).abs() < 0.01, "value {} seen {}", v as i32 - 3, seen);
    }
}
