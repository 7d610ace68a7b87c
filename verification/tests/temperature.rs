use herbfarm_sensor::soil::i32_from_be;
use herbfarm_sensor::temperature::whole_celsius_from_raw;

/// The single-precision computation that the displayed value stands for:
/// the reading scaled by 2^-16 and cut toward zero, when it is a `u16`.
fn via_f32(raw: i32) -> Option<u16> {
    let t = (1.0 / (1u32 << 16) as f32) * raw as f32;
    let w = t.trunc();
    if w >= 0.0 && w <= u16::MAX as f32 {
        Some(w as u16)
    } else {
        None
    }
}

#[test]
fn temperature_exact_values() {
    assert_eq!(whole_celsius_from_raw(0), Some(0));
    assert_eq!(whole_celsius_from_raw(25 * 65536), Some(25));
    assert_eq!(whole_celsius_from_raw(25 * 65536 + 65535), Some(25));
    assert_eq!(whole_celsius_from_raw(-1), Some(0));
    assert_eq!(whole_celsius_from_raw(-65535), Some(0));
    assert_eq!(whole_celsius_from_raw(-65536), None);
    assert_eq!(whole_celsius_from_raw(i32::MIN), None);
    assert_eq!(whole_celsius_from_raw(i32::MAX), Some(32768));
}

#[test]
fn temperature_follows_single_precision_rounding() {
    // 2^24 + 65535 is not a single-precision value: it rounds up to 257 degrees.
    assert_eq!(whole_celsius_from_raw((1 << 24) + 65535), Some(257));
    assert_eq!(whole_celsius_from_raw((1 << 24) + 65534), Some(256));
    assert_eq!(whole_celsius_from_raw((1 << 24) - 1), Some(255));
}

#[test]
fn temperature_matches_float_computation() {
    let mut samples: Vec<i32> = vec![i32::MIN, i32::MIN + 1, i32::MAX, i32::MAX - 1, -65537, -65536, -65535, -1, 0, 1];
    for k in 0..600i64 {
        for d in [-3i64, -2, -1, 0, 1, 2, 3, 64, 127, 128, 129] {
            let base = k * 65536 * 61 + d;
            for v in [base, base + (1 << 24), -base] {
                if v >= i32::MIN as i64 && v <= i32::MAX as i64 {
                    samples.push(v as i32);
                }
            }
        }
    }
    let mut x: u32 = 12345;
    for _ in 0..200_000 {
        x = x.wrapping_mul(1_664_525).wrapping_add(1_013_904_223);
        samples.push(x as i32);
    }
    for raw in samples {
        assert_eq!(whole_celsius_from_raw(raw), via_f32(raw), "raw {}", raw);
    }
}

#[test]
fn temperature_from_sensor_bytes() {
    let raw = i32_from_be([0x00, 0x17, 0x80, 0x00]);
    assert_eq!(raw, 23 * 65536 + 32768);
    assert_eq!(whole_celsius_from_raw(raw), Some(23));
}
