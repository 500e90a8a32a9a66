use lufloat::{Arena, UnifiedBuffer};

/// Exact conversion of a half bit pattern to `f32`.
fn half2float(h: u16) -> f32 {
    let negative = h & 0x8000 != 0;
    let exp = ((h >> 10) & 0x1f) as i32;
    let frac = (h & 0x3ff) as f32;
    let magnitude = if exp == 0 {
        frac * 2f32.powi(-24)
    } else if exp == 31 {
        if frac == 0.0 {
            f32::INFINITY
        } else {
            return f32::NAN;
        }
    } else {
        (1024.0 + frac) * 2f32.powi(exp - 25)
    };
    if negative {
        -magnitude
    } else {
        magnitude
    }
}

/// Rounds an `f32` to the nearest half, ties to even, by searching the
/// ordered positive half patterns.
fn float2half(x: f32) -> u16 {
    if x.is_nan() {
        return 0x7E00;
    }
    let sign: u16 = if x.is_sign_negative() { 0x8000 } else { 0 };
    let a = (x as f64).abs();
    if a >= 65520.0 {
        return sign | 0x7C00;
    }
    // Largest positive finite pattern whose value does not exceed `a`.
    let mut lo: u16 = 0;
    let mut hi: u16 = 0x7BFF;
    while lo < hi {
        let mid = lo + (hi - lo + 1) / 2;
        if half2float(mid) as f64 <= a {
            lo = mid;
        } else {
            hi = mid - 1;
        }
    }
    let below = lo;
    if half2float(below) as f64 == a || below == 0x7BFF {
        return sign | below;
    }
    let above = below + 1;
    let d_below = a - half2float(below) as f64;
    let d_above = half2float(above) as f64 - a;
    let chosen = if d_below < d_above {
        below
    } else if d_above < d_below {
        above
    } else if below % 2 == 0 {
        below
    } else {
        above
    };
    sign | chosen
}

#[test]
fn exhaustive_lufloat_abs() {
    let mut arena = Arena::new(1 << 17);
    let mut data = UnifiedBuffer::new(&mut arena, 1 << 16);
    let mut magnitude = UnifiedBuffer::new(&mut arena, 1 << 16);
    let input_data = data.slice_mut();
    for i in 0..(1 << 16) {
        input_data[i] = i as u16;
    }
    data.abs(&mut magnitude);
    let output_data = magnitude.slice();
    for i in 0..(1 << 16) {
        let val = i as u16;
        assert_eq!(output_data[i], val & 0x7FFF, "Failed at {:016b}", val);
    }
}

#[test]
fn exhaustive_lufloat_add() {
    let mut arena = Arena::new(1 << 18);
    let mut data = UnifiedBuffer::new(&mut arena, 1 << 16);
    let mut other = UnifiedBuffer::new(&mut arena, 1 << 16);
    let mut accumulated = UnifiedBuffer::new(&mut arena, 1 << 16);
    let input_data = data.slice_mut();
    let input_other = other.slice_mut();
    for i in 0..(1 << 16) {
        input_data[i] = i as u16;
        input_other[i] = i as u16;
    }
    data.add(&other, &mut accumulated);
    let input_data = data.slice();
    let input_other = other.slice();
    let output_data = accumulated.slice();
    for i in 0..(1 << 16) {
        let a_f32 = half2float(input_data[i]);
        let b_f32 = half2float(input_other[i]);
        let cpu_sum = a_f32 + b_f32;
        let expected_u16 = float2half(cpu_sum);
        let actual_u16 = output_data[i];
        if cpu_sum.is_nan() {
            assert!((actual_u16 & 0x7FFF) > 0x7C00, "Expected NaN at index {}", i);
        } else {
            assert_eq!(
                actual_u16, expected_u16,
                "Failed at idx {}. GPU: {:04X}, CPU: {:04X} ({} + {})",
                i, actual_u16, expected_u16, a_f32, b_f32
            );
        }
    }
}

#[test]
fn exhaustive_lufloat_div() {
    let mut arena = Arena::new(1 << 18);
    let mut data = UnifiedBuffer::new(&mut arena, 1 << 16);
    let mut other = UnifiedBuffer::new(&mut arena, 1 << 16);
    let mut accumulated = UnifiedBuffer::new(&mut arena, 1 << 16);
    let input_data = data.slice_mut();
    let input_other = other.slice_mut();
    for i in 0..(1 << 16) {
        input_data[i] = i as u16;
        input_other[i] = i as u16;
    }
    data.div(&other, &mut accumulated);
}

#[test]
fn exhaustive_lufloat_mul_inplace() {
    let mut arena = Arena::new(1 << 17);
    let mut data = UnifiedBuffer::new(&mut arena, 1 << 16);
    let mut other = UnifiedBuffer::new(&mut arena, 1 << 16);
    let input_data = data.slice_mut();
    let input_other = other.slice_mut();
    for i in 0..(1 << 16) {
        input_data[i] = i as u16;
        input_other[i] = i as u16;
    }
    data.mul_inplace(&other);
    let output_data = data.slice();
    for i in 0..(1 << 16) {
        let a_f32 = half2float(i as u16);
        let b_f32 = half2float(i as u16);
        let sum = a_f32 * b_f32;
        let expected = float2half(sum);
        let actual = output_data[i];
        if sum.is_nan() {
            assert!((actual & 0x7FFF) > 0x7C00);
        } else {
            assert_eq!(actual, expected);
        }
    }
}

#[test]
fn exhaustive_negative_mask() {
    let mut arena = Arena::new(1 << 17);
    let mut data = UnifiedBuffer::new(&mut arena, 1 << 16);
    let mut mask = UnifiedBuffer::new(&mut arena, 1 << 16);
    let input_data = data.slice_mut();
    for i in 0..(1 << 16) {
        input_data[i] = i as u16;
    }
    data.negative_mask(&mut mask);
    let output_data = mask.slice();
    for i in 0..(1 << 16) {
        let val = i as u16;
        let expected = if (val & 0x8000) == 0 { 0x0000 } else { 0x3C00 };
        assert_eq!(output_data[i], expected, "Failed at {:016b}", val);
    }
}

#[test]
fn exhaustive_positive_mask_inplace() {
    let mut arena = Arena::new(1 << 16);
    let mut buffer = UnifiedBuffer::new(&mut arena, 1 << 16);
    let input_data = buffer.slice_mut();
    for i in 0..(1 << 16) {
        input_data[i] = i as u16;
    }
    buffer.positive_mask_inplace();
    let output_data = buffer.slice();
    for i in 0..(1 << 16) {
        let expected = if (i as u16 & 0x8000) != 0 { 0x0000 } else { 0x3C00 };
        assert_eq!(output_data[i], expected, "Failed at {:016b}", i as u16);
    }
}

#[test]
fn exhaustive_relu() {
    let mut arena = Arena::new(1 << 17);
    let mut data = UnifiedBuffer::new(&mut arena, 1 << 16);
    let mut activation = UnifiedBuffer::new(&mut arena, 1 << 16);
    let input_data = data.slice_mut();
    for i in 0..(1 << 16) {
        input_data[i] = i as u16;
    }
    data.relu(&mut activation);
    let output_data = activation.slice();
    for i in 0..(1 << 16) {
        let val = i as u16;
        let expected = if (val & 0x8000) == 0 { val } else { 0x0000 };
        assert_eq!(output_data[i], expected, "Failed at {:016b}", val);
    }
}

#[test]
fn exhaustive_div_matches_f32_reference() {
    let mut arena = Arena::new(1 << 18);
    let mut data = UnifiedBuffer::new(&mut arena, 1 << 16);
    let mut other = UnifiedBuffer::new(&mut arena, 1 << 16);
    let mut quotient = UnifiedBuffer::new(&mut arena, 1 << 16);
    let input_data = data.slice_mut();
    for i in 0..(1 << 16) {
        input_data[i] = i as u16;
    }
    let input_other = other.slice_mut();
    for i in 0..(1 << 16) {
        input_other[i] = (i as u16).wrapping_mul(40503);
    }
    data.div(&other, &mut quotient);
    let a = data.slice();
    let b = other.slice();
    let q = quotient.slice();
    for i in 0..(1 << 16) {
        let exact = half2float(a[i]) / half2float(b[i]);
        if exact.is_nan() {
            assert_eq!(q[i], 0x7E00, "idx {}", i);
        } else {
            assert_eq!(q[i], float2half(exact), "idx {}: {:04X} / {:04X}", i, a[i], b[i]);
        }
    }
}

#[test]
fn exhaustive_sub_matches_f32_reference() {
    let mut arena = Arena::new(1 << 18);
    let mut data = UnifiedBuffer::new(&mut arena, 1 << 16);
    let mut other = UnifiedBuffer::new(&mut arena, 1 << 16);
    let mut difference = UnifiedBuffer::new(&mut arena, 1 << 16);
    let input_data = data.slice_mut();
    for i in 0..(1 << 16) {
        input_data[i] = i as u16;
    }
    let input_other = other.slice_mut();
    for i in 0..(1 << 16) {
        input_other[i] = (i as u16).wrapping_mul(25173).wrapping_add(13849);
    }
    data.sub(&other, &mut difference);
    let a = data.slice();
    let b = other.slice();
    let d = difference.slice();
    for i in 0..(1 << 16) {
        let exact = half2float(a[i]) - half2float(b[i]);
        if exact.is_nan() {
            assert_eq!(d[i], 0x7E00, "idx {}", i);
        } else {
            assert_eq!(d[i], float2half(exact), "idx {}: {:04X} - {:04X}", i, a[i], b[i]);
        }
    }
}
