use wavetable::waveform::Waveform;

fn scattered(seed: u32) -> Waveform {
    let mut w = [0u32; 2048];
    let mut x: u32 = seed;
    for i in 0..2048 {
        x = x.wrapping_mul(1664525).wrapping_add(1013904223);
        w[i] = x;
    }
    let edges: [u32; 16] = [
        0, 0x8000_0000, 0x3f80_0000, 0xbf80_0000, 0x7f80_0000, 0xff80_0000, 0x7fc0_0000, 1,
        0x007f_ffff, 0x0080_0000, 0x7f7f_ffff, 0xff7f_ffff, 0x3f00_0000, 0x3400_0000,
        0x8000_0001, 0x4b00_0000,
    ];
    let shift = (seed % 16) as usize;
    for i in 0..256 {
        w[i] = edges[(i / 16 + shift) % 16];
        w[256 + i] = edges[(i + shift) % 16];
    }
    Waveform::new(w)
}

fn moderate(seed: u32) -> Waveform {
    let mut w = [0u32; 2048];
    let mut x: u32 = seed;
    for i in 0..2048 {
        x = x.wrapping_mul(1664525).wrapping_add(1013904223);
        w[i] = ((x >> 8) as f32 / 8388608.0 - 1.0).to_bits();
    }
    Waveform::new(w)
}

fn same(got: u32, expected: f32) -> bool {
    if expected.is_nan() {
        f32::from_bits(got).is_nan()
    } else {
        got == expected.to_bits()
    }
}

#[test]
fn add_is_the_rounded_sum() {
    for (r, l) in [(scattered(1), scattered(5)), (moderate(7), moderate(9)), (moderate(3), scattered(2))] {
        let w = wavetable::waveform::operation::add(&r, &l);
        for i in 0..2048 {
            let expected = f32::from_bits(r.waveform[i]) + f32::from_bits(l.waveform[i]);
            assert!(same(w.waveform[i], expected), "{:#x} + {:#x}", r.waveform[i], l.waveform[i]);
        }
    }
}

#[test]
fn sub_is_the_rounded_difference() {
    for (r, l) in [(scattered(11), scattered(4)), (moderate(8), moderate(6)), (scattered(3), moderate(2))] {
        let w = wavetable::waveform::operation::sub(&r, &l);
        for i in 0..2048 {
            let expected = f32::from_bits(r.waveform[i]) - f32::from_bits(l.waveform[i]);
            assert!(same(w.waveform[i], expected), "{:#x} - {:#x}", r.waveform[i], l.waveform[i]);
        }
    }
}

#[test]
fn mul_is_the_rounded_product() {
    for (r, l) in [(scattered(21), scattered(14)), (moderate(18), moderate(16)), (moderate(13), scattered(12))] {
        let w = wavetable::waveform::operation::mul(&r, &l);
        for i in 0..2048 {
            let expected = f32::from_bits(r.waveform[i]) * f32::from_bits(l.waveform[i]);
            assert!(same(w.waveform[i], expected), "{:#x} * {:#x}", r.waveform[i], l.waveform[i]);
        }
    }
}

#[test]
fn div_is_the_rounded_quotient() {
    for (r, l) in [(scattered(31), scattered(24)), (moderate(28), moderate(26)), (scattered(23), moderate(22))] {
        let w = wavetable::waveform::operation::div(&r, &l);
        for i in 0..2048 {
            let expected = f32::from_bits(r.waveform[i]) / f32::from_bits(l.waveform[i]);
            assert!(same(w.waveform[i], expected), "{:#x} / {:#x}", r.waveform[i], l.waveform[i]);
        }
    }
}

#[test]
fn div_by_zero_is_no_error() {
    let mut top = [0u32; 2048];
    top[0] = 1.0f32.to_bits();
    top[1] = (-1.0f32).to_bits();
    let w = wavetable::waveform::operation::div(&Waveform::new(top), &Waveform::empty());
    assert_eq!(w.waveform[0], f32::INFINITY.to_bits());
    assert_eq!(w.waveform[1], f32::NEG_INFINITY.to_bits());
    assert!(f32::from_bits(w.waveform[2]).is_nan());
}

#[test]
fn operators_on_chosen_values() {
    let mut a = [0u32; 2048];
    let mut b = [0u32; 2048];
    a[0] = 0.75f32.to_bits();
    b[0] = 0.5f32.to_bits();
    a[1] = 0.1f32.to_bits();
    b[1] = 0.2f32.to_bits();
    let (a, b) = (Waveform::new(a), Waveform::new(b));
    assert_eq!(wavetable::waveform::operation::add(&a, &b).waveform[0], 1.25f32.to_bits());
    assert_eq!(wavetable::waveform::operation::sub(&a, &b).waveform[0], 0.25f32.to_bits());
    assert_eq!(wavetable::waveform::operation::mul(&a, &b).waveform[0], 0.375f32.to_bits());
    assert_eq!(wavetable::waveform::operation::div(&a, &b).waveform[0], 1.5f32.to_bits());
    assert_eq!(wavetable::waveform::operation::add(&a, &b).waveform[1], 0x3e99_999a);
    assert_eq!(wavetable::waveform::operation::sub(&b, &a).waveform[1], 0x3dcc_cccd);
    assert_eq!(wavetable::waveform::operation::div(&a, &b).waveform[1], 0.5f32.to_bits());
}

fn fm_by_the_formula(carrier: &Waveform, amp: f32, harmonic: i32, modulator: &Waveform) -> Vec<u32> {
    let mut out = Vec::new();
    for i in 0..2048i64 {
        let m = f32::from_bits(modulator.waveform[(i * harmonic as i64).rem_euclid(2048) as usize]);
        let offset = (amp * m * 2048.0).round() as i32;
        out.push(carrier.waveform[(i + offset as i64).rem_euclid(2048) as usize]);
    }
    out
}

#[test]
fn fm_of_sines_follows_the_formula() {
    let sine = Waveform::sin();
    let w = wavetable::waveform::operation::fm(&sine, 0.5f32.to_bits(), 3, &sine);
    let expected = fm_by_the_formula(&sine, 0.5, 3, &sine);
    for i in 0..2048 {
        assert_eq!(w.waveform[i], expected[i], "sample {}", i);
    }
}

#[test]
fn fm_of_sines_is_fixed() {
    let sine = Waveform::sin();
    let first = wavetable::waveform::operation::fm(&sine, 0.5f32.to_bits(), 3, &sine);
    let second = wavetable::waveform::operation::fm(&Waveform::sin(), 0.5f32.to_bits(), 3, &Waveform::sin());
    for i in 0..2048 {
        assert_eq!(first.waveform[i], second.waveform[i]);
    }
    assert_eq!(first.waveform[0], 0);
    // Sample 171 reads the modulator at 513, where the sine is just past its
    // peak: the displacement is 1024 less one step of rounding.
    let m = f32::from_bits(sine.waveform[513]);
    let offset = (0.5 * m * 2048.0).round() as i32;
    assert_eq!(offset, 1024);
    assert_eq!(first.waveform[171], sine.waveform[171 + 1024]);
    // Sample 512 reads the modulator at 1536, its trough.
    assert_eq!(first.waveform[512], sine.waveform[1536]);
    let mut sum: u64 = 0;
    for i in 0..2048 {
        sum = sum.wrapping_mul(31).wrapping_add(first.waveform[i] as u64);
    }
    assert_eq!(sum, 14574897511763649219);
    assert_eq!(first.waveform[1], 0x3cfb_49ba);
    assert_eq!(first.waveform[1], sine.waveform[10]);
    assert_eq!(first.waveform[100], 0x3ea8_0b1c);
    assert_eq!(first.waveform[1000], 0xbf13_682d);
    assert_eq!(first.waveform[1234], 0x3f3f_c767);
    assert_eq!(first.waveform[2047], 0xbcfb_498a);
}

#[test]
fn fm_with_other_arguments() {
    let carrier = moderate(41);
    let modulator = moderate(43);
    for (amp, harmonic) in [
        (0.0f32, 1),
        (1.0, 1),
        (-0.25, 2),
        (0.5, -3),
        (3.75, 7),
        (1.0e9, 5),
        (-1.0e20, 2),
        (f32::INFINITY, 1),
        (f32::NAN, 4),
        (0.5, i32::MAX),
        (0.5, i32::MIN),
        (0.000244140625, 0),
    ] {
        let w = wavetable::waveform::operation::fm(&carrier, amp.to_bits(), harmonic, &modulator);
        let expected = fm_by_the_formula(&carrier, amp, harmonic, &modulator);
        for i in 0..2048 {
            assert_eq!(w.waveform[i], expected[i], "amp {} harmonic {} sample {}", amp, harmonic, i);
        }
    }
}

#[test]
fn fm_without_depth_copies_the_carrier() {
    let carrier = moderate(51);
    let w = wavetable::waveform::operation::fm(&carrier, 0, 3, &moderate(52));
    for i in 0..2048 {
        assert_eq!(w.waveform[i], carrier.waveform[i]);
    }
}
