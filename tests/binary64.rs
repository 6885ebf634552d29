use chemistru_elements::binary64::Binary64;

fn rounded(x: f64) -> u16 {
    Binary64::from_bits(x.to_bits()).round_to_u16()
}

#[test]
fn rounds_atomic_masses() {
    assert_eq!(rounded(22.99), 23);
    assert_eq!(rounded(1.008), 1);
    assert_eq!(rounded(4.0026022), 4);
    assert_eq!(rounded(238.028913), 238);
    assert_eq!(rounded(294.0), 294);
}

#[test]
fn rounds_halves_away_from_zero() {
    assert_eq!(rounded(0.5), 1);
    assert_eq!(rounded(1.5), 2);
    assert_eq!(rounded(2.5), 3);
    assert_eq!(rounded(0.49999999999999994), 0);
    assert_eq!(rounded(65534.5), 65535);
}

#[test]
fn saturates_like_a_cast() {
    assert_eq!(rounded(0.0), 0);
    assert_eq!(rounded(-0.0), 0);
    assert_eq!(rounded(-3.7), 0);
    assert_eq!(rounded(f64::NAN), 0);
    assert_eq!(rounded(f64::INFINITY), u16::MAX);
    assert_eq!(rounded(f64::NEG_INFINITY), 0);
    assert_eq!(rounded(1e300), u16::MAX);
    assert_eq!(rounded(65535.4), u16::MAX);
    assert_eq!(rounded(f64::MIN_POSITIVE), 0);
    assert_eq!(rounded(5e-324), 0);
}

#[test]
fn agrees_with_round_then_cast() {
    let mut x: f64 = 0.0;
    while x < 70000.0 {
        assert_eq!(rounded(x), x.round() as u16, "at {x}");
        assert_eq!(rounded(-x), (-x).round() as u16, "at {}", -x);
        x += 0.173;
    }
    for bits in (0u64..u64::MAX).step_by(0x0000_7FFF_FFFF_FFF1) {
        let x = f64::from_bits(bits);
        assert_eq!(rounded(x), x.round() as u16, "at bits {bits:#x}");
    }
}

#[test]
fn bits_round_trip() {
    let v = Binary64::from_bits(0x4036_FD70_A3D7_0A3D);
    assert_eq!(v.to_bits(), 0x4036_FD70_A3D7_0A3D);
    assert_eq!(v.bits, 0x4036_FD70_A3D7_0A3D);
    assert_eq!(Binary64::zero().to_bits(), 0);
}
