//! Zigzag round trips at the boundary values of every signed width.

use mc_proto::Zigzag;

#[test]
fn zigzag_i8_round_trip() {
    for n in [i8::MIN, -1, 0, 1, i8::MAX] {
        let z: u8 = n.zigzag();
        let back: i8 = z.zigzag();
        assert_eq!(back, n);
    }
}

#[test]
fn zigzag_i16_round_trip() {
    for n in [i16::MIN, -1, 0, 1, i16::MAX] {
        let z: u16 = n.zigzag();
        let back: i16 = z.zigzag();
        assert_eq!(back, n);
    }
}

#[test]
fn zigzag_i32_round_trip() {
    for n in [i32::MIN, -1, 0, 1, i32::MAX] {
        let z: u32 = n.zigzag();
        let back: i32 = z.zigzag();
        assert_eq!(back, n);
    }
}

#[test]
fn zigzag_i64_round_trip() {
    for n in [i64::MIN, -1, 0, 1, i64::MAX] {
        let z: u64 = n.zigzag();
        let back: i64 = z.zigzag();
        assert_eq!(back, n);
    }
}

#[test]
fn zigzag_i128_round_trip() {
    for n in [i128::MIN, -1, 0, 1, i128::MAX] {
        let z: u128 = n.zigzag();
        let back: i128 = z.zigzag();
        assert_eq!(back, n);
    }
}

#[test]
fn zigzag_isize_round_trip() {
    for n in [isize::MIN, -1, 0, 1, isize::MAX] {
        let z: usize = n.zigzag();
        let back: isize = z.zigzag();
        assert_eq!(back, n);
    }
}

#[test]
fn zigzag_known_values() {
    assert_eq!(0i32.zigzag(), 0u32);
    assert_eq!((-1i32).zigzag(), 1u32);
    assert_eq!(1i32.zigzag(), 2u32);
    assert_eq!((-2i32).zigzag(), 3u32);
    assert_eq!(2147483647i32.zigzag(), 4294967294u32);
    assert_eq!((-2147483648i32).zigzag(), 4294967295u32);
}
