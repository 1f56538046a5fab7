use icarus::stat::{color_bits, ns, StatColor};

#[test]
fn color_codes() {
    assert_eq!(u32::from(StatColor::Red), 0x99_00_00);
    assert_eq!(u32::from(StatColor::Green), 0x00_99_00);
    assert_eq!(u32::from(StatColor::Blue), 0x00_00_99);
    assert_eq!(u32::from(StatColor::Black), 0x00_00_00);
}

#[test]
fn bits_of_one() {
    let bits = color_bits(1);
    assert_eq!(bits.len(), 24);
    assert!(bits[0]);
    assert!(bits[1..].iter().all(|&b| !b));
}

#[test]
fn bits_of_red() {
    // 0x99 in the high byte: bits 16, 19, 20 and 23 are driven.
    let bits = color_bits(u32::from(StatColor::Red));
    for (i, bit) in bits.iter().enumerate() {
        let expected = matches!(i, 16 | 19 | 20 | 23);
        assert_eq!(*bit, expected, "bit {i}");
    }
}

#[test]
fn ns_builds_durations() {
    assert_eq!(ns(350), core::time::Duration::from_nanos(350));
    assert_eq!(ns(1_500_000_000), core::time::Duration::from_nanos(1_500_000_000));
}
