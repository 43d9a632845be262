use epd_driver::{EpdColor, EpdError};

#[test]
fn plane_bits_of_each_color() {
    assert_eq!((EpdColor::Black.black_bit(), EpdColor::Black.red_bit()), (0, 1));
    assert_eq!((EpdColor::Red.black_bit(), EpdColor::Red.red_bit()), (1, 0));
    assert_eq!((EpdColor::White.black_bit(), EpdColor::White.red_bit()), (1, 1));
}

#[test]
fn plane_bits_round_trip() {
    for color in [EpdColor::White, EpdColor::Black, EpdColor::Red] {
        assert_eq!(EpdColor::from_bits(color.black_bit(), color.red_bit()), Ok(color));
    }
}

#[test]
fn the_pair_of_two_zeros_is_no_color() {
    assert_eq!(EpdColor::from_bits(0, 0), Err(EpdError::InvalidColorEncoding));
}

#[test]
fn a_value_that_is_no_bit_is_no_color() {
    assert_eq!(EpdColor::from_bits(2, 1), Err(EpdError::InvalidColorEncoding));
    assert_eq!(EpdColor::from_bits(1, 2), Err(EpdError::InvalidColorEncoding));
    assert_eq!(EpdColor::from_bits(255, 255), Err(EpdError::InvalidColorEncoding));
}

#[test]
fn raw_values_decode() {
    assert_eq!(EpdColor::from_raw(0b00), Ok(EpdColor::White));
    assert_eq!(EpdColor::from_raw(0b01), Ok(EpdColor::Black));
    assert_eq!(EpdColor::from_raw(0b10), Ok(EpdColor::Red));
}

#[test]
fn the_raw_value_three_is_no_color() {
    assert_eq!(EpdColor::from_raw(0b11), Err(EpdError::InvalidColorEncoding));
}

#[test]
fn a_raw_value_wider_than_two_bits_is_no_color() {
    for raw in 4..=255u8 {
        assert_eq!(EpdColor::from_raw(raw), Err(EpdError::InvalidColorEncoding));
    }
}

#[test]
fn a_raw_value_is_the_inverted_pair_of_plane_bits() {
    for black in 0..=1u8 {
        for red in 0..=1u8 {
            let raw = (1 - red) * 2 + (1 - black);
            assert_eq!(EpdColor::from_raw(raw), EpdColor::from_bits(black, red));
        }
    }
}

#[test]
fn colors_compare_and_order_as_declared() {
    assert!(EpdColor::White < EpdColor::Black);
    assert!(EpdColor::Black < EpdColor::Red);
    assert_ne!(EpdColor::White, EpdColor::Red);
    let copy = EpdColor::Red;
    assert_eq!(copy, EpdColor::Red);
}
