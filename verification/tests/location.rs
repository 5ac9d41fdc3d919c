use sbd_lib::mo::{LocationDirection, LocationInformation};
use sbd_lib::InformationElement;

#[test]
fn direction() {
    let loc = LocationInformation::new(0, (43, 30854), (41, 48860), Some(3));
    assert_eq!(loc.direction(), LocationDirection::NE);
    let loc = LocationInformation::new(0x40, (43, 30854), (41, 48860), Some(3));
    assert_eq!(loc.direction(), LocationDirection::SE);
    let loc = LocationInformation::new(0x80, (43, 30854), (41, 48860), Some(3));
    assert_eq!(loc.direction(), LocationDirection::NW);
    let loc = LocationInformation::new(0xC0, (43, 30854), (41, 48860), Some(3));
    assert_eq!(loc.direction(), LocationDirection::SW);
}

/// Decoding maps each flags byte to its compass quadrant.
#[test]
fn location_decode_flags() {
    for (flags, direction) in [
        (0x00u8, LocationDirection::NE),
        (0x40, LocationDirection::SE),
        (0x80, LocationDirection::NW),
        (0xC0, LocationDirection::SW),
    ] {
        let bytes = vec![3u8, 0, 8, flags, 43, 120, 134, 41, 190, 220, 0];
        match InformationElement::read_single(&bytes, 0).unwrap().0 {
            InformationElement::LocationInformation(loc) => {
                assert_eq!(direction, loc.direction());
                assert_eq!((43, 30854), loc.latitude());
                assert_eq!((41, 48860), loc.longitude());
            }
            _ => panic!("expected a location element"),
        }
    }
}

/// A declared body of eight bytes decodes without a radius and re-encodes
/// as ten bytes; a declared body of eleven carries a radius and re-encodes
/// as fourteen.
#[test]
fn location_decode_lengths() {
    let without = vec![3u8, 0, 8, 0, 43, 120, 134, 41, 190, 220, 0];
    match InformationElement::read_single(&without, 0).unwrap().0 {
        InformationElement::LocationInformation(loc) => {
            assert_eq!(None, loc.radius);
            assert_eq!(10, loc.len());
        }
        _ => panic!("expected a location element"),
    }

    let with = vec![3u8, 0, 11, 0, 43, 120, 134, 41, 190, 220, 0, 0, 0, 5];
    match InformationElement::read_single(&with, 0).unwrap().0 {
        InformationElement::LocationInformation(loc) => {
            assert_eq!(Some(5), loc.radius);
            assert_eq!(14, loc.len());
        }
        _ => panic!("expected a location element"),
    }
}
