use sbd_lib::mo;
use sbd_lib::{Error, Header, Imei, InformationElement};

/// The complete wire bytes of a small mobile-originated message: revision
/// one, a 56-byte body holding one header element and one payload element.
fn mo_message_bytes() -> Vec<u8> {
    let mut b = vec![1u8, 0, 56];
    b.extend_from_slice(&[1, 0, 28]);
    b.extend_from_slice(&[112, 236, 7, 105]);
    b.extend_from_slice(b"300234063904190");
    b.push(0);
    b.extend_from_slice(&[0, 75]);
    b.extend_from_slice(&[0, 0]);
    b.extend_from_slice(&[85, 158, 186, 44]);
    b.extend_from_slice(&[2, 0, 22]);
    b.extend_from_slice(b"test message from pete");
    b
}

fn mo_header() -> mo::Header {
    mo::Header {
        auto_id: 1,
        imei: Imei::new(vec![0; 15]),
        session_status: mo::SessionStatus::Success,
        momsn: 1,
        mtmsn: 1,
        time_of_session: 1508241600,
    }
}

#[test]
fn read_from() {
    let bytes = mo_message_bytes();
    let (ie, next) = InformationElement::read_single(&bytes, 3).unwrap();
    match ie {
        InformationElement::Header(header) => {
            if let Some(header) = header.as_mo() {
                assert_eq!(1894516585, header.auto_id);
                assert_eq!(b"300234063904190".to_vec(), *header.imei.as_bytes());
                assert_eq!(mo::SessionStatus::Success, header.session_status);
                assert_eq!(75, header.momsn);
                assert_eq!(0, header.mtmsn);
                assert_eq!(1436465708, header.time_of_session);
            } else {
                panic!("Unexpected information element")
            }
        }
        _ => panic!("Unexpected information element"),
    }
    match InformationElement::read_single(&bytes, next).unwrap().0 {
        InformationElement::MOPayload(data) => {
            assert_eq!(b"test message from pete".to_vec(), data)
        }
        _ => panic!("Unexpected information element"),
    }
}

#[test]
fn undersized() {
    let bytes = mo_message_bytes();
    let short = bytes[3..33].to_vec();
    assert!(InformationElement::read_single(&short, 0).is_err());
}

#[test]
fn header_len() {
    let ie = InformationElement::Header(Header::MOHeader(mo_header()));
    assert_eq!(31, ie.len());
}

#[test]
fn payload_len() {
    assert_eq!(4, InformationElement::MOPayload(vec![1]).len());
}

#[test]
fn location_information_len() {
    assert_eq!(
        10,
        InformationElement::LocationInformation(mo::LocationInformation::new(
            0,
            (60, 1111),
            (60, 1111),
            None
        ))
        .len()
    );

    assert_eq!(
        14,
        InformationElement::LocationInformation(mo::LocationInformation::new(
            0,
            (60, 1111),
            (60, 1111),
            Some(5)
        ))
        .len()
    );
}

#[test]
fn roundtrip_header() {
    let ie = InformationElement::Header(Header::MOHeader(mo_header()));
    let mut buffer = Vec::new();
    ie.write_to(&mut buffer).unwrap();
    assert_eq!(ie, InformationElement::read_single(&buffer, 0).unwrap().0);
}

#[test]
fn header_time_of_session_too_old() {
    let mut header = mo_header();
    header.time_of_session = -1;
    let ie = InformationElement::Header(Header::MOHeader(header));
    let mut buffer = Vec::new();
    assert_eq!(Err(Error::NegativeTimestamp(-1)), ie.write_to(&mut buffer));
    assert!(buffer.is_empty());
}

#[test]
fn roundtrip_payload() {
    let ie = InformationElement::MOPayload(vec![1]);
    let mut buffer = Vec::new();
    ie.write_to(&mut buffer).unwrap();
    assert_eq!(ie, InformationElement::read_single(&buffer, 0).unwrap().0);
}

#[test]
fn payload_too_long() {
    let payload = vec![0; u16::MAX as usize + 1];
    let mut buffer = Vec::new();
    assert_eq!(
        Err(Error::PayloadTooLong(u16::MAX as usize + 1)),
        InformationElement::MOPayload(payload).write_to(&mut buffer)
    );
}

#[test]
fn roundtrip_location_information() {
    let ie = InformationElement::LocationInformation(mo::LocationInformation::new(
        0,
        (60, 1111),
        (60, 1111),
        None,
    ));
    let mut buffer = Vec::new();
    ie.write_to(&mut buffer).unwrap();
    assert_eq!(ie, InformationElement::read_single(&buffer, 0).unwrap().0);
}
