use sbd_lib::information_element::Status;
use sbd_lib::{mo, mt};
use sbd_lib::{Error, Header, Imei, InformationElement, Message};

/// A hand-written message: revision one, a 35-byte body holding a
/// mobile-originated header (id 1, momsn 75, mtmsn 0, status zero) and a
/// one-byte payload.
fn scenario_bytes() -> Vec<u8> {
    let mut b = vec![1u8, 0, 35];
    b.extend_from_slice(&[1, 0, 28]);
    b.extend_from_slice(&[0, 0, 0, 1]);
    b.extend_from_slice(b"300234063904190");
    b.push(0);
    b.extend_from_slice(&[0, 75]);
    b.extend_from_slice(&[0, 0]);
    b.extend_from_slice(&[85, 158, 186, 44]);
    b.extend_from_slice(&[2, 0, 1]);
    b.push(0x41);
    b
}

#[test]
fn concrete_scenario_decodes_and_reencodes() {
    let bytes = scenario_bytes();
    let message = Message::read_from(&bytes).unwrap();
    let header = message.header().as_mo().expect("expected an MO header");
    assert_eq!(1, header.auto_id);
    assert_eq!(b"300234063904190".to_vec(), *header.imei().as_bytes());
    assert_eq!(mo::SessionStatus::Success, header.session_status);
    assert_eq!(75, header.momsn);
    assert_eq!(0, header.mtmsn);
    assert_eq!(1436465708, header.time_of_session);
    assert_eq!(vec![0x41], *message.payload());

    let mut reencoded = Vec::new();
    message.write_to(&mut reencoded).unwrap();
    assert_eq!(bytes, reencoded);
}

#[test]
fn epoch_timestamp_encodes() {
    let header = mo::Header {
        auto_id: 9,
        imei: Imei::new(vec![0x30; 15]),
        session_status: mo::SessionStatus::Success,
        momsn: 0,
        mtmsn: 0,
        time_of_session: 0,
    };
    let mut buffer = Vec::new();
    assert_eq!(Ok(()), header.write_to(&mut buffer));
    assert_eq!(31, buffer.len());
}

#[test]
fn pre_epoch_timestamp_fails() {
    let header = mo::Header {
        auto_id: 9,
        imei: Imei::new(vec![0x30; 15]),
        session_status: mo::SessionStatus::Success,
        momsn: 0,
        mtmsn: 0,
        time_of_session: -62135596800,
    };
    let mut buffer = Vec::new();
    assert_eq!(
        Err(Error::NegativeTimestamp(-62135596800)),
        header.write_to(&mut buffer)
    );
    assert!(buffer.is_empty());
}

#[test]
fn payload_at_limit_encodes() {
    let ie = InformationElement::MOPayload(vec![7; 65535]);
    let mut buffer = Vec::new();
    assert_eq!(Ok(()), ie.write_to(&mut buffer));
    assert_eq!(65538, buffer.len());
    assert_eq!(ie, InformationElement::read_single(&buffer, 0).unwrap().0);
}

#[test]
fn payload_over_limit_fails() {
    let ie = InformationElement::MOPayload(vec![7; 65536]);
    let mut buffer = Vec::new();
    assert_eq!(Err(Error::PayloadTooLong(65536)), ie.write_to(&mut buffer));
    assert!(buffer.is_empty());
}

#[test]
fn overall_message_length_fails() {
    let message = Message::new(
        Header::MOHeader(mo::Header {
            auto_id: 1,
            imei: Imei::new(vec![0x30; 15]),
            session_status: mo::SessionStatus::Success,
            momsn: 0,
            mtmsn: 0,
            time_of_session: 0,
        }),
        vec![7; 65535],
        None,
        vec![],
    );
    let mut buffer = Vec::new();
    assert_eq!(
        Err(Error::OverallMessageLength(65569)),
        message.write_to(&mut buffer)
    );
    assert!(buffer.is_empty());
}

#[test]
fn invalid_protocol_revision() {
    let mut bytes = scenario_bytes();
    bytes[0] = 2;
    assert_eq!(
        Err(Error::InvalidProtocolRevisionNumber(2)),
        Message::read_from(&bytes)
    );
}

#[test]
fn invalid_information_element_identifier() {
    let mut bytes = scenario_bytes();
    bytes[3] = 0x99;
    assert_eq!(
        Err(Error::InvalidInformationElementIdentifier(0x99)),
        Message::read_from(&bytes)
    );
}

#[test]
fn unknown_session_status_fails() {
    let mut bytes = scenario_bytes();
    bytes[25] = 3;
    assert_eq!(Err(Error::UnknownSessionStatus(3)), Message::read_from(&bytes));
}

#[test]
fn truncated_message_fails() {
    let bytes = scenario_bytes();
    for cut in 0..bytes.len() {
        let short = bytes[..cut].to_vec();
        assert_eq!(Err(Error::Truncated), Message::read_from(&short));
    }
}

#[test]
fn missing_header_error() {
    assert_eq!(
        Err(Error::NoHeader),
        Message::create(vec![InformationElement::MOPayload(vec![1])])
    );
}

#[test]
fn missing_payload_error() {
    let header = mo::Header {
        auto_id: 1,
        imei: Imei::new(vec![0x30; 15]),
        session_status: mo::SessionStatus::Success,
        momsn: 0,
        mtmsn: 0,
        time_of_session: 0,
    };
    assert_eq!(
        Err(Error::NoPayload),
        Message::create(vec![InformationElement::Header(Header::MOHeader(header))])
    );
}

#[test]
fn duplicate_errors_are_exact() {
    let header = mo::Header {
        auto_id: 1,
        imei: Imei::new(vec![0x30; 15]),
        session_status: mo::SessionStatus::Success,
        momsn: 0,
        mtmsn: 0,
        time_of_session: 0,
    };
    let h = InformationElement::Header(Header::MOHeader(header));
    let p = InformationElement::MOPayload(vec![]);
    let l = InformationElement::LocationInformation(mo::LocationInformation::new(
        0,
        (1, 2),
        (3, 4),
        None,
    ));
    assert_eq!(
        Err(Error::TwoHeaders),
        Message::create(vec![h.clone(), h.clone()])
    );
    assert_eq!(
        Err(Error::TwoPayloads),
        Message::create(vec![h.clone(), p.clone(), p.clone()])
    );
    assert_eq!(
        Err(Error::TwoLocations),
        Message::create(vec![h.clone(), p.clone(), l.clone(), l.clone()])
    );
}

#[test]
fn roundtrip_with_confirmations() {
    let message = Message::new(
        Header::MOHeader(mo::Header {
            auto_id: 42,
            imei: Imei::new(b"300234063904190".to_vec()),
            session_status: mo::SessionStatus::Timeout,
            momsn: 7,
            mtmsn: 8,
            time_of_session: 1587546484,
        }),
        vec![1, 2, 3],
        Some(mo::LocationInformation::new(0x80, (12, 34), (56, 789), None)),
        vec![
            InformationElement::Status(Status::MOStatus(mo::ConfirmationStatus { status: true })),
            InformationElement::Status(Status::MTStatus(mt::ConfirmationStatus {
                message_id: 5,
                imei: Imei::new(b"300434060009290".to_vec()),
                auto_id: 6,
                status: -3,
            })),
        ],
    );
    let mut buffer = Vec::new();
    message.write_to(&mut buffer).unwrap();
    let read_back = Message::read_from(&buffer).unwrap();
    assert_eq!(message, read_back);
}

#[test]
fn roundtrip_mt_message() {
    let message = Message::new(
        Header::MTHeader(mt::Header {
            message_id: 77,
            imei: Imei::new(b"300434060009290".to_vec()),
            flags: 0x0102,
        }),
        vec![9, 8, 7],
        None,
        vec![],
    );
    let mut buffer = Vec::new();
    message.write_to(&mut buffer).unwrap();
    let read_back = Message::read_from(&buffer).unwrap();
    assert_eq!(message, read_back);
}

#[test]
fn message_length() {
    let message = Message::read_from(&scenario_bytes()).unwrap();
    assert_eq!(scenario_bytes().len(), message.length());
}

#[test]
fn empty_payload_is_empty() {
    assert!(InformationElement::MOPayload(vec![]).is_empty());
    assert!(!InformationElement::MOPayload(vec![1]).is_empty());
    assert!(!InformationElement::MTPayload(vec![]).is_empty());
}

#[test]
fn session_status_codes() {
    let cases = [
        (0u8, mo::SessionStatus::Success),
        (1, mo::SessionStatus::OkMobileTerminatedTooLarge),
        (2, mo::SessionStatus::OkLocationUnacceptableQuality),
        (10, mo::SessionStatus::Timeout),
        (12, mo::SessionStatus::MobileOriginatedTooLarge),
        (13, mo::SessionStatus::RfLinkLoss),
        (14, mo::SessionStatus::ImeiProtocolAnomaly),
        (15, mo::SessionStatus::Prohibited),
    ];
    for (code, status) in cases {
        assert_eq!(Ok(status), mo::SessionStatus::new(code));
        assert_eq!(code, status.as_u8());
    }
    for code in [3u8, 9, 11, 16, 255] {
        assert_eq!(Err(Error::UnknownSessionStatus(code)), mo::SessionStatus::new(code));
    }
}

#[test]
fn confirmation_status_success() {
    let mo_status = mo::ConfirmationStatus { status: true };
    assert!(mo_status.status());
    let mt_status = mt::ConfirmationStatus {
        message_id: 1,
        imei: Imei::new(vec![0x30; 15]),
        auto_id: 2,
        status: 1,
    };
    assert!(mt_status.status());
    let mt_failed = mt::ConfirmationStatus {
        message_id: 1,
        imei: Imei::new(vec![0x30; 15]),
        auto_id: 2,
        status: 0,
    };
    assert!(!mt_failed.status());
}
