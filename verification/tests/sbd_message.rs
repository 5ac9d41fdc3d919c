use sbd_lib::{mo, mt};
use sbd_lib::{Header, Imei, InformationElement, Message};

/// The complete wire bytes of a small mobile-originated message: one
/// header element and one payload element.
fn small_message_bytes() -> Vec<u8> {
    let mut b = vec![1u8, 0, 56];
    b.extend_from_slice(&[1, 0, 28]);
    b.extend_from_slice(&[112, 236, 7, 105]);
    b.extend_from_slice(b"300234063904190");
    b.push(0);
    b.extend_from_slice(&[0, 75]);
    b.extend_from_slice(&[0, 0]);
    b.extend_from_slice(&[85, 158, 186, 44]);
    b.extend_from_slice(&[2, 0, 22]);
    b.extend_from_slice(b"test message from pete");
    b
}

/// A message that also carries a location element after its payload.
fn located_message_bytes() -> Vec<u8> {
    let mut b = vec![1u8, 0, 50];
    b.extend_from_slice(&[1, 0, 28]);
    b.extend_from_slice(&[0, 0, 0, 7]);
    b.extend_from_slice(b"300234063904190");
    b.push(0);
    b.extend_from_slice(&[0, 1]);
    b.extend_from_slice(&[0, 0]);
    b.extend_from_slice(&[89, 104, 47, 0]);
    b.extend_from_slice(&[2, 0, 2]);
    b.extend_from_slice(b"hi");
    b.extend_from_slice(&[3, 0, 11, 0, 60, 20, 12, 29, 55, 96, 0, 0, 0, 93]);
    b
}

/// A lone mobile-terminated confirmation element inside the outer frame.
fn confirmation_bytes() -> Vec<u8> {
    let mut b = vec![1u8, 0, 28];
    b.extend_from_slice(&[0x44, 0, 25]);
    b.extend_from_slice(&[17, 34, 51, 68]);
    b.extend_from_slice(b"300434060009290");
    b.extend_from_slice(&[182, 163, 234, 22]);
    b.extend_from_slice(&[0, 1]);
    b
}

/// A larger message: header, a 51-byte payload, and a location.
fn big_message_bytes() -> Vec<u8> {
    let mut b = vec![1u8, 0, 99];
    b.extend_from_slice(&[1, 0, 28]);
    b.extend_from_slice(&[1, 148, 99, 236]);
    b.extend_from_slice(b"300434069104350");
    b.push(0);
    b.extend_from_slice(&[2, 33]);
    b.extend_from_slice(&[0, 0]);
    b.extend_from_slice(&[94, 160, 9, 116]);
    b.extend_from_slice(&[2, 0, 51]);
    b.extend_from_slice(&big_payload());
    b.extend_from_slice(&[3, 0, 11, 0, 59, 190, 101, 31, 120, 124, 0, 0, 0, 3]);
    b
}

fn big_payload() -> Vec<u8> {
    vec![
        10, 16, 18, 138, 173, 180, 242, 224, 34, 215, 130, 227, 62, 42, 16, 32, 165, 139, 16, 1,
        24, 129, 147, 128, 245, 5, 32, 129, 138, 188, 139, 1, 40, 8, 48, 75, 56, 156, 167, 215,
        186, 4, 64, 136, 224, 153, 172, 2, 72, 152, 1,
    ]
}

fn mo_header() -> mo::Header {
    mo::Header {
        auto_id: 1,
        imei: Imei::new(vec![0, 1, 2, 3, 4, 5, 6, 7, 8, 9, 10, 11, 12, 13, 14]),
        session_status: mo::SessionStatus::Success,
        momsn: 1,
        mtmsn: 0,
        time_of_session: 1506819723,
    }
}

fn location() -> mo::LocationInformation {
    mo::LocationInformation::new(0, (43, 30854), (41, 48860), Some(3))
}

#[test]
fn from_read() {
    Message::read_from(&small_message_bytes()).unwrap();
}

#[test]
fn imei() {
    let message = Message::new(
        Header::MOHeader(mo::Header {
            auto_id: 1,
            imei: Imei::new(b"123456789012345".to_vec()),
            session_status: mo::SessionStatus::Success,
            momsn: 1,
            mtmsn: 0,
            time_of_session: 1700000000,
        }),
        vec![],
        None,
        vec![],
    );
    assert_eq!(b"123456789012345".to_vec(), *message.imei().as_bytes());
}

#[test]
fn no_payload() {
    let header = mo_header();
    assert!(Message::create(vec![header.into()]).is_err());
}

#[test]
fn two_payloads() {
    let header = mo_header();
    assert!(Message::create(vec![
        header.into(),
        InformationElement::MOPayload(vec![]),
        InformationElement::MOPayload(vec![])
    ])
    .is_err());
}

#[test]
fn no_header() {
    assert!(Message::create(vec![InformationElement::MOPayload(vec![])]).is_err());
}

#[test]
fn two_headers() {
    let header = mo_header();
    assert!(Message::create(vec![header.clone().into(), header.into()]).is_err());
}

#[test]
fn two_location() {
    let location = location();
    assert!(Message::create(vec![location.clone().into(), location.into()]).is_err());
}

#[test]
fn values() {
    let message = Message::read_from(&small_message_bytes()).unwrap();
    if let Some(header) = message.header().as_mo() {
        assert_eq!(1894516585, header.auto_id);
        assert_eq!(b"300234063904190".to_vec(), *header.imei().as_bytes());
        assert_eq!(mo::SessionStatus::Success, header.session_status);
        assert_eq!(75, header.momsn);
        assert_eq!(0, header.mtmsn);
        assert_eq!(1436465708, header.time_of_session);
        assert_eq!(
            "test message from pete",
            String::from_utf8(message.payload().to_vec()).unwrap()
        );
    } else {
        panic!("expected a mobile-originated header");
    }
}

#[test]
fn generate_save_and_read_back() {
    let header = Header::MOHeader(mo::Header {
        auto_id: 0x545645,
        imei: Imei::new(vec![0x31; 15]),
        session_status: mo::SessionStatus::Success,
        momsn: 101,
        mtmsn: 102,
        time_of_session: 1700000000,
    });
    let mut buffer = vec![];
    let message = Message::new(header, vec![], None, vec![]);
    message.write_to(&mut buffer).unwrap();

    let read_back = Message::read_from(&buffer).unwrap();

    assert_eq!(message.header().as_mo(), read_back.header().as_mo())
}

#[test]
fn sbd_mo_message_without_location() {
    let message = Message::read_from(&small_message_bytes()).unwrap();

    let msg = Message::new(
        mo::Header {
            auto_id: 1894516585,
            session_status: mo::SessionStatus::Success,
            imei: Imei::new(b"300234063904190".to_vec()),
            momsn: 75,
            mtmsn: 0,
            time_of_session: 1436465708,
        }
        .into(),
        vec![
            116, 101, 115, 116, 32, 109, 101, 115, 115, 97, 103, 101, 32, 102, 114, 111, 109, 32,
            112, 101, 116, 101,
        ],
        None,
        vec![],
    );
    assert_eq!(msg, message);
}

#[test]
fn sbd_mo_message_wit_location() {
    let iei = InformationElement::parse(&located_message_bytes()).unwrap();

    let message = Message::create(iei).unwrap();
    let location = message.location().clone().unwrap();

    let loc = mo::LocationInformation::new(0, (60, 5132), (29, 14176), Some(93));

    assert_eq!(loc, location);

    let mut buffer = vec![];
    message.write_to(&mut buffer).unwrap();
    let read_back = Message::read_from(&buffer).unwrap();
    assert_eq!(message, read_back);
}

#[test]
fn sbd_responce_for_mt() {
    let iei = InformationElement::parse(&confirmation_bytes()).unwrap();
    let resp = InformationElement::Status(
        mt::ConfirmationStatus {
            message_id: 287454020,
            imei: Imei::new(b"300434060009290".to_vec()),
            auto_id: 3064195606,
            status: 1,
        }
        .into(),
    );
    assert_eq!(resp, iei[0]);
}

#[test]
fn sbd_mo_message_wit_location_big_data() {
    let iei = InformationElement::parse(&big_message_bytes()).unwrap();
    let message = Message::create(iei).unwrap();
    let msg = Message::new(
        mo::Header {
            auto_id: 26502124,
            session_status: mo::SessionStatus::Success,
            imei: Imei::new(b"300434069104350".to_vec()),
            momsn: 545,
            mtmsn: 0,
            time_of_session: 1587546484,
        }
        .into(),
        big_payload(),
        Some(mo::LocationInformation::new(
            0,
            (59, 48741),
            (31, 30844),
            Some(3),
        )),
        vec![],
    );

    assert_eq!(msg, message);
}
