//! Unit tests for the codec, the status words, the AID matcher and the
//! chaining buffer.
use apdu_dispatch::aid::Aid;
use apdu_dispatch::buffer::{ApduBuffer, RawApduBuffer};
use apdu_dispatch::command::parse_apdu;
use apdu_dispatch::types::Status;

#[test]
fn parse_case_1_no_body() {
    let c = parse_apdu(&vec![0x00, 0xa4, 0x01, 0x02]).unwrap();
    assert_eq!((c.cla, c.ins, c.p1, c.p2), (0x00, 0xa4, 0x01, 0x02));
    assert_eq!(c.data, Vec::<u8>::new());
    assert_eq!(c.le, 0);
    assert!(!c.extended);
}

#[test]
fn parse_case_2s_le_only() {
    let c = parse_apdu(&vec![0x00, 0x10, 0x00, 0x00, 0x05]).unwrap();
    assert_eq!(c.le, 5);
    assert_eq!(c.data, Vec::<u8>::new());

    // zero encodes 256
    let c = parse_apdu(&vec![0x00, 0x10, 0x00, 0x00, 0x00]).unwrap();
    assert_eq!(c.le, 256);
}

#[test]
fn parse_case_3s_data_only() {
    let c = parse_apdu(&vec![0x00, 0xa4, 0x04, 0x00, 0x03, 0x01, 0x02, 0x03]).unwrap();
    assert_eq!(c.data, vec![0x01, 0x02, 0x03]);
    assert_eq!(c.le, 0);
}

#[test]
fn parse_case_4s_data_and_le() {
    let c = parse_apdu(&vec![0x00, 0xa4, 0x04, 0x00, 0x02, 0xaa, 0xbb, 0x08]).unwrap();
    assert_eq!(c.data, vec![0xaa, 0xbb]);
    assert_eq!(c.le, 8);

    // trailing zero Le encodes 256
    let c = parse_apdu(&vec![0x00, 0xa4, 0x04, 0x00, 0x02, 0xaa, 0xbb, 0x00]).unwrap();
    assert_eq!(c.le, 256);
}

#[test]
fn parse_case_2e_extended_le() {
    let c = parse_apdu(&vec![0x00, 0x10, 0x00, 0x00, 0x00, 0x01, 0x00]).unwrap();
    assert_eq!(c.le, 256);
    assert!(c.extended);

    // zero encodes 65536
    let c = parse_apdu(&vec![0x00, 0x10, 0x00, 0x00, 0x00, 0x00, 0x00]).unwrap();
    assert_eq!(c.le, 65536);
}

#[test]
fn parse_case_3e_extended_data() {
    let mut msg = vec![0x00, 0xdb, 0x00, 0x00, 0x00, 0x01, 0x04];
    msg.extend_from_slice(&[0x11; 0x104]);
    let c = parse_apdu(&msg).unwrap();
    assert_eq!(c.data.len(), 0x104);
    assert_eq!(c.le, 0);
    assert!(c.extended);
}

#[test]
fn parse_case_4e_extended_data_and_le() {
    let mut msg = vec![0x00, 0xdb, 0x00, 0x00, 0x00, 0x00, 0x03, 0x0a, 0x0b, 0x0c];
    msg.extend_from_slice(&[0x00, 0x20]);
    let c = parse_apdu(&msg).unwrap();
    assert_eq!(c.data, vec![0x0a, 0x0b, 0x0c]);
    assert_eq!(c.le, 0x20);
}

#[test]
fn parse_rejects_malformed() {
    // too short
    assert!(parse_apdu(&vec![0x00, 0xa4, 0x04]).is_err());
    // invalid class
    assert!(parse_apdu(&vec![0xff, 0xa4, 0x04, 0x00]).is_err());
    // body length inconsistent with Lc
    assert!(parse_apdu(&vec![0x00, 0xa4, 0x04, 0x00, 0x05, 0x01, 0x02]).is_err());
    // extended body with nonzero first byte and impossible length
    assert!(parse_apdu(&vec![0x00, 0xa4, 0x04, 0x00, 0x07, 0x01, 0x02]).is_err());
    // extended marker but truncated length fields
    assert!(parse_apdu(&vec![0x00, 0xa4, 0x04, 0x00, 0x00, 0x01]).is_err());
    // the uniform error is the unspecified checking error
    assert_eq!(
        parse_apdu(&vec![0x00, 0xa4, 0x04]).unwrap_err().sw(),
        0x6f00
    );
}

#[test]
fn status_words() {
    assert_eq!(Status::Success.sw(), 0x9000);
    assert_eq!(Status::MoreAvailable(7).sw(), 0x6107);
    assert_eq!(Status::MoreAvailable(0).sw(), 0x6100);
    assert_eq!(Status::IncorrectDataParameter.sw(), 0x6a80);
    assert_eq!(Status::NotFound.sw(), 0x6a82);
    assert_eq!(Status::UnspecifiedCheckingError.sw(), 0x6f00);
    assert_eq!(Status::UnspecifiedNonpersistentExecutionError.sw(), 0x6400);
    assert_eq!(Status::SecurityStatusNotSatisfied.sw(), 0x6982);
    assert_eq!(Status::Other(0x63c2).sw(), 0x63c2);
    assert_eq!(Status::NotFound.to_message(), vec![0x6a, 0x82]);
}

#[test]
fn aid_bounds_and_matching() {
    assert!(Aid::try_new(&vec![0x01; 4]).is_none());
    assert!(Aid::try_new(&vec![0x01; 17]).is_none());
    let a = Aid::try_new(&vec![0xa0, 0x00, 0x00, 0x00, 0x62]).unwrap();
    assert!(a.matches(&vec![0xa0, 0x00, 0x00, 0x00, 0x62]));
    assert!(a.matches(&vec![0xa0, 0x00, 0x00, 0x00, 0x62, 0x99]));
    assert!(!a.matches(&vec![0xa0, 0x00, 0x00, 0x00]));
    assert!(!a.matches(&vec![0xa0, 0x00, 0x00, 0x00, 0x63]));

    let truncated = Aid::try_new_truncatable(&vec![0xa0, 0x00, 0x00, 0x00, 0x62, 0x01], 5).unwrap();
    assert!(truncated.matches(&vec![0xa0, 0x00, 0x00, 0x00, 0x62, 0xff]));
    assert!(Aid::try_new_truncatable(&vec![0x01; 6], 7).is_none());

    let b = Aid::try_new(&vec![0xa0, 0x00, 0x00, 0x00, 0x62]).unwrap();
    assert!(a.same_id(&b));
    let c = Aid::try_new(&vec![0xa0, 0x00, 0x00, 0x00, 0x63]).unwrap();
    assert!(!a.same_id(&c));
}

#[test]
fn buffer_accumulates_and_replaces() {
    let cmd1 = parse_apdu(&vec![0x10, 0x00, 0x00, 0x00, 0x02, 0xaa, 0xbb]).unwrap();
    let cmd2 = parse_apdu(&vec![0x00, 0x00, 0x00, 0x00, 0x02, 0xcc, 0xdd]).unwrap();

    let mut buffer = ApduBuffer {
        raw: RawApduBuffer::Empty,
    };
    buffer.request(&cmd1);
    match &buffer.raw {
        RawApduBuffer::Request(c) => {
            assert_eq!(c.data, vec![0xaa, 0xbb]);
            assert_eq!(c.cla, 0x10);
        }
        _ => panic!("a request must be buffered"),
    }

    // a second command appends its data; the first header stays
    buffer.request(&cmd2);
    match &buffer.raw {
        RawApduBuffer::Request(c) => {
            assert_eq!(c.data, vec![0xaa, 0xbb, 0xcc, 0xdd]);
            assert_eq!(c.cla, 0x10);
        }
        _ => panic!("a request must be buffered"),
    }

    // a response overwrites unconditionally
    buffer.response(&vec![0x01, 0x02]);
    match &buffer.raw {
        RawApduBuffer::Response(b) => assert_eq!(b, &vec![0x01, 0x02]),
        _ => panic!("a response must be buffered"),
    }

    // a new request discards the pending response
    buffer.request(&cmd1);
    match &buffer.raw {
        RawApduBuffer::Request(c) => assert_eq!(c.data, vec![0xaa, 0xbb]),
        _ => panic!("a request must be buffered"),
    }
}

#[test]
fn buffer_overflow_drops_appended_data() {
    // two blocks whose data together exceeds the command buffer: the second
    // append is dropped whole, the first stays
    let mut big = vec![0x10, 0x00, 0x00, 0x00, 0x00, 0x02, 0x58];
    big.extend_from_slice(&[0x42; 600]);
    let cmd_big = parse_apdu(&big).unwrap();
    assert_eq!(cmd_big.data.len(), 600);

    let mut buffer = ApduBuffer {
        raw: RawApduBuffer::Empty,
    };
    buffer.request(&cmd_big);
    buffer.request(&cmd_big);
    match &buffer.raw {
        RawApduBuffer::Request(c) => {
            // 1200 bytes exceed the capacity of 1024: still one block's worth
            assert_eq!(c.data.len(), 600);
        }
        _ => panic!("a request must be buffered"),
    }
}
