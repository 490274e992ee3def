use timebay::frame::frame_checksum_ok;
use timebay::frame::ControlFrameRaw;
use timebay::frame::FrameError;
use timebay::frame::NineByteCm;

#[test]
fn nine_byte_frame_parses() {
    // full frame with headers: dist 0x0203, amp 0x0405, temp 0x0607
    let frame = [0x59u8, 0x59, 0x03, 0x02, 0x05, 0x04, 0x07, 0x06, 0x00];
    let parsed = NineByteCm::parse(&frame).unwrap();
    assert_eq!(
        parsed,
        NineByteCm {
            dist: 0x0203,
            amp: 0x0405,
            temp: 0x0607
        }
    );

    // headers may be omitted
    let parsed = NineByteCm::parse(&frame[2..]).unwrap();
    assert_eq!(parsed.dist, 0x0203);

    // distance converts from cm to mm
    assert_eq!(parsed.dist_mm(), 0x0203 * 10);

    assert_eq!(NineByteCm::parse(&frame[..6]), Err(FrameError::TooShort));
}

#[test]
fn nine_byte_checksum() {
    // checksum is the low byte of the sum of the first eight bytes
    let mut frame = [0x59u8, 0x59, 0xff, 0x01, 0x00, 0x00, 0x30, 0x00, 0x00];
    let sum: u32 = frame[..8].iter().map(|b| *b as u32).sum();
    frame[8] = (sum % 256) as u8;
    assert!(frame_checksum_ok(&frame));

    frame[8] = frame[8].wrapping_add(1);
    assert!(!frame_checksum_ok(&frame));
}

#[test]
fn checked_parse_rejects_bad_checksums() {
    let mut frame = [0x59u8, 0x59, 0x03, 0x02, 0x05, 0x04, 0x07, 0x06, 0x00];
    let sum: u32 = frame[..8].iter().map(|b| *b as u32).sum();
    frame[8] = (sum % 256) as u8;

    let parsed = NineByteCm::parse_checked(&frame).unwrap();
    assert_eq!(parsed.dist, 0x0203);

    frame[8] = frame[8].wrapping_add(1);
    assert_eq!(
        NineByteCm::parse_checked(&frame),
        Err(FrameError::ChecksumFailed)
    );

    assert_eq!(
        NineByteCm::parse_checked(&frame[..8]),
        Err(FrameError::TooShort)
    );
}

#[test]
fn control_frame_parses() {
    // five-byte frame: head, len, id, one payload byte, checksum
    let frame = [0x5au8, 0x05, 0x07, 0x42, 0xa8];
    let parsed = ControlFrameRaw::parse(&frame).unwrap();
    assert_eq!(parsed.head, 0x5a);
    assert_eq!(parsed.len, 5);
    assert_eq!(parsed.id, 0x07);
    assert_eq!(parsed.payload, Some(vec![0x42]));
    assert_eq!(parsed.chksum, 0xa8);

    // minimal frame has no payload
    let frame = [0x5au8, 0x04, 0x07, 0x65];
    let parsed = ControlFrameRaw::parse(&frame).unwrap();
    assert_eq!(parsed.payload, None);
    assert_eq!(parsed.chksum, 0x65);

    assert_eq!(ControlFrameRaw::parse(&[]), Err(FrameError::TooShort));
    assert_eq!(
        ControlFrameRaw::parse(&[0x12, 0x04, 0x07, 0x65]),
        Err(FrameError::InvalidHead)
    );
    // the length byte must match the frame length
    assert_eq!(
        ControlFrameRaw::parse(&[0x5a, 0x09, 0x07, 0x65]),
        Err(FrameError::TooShort)
    );
    assert_eq!(
        ControlFrameRaw::parse(&[0x5a, 0x04]),
        Err(FrameError::TooShort)
    );
}
