//! Parsing of the serial sensor's wire frames.
//!
//! The sensor streams nine-byte measurement frames: two `0x59` header
//! bytes, then distance, signal amplitude and temperature as
//! little-endian sixteen-bit values, and a checksum byte holding the
//! low byte of the sum of the first eight bytes.  Control traffic uses
//! a separate framing with a `0x5A` head and an explicit length byte.

use vstd::prelude::*;

verus! {

/// Errors in a sensor frame.
#[derive(Clone, Copy, Debug, PartialEq, Eq, Structural)]
pub enum FrameError {
    /// The head byte was not the expected value.
    InvalidHead,
    /// The frame was too short.
    TooShort,
    /// The checksum byte did not match the frame.
    ChecksumFailed,
}

/// The value of the little-endian byte pair `(lo, hi)`.
pub open spec fn spec_u16_le(lo: u8, hi: u8) -> int {
    lo + 256 * hi
}

/// Default measurement frame format, distances in cm.
#[derive(Clone, Copy, Debug, PartialEq, Eq, Structural)]
pub struct NineByteCm {
    /// Distance in cm.
    pub dist: u16,
    /// Signal strength, reliable when over one hundred.
    pub amp: u16,
    /// Temperature in degrees C.
    pub temp: u16,
}

impl NineByteCm {
    /// Parses a measurement frame.  The header bytes may be omitted:
    /// only the last seven bytes are read, and the trailing checksum
    /// byte is not verified here.
    pub fn parse(value: &[u8]) -> (r: Result<NineByteCm, FrameError>)
        ensures
            value@.len() < 7 ==> r == Err::<NineByteCm, FrameError>(FrameError::TooShort),
            value@.len() >= 7 ==> (r matches Ok(c) && {
                let b = value@.len() - 7;
                &&& c.dist == spec_u16_le(value@[b], value@[b + 1])
                &&& c.amp == spec_u16_le(value@[b + 2], value@[b + 3])
                &&& c.temp == spec_u16_le(value@[b + 4], value@[b + 5])
            }),
    {
        let n: usize = value.len();
        if n < 7 {
            return Err(FrameError::TooShort);
        }
        let b: usize = n - 7;
        let dist: u16 = value[b] as u16 + 256 * value[b + 1] as u16;
        let amp: u16 = value[b + 2] as u16 + 256 * value[b + 3] as u16;
        let temp: u16 = value[b + 4] as u16 + 256 * value[b + 5] as u16;
        Ok(NineByteCm { dist, amp, temp })
    }

    /// Parses a full nine-byte measurement frame, verifying its
    /// checksum first: a frame whose ninth byte does not hold the low
    /// byte of the sum of the other eight is rejected.
    pub fn parse_checked(frame: &[u8]) -> (r: Result<NineByteCm, FrameError>)
        ensures
            frame@.len() != 9 ==> r == Err::<NineByteCm, FrameError>(FrameError::TooShort),
            frame@.len() == 9 && frame@[8] != spec_sum_bytes(frame@.take(8)) % 256 ==> r == Err::<
                NineByteCm,
                FrameError,
            >(FrameError::ChecksumFailed),
            frame@.len() == 9 && frame@[8] == spec_sum_bytes(frame@.take(8)) % 256 ==> (r matches
                Ok(c) && c.dist == spec_u16_le(frame@[2], frame@[3]) && c.amp == spec_u16_le(
                frame@[4],
                frame@[5],
            ) && c.temp == spec_u16_le(frame@[6], frame@[7])),
    {
        if frame.len() != 9 {
            return Err(FrameError::TooShort);
        }
        if !frame_checksum_ok(frame) {
            return Err(FrameError::ChecksumFailed);
        }
        Self::parse(frame)
    }

    /// The distance in millimeters.
    pub fn dist_mm(&self) -> (r: u32)
        ensures
            r == self.dist * 10,
    {
        self.dist as u32 * 10
    }
}

/// The sum of the bytes of `s`.
pub open spec fn spec_sum_bytes(s: Seq<u8>) -> int
    decreases s.len(),
{
    if s.len() == 0 {
        0
    } else {
        spec_sum_bytes(s.drop_last()) + s.last()
    }
}

/// Checks a nine-byte measurement frame's checksum: the ninth byte
/// must hold the low byte of the sum of the first eight.
pub fn frame_checksum_ok(frame: &[u8]) -> (r: bool)
    requires
        frame@.len() == 9,
    ensures
        r == (frame@[8] == spec_sum_bytes(frame@.take(8)) % 256),
{
    let mut sum: u32 = 0;
    let mut i: usize = 0;
    while i < 8
        invariant
            0 <= i <= 8,
            frame@.len() == 9,
            sum == spec_sum_bytes(frame@.take(i as int)),
            sum <= i * 255,
        decreases 8 - i,
    {
        proof {
            assert(frame@.take(i + 1).drop_last() =~= frame@.take(i as int));
        }
        sum = sum + frame[i] as u32;
        i += 1;
    }
    (sum % 256) as u8 == frame[8]
}

/// Raw control frame, either a request or a response.
#[derive(Clone, Debug, PartialEq, Eq)]
pub struct ControlFrameRaw {
    /// Constant `0x5A`.
    pub head: u8,
    /// Count of the bytes from the head through the checksum.
    pub len: u8,
    /// Control frame type.
    pub id: u8,
    /// Optional data payload, depending on the frame type.
    pub payload: Option<Vec<u8>>,
    /// Low byte of the sum from the head through the payload.
    pub chksum: u8,
}

impl ControlFrameRaw {
    /// Parses a raw control frame from bytes.
    ///
    /// The length byte must count every byte of the frame, so a frame
    /// shorter than the four mandatory bytes, or longer than the one
    /// length byte can express, is malformed.
    pub fn parse(value: &[u8]) -> (r: Result<ControlFrameRaw, FrameError>)
        ensures
            (({
                let b = value@;
                if b.len() == 0 {
                    r == Err::<ControlFrameRaw, FrameError>(FrameError::TooShort)
                } else if b[0] != 0x5A {
                    r == Err::<ControlFrameRaw, FrameError>(FrameError::InvalidHead)
                } else if b.len() < 4 || b.len() != b[1] {
                    r == Err::<ControlFrameRaw, FrameError>(FrameError::TooShort)
                } else {
                    r matches Ok(f) && f.head == 0x5A && f.len == b[1] && f.id == b[2]
                        && f.chksum == b[b.len() - 1] && (if b[1] > 4 {
                        f.payload matches Some(p) && p@ == b.subrange(3, b.len() - 1)
                    } else {
                        f.payload is None
                    })
                }
            })),
    {
        let n: usize = value.len();
        if n == 0 {
            return Err(FrameError::TooShort);
        }
        let head: u8 = value[0];
        if head != 0x5A {
            return Err(FrameError::InvalidHead);
        }
        if n < 4 {
            return Err(FrameError::TooShort);
        }
        let len: u8 = value[1];
        if n != len as usize {
            return Err(FrameError::TooShort);
        }
        let id: u8 = value[2];
        let payload: Option<Vec<u8>> = if len > 4 {
            let mut p: Vec<u8> = Vec::new();
            let mut i: usize = 3;
            while i < n - 1
                invariant
                    3 <= i <= n - 1,
                    4 <= n == value@.len(),
                    p@ == value@.subrange(3, i as int),
                decreases n - 1 - i,
            {
                p.push(value[i]);
                proof {
                    assert(p@ =~= value@.subrange(3, i + 1));
                }
                i += 1;
            }
            Some(p)
        } else {
            None
        };
        let chksum: u8 = value[n - 1];
        Ok(ControlFrameRaw { head, len, id, payload, chksum })
    }
}

} // verus!
