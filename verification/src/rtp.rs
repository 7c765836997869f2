//! RTP header reading, done by the `rtp-rs` crate.

use rtp_rs::{RtpReader, RtpReaderError};
use vstd::prelude::*;

verus! {

/// What the library reads from an RTP header.
#[derive(Debug, Clone, Copy, PartialEq, Eq, Structural)]
pub struct RtpHeader {
    pub sequence_number: u16,
    pub timestamp: u32,
    /// Where the payload starts in the packet.
    pub payload_offset: usize,
    /// The payload's length, without padding.
    pub payload_len: usize,
}

/// Why a packet is not a valid RTP packet (the variants of `rtp_rs::RtpReaderError`).
#[derive(Debug, Clone, Copy, PartialEq, Eq, Structural)]
pub enum RtpError {
    BufferTooShort(usize),
    UnsupportedVersion(u8),
    HeadersTruncated { header_len: usize, buffer_len: usize },
    PaddingLengthInvalid(u8),
}

/// The end of the fixed header and the contributing sources: 12 bytes, then four for each
/// source counted in the low four bits of the first byte.
pub open spec fn csrc_end(data: Seq<u8>) -> int {
    12 + 4 * (data[0] % 16)
}

/// Where the payload starts: after the contributing sources and, where the extension bit
/// is set, the four bytes of the extension header and the extension itself, whose length in
/// 32-bit words stands in the last two bytes of that header.
pub open spec fn rtp_payload_offset(data: Seq<u8>) -> int {
    let c = csrc_end(data);
    if (data[0] / 16) % 2 == 1 {
        c + 4 + 4 * (data[c + 2] * 256 + data[c + 3])
    } else {
        c
    }
}

/// What `rtp_rs::RtpReader::new` makes of a packet, as the crate's source does it: the
/// length, the version (the top two bits of the first byte) and the header lengths are
/// checked in turn; where the padding bit is set, the last byte gives the padding's length,
/// which must not be 0 and must fit after the headers.
pub open spec fn rtp_read(data: Seq<u8>) -> Result<RtpHeader, RtpError> {
    let len = data.len() as int;
    let c = csrc_end(data);
    let offset = rtp_payload_offset(data);
    let padded = (data[0] / 32) % 2 == 1;
    if len < 12 {
        Err(RtpError::BufferTooShort(len as usize))
    } else if data[0] / 64 != 2 {
        Err(RtpError::UnsupportedVersion(data[0] / 64))
    } else if (data[0] / 16) % 2 == 1 && c + 4 > len {
        Err(RtpError::HeadersTruncated { header_len: (c + 4) as usize, buffer_len: len as usize })
    } else if offset > len {
        Err(RtpError::HeadersTruncated { header_len: offset as usize, buffer_len: len as usize })
    } else if padded && offset == len {
        Err(RtpError::HeadersTruncated { header_len: offset as usize, buffer_len: (len - 1) as usize })
    } else if padded && data[len - 1] == 0 {
        Err(RtpError::PaddingLengthInvalid(0))
    } else if padded && offset + data[len - 1] > len {
        Err(RtpError::PaddingLengthInvalid(data[len - 1]))
    } else {
        Ok(
            RtpHeader {
                sequence_number: (data[2] * 256 + data[3]) as u16,
                timestamp: (data[4] * 0x100_0000 + data[5] * 0x1_0000 + data[6] * 0x100 + data[7]) as u32,
                payload_offset: offset as usize,
                payload_len: (len - offset - if padded { data[len - 1] as int } else { 0 }) as usize,
            },
        )
    }
}

/// `rtp_rs::RtpReader::new(data)`, then its `sequence_number`, `timestamp`,
/// `payload_offset` and the length of its `payload`: the result is [`rtp_read`] of the
/// packet.
#[verifier::external_body]
pub(crate) fn read_rtp(data: &[u8]) -> (r: Result<RtpHeader, RtpError>)
    ensures
        r == rtp_read(data@),
{
    match RtpReader::new(data) {
        Ok(r) => Ok(RtpHeader {
            sequence_number: u16::from(r.sequence_number()),
            timestamp: r.timestamp(),
            payload_offset: r.payload_offset(),
            payload_len: r.payload().len(),
        }),
        Err(RtpReaderError::BufferTooShort(n)) => Err(RtpError::BufferTooShort(n)),
        Err(RtpReaderError::UnsupportedVersion(v)) => Err(RtpError::UnsupportedVersion(v)),
        Err(RtpReaderError::HeadersTruncated { header_len: h, buffer_len: b }) => Err(
            RtpError::HeadersTruncated { header_len: h, buffer_len: b },
        ),
        Err(RtpReaderError::PaddingLengthInvalid(p)) => Err(RtpError::PaddingLengthInvalid(p)),
    }
}

/// `rtp_rs::Seq` subtraction: the difference of two sequence numbers, taken as the
/// shortest way round the 16-bit circle, in -32768..=32767.
pub open spec fn seq_diff(a: u16, b: u16) -> int {
    let delta = a - b;
    if delta < -32768 {
        65536 + delta
    } else if delta > 32767 {
        delta - 65536
    } else {
        delta
    }
}

/// The difference of two sequence numbers round the 16-bit circle.
pub fn sequence_difference(a: u16, b: u16) -> (r: i32)
    ensures
        r == seq_diff(a, b),
        -32768 <= r <= 32767,
{
    let delta = a as i32 - b as i32;
    if delta < -32768 {
        65536 + delta
    } else if delta > 32767 {
        delta - 65536
    } else {
        delta
    }
}

/// Whether `a` comes after `b` on the sequence-number circle (`Seq`'s `>`).
pub open spec fn seq_after(a: u16, b: u16) -> bool {
    seq_diff(a, b) > 0
}

} // verus!
