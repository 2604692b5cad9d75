//! The fingerprint of a captured frame: the fields of its Ethernet II header.
//!
//! The field set is the two hardware addresses and the ethertype. Two frames
//! whose first fourteen bytes agree always fingerprint alike; nothing past
//! the header and nothing about the time of arrival enters the key.

use vstd::prelude::*;

verus! {

/// Length in bytes of an Ethernet II header: destination, source, ethertype.
pub const ETHERNET_HEADER_LEN: usize = 14;

/// The structural key under which frames are counted. A hardware address is
/// held as a 48-bit integer, its first byte on the wire most significant.
#[derive(Clone, Copy, Debug, PartialEq, Eq, Hash, Structural)]
pub struct PacketInfos {
    pub mac_address_source: u64,
    pub mac_address_destination: u64,
    pub ethertype: u16,
}

/// The six bytes of `frame` from `start` on, read as a big-endian integer.
pub open spec fn mac_at(frame: Seq<u8>, start: int) -> int {
    ((((frame[start] as int * 256 + frame[start + 1] as int) * 256 + frame[start + 2] as int) * 256
        + frame[start + 3] as int) * 256 + frame[start + 4] as int) * 256 + frame[start + 5] as int
}

/// The fingerprint of a frame, or `None` where the frame is too short to
/// hold an Ethernet II header (a malformed frame).
pub open spec fn spec_fingerprint(frame: Seq<u8>) -> Option<PacketInfos> {
    if frame.len() < ETHERNET_HEADER_LEN {
        None
    } else {
        Some(
            PacketInfos {
                mac_address_destination: mac_at(frame, 0) as u64,
                mac_address_source: mac_at(frame, 6) as u64,
                ethertype: (frame[12] as int * 256 + frame[13] as int) as u16,
            },
        )
    }
}

fn read_mac(frame: &[u8], start: usize) -> (r: u64)
    requires
        start + 6 <= frame@.len(),
    ensures
        r as int == mac_at(frame@, start as int),
        r < 0x1_0000_0000_0000,
{
    let b0 = frame[start] as u64;
    let b1 = frame[start + 1] as u64;
    let b2 = frame[start + 2] as u64;
    let b3 = frame[start + 3] as u64;
    let b4 = frame[start + 4] as u64;
    let b5 = frame[start + 5] as u64;
    assert(b0 * 256 + b1 < 0x1_0000) by (nonlinear_arith)
        requires b0 < 256, b1 < 256;
    let a1 = b0 * 256 + b1;
    assert(a1 * 256 + b2 < 0x100_0000) by (nonlinear_arith)
        requires a1 < 0x1_0000, b2 < 256;
    let a2 = a1 * 256 + b2;
    assert(a2 * 256 + b3 < 0x1_0000_0000) by (nonlinear_arith)
        requires a2 < 0x100_0000, b3 < 256;
    let a3 = a2 * 256 + b3;
    assert(a3 * 256 + b4 < 0x100_0000_0000) by (nonlinear_arith)
        requires a3 < 0x1_0000_0000, b4 < 256;
    let a4 = a3 * 256 + b4;
    assert(a4 * 256 + b5 < 0x1_0000_0000_0000) by (nonlinear_arith)
        requires a4 < 0x100_0000_0000, b5 < 256;
    a4 * 256 + b5
}

/// Computes the fingerprint of a raw frame; `None` for a frame shorter than
/// an Ethernet II header.
pub fn fingerprint_of(frame: &[u8]) -> (r: Option<PacketInfos>)
    ensures
        r == spec_fingerprint(frame@),
{
    if frame.len() < ETHERNET_HEADER_LEN {
        None
    } else {
        let destination = read_mac(frame, 0);
        let source = read_mac(frame, 6);
        let ethertype = (frame[12] as u16) * 256 + frame[13] as u16;
        Some(
            PacketInfos {
                mac_address_source: source,
                mac_address_destination: destination,
                ethertype,
            },
        )
    }
}

} // verus!
