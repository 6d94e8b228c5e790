//! Wake signal: the broadcast frame that powers on a sleeping backend host.

use vstd::prelude::*;

verus! {

/// Length of a hardware identifier in bytes.
pub const HARDWARE_ID_LEN: usize = 6;

/// Length of a wake frame in bytes: six marker bytes and sixteen copies of
/// the hardware identifier.
pub const WAKE_FRAME_LEN: usize = 102;

/// The frame that wakes the host with hardware identifier `target`: six bytes
/// `0xFF`, then `target` sixteen times over.
pub open spec fn wake_frame(target: Seq<u8>) -> Seq<u8>
    recommends
        target.len() == HARDWARE_ID_LEN,
{
    Seq::new(
        WAKE_FRAME_LEN as nat,
        |i: int|
            if i < 6 {
                0xFFu8
            } else {
                target[(i - 6) % 6]
            },
    )
}

/// `wake_on_lan::MagicPacket`, carried through as a value whose inside is not
/// seen.
#[verifier::external_type_specification]
#[verifier::external_body]
pub struct ExMagicPacket(wake_on_lan::MagicPacket);

/// The bytes that a magic packet carries.
pub uninterp spec fn packet_payload(packet: wake_on_lan::MagicPacket) -> Seq<u8>;

/// `wake_on_lan::MagicPacket::new` builds the packet for a hardware
/// identifier; its payload is the wake frame of that identifier.
pub assume_specification[ wake_on_lan::MagicPacket::new ](
    mac_address: &[u8; 6],
) -> (packet: wake_on_lan::MagicPacket)
    ensures
        packet_payload(packet) == wake_frame(mac_address@),
;

/// `wake_on_lan::MagicPacket::magic_bytes` hands out the payload of a packet.
pub assume_specification<'a>[ wake_on_lan::MagicPacket::magic_bytes ](
    packet: &'a wake_on_lan::MagicPacket,
) -> (bytes: &'a [u8; 102])
    ensures
        bytes@ == packet_payload(*packet),
;

/// Builds the wake signal addressed to `target`.
pub fn wake_signal(target: &[u8; 6]) -> (packet: wake_on_lan::MagicPacket)
    ensures
        packet_payload(packet) == wake_frame(target@),
{
    wake_on_lan::MagicPacket::new(target)
}

/// Copies the frame out of a wake signal.
pub fn signal_frame(packet: &wake_on_lan::MagicPacket) -> (frame: Vec<u8>)
    ensures
        frame@ == packet_payload(*packet),
{
    let bytes = packet.magic_bytes();
    let mut frame: Vec<u8> = Vec::new();
    let mut i: usize = 0;
    while i < 102
        invariant
            i <= 102,
            bytes@.len() == 102,
            frame@ == bytes@.subrange(0, i as int),
        decreases 102 - i,
    {
        frame.push(bytes[i]);
        i += 1;
    }
    frame
}

} // verus!
