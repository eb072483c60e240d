//! The frames that the CAN sources publish, decoded from what the Vector
//! XL and PEAK PCAN drivers hand over: the identifier, whether it is an
//! extended one, and the payload bytes that the data length code covers.

use vstd::prelude::*;

verus! {

/// A received CAN frame.
#[derive(Clone, Debug, PartialEq, Eq)]
pub struct CanFrame {
    pub is_extended: bool,
    pub id: u32,
    pub data: Vec<u8>,
}

/// The tag of a Vector XL receive event that carries a frame.
pub const XL_CAN_EV_TAG_RX_OK: u16 = 0x0400;
/// The bit of a Vector XL identifier that marks an extended frame.
pub const XL_CAN_EXT_MSG_ID: u32 = 0x8000_0000;
/// The identifier bits of a Vector XL identifier.
pub const XL_CAN_ID_MASK: u32 = 0x1FFF_FFFF;
/// The bit of a PCAN message type that marks an extended frame.
pub const PCAN_MESSAGE_EXTENDED: u8 = 0x02;

/// The payload that a data length code covers: at most eight bytes.
pub open spec fn payload(data: Seq<u8>, dlc: u8) -> Seq<u8> {
    data.take(if dlc < 8 { dlc as int } else { 8 })
}

fn payload_bytes(data: &[u8; 8], dlc: u8) -> (r: Vec<u8>)
    ensures
        r@ == payload(data@, dlc),
{
    let n: usize = if dlc < 8 { dlc as usize } else { 8 };
    let mut r: Vec<u8> = Vec::new();
    let mut i: usize = 0;
    while i < n
        invariant
            n <= 8,
            data@.len() == 8,
            i <= n,
            r@ == data@.take(i as int),
        decreases n - i,
    {
        r.push(data[i]);
        assert(data@.take(i + 1) =~= data@.take(i as int).push(data@[i as int]));
        i = i + 1;
    }
    r
}

/// A Vector XL identifier marks an extended frame in its top bit (2^31)
/// and holds the identifier in its low 29 bits; a PCAN message type marks
/// one in its bit of weight 2; the payload is the first `min(dlc, 8)`
/// bytes of the data.
pub proof fn law_frame_fields(can_id: u32, msg_type: u8, data: Seq<u8>, dlc: u8)
    requires
        data.len() == 8,
    ensures
        (can_id & XL_CAN_EXT_MSG_ID != 0) == (can_id >= 0x8000_0000),
        (can_id & XL_CAN_ID_MASK) == can_id % 0x2000_0000,
        (msg_type & PCAN_MESSAGE_EXTENDED != 0) == ((msg_type / 2) % 2 == 1),
        payload(data, dlc).len() == if dlc < 8 { dlc as int } else { 8 },
        forall|i: int| 0 <= i < payload(data, dlc).len() ==> #[trigger] payload(data, dlc)[i] == data[i],
{
    assert((can_id & 0x8000_0000u32 != 0) == (can_id >= 0x8000_0000u32)) by (bit_vector);
    assert((can_id & 0x1FFF_FFFFu32) == can_id % 0x2000_0000u32) by (bit_vector);
    assert((msg_type & 2u8 != 0) == ((msg_type / 2u8) % 2u8 == 1u8)) by (bit_vector);
}

/// Decodes a Vector XL receive event: only a frame received without error
/// (tag `RX_OK`) carries one; its extended flag is the top bit of the
/// identifier, the identifier is the low 29 bits.
pub fn vector_can_frame(tag: u16, can_id: u32, dlc: u8, data: &[u8; 8]) -> (r: Option<CanFrame>)
    ensures
        tag != XL_CAN_EV_TAG_RX_OK ==> r is None,
        tag == XL_CAN_EV_TAG_RX_OK ==> (r matches Some(f) && f.is_extended == (can_id
            & XL_CAN_EXT_MSG_ID != 0) && f.id == can_id & XL_CAN_ID_MASK && f.data@ == payload(
            data@,
            dlc,
        )),
{
    if tag != XL_CAN_EV_TAG_RX_OK {
        return None;
    }
    Some(
        CanFrame {
            is_extended: can_id & XL_CAN_EXT_MSG_ID != 0,
            id: can_id & XL_CAN_ID_MASK,
            data: payload_bytes(data, dlc),
        },
    )
}

/// Decodes a PCAN message: extended when its type has the extended bit,
/// with the identifier as the driver gives it.
pub fn peak_can_frame(msg_type: u8, id: u32, len: u8, data: &[u8; 8]) -> (r: CanFrame)
    ensures
        r.is_extended == (msg_type & PCAN_MESSAGE_EXTENDED != 0),
        r.id == id,
        r.data@ == payload(data@, len),
{
    CanFrame {
        is_extended: msg_type & PCAN_MESSAGE_EXTENDED != 0,
        id,
        data: payload_bytes(data, len),
    }
}

} // verus!
