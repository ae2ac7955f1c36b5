//! Turning a recorded frame into a frame that can be written to a SocketCAN
//! socket.
use crate::records::CANFrameDTO;
use socketcan::EmbeddedFrame;
use vstd::prelude::*;

verus! {

/// A CAN identifier of either width, of the embedded-can crate.
#[verifier::external_type_specification]
#[verifier::external_body]
pub struct ExId(socketcan::Id);

/// A classic CAN 2.0 data frame of the socketcan crate.
#[verifier::external_type_specification]
#[verifier::external_body]
pub struct ExCanDataFrame(socketcan::CanDataFrame);

/// The largest extended (29-bit) identifier.
pub const MAX_EXTENDED_ID: u32 = 0x1FFF_FFFF;

/// The largest standard (11-bit) identifier.
pub const MAX_STANDARD_ID: u16 = 0x7FF;

/// The most payload bytes a classic CAN data frame carries.
pub const MAX_DATA_LEN: usize = 8;

/// Why a recorded frame cannot be sent.
#[derive(Debug, Clone, Copy, PartialEq, Eq, Structural)]
pub enum FrameError {
    /// The frame is marked extended and its identifier exceeds 29 bits.
    InvalidExtendedId,
    /// The frame is marked standard and the low 16 bits of its identifier
    /// exceed 11 bits.
    InvalidStandardId,
    /// The payload is longer than a classic CAN frame carries.
    TooMuchData,
}

impl FrameError {
    /// The message the tool gives for this error.
    pub fn message(&self) -> (text: &'static str)
        ensures
            text@ == match *self {
                FrameError::InvalidExtendedId => "Invalid extended CAN ID"@,
                FrameError::InvalidStandardId => "Invalid standard CAN ID"@,
                FrameError::TooMuchData => "Failed to create CAN frame"@,
            },
    {
        match self {
            FrameError::InvalidExtendedId => "Invalid extended CAN ID",
            FrameError::InvalidStandardId => "Invalid standard CAN ID",
            FrameError::TooMuchData => "Failed to create CAN frame",
        }
    }
}

/// The SocketCAN identifier word that an identifier stands for, as
/// socketcan's `id_to_canid_t` computes it: the raw value, with bit 31 (the
/// extended-frame flag) set for an extended identifier.
pub uninterp spec fn can_id_word(id: socketcan::Id) -> u32;

/// The identifier word stored in a data frame (socketcan's `id_word`).
pub uninterp spec fn data_frame_id_word(frame: socketcan::CanDataFrame) -> u32;

/// The payload bytes of a data frame (socketcan's `data`).
pub uninterp spec fn data_frame_payload(frame: socketcan::CanDataFrame) -> Seq<u8>;

/// The flag that marks an extended identifier in the identifier word.
pub const EXTENDED_FRAME_FLAG: u32 = 0x8000_0000;

/// Calls `socketcan::ExtendedId::new`, which gives an identifier exactly
/// when `raw` fits in 29 bits, and takes it as an `Id`; its identifier word
/// is `raw` with the extended-frame flag set.
#[verifier::external_body]
fn new_extended_id(raw: u32) -> (id: Option<socketcan::Id>)
    ensures
        id is Some <==> raw <= MAX_EXTENDED_ID,
        id matches Some(i) ==> can_id_word(i) == raw + EXTENDED_FRAME_FLAG,
{
    socketcan::ExtendedId::new(raw).map(socketcan::Id::Extended)
}

/// Calls `socketcan::StandardId::new`, which gives an identifier exactly
/// when `raw` fits in 11 bits, and takes it as an `Id`; its identifier word
/// is `raw`.
#[verifier::external_body]
fn new_standard_id(raw: u16) -> (id: Option<socketcan::Id>)
    ensures
        id is Some <==> raw <= MAX_STANDARD_ID,
        id matches Some(i) ==> can_id_word(i) == raw,
{
    socketcan::StandardId::new(raw).map(socketcan::Id::Standard)
}

/// Calls `socketcan::CanDataFrame::new` (the `embedded_can::Frame`
/// constructor), which gives a frame exactly when the payload has at most
/// eight bytes; the frame stores the identifier word of `id` and the bytes
/// of `data`.
#[verifier::external_body]
fn new_data_frame(id: socketcan::Id, data: &[u8]) -> (frame: Option<socketcan::CanDataFrame>)
    ensures
        frame is Some <==> data.len() <= MAX_DATA_LEN,
        frame matches Some(f) ==> data_frame_id_word(f) == can_id_word(id)
            && data_frame_payload(f) == data@,
{
    socketcan::CanDataFrame::new(id, data)
}

/// The identifier word of the frame sent for `frame`: the identifier with
/// the extended-frame flag when the frame is marked extended, otherwise the
/// low 16 bits of the identifier.
pub open spec fn expected_id_word(frame: CANFrameDTO) -> int {
    if frame.extended {
        frame.can_id + EXTENDED_FRAME_FLAG
    } else {
        (frame.can_id % 0x1_0000) as int
    }
}

/// The error that building a frame from `frame` with payload `data` gives,
/// if any: the identifier is checked first, against the width the frame is
/// marked with (a standard identifier is taken from the low 16 bits), then
/// the payload length.
pub open spec fn frame_error(frame: CANFrameDTO, data: Seq<u8>) -> Option<FrameError> {
    if frame.extended && frame.can_id > MAX_EXTENDED_ID {
        Some(FrameError::InvalidExtendedId)
    } else if !frame.extended && frame.can_id % 0x1_0000 > MAX_STANDARD_ID {
        Some(FrameError::InvalidStandardId)
    } else if data.len() > MAX_DATA_LEN {
        Some(FrameError::TooMuchData)
    } else {
        None
    }
}

/// Builds the data frame to send for `frame` with the decoded payload
/// `data`: extended or standard by the frame's flag.
pub fn build_frame(frame: &CANFrameDTO, data: &[u8]) -> (r: Result<socketcan::CanDataFrame, FrameError>)
    ensures
        r is Ok <==> frame_error(*frame, data@) is None,
        r matches Err(e) ==> frame_error(*frame, data@) == Some(e),
        r matches Ok(built) ==> data_frame_id_word(built) == expected_id_word(*frame)
            && data_frame_payload(built) == data@,
{
    if frame.extended {
        match new_extended_id(frame.can_id) {
            Some(id) => match new_data_frame(id, data) {
                Some(built) => Ok(built),
                None => Err(FrameError::TooMuchData),
            },
            None => Err(FrameError::InvalidExtendedId),
        }
    } else {
        let id_bits: u32 = frame.can_id;
        let raw: u16 = (id_bits & 0xFFFF) as u16;
        assert(id_bits & 0xFFFF == id_bits % 0x1_0000) by (bit_vector);
        match new_standard_id(raw) {
            Some(id) => match new_data_frame(id, data) {
                Some(built) => Ok(built),
                None => Err(FrameError::TooMuchData),
            },
            None => Err(FrameError::InvalidStandardId),
        }
    }
}

} // verus!
