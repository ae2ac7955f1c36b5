//! The records that the recording server hands out, held as plain values.
use vstd::prelude::*;

verus! {

/// One CAN frame as the server stores it: the identifier, its flags and the
/// payload written as hexadecimal text.
#[derive(Debug, Clone)]
pub struct CANFrameDTO {
    pub can_id: u32,
    pub extended: bool,
    pub rtr: bool,
    pub error: bool,
    pub data_hex: String,
}

/// One recorded frame with its hardware timestamp (microseconds), the boot
/// session it belongs to, its sequence number and the commit time (seconds).
#[derive(Debug, Clone)]
pub struct CANFrameRecordDTO {
    pub hw_ts_us: i64,
    pub boot_id: u64,
    pub seqno: i64,
    pub commit_ts: i64,
    pub frame: CANFrameDTO,
}

/// A device known to the server, with the time it was last heard (seconds).
#[derive(Debug)]
pub struct DeviceDTO {
    pub device: String,
    pub last_heard_ts: i64,
    pub last_uid: u64,
}

/// A boot session of a device, with its first and last record.
#[derive(Debug)]
pub struct BootDTO {
    pub boot_id: u64,
    pub first_record: CANFrameRecordDTO,
    pub last_record: CANFrameRecordDTO,
}

} // verus!
