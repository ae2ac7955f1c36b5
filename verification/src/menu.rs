//! The lines of the interactive device and boot session menus.
use crate::records::{BootDTO, DeviceDTO};
use crate::text::{
    decimal_digits,
    decimal_text,
    is_numeral,
    lemma_decimal_digits_read_back,
    lemma_decimal_text_read_back,
    numeral_value,
    push_decimal,
    push_signed_decimal,
    reads_as_signed_decimal,
};
use crate::timefmt::{format_timestamp, timestamp_text};
use vstd::prelude::*;

verus! {

/// The menu line of a device: its name and when it was last heard.
pub open spec fn device_item_text(device: DeviceDTO) -> Seq<char> {
    device.device@ + " (last seen: "@ + timestamp_text(device.last_heard_ts) + ")"@
}

/// The number of frames a boot session spans, from its first to its last
/// sequence number.
pub open spec fn boot_frame_count(boot: BootDTO) -> int {
    boot.last_record.seqno - boot.first_record.seqno + 1
}

/// The menu line of a boot session: its number, the commit times of its
/// first and last record and the frames it spans.
pub open spec fn boot_item_text(boot: BootDTO) -> Seq<char> {
    "Boot #"@ + decimal_digits(boot.boot_id as nat) + " ("@ + timestamp_text(
        boot.first_record.commit_ts,
    ) + " to "@ + timestamp_text(boot.last_record.commit_ts) + ", "@ + decimal_text(
        boot_frame_count(boot),
    ) + " frames)"@
}

/// The device line names the device and then shows, in parentheses after
/// `last seen: `, exactly the text `format_timestamp` writes for the time it
/// was last heard.
pub proof fn lemma_device_item_shows_last_seen(device: DeviceDTO)
    ensures
        device_item_text(device) == device.device@ + " (last seen: "@ + timestamp_text(
            device.last_heard_ts,
        ) + ")"@,
{
}

/// `line` is a boot menu line for `boot`: `Boot #`, the decimal numeral
/// `id` of the boot number, ` (`, the texts `format_timestamp` writes for the
/// commit times of the first and the last record joined by ` to `, `, `,
/// the signed decimal numeral `count` of the frames spanned, and ` frames)`.
pub open spec fn boot_item_fields(line: Seq<char>, boot: BootDTO, id: Seq<char>, count: Seq<char>) -> bool {
    &&& line == "Boot #"@ + id + " ("@ + timestamp_text(boot.first_record.commit_ts) + " to "@
        + timestamp_text(boot.last_record.commit_ts) + ", "@ + count + " frames)"@
    &&& is_numeral(id, 10)
    &&& numeral_value(id, 10) == boot.boot_id
    &&& reads_as_signed_decimal(count, boot.last_record.seqno - boot.first_record.seqno + 1)
}

/// The boot line gives the boot number in decimal, the first and last
/// commit times as `format_timestamp` writes them, and the number of frames
/// from the first to the last sequence number.
pub proof fn lemma_boot_item_fields(boot: BootDTO)
    ensures
        exists|id: Seq<char>, count: Seq<char>| #[trigger] boot_item_fields(boot_item_text(boot), boot, id, count),
{
    let id = decimal_digits(boot.boot_id as nat);
    let count = decimal_text(boot_frame_count(boot));
    lemma_decimal_digits_read_back(boot.boot_id as nat);
    lemma_decimal_text_read_back(boot_frame_count(boot));
    assert(boot_item_fields(boot_item_text(boot), boot, id, count));
}

/// Writes the menu line of `device`.
pub fn device_menu_item(device: &DeviceDTO) -> (line: String)
    ensures
        line@ == device_item_text(*device),
        line@ == device.device@ + " (last seen: "@ + timestamp_text(device.last_heard_ts) + ")"@,
{
    proof {
        lemma_device_item_shows_last_seen(*device);
    }
    let mut line = device.device.clone();
    line.append(" (last seen: ");
    let seen = format_timestamp(device.last_heard_ts);
    line.append(seen.as_str());
    line.append(")");
    line
}

/// The frame count of `boot` can be computed in `i64`: the difference of the
/// sequence numbers and that difference plus one both fit.
pub open spec fn boot_frame_count_fits(boot: BootDTO) -> bool {
    i64::MIN <= boot.last_record.seqno - boot.first_record.seqno < i64::MAX
}

/// Writes the menu line of `boot`.
pub fn boot_menu_item(boot: &BootDTO) -> (line: String)
    requires
        boot_frame_count_fits(*boot),
    ensures
        line@ == boot_item_text(*boot),
        exists|id: Seq<char>, count: Seq<char>| #[trigger] boot_item_fields(line@, *boot, id, count),
{
    proof {
        lemma_boot_item_fields(*boot);
    }
    let first = format_timestamp(boot.first_record.commit_ts);
    let last = format_timestamp(boot.last_record.commit_ts);
    let frames: i64 = boot.last_record.seqno - boot.first_record.seqno + 1;
    let mut line = String::new();
    line.append("Boot #");
    push_decimal(&mut line, boot.boot_id);
    line.append(" (");
    line.append(first.as_str());
    line.append(" to ");
    line.append(last.as_str());
    line.append(", ");
    push_signed_decimal(&mut line, frames);
    line.append(" frames)");
    line
}

/// The lines of the device menu, one per device, in order.
pub fn device_menu_items(devices: &Vec<DeviceDTO>) -> (items: Vec<String>)
    ensures
        items.len() == devices.len(),
        forall|i: int| 0 <= i < devices.len() ==> #[trigger] items[i]@ == device_item_text(devices[i]),
{
    let mut items: Vec<String> = Vec::new();
    let mut i: usize = 0;
    while i < devices.len()
        invariant
            i <= devices.len(),
            items.len() == i,
            forall|j: int| 0 <= j < i ==> #[trigger] items[j]@ == device_item_text(devices[j]),
        decreases devices.len() - i,
    {
        items.push(device_menu_item(&devices[i]));
        i = i + 1;
    }
    items
}

/// The lines of the boot session menu, one per boot session, in order.
/// Every session's frame count must fit in `i64`.
pub fn boot_menu_items(boots: &Vec<BootDTO>) -> (items: Vec<String>)
    requires
        forall|i: int| 0 <= i < boots.len() ==> boot_frame_count_fits(#[trigger] boots[i]),
    ensures
        items.len() == boots.len(),
        forall|i: int| 0 <= i < boots.len() ==> #[trigger] items[i]@ == boot_item_text(boots[i]),
{
    let mut items: Vec<String> = Vec::new();
    let mut i: usize = 0;
    while i < boots.len()
        invariant
            i <= boots.len(),
            items.len() == i,
            forall|j: int| 0 <= j < boots.len() ==> boot_frame_count_fits(#[trigger] boots[j]),
            forall|j: int| 0 <= j < i ==> #[trigger] items[j]@ == boot_item_text(boots[j]),
        decreases boots.len() - i,
    {
        items.push(boot_menu_item(&boots[i]));
        i = i + 1;
    }
    items
}

} // verus!
