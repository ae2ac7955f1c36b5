use nestor_replay::menu::{boot_menu_item, boot_menu_items, device_menu_item, device_menu_items};
use nestor_replay::records::{BootDTO, CANFrameDTO, CANFrameRecordDTO, DeviceDTO};
use nestor_replay::timefmt::{format_timestamp, MAX_CALENDAR_SECONDS, MIN_CALENDAR_SECONDS};
use nestor_replay::urls::{boots_url, devices_url, records_url, PAGE_LIMIT};

fn record(seqno: i64, commit_ts: i64) -> CANFrameRecordDTO {
    CANFrameRecordDTO {
        hw_ts_us: 0,
        boot_id: 3,
        seqno,
        commit_ts,
        frame: CANFrameDTO {
            can_id: 0x100,
            extended: false,
            rtr: false,
            error: false,
            data_hex: String::new(),
        },
    }
}

#[test]
fn devices_address() {
    assert_eq!(
        devices_url("https://cyphalcloud.zubax.com"),
        "https://cyphalcloud.zubax.com/cf3d/api/v1/devices"
    );
}

#[test]
fn boots_address_encodes_device() {
    assert_eq!(
        boots_url("http://localhost:8000", "my-device"),
        "http://localhost:8000/cf3d/api/v1/boots?device=my-device"
    );
    assert_eq!(
        boots_url("http://h", "a b/c&d~_.ü"),
        "http://h/cf3d/api/v1/boots?device=a%20b%2Fc%26d~_.%C3%BC"
    );
}

#[test]
fn records_address_first_and_later_pages() {
    assert_eq!(PAGE_LIMIT, 10000);
    assert_eq!(
        records_url("http://h", "dev 1", 7, None),
        "http://h/cf3d/api/v1/records?device=dev%201&boot_id=7&limit=10000"
    );
    assert_eq!(
        records_url("http://h", "dev", 0, Some(10000)),
        "http://h/cf3d/api/v1/records?device=dev&boot_id=0&limit=10000&seqno_min=10000"
    );
    assert_eq!(
        records_url("http://h", "dev", 1, Some(-5)),
        "http://h/cf3d/api/v1/records?device=dev&boot_id=1&limit=10000&seqno_min=-5"
    );
}

#[test]
fn timestamps_in_calendar_range() {
    assert_eq!(format_timestamp(0), "1970-01-01 00:00:00");
    assert_eq!(format_timestamp(1431648000), "2015-05-15 00:00:00");
    assert_eq!(format_timestamp(1700000000), "2023-11-14 22:13:20");
    assert_eq!(format_timestamp(-1), "1969-12-31 23:59:59");
    assert!(format_timestamp(MAX_CALENDAR_SECONDS).ends_with("262142-12-31 23:59:59"));
    assert!(format_timestamp(MIN_CALENDAR_SECONDS).ends_with("262143-01-01 00:00:00"));
}

#[test]
fn timestamps_four_digit_year_limits() {
    assert_eq!(format_timestamp(-62_167_219_200), "0000-01-01 00:00:00");
    assert_eq!(format_timestamp(253_402_300_799), "9999-12-31 23:59:59");
    let text = format_timestamp(-3600 * 5 - 61);
    assert_eq!(text.len(), 19);
    assert!(text.ends_with(" 18:58:59"));
}

#[test]
fn timestamps_out_of_calendar_range_are_numbers() {
    assert_eq!(format_timestamp(MAX_CALENDAR_SECONDS + 1), "8210266876800");
    assert_eq!(format_timestamp(MIN_CALENDAR_SECONDS - 1), "-8334601228801");
    assert_eq!(format_timestamp(i64::MAX), i64::MAX.to_string());
    assert_eq!(format_timestamp(i64::MIN), i64::MIN.to_string());
}

#[test]
fn device_menu_line() {
    let d = DeviceDTO { device: "node-7".to_string(), last_heard_ts: 0, last_uid: 1 };
    assert_eq!(device_menu_item(&d), "node-7 (last seen: 1970-01-01 00:00:00)");
    let items = device_menu_items(&vec![d]);
    assert_eq!(items, vec!["node-7 (last seen: 1970-01-01 00:00:00)".to_string()]);
}

#[test]
fn boot_menu_line() {
    let b = BootDTO { boot_id: 3, first_record: record(11, 0), last_record: record(20, 100) };
    assert_eq!(
        boot_menu_item(&b),
        "Boot #3 (1970-01-01 00:00:00 to 1970-01-01 00:01:40, 10 frames)"
    );
    let empty = BootDTO { boot_id: 4, first_record: record(5, 0), last_record: record(3, 0) };
    assert_eq!(
        boot_menu_item(&empty),
        "Boot #4 (1970-01-01 00:00:00 to 1970-01-01 00:00:00, -1 frames)"
    );
    let items = boot_menu_items(&vec![b, empty]);
    assert_eq!(items.len(), 2);
    assert!(items[1].ends_with("-1 frames)"));
}
