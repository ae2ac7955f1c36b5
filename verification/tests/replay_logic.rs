use nestor_replay::frames::{build_frame, FrameError};
use nestor_replay::hexdata::decode_frame_data;
use nestor_replay::order::sort_by_hw_timestamp;
use nestor_replay::paging::RecordPager;
use nestor_replay::records::{CANFrameDTO, CANFrameRecordDTO};
use nestor_replay::replay::{pause_for, Output, ReplayClock, MAX_PAUSE_US};
use nestor_replay::urls::PAGE_LIMIT;
use socketcan::{EmbeddedFrame, Frame};

fn rec(hw_ts_us: i64, seqno: i64) -> CANFrameRecordDTO {
    CANFrameRecordDTO {
        hw_ts_us,
        boot_id: 1,
        seqno,
        commit_ts: 0,
        frame: CANFrameDTO {
            can_id: 0x100,
            extended: false,
            rtr: false,
            error: false,
            data_hex: String::new(),
        },
    }
}

fn frame(can_id: u32, extended: bool) -> CANFrameDTO {
    CANFrameDTO { can_id, extended, rtr: false, error: false, data_hex: String::new() }
}

fn keys(v: &[CANFrameRecordDTO]) -> Vec<(i64, i64)> {
    v.iter().map(|r| (r.hw_ts_us, r.seqno)).collect()
}

#[test]
fn sort_orders_by_hardware_time() {
    let v = vec![rec(30, 0), rec(10, 1), rec(20, 2)];
    assert_eq!(keys(&sort_by_hw_timestamp(v)), vec![(10, 1), (20, 2), (30, 0)]);
}

#[test]
fn sort_keeps_order_of_equal_times() {
    let v = vec![rec(5, 0), rec(1, 1), rec(5, 2), rec(1, 3), rec(5, 4), rec(-3, 5)];
    assert_eq!(
        keys(&sort_by_hw_timestamp(v)),
        vec![(-3, 5), (1, 1), (1, 3), (5, 0), (5, 2), (5, 4)]
    );
}

#[test]
fn sort_agrees_with_std_stable_sort() {
    let mut v = Vec::new();
    for i in 0..200i64 {
        v.push(rec((i * 7919) % 13 - 6, i));
    }
    let mut expected = v.clone();
    expected.sort_by_key(|r| r.hw_ts_us);
    assert_eq!(keys(&sort_by_hw_timestamp(v)), keys(&expected));
}

#[test]
fn sort_handles_long_reversed_input() {
    let v: Vec<CANFrameRecordDTO> = (0..50_000i64).map(|i| rec(50_000 - i / 2, i)).collect();
    let mut expected = v.clone();
    expected.sort_by_key(|r| r.hw_ts_us);
    assert_eq!(keys(&sort_by_hw_timestamp(v)), keys(&expected));
}

#[test]
fn sort_leaves_ordered_input_unchanged() {
    let v = vec![rec(1, 0), rec(1, 1), rec(2, 2), rec(9, 3)];
    let before = keys(&v);
    assert_eq!(keys(&sort_by_hw_timestamp(v)), before);
    assert!(sort_by_hw_timestamp(Vec::new()).is_empty());
}

#[test]
fn pager_single_short_page() {
    let mut pager = RecordPager::new();
    assert!(!pager.is_done());
    assert_eq!(pager.seqno_min(), None);
    assert_eq!(
        pager.next_url("http://h", "d", 2),
        "http://h/cf3d/api/v1/records?device=d&boot_id=2&limit=10000"
    );
    pager.accept_page(vec![rec(1, 40), rec(2, 41)]);
    assert!(pager.is_done());
    assert_eq!(pager.len(), 2);
    assert_eq!(keys(&pager.into_records()), vec![(1, 40), (2, 41)]);
}

#[test]
fn pager_full_page_asks_for_more() {
    let mut pager = RecordPager::new();
    let page: Vec<CANFrameRecordDTO> = (0..PAGE_LIMIT as i64).map(|i| rec(i, 100 + i)).collect();
    pager.accept_page(page);
    assert!(!pager.is_done());
    assert_eq!(pager.seqno_min(), Some(100 + PAGE_LIMIT as i64));
    assert_eq!(
        pager.next_url("http://h", "d", 2),
        "http://h/cf3d/api/v1/records?device=d&boot_id=2&limit=10000&seqno_min=10100"
    );
    pager.accept_page(vec![rec(-1, 10100)]);
    assert!(pager.is_done());
    assert_eq!(pager.seqno_min(), Some(10100));
    let all = pager.into_records();
    assert_eq!(all.len(), PAGE_LIMIT + 1);
    assert_eq!(all[0].seqno, 100);
    assert_eq!(all[PAGE_LIMIT].seqno, 10100);
}

#[test]
fn pager_empty_page_ends() {
    let mut pager = RecordPager::new();
    pager.accept_page(Vec::new());
    assert!(pager.is_done());
    assert_eq!(pager.len(), 0);
}

#[test]
fn pause_rule_caps_at_ten_seconds() {
    assert_eq!(MAX_PAUSE_US, 10_000_000);
    assert_eq!(pause_for(0), None);
    assert_eq!(pause_for(1), Some(1));
    assert_eq!(pause_for(9_999_999), Some(9_999_999));
    assert_eq!(pause_for(10_000_000), None);
    assert_eq!(pause_for(u64::MAX), None);
}

#[test]
fn replay_clock_gaps_and_count() {
    let mut clock = ReplayClock::new();
    assert_eq!(clock.advance(1000), None);
    clock.frame_sent();
    assert_eq!(clock.advance(1500), Some(500));
    clock.frame_sent();
    assert_eq!(clock.advance(1200), Some(-300));
    clock.frame_sent();
    assert_eq!(clock.frames_sent(), 3);
}

#[test]
fn output_enabled_only_when_asked() {
    assert!(Output::new(true).enabled);
    assert!(!Output::new(false).enabled);
}

#[test]
fn frames_build_for_valid_ids() {
    let f = CANFrameDTO { data_hex: "0102".to_string(), ..frame(0x1ABCDEF0, true) };
    let data = decode_frame_data(&f);
    let built = build_frame(&f, &data).unwrap();
    assert!(built.is_extended());
    assert_eq!(built.data(), &[1u8, 2][..]);
    assert_eq!(built.id_word(), 0x1ABCDEF0 | 0x8000_0000);
    let f = frame(0x7FF, false);
    let built = build_frame(&f, &[0u8; 8]).unwrap();
    assert!(!built.is_extended());
    assert_eq!(built.dlc(), 8);
    assert_eq!(built.id_word(), 0x7FF);
    assert_eq!(built.data(), &[0u8; 8][..]);
}

#[test]
fn frames_reject_invalid_ids() {
    assert_eq!(build_frame(&frame(0x2000_0000, true), &[]).unwrap_err(), FrameError::InvalidExtendedId);
    assert_eq!(build_frame(&frame(0x800, false), &[]).unwrap_err(), FrameError::InvalidStandardId);
    assert_eq!(build_frame(&frame(0xFFFF, false), &[1]).unwrap_err(), FrameError::InvalidStandardId);
}

#[test]
fn frames_standard_id_uses_low_sixteen_bits() {
    let built = build_frame(&frame(0x1_0005, false), &[]).unwrap();
    assert!(!built.is_extended());
    assert_eq!(built.id_word(), 0x5);
    assert!(built.data().is_empty());
}

#[test]
fn frames_reject_long_payload() {
    assert_eq!(build_frame(&frame(0x10, false), &[0u8; 9]).unwrap_err(), FrameError::TooMuchData);
    assert_eq!(build_frame(&frame(0x10, true), &[0u8; 9]).unwrap_err(), FrameError::TooMuchData);
    assert_eq!(build_frame(&frame(0x2000_0000, true), &[0u8; 9]).unwrap_err(), FrameError::InvalidExtendedId);
}

#[test]
fn frame_error_messages() {
    assert_eq!(FrameError::InvalidExtendedId.message(), "Invalid extended CAN ID");
    assert_eq!(FrameError::InvalidStandardId.message(), "Invalid standard CAN ID");
    assert_eq!(FrameError::TooMuchData.message(), "Failed to create CAN frame");
}
