use nestor_replay::records::{CANFrameDTO, CANFrameRecordDTO};
use nestor_replay::timeline::PlotTimeline;

fn rec(hw_ts_us: i64, can_id: u32, data_hex: &str) -> CANFrameRecordDTO {
    CANFrameRecordDTO {
        hw_ts_us,
        boot_id: 1,
        seqno: 0,
        commit_ts: 0,
        frame: CANFrameDTO {
            can_id,
            extended: false,
            rtr: false,
            error: false,
            data_hex: data_hex.to_string(),
        },
    }
}

fn sample() -> Vec<CANFrameRecordDTO> {
    vec![
        rec(1_000_000, 0x10, "2A00"),
        rec(1_500_000, 0x20, ""),
        rec(2_000_000, 0x10, "FF"),
        rec(3_000_000, 0x30, "xyz"),
    ]
}

#[test]
fn timeline_starts_empty() {
    let t = PlotTimeline::new(sample());
    assert_eq!(t.len(), 4);
    assert_eq!(t.current_index(), 0);
    assert!(t.series().is_empty());
    let empty = PlotTimeline::new(Vec::new());
    assert_eq!(empty.len(), 0);
}

#[test]
fn timeline_steps_add_points_per_id() {
    let mut t = PlotTimeline::new(sample());
    t.step();
    assert_eq!(t.current_index(), 1);
    assert_eq!(t.series().get(&0x10), Some(&vec![(0i64, 0x2Au8)]));
    t.step_many(2);
    assert_eq!(t.current_index(), 3);
    assert_eq!(t.series().get(&0x10), Some(&vec![(0i64, 0x2Au8), (1_000_000, 0xFF)]));
    assert_eq!(t.series().get(&0x20), Some(&vec![(500_000i64, 0u8)]));
    assert_eq!(t.series().len(), 2);
}

#[test]
fn timeline_stops_at_the_end() {
    let mut t = PlotTimeline::new(sample());
    t.step_many(100);
    assert_eq!(t.current_index(), 4);
    assert_eq!(t.series().get(&0x30), Some(&vec![(2_000_000i64, 0u8)]));
    t.step();
    assert_eq!(t.current_index(), 4);
    let total: usize = t.series().values().map(|v| v.len()).sum();
    assert_eq!(total, 4);
}

#[test]
fn timeline_clear_restarts() {
    let mut t = PlotTimeline::new(sample());
    t.step_many(3);
    t.clear();
    assert_eq!(t.current_index(), 0);
    assert!(t.series().is_empty());
    t.step();
    assert_eq!(t.series().get(&0x10), Some(&vec![(0i64, 0x2Au8)]));
}

#[test]
fn timeline_accepts_any_records_until_plotted() {
    let records = vec![rec(i64::MAX, 0x1, "01"), rec(i64::MIN, 0x2, "02")];
    let mut t = PlotTimeline::new(records);
    assert_eq!(t.base_time_us(), i64::MAX);
    assert_eq!(t.records().len(), 2);
    t.step();
    assert_eq!(t.series().get(&0x1), Some(&vec![(0i64, 1u8)]));
    t.step_many(0);
    assert_eq!(t.current_index(), 1);
    assert_eq!(t.series().len(), 1);
}

#[test]
fn timeline_base_is_first_record() {
    assert_eq!(PlotTimeline::new(sample()).base_time_us(), 1_000_000);
    assert_eq!(PlotTimeline::new(Vec::new()).base_time_us(), 0);
}

#[test]
fn timeline_steps_compose() {
    let mut split = PlotTimeline::new(sample());
    split.step_many(1);
    split.step_many(2);
    let mut once = PlotTimeline::new(sample());
    once.step_many(3);
    assert_eq!(split.current_index(), once.current_index());
    assert_eq!(split.series(), once.series());
}

#[test]
fn timeline_clear_then_step_matches_fresh() {
    let mut used = PlotTimeline::new(sample());
    used.step_many(4);
    used.clear();
    used.step_many(2);
    let mut fresh = PlotTimeline::new(sample());
    fresh.step_many(2);
    assert_eq!(used.current_index(), fresh.current_index());
    assert_eq!(used.series(), fresh.series());
}
