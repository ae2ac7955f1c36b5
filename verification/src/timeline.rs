//! The model behind the plot view: records are stepped through one by one,
//! and each one adds a point to the series of its CAN identifier.
//!
//! A point is the record's hardware time since the first record, in
//! microseconds, and the first byte of its payload (0 when there is none).
use crate::hexdata::{decode_frame_data, frame_payload};
use crate::records::CANFrameRecordDTO;
use std::collections::HashMap;
use vstd::prelude::*;

verus! {

broadcast use vstd::std_specs::hash::group_hash_axioms;

/// The value plotted for a record: the first byte of its payload, or 0.
pub open spec fn plotted_value(r: CANFrameRecordDTO) -> u8 {
    let payload = frame_payload(r.frame);
    if payload.len() > 0 {
        payload[0]
    } else {
        0
    }
}

/// The point plotted for `r` when the timeline starts at `base_us`.
pub open spec fn plotted_point(r: CANFrameRecordDTO, base_us: i64) -> (i64, u8) {
    ((r.hw_ts_us - base_us) as i64, plotted_value(r))
}

/// The series that plotting `records` in order gives: for each CAN
/// identifier, the points of its records in the order they came.
pub open spec fn plot_of(records: Seq<CANFrameRecordDTO>, base_us: i64) -> Map<u32, Seq<(i64, u8)>>
    decreases records.len(),
{
    if records.len() == 0 {
        Map::empty()
    } else {
        plot_step(plot_of(records.drop_last(), base_us), records.last(), base_us)
    }
}

/// The series `series` with the point of `r` added at the end of the series
/// of its CAN identifier (which is started if it has none); the other series
/// stay as they are.
pub open spec fn plot_step(
    series: Map<u32, Seq<(i64, u8)>>,
    r: CANFrameRecordDTO,
    base_us: i64,
) -> Map<u32, Seq<(i64, u8)>> {
    let prior = if series.contains_key(r.frame.can_id) {
        series[r.frame.can_id]
    } else {
        Seq::empty()
    };
    series.insert(r.frame.can_id, prior.push(plotted_point(r, base_us)))
}

/// Plotting a record adds, at the end of the series of its CAN identifier,
/// the point made of its time since the base and the first byte of its
/// decoded payload (0 when the payload is empty); the series of every other
/// identifier stays as it was.
pub proof fn lemma_plotted_record_point(records: Seq<CANFrameRecordDTO>, base_us: i64)
    requires
        records.len() > 0,
    ensures
        ({
            let r = records.last();
            let payload = frame_payload(r.frame);
            let series = plot_of(records, base_us);
            let before = plot_of(records.drop_last(), base_us);
            &&& series.contains_key(r.frame.can_id)
            &&& series[r.frame.can_id].last().0 == (r.hw_ts_us - base_us) as i64
            &&& series[r.frame.can_id].last().1 == if payload.len() > 0 {
                payload[0]
            } else {
                0u8
            }
            &&& series[r.frame.can_id].drop_last() == if before.contains_key(r.frame.can_id) {
                before[r.frame.can_id]
            } else {
                Seq::empty()
            }
            &&& forall|id: u32|
                id != r.frame.can_id ==> (#[trigger] series.contains_key(id) == before.contains_key(id)
                    && (before.contains_key(id) ==> series[id] == before[id]))
        }),
{
    let r = records.last();
    let before = plot_of(records.drop_last(), base_us);
    let prior = if before.contains_key(r.frame.can_id) {
        before[r.frame.can_id]
    } else {
        Seq::empty()
    };
    assert(prior.push(plotted_point(r, base_us)).drop_last() =~= prior);
}

/// Holds of the records of CAN identifier `id`.
pub open spec fn has_can_id(id: u32) -> spec_fn(CANFrameRecordDTO) -> bool {
    |r: CANFrameRecordDTO| r.frame.can_id == id
}

/// In the plot of `records`, an identifier has a series exactly when some
/// record carries it, and its series holds, in order, the points of exactly
/// the records that carry it.
pub proof fn lemma_series_follow_records(records: Seq<CANFrameRecordDTO>, base_us: i64, id: u32)
    ensures
        plot_of(records, base_us).contains_key(id) <==> records.filter(has_can_id(id)).len() > 0,
        plot_of(records, base_us).contains_key(id) ==> plot_of(records, base_us)[id]
            == records.filter(has_can_id(id)).map_values(
            |r: CANFrameRecordDTO| plotted_point(r, base_us),
        ),
    decreases records.len(),
{
    reveal(Seq::filter);
    if records.len() > 0 {
        let rest = records.drop_last();
        let r = records.last();
        assert(records =~= rest.push(r));
        lemma_series_follow_records(rest, base_us, id);
        rest.lemma_filter_push(r, has_can_id(id));
        let f = |x: CANFrameRecordDTO| plotted_point(x, base_us);
        if r.frame.can_id == id {
            let filtered = rest.filter(has_can_id(id));
            assert(filtered.push(r).map_values(f) =~= filtered.map_values(f).push(f(r)));
            if filtered.len() == 0 {
                assert(filtered.map_values(f) =~= Seq::<(i64, u8)>::empty());
            }
        }
    }
}

/// The time of `r` since `base_us` fits in `i64`.
pub open spec fn offset_fits(r: CANFrameRecordDTO, base_us: i64) -> bool {
    i64::MIN <= r.hw_ts_us - base_us <= i64::MAX
}

/// Where the timeline starts: the hardware time of the first record, or 0.
pub open spec fn base_of(records: Seq<CANFrameRecordDTO>) -> i64 {
    if records.len() > 0 {
        records[0].hw_ts_us
    } else {
        0
    }
}

/// Where stepping `count` records from position `pos` ends among `len`
/// records: `count` further, but not past the last record.
pub open spec fn steps_to(pos: int, count: int, len: int) -> int {
    if pos + count <= len {
        pos + count
    } else {
        len
    }
}

/// Stepping `a` records and then `b` more ends where stepping `a + b` at
/// once does.
pub proof fn lemma_steps_compose(pos: int, a: int, b: int, len: int)
    requires
        0 <= pos <= len,
        0 <= a,
        0 <= b,
    ensures
        steps_to(steps_to(pos, a, len), b, len) == steps_to(pos, a + b, len),
{
}

/// The records of a recording, how far they have been stepped through, and
/// the series plotted so far.
pub struct PlotTimeline {
    records: Vec<CANFrameRecordDTO>,
    series: HashMap<u32, Vec<(i64, u8)>>,
    current_idx: usize,
    base_time_us: i64,
}

impl PlotTimeline {
    /// The records of the recording.
    pub closed spec fn all_records(&self) -> Seq<CANFrameRecordDTO> {
        self.records@
    }

    /// How many records have been plotted.
    pub closed spec fn position(&self) -> nat {
        self.current_idx as nat
    }

    /// The hardware time the plot counts from.
    pub closed spec fn base(&self) -> i64 {
        self.base_time_us
    }

    /// The series plotted so far, by CAN identifier.
    pub closed spec fn plotted(&self) -> Map<u32, Seq<(i64, u8)>> {
        self.series@.map_values(|points: Vec<(i64, u8)>| points@)
    }

    /// The timeline is consistent: the series are exactly what plotting the
    /// records stepped through gives.
    pub closed spec fn wf(&self) -> bool {
        &&& self.current_idx <= self.records@.len()
        &&& self.plotted() == plot_of(self.records@.take(self.current_idx as int), self.base_time_us)
    }

    /// What a consistent timeline holds: the records stepped through are a
    /// prefix of its records, and its series are their plot.
    pub proof fn lemma_plot_of_stepped(&self)
        requires
            self.wf(),
        ensures
            self.position() <= self.all_records().len(),
            self.plotted() == plot_of(self.all_records().take(self.position() as int), self.base()),
    {
    }

    /// Two consistent timelines over the same records, with the same base,
    /// that have stepped equally far hold the same series: the state of a
    /// timeline is fixed by how far it has stepped. So clearing and stepping
    /// `k` records gives what a fresh timeline stepped `k` records gives, and
    /// stepping `a` then `b` records gives what stepping `a + b` gives.
    pub proof fn lemma_same_progress_same_plot(&self, other: &Self)
        requires
            self.wf(),
            other.wf(),
            self.all_records() == other.all_records(),
            self.base() == other.base(),
            self.position() == other.position(),
        ensures
            self.plotted() == other.plotted(),
    {
    }

    /// A timeline over `records`, counting from the first record's hardware
    /// time (0 when there is none), with nothing plotted yet.
    pub fn new(records: Vec<CANFrameRecordDTO>) -> (timeline: Self)
        ensures
            timeline.wf(),
            timeline.all_records() == records@,
            timeline.base() == base_of(records@),
            timeline.position() == 0,
            timeline.plotted() == Map::<u32, Seq<(i64, u8)>>::empty(),
            timeline.plotted() == plot_of(
                timeline.all_records().take(timeline.position() as int),
                timeline.base(),
            ),
    {
        let base_time_us = if records.len() > 0 {
            records[0].hw_ts_us
        } else {
            0
        };
        let timeline = PlotTimeline { records, series: HashMap::new(), current_idx: 0, base_time_us };
        proof {
            assert(timeline.plotted() =~= Map::<u32, Seq<(i64, u8)>>::empty());
            assert(timeline.records@.take(0) =~= Seq::<CANFrameRecordDTO>::empty());
        }
        timeline
    }

    /// The records of the recording.
    pub fn records(&self) -> (records: &Vec<CANFrameRecordDTO>)
        ensures
            records@ == self.all_records(),
    {
        &self.records
    }

    /// The number of records.
    pub fn len(&self) -> (n: usize)
        ensures
            n == self.all_records().len(),
    {
        self.records.len()
    }

    /// How many records have been plotted.
    pub fn current_index(&self) -> (i: usize)
        ensures
            i == self.position(),
    {
        self.current_idx
    }

    /// The hardware time the plot counts from.
    pub fn base_time_us(&self) -> (base: i64)
        ensures
            base == self.base(),
    {
        self.base_time_us
    }

    /// The series plotted so far, by CAN identifier.
    pub fn series(&self) -> (series: &HashMap<u32, Vec<(i64, u8)>>)
        ensures
            series@.map_values(|points: Vec<(i64, u8)>| points@) == self.plotted(),
    {
        &self.series
    }

    /// Forgets what has been plotted and starts again from the first record.
    pub fn clear(&mut self)
        requires
            old(self).wf(),
        ensures
            final(self).wf(),
            final(self).position() == 0,
            final(self).plotted() == Map::<u32, Seq<(i64, u8)>>::empty(),
            final(self).all_records() == old(self).all_records(),
            final(self).base() == old(self).base(),
    {
        self.series.clear();
        self.current_idx = 0;
        proof {
            assert(self.plotted() =~= Map::<u32, Seq<(i64, u8)>>::empty());
            assert(self.records@.take(0) =~= Seq::<CANFrameRecordDTO>::empty());
        }
    }

    /// Plots the next record, if any is left: its point goes at the end of
    /// the series of its CAN identifier, and every other series stays as it
    /// is. The next record's time since the base is computed in `i64`, so it
    /// must fit.
    pub fn step(&mut self)
        requires
            old(self).wf(),
            old(self).position() < old(self).all_records().len() ==> offset_fits(
                old(self).all_records()[old(self).position() as int],
                old(self).base(),
            ),
        ensures
            final(self).wf(),
            final(self).position() <= final(self).all_records().len(),
            final(self).all_records() == old(self).all_records(),
            final(self).base() == old(self).base(),
            final(self).plotted() == plot_of(
                final(self).all_records().take(final(self).position() as int),
                final(self).base(),
            ),
            old(self).position() < old(self).all_records().len() ==> {
                let r = old(self).all_records()[old(self).position() as int];
                let payload = frame_payload(r.frame);
                &&& final(self).plotted().contains_key(r.frame.can_id)
                &&& final(self).plotted()[r.frame.can_id].last() == (
                    (r.hw_ts_us - old(self).base()) as i64,
                    if payload.len() > 0 {
                        payload[0]
                    } else {
                        0u8
                    },
                )
            },
            old(self).position() < old(self).all_records().len() ==> {
                &&& final(self).position() == old(self).position() + 1
                &&& final(self).plotted() == plot_step(
                    old(self).plotted(),
                    old(self).all_records()[old(self).position() as int],
                    old(self).base(),
                )
            },
            old(self).position() >= old(self).all_records().len() ==> {
                &&& final(self).position() == old(self).position()
                &&& final(self).plotted() == old(self).plotted()
            },
    {
        if self.current_idx < self.records.len() {
            let record = &self.records[self.current_idx];
            let id = record.frame.can_id;
            let data = decode_frame_data(&record.frame);
            let value: u8 = if data.len() > 0 {
                data[0]
            } else {
                0
            };
            let offset: i64 = record.hw_ts_us - self.base_time_us;
            let mut points = match self.series.remove(&id) {
                Some(points) => points,
                None => Vec::new(),
            };
            points.push((offset, value));
            self.series.insert(id, points);
            proof {
                let taken = self.records@.take(self.current_idx + 1);
                assert(taken.drop_last() =~= self.records@.take(self.current_idx as int));
                assert(taken.last() == self.records@[self.current_idx as int]);
                assert(self.plotted() =~= plot_of(taken, self.base_time_us));
                lemma_plotted_record_point(taken, self.base_time_us);
            }
            self.current_idx = self.current_idx + 1;
        }
    }

    /// Plots up to `count` more records, stopping at the last one. The time
    /// since the base of each record plotted must fit in `i64`.
    pub fn step_many(&mut self, count: usize)
        requires
            old(self).wf(),
            forall|i: int|
                old(self).position() <= i < old(self).position() + count && i < old(self).all_records().len() ==> offset_fits(
                    #[trigger] old(self).all_records()[i],
                    old(self).base(),
                ),
        ensures
            final(self).wf(),
            final(self).position() <= final(self).all_records().len(),
            final(self).all_records() == old(self).all_records(),
            final(self).base() == old(self).base(),
            final(self).plotted() == plot_of(
                final(self).all_records().take(final(self).position() as int),
                final(self).base(),
            ),
            final(self).position() == steps_to(
                old(self).position() as int,
                count as int,
                old(self).all_records().len() as int,
            ),
            count == 0 || old(self).position() >= old(self).all_records().len() ==> final(self).plotted() == old(self).plotted(),
    {
        let mut i: usize = 0;
        while i < count
            invariant
                i <= count,
                self.wf(),
                self.all_records() == old(self).all_records(),
                self.base() == old(self).base(),
                forall|k: int|
                    old(self).position() <= k < old(self).position() + count && k < old(self).all_records().len() ==> offset_fits(
                        #[trigger] old(self).all_records()[k],
                        old(self).base(),
                    ),
                self.position() == if old(self).position() + i <= old(self).all_records().len() {
                    old(self).position() + i
                } else {
                    old(self).all_records().len() as int
                },
                old(self).position() >= old(self).all_records().len() ==> self.plotted() == old(self).plotted(),
                i == 0 ==> self.plotted() == old(self).plotted(),
            decreases count - i,
        {
            self.step();
            i = i + 1;
        }
    }
}

} // verus!
