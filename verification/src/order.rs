//! Putting the records in the order of their hardware timestamps, keeping
//! the order in which they came among records with the same timestamp.
use crate::records::CANFrameRecordDTO;
use std::collections::VecDeque;
use vstd::prelude::*;

verus! {

broadcast use vstd::seq_lib::group_seq_properties;

/// The records of `s` come in non-decreasing order of hardware timestamp.
pub open spec fn sorted_by_hw_ts(s: Seq<CANFrameRecordDTO>) -> bool {
    forall|i: int, j: int| 0 <= i <= j < s.len() ==> s[i].hw_ts_us <= s[j].hw_ts_us
}

/// Holds of the records whose hardware timestamp is `ts`.
pub open spec fn has_hw_ts(ts: i64) -> spec_fn(CANFrameRecordDTO) -> bool {
    |r: CANFrameRecordDTO| r.hw_ts_us == ts
}

/// `out` is `input` put in order of hardware timestamp by a stable sort:
/// it holds the same records, is sorted, and for every timestamp the records
/// that carry it appear in `out` in the same order as in `input`.
pub open spec fn is_stable_sort_of(out: Seq<CANFrameRecordDTO>, input: Seq<CANFrameRecordDTO>) -> bool {
    &&& out.len() == input.len()
    &&& out.to_multiset() == input.to_multiset()
    &&& sorted_by_hw_ts(out)
    &&& forall|ts: i64| #[trigger] out.filter(has_hw_ts(ts)) == input.filter(has_hw_ts(ts))
}

/// A sequence none of whose elements satisfies `pred` filters to nothing.
proof fn lemma_filter_none<A>(s: Seq<A>, pred: spec_fn(A) -> bool)
    requires
        forall|i: int| 0 <= i < s.len() ==> !pred(#[trigger] s[i]),
    ensures
        s.filter(pred) == Seq::<A>::empty(),
    decreases s.len(),
{
    reveal(Seq::filter);
    if s.len() > 0 {
        lemma_filter_none(s.drop_last(), pred);
    }
}

/// Two sorted sequences of the same length that agree, for every
/// timestamp, on the records carrying it are the same sequence.
proof fn lemma_sorted_by_filters_unique(a: Seq<CANFrameRecordDTO>, b: Seq<CANFrameRecordDTO>)
    requires
        a.len() == b.len(),
        sorted_by_hw_ts(a),
        sorted_by_hw_ts(b),
        forall|ts: i64| #[trigger] a.filter(has_hw_ts(ts)) == b.filter(has_hw_ts(ts)),
    ensures
        a == b,
    decreases a.len(),
{
    if a.len() == 0 {
        assert(a =~= b);
    } else {
        let x = a.last();
        let y = b.last();
        let ra = a.drop_last();
        let rb = b.drop_last();
        assert(a =~= ra.push(x));
        assert(b =~= rb.push(y));
        let m = x.hw_ts_us;
        ra.lemma_filter_push(x, has_hw_ts(m));
        rb.lemma_filter_push(y, has_hw_ts(y.hw_ts_us));
        if y.hw_ts_us < m {
            assert forall|i: int| 0 <= i < b.len() implies !has_hw_ts(m)(#[trigger] b[i]) by {
                assert(b[i].hw_ts_us <= b[b.len() - 1].hw_ts_us);
            }
            lemma_filter_none(b, has_hw_ts(m));
            assert(a.filter(has_hw_ts(m)).len() > 0);
            assert(a.filter(has_hw_ts(m)) == b.filter(has_hw_ts(m)));
            assert(false);
        }
        if y.hw_ts_us > m {
            let n = y.hw_ts_us;
            assert forall|i: int| 0 <= i < a.len() implies !has_hw_ts(n)(#[trigger] a[i]) by {
                assert(a[i].hw_ts_us <= a[a.len() - 1].hw_ts_us);
            }
            lemma_filter_none(a, has_hw_ts(n));
            rb.lemma_filter_push(y, has_hw_ts(n));
            assert(b.filter(has_hw_ts(n)).len() > 0);
            assert(a.filter(has_hw_ts(n)) == b.filter(has_hw_ts(n)));
            assert(false);
        }
        assert(a.filter(has_hw_ts(m)) == b.filter(has_hw_ts(m)));
        assert(x == a.filter(has_hw_ts(m)).last());
        assert(y == b.filter(has_hw_ts(m)).last());
        assert forall|ts: i64| #[trigger] ra.filter(has_hw_ts(ts)) == rb.filter(has_hw_ts(ts)) by {
            ra.lemma_filter_push(x, has_hw_ts(ts));
            rb.lemma_filter_push(y, has_hw_ts(ts));
            assert(a.filter(has_hw_ts(ts)) == b.filter(has_hw_ts(ts)));
            if ts == m {
                assert(ra.filter(has_hw_ts(ts)) =~= a.filter(has_hw_ts(ts)).drop_last());
                assert(rb.filter(has_hw_ts(ts)) =~= b.filter(has_hw_ts(ts)).drop_last());
            }
        }
        lemma_sorted_by_filters_unique(ra, rb);
    }
}

/// The order a stable sort by hardware timestamp gives is determined by its
/// input: any two stable sorts of the same records are equal, so the result
/// is the one any correct stable sort (such as `sort_by_key`) produces.
pub proof fn lemma_stable_sort_is_unique(
    a: Seq<CANFrameRecordDTO>,
    b: Seq<CANFrameRecordDTO>,
    input: Seq<CANFrameRecordDTO>,
)
    requires
        is_stable_sort_of(a, input),
        is_stable_sort_of(b, input),
    ensures
        a == b,
{
    assert forall|ts: i64| #[trigger] a.filter(has_hw_ts(ts)) == b.filter(has_hw_ts(ts)) by {
        assert(a.filter(has_hw_ts(ts)) == input.filter(has_hw_ts(ts)));
        assert(b.filter(has_hw_ts(ts)) == input.filter(has_hw_ts(ts)));
    }
    lemma_sorted_by_filters_unique(a, b);
}

/// Ordering records that are already in order of hardware timestamp leaves
/// them exactly as they were.
pub proof fn lemma_sorted_input_unchanged(out: Seq<CANFrameRecordDTO>, input: Seq<CANFrameRecordDTO>)
    requires
        is_stable_sort_of(out, input),
        sorted_by_hw_ts(input),
    ensures
        out == input,
{
    assert(is_stable_sort_of(input, input));
    lemma_stable_sort_is_unique(out, input, input);
}

/// `out` merges sorted `a` and `b`: it holds their records, is sorted, and
/// for every timestamp lists the records of `a` carrying it before those of
/// `b`, each in their own order.
pub open spec fn is_stable_merge_of(
    out: Seq<CANFrameRecordDTO>,
    a: Seq<CANFrameRecordDTO>,
    b: Seq<CANFrameRecordDTO>,
) -> bool {
    &&& out.len() == a.len() + b.len()
    &&& out.to_multiset() == a.to_multiset().add(b.to_multiset())
    &&& sorted_by_hw_ts(out)
    &&& forall|ts: i64| #[trigger] out.filter(has_hw_ts(ts)) == a.filter(has_hw_ts(ts)) + b.filter(
        has_hw_ts(ts),
    )
}

/// Merges the sorted runs `a` and `b`, taking from `a` on equal timestamps.
fn merge(a: VecDeque<CANFrameRecordDTO>, b: VecDeque<CANFrameRecordDTO>) -> (out: VecDeque<
    CANFrameRecordDTO,
>)
    requires
        sorted_by_hw_ts(a@),
        sorted_by_hw_ts(b@),
    ensures
        is_stable_merge_of(out@, a@, b@),
{
    let ghost a0 = a@;
    let ghost b0 = b@;
    let mut a = a;
    let mut b = b;
    let mut out: VecDeque<CANFrameRecordDTO> = VecDeque::new();
    let ghost mut i: int = 0;
    let ghost mut j: int = 0;
    proof {
        assert(a0.take(0) =~= Seq::<CANFrameRecordDTO>::empty());
        assert(b0.take(0) =~= Seq::<CANFrameRecordDTO>::empty());
        assert(a0.skip(0) =~= a0);
        assert(b0.skip(0) =~= b0);
        assert forall|ts: i64| #[trigger] out@.filter(has_hw_ts(ts)) == a0.take(0).filter(
            has_hw_ts(ts),
        ) + b0.take(0).filter(has_hw_ts(ts)) by {
            lemma_filter_none(Seq::<CANFrameRecordDTO>::empty(), has_hw_ts(ts));
            assert(Seq::<CANFrameRecordDTO>::empty() + Seq::<CANFrameRecordDTO>::empty()
                =~= Seq::<CANFrameRecordDTO>::empty());
        }
    }
    while a.len() > 0 || b.len() > 0
        invariant
            sorted_by_hw_ts(a0),
            sorted_by_hw_ts(b0),
            0 <= i <= a0.len(),
            0 <= j <= b0.len(),
            a@ == a0.skip(i),
            b@ == b0.skip(j),
            out@.len() == i + j,
            sorted_by_hw_ts(out@),
            out@.len() > 0 && i < a0.len() ==> out@.last().hw_ts_us <= a0[i].hw_ts_us,
            out@.len() > 0 && j < b0.len() ==> out@.last().hw_ts_us <= b0[j].hw_ts_us,
            i < a0.len() ==> forall|t: int| 0 <= t < j ==> #[trigger] b0[t].hw_ts_us < a0[i].hw_ts_us,
            out@.to_multiset() == a0.take(i).to_multiset().add(b0.take(j).to_multiset()),
            forall|ts: i64| #[trigger] out@.filter(has_hw_ts(ts)) == a0.take(i).filter(has_hw_ts(ts))
                + b0.take(j).filter(has_hw_ts(ts)),
        decreases a@.len() + b@.len(),
    {
        let take_a = b.len() == 0 || (a.len() > 0 && a[0].hw_ts_us <= b[0].hw_ts_us);
        let ghost before = out@;
        if take_a {
            if let Some(x) = a.pop_front() {
                proof {
                    assert(x == a0[i]);
                    let pa = a0.take(i);
                    let pb = b0.take(j);
                    assert(a0.take(i + 1) =~= pa.push(x));
                    vstd::seq_lib::to_multiset_build(pa, x);
                    vstd::seq_lib::to_multiset_build(before, x);
                    assert forall|ts: i64| #[trigger] before.push(x).filter(has_hw_ts(ts))
                        == a0.take(i + 1).filter(has_hw_ts(ts)) + pb.filter(has_hw_ts(ts)) by {
                        before.lemma_filter_push(x, has_hw_ts(ts));
                        pa.lemma_filter_push(x, has_hw_ts(ts));
                        if ts == x.hw_ts_us {
                            assert forall|t: int| 0 <= t < pb.len() implies !has_hw_ts(ts)(
                                #[trigger] pb[t],
                            ) by {
                                assert(pb[t] == b0[t]);
                            }
                            lemma_filter_none(pb, has_hw_ts(ts));
                            assert(pa.filter(has_hw_ts(ts)).push(x) + Seq::empty() =~= (
                            pa.filter(has_hw_ts(ts)) + Seq::empty()).push(x));
                        }
                    }
                    if i + 1 < a0.len() {
                        assert(a0[i].hw_ts_us <= a0[i + 1].hw_ts_us);
                        assert forall|t: int| 0 <= t < j implies #[trigger] b0[t].hw_ts_us
                            < a0[i + 1].hw_ts_us by {}
                    }
                    i = i + 1;
                }
                out.push_back(x);
                proof {
                    assert(a@ =~= a0.skip(i));
                }
            }
        } else {
            if let Some(y) = b.pop_front() {
                proof {
                    assert(y == b0[j]);
                    let pa = a0.take(i);
                    let pb = b0.take(j);
                    assert(b0.take(j + 1) =~= pb.push(y));
                    vstd::seq_lib::to_multiset_build(pb, y);
                    vstd::seq_lib::to_multiset_build(before, y);
                    assert forall|ts: i64| #[trigger] before.push(y).filter(has_hw_ts(ts))
                        == pa.filter(has_hw_ts(ts)) + b0.take(j + 1).filter(has_hw_ts(ts)) by {
                        before.lemma_filter_push(y, has_hw_ts(ts));
                        pb.lemma_filter_push(y, has_hw_ts(ts));
                        assert(pa.filter(has_hw_ts(ts)) + pb.filter(has_hw_ts(ts)).push(y) =~= (
                        pa.filter(has_hw_ts(ts)) + pb.filter(has_hw_ts(ts))).push(y));
                    }
                    j = j + 1;
                }
                out.push_back(y);
                proof {
                    assert(b@ =~= b0.skip(j));
                }
            }
        }
    }
    proof {
        assert(a0.take(i) =~= a0);
        assert(b0.take(j) =~= b0);
    }
    out
}

/// Sorts `v` by hardware timestamp, stably, by splitting it in halves,
/// sorting each and merging them.
fn merge_sort(v: VecDeque<CANFrameRecordDTO>) -> (out: VecDeque<CANFrameRecordDTO>)
    ensures
        is_stable_sort_of(out@, v@),
    decreases v@.len(),
{
    let n = v.len();
    if n <= 1 {
        return v;
    }
    let mut left = v;
    let ghost whole = left@;
    let right = left.split_off(n / 2);
    let ghost l0 = left@;
    let ghost r0 = right@;
    let l = merge_sort(left);
    let r = merge_sort(right);
    let out = merge(l, r);
    proof {
        assert(whole =~= l0 + r0);
        vstd::seq_lib::lemma_multiset_commutative(l0, r0);
        assert forall|ts: i64| #[trigger] out@.filter(has_hw_ts(ts)) == whole.filter(has_hw_ts(ts)) by {
            Seq::filter_distributes_over_add(l0, r0, has_hw_ts(ts));
        }
    }
    out
}

/// Orders `records` by hardware timestamp with a stable sort, as
/// `sort_by_key` on the timestamp does: records with equal timestamps keep
/// the order in which they came.
pub fn sort_by_hw_timestamp(records: Vec<CANFrameRecordDTO>) -> (out: Vec<CANFrameRecordDTO>)
    ensures
        is_stable_sort_of(out@, records@),
{
    let ghost input = records@;
    let mut queue: VecDeque<CANFrameRecordDTO> = VecDeque::new();
    for x in it: records.into_iter()
        invariant
            it.seq() == input,
            queue@ == input.take(it.index() as int),
    {
        let ghost done = it.index();
        assert(x == input[done as int]);
        queue.push_back(x);
        assert(queue@ =~= input.take(done + 1));
    }
    assert(input.take(input.len() as int) =~= input);
    let mut sorted = merge_sort(queue);
    let ghost sorted0 = sorted@;
    let mut out: Vec<CANFrameRecordDTO> = Vec::new();
    while sorted.len() > 0
        invariant
            out@ + sorted@ == sorted0,
        decreases sorted@.len(),
    {
        if let Some(x) = sorted.pop_front() {
            out.push(x);
            assert(out@ + sorted@ =~= sorted0);
        }
    }
    assert(out@ =~= sorted0);
    out
}

} // verus!
