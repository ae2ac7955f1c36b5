//! Fetching the records of a boot session page by page.
//!
//! The server hands out at most [`PAGE_LIMIT`] records per request. A page
//! that comes back full may have a successor, which is asked for from one
//! past the last sequence number seen; a page that is not full ends the
//! listing.
use crate::records::CANFrameRecordDTO;
use crate::urls::{records_url, records_url_text, PAGE_LIMIT};
use vstd::prelude::*;

verus! {

/// The state of a paged fetch: the records gathered so far, where the next
/// page starts, and whether the listing has ended.
pub struct RecordPager {
    records: Vec<CANFrameRecordDTO>,
    seqno_min: Option<i64>,
    done: bool,
}

/// Where the page after `page` starts: one past the sequence number of its
/// last record.
pub open spec fn next_seqno_min(page: Seq<CANFrameRecordDTO>) -> int {
    page.last().seqno + 1
}

/// A page of `page` records ends the listing when it is not full.
pub open spec fn ends_listing(page: Seq<CANFrameRecordDTO>) -> bool {
    page.len() < PAGE_LIMIT
}

impl RecordPager {
    /// The records gathered so far, in the order in which they came.
    pub closed spec fn gathered(&self) -> Seq<CANFrameRecordDTO> {
        self.records@
    }

    /// The sequence number the next page starts at, if any.
    pub closed spec fn next_start(&self) -> Option<i64> {
        self.seqno_min
    }

    /// The listing has ended.
    pub closed spec fn finished(&self) -> bool {
        self.done
    }

    /// A fetch that has gathered nothing and asks for the first page.
    pub fn new() -> (pager: Self)
        ensures
            pager.gathered() == Seq::<CANFrameRecordDTO>::empty(),
            pager.next_start() == None::<i64>,
            !pager.finished(),
    {
        RecordPager { records: Vec::new(), seqno_min: None, done: false }
    }

    /// Whether the listing has ended.
    pub fn is_done(&self) -> (done: bool)
        ensures
            done == self.finished(),
    {
        self.done
    }

    /// The sequence number the next page starts at, if any.
    pub fn seqno_min(&self) -> (start: Option<i64>)
        ensures
            start == self.next_start(),
    {
        self.seqno_min
    }

    /// The number of records gathered so far.
    pub fn len(&self) -> (n: usize)
        ensures
            n == self.gathered().len(),
    {
        self.records.len()
    }

    /// The address of the next page of boot session `boot_id` of `device`.
    pub fn next_url(&self, server: &str, device: &str, boot_id: u64) -> (url: String)
        ensures
            url@ == records_url_text(server@, device@, boot_id, self.next_start()),
    {
        records_url(server, device, boot_id, self.seqno_min)
    }

    /// Takes in the page that the last request returned: its records are
    /// added after those gathered so far; a page that is not full ends the
    /// listing, and a full one moves the start of the next page to one past
    /// its last sequence number. That start is computed in `i64`, so a full
    /// page may not end at `i64::MAX`.
    pub fn accept_page(&mut self, page: Vec<CANFrameRecordDTO>)
        requires
            !old(self).finished(),
            !ends_listing(page@) ==> next_seqno_min(page@) <= i64::MAX,
        ensures
            final(self).gathered() == old(self).gathered() + page@,
            final(self).finished() == ends_listing(page@),
            final(self).next_start() == if ends_listing(page@) {
                old(self).next_start()
            } else {
                Some(next_seqno_min(page@) as i64)
            },
    {
        let count = page.len();
        let mut page = page;
        if count < PAGE_LIMIT {
            self.records.append(&mut page);
            self.done = true;
        } else {
            let last_seqno = page[count - 1].seqno;
            self.records.append(&mut page);
            self.seqno_min = Some(last_seqno + 1);
        }
    }

    /// Hands over the records gathered.
    pub fn into_records(self) -> (records: Vec<CANFrameRecordDTO>)
        ensures
            records@ == self.gathered(),
    {
        self.records
    }
}

} // verus!
