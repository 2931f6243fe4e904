//! The pagination protocol: walk an unbounded result set in pages.
//!
//! The driver itself performs no I/O. It is a state machine: the caller asks
//! whether another page is needed, fetches it, and reports how many posts the
//! page held. The machine advances its offset by the reported page length and
//! stops once the offset reaches the total, or as soon as a page comes back
//! empty (a guard against a stale or inconsistent total).

use vstd::prelude::*;

use crate::photos::Post;

verus! {

/// The state of one pagination run.
pub struct Pagination {
    /// The total number of posts the API reported up front.
    pub total: usize,
    /// The index of the first post not yet fetched.
    pub offset: usize,
    /// Set once a page came back empty: no further fetch may follow.
    pub stopped: bool,
}

impl Pagination {
    /// The offset never passes the total.
    pub open spec fn wf(&self) -> bool {
        self.offset <= self.total
    }

    /// No further page is to be fetched.
    pub open spec fn done(&self) -> bool {
        self.stopped || self.offset >= self.total
    }

    /// How many posts are still owed; strictly decreases on every
    /// non-empty page, which bounds the number of fetches.
    pub open spec fn remaining(&self) -> int {
        self.total - self.offset
    }

    /// What recording a page of `page_len` posts does to the state.
    pub open spec fn step(self, page_len: usize) -> Pagination {
        if page_len == 0 {
            Pagination { total: self.total, offset: self.offset, stopped: true }
        } else if page_len >= self.total - self.offset {
            Pagination { total: self.total, offset: self.total, stopped: self.stopped }
        } else {
            Pagination {
                total: self.total,
                offset: (self.offset + page_len) as usize,
                stopped: self.stopped,
            }
        }
    }

    /// Start a run over a collection of `total` posts, at offset zero.
    pub fn new(total: usize) -> (r: Pagination)
        ensures
            r.total == total,
            r.offset == 0,
            !r.stopped,
            r.wf(),
            r.done() <==> total == 0,
    {
        Pagination { total, offset: 0, stopped: false }
    }

    /// Whether another page must be fetched before the run is complete.
    pub fn needs_fetch(&self) -> (r: bool)
        ensures
            r == !self.done(),
    {
        !self.stopped && self.offset < self.total
    }

    /// The offset at which the next page is to be requested.
    pub fn next_offset(&self) -> (r: usize)
        ensures
            r == self.offset,
    {
        self.offset
    }

    /// Record that the page just fetched held `page_len` posts.
    pub fn record_page(&mut self, page_len: usize)
        requires
            old(self).wf(),
            !old(self).done(),
        ensures
            *final(self) == old(self).step(page_len),
            final(self).wf(),
            final(self).total == old(self).total,
    {
        if page_len == 0 {
            self.stopped = true;
        } else if page_len >= self.total - self.offset {
            self.offset = self.total;
        } else {
            self.offset = self.offset + page_len;
        }
    }

    /// Record the page just fetched and append its posts to the accumulated
    /// run: the run grows by exactly this page, in the page's own order, so
    /// a walk that feeds every fetched page through here returns the pages'
    /// concatenation in fetch order.
    pub fn record_page_posts(&mut self, acc: &mut Vec<Post>, page: Vec<Post>)
        requires
            old(self).wf(),
            !old(self).done(),
        ensures
            *final(self) == old(self).step(page@.len() as usize),
            final(self).wf(),
            final(acc)@ == old(acc)@ + page@,
    {
        let mut page = page;
        self.record_page(page.len());
        acc.append(&mut page);
    }
}

/// The pagination protocol terminates: from any live state, recording an
/// empty page ends the run at once, and recording a non-empty page either
/// ends the run or strictly shrinks the number of posts still owed. No
/// infinite sequence of recorded pages exists.
pub proof fn lemma_pagination_progress(p: Pagination, page_len: usize)
    requires
        p.wf(),
        !p.done(),
    ensures
        p.step(page_len).wf(),
        page_len == 0 ==> p.step(page_len).done(),
        page_len > 0 ==> p.step(page_len).done() || p.step(page_len).remaining() < p.remaining(),
        p.step(page_len).remaining() <= p.remaining(),
{
}

/// What a run still owes never leaves the range from zero to its total, and
/// a live run owes at least one post. With `lemma_pagination_progress` this
/// bounds a run's fetches by its total: what is owed starts at the total and
/// every fetch either ends the run or shrinks it.
pub proof fn lemma_pagination_fetch_bound(p: Pagination)
    requires
        p.wf(),
    ensures
        0 <= p.remaining() <= p.total,
        !p.done() ==> p.remaining() >= 1,
{
}

} // verus!
