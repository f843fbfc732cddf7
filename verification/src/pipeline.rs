use std::collections::VecDeque;
use vstd::prelude::*;

verus! {

/// The state a pagination pump owns while it runs: a FIFO backlog of items not
/// yet delivered, the continuation token of the next page, whether the source
/// reports more pages, a running count of remote items observed, the low-water
/// threshold below which the backlog is refilled, and the hard cap on items
/// observed.  The state is owned exclusively by its pump and never shared.
pub struct PipelineState<T> {
    pub backlog: VecDeque<T>,
    pub cursor: Option<String>,
    pub has_more: bool,
    pub seen: usize,
    pub low_water: usize,
    pub hard_cap: usize,
}

impl<T> PipelineState<T> {
    /// A fresh state: empty backlog, listing to start from the beginning,
    /// nothing observed yet.
    pub fn new(low_water: usize, hard_cap: usize) -> (s: Self)
        ensures
            s.backlog@ == Seq::<T>::empty(),
            s.cursor is None,
            s.has_more,
            s.seen == 0,
            s.low_water == low_water,
            s.hard_cap == hard_cap,
    {
        PipelineState {
            backlog: VecDeque::new(),
            cursor: None,
            has_more: true,
            seen: 0,
            low_water,
            hard_cap,
        }
    }

    /// Whether the pump should fetch another page: the backlog has drained to
    /// the low-water threshold and the source still has more.
    pub fn needs_refill(&self) -> (r: bool)
        ensures
            r == (self.backlog@.len() <= self.low_water && self.has_more),
    {
        self.backlog.len() <= self.low_water && self.has_more
    }

    /// Whether the running count of observed items has passed the hard cap.
    pub fn over_cap(&self) -> (r: bool)
        ensures
            r == (self.seen > self.hard_cap),
    {
        self.seen > self.hard_cap
    }

    /// Fold one fetched page into the state: append `items` to the backlog
    /// tail, advance the cursor, record whether more pages exist, and add
    /// `observed` — the number of items the remote listing reported, which for
    /// an enriching pump can exceed the items kept — to the running count,
    /// saturating rather than overflowing.
    ///
    /// A refill performed only when `needs_refill` held cannot grow the
    /// backlog beyond the low-water threshold plus one page.
    pub fn apply_page(
        &mut self,
        items: Vec<T>,
        observed: usize,
        next_cursor: Option<String>,
        more: bool,
    )
        ensures
            final(self).backlog@ == old(self).backlog@ + items@,
            final(self).cursor == next_cursor,
            final(self).has_more == more,
            final(self).seen == if old(self).seen + observed <= usize::MAX {
                (old(self).seen + observed) as usize
            } else {
                usize::MAX
            },
            final(self).low_water == old(self).low_water,
            final(self).hard_cap == old(self).hard_cap,
            old(self).backlog@.len() <= old(self).low_water ==> final(self).backlog@.len()
                <= final(self).low_water + items@.len(),
    {
        let mut items = items;
        let ghost items0 = items@;
        let n = items.len();
        let mut i: usize = 0;
        while i < n
            invariant
                i <= n,
                items@ =~= items0.skip(i as int),
                n == items0.len(),
                self.backlog@ =~= old(self).backlog@ + items0.take(i as int),
                self.cursor == old(self).cursor,
                self.has_more == old(self).has_more,
                self.seen == old(self).seen,
                self.low_water == old(self).low_water,
                self.hard_cap == old(self).hard_cap,
            decreases n - i,
        {
            let item = items.remove(0);
            proof {
                assert(item == items0[i as int]);
                assert(items0.take(i as int).push(item) =~= items0.take(i + 1));
                assert(items@ =~= items0.skip(i + 1));
            }
            self.backlog.push_back(item);
            i += 1;
        }
        proof {
            assert(items0.take(n as int) =~= items0);
        }
        if observed <= usize::MAX - self.seen {
            self.seen = self.seen + observed;
        } else {
            self.seen = usize::MAX;
        }
        self.cursor = next_cursor;
        self.has_more = more;
    }

    /// Pop the backlog head, if any: the next item owed to the consumer.
    pub fn pop_next(&mut self) -> (r: Option<T>)
        ensures
            old(self).backlog@.len() == 0 ==> r is None && final(self).backlog@ == old(
                self,
            ).backlog@,
            old(self).backlog@.len() > 0 ==> r == Some(old(self).backlog@[0])
                && final(self).backlog@ == old(self).backlog@.drop_first(),
            final(self).cursor == old(self).cursor,
            final(self).has_more == old(self).has_more,
            final(self).seen == old(self).seen,
            final(self).low_water == old(self).low_water,
            final(self).hard_cap == old(self).hard_cap,
    {
        self.backlog.pop_front()
    }
}

/// Backpressure law: a pump that refills only when `needs_refill` holds — that
/// is, only once the backlog has drained to the low-water threshold — never
/// grows the backlog beyond the threshold plus the size of the one page it
/// fetched, however long the consumer refuses to receive.
pub proof fn lemma_refill_bounds_backlog<T>(
    pre: Seq<T>,
    post: Seq<T>,
    page: Seq<T>,
    low_water: nat,
)
    requires
        pre.len() <= low_water,
        post == pre + page,
    ensures
        post.len() <= low_water + page.len(),
{
}

} // verus!
