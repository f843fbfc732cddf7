use crate::models::{Review, ReviewListItem, ReviewModel};
use crate::pipeline::PipelineState;
use crate::traits::{
    chain_cursor, chain_flat, chain_more, chain_page, detail_chain_flat, details_of, list_filter,
    lemma_details_of_concat, GitUserReview, ListFilter, Provider, SourceError,
};
use vstd::prelude::*;

verus! {

/// The bounded channel's sending half, from tokio; the pipeline's only
/// cross-task structure.
#[verifier::external_type_specification]
#[verifier::external_body]
#[verifier::reject_recursive_types(T)]
pub struct ExSender<T>(tokio::sync::mpsc::Sender<T>);

/// Relies on tokio::sync::mpsc::Sender::blocking_send: it delivers the value
/// into the channel, waiting while the channel is full, unless the receiving
/// half is gone, in which case it hands the value back.  Which of the two
/// happens depends on the consumer task, so nothing more is promised.  Must be
/// called from outside an asynchronous runtime.
#[verifier::external_body]
fn channel_send<T>(tx: &tokio::sync::mpsc::Sender<T>, value: T) -> (r: Result<(), T>)
    ensures
        (r matches Err(v) ==> v == value),
{
    match tx.blocking_send(value) {
        Ok(()) => Ok(()),
        Err(e) => Err(e.0),
    }
}

/// A copy of a continuation token.
fn clone_cursor(c: &Option<String>) -> (r: Option<String>)
    ensures
        r == *c,
{
    match c {
        Some(s) => Some(s.clone()),
        None => None,
    }
}

/// A copy of a label filter, with the same characters label for label.
fn clone_tags(t: &Option<Vec<String>>) -> (r: Option<Vec<String>>)
    ensures
        r.deep_view() == t.deep_view(),
{
    match t {
        None => None,
        Some(v) => {
            let c = v.clone();
            proof {
                assert(c.deep_view() =~= v.deep_view()) by {
                    assert forall|i: int| 0 <= i < v@.len() implies c.deep_view()[i]
                        == v.deep_view()[i] by {
                        assert(cloned::<String>(v@[i], c@[i]));
                    }
                }
            }
            Some(c)
        },
    }
}

/// A count capped at what `usize` can hold, as the pump's saturating counters
/// keep it.
pub open spec fn sat_len(n: nat) -> nat {
    if n <= usize::MAX {
        n
    } else {
        usize::MAX as nat
    }
}

/// The filter a pump's listing calls carry: reviews requested of `owner`,
/// any organisation, the given labels.
pub open spec fn pump_filter(owner: Seq<char>, tags: Option<Vec<String>>) -> ListFilter {
    list_filter(Some(owner), None, tags.deep_view())
}

/// How one pipeline run ended.
#[derive(Debug, Clone, Copy, PartialEq, Eq)]
pub struct PumpStats {
    /// Listing calls performed.
    pub pages: usize,
    /// Remote items observed, saturating at `usize::MAX`.
    pub seen: usize,
    /// A send failed: the consumer closed its receiving half.
    pub closed: bool,
    /// The source reported that no further pages exist.
    pub exhausted: bool,
}

/// The pagination pump over review summaries: it drives repeated listing
/// calls, keeps a bounded backlog, and emits the summaries one at a time onto
/// a bounded channel, in the order the source returned them.
pub struct GitPullRequests<P> {
    pub provider: P,
    /// Backlog size at or under which the pump refills.
    pub low_water: usize,
    /// Running count of observed items past which the pump stops fetching.
    pub hard_cap: usize,
    /// Listing calls the pump will perform at most; guards against a source
    /// that serves empty pages without end.
    pub max_pages: usize,
}

impl<P: GitUserReview> GitPullRequests<P> {
    /// A pump with the default limits: refill at 15, cap at 100 items, and at
    /// most one listing call more than the cap can admit.
    pub fn new(provider: P) -> (r: Self)
        ensures
            r.provider == provider,
            r.low_water == 15,
            r.hard_cap == 100,
            r.max_pages == 101,
    {
        GitPullRequests { provider, low_water: 15, hard_cap: 100, max_pages: 101 }
    }

    /// A pump with chosen limits.
    pub fn with_limits(provider: P, low_water: usize, hard_cap: usize, max_pages: usize) -> (r:
        Self)
        ensures
            r.provider == provider,
            r.low_water == low_water,
            r.hard_cap == hard_cap,
            r.max_pages == max_pages,
    {
        GitPullRequests { provider, low_water, hard_cap, max_pages }
    }

    /// One pipeline run: fetch pages as the backlog drains — every listing
    /// call carrying the caller's filter — send each summary on the channel,
    /// waiting while the channel is full, and stop on the hard cap, on
    /// exhaustion, on a failed fetch or once the consumer is gone; whatever
    /// stops the run, the backlog is drained best-effort.
    ///
    /// The ghost half of the result is the exact sequence of summaries handed
    /// to the channel, on the error path too: a prefix of the fetched pages'
    /// items, in page order, and all of them unless the consumer left.  Every
    /// page but the last fetched reported more, so a run never fetches past
    /// the page that first reports exhaustion.
    pub fn run_inner(
        &self,
        tx: tokio::sync::mpsc::Sender<ReviewListItem>,
        owner: &str,
        tags: Option<Vec<String>>,
    ) -> (r: (Result<PumpStats, SourceError>, Ghost<Seq<ReviewListItem>>))
        ensures
            (r.0 matches Ok(stats) ==> stats.pages <= self.max_pages),
            (r.0 matches Ok(stats) ==> stats.seen == sat_len(
                chain_flat(&self.provider, pump_filter(owner@, tags), stats.pages as nat).len(),
            )),
            (r.0 matches Ok(stats) ==> r.1@.len() <= chain_flat(
                &self.provider,
                pump_filter(owner@, tags),
                stats.pages as nat,
            ).len() && r.1@ == chain_flat(
                &self.provider,
                pump_filter(owner@, tags),
                stats.pages as nat,
            ).take(r.1@.len() as int)),
            (r.0 matches Ok(stats) ==> (!stats.closed ==> r.1@ == chain_flat(
                &self.provider,
                pump_filter(owner@, tags),
                stats.pages as nat,
            ))),
            (r.0 matches Ok(stats) ==> (stats.closed ==> stats.pages >= 1 && r.1@.len()
                < chain_flat(&self.provider, pump_filter(owner@, tags), stats.pages as nat).len())),
            (r.0 matches Ok(stats) ==> forall|k: int|
                1 <= k < stats.pages ==> sat_len(
                    #[trigger] chain_flat(&self.provider, pump_filter(owner@, tags), k as nat).len(),
                ) <= self.hard_cap),
            (r.0 matches Ok(stats) ==> forall|k: int|
                1 <= k < stats.pages ==> #[trigger] chain_more(
                    &self.provider,
                    pump_filter(owner@, tags),
                    k as nat,
                )),
            (r.0 matches Ok(stats) ==> (stats.exhausted ==> stats.pages >= 1 && !chain_more(
                &self.provider,
                pump_filter(owner@, tags),
                stats.pages as nat,
            ))),
            (r.0 matches Ok(stats) ==> (stats.closed || stats.exhausted || stats.seen
                > self.hard_cap || stats.pages == self.max_pages)),
            (r.0 is Err ==> exists|k: nat|
                #![trigger chain_flat(&self.provider, pump_filter(owner@, tags), k)]
                k <= self.max_pages && r.1@ == chain_flat(
                    &self.provider,
                    pump_filter(owner@, tags),
                    k,
                ).take(r.1@.len() as int)),
    {
        let ghost f = pump_filter(owner@, tags);
        let mut st = PipelineState::<ReviewListItem>::new(self.low_water, self.hard_cap);
        let mut fetches: usize = 0;
        let mut closed = false;
        let mut exhausted = false;
        let ghost mut emitted: Seq<ReviewListItem> = Seq::empty();

        loop
            invariant_except_break
                st.has_more,
                st.seen <= st.hard_cap,
                !closed,
                !exhausted,
                emitted + st.backlog@ == chain_flat(&self.provider, f, fetches as nat),
                forall|k: int|
                    1 <= k <= fetches ==> #[trigger] chain_more(&self.provider, f, k as nat),
            invariant
                f == pump_filter(owner@, tags),
                st.low_water == self.low_water,
                st.hard_cap == self.hard_cap,
                fetches <= self.max_pages,
                st.cursor.deep_view() == chain_cursor(&self.provider, f, fetches as nat),
                st.seen == sat_len(chain_flat(&self.provider, f, fetches as nat).len()),
                forall|k: int|
                    1 <= k < fetches ==> sat_len(
                        #[trigger] chain_flat(&self.provider, f, k as nat).len(),
                    ) <= self.hard_cap,
            ensures
                emitted.len() <= chain_flat(&self.provider, f, fetches as nat).len(),
                emitted == chain_flat(&self.provider, f, fetches as nat).take(
                    emitted.len() as int,
                ),
                !closed ==> emitted + st.backlog@ == chain_flat(&self.provider, f, fetches as nat),
                closed ==> fetches >= 1 && emitted.len() < chain_flat(
                    &self.provider,
                    f,
                    fetches as nat,
                ).len(),
                forall|k: int|
                    1 <= k < fetches ==> #[trigger] chain_more(&self.provider, f, k as nat),
                exhausted ==> fetches >= 1 && !chain_more(&self.provider, f, fetches as nat),
                closed || exhausted || st.seen > st.hard_cap || fetches == self.max_pages,
            decreases self.max_pages - fetches, st.backlog@.len(),
        {
            if st.needs_refill() {
                if fetches == self.max_pages {
                    proof {
                        lemma_concat_prefix(
                            emitted,
                            st.backlog@,
                            chain_flat(&self.provider, f, fetches as nat),
                        );
                    }
                    break ;
                }
                let cur = clone_cursor(&st.cursor);
                let tags_arg = clone_tags(&tags);
                let ghost tags_arg_view = tags_arg.deep_view();
                let list = match self.provider.get_user_reviews_cursor(
                    Some(owner),
                    None,
                    tags_arg,
                    cur,
                ) {
                    Ok(l) => l,
                    Err(e) => {
                        proof {
                            lemma_concat_prefix(
                                emitted,
                                st.backlog@,
                                chain_flat(&self.provider, f, fetches as nat),
                            );
                            assert(exists|k: nat|
                                #![trigger chain_flat(&self.provider, pump_filter(owner@, tags), k)]
                                k <= self.max_pages && emitted == chain_flat(
                                    &self.provider,
                                    pump_filter(owner@, tags),
                                    k,
                                ).take(emitted.len() as int)) by {
                                assert(fetches as nat <= self.max_pages as nat && emitted
                                    == chain_flat(
                                    &self.provider,
                                    pump_filter(owner@, tags),
                                    fetches as nat,
                                ).take(emitted.len() as int));
                            }
                        }
                        return (Err(e), Ghost(emitted));
                    },
                };
                let more = list.has_more;
                let observed = list.items.len();
                proof {
                    assert(list_filter(Some(owner).deep_view(), None::<&str>.deep_view(),
                        tags_arg_view) == f);
                    assert(list@ == chain_page(&self.provider, f, fetches as nat));
                    assert(chain_flat(&self.provider, f, (fetches + 1) as nat) == chain_flat(
                        &self.provider,
                        f,
                        fetches as nat,
                    ) + chain_page(&self.provider, f, fetches as nat).items);
                }
                st.apply_page(list.items, observed, list.last_cursor, more);
                fetches += 1;
                proof {
                    assert(emitted + st.backlog@ =~= chain_flat(&self.provider, f, fetches as nat));
                    if more {
                        assert(chain_more(&self.provider, f, fetches as nat));
                        assert forall|k: int|
                            1 <= k <= fetches implies #[trigger] chain_more(
                            &self.provider,
                            f,
                            k as nat,
                        ) by {}
                    }
                }
                if !more {
                    exhausted = true;
                    proof {
                        lemma_concat_prefix(
                            emitted,
                            st.backlog@,
                            chain_flat(&self.provider, f, fetches as nat),
                        );
                    }
                    break ;
                }
            }
            if st.over_cap() {
                proof {
                    lemma_concat_prefix(
                        emitted,
                        st.backlog@,
                        chain_flat(&self.provider, f, fetches as nat),
                    );
                }
                break ;
            }
            match st.pop_next() {
                None => {
                },
                Some(item) => {
                    let ghost gi = item;
                    match channel_send(&tx, item) {
                        Ok(()) => {
                            proof {
                                emitted = emitted.push(gi);
                                assert(emitted + st.backlog@ =~= chain_flat(
                                    &self.provider,
                                    f,
                                    fetches as nat,
                                ));
                            }
                        },
                        Err(_) => {
                            closed = true;
                            proof {
                                let flat = chain_flat(&self.provider, f, fetches as nat);
                                assert(emitted + (seq![gi] + st.backlog@) =~= flat);
                                lemma_concat_prefix(emitted, seq![gi] + st.backlog@, flat);
                                if fetches == 0 {
                                    assert(flat =~= Seq::<ReviewListItem>::empty());
                                }
                            }
                            break ;
                        },
                    }
                },
            }
        }

        if !closed {
            loop
                invariant_except_break
                    !closed,
                    emitted + st.backlog@ == chain_flat(&self.provider, f, fetches as nat),
                invariant
                    f == pump_filter(owner@, tags),
                    st.seen == sat_len(chain_flat(&self.provider, f, fetches as nat).len()),
                    st.hard_cap == self.hard_cap,
                    exhausted || st.seen > st.hard_cap || fetches == self.max_pages,
                ensures
                    emitted.len() <= chain_flat(&self.provider, f, fetches as nat).len(),
                    emitted == chain_flat(&self.provider, f, fetches as nat).take(
                        emitted.len() as int,
                    ),
                    !closed ==> emitted == chain_flat(&self.provider, f, fetches as nat),
                    closed ==> fetches >= 1 && emitted.len() < chain_flat(
                        &self.provider,
                        f,
                        fetches as nat,
                    ).len(),
                decreases st.backlog@.len(),
            {
                match st.pop_next() {
                    None => {
                        proof {
                            lemma_concat_prefix(
                                emitted,
                                st.backlog@,
                                chain_flat(&self.provider, f, fetches as nat),
                            );
                            assert(emitted =~= chain_flat(&self.provider, f, fetches as nat));
                        }
                        break ;
                    },
                    Some(item) => {
                        let ghost gi = item;
                        match channel_send(&tx, item) {
                            Ok(()) => {
                                proof {
                                    emitted = emitted.push(gi);
                                    assert(emitted + st.backlog@ =~= chain_flat(
                                        &self.provider,
                                        f,
                                        fetches as nat,
                                    ));
                                }
                            },
                            Err(_) => {
                                closed = true;
                                proof {
                                    let flat = chain_flat(&self.provider, f, fetches as nat);
                                    assert(emitted + (seq![gi] + st.backlog@) =~= flat);
                                    lemma_concat_prefix(emitted, seq![gi] + st.backlog@, flat);
                                    if fetches == 0 {
                                        assert(flat =~= Seq::<ReviewListItem>::empty());
                                    }
                                }
                                break ;
                            },
                        }
                    },
                }
            }
        }

        (Ok(PumpStats { pages: fetches, seen: st.seen, closed, exhausted }), Ghost(emitted))
    }
}

/// The mathematical values of a sequence of detail records.
pub open spec fn review_views(s: Seq<Review>) -> Seq<ReviewModel> {
    s.map_values(|r: Review| r@)
}

/// The enriching pump: like `GitPullRequests`, but each page of summaries is
/// traded for the reviews' full records before anything is emitted; a summary
/// whose review is no longer accessible is dropped, and one failed lookup
/// aborts the whole run.
pub struct GitPullRequest<P> {
    pub provider: P,
    pub prs: GitPullRequests<P>,
    /// Backlog size at or under which the pump refills.
    pub low_water: usize,
    /// Running count of listed summaries past which the pump stops fetching.
    pub hard_cap: usize,
    /// Listing calls the pump will perform at most.
    pub max_pages: usize,
}

impl<P: Provider> GitPullRequest<P> {
    /// A pump with the default limits: refill at 10 — detail records are
    /// heavier than summaries — cap at 100, at most 101 listing calls.
    pub fn new(provider: P, prs: GitPullRequests<P>) -> (r: Self)
        ensures
            r.provider == provider,
            r.prs == prs,
            r.low_water == 10,
            r.hard_cap == 100,
            r.max_pages == 101,
    {
        GitPullRequest { provider, prs, low_water: 10, hard_cap: 100, max_pages: 101 }
    }

    /// A pump with chosen limits.
    pub fn with_limits(
        provider: P,
        prs: GitPullRequests<P>,
        low_water: usize,
        hard_cap: usize,
        max_pages: usize,
    ) -> (r: Self)
        ensures
            r.provider == provider,
            r.prs == prs,
            r.low_water == low_water,
            r.hard_cap == hard_cap,
            r.max_pages == max_pages,
    {
        GitPullRequest { provider, prs, low_water, hard_cap, max_pages }
    }

    /// One enriched pipeline run: fetch pages of summaries as the backlog
    /// drains — every listing call carrying the caller's filter — look every
    /// summary of the page up, dropping the absent ones and aborting on a
    /// failed lookup, fold the records into the backlog, and send them one at
    /// a time on the channel.
    ///
    /// The ghost half of the result is the sequence of record values handed to
    /// the channel, on the error path too: a prefix of the fetched pages'
    /// surviving details, and all of them unless the consumer left.  Only
    /// their multiset is promised to the consumer by design: delivery order
    /// across a page may be relaxed.
    pub fn run_inner(
        &self,
        tx: tokio::sync::mpsc::Sender<Review>,
        owner: &str,
        tags: Option<Vec<String>>,
    ) -> (r: (Result<PumpStats, SourceError>, Ghost<Seq<ReviewModel>>))
        ensures
            (r.0 matches Ok(stats) ==> stats.pages <= self.max_pages),
            (r.0 matches Ok(stats) ==> stats.seen == sat_len(
                chain_flat(&self.provider, pump_filter(owner@, tags), stats.pages as nat).len(),
            )),
            (r.0 matches Ok(stats) ==> r.1@.len() <= detail_chain_flat(
                &self.provider,
                pump_filter(owner@, tags),
                stats.pages as nat,
            ).len() && r.1@ == detail_chain_flat(
                &self.provider,
                pump_filter(owner@, tags),
                stats.pages as nat,
            ).take(r.1@.len() as int)),
            (r.0 matches Ok(stats) ==> (!stats.closed ==> r.1@ == detail_chain_flat(
                &self.provider,
                pump_filter(owner@, tags),
                stats.pages as nat,
            ))),
            (r.0 matches Ok(stats) ==> (!stats.closed ==> r.1@.to_multiset() == detail_chain_flat(
                &self.provider,
                pump_filter(owner@, tags),
                stats.pages as nat,
            ).to_multiset())),
            (r.0 matches Ok(stats) ==> (stats.closed ==> stats.pages >= 1 && r.1@.len()
                < detail_chain_flat(
                &self.provider,
                pump_filter(owner@, tags),
                stats.pages as nat,
            ).len())),
            (r.0 matches Ok(stats) ==> forall|k: int|
                1 <= k < stats.pages ==> sat_len(
                    #[trigger] chain_flat(&self.provider, pump_filter(owner@, tags), k as nat).len(),
                ) <= self.hard_cap),
            (r.0 matches Ok(stats) ==> forall|k: int|
                1 <= k < stats.pages ==> #[trigger] chain_more(
                    &self.provider,
                    pump_filter(owner@, tags),
                    k as nat,
                )),
            (r.0 matches Ok(stats) ==> (stats.exhausted ==> stats.pages >= 1 && !chain_more(
                &self.provider,
                pump_filter(owner@, tags),
                stats.pages as nat,
            ))),
            (r.0 matches Ok(stats) ==> (stats.closed || stats.exhausted || stats.seen
                > self.hard_cap || stats.pages == self.max_pages)),
            (r.0 is Err ==> exists|k: nat|
                #![trigger detail_chain_flat(&self.provider, pump_filter(owner@, tags), k)]
                k <= self.max_pages && r.1@ == detail_chain_flat(
                    &self.provider,
                    pump_filter(owner@, tags),
                    k,
                ).take(r.1@.len() as int)),
    {
        let ghost f = pump_filter(owner@, tags);
        let mut st = PipelineState::<Review>::new(self.low_water, self.hard_cap);
        let mut fetches: usize = 0;
        let mut closed = false;
        let mut exhausted = false;
        let ghost mut emitted: Seq<ReviewModel> = Seq::empty();

        loop
            invariant_except_break
                st.has_more,
                st.seen <= st.hard_cap,
                !closed,
                !exhausted,
                emitted + review_views(st.backlog@) == detail_chain_flat(
                    &self.provider,
                    f,
                    fetches as nat,
                ),
                forall|k: int|
                    1 <= k <= fetches ==> #[trigger] chain_more(&self.provider, f, k as nat),
            invariant
                f == pump_filter(owner@, tags),
                st.low_water == self.low_water,
                st.hard_cap == self.hard_cap,
                fetches <= self.max_pages,
                st.cursor.deep_view() == chain_cursor(&self.provider, f, fetches as nat),
                st.seen == sat_len(chain_flat(&self.provider, f, fetches as nat).len()),
                forall|k: int|
                    1 <= k < fetches ==> sat_len(
                        #[trigger] chain_flat(&self.provider, f, k as nat).len(),
                    ) <= self.hard_cap,
            ensures
                emitted.len() <= detail_chain_flat(&self.provider, f, fetches as nat).len(),
                emitted == detail_chain_flat(&self.provider, f, fetches as nat).take(
                    emitted.len() as int,
                ),
                !closed ==> emitted + review_views(st.backlog@) == detail_chain_flat(
                    &self.provider,
                    f,
                    fetches as nat,
                ),
                closed ==> fetches >= 1 && emitted.len() < detail_chain_flat(
                    &self.provider,
                    f,
                    fetches as nat,
                ).len(),
                forall|k: int|
                    1 <= k < fetches ==> #[trigger] chain_more(&self.provider, f, k as nat),
                exhausted ==> fetches >= 1 && !chain_more(&self.provider, f, fetches as nat),
                closed || exhausted || st.seen > st.hard_cap || fetches == self.max_pages,
            decreases self.max_pages - fetches, st.backlog@.len(),
        {
            if st.needs_refill() {
                if fetches == self.max_pages {
                    proof {
                        lemma_concat_prefix(
                            emitted,
                            review_views(st.backlog@),
                            detail_chain_flat(&self.provider, f, fetches as nat),
                        );
                    }
                    break ;
                }
                let cur = clone_cursor(&st.cursor);
                let tags_arg = clone_tags(&tags);
                let ghost tags_arg_view = tags_arg.deep_view();
                let list = match self.provider.get_user_reviews_cursor(
                    Some(owner),
                    None,
                    tags_arg,
                    cur,
                ) {
                    Ok(l) => l,
                    Err(e) => {
                        proof {
                            lemma_concat_prefix(
                                emitted,
                                review_views(st.backlog@),
                                detail_chain_flat(&self.provider, f, fetches as nat),
                            );
                            assert(exists|k: nat|
                                #![trigger detail_chain_flat(&self.provider, pump_filter(owner@, tags), k)]
                                k <= self.max_pages && emitted == detail_chain_flat(
                                    &self.provider,
                                    pump_filter(owner@, tags),
                                    k,
                                ).take(emitted.len() as int)) by {
                                assert(fetches as nat <= self.max_pages as nat && emitted
                                    == detail_chain_flat(
                                    &self.provider,
                                    pump_filter(owner@, tags),
                                    fetches as nat,
                                ).take(emitted.len() as int));
                            }
                        }
                        return (Err(e), Ghost(emitted));
                    },
                };
                let more = list.has_more;
                let items = list.items;
                let observed = items.len();
                proof {
                    assert(list_filter(Some(owner).deep_view(), None::<&str>.deep_view(),
                        tags_arg_view) == f);
                    assert(items@ == chain_page(&self.provider, f, fetches as nat).items);
                    assert(chain_flat(&self.provider, f, (fetches + 1) as nat) == chain_flat(
                        &self.provider,
                        f,
                        fetches as nat,
                    ) + chain_page(&self.provider, f, fetches as nat).items);
                    assert(detail_chain_flat(&self.provider, f, (fetches + 1) as nat)
                        == detail_chain_flat(&self.provider, f, fetches as nat) + details_of(
                        &self.provider,
                        chain_page(&self.provider, f, fetches as nat).items,
                    ));
                }
                let mut details: Vec<Review> = Vec::new();
                let mut i: usize = 0;
                proof {
                    assert(review_views(details@) =~= details_of(&self.provider, items@.take(0)));
                }
                while i < observed
                    invariant
                        i <= observed,
                        observed == items@.len(),
                        emitted + review_views(st.backlog@) == detail_chain_flat(
                            &self.provider,
                            f,
                            fetches as nat,
                        ),
                        f == pump_filter(owner@, tags),
                        fetches <= self.max_pages,
                        review_views(details@) == details_of(
                            &self.provider,
                            items@.take(i as int),
                        ),
                    decreases observed - i,
                {
                    let it = &items[i];
                    let detail = match self.provider.get_review(
                        it.owner.clone(),
                        it.name.clone(),
                        it.number,
                    ) {
                        Ok(d) => d,
                        Err(e) => {
                            proof {
                                lemma_concat_prefix(
                                    emitted,
                                    review_views(st.backlog@),
                                    detail_chain_flat(&self.provider, f, fetches as nat),
                                );
                                assert(exists|k: nat|
                                    #![trigger detail_chain_flat(&self.provider, pump_filter(owner@, tags), k)]
                                    k <= self.max_pages && emitted == detail_chain_flat(
                                        &self.provider,
                                        pump_filter(owner@, tags),
                                        k,
                                    ).take(emitted.len() as int)) by {
                                    assert(fetches as nat <= self.max_pages as nat && emitted
                                        == detail_chain_flat(
                                        &self.provider,
                                        pump_filter(owner@, tags),
                                        fetches as nat,
                                    ).take(emitted.len() as int));
                                }
                            }
                            return (Err(e), Ghost(emitted));
                        },
                    };
                    proof {
                        let pre = items@.take(i as int);
                        let one = seq![items@[i as int]];
                        assert(items@.take(i + 1) =~= pre + one);
                        lemma_details_of_concat(&self.provider, pre, one);
                        assert(one.drop_first() =~= Seq::<ReviewListItem>::empty());
                        assert(details_of(&self.provider, Seq::<ReviewListItem>::empty())
                            =~= Seq::<ReviewModel>::empty());
                    }
                    match detail {
                        Some(d) => {
                            let ghost pre_views = review_views(details@);
                            details.push(d);
                            proof {
                                assert(review_views(details@) =~= pre_views + seq![d@]);
                                assert(details_of(&self.provider, seq![items@[i as int]])
                                    =~= seq![d@]);
                            }
                        },
                        None => {
                            proof {
                                assert(details_of(&self.provider, seq![items@[i as int]])
                                    =~= Seq::<ReviewModel>::empty());
                                assert(details_of(&self.provider, items@.take(i + 1))
                                    =~= review_views(details@));
                            }
                        },
                    }
                    i += 1;
                }
                proof {
                    assert(items@.take(observed as int) =~= items@);
                }
                let ghost pre_backlog = st.backlog@;
                let ghost new_views = review_views(details@);
                st.apply_page(details, observed, list.last_cursor, more);
                fetches += 1;
                proof {
                    assert(review_views(st.backlog@) =~= review_views(pre_backlog) + new_views);
                    assert(emitted + review_views(st.backlog@) =~= detail_chain_flat(
                        &self.provider,
                        f,
                        fetches as nat,
                    ));
                    if more {
                        assert(chain_more(&self.provider, f, fetches as nat));
                        assert forall|k: int|
                            1 <= k <= fetches implies #[trigger] chain_more(
                            &self.provider,
                            f,
                            k as nat,
                        ) by {}
                    }
                }
                if !more {
                    exhausted = true;
                    proof {
                        lemma_concat_prefix(
                            emitted,
                            review_views(st.backlog@),
                            detail_chain_flat(&self.provider, f, fetches as nat),
                        );
                    }
                    break ;
                }
            }
            if st.over_cap() {
                proof {
                    lemma_concat_prefix(
                        emitted,
                        review_views(st.backlog@),
                        detail_chain_flat(&self.provider, f, fetches as nat),
                    );
                }
                break ;
            }
            match st.pop_next() {
                None => {
                },
                Some(item) => {
                    let ghost gi = item;
                    let ghost pre_backlog_full = seq![gi] + st.backlog@;
                    match channel_send(&tx, item) {
                        Ok(()) => {
                            proof {
                                assert(review_views(pre_backlog_full) =~= seq![gi@]
                                    + review_views(st.backlog@));
                                emitted = emitted.push(gi@);
                                assert(emitted + review_views(st.backlog@) =~= detail_chain_flat(
                                    &self.provider,
                                    f,
                                    fetches as nat,
                                ));
                            }
                        },
                        Err(_) => {
                            closed = true;
                            proof {
                                let flat = detail_chain_flat(&self.provider, f, fetches as nat);
                                assert(review_views(pre_backlog_full) =~= seq![gi@]
                                    + review_views(st.backlog@));
                                assert(emitted + (seq![gi@] + review_views(st.backlog@))
                                    =~= flat);
                                lemma_concat_prefix(
                                    emitted,
                                    seq![gi@] + review_views(st.backlog@),
                                    flat,
                                );
                                if fetches == 0 {
                                    assert(flat =~= Seq::<ReviewModel>::empty());
                                }
                            }
                            break ;
                        },
                    }
                },
            }
        }

        if !closed {
            loop
                invariant_except_break
                    !closed,
                    emitted + review_views(st.backlog@) == detail_chain_flat(
                        &self.provider,
                        f,
                        fetches as nat,
                    ),
                invariant
                    f == pump_filter(owner@, tags),
                    st.seen == sat_len(chain_flat(&self.provider, f, fetches as nat).len()),
                    st.hard_cap == self.hard_cap,
                    exhausted || st.seen > st.hard_cap || fetches == self.max_pages,
                ensures
                    emitted.len() <= detail_chain_flat(&self.provider, f, fetches as nat).len(),
                    emitted == detail_chain_flat(&self.provider, f, fetches as nat).take(
                        emitted.len() as int,
                    ),
                    !closed ==> emitted == detail_chain_flat(&self.provider, f, fetches as nat),
                    closed ==> fetches >= 1 && emitted.len() < detail_chain_flat(
                        &self.provider,
                        f,
                        fetches as nat,
                    ).len(),
                decreases st.backlog@.len(),
            {
                match st.pop_next() {
                    None => {
                        proof {
                            assert(review_views(st.backlog@) =~= Seq::<ReviewModel>::empty());
                            lemma_concat_prefix(
                                emitted,
                                review_views(st.backlog@),
                                detail_chain_flat(&self.provider, f, fetches as nat),
                            );
                            assert(emitted =~= detail_chain_flat(
                                &self.provider,
                                f,
                                fetches as nat,
                            ));
                        }
                        break ;
                    },
                    Some(item) => {
                        let ghost gi = item;
                        let ghost pre_backlog_full = seq![gi] + st.backlog@;
                        match channel_send(&tx, item) {
                            Ok(()) => {
                                proof {
                                    assert(review_views(pre_backlog_full) =~= seq![gi@]
                                        + review_views(st.backlog@));
                                    emitted = emitted.push(gi@);
                                    assert(emitted + review_views(st.backlog@)
                                        =~= detail_chain_flat(&self.provider, f, fetches as nat));
                                }
                            },
                            Err(_) => {
                                closed = true;
                                proof {
                                    let flat = detail_chain_flat(
                                        &self.provider,
                                        f,
                                        fetches as nat,
                                    );
                                    assert(review_views(pre_backlog_full) =~= seq![gi@]
                                        + review_views(st.backlog@));
                                    assert(emitted + (seq![gi@] + review_views(st.backlog@))
                                        =~= flat);
                                    lemma_concat_prefix(
                                        emitted,
                                        seq![gi@] + review_views(st.backlog@),
                                        flat,
                                    );
                                    if fetches == 0 {
                                        assert(flat =~= Seq::<ReviewModel>::empty());
                                    }
                                }
                                break ;
                            },
                        }
                    },
                }
            }
        }

        (Ok(PumpStats { pages: fetches, seen: st.seen, closed, exhausted }), Ghost(emitted))
    }
}

/// A left summand is the prefix of a concatenation.
proof fn lemma_concat_prefix<T>(a: Seq<T>, b: Seq<T>, c: Seq<T>)
    requires
        c == a + b,
    ensures
        a.len() <= c.len(),
        a == c.take(a.len() as int),
{
    assert(a =~= c.take(a.len() as int));
}

} // verus!
