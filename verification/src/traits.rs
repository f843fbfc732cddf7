use crate::models::{PageModel, Review, ReviewList, ReviewListItem, ReviewModel};
use vstd::prelude::*;

verus! {

/// A failure reported by the remote review source.  Such a failure is fatal to
/// the pipeline run that met it: the run stops and is not retried.
#[derive(Debug, PartialEq, Eq)]
pub struct SourceError {
    pub message: String,
}

impl Clone for SourceError {
    fn clone(&self) -> (r: Self)
        ensures
            r == *self,
    {
        SourceError { message: self.message.clone() }
    }
}

/// The mathematical value of an optional detail record.
pub open spec fn opt_review_view(o: Option<Review>) -> Option<ReviewModel> {
    match o {
        Some(r) => Some(r@),
        None => None,
    }
}

/// What a listing call filters by: the user or team whose review is
/// requested, the owning organisation, and the labels.
pub struct ListFilter {
    pub requested: Option<Seq<char>>,
    pub org: Option<Seq<char>>,
    pub tags: Option<Seq<Seq<char>>>,
}

/// The filter model of one set of listing arguments.
pub open spec fn list_filter(
    requested: Option<Seq<char>>,
    org: Option<Seq<char>>,
    tags: Option<Seq<Seq<char>>>,
) -> ListFilter {
    ListFilter { requested, org, tags }
}

/// Capability to list the reviews waiting on a user, one cursor-addressed page
/// at a time.  The abstract model `page_at` fixes, for each filter and
/// continuation token, the page a successful call returns; any call may
/// instead fail with a `SourceError`.
pub trait GitUserReview: Sized {
    /// The page that a successful listing call under `filter` resumed at
    /// `cursor` returns.  An implementation in verified code overrides this
    /// with its own model; for one outside it the model stays arbitrary, and
    /// nothing can be concluded about what its calls return.
    open spec fn page_at(&self, filter: ListFilter, cursor: Option<Seq<char>>) -> PageModel {
        arbitrary()
    }

    /// List the page of open reviews at `cursor`, narrowed to the requested user,
    /// the owning organisation and the labels.
    fn get_user_reviews_cursor(
        &self,
        requested: Option<&str>,
        org: Option<&str>,
        tags: Option<Vec<String>>,
        cursor: Option<String>,
    ) -> (r: Result<ReviewList, SourceError>)
        ensures
            (r matches Ok(list) ==> list@ == self.page_at(
                list_filter(requested.deep_view(), org.deep_view(), tags.deep_view()),
                cursor.deep_view(),
            )),
    ;

    /// List the first page of open reviews.
    fn get_user_reviews(
        &self,
        requested: Option<&str>,
        org: Option<&str>,
        tags: Option<Vec<String>>,
    ) -> (r: Result<ReviewList, SourceError>)
        ensures
            (r matches Ok(list) ==> list@ == self.page_at(
                list_filter(requested.deep_view(), org.deep_view(), tags.deep_view()),
                None,
            )),
    ;
}

/// Capability to look one review up in full.  The abstract model `detail_at`
/// fixes what a successful call returns: `None` stands for a review that is no
/// longer accessible, which the enrichment stage drops rather than fails on.
pub trait GitReview: Sized {
    /// The record that a successful lookup of `owner/name#number` returns.
    /// An implementation in verified code overrides this with its own model;
    /// for one outside it the model stays arbitrary, and nothing can be
    /// concluded about what its calls return.
    open spec fn detail_at(&self, owner: Seq<char>, name: Seq<char>, number: usize) -> Option<
        ReviewModel,
    > {
        arbitrary()
    }

    /// Fetch the full record of the review `owner/name#number`.
    fn get_review(&self, owner: String, name: String, number: usize) -> (r: Result<
        Option<Review>,
        SourceError,
    >)
        ensures
            (r matches Ok(o) ==> opt_review_view(o) == self.detail_at(owner@, name@, number)),
    ;
}

/// A full review source: it can both list summaries and look details up.
pub trait Provider: GitUserReview + GitReview {

}

/// The continuation token reached after `n` successful listing calls under
/// `f` that started from the beginning.
pub open spec fn chain_cursor<S: GitUserReview>(s: &S, f: ListFilter, n: nat) -> Option<Seq<char>>
    decreases n,
{
    if n == 0 {
        None
    } else {
        s.page_at(f, chain_cursor(s, f, (n - 1) as nat)).next
    }
}

/// The page returned by listing call number `n` (counted from 0) of a run
/// under `f` that started from the beginning.
pub open spec fn chain_page<S: GitUserReview>(s: &S, f: ListFilter, n: nat) -> PageModel {
    s.page_at(f, chain_cursor(s, f, n))
}

/// All items of the first `n` pages, in page order: the summaries a pipeline
/// run under `f` has observed after `n` listing calls.
pub open spec fn chain_flat<S: GitUserReview>(s: &S, f: ListFilter, n: nat) -> Seq<ReviewListItem>
    decreases n,
{
    if n == 0 {
        Seq::empty()
    } else {
        chain_flat(s, f, (n - 1) as nat) + chain_page(s, f, (n - 1) as nat).items
    }
}

/// Whether listing call number `n - 1` reported that more pages exist; before
/// any call the source is assumed to have more.
pub open spec fn chain_more<S: GitUserReview>(s: &S, f: ListFilter, n: nat) -> bool {
    if n == 0 {
        true
    } else {
        chain_page(s, f, (n - 1) as nat).more
    }
}

/// The details of `items` that the source still knows, in item order, each
/// absent item dropped.
pub open spec fn details_of<S: GitReview>(s: &S, items: Seq<ReviewListItem>) -> Seq<ReviewModel>
    decreases items.len(),
{
    if items.len() == 0 {
        Seq::empty()
    } else {
        let rest = details_of(s, items.drop_first());
        match s.detail_at(items[0].owner@, items[0].name@, items[0].number) {
            Some(d) => seq![d] + rest,
            None => rest,
        }
    }
}

/// All details of the first `n` pages listed under `f` that the source still
/// knows, in page and item order.
pub open spec fn detail_chain_flat<S: Provider>(s: &S, f: ListFilter, n: nat) -> Seq<ReviewModel>
    decreases n,
{
    if n == 0 {
        Seq::empty()
    } else {
        detail_chain_flat(s, f, (n - 1) as nat) + details_of(
            s,
            chain_page(s, f, (n - 1) as nat).items,
        )
    }
}

/// Splitting a batch of items splits its details: the details of a
/// concatenation are the concatenated details.
pub proof fn lemma_details_of_concat<S: GitReview>(s: &S, a: Seq<ReviewListItem>, b: Seq<
    ReviewListItem,
>)
    ensures
        details_of(s, a + b) == details_of(s, a) + details_of(s, b),
    decreases a.len(),
{
    if a.len() == 0 {
        assert(a + b =~= b);
        assert(details_of(s, a) + details_of(s, b) =~= details_of(s, b));
    } else {
        assert((a + b).drop_first() =~= a.drop_first() + b);
        lemma_details_of_concat(s, a.drop_first(), b);
        assert((a + b)[0] == a[0]);
        match s.detail_at(a[0].owner@, a[0].name@, a[0].number) {
            Some(d) => {
                assert(seq![d] + (details_of(s, a.drop_first()) + details_of(s, b)) =~= (seq![d]
                    + details_of(s, a.drop_first())) + details_of(s, b));
            },
            None => {},
        }
    }
}

} // verus!
