use crate::models::{PageModel, Review, ReviewList, ReviewModel};
use crate::traits::{opt_review_view, GitReview, GitUserReview, ListFilter, Provider, SourceError};
use vstd::prelude::*;

verus! {

/// One page a `ScriptedProvider` serves: the continuation token it answers to
/// (`None` for the first page), whether the call fails instead of answering,
/// and the page itself.
pub struct ScriptedPage {
    pub key: Option<String>,
    pub fail: bool,
    pub list: ReviewList,
}

/// One detail record a `ScriptedProvider` serves, addressed by owner,
/// repository name and number.  `review: None` scripts a review that is no
/// longer accessible; `fail` scripts a failing lookup.
pub struct ScriptedDetail {
    pub owner: String,
    pub name: String,
    pub number: usize,
    pub fail: bool,
    pub review: Option<Review>,
}

/// An in-memory review source that serves a fixed script: pages addressed by
/// continuation token — the same pages whatever the filter — and detail
/// records addressed by reference.  It gives the pipeline a source whose
/// behaviour is wholly known, so that runs against it are determined by the
/// script alone.
pub struct ScriptedProvider {
    pub pages: Vec<ScriptedPage>,
    pub details: Vec<ScriptedDetail>,
}

/// The page an unmatched continuation token yields: nothing, and no more pages.
pub open spec fn empty_page() -> PageModel {
    PageModel { items: Seq::empty(), next: None, more: false }
}

/// The first entry of the script whose key matches `cursor`, when one exists.
pub open spec fn find_page_entry(pages: Seq<ScriptedPage>, cursor: Option<Seq<char>>) -> Option<
    ScriptedPage,
>
    decreases pages.len(),
{
    if pages.len() == 0 {
        None
    } else if pages[0].key.deep_view() == cursor {
        Some(pages[0])
    } else {
        find_page_entry(pages.drop_first(), cursor)
    }
}

/// The first page of the script whose key matches `cursor`, or the empty page
/// when none does.
pub open spec fn find_page(pages: Seq<ScriptedPage>, cursor: Option<Seq<char>>) -> PageModel {
    match find_page_entry(pages, cursor) {
        Some(p) => p.list@,
        None => empty_page(),
    }
}

/// The first entry of the script that matches the reference, when one exists.
pub open spec fn find_detail_entry(
    details: Seq<ScriptedDetail>,
    owner: Seq<char>,
    name: Seq<char>,
    number: usize,
) -> Option<ScriptedDetail>
    decreases details.len(),
{
    if details.len() == 0 {
        None
    } else if details[0].owner@ == owner && details[0].name@ == name && details[0].number
        == number {
        Some(details[0])
    } else {
        find_detail_entry(details.drop_first(), owner, name, number)
    }
}

/// The first detail record of the script that matches the reference, or `None`
/// — an absent review — when none does.
pub open spec fn find_detail(
    details: Seq<ScriptedDetail>,
    owner: Seq<char>,
    name: Seq<char>,
    number: usize,
) -> Option<ReviewModel> {
    match find_detail_entry(details, owner, name, number) {
        Some(e) => opt_review_view(e.review),
        None => None,
    }
}

/// Whether two optional continuation tokens hold the same characters.
fn cursor_eq(a: &Option<String>, b: &Option<String>) -> (r: bool)
    ensures
        r == (a.deep_view() == b.deep_view()),
{
    match (a, b) {
        (None, None) => true,
        (Some(x), Some(y)) => *x == *y,
        (Some(_), None) => false,
        (None, Some(_)) => false,
    }
}

impl ScriptedProvider {
    /// A provider serving the given pages and detail records.
    pub fn new(pages: Vec<ScriptedPage>, details: Vec<ScriptedDetail>) -> (r: Self)
        ensures
            r.pages == pages,
            r.details == details,
    {
        ScriptedProvider { pages, details }
    }
}

impl GitUserReview for ScriptedProvider {
    open spec fn page_at(&self, filter: ListFilter, cursor: Option<Seq<char>>) -> PageModel {
        find_page(self.pages@, cursor)
    }

    fn get_user_reviews_cursor(
        &self,
        _requested: Option<&str>,
        _org: Option<&str>,
        _tags: Option<Vec<String>>,
        cursor: Option<String>,
    ) -> (r: Result<ReviewList, SourceError>)
        ensures
            (r is Ok <==> (find_page_entry(self.pages@, cursor.deep_view()) matches Some(p)
                && !p.fail)),
    {
        let n = self.pages.len();
        let mut i: usize = 0;
        proof {
            assert(self.pages@.skip(0) =~= self.pages@);
        }
        while i < n
            invariant
                i <= n,
                n == self.pages@.len(),
                find_page_entry(self.pages@.skip(i as int), cursor.deep_view())
                    == find_page_entry(self.pages@, cursor.deep_view()),
            decreases n - i,
        {
            proof {
                assert(self.pages@.skip(i as int)[0] == self.pages@[i as int]);
            }
            if cursor_eq(&self.pages[i].key, &cursor) {
                if self.pages[i].fail {
                    return Err(SourceError { message: "scripted listing failure".to_owned() });
                }
                let list = self.pages[i].list.clone();
                return Ok(list);
            }
            proof {
                assert(self.pages@.skip(i as int).drop_first() =~= self.pages@.skip(i + 1));
            }
            i += 1;
        }
        Err(SourceError { message: "cursor beyond the script".to_owned() })
    }

    fn get_user_reviews(
        &self,
        requested: Option<&str>,
        org: Option<&str>,
        tags: Option<Vec<String>>,
    ) -> (r: Result<ReviewList, SourceError>)
        ensures
            (r is Ok <==> (find_page_entry(self.pages@, None) matches Some(p) && !p.fail)),
    {
        let r = self.get_user_reviews_cursor(requested, org, tags, None);
        proof {
            assert(None::<String>.deep_view() == None::<Seq<char>>);
        }
        r
    }
}

impl GitReview for ScriptedProvider {
    open spec fn detail_at(&self, owner: Seq<char>, name: Seq<char>, number: usize) -> Option<
        ReviewModel,
    > {
        find_detail(self.details@, owner, name, number)
    }

    fn get_review(&self, owner: String, name: String, number: usize) -> (r: Result<
        Option<Review>,
        SourceError,
    >)
        ensures
            (r is Err <==> (find_detail_entry(self.details@, owner@, name@, number) matches Some(
                e,
            ) && e.fail)),
    {
        let n = self.details.len();
        let mut i: usize = 0;
        proof {
            assert(self.details@.skip(0) =~= self.details@);
        }
        while i < n
            invariant
                i <= n,
                n == self.details@.len(),
                find_detail_entry(self.details@.skip(i as int), owner@, name@, number)
                    == find_detail_entry(self.details@, owner@, name@, number),
            decreases n - i,
        {
            proof {
                assert(self.details@.skip(i as int)[0] == self.details@[i as int]);
            }
            let entry = &self.details[i];
            if entry.owner == owner && entry.name == name && entry.number == number {
                if entry.fail {
                    return Err(SourceError { message: "scripted lookup failure".to_owned() });
                }
                let review = match &entry.review {
                    Some(d) => Some(d.clone()),
                    None => None,
                };
                proof {
                    assert(opt_review_view(review) == opt_review_view(self.details@[i as int].review));
                }
                return Ok(review);
            }
            proof {
                assert(self.details@.skip(i as int).drop_first() =~= self.details@.skip(i + 1));
            }
            i += 1;
        }
        Ok(None)
    }
}

impl Provider for ScriptedProvider {

}

} // verus!
