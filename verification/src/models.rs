use vstd::prelude::*;

verus! {

/// One open review request as the remote listing reports it: enough to show a
/// row in a list and to look the full record up later.  Timestamps are carried
/// as seconds since the Unix epoch.
#[derive(Debug, PartialEq, Eq)]
pub struct ReviewListItem {
    pub id: String,
    pub name: String,
    pub title: String,
    pub owner: String,
    pub date: i64,
    pub number: usize,
}

impl Clone for ReviewListItem {
    fn clone(&self) -> (r: Self)
        ensures
            r == *self,
    {
        ReviewListItem {
            id: self.id.clone(),
            name: self.name.clone(),
            title: self.title.clone(),
            owner: self.owner.clone(),
            date: self.date,
            number: self.number,
        }
    }
}

/// One page of the remote listing: the items, the continuation token that
/// resumes after them, and whether more pages exist.
#[derive(Debug, PartialEq, Eq)]
pub struct ReviewList {
    pub items: Vec<ReviewListItem>,
    pub last_cursor: Option<String>,
    pub has_more: bool,
}

/// The mathematical value of a `ReviewList`.
pub struct PageModel {
    pub items: Seq<ReviewListItem>,
    pub next: Option<Seq<char>>,
    pub more: bool,
}

impl View for ReviewList {
    type V = PageModel;

    open spec fn view(&self) -> PageModel {
        PageModel { items: self.items@, next: self.last_cursor.deep_view(), more: self.has_more }
    }
}

impl Clone for ReviewList {
    fn clone(&self) -> (r: Self)
        ensures
            r@ == self@,
    {
        let items = self.items.clone();
        let last_cursor = match &self.last_cursor {
            Some(c) => Some(c.clone()),
            None => None,
        };
        proof {
            assert(items@ =~= self.items@) by {
                assert forall|i: int| 0 <= i < self.items@.len() implies items@[i]
                    == self.items@[i] by {
                    assert(cloned::<ReviewListItem>(self.items@[i], items@[i]));
                }
            }
        }
        ReviewList { items, last_cursor, has_more: self.has_more }
    }
}

/// One comment on a review: who wrote it and what it says.
#[derive(Debug, PartialEq, Eq)]
pub struct Comment {
    pub author: String,
    pub text: String,
}

impl Clone for Comment {
    fn clone(&self) -> (r: Self)
        ensures
            r == *self,
    {
        Comment { author: self.author.clone(), text: self.text.clone() }
    }
}

/// The comment thread of a review: the comments in order, and whether earlier
/// comments exist that were not fetched.
#[derive(Debug, PartialEq, Eq)]
pub struct Comments {
    pub has_previous: bool,
    pub comments: Vec<Comment>,
}

/// The mathematical value of a `Comments`.
pub struct CommentsModel {
    pub has_previous: bool,
    pub comments: Seq<Comment>,
}

impl View for Comments {
    type V = CommentsModel;

    open spec fn view(&self) -> CommentsModel {
        CommentsModel { has_previous: self.has_previous, comments: self.comments@ }
    }
}

impl Clone for Comments {
    fn clone(&self) -> (r: Self)
        ensures
            r@ == self@,
    {
        let comments = self.comments.clone();
        proof {
            assert(comments@ =~= self.comments@) by {
                assert forall|i: int| 0 <= i < self.comments@.len() implies comments@[i]
                    == self.comments@[i] by {
                    assert(cloned::<Comment>(self.comments@[i], comments@[i]));
                }
            }
        }
        Comments { has_previous: self.has_previous, comments }
    }
}

/// One entry of a review's status rollup: either a classic commit status or a
/// check run, each reported with its provider-assigned strings.
#[derive(Debug, PartialEq, Eq)]
pub enum StatusCheck {
    StatusContext { id: String, state: String, description: Option<String>, context: String },
    CheckRun { id: String, name: String, status: String, conclusion: String },
}

impl Clone for StatusCheck {
    fn clone(&self) -> (r: Self)
        ensures
            r == *self,
    {
        match self {
            StatusCheck::StatusContext { id, state, description, context } => {
                StatusCheck::StatusContext {
                    id: id.clone(),
                    state: state.clone(),
                    description: match description {
                        Some(d) => Some(d.clone()),
                        None => None,
                    },
                    context: context.clone(),
                }
            },
            StatusCheck::CheckRun { id, name, status, conclusion } => {
                StatusCheck::CheckRun {
                    id: id.clone(),
                    name: name.clone(),
                    status: status.clone(),
                    conclusion: conclusion.clone(),
                }
            },
        }
    }
}

/// The full record of one review: identity, description, labels, the comment
/// thread and the status rollup.  The publication timestamp is seconds since
/// the Unix epoch, absent while the review is still a draft.
#[derive(Debug, PartialEq, Eq)]
pub struct Review {
    pub id: String,
    pub number: usize,
    pub title: String,
    pub repository: String,
    pub description: String,
    pub author: String,
    pub publish_at: Option<i64>,
    pub labels: Vec<String>,
    pub comments: Comments,
    pub status_checks: Vec<StatusCheck>,
}

/// The mathematical value of a `Review`.
pub struct ReviewModel {
    pub id: String,
    pub number: usize,
    pub title: String,
    pub repository: String,
    pub description: String,
    pub author: String,
    pub publish_at: Option<i64>,
    pub labels: Seq<String>,
    pub comments: CommentsModel,
    pub status_checks: Seq<StatusCheck>,
}

impl View for Review {
    type V = ReviewModel;

    open spec fn view(&self) -> ReviewModel {
        ReviewModel {
            id: self.id,
            number: self.number,
            title: self.title,
            repository: self.repository,
            description: self.description,
            author: self.author,
            publish_at: self.publish_at,
            labels: self.labels@,
            comments: self.comments@,
            status_checks: self.status_checks@,
        }
    }
}

impl Clone for Review {
    fn clone(&self) -> (r: Self)
        ensures
            r@ == self@,
    {
        let labels = self.labels.clone();
        let status_checks = self.status_checks.clone();
        proof {
            assert(labels@ =~= self.labels@) by {
                assert forall|i: int| 0 <= i < self.labels@.len() implies labels@[i]
                    == self.labels@[i] by {
                    assert(cloned::<String>(self.labels@[i], labels@[i]));
                }
            }
            assert(status_checks@ =~= self.status_checks@) by {
                assert forall|i: int| 0 <= i < self.status_checks@.len() implies status_checks@[i]
                    == self.status_checks@[i] by {
                    assert(cloned::<StatusCheck>(self.status_checks@[i], status_checks@[i]));
                }
            }
        }
        Review {
            id: self.id.clone(),
            number: self.number,
            title: self.title.clone(),
            repository: self.repository.clone(),
            description: self.description.clone(),
            author: self.author.clone(),
            publish_at: self.publish_at,
            labels,
            comments: self.comments.clone(),
            status_checks,
        }
    }
}

} // verus!
