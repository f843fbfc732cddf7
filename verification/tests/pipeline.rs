use std::collections::HashSet;

use rev::git_pull_requests::{GitPullRequest, GitPullRequests};
use rev::models::{Comments, Review, ReviewList, ReviewListItem};
use rev::scripted::{ScriptedDetail, ScriptedPage, ScriptedProvider};
use rev::traits::{GitReview, GitUserReview};

fn item(id: &str, number: usize) -> ReviewListItem {
    ReviewListItem {
        id: id.to_string(),
        name: "repo".to_string(),
        title: format!("title {id}"),
        owner: "owner".to_string(),
        date: 1_700_000_000,
        number,
    }
}

fn page(key: Option<&str>, ids: &[&str], next: Option<&str>, has_more: bool) -> ScriptedPage {
    let items = ids
        .iter()
        .enumerate()
        .map(|(k, id)| item(id, k + 1))
        .collect();
    ScriptedPage {
        key: key.map(|k| k.to_string()),
        fail: false,
        list: ReviewList {
            items,
            last_cursor: next.map(|c| c.to_string()),
            has_more,
        },
    }
}

fn detail(id: &str, number: usize) -> Review {
    Review {
        id: id.to_string(),
        number,
        title: format!("title {id}"),
        repository: "repo".to_string(),
        description: "a change".to_string(),
        author: "author".to_string(),
        publish_at: Some(1_700_000_100),
        labels: vec!["dependencies".to_string()],
        comments: Comments { has_previous: false, comments: vec![] },
        status_checks: vec![],
    }
}

fn detail_entry(id: &str, number: usize, present: bool) -> ScriptedDetail {
    ScriptedDetail {
        owner: "owner".to_string(),
        name: "repo".to_string(),
        number,
        fail: false,
        review: if present { Some(detail(id, number)) } else { None },
    }
}

#[test]
fn order_preservation_across_pages() {
    let provider = ScriptedProvider::new(
        vec![
            page(None, &["A", "B"], Some("c1"), true),
            page(Some("c1"), &["C"], Some("c2"), true),
            page(Some("c2"), &[], None, false),
        ],
        vec![],
    );
    let prs = GitPullRequests::new(provider);
    let (tx, mut rx) = tokio::sync::mpsc::channel::<ReviewListItem>(20);
    let (res, _) = prs.run_inner(tx, "owner", None);
    let stats = res.expect("the scripted run succeeds");
    assert_eq!(stats.pages, 3);
    assert_eq!(stats.seen, 3);
    assert!(stats.exhausted);
    assert!(!stats.closed);
    let mut ids = Vec::new();
    while let Some(it) = rx.blocking_recv() {
        ids.push(it.id);
    }
    assert_eq!(ids, vec!["A".to_string(), "B".to_string(), "C".to_string()]);
}

#[test]
fn hard_cap_stops_fetching() {
    // An effectively endless source: every page holds ten items and reports
    // more.  With a cap of 25 the run must stop once the page that crosses the
    // cap has been folded in: at least 25 and fewer than 35 items come out.
    let ids: Vec<String> = (0..50).map(|k| format!("r{k}")).collect();
    let mut pages = Vec::new();
    for p in 0..5 {
        let slice: Vec<&str> = ids[p * 10..(p + 1) * 10].iter().map(|s| s.as_str()).collect();
        let key = if p == 0 { None } else { Some(format!("c{p}")) };
        let next = format!("c{}", p + 1);
        pages.push(ScriptedPage {
            key,
            fail: false,
            list: ReviewList {
                items: slice.iter().enumerate().map(|(k, id)| item(id, k + 1)).collect(),
                last_cursor: Some(next),
                has_more: true,
            },
        });
    }
    let provider = ScriptedProvider::new(pages, vec![]);
    let prs = GitPullRequests::with_limits(provider, 15, 25, 101);
    let (tx, mut rx) = tokio::sync::mpsc::channel::<ReviewListItem>(64);
    let (res, _) = prs.run_inner(tx, "owner", None);
    let stats = res.expect("the scripted run succeeds");
    assert_eq!(stats.pages, 3);
    assert_eq!(stats.seen, 30);
    assert!(!stats.exhausted);
    assert!(!stats.closed);
    let mut count = 0;
    while rx.blocking_recv().is_some() {
        count += 1;
    }
    assert!(count >= 25 && count < 35);
    assert_eq!(count, 30);
}

#[test]
fn backpressure_bounds_fetching() {
    // A consumer that never receives: with a small channel the producer must
    // suspend instead of fetching page after page.
    let ids: Vec<String> = (0..18).map(|k| format!("r{k}")).collect();
    let mut pages = Vec::new();
    for p in 0..6 {
        let slice: Vec<&str> = ids[p * 3..(p + 1) * 3].iter().map(|s| s.as_str()).collect();
        let key = if p == 0 { None } else { Some(format!("c{p}")) };
        pages.push(ScriptedPage {
            key,
            fail: false,
            list: ReviewList {
                items: slice.iter().enumerate().map(|(k, id)| item(id, k + 1)).collect(),
                last_cursor: Some(format!("c{}", p + 1)),
                has_more: true,
            },
        });
    }
    let provider = ScriptedProvider::new(pages, vec![]);
    let prs = GitPullRequests::with_limits(provider, 2, 100, 101);
    let (tx, rx) = tokio::sync::mpsc::channel::<ReviewListItem>(5);
    let rt = tokio::runtime::Builder::new_multi_thread()
        .worker_threads(2)
        .enable_time()
        .build()
        .expect("a runtime");
    let pump = rt.spawn_blocking(move || prs.run_inner(tx, "owner", None));
    let stats = rt.block_on(async move {
        tokio::time::sleep(std::time::Duration::from_millis(300)).await;
        // The producer is suspended on a full channel; closing the receiving
        // end wakes it and ends the run.
        drop(rx);
        pump.await.expect("the pump thread finishes").0.expect("the run reports stats")
    });
    assert!(stats.closed);
    // Far fewer pages than the script offers: the pump blocked instead of
    // hoarding; channel (5) plus backlog (at most low-water 2 + one page 3)
    // admits at most three fetches before the producer suspends.
    assert!(stats.pages <= 3, "fetched {} pages", stats.pages);
}

#[test]
fn cancellation_stops_the_producer() {
    let ids: Vec<String> = (0..40).map(|k| format!("r{k}")).collect();
    let mut pages = Vec::new();
    for p in 0..4 {
        let slice: Vec<&str> = ids[p * 10..(p + 1) * 10].iter().map(|s| s.as_str()).collect();
        let key = if p == 0 { None } else { Some(format!("c{p}")) };
        pages.push(ScriptedPage {
            key,
            fail: false,
            list: ReviewList {
                items: slice.iter().enumerate().map(|(k, id)| item(id, k + 1)).collect(),
                last_cursor: Some(format!("c{}", p + 1)),
                has_more: true,
            },
        });
    }
    let provider = ScriptedProvider::new(pages, vec![]);
    let prs = GitPullRequests::with_limits(provider, 5, 100, 101);
    let (tx, mut rx) = tokio::sync::mpsc::channel::<ReviewListItem>(4);
    let rt = tokio::runtime::Builder::new_multi_thread()
        .worker_threads(2)
        .enable_time()
        .build()
        .expect("a runtime");
    let pump = rt.spawn_blocking(move || prs.run_inner(tx, "owner", None));
    let stats = rt.block_on(async move {
        let first = rx.recv().await.expect("a first item");
        let second = rx.recv().await.expect("a second item");
        assert_eq!(first.id, "r0");
        assert_eq!(second.id, "r1");
        drop(rx);
        pump.await.expect("the pump thread finishes").0.expect("the run reports stats")
    });
    assert!(stats.closed);
    // Ten items per page and two observed: one page served them, and at most
    // one further fetch can have happened before the close was seen.
    assert!(stats.pages <= 2, "fetched {} pages", stats.pages);
}

#[test]
fn enrichment_delivers_all_present_details() {
    // Details resolve out of any particular latency order at the source; the
    // stage must deliver every review that still exists — set equality, with
    // no promise about order.
    let provider = ScriptedProvider::new(
        vec![
            page(None, &["X", "Y", "Z"], Some("c1"), true),
            page(Some("c1"), &[], None, false),
        ],
        vec![
            detail_entry("X", 1, true),
            detail_entry("Y", 2, false),
            detail_entry("Z", 3, true),
        ],
    );
    let prs = GitPullRequests::new(ScriptedProvider::new(vec![], vec![]));
    let pump = GitPullRequest::new(provider, prs);
    let (tx, mut rx) = tokio::sync::mpsc::channel::<Review>(20);
    let (res, _) = pump.run_inner(tx, "owner", None);
    let stats = res.expect("the scripted run succeeds");
    assert!(stats.exhausted);
    assert_eq!(stats.seen, 3);
    let mut got = HashSet::new();
    while let Some(r) = rx.blocking_recv() {
        got.insert(r.id.clone());
    }
    let want: HashSet<String> = ["X", "Z"].iter().map(|s| s.to_string()).collect();
    assert_eq!(got, want);
}

#[test]
fn enrichment_failure_aborts_the_run() {
    let mut failing = detail_entry("Y", 2, true);
    failing.fail = true;
    let provider = ScriptedProvider::new(
        vec![page(None, &["X", "Y"], None, true)],
        vec![detail_entry("X", 1, true), failing],
    );
    let prs = GitPullRequests::new(ScriptedProvider::new(vec![], vec![]));
    let pump = GitPullRequest::new(provider, prs);
    let (tx, _rx) = tokio::sync::mpsc::channel::<Review>(20);
    let (res, _) = pump.run_inner(tx, "owner", None);
    assert!(res.is_err());
}

#[test]
fn listing_failure_aborts_the_run() {
    let mut bad = page(None, &["A"], None, true);
    bad.fail = true;
    let provider = ScriptedProvider::new(vec![bad], vec![]);
    let prs = GitPullRequests::new(provider);
    let (tx, _rx) = tokio::sync::mpsc::channel::<ReviewListItem>(20);
    let (res, _) = prs.run_inner(tx, "owner", None);
    let err = res.expect_err("the scripted failure surfaces");
    assert_eq!(err.message, "scripted listing failure");
}

#[test]
fn unknown_cursor_is_an_error() {
    let provider = ScriptedProvider::new(vec![page(None, &["A"], Some("gone"), true)], vec![]);
    let r = provider.get_user_reviews_cursor(None, None, None, Some("elsewhere".to_string()));
    let err = r.expect_err("an unscripted cursor fails");
    assert_eq!(err.message, "cursor beyond the script");
}

#[test]
fn first_page_listing() {
    let provider = ScriptedProvider::new(vec![page(None, &["A", "B"], None, false)], vec![]);
    let list = provider
        .get_user_reviews(Some("someone"), None, None)
        .expect("the first page exists");
    assert_eq!(list.items.len(), 2);
    assert_eq!(list.items[0].id, "A");
    assert!(!list.has_more);
}

#[test]
fn absent_review_reads_as_none() {
    let provider = ScriptedProvider::new(vec![], vec![detail_entry("X", 1, true)]);
    let missing = provider
        .get_review("owner".to_string(), "repo".to_string(), 9)
        .expect("a lookup off the script is an absence");
    assert!(missing.is_none());
    let present = provider
        .get_review("owner".to_string(), "repo".to_string(), 1)
        .expect("the scripted lookup succeeds");
    assert_eq!(present.expect("the review exists").id, "X");
}

#[test]
fn first_page_failure_surfaces() {
    let mut bad = page(None, &["A"], None, true);
    bad.fail = true;
    let provider = ScriptedProvider::new(vec![bad], vec![]);
    let r = provider.get_user_reviews(None, None, None);
    assert!(r.is_err());
}

#[test]
fn screen_fetch_policy() {
    assert!(rev::action::wants_more_reviews(29));
    assert!(!rev::action::wants_more_reviews(30));
    assert!(!rev::action::drain_batch_full(3));
    assert!(rev::action::drain_batch_full(4));
}
