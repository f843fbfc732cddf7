use vstd::prelude::*;

verus! {

/// The parts, joined by `sep`: empty for no parts, and each part after the
/// first preceded by one separator.
pub open spec fn joined(parts: Seq<Seq<char>>, sep: Seq<char>) -> Seq<char>
    decreases parts.len(),
{
    if parts.len() == 0 {
        Seq::empty()
    } else if parts.len() == 1 {
        parts[0]
    } else {
        joined(parts.drop_last(), sep) + sep + parts.last()
    }
}

/// Who the listing asks reviews for: a team when the requested name holds a
/// slash, a single user otherwise, and the caller themselves when nobody is
/// named.
pub open spec fn review_requested_part(requested: Option<Seq<char>>) -> Seq<char> {
    match requested {
        None => "review-requested:@me"@,
        Some(r) => if r.contains('/') {
            "team-review-requested:"@ + r
        } else {
            "review-requested:"@ + r
        },
    }
}

/// The organisation filter, empty when no organisation is named.
pub open spec fn org_part(org: Option<Seq<char>>) -> Seq<char> {
    match org {
        None => Seq::empty(),
        Some(o) => "org:"@ + o,
    }
}

/// The label filter, empty when no labels are named.
pub open spec fn label_part(tags: Option<Seq<Seq<char>>>) -> Seq<char> {
    match tags {
        None => Seq::empty(),
        Some(ts) => "label:"@ + joined(ts, ","@),
    }
}

/// The whole search query of one listing call: open review requests, narrowed
/// by requested user or team, organisation and labels.
pub open spec fn review_query(
    requested: Option<Seq<char>>,
    org: Option<Seq<char>>,
    tags: Option<Seq<Seq<char>>>,
) -> Seq<char> {
    "is:pr "@ + review_requested_part(requested) + " state:open "@ + org_part(org) + " "@
        + label_part(tags)
}

/// Whether the string holds a slash anywhere.
fn contains_slash(s: &str) -> (r: bool)
    ensures
        r == s@.contains('/'),
{
    let n = s.unicode_len();
    let mut i: usize = 0;
    while i < n
        invariant
            i <= n,
            n == s@.len(),
            forall|j: int| 0 <= j < i ==> s@[j] != '/',
        decreases n - i,
    {
        if s.get_char(i) == '/' {
            proof {
                assert(s@.contains('/'));
            }
            return true;
        }
        i += 1;
    }
    proof {
        assert(!s@.contains('/')) by {
            if s@.contains('/') {
                let w = choose|j: int| 0 <= j < s@.len() && s@[j] == '/';
                assert(s@[w] != '/');
            }
        }
    }
    false
}

/// The labels joined by commas.
fn join_tags(tags: &Vec<String>) -> (r: String)
    ensures
        r@ == joined(tags.deep_view(), ","@),
{
    let ghost parts = tags.deep_view();
    let mut out = String::new();
    let n = tags.len();
    let mut i: usize = 0;
    proof {
        assert(parts.len() == tags@.len());
        assert(out@ =~= joined(parts.take(0), ","@));
    }
    while i < n
        invariant
            i <= n,
            n == tags@.len(),
            parts == tags.deep_view(),
            parts.len() == n,
            out@ == joined(parts.take(i as int), ","@),
        decreases n - i,
    {
        if i > 0 {
            out.append(",");
        }
        out.append(tags[i].as_str());
        proof {
            assert(tags@[i as int]@ == parts[i as int]);
            let pre = parts.take(i as int);
            let now = parts.take(i + 1);
            assert(now.drop_last() =~= pre);
            assert(now.last() == parts[i as int]);
            if i == 0 {
                assert(now.len() == 1);
                assert(out@ =~= joined(now, ","@));
            } else {
                assert(joined(now, ","@) == joined(pre, ","@) + ","@ + parts[i as int]);
                assert(out@ =~= joined(now, ","@));
            }
        }
        i += 1;
    }
    proof {
        assert(parts.take(n as int) =~= parts);
    }
    out
}

/// Build the search query text that one listing call sends, exactly as
/// `review_query` lays it out.
pub fn build_review_query(
    requested: Option<&str>,
    org: Option<&str>,
    tags: Option<Vec<String>>,
) -> (r: String)
    ensures
        r@ == review_query(requested.deep_view(), org.deep_view(), tags.deep_view()),
{
    let mut out = String::new();
    out.append("is:pr ");
    match requested {
        Some(r) => {
            if contains_slash(r) {
                out.append("team-review-requested:");
                out.append(r);
            } else {
                out.append("review-requested:");
                out.append(r);
            }
        },
        None => {
            out.append("review-requested:@me");
        },
    }
    out.append(" state:open ");
    match org {
        Some(o) => {
            out.append("org:");
            out.append(o);
        },
        None => {
        },
    }
    out.append(" ");
    match &tags {
        Some(ts) => {
            out.append("label:");
            let joined_tags = join_tags(ts);
            out.append(joined_tags.as_str());
        },
        None => {
        },
    }
    proof {
        assert(out@ =~= review_query(requested.deep_view(), org.deep_view(), tags.deep_view()));
    }
    out
}

} // verus!
