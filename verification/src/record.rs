//! Pull-request records and the merge of fetched API results into them.

use vstd::prelude::*;
use vstd::string::*;
use crate::resolve::{spec_reviews_url, PullRequestRef};

verus! {

/// The console rendering of a fetched record: its raw open date and its
/// raw first-review date, or `None` when no review was recorded.
pub open spec fn spec_display_line(r: PullRequestRecord) -> Seq<char> {
    "PR opened on: "@ + r.open_date.unwrap()@ + "\nFirst review received on: "@ + (
    match r.first_review_date {
        Option::Some(d) => d@,
        Option::None => "None"@,
    })
}

/// One review entry from the reviews-list endpoint: the submitter and
/// the submission timestamp, as the API returned them.
#[derive(Debug)]
pub struct ReviewEntry {
    pub login: String,
    pub id: u32,
    pub submitted_at: String,
}

/// The pull-request detail endpoint's result: the author and the
/// creation timestamp, as the API returned them.
#[derive(Debug)]
pub struct PrDetail {
    pub login: String,
    pub id: u32,
    pub created_at: String,
}

/// A record for one pull request, keyed by its canonical URL.
///
/// `open_date` and `author` are set together, by the merge after the
/// detail call; `first_review_date` is set only from a non-empty reviews
/// list. All dates are raw API timestamps; formatting happens at
/// serialization.
#[derive(Debug)]
pub struct PullRequestRecord {
    pub canonical_url: String,
    pub pr_ref: PullRequestRef,
    pub reviews_url: String,
    pub open_date: Option<String>,
    pub first_review_date: Option<String>,
    pub author: Option<String>,
}

impl PullRequestRef {
    /// A copy of this triple.
    pub fn duplicate(&self) -> (r: Self)
        ensures
            r == *self,
    {
        PullRequestRef {
            owner: self.owner.clone(),
            repo: self.repo.clone(),
            number: self.number.clone(),
        }
    }
}

impl PullRequestRecord {
    /// The record's invariant: the open date and the author are only
    /// ever set together.
    pub open spec fn wf(self) -> bool {
        self.open_date is Some <==> self.author is Some
    }

    /// Whether the record has been through the fetch pass.
    pub open spec fn fetched(self) -> bool {
        self.open_date is Some && self.author is Some
    }

    /// A fresh record for a resolved pull request: nothing fetched yet,
    /// and the reviews endpoint precomputed from the triple.
    pub fn new(canonical_url: String, pr_ref: PullRequestRef) -> (r: Self)
        ensures
            r.canonical_url == canonical_url,
            r.pr_ref == pr_ref,
            r.reviews_url@ == spec_reviews_url(pr_ref.owner@, pr_ref.repo@, pr_ref.number@),
            r.open_date is None,
            r.first_review_date is None,
            r.author is None,
            r.wf(),
    {
        let reviews_url = pr_ref.reviews_url();
        PullRequestRecord {
            canonical_url,
            pr_ref,
            reviews_url,
            open_date: None,
            first_review_date: None,
            author: None,
        }
    }

    /// The record after merging one fetch pass: the first review's
    /// timestamp when the reviews list is non-empty, and the author and
    /// creation date from the detail result. Everything else is kept.
    ///
    /// The first entry is taken as it stands: the list is assumed to
    /// arrive in submission order, and an entry submitted by the PR's
    /// own author is not filtered out.
    pub fn merged(&self, reviews: &Vec<ReviewEntry>, detail: &PrDetail) -> (r: Self)
        ensures
            r.canonical_url == self.canonical_url,
            r.pr_ref == self.pr_ref,
            r.reviews_url == self.reviews_url,
            reviews@.len() == 0 ==> r.first_review_date == self.first_review_date,
            reviews@.len() > 0 ==> r.first_review_date == Some(reviews@[0].submitted_at),
            r.open_date == Some(detail.created_at),
            r.author == Some(detail.login),
            r.fetched(),
    {
        let first_review_date: Option<String> = if reviews.len() > 0 {
            Some(reviews[0].submitted_at.clone())
        } else {
            match &self.first_review_date {
                Some(d) => Some(d.clone()),
                None => None,
            }
        };
        PullRequestRecord {
            canonical_url: self.canonical_url.clone(),
            pr_ref: self.pr_ref.duplicate(),
            reviews_url: self.reviews_url.clone(),
            open_date: Some(detail.created_at.clone()),
            first_review_date,
            author: Some(detail.login.clone()),
        }
    }

    /// Renders the record for the console, from the raw API timestamps.
    pub fn display_line(&self) -> (m: String)
        requires
            self.fetched(),
        ensures
            m@ == spec_display_line(*self),
    {
        let mut m = String::from_str("PR opened on: ");
        m.append(self.open_date.as_ref().unwrap().as_str());
        m.append("\nFirst review received on: ");
        match &self.first_review_date {
            Some(d) => m.append(d.as_str()),
            None => m.append("None"),
        }
        m
    }
}

} // verus!
