use pr_meta::dates::display_date;
use pr_meta::json::serialize;
use pr_meta::ratelimit::RateLimitSnapshot;
use pr_meta::record::{PrDetail, PullRequestRecord, ReviewEntry};
use pr_meta::resolve::{resolve, PullRequestRef};
use pr_meta::store::Store;
use pr_meta::text::canonicalize;

fn rfc2822(epoch: i64) -> String {
    chrono::DateTime::from_timestamp(epoch, 0).unwrap().to_rfc2822()
}

fn detail(login: &str, created_at: &str) -> PrDetail {
    PrDetail { login: login.to_string(), id: 7, created_at: created_at.to_string() }
}

fn review(login: &str, submitted_at: &str) -> ReviewEntry {
    ReviewEntry { login: login.to_string(), id: 9, submitted_at: submitted_at.to_string() }
}

fn fresh_record(url: &str) -> PullRequestRecord {
    let pr = resolve(url).unwrap();
    PullRequestRecord::new(canonicalize(url), pr)
}

#[test]
fn resolve_extracts_owner_repo_number() {
    let pr = resolve("https://github.com/acme/widget/pull/42").unwrap();
    assert_eq!(pr.owner, "acme");
    assert_eq!(pr.repo, "widget");
    assert_eq!(pr.number, "42");
}

#[test]
fn resolve_rejects_three_segments() {
    let err = resolve("https://github.com/acme/widget").unwrap_err();
    assert_eq!(err.url, "https://github.com/acme/widget");
    let msg = err.usage_message();
    assert_eq!(
        msg,
        "Invalid link - https://github.com/acme/widget\nLink should look like: https://github.com/{OWNER}/{REPO}/pull/{PULL_NUMBER}"
    );
}

#[test]
fn resolve_rejects_extra_segments() {
    assert!(resolve("https://github.com/acme/widget/pull/42/files").is_err());
}

#[test]
fn resolve_rejects_trailing_slash() {
    assert!(resolve("https://github.com/acme/widget/pull/42/").is_err());
}

#[test]
fn resolve_rejects_missing_scheme() {
    assert!(resolve("github.com/acme/widget/pull/42").is_err());
}

#[test]
fn resolve_rejects_hostless_url() {
    assert!(resolve("mailto:someone@example.com").is_err());
}

#[test]
fn resolve_ignores_query_and_fragment() {
    let pr = resolve("https://github.com/acme/widget/pull/42?tab=files#r1").unwrap();
    assert_eq!(pr.owner, "acme");
    assert_eq!(pr.number, "42");
}

#[test]
fn canonicalize_drops_query_and_fragment() {
    assert_eq!(
        canonicalize("https://github.com/a/b/pull/1?tab=files#r2"),
        "https://github.com/a/b/pull/1"
    );
    assert_eq!(canonicalize("https://github.com/a/b/pull/1"), "https://github.com/a/b/pull/1");
}

#[test]
fn canonicalize_is_idempotent() {
    let u = "https://github.com/a/b/pull/1?x=1#frag";
    let once = canonicalize(u);
    let twice = canonicalize(&once);
    assert_eq!(once, twice);
}

#[test]
fn api_urls_from_triple() {
    let pr = resolve("https://github.com/acme/widget/pull/42").unwrap();
    assert_eq!(
        pr.reviews_url(),
        "https://api.github.com/repos/acme/widget/pulls/42/reviews"
    );
    assert_eq!(pr.detail_url(), "https://api.github.com/repos/acme/widget/pulls/42");
}

#[test]
fn store_deduplicates_by_canonical_url() {
    let mut store = Store::new();
    store.insert(fresh_record("https://github.com/acme/widget/pull/42"));
    store.insert(fresh_record("https://github.com/acme/widget/pull/42?tab=files"));
    assert_eq!(store.len(), 1);
    assert_eq!(store.index(0).canonical_url, "https://github.com/acme/widget/pull/42");
}

#[test]
fn store_keeps_insertion_order() {
    let mut store = Store::new();
    store.insert(fresh_record("https://github.com/acme/widget/pull/1"));
    store.insert(fresh_record("https://github.com/acme/widget/pull/2"));
    store.insert(fresh_record("https://github.com/acme/widget/pull/1?x"));
    assert_eq!(store.len(), 2);
    assert_eq!(store.index(0).canonical_url, "https://github.com/acme/widget/pull/1");
    assert_eq!(store.index(1).canonical_url, "https://github.com/acme/widget/pull/2");
}

#[test]
fn merge_without_reviews_leaves_first_review_absent() {
    let rec = fresh_record("https://github.com/acme/widget/pull/42");
    let merged = rec.merged(&vec![], &detail("alice", "2023-01-01T09:00:00Z"));
    assert!(merged.first_review_date.is_none());
    assert_eq!(merged.author.as_deref(), Some("alice"));
    assert_eq!(merged.open_date.as_deref(), Some("2023-01-01T09:00:00Z"));
}

#[test]
fn empty_reviews_serialize_with_empty_first_review() {
    let rec = fresh_record("https://github.com/acme/widget/pull/42");
    let merged = rec.merged(&vec![], &detail("alice", "2023-01-01T09:00:00Z"));
    let mut store = Store::new();
    store.insert(merged);
    let out = serialize(&store).unwrap();
    let v: serde_json::Value = serde_json::from_str(&out).unwrap();
    assert_eq!(v[0]["first_review_date"].as_str().unwrap(), "");
}

#[test]
fn scenario_single_pull_request() {
    let rec = fresh_record("https://github.com/acme/widget/pull/42");
    let reviews = vec![review("bob", "2023-01-02T10:00:00Z")];
    let merged = rec.merged(&reviews, &detail("alice", "2023-01-01T09:00:00Z"));
    let mut store = Store::new();
    store.insert(merged);
    let out = serialize(&store).unwrap();
    let v: serde_json::Value = serde_json::from_str(&out).unwrap();
    let arr = v.as_array().unwrap();
    assert_eq!(arr.len(), 1);
    let obj = &arr[0];
    assert_eq!(obj["author"].as_str().unwrap(), "alice");
    assert_eq!(obj["pr_url"].as_str().unwrap(), "https://github.com/acme/widget/pull/42");
    assert_eq!(obj["pr_open_date"].as_str().unwrap(), "Sun, 1 Jan 2023 09:00:00 +0000");
    assert_eq!(obj["first_review_date"].as_str().unwrap(), "Mon, 2 Jan 2023 10:00:00 +0000");
    assert_eq!(obj["pr_open_date"].as_str().unwrap(), rfc2822(1672563600));
    assert_eq!(obj["first_review_date"].as_str().unwrap(), rfc2822(1672653600));
}

#[test]
fn serializer_round_trip_preserves_fields() {
    let pr = PullRequestRef {
        owner: "o".to_string(),
        repo: "r".to_string(),
        number: "1".to_string(),
    };
    let awkward = "quote \" backslash \\ newline \n tab \t control \u{1} end";
    let rec = PullRequestRecord {
        canonical_url: "https://github.com/o/r/pull/1".to_string(),
        reviews_url: pr.reviews_url(),
        pr_ref: pr,
        open_date: Some("2023-01-01T09:00:00Z".to_string()),
        first_review_date: Some("2023-01-02T10:00:00Z".to_string()),
        author: Some(awkward.to_string()),
    };
    let mut store = Store::new();
    store.insert(rec);
    let out = serialize(&store).unwrap();
    let v: serde_json::Value = serde_json::from_str(&out).unwrap();
    let obj = &v.as_array().unwrap()[0];
    assert_eq!(obj["author"].as_str().unwrap(), awkward);
    assert_eq!(obj["pr_url"].as_str().unwrap(), "https://github.com/o/r/pull/1");
    assert_eq!(obj["pr_open_date"].as_str().unwrap(), rfc2822(1672563600));
    assert_eq!(obj["first_review_date"].as_str().unwrap(), rfc2822(1672653600));
}

#[test]
fn serialize_of_empty_store_is_empty_array() {
    let store = Store::new();
    assert_eq!(serialize(&store).unwrap(), "[]");
}

#[test]
fn serialize_fails_on_malformed_timestamp() {
    let rec = fresh_record("https://github.com/acme/widget/pull/42");
    let merged = rec.merged(&vec![], &detail("alice", "not a timestamp"));
    let mut store = Store::new();
    store.insert(merged);
    assert!(serialize(&store).is_none());
}

#[test]
fn display_date_reformats_to_rfc2822() {
    assert_eq!(
        display_date("2023-01-01T09:00:00Z").as_deref(),
        Some("Sun, 1 Jan 2023 09:00:00 +0000")
    );
    assert!(display_date("garbage").is_none());
}

#[test]
fn record_display_line() {
    let rec = fresh_record("https://github.com/acme/widget/pull/42");
    let with_review = rec.merged(
        &vec![review("bob", "2023-01-02T10:00:00Z")],
        &detail("alice", "2023-01-01T09:00:00Z"),
    );
    assert_eq!(
        with_review.display_line(),
        "PR opened on: 2023-01-01T09:00:00Z\nFirst review received on: 2023-01-02T10:00:00Z"
    );
    let without = rec.merged(&vec![], &detail("alice", "2023-01-01T09:00:00Z"));
    assert_eq!(
        without.display_line(),
        "PR opened on: 2023-01-01T09:00:00Z\nFirst review received on: None"
    );
}

#[test]
fn three_records_serialize_in_insertion_order() {
    let mut store = Store::new();
    for n in ["3", "1", "2"] {
        let url = format!("https://github.com/acme/widget/pull/{}", n);
        let rec = fresh_record(&url);
        let reviews = if n == "2" {
            vec![review("bob", "2023-01-02T10:00:00Z")]
        } else {
            vec![]
        };
        store.insert(rec.merged(&reviews, &detail("alice", "2023-01-01T09:00:00Z")));
    }
    let out = serialize(&store).unwrap();
    let v: serde_json::Value = serde_json::from_str(&out).unwrap();
    let arr = v.as_array().unwrap();
    assert_eq!(arr.len(), 3);
    assert_eq!(arr[0]["pr_url"].as_str().unwrap(), "https://github.com/acme/widget/pull/3");
    assert_eq!(arr[1]["pr_url"].as_str().unwrap(), "https://github.com/acme/widget/pull/1");
    assert_eq!(arr[2]["pr_url"].as_str().unwrap(), "https://github.com/acme/widget/pull/2");
    assert_eq!(arr[0]["first_review_date"].as_str().unwrap(), "");
    assert_eq!(arr[2]["first_review_date"].as_str().unwrap(), rfc2822(1672653600));
    for obj in arr {
        assert_eq!(obj["author"].as_str().unwrap(), "alice");
        assert_eq!(obj["pr_open_date"].as_str().unwrap(), rfc2822(1672563600));
    }
}

#[test]
fn rate_limit_reset_display() {
    let snap = RateLimitSnapshot { remaining: 10, reset: 1672563600 };
    assert_eq!(snap.reset_display().as_deref(), Some("Sun, 1 Jan 2023 09:00:00 +0000"));
    let out_of_range = RateLimitSnapshot { remaining: 0, reset: i64::MAX };
    assert!(out_of_range.reset_display().is_none());
}
