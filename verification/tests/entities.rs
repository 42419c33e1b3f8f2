//! The entity model: timestamps, commit text, repository maps, the rate
//! counter, and the readers that turn response bodies into entities.

use gierm::git::{User, GitUser, Repo, Commit, CommitInfo, File, get_clone_url};
use gierm::api::{
    Data, gituser_from_data, gituser_from_response, repos_from_data, repo_from_data,
    commits_from_data, commit_info_from_data, apply_rate, install_gituser, user_url, rate_url,
    repos_url, repo_commits_url, commit_info_url,
};
use gierm::listtui::GiermError;
use gierm::text::{u64_to_string, i64_to_string, trim_str};

fn obj(entries: Vec<(&str, Data)>) -> Data {
    Data::Obj(entries.into_iter().map(|(k, v)| (k.to_string(), v)).collect())
}

fn s(t: &str) -> Data {
    Data::Str(t.to_string())
}

fn repo(name: &str, updated: &str) -> Repo {
    Repo::new(
        "owner".to_string(),
        name.to_string(),
        "".to_string(),
        "Rust".to_string(),
        "2020-01-01T00:00:00Z".to_string(),
        updated.to_string(),
    )
}

#[test]
fn rfc3339_timestamps_become_epochs() {
    let r = repo("a", "2024-01-01T00:00:00Z");
    assert_eq!(r.updated_at, 1704067200);
    assert_eq!(r.created_at, 1577836800);
}

#[test]
fn unparsable_timestamps_fall_back_to_the_epoch() {
    let r = repo("a", "not-a-date");
    assert_eq!(r.updated_at, 0);
}

#[test]
fn commit_date_is_displayed_in_utc() {
    let c = Commit::new(
        "hello".to_string(),
        "0123456789abcdef".to_string(),
        "alice".to_string(),
        "1970-01-01T00:00:00Z".to_string(),
    );
    assert_eq!(c.to_string(), "1970-01-01 00:00:00 UTC hello");
}

#[test]
fn commit_subject_stops_at_the_escaped_blank_line() {
    let c = Commit::new(
        "subject\\n\\nbody text".to_string(),
        "0123456789abcdef".to_string(),
        "alice".to_string(),
        "bad".to_string(),
    );
    assert_eq!(c.message_short(), "subject");
    assert_eq!(c.description(), "body text");
    let plain = Commit::new(
        "only subject".to_string(),
        "abc".to_string(),
        "alice".to_string(),
        "bad".to_string(),
    );
    assert_eq!(plain.message_short(), "only subject");
    assert_eq!(plain.description(), "");
}

#[test]
fn sha_is_abbreviated_to_eight_characters() {
    let c = Commit::new(
        "m".to_string(),
        "0123456789abcdef".to_string(),
        "a".to_string(),
        "bad".to_string(),
    );
    assert_eq!(c.sha_short(), "01234567");
    let short = Commit::new("m".to_string(), "012".to_string(), "a".to_string(), "bad".to_string());
    assert_eq!(short.sha_short(), "012");
}

#[test]
fn clone_urls_for_both_transports() {
    assert_eq!(
        get_clone_url(&"alice".to_string(), &"proj".to_string(), true),
        "git@github.com:alice/proj.git"
    );
    assert_eq!(
        get_clone_url(&"alice".to_string(), &"proj".to_string(), false),
        "https://github.com/alice/proj.git"
    );
}

#[test]
fn repository_map_inserts_by_name() {
    let mut gu = GitUser::new("a".to_string(), "".to_string(), "".to_string(), "".to_string());
    gu.insert_repo(repo("one", "2024-01-01T00:00:00Z"));
    gu.insert_repo(repo("two", "2024-01-02T00:00:00Z"));
    gu.insert_repo(repo("one", "2024-06-01T00:00:00Z"));
    assert_eq!(gu.repos.len(), 2);
    let got = gu.get_repo("one").expect("present");
    assert_eq!(got.updated_at, 1717200000);
    assert!(gu.get_repo("absent").is_none());
}

#[test]
fn repo_names_sort_newest_first() {
    let mut gu = GitUser::new("a".to_string(), "".to_string(), "".to_string(), "".to_string());
    gu.insert_repo(repo("old", "2020-05-01T00:00:00Z"));
    gu.insert_repo(repo("newest", "2024-05-01T00:00:00Z"));
    gu.insert_repo(repo("middle", "2022-05-01T00:00:00Z"));
    let names = gu.sorted_repo_names();
    assert_eq!(names, vec!["newest".to_string(), "middle".to_string(), "old".to_string()]);
}

#[test]
fn rate_counter_notes_requests_and_takes_overwrites() {
    let mut u = User::new("a".to_string(), "t".to_string());
    assert_eq!(u.rate(), 60);
    assert!(u.fetch());
    assert_eq!(u.rate(), 59);
    u.set_ratelimit(1);
    assert!(u.fetch());
    assert!(!u.fetch());
    assert_eq!(u.rate(), 0);
    assert_eq!(u.get_token(), "t");
}

#[test]
fn decimal_rendering() {
    assert_eq!(u64_to_string(0), "0");
    assert_eq!(u64_to_string(1234567890), "1234567890");
    assert_eq!(i64_to_string(-5), "-5");
    assert_eq!(i64_to_string(i64::MIN), "-9223372036854775808");
    assert_eq!(u64_to_string(u64::MAX), "18446744073709551615");
}

#[test]
fn scalar_texts_mirror_the_json_client() {
    assert_eq!(Data::Null.text(), "null");
    assert_eq!(Data::Bool(true).text(), "true");
    assert_eq!(Data::Int(-7).text(), "-7");
    assert_eq!(s("say \"hi\"").text(), "say hi");
    assert_eq!(Data::Arr(vec![]).text(), "");
}

#[test]
fn profile_reader_takes_the_login_fields() {
    let v = obj(vec![
        ("login", s("alice")),
        ("name", s("Alice A")),
        ("email", Data::Null),
        ("bio", s("hi")),
    ]);
    let gu = gituser_from_data(&v);
    assert_eq!(gu.username, "alice");
    assert_eq!(gu.name, "Alice A");
    assert_eq!(gu.email, "null");
    assert_eq!(gu.bio, "hi");
    assert!(gu.repos.is_empty());
}

#[test]
fn a_404_lookup_is_no_account() {
    let v = obj(vec![("message", s("Not Found"))]);
    assert!(gituser_from_response(&v, 404).is_none());
    assert!(gituser_from_response(&v, 200).is_some());
}

#[test]
fn repo_listing_reader_keys_by_name_later_wins() {
    let item = |name: &str, lang: &str| {
        obj(vec![
            ("owner", obj(vec![("login", s("alice"))])),
            ("name", s(name)),
            ("description", s("d")),
            ("language", s(lang)),
            ("created_at", s("2020-01-01T00:00:00Z")),
            ("updated_at", s("2021-01-01T00:00:00Z")),
        ])
    };
    let v = Data::Arr(vec![item("a", "Rust"), item("b", "C"), item("a", "Go")]);
    let repos = repos_from_data(&v);
    assert_eq!(repos.len(), 2);
    let a = repos.iter().find(|r| r.name == "a").expect("a");
    assert_eq!(a.language, "Go");
    assert_eq!(a.user, "alice");
    let single = repo_from_data(&item("x", "Zig"));
    assert_eq!(single.name, "x");
    assert_eq!(single.language, "Zig");
    assert!(repos_from_data(&Data::Null).is_empty());
}

#[test]
fn commit_listing_reader_keeps_the_order_received() {
    let item = |sha: &str, msg: &str| {
        obj(vec![
            ("sha", s(sha)),
            ("committer", obj(vec![("login", s("alice"))])),
            (
                "commit",
                obj(vec![
                    ("message", s(msg)),
                    ("author", obj(vec![("date", s("2024-01-01T00:00:00Z"))])),
                ]),
            ),
        ])
    };
    let v = Data::Arr(vec![item("s1", "m1"), item("s2", "m2")]);
    let commits = commits_from_data(&v);
    assert_eq!(commits.len(), 2);
    assert_eq!(commits[0].sha, "s1");
    assert_eq!(commits[1].message, "m2");
    assert_eq!(commits[0].committer, "alice");
    assert_eq!(commits[0].date, 1704067200);
    assert!(commits[0].info.is_none());
}

#[test]
fn commit_detail_reader_takes_stats_and_files() {
    let v = obj(vec![
        (
            "stats",
            obj(vec![
                ("total", Data::Int(10)),
                ("additions", Data::Int(7)),
                ("deletions", Data::Int(3)),
            ]),
        ),
        (
            "files",
            Data::Arr(vec![obj(vec![
                ("filename", s("src/lib.rs")),
                ("sha", s("f1")),
                ("additions", Data::Int(7)),
                ("deletions", Data::Int(3)),
                ("patch", s("@@ -1 +1 @@")),
            ])]),
        ),
    ]);
    let info = commit_info_from_data(&v);
    assert_eq!(info.total_changes, 10);
    assert_eq!(info.additions, 7);
    assert_eq!(info.deletions, 3);
    assert_eq!(info.files.len(), 1);
    assert_eq!(info.files[0].name, "src/lib.rs");
    assert_eq!(info.files[0].patch_diff, "@@ -1 +1 @@");
    let empty = commit_info_from_data(&Data::Null);
    assert_eq!(empty.total_changes, 0);
    assert!(empty.files.is_empty());
}

#[test]
fn rate_body_overwrites_the_counter() {
    let mut u = User::new("a".to_string(), "t".to_string());
    let v = obj(vec![("rate", obj(vec![("remaining", Data::Int(42))]))]);
    apply_rate(&mut u, &v);
    assert_eq!(u.rate(), 42);
    apply_rate(&mut u, &Data::Null);
    assert_eq!(u.rate(), 0);
}

#[test]
fn installing_a_missing_profile_reports_not_found() {
    let mut u = User::new("a".to_string(), "t".to_string());
    assert_eq!(install_gituser(&mut u, None), Err(GiermError::NotFoundError));
    let gu = GitUser::new("A".to_string(), "n".to_string(), "".to_string(), "".to_string());
    assert_eq!(install_gituser(&mut u, Some(gu)), Ok(()));
    assert_eq!(u.git.username, "A");
}

#[test]
fn request_urls() {
    let u = User::new("alice".to_string(), "t".to_string());
    assert_eq!(user_url(&"bob".to_string()), "https://api.github.com/users/bob");
    assert_eq!(rate_url(), "https://api.github.com/rate_limit");
    assert_eq!(repos_url(&u, &"ALICE".to_string()), "https://api.github.com/user/repos");
    assert_eq!(repos_url(&u, &"bob".to_string()), "https://api.github.com/users/bob/repos");
    assert_eq!(
        repo_commits_url(&"a".to_string(), &"r".to_string()),
        "https://api.github.com/repos/a/r/commits"
    );
    assert_eq!(
        commit_info_url(&"a".to_string(), &"r".to_string(), &"sha1".to_string()),
        "https://api.github.com/repos/a/r/commits/sha1"
    );
}

#[test]
fn commit_detail_constructors() {
    let i = CommitInfo::new(5, 3, 2);
    assert_eq!((i.total_changes, i.additions, i.deletions), (5, 3, 2));
    assert!(i.files.is_empty());
    let d = CommitInfo::default();
    assert_eq!((d.total_changes, d.additions, d.deletions), (0, 0, 0));
    let f = File::new("n".to_string(), "s".to_string(), 1, 2, "p".to_string());
    assert_eq!(f.additions, 1);
    assert_eq!(f.deletions, 2);
}

#[test]
fn trimming_strips_ascii_blanks() {
    assert_eq!(trim_str("  hello \t\n"), "hello");
    assert_eq!(trim_str("\r\n \t"), "");
    assert_eq!(trim_str("x"), "x");
}
