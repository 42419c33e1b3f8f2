//! The entity model: the local account, remote profiles, repositories,
//! commits and per-commit diff statistics. Timestamps are held as seconds
//! since the Unix epoch; chrono reads and displays them behind trusted
//! wrappers.

use vstd::prelude::*;
use vstd::multiset::Multiset;
use crate::text::{
    to_chars, chars_to_string, append_str_chars, append_chars, find_sub, match_at, has_sub,
};

verus! {

/// The epoch timestamp that chrono reads from an RFC 3339 string, when the
/// string parses.
pub uninterp spec fn rfc3339_epoch(s: Seq<char>) -> Option<i64>;

/// Relies on chrono's `DateTime::parse_from_rfc3339` and `timestamp`: the
/// parsed instant depends on the characters alone.
#[verifier::external_body]
fn parse_rfc3339(s: &str) -> (r: Option<i64>)
    ensures
        r == rfc3339_epoch(s@),
{
    match chrono::DateTime::parse_from_rfc3339(s) {
        Ok(dt) => Some(dt.timestamp()),
        Err(_) => None,
    }
}

/// The text chrono displays for the UTC instant `t` seconds after the
/// epoch (the epoch itself for instants chrono cannot represent).
pub uninterp spec fn utc_display(t: i64) -> Seq<char>;

/// Relies on chrono's `DateTime::<Utc>::from_timestamp` and its `Display`:
/// the text depends on the timestamp alone.
#[verifier::external_body]
fn format_utc(t: i64) -> (r: String)
    ensures
        r@ == utc_display(t),
{
    match chrono::DateTime::<chrono::Utc>::from_timestamp(t, 0) {
        Some(dt) => dt.to_string(),
        None => chrono::DateTime::<chrono::Utc>::default().to_string(),
    }
}

/// The timestamp a creation or update string stands for; unparsable
/// strings fall back to the epoch.
pub open spec fn epoch_or_zero(s: Seq<char>) -> i64 {
    match rfc3339_epoch(s) {
        Some(t) => t,
        None => 0,
    }
}

/// Parses a timestamp string, falling back to the epoch.
fn parse_epoch_or_zero(s: &str) -> (r: i64)
    ensures
        r == epoch_or_zero(s@),
{
    match parse_rfc3339(s) {
        Some(t) => t,
        None => 0,
    }
}

pub struct File {
    pub name: String,
    pub sha: String,
    pub additions: i32,
    pub deletions: i32,
    pub patch_diff: String,
}

impl File {
    pub fn new(name: String, sha: String, additions: i32, deletions: i32, patch_diff: String)
        -> (r: Self)
        ensures
            r.name == name,
            r.sha == sha,
            r.additions == additions,
            r.deletions == deletions,
            r.patch_diff == patch_diff,
    {
        Self { name, sha, additions, deletions, patch_diff }
    }
}

pub struct CommitInfo {
    pub total_changes: i32,
    pub additions: i32,
    pub deletions: i32,
    pub files: Vec<File>,
}

impl CommitInfo {
    pub fn new(total_changes: i32, additions: i32, deletions: i32) -> (r: Self)
        ensures
            r.total_changes == total_changes,
            r.additions == additions,
            r.deletions == deletions,
            r.files@ == Seq::<File>::empty(),
    {
        Self { total_changes, additions, deletions, files: Vec::new() }
    }

    pub fn default() -> (r: Self)
        ensures
            r.total_changes == 0,
            r.additions == 0,
            r.deletions == 0,
            r.files@ == Seq::<File>::empty(),
    {
        Self { total_changes: 0, additions: 0, deletions: 0, files: Vec::new() }
    }
}

/// The marker that separates a commit's subject from its description, as
/// the API escapes it.
pub open spec fn nl_marker() -> Seq<char> {
    seq!['\\', 'n', '\\', 'n']
}

/// The index of the first occurrence of `pat` in `hay`, assuming one
/// exists.
pub open spec fn first_match_idx(hay: Seq<char>, pat: Seq<char>) -> int {
    choose|j: int|
        match_at(hay, pat, j) && (forall|t: int| 0 <= t < j ==> !match_at(hay, pat, t))
}

/// A first match is unique, so `first_match_idx` names the position that a
/// search finds.
pub proof fn lemma_first_match_unique(hay: Seq<char>, pat: Seq<char>, j: int)
    requires
        match_at(hay, pat, j),
        forall|t: int| 0 <= t < j ==> !match_at(hay, pat, t),
    ensures
        first_match_idx(hay, pat) == j,
{
    let k = first_match_idx(hay, pat);
    assert(match_at(hay, pat, k) && (forall|t: int| 0 <= t < k ==> !match_at(hay, pat, t)));
    if k < j {
        assert(!match_at(hay, pat, k));
    }
    if j < k {
        assert(!match_at(hay, pat, j));
    }
}

/// The part of `hay` before the first occurrence of `pat`; all of `hay`
/// when `pat` does not occur.
pub open spec fn cut_before(hay: Seq<char>, pat: Seq<char>) -> Seq<char> {
    if has_sub(hay, pat) {
        hay.subrange(0, first_match_idx(hay, pat))
    } else {
        hay
    }
}

/// The part of `hay` after the first occurrence of `pat`; empty when
/// `pat` does not occur.
pub open spec fn cut_after(hay: Seq<char>, pat: Seq<char>) -> Seq<char> {
    if has_sub(hay, pat) {
        hay.subrange(first_match_idx(hay, pat) + pat.len(), hay.len() as int)
    } else {
        Seq::<char>::empty()
    }
}

/// A hash abbreviated to its first eight characters.
pub open spec fn sha_abbrev(s: Seq<char>) -> Seq<char> {
    if s.len() >= 8 {
        s.subrange(0, 8)
    } else {
        s
    }
}

pub struct Commit {
    pub message: String,
    pub sha: String,
    pub committer: String,
    pub date: i64,
    pub info: Option<CommitInfo>,
}

impl Commit {
    /// A commit as listed by the API; the detail is absent until fetched.
    pub fn new(message: String, sha: String, committer: String, date: String) -> (r: Self)
        ensures
            r.message == message,
            r.sha == sha,
            r.committer == committer,
            r.date == epoch_or_zero(date@),
            r.info is None,
    {
        let dt: i64 = parse_epoch_or_zero(date.as_str());
        Self { message, sha, committer, date: dt, info: None }
    }

    /// One line for the commit list: its date, a space, and its subject.
    pub fn to_string(&self) -> (r: String)
        ensures
            r@ == utc_display(self.date) + seq![' '] + cut_before(self.message@, nl_marker()),
    {
        let mut out: Vec<char> = to_chars(format_utc(self.date).as_str());
        out.push(' ');
        let short: String = self.message_short();
        let shortv: Vec<char> = to_chars(short.as_str());
        append_chars(&mut out, &shortv);
        chars_to_string(&out)
    }

    /// The commit's subject: the message up to the first escaped blank
    /// line.
    pub fn message_short(&self) -> (r: String)
        ensures
            r@ == cut_before(self.message@, nl_marker()),
    {
        let msg: Vec<char> = to_chars(self.message.as_str());
        let mut pat: Vec<char> = Vec::new();
        pat.push('\\');
        pat.push('n');
        pat.push('\\');
        pat.push('n');
        assert(pat@ =~= nl_marker());
        match find_sub(&msg, &pat) {
            Some(i) => {
                proof {
                    lemma_first_match_unique(self.message@, nl_marker(), i as int);
                }
                let mut out: Vec<char> = Vec::new();
                let mut k: usize = 0;
                while k < i
                    invariant
                        i <= msg@.len(),
                        k <= i,
                        msg@ == self.message@,
                        out@ == self.message@.subrange(0, k as int),
                    decreases i - k,
                {
                    out.push(msg[k]);
                    assert(out@ =~= self.message@.subrange(0, (k + 1) as int));
                    k = k + 1;
                }
                chars_to_string(&out)
            },
            None => {
                let out: Vec<char> = msg;
                chars_to_string(&out)
            },
        }
    }

    /// The commit's description: the message after the first escaped blank
    /// line, empty when there is none.
    pub fn description(&self) -> (r: String)
        ensures
            r@ == cut_after(self.message@, nl_marker()),
    {
        let msg: Vec<char> = to_chars(self.message.as_str());
        let mut pat: Vec<char> = Vec::new();
        pat.push('\\');
        pat.push('n');
        pat.push('\\');
        pat.push('n');
        assert(pat@ =~= nl_marker());
        match find_sub(&msg, &pat) {
            Some(i) => {
                proof {
                    lemma_first_match_unique(self.message@, nl_marker(), i as int);
                }
                let n: usize = msg.len();
                let start: usize = i + 4;
                let mut out: Vec<char> = Vec::new();
                let mut k: usize = start;
                while k < n
                    invariant
                        start <= n,
                        start <= k <= n,
                        n == msg@.len(),
                        msg@ == self.message@,
                        out@ == self.message@.subrange(start as int, k as int),
                    decreases n - k,
                {
                    out.push(msg[k]);
                    assert(out@ =~= self.message@.subrange(start as int, (k + 1) as int));
                    k = k + 1;
                }
                chars_to_string(&out)
            },
            None => {
                let out: Vec<char> = Vec::new();
                chars_to_string(&out)
            },
        }
    }

    /// The first eight characters of the commit hash.
    pub fn sha_short(&self) -> (r: String)
        ensures
            r@ == sha_abbrev(self.sha@),
    {
        let v: Vec<char> = to_chars(self.sha.as_str());
        let mut out: Vec<char> = Vec::new();
        let n: usize = if v.len() < 8 {
            v.len()
        } else {
            8
        };
        let mut k: usize = 0;
        while k < n
            invariant
                n <= v@.len(),
                k <= n,
                v@ == self.sha@,
                out@ == self.sha@.subrange(0, k as int),
            decreases n - k,
        {
            out.push(v[k]);
            assert(out@ =~= self.sha@.subrange(0, (k + 1) as int));
            k = k + 1;
        }
        proof {
            if self.sha@.len() < 8 {
                assert(self.sha@.subrange(0, n as int) =~= self.sha@);
            }
        }
        chars_to_string(&out)
    }
}

/// A clone URL for the repository, over SSH or HTTPS.
pub fn get_clone_url(user: &String, repo: &String, ssh: bool) -> (r: String)
    ensures
        ssh ==> r@ == "git@github.com:"@ + user@ + seq!['/'] + repo@ + ".git"@,
        !ssh ==> r@ == "https://github.com/"@ + user@ + seq!['/'] + repo@ + ".git"@,
{
    let mut out: Vec<char> = Vec::new();
    if ssh {
        append_str_chars(&mut out, "git@github.com:");
    } else {
        append_str_chars(&mut out, "https://github.com/");
    }
    append_str_chars(&mut out, user.as_str());
    out.push('/');
    append_str_chars(&mut out, repo.as_str());
    append_str_chars(&mut out, ".git");
    chars_to_string(&out)
}

pub struct Repo {
    pub user: String,
    pub name: String,
    pub description: String,
    pub language: String,
    pub created_at: i64,
    pub updated_at: i64,
    pub commits: Vec<Commit>,
}

impl Repo {
    /// A repository as listed by the API; its commit list starts empty.
    pub fn new(
        user: String,
        name: String,
        description: String,
        language: String,
        created_at: String,
        updated_at: String,
    ) -> (r: Self)
        ensures
            r.user == user,
            r.name == name,
            r.description == description,
            r.language == language,
            r.created_at == epoch_or_zero(created_at@),
            r.updated_at == epoch_or_zero(updated_at@),
            r.commits@ == Seq::<Commit>::empty(),
    {
        let created: i64 = parse_epoch_or_zero(created_at.as_str());
        let updated: i64 = parse_epoch_or_zero(updated_at.as_str());
        Self { user, name, description, language, created_at: created, updated_at: updated, commits: Vec::new() }
    }
}

/// Some repository in `rs` carries this name.
pub open spec fn repo_named(rs: Seq<Repo>, name: Seq<char>) -> bool {
    exists|i: int| 0 <= i < rs.len() && rs[i].name@ == name
}

/// No two repositories in `rs` share a name.
pub open spec fn repos_unique(rs: Seq<Repo>) -> bool {
    forall|i: int, j: int| 0 <= i < j < rs.len() ==> rs[i].name@ != rs[j].name@
}

/// The update timestamp of the repository carrying `name` (meaningful when
/// such a repository exists and names are unique).
pub open spec fn updated_of(rs: Seq<Repo>, name: Seq<char>) -> int {
    let i = choose|i: int| 0 <= i < rs.len() && rs[i].name@ == name;
    rs[i].updated_at as int
}

pub struct GitUser {
    pub username: String,
    pub name: String,
    pub email: String,
    pub bio: String,
    pub repos: Vec<Repo>,
}

impl GitUser {
    /// A remote account's public attributes; its repository map starts
    /// empty.
    pub fn new(username: String, name: String, email: String, bio: String) -> (r: Self)
        ensures
            r.username == username,
            r.name == name,
            r.email == email,
            r.bio == bio,
            r.repos@ == Seq::<Repo>::empty(),
    {
        Self { username, name, email, bio, repos: Vec::new() }
    }

    /// The repository names are unique, as keys of a map.
    pub open spec fn repos_wf(self) -> bool {
        repos_unique(self.repos@)
    }

    /// The repository names, in map order.
    pub fn repo_names(&self) -> (r: Vec<String>)
        ensures
            r@.len() == self.repos@.len(),
            forall|k: int| 0 <= k < r@.len() ==> r@[k]@ == self.repos@[k].name@,
    {
        let n: usize = self.repos.len();
        let mut out: Vec<String> = Vec::new();
        let mut i: usize = 0;
        while i < n
            invariant
                n == self.repos@.len(),
                i <= n,
                out@.len() == i,
                forall|k: int| 0 <= k < i ==> out@[k]@ == self.repos@[k].name@,
            decreases n - i,
        {
            out.push(self.repos[i].name.clone());
            i = i + 1;
        }
        out
    }

    /// The index of the repository carrying `name`.
    pub fn repo_index(&self, name: &str) -> (r: Option<usize>)
        ensures
            match r {
                Some(i) => i < self.repos@.len() && self.repos@[i as int].name@ == name@,
                None => !repo_named(self.repos@, name@),
            },
    {
        let n: usize = self.repos.len();
        let mut i: usize = 0;
        while i < n
            invariant
                n == self.repos@.len(),
                i <= n,
                forall|k: int| 0 <= k < i ==> self.repos@[k].name@ != name@,
            decreases n - i,
        {
            if crate::text::str_eq(self.repos[i].name.as_str(), name) {
                return Some(i);
            }
            i = i + 1;
        }
        None
    }

    /// The repository carrying `name`, if any.
    pub fn get_repo(&self, name: &str) -> (r: Option<&Repo>)
        ensures
            match r {
                Some(rp) => rp.name@ == name@ && self.repos@.contains(*rp),
                None => !repo_named(self.repos@, name@),
            },
    {
        match self.repo_index(name) {
            Some(i) => {
                let rp = &self.repos[i];
                Some(rp)
            },
            None => None,
        }
    }

    /// Adds a repository, replacing any existing one with the same name,
    /// as a map insert does.
    pub fn insert_repo(&mut self, repo: Repo)
        requires
            old(self).repos_wf(),
        ensures
            final(self).repos_wf(),
            final(self).username == old(self).username,
            final(self).name == old(self).name,
            final(self).email == old(self).email,
            final(self).bio == old(self).bio,
            repo_named(old(self).repos@, repo.name@) ==> exists|i: int|
                0 <= i < old(self).repos@.len() && old(self).repos@[i].name@ == repo.name@
                && final(self).repos@ == old(self).repos@.update(i, repo),
            !repo_named(old(self).repos@, repo.name@) ==> final(self).repos@
                == old(self).repos@.push(repo),
    {
        let idx = self.repo_index(repo.name.as_str());
        match idx {
            Some(i) => {
                let slot = &mut self.repos[i];
                *slot = repo;
                proof {
                    assert forall|a: int, b: int|
                        0 <= a < b < self.repos@.len() implies self.repos@[a].name@
                        != self.repos@[b].name@ by {
                        assert(old(self).repos@[a].name@ != old(self).repos@[b].name@);
                    }
                }
            },
            None => {
                self.repos.push(repo);
                proof {
                    assert forall|a: int, b: int|
                        0 <= a < b < self.repos@.len() implies self.repos@[a].name@
                        != self.repos@[b].name@ by {
                        if b < old(self).repos@.len() {
                            assert(old(self).repos@[a].name@ != old(self).repos@[b].name@);
                        }
                    }
                }
            },
        }
    }
}

pub struct User {
    pub git: GitUser,
    pub password: String,
    pub remaining: i32,
}

impl User {
    /// The local session identity, starting with the unauthenticated rate
    /// allowance.
    pub fn new(username: String, password: String) -> (r: Self)
        ensures
            r.git.username == username,
            r.git.name@ == Seq::<char>::empty(),
            r.git.email@ == Seq::<char>::empty(),
            r.git.bio@ == Seq::<char>::empty(),
            r.git.repos@ == Seq::<Repo>::empty(),
            r.password == password,
            r.remaining == 60,
    {
        Self {
            git: GitUser::new(username, String::new(), String::new(), String::new()),
            password,
            remaining: 60,
        }
    }

    /// The secret token.
    pub fn get_token(&self) -> (r: String)
        ensures
            r@ == self.password@,
    {
        self.password.clone()
    }

    /// Overwrites the rate counter with an authoritative value.
    pub fn set_ratelimit(&mut self, limit: i32)
        ensures
            final(self).remaining == limit,
            final(self).git == old(self).git,
            final(self).password == old(self).password,
    {
        self.remaining = limit;
    }

    /// The remaining-rate counter, for display.
    pub fn rate(&self) -> (r: i32)
        ensures
            r == self.remaining,
    {
        self.remaining
    }

    /// Notes one request against the rate counter; reports whether any
    /// allowance was left.
    pub fn fetch(&mut self) -> (r: bool)
        ensures
            old(self).remaining > 0 ==> r && final(self).remaining == old(self).remaining - 1,
            old(self).remaining <= 0 ==> !r && final(self).remaining == old(self).remaining,
            final(self).git == old(self).git,
            final(self).password == old(self).password,
    {
        if self.remaining > 0 {
            self.remaining = self.remaining - 1;
            true
        } else {
            false
        }
    }
}


/// Sorts timestamp/name pairs by timestamp, newest first, keeping exactly
/// the given pairs.
fn sort_pairs_desc(src: Vec<(i64, String)>) -> (r: Vec<(i64, String)>)
    ensures
        r@.to_multiset() == src@.to_multiset(),
        forall|i: int, j: int| 0 <= i < j < r@.len() ==> r@[i].0 >= r@[j].0,
{
    broadcast use vstd::seq_lib::group_to_multiset_ensures;

    let mut rest = src;
    let mut out: Vec<(i64, String)> = Vec::new();
    proof {
        assert(out@.to_multiset().add(rest@.to_multiset()) =~= src@.to_multiset());
    }
    while rest.len() > 0
        invariant
            out@.to_multiset().add(rest@.to_multiset()) == src@.to_multiset(),
            forall|i: int, j: int| 0 <= i < j < out@.len() ==> out@[i].0 >= out@[j].0,
            forall|a: int, b: int|
                0 <= a < out@.len() && 0 <= b < rest@.len() ==> out@[a].0 >= rest@[b].0,
        decreases rest@.len(),
    {
        let n: usize = rest.len();
        let mut m: usize = 0;
        let mut t: usize = 1;
        while t < n
            invariant
                n == rest@.len(),
                m < n,
                t <= n,
                forall|b: int| 0 <= b < t ==> rest@[m as int].0 >= rest@[b].0,
            decreases n - t,
        {
            if rest[t].0 > rest[m].0 {
                m = t;
            }
            t = t + 1;
        }
        let ghost rest_pre = rest@;
        let ghost out_pre = out@;
        let x = rest.remove(m);
        out.push(x);
        proof {
            vstd::seq_lib::to_multiset_remove(rest_pre, m as int);
            vstd::seq_lib::to_multiset_build(out_pre, x);
            vstd::seq_lib::to_multiset_contains(rest_pre, x);
            assert(rest@ == rest_pre.remove(m as int));
            assert(out@ == out_pre.push(x));
            assert(rest_pre.to_multiset().contains(x));
            assert(out@.to_multiset().add(rest@.to_multiset()) =~= src@.to_multiset());
            assert forall|a: int, b: int|
                0 <= a < out@.len() && 0 <= b < rest@.len() implies out@[a].0 >= rest@[b].0 by {
                if a < out_pre.len() {
                    if b < m {
                        assert(rest@[b] == rest_pre[b]);
                    } else {
                        assert(rest@[b] == rest_pre[b + 1]);
                    }
                } else {
                    assert(out@[a] == x);
                    if b < m {
                        assert(rest@[b] == rest_pre[b]);
                    } else {
                        assert(rest@[b] == rest_pre[b + 1]);
                    }
                }
            }
        }
    }
    proof {
        vstd::seq_lib::to_multiset_len(rest@);
        assert(rest@.to_multiset() =~= Multiset::<(i64, String)>::empty()) by {
            vstd::seq_lib::to_multiset_contains(rest@, arbitrary::<(i64, String)>());
            assert forall|e: (i64, String)|
                rest@.to_multiset().count(e) == Multiset::<(i64, String)>::empty().count(e) by {
                vstd::seq_lib::to_multiset_contains(rest@, e);
            }
        }
        assert(out@.to_multiset() =~= src@.to_multiset());
    }
    out
}

impl GitUser {
    /// The repository names, most recently updated first: exactly the
    /// names of `repos`, each once, ordered by descending update time.
    pub fn sorted_repo_names(&self) -> (r: Vec<String>)
        requires
            self.repos_wf(),
        ensures
            r@.len() == self.repos@.len(),
            forall|k: int| 0 <= k < r@.len() ==> repo_named(self.repos@, r@[k]@),
            forall|nm: Seq<char>|
                repo_named(self.repos@, nm) ==> exists|k: int| 0 <= k < r@.len() && r@[k]@ == nm,
            forall|i: int, j: int| 0 <= i < j < r@.len() ==> r@[i]@ != r@[j]@,
            forall|i: int, j: int|
                0 <= i < j < r@.len() ==> updated_of(self.repos@, r@[i]@) >= updated_of(
                    self.repos@,
                    r@[j]@,
                ),
    {
        broadcast use vstd::seq_lib::group_to_multiset_ensures;

        let n: usize = self.repos.len();
        let mut pairs: Vec<(i64, String)> = Vec::new();
        let mut i: usize = 0;
        while i < n
            invariant
                n == self.repos@.len(),
                i <= n,
                pairs@.len() == i,
                forall|t: int| 0 <= t < i ==> pairs@[t].0 == self.repos@[t].updated_at
                    && pairs@[t].1@ == self.repos@[t].name@,
            decreases n - i,
        {
            let rp = &self.repos[i];
            pairs.push((rp.updated_at, rp.name.clone()));
            i = i + 1;
        }
        proof {
            assert(pairs@.no_duplicates()) by {
                assert forall|a: int, b: int|
                    0 <= a < pairs@.len() && 0 <= b < pairs@.len() && a != b implies pairs@[a]
                    != pairs@[b] by {
                    if a < b {
                        assert(self.repos@[a].name@ != self.repos@[b].name@);
                    } else {
                        assert(self.repos@[b].name@ != self.repos@[a].name@);
                    }
                }
            }
            pairs@.lemma_multiset_has_no_duplicates();
        }
        let ghost pairs_v = pairs@;
        let sorted = sort_pairs_desc(pairs);
        proof {
            sorted@.lemma_multiset_has_no_duplicates_conv();
        }
        let m: usize = sorted.len();
        let mut out: Vec<String> = Vec::new();
        let mut k: usize = 0;
        while k < m
            invariant
                m == sorted@.len(),
                k <= m,
                out@.len() == k,
                forall|t: int| 0 <= t < k ==> out@[t]@ == sorted@[t].1@,
            decreases m - k,
        {
            let nm: String = sorted[k].1.clone();
            out.push(nm);
            k = k + 1;
        }
        proof {
            let rs = self.repos@;
            assert(sorted@.len() == rs.len()) by {
                assert(sorted@.to_multiset().len() == sorted@.len());
                assert(pairs_v.to_multiset().len() == pairs_v.len());
            }
            assert forall|t: int| 0 <= t < sorted@.len() implies (repo_named(rs, sorted@[t].1@)
                && updated_of(rs, sorted@[t].1@) == sorted@[t].0) by {
                assert(sorted@.to_multiset().contains(sorted@[t]));
                assert(pairs_v.to_multiset().contains(sorted@[t]));
                assert(pairs_v.contains(sorted@[t]));
                let w = choose|w: int| 0 <= w < pairs_v.len() && pairs_v[w] == sorted@[t];
                assert(rs[w].name@ == sorted@[t].1@);
                assert(repo_named(rs, sorted@[t].1@));
                let c = choose|c: int| 0 <= c < rs.len() && rs[c].name@ == sorted@[t].1@;
                if c != w {
                    if c < w {
                        assert(rs[c].name@ != rs[w].name@);
                    } else {
                        assert(rs[w].name@ != rs[c].name@);
                    }
                }
                assert(updated_of(rs, sorted@[t].1@) == rs[w].updated_at as int);
            }
            assert forall|i0: int, j0: int| 0 <= i0 < j0 < sorted@.len() implies sorted@[i0].1@
                != sorted@[j0].1@ by {
                if sorted@[i0].1@ == sorted@[j0].1@ {
                    if sorted@[i0] == sorted@[j0] {
                        assert(sorted@[i0] != sorted@[j0]);
                    } else {
                        let w1 = choose|w: int|
                            0 <= w < pairs_v.len() && pairs_v[w] == sorted@[i0];
                        let w2 = choose|w: int|
                            0 <= w < pairs_v.len() && pairs_v[w] == sorted@[j0];
                        assert(pairs_v.to_multiset().contains(sorted@[i0]));
                        assert(pairs_v.contains(sorted@[i0]));
                        assert(pairs_v.to_multiset().contains(sorted@[j0]));
                        assert(pairs_v.contains(sorted@[j0]));
                        assert(rs[w1].name@ == rs[w2].name@);
                        if w1 < w2 {
                            assert(rs[w1].name@ != rs[w2].name@);
                        } else if w2 < w1 {
                            assert(rs[w2].name@ != rs[w1].name@);
                        }
                    }
                }
            }
            assert forall|nm: Seq<char>| repo_named(rs, nm) implies exists|k0: int|
                0 <= k0 < out@.len() && out@[k0]@ == nm by {
                let c = choose|c: int| 0 <= c < rs.len() && rs[c].name@ == nm;
                assert(pairs_v[c] == (pairs_v[c].0, pairs_v[c].1));
                assert(pairs_v.contains(pairs_v[c]));
                assert(pairs_v.to_multiset().contains(pairs_v[c]));
                assert(sorted@.to_multiset().contains(pairs_v[c]));
                assert(sorted@.contains(pairs_v[c]));
                let t = choose|t: int| 0 <= t < sorted@.len() && sorted@[t] == pairs_v[c];
                assert(out@[t]@ == nm);
            }
        }
        out
    }
}

} // verus!
