//! The session controller: one owned aggregate holding the account, the
//! caches, the navigation state and the input mode. Key handling turns
//! semantic input events into navigation, cache reads, or fetch requests
//! that the surrounding event loop performs and reports back.

use vstd::prelude::*;
use vstd::arithmetic::div_mod::{
    lemma_add_mod_noop, lemma_mod_self_0, lemma_mod_twice, lemma_mod_division_less_than_divisor,
    lemma_small_mod,
};
use crate::layout::{TuiLayout, BlockType, LayoutV, active_block_v};
use crate::filterlist::FilterList;
use crate::git::{User, GitUser, Repo, Commit, CommitInfo, repo_named, repos_unique, updated_of};
use crate::text::{
    to_chars, chars_to_string, append_str_chars, append_chars, dec_str, u64_to_chars, str_eq,
    to_lower, lower_of,
};

verus! {

/// Whether keys navigate the panels or edit a search field.
#[derive(PartialEq, Eq, Structural, Clone, Copy, Debug)]
pub enum Mode {
    Tui,
    Input,
}

/// A list cursor: the selected index, if any, and the list length it was
/// last sized against.
pub struct StateL {
    pub selected: Option<usize>,
    pub items_len: usize,
}

/// Wrapping increment, phrased without exceeding the modulus.
pub(crate) proof fn lemma_inc_mod(a: int, k: int)
    requires
        k > 0,
        a >= 0,
    ensures
        (a + 1) % k == if a % k + 1 == k { 0int } else { a % k + 1 },
{
    lemma_add_mod_noop(a, 1, k);
    lemma_mod_division_less_than_divisor(a, k);
    if k == 1 {
        lemma_mod_self_0(1);
        lemma_small_mod(0, 1);
    } else {
        lemma_small_mod(1, k as nat);
        if a % k + 1 == k {
            lemma_mod_self_0(k);
        } else {
            lemma_small_mod((a % k + 1) as nat, k as nat);
        }
    }
}

/// Wrapping decrement: adding the modulus first changes nothing.
pub(crate) proof fn lemma_prev_mod(a: int, k: int)
    requires
        k > 0,
        a >= 0,
    ensures
        (a + k - 1) % k == if a % k == 0 { k - 1 } else { a % k - 1 },
{
    lemma_add_mod_noop(a, k - 1, k);
    lemma_mod_division_less_than_divisor(a, k);
    lemma_small_mod((k - 1) as nat, k as nat);
    let b = a % k;
    if b == 0 {
        lemma_small_mod((k - 1) as nat, k as nat);
    } else {
        lemma_add_mod_noop(k, b - 1, k);
        lemma_mod_self_0(k);
        lemma_mod_twice(b - 1, k);
        lemma_small_mod((b - 1) as nat, k as nat);
    }
}

/// The cursor after selecting the next item.
pub open spec fn next_sel(s: StateL) -> StateL {
    if s.items_len == 0 {
        s
    } else {
        StateL {
            selected: Some(
                match s.selected {
                    None => 0usize,
                    Some(i) => ((i + 1) as int % s.items_len as int) as usize,
                },
            ),
            items_len: s.items_len,
        }
    }
}

/// The cursor after selecting the previous item.
pub open spec fn prev_sel(s: StateL) -> StateL {
    if s.items_len == 0 {
        s
    } else {
        StateL {
            selected: Some(
                match s.selected {
                    None => 0usize,
                    Some(i) => ((i + s.items_len - 1) as int % s.items_len as int) as usize,
                },
            ),
            items_len: s.items_len,
        }
    }
}

impl StateL {
    /// A cursor over `len` items with nothing selected.
    pub fn new(len: usize) -> (r: Self)
        ensures
            r.selected is None,
            r.items_len == len,
    {
        StateL { selected: None, items_len: len }
    }

    /// Selects the next item, wrapping; selects the first when nothing is
    /// selected; does nothing on an empty list.
    pub fn next(&mut self)
        ensures
            *final(self) == next_sel(*old(self)),
    {
        if self.items_len == 0 {
            return;
        }
        let len: usize = self.items_len;
        match self.selected {
            None => {
                self.selected = Some(0);
            },
            Some(i) => {
                let base: usize = i % len;
                proof {
                    lemma_inc_mod(i as int, len as int);
                }
                self.selected = Some(
                    if base + 1 == len {
                        0
                    } else {
                        base + 1
                    },
                );
            },
        }
    }

    /// Selects the previous item, wrapping; selects the first when nothing
    /// is selected; does nothing on an empty list.
    pub fn previous(&mut self)
        ensures
            *final(self) == prev_sel(*old(self)),
    {
        if self.items_len == 0 {
            return;
        }
        let len: usize = self.items_len;
        match self.selected {
            None => {
                self.selected = Some(0);
            },
            Some(i) => {
                let base: usize = i % len;
                proof {
                    lemma_prev_mod(i as int, len as int);
                }
                self.selected = Some(
                    if base == 0 {
                        len - 1
                    } else {
                        base - 1
                    },
                );
            },
        }
    }

    /// Records a new list length; a selection past the new end is pulled
    /// back to it.
    pub fn new_size(&mut self, n: usize)
        ensures
            final(self).items_len == n,
            n < (match old(self).selected {
                None => 0usize,
                Some(i) => i,
            }) ==> final(self).selected == Some(n),
            n >= (match old(self).selected {
                None => 0usize,
                Some(i) => i,
            }) ==> final(self).selected == old(self).selected,
    {
        self.items_len = n;
        let sel: usize = match self.selected {
            Some(i) => i,
            None => 0,
        };
        if self.items_len < sel {
            self.selected = Some(self.items_len);
        }
    }

    /// The selected index, if any.
    pub fn get_selected_index(&self) -> (r: Option<usize>)
        ensures
            r == self.selected,
    {
        self.selected
    }

    /// Clears the selection.
    pub fn deselect(&mut self)
        ensures
            final(self).items_len == old(self).items_len,
            final(self).selected is None,
    {
        self.selected = None;
    }
}

/// Builds the client's screen: one column with the profile, the
/// repository list and the search group (whose nested layout holds the
/// two search fields), and one column with the info, commit-list and
/// commit-detail panels.
pub fn create_layout(layout: &mut TuiLayout)
    requires
        old(layout)@.blocks.len() == 0,
        old(layout)@.active_col == 0,
        old(layout)@.active_row == 0,
        !old(layout)@.sub_active,
        old(layout).cols == 0,
    ensures
        standard_layout(final(layout)@),
        final(layout)@.blocks[0][2].sub->0.active_col == 0,
        final(layout)@.blocks[0][2].sub->0.active_row == 0,
        !final(layout)@.blocks[0][2].sub->0.sub_active,
        final(layout)@.active_col == 0,
        final(layout)@.active_row == 0,
        !final(layout)@.sub_active,
{
    layout.add_col();
    layout.add_block(BlockType::Profile, 0);
    layout.add_block(BlockType::Repos, 0);
    let mut sub = TuiLayout::new();
    sub.add_col();
    sub.add_block(BlockType::SearchUser, 0);
    sub.add_block(BlockType::SearchRepo, 0);
    layout.add_layout(BlockType::Search, 0, sub);
    layout.add_col();
    layout.add_block(BlockType::Info, 1);
    layout.add_block(BlockType::Commits, 1);
    layout.add_block(BlockType::CommitInfo, 1);
}

/// The repository names a profile's list panel shows: exactly the names of
/// `repos`, each once, newest-updated first.
pub open spec fn names_of_repos(names: Seq<Seq<char>>, repos: Seq<Repo>) -> bool {
    &&& names.len() == repos.len()
    &&& forall|k: int| 0 <= k < names.len() ==> repo_named(repos, #[trigger] names[k])
    &&& forall|nm: Seq<char>|
        repo_named(repos, nm) ==> exists|k: int| 0 <= k < names.len() && #[trigger] names[k] == nm
    &&& forall|i: int, j: int| 0 <= i < j < names.len() ==> names[i] != names[j]
    &&& forall|i: int, j: int|
        0 <= i < j < names.len() ==> updated_of(repos, #[trigger] names[i]) >= updated_of(
            repos,
            #[trigger] names[j],
        )
}

/// A searched account: its profile, its repository list under the repo
/// filter, and a cursor over the commits of the selected repository.
pub struct SearchedUser {
    pub user: GitUser,
    pub repo_list: FilterList,
    pub commit_list: StateL,
}

impl SearchedUser {
    /// The name selected in the filtered repository list, as of the given
    /// state.
    pub open spec fn sel_filtered_name(self) -> Option<Seq<char>> {
        match self.repo_list.state.selected {
            Some(i) => if (i as int) < self.repo_list.filtered_view().len() {
                Some(self.repo_list.filtered_view()[i as int])
            } else {
                None
            },
            None => None,
        }
    }

    /// Wraps a fetched profile: its repositories listed newest first under
    /// the given filter, nothing selected yet.
    pub fn new(user: GitUser, filter: String) -> (r: Self)
        requires
            user.repos_wf(),
        ensures
            r.user == user,
            r.repo_list.filter == filter,
            names_of_repos(r.repo_list.list.deep_view(), user.repos@),
            r.repo_list.state.selected is None,
            r.repo_list.state.items_len == user.repos@.len(),
            r.commit_list.selected is None,
            r.commit_list.items_len == 0,
    {
        let repos: Vec<String> = user.sorted_repo_names();
        proof {
            assert forall|k: int| 0 <= k < repos.deep_view().len() implies repo_named(
                user.repos@,
                #[trigger] repos.deep_view()[k],
            ) by {
                assert(repos.deep_view()[k] == repos@[k]@);
            }
            assert forall|nm: Seq<char>| repo_named(user.repos@, nm) implies exists|k: int|
                0 <= k < repos.deep_view().len() && #[trigger] repos.deep_view()[k] == nm by {
                let k0 = choose|k0: int| 0 <= k0 < repos@.len() && repos@[k0]@ == nm;
                assert(repos.deep_view()[k0] == nm);
            }
            assert forall|i: int, j: int|
                0 <= i < j < repos.deep_view().len() implies repos.deep_view()[i]
                != repos.deep_view()[j] by {
                assert(repos@[i]@ != repos@[j]@);
            }
            assert forall|i: int, j: int|
                0 <= i < j < repos.deep_view().len() implies updated_of(
                user.repos@,
                #[trigger] repos.deep_view()[i],
            ) >= updated_of(user.repos@, #[trigger] repos.deep_view()[j]) by {
                assert(repos.deep_view()[i] == repos@[i]@);
                assert(repos.deep_view()[j] == repos@[j]@);
            }
        }
        let n: usize = repos.len();
        SearchedUser {
            user,
            repo_list: FilterList::new(repos, filter),
            commit_list: StateL::new(0),
        }
    }

    /// The name of the repository selected in the filtered list, sizing
    /// the cursor to the filtered count as a side effect.
    pub fn selected_repo_name(&mut self) -> (r: Option<String>)
        ensures
            match r {
                Some(s) => old(self).sel_filtered_name() == Some(s@),
                None => old(self).sel_filtered_name() is None,
            },
            final(self).user == old(self).user,
            final(self).commit_list == old(self).commit_list,
            final(self).repo_list.list == old(self).repo_list.list,
            final(self).repo_list.filter == old(self).repo_list.filter,
            final(self).repo_list.state.items_len == old(self).repo_list.filtered_view().len(),
            final(self).repo_list.state.selected == (
            if old(self).repo_list.filtered_view().len() < (match old(
                self,
            ).repo_list.state.selected {
                None => 0int,
                Some(i) => i as int,
            }) {
                Some(old(self).repo_list.filtered_view().len() as usize)
            } else {
                old(self).repo_list.state.selected
            }),
    {
        let idx: Option<usize> = self.repo_list.get_index();
        let filtered: Vec<String> = self.repo_list.get_filtered();
        match idx {
            Some(i) => {
                if i < filtered.len() {
                    proof {
                        assert(filtered.deep_view()[i as int] == filtered@[i as int]@);
                    }
                    Some(filtered[i].clone())
                } else {
                    None
                }
            },
            None => None,
        }
    }

    /// The index into the profile's repositories of the selected entry.
    pub fn selected_repo_index(&mut self) -> (r: Option<usize>)
        ensures
            match old(self).sel_filtered_name() {
                Some(nm) => match r {
                    Some(ix) => ix < final(self).user.repos@.len()
                        && final(self).user.repos@[ix as int].name@ == nm,
                    None => !repo_named(old(self).user.repos@, nm),
                },
                None => r is None,
            },
            final(self).user == old(self).user,
            final(self).commit_list == old(self).commit_list,
            final(self).repo_list.list == old(self).repo_list.list,
            final(self).repo_list.filter == old(self).repo_list.filter,
            final(self).repo_list.state.items_len == old(self).repo_list.filtered_view().len(),
            final(self).repo_list.state.selected == (
            if old(self).repo_list.filtered_view().len() < (match old(
                self,
            ).repo_list.state.selected {
                None => 0int,
                Some(i) => i as int,
            }) {
                Some(old(self).repo_list.filtered_view().len() as usize)
            } else {
                old(self).repo_list.state.selected
            }),
    {
        match self.selected_repo_name() {
            Some(nm) => self.user.repo_index(nm.as_str()),
            None => None,
        }
    }
}

/// The status line after a commit fetch: `Fetched N commits`.
pub fn fetched_commits_msg(n: u64) -> (r: String)
    ensures
        r@ == "Fetched "@ + dec_str(n as nat) + " commits"@,
{
    let mut out: Vec<char> = Vec::new();
    append_str_chars(&mut out, "Fetched ");
    let d: Vec<char> = u64_to_chars(n);
    append_chars(&mut out, &d);
    append_str_chars(&mut out, " commits");
    chars_to_string(&out)
}

/// The status line after a profile search succeeds:
/// `Found user U with N repos`.
pub fn found_user_msg(username: &String, n: u64) -> (r: String)
    ensures
        r@ == "Found user "@ + username@ + " with "@ + dec_str(n as nat) + " repos"@,
{
    let mut out: Vec<char> = Vec::new();
    append_str_chars(&mut out, "Found user ");
    append_str_chars(&mut out, username.as_str());
    append_str_chars(&mut out, " with ");
    let d: Vec<char> = u64_to_chars(n);
    append_chars(&mut out, &d);
    append_str_chars(&mut out, " repos");
    chars_to_string(&out)
}

/// The status line after a profile search finds nobody:
/// `No user found with 'U'`.
pub fn no_user_msg(username: &String) -> (r: String)
    ensures
        r@ == "No user found with '"@ + username@ + "'"@,
{
    let mut out: Vec<char> = Vec::new();
    append_str_chars(&mut out, "No user found with '");
    append_str_chars(&mut out, username.as_str());
    append_str_chars(&mut out, "'");
    chars_to_string(&out)
}

/// The status line after a commit-detail fetch:
/// `Fetched commit info for S`.
pub fn fetched_info_msg(sha_short: &String) -> (r: String)
    ensures
        r@ == "Fetched commit info for "@ + sha_short@,
{
    let mut out: Vec<char> = Vec::new();
    append_str_chars(&mut out, "Fetched commit info for ");
    append_str_chars(&mut out, sha_short.as_str());
    chars_to_string(&out)
}

/// The fixed two-column screen the session drives.
pub open spec fn standard_layout(l: LayoutV) -> bool {
    &&& l.blocks.len() == 2
    &&& l.blocks[0].len() == 3
    &&& l.blocks[1].len() == 3
    &&& l.blocks[0][0].b_type == BlockType::Profile
    &&& l.blocks[0][0].sub is None
    &&& l.blocks[0][1].b_type == BlockType::Repos
    &&& l.blocks[0][1].sub is None
    &&& l.blocks[0][2].b_type == BlockType::Search
    &&& l.blocks[0][2].sub is Some
    &&& l.blocks[0][2].sub->0.blocks.len() == 1
    &&& l.blocks[0][2].sub->0.blocks[0].len() == 2
    &&& l.blocks[0][2].sub->0.blocks[0][0].b_type == BlockType::SearchUser
    &&& l.blocks[0][2].sub->0.blocks[0][0].sub is None
    &&& l.blocks[0][2].sub->0.blocks[0][1].b_type == BlockType::SearchRepo
    &&& l.blocks[0][2].sub->0.blocks[0][1].sub is None
    &&& l.blocks[1][0].b_type == BlockType::Info
    &&& l.blocks[1][0].sub is None
    &&& l.blocks[1][1].b_type == BlockType::Commits
    &&& l.blocks[1][1].sub is None
    &&& l.blocks[1][2].b_type == BlockType::CommitInfo
    &&& l.blocks[1][2].sub is None
}

/// The innermost active panel's role.
pub open spec fn active_role(l: LayoutV) -> Option<BlockType> {
    match active_block_v(l) {
        Some(b) => Some(b.b_type),
        None => None,
    }
}

/// The whole session: account, caches, navigation and input state.
pub struct Tui {
    pub mode: Mode,
    pub user: User,
    pub layout: TuiLayout,
    pub repo_list_state: StateL,
    pub repo_list: Vec<String>,
    pub commit_list: StateL,
    pub search_user: String,
    pub search_repo: String,
    pub status_text: String,
    pub searched_user: Option<SearchedUser>,
    pub show_user_data: bool,
}

impl Tui {
    /// Whether the searched account's data is shown in place of the
    /// session owner's.
    pub open spec fn spec_show_su(self) -> bool {
        self.searched_user is Some && !self.show_user_data
    }

    /// A fresh session over the logged-in account, showing its own data.
    pub fn new(user: User, search_user: String, search_repo: String, status_text: String) -> (r:
        Self)
        requires
            user.git.repos_wf(),
        ensures
            r.mode == Mode::Tui,
            r.user == user,
            r.search_user == search_user,
            r.search_repo == search_repo,
            r.status_text == status_text,
            r.searched_user is None,
            r.show_user_data,
            names_of_repos(r.repo_list.deep_view(), user.git.repos@),
            r.repo_list_state.items_len == user.git.repos@.len(),
            r.repo_list_state.selected is None,
            r.commit_list.items_len == 0,
            r.commit_list.selected is None,
            standard_layout(r.layout@),
            r.layout@.active_col == 0,
            r.layout@.active_row == 0,
            !r.layout@.sub_active,
    {
        let n: usize = user.git.repos.len();
        let repos_state: StateL = StateL::new(n);
        let repos: Vec<String> = user.git.sorted_repo_names();
        proof {
            assert forall|k: int| 0 <= k < repos.deep_view().len() implies repo_named(
                user.git.repos@,
                #[trigger] repos.deep_view()[k],
            ) by {
                assert(repos.deep_view()[k] == repos@[k]@);
            }
            assert forall|nm: Seq<char>| repo_named(user.git.repos@, nm) implies exists|k: int|
                0 <= k < repos.deep_view().len() && #[trigger] repos.deep_view()[k] == nm by {
                let k0 = choose|k0: int| 0 <= k0 < repos@.len() && repos@[k0]@ == nm;
                assert(repos.deep_view()[k0] == nm);
            }
            assert forall|i: int, j: int|
                0 <= i < j < repos.deep_view().len() implies repos.deep_view()[i]
                != repos.deep_view()[j] by {
                assert(repos@[i]@ != repos@[j]@);
            }
            assert forall|i: int, j: int|
                0 <= i < j < repos.deep_view().len() implies updated_of(
                user.git.repos@,
                #[trigger] repos.deep_view()[i],
            ) >= updated_of(user.git.repos@, #[trigger] repos.deep_view()[j]) by {
                assert(repos.deep_view()[i] == repos@[i]@);
                assert(repos.deep_view()[j] == repos@[j]@);
            }
        }
        let mut lo = TuiLayout::new();
        create_layout(&mut lo);
        Tui {
            mode: Mode::Tui,
            user,
            layout: lo,
            repo_list_state: repos_state,
            repo_list: repos,
            commit_list: StateL::new(0),
            search_user,
            search_repo,
            status_text,
            searched_user: None,
            show_user_data: true,
        }
    }

    /// Whether the searched account's data is shown.
    pub fn show_su_data(&self) -> (r: bool)
        ensures
            r == self.spec_show_su(),
    {
        self.searched_user.is_some() && !self.show_user_data
    }

    /// Replaces the status line.
    pub fn set_status(&mut self, status: String)
        ensures
            *final(self) == (Tui { status_text: status, ..*old(self) }),
    {
        self.status_text = status;
    }
}

/// `b` is `a` after moving the repository selection in play one step
/// (forward or backward) and clearing the commit selection.
pub open spec fn repo_nav_effect(a: Tui, b: Tui, fwd: bool) -> bool {
    if a.spec_show_su() {
        &&& b == (Tui { searched_user: b.searched_user, ..a })
        &&& b.searched_user matches Some(sb)
        &&& sb == (SearchedUser {
            repo_list: (FilterList {
                state: if fwd {
                    next_sel(a.searched_user->0.repo_list.state)
                } else {
                    prev_sel(a.searched_user->0.repo_list.state)
                },
                ..a.searched_user->0.repo_list
            }),
            commit_list: (StateL { selected: None, ..a.searched_user->0.commit_list }),
            ..a.searched_user->0
        })
    } else {
        b == (Tui {
            repo_list_state: if fwd {
                next_sel(a.repo_list_state)
            } else {
                prev_sel(a.repo_list_state)
            },
            commit_list: (StateL { selected: None, ..a.commit_list }),
            ..a
        })
    }
}

/// `b` is `a` after moving the commit selection in play one step.
pub open spec fn commit_nav_effect(a: Tui, b: Tui, fwd: bool) -> bool {
    if a.spec_show_su() {
        &&& b == (Tui { searched_user: b.searched_user, ..a })
        &&& b.searched_user matches Some(sb)
        &&& sb == (SearchedUser {
            commit_list: if fwd {
                next_sel(a.searched_user->0.commit_list)
            } else {
                prev_sel(a.searched_user->0.commit_list)
            },
            ..a.searched_user->0
        })
    } else {
        b == (Tui {
            commit_list: if fwd {
                next_sel(a.commit_list)
            } else {
                prev_sel(a.commit_list)
            },
            ..a
        })
    }
}

/// What an activate keypress asks the event loop to do next.
#[derive(PartialEq, Eq, Structural, Clone, Copy, Debug)]
pub enum Act {
    Idle,
    RepoSelect,
    CommitSelect,
    RunSearch,
}

/// The index of the repository carrying `nm` (meaningful when one does and
/// names are unique).
pub open spec fn repo_ix(rs: Seq<Repo>, nm: Seq<char>) -> int {
    choose|i: int| 0 <= i < rs.len() && rs[i].name@ == nm
}

/// With unique names, `repo_ix` finds exactly the index that holds the
/// name.
pub proof fn lemma_repo_ix(rs: Seq<Repo>, i: int)
    requires
        repos_unique(rs),
        0 <= i < rs.len(),
    ensures
        repo_ix(rs, rs[i].name@) == i,
{
    let j = repo_ix(rs, rs[i].name@);
    assert(0 <= j < rs.len() && rs[j].name@ == rs[i].name@);
    if i < j {
        assert(rs[i].name@ != rs[j].name@);
    }
    if j < i {
        assert(rs[j].name@ != rs[i].name@);
    }
}

/// `post` is `pre` with `commits` stored in the repository at `ix` (the
/// cache write of a commit-list fetch).
pub open spec fn commits_stored(pre: Seq<Repo>, post: Seq<Repo>, ix: int, commits: Vec<Commit>)
    -> bool {
    &&& 0 <= ix < pre.len()
    &&& post == pre.update(ix, Repo { commits: commits, ..pre[ix] })
}

/// `post` is `pre` with `info` stored in commit `ci` of the repository at
/// `ix` (the cache write of a commit-detail fetch).
pub open spec fn info_stored(
    pre: Seq<Repo>,
    post: Seq<Repo>,
    ix: int,
    ci: int,
    info: CommitInfo,
) -> bool {
    &&& 0 <= ix < pre.len()
    &&& 0 <= ci < pre[ix].commits@.len()
    &&& post.len() == pre.len()
    &&& forall|k: int| 0 <= k < pre.len() && k != ix ==> post[k] == pre[k]
    &&& post[ix].user == pre[ix].user
    &&& post[ix].name == pre[ix].name
    &&& post[ix].description == pre[ix].description
    &&& post[ix].language == pre[ix].language
    &&& post[ix].created_at == pre[ix].created_at
    &&& post[ix].updated_at == pre[ix].updated_at
    &&& post[ix].commits@ == pre[ix].commits@.update(
        ci,
        Commit { info: Some(info), ..pre[ix].commits@[ci] },
    )
}

impl Tui {
    /// The repository maps in play have unique names, as maps do.
    pub open spec fn inv(self) -> bool {
        &&& self.user.git.repos_wf()
        &&& match self.searched_user {
            Some(su) => su.user.repos_wf(),
            None => true,
        }
    }

    /// The name selected in the owner's repository list.
    pub open spec fn own_sel_name(self) -> Option<Seq<char>> {
        match self.repo_list_state.selected {
            Some(i) => if (i as int) < self.repo_list@.len() {
                Some(self.repo_list@[i as int]@)
            } else {
                None
            },
            None => None,
        }
    }

    /// The commit cursor in play.
    pub open spec fn cur_commit_sel(self) -> StateL {
        if self.spec_show_su() {
            self.searched_user->0.commit_list
        } else {
            self.commit_list
        }
    }

    /// The name of the repository whose data the right column shows.
    pub fn selected_repo_name_user(&self) -> (r: Option<String>)
        ensures
            match r {
                Some(s) => self.own_sel_name() == Some(s@),
                None => self.own_sel_name() is None,
            },
    {
        match self.repo_list_state.get_selected_index() {
            Some(i) => {
                if i < self.repo_list.len() {
                    Some(self.repo_list[i].clone())
                } else {
                    None
                }
            },
            None => None,
        }
    }

    /// Moves the repository selection in play and clears the commit
    /// selection, as selecting a different repository invalidates it.
    pub fn repo_list_next(&mut self)
        ensures
            repo_nav_effect(*old(self), *final(self), true),
    {
        if self.show_su_data() {
            let su_opt = self.searched_user.take();
            match su_opt {
                Some(mut su) => {
                    su.repo_list.state.next();
                    su.commit_list.deselect();
                    self.searched_user = Some(su);
                },
                None => {
                    self.searched_user = None;
                },
            }
        } else {
            self.repo_list_state.next();
            self.commit_list.deselect();
        }
    }

    /// As `repo_list_next`, moving backwards.
    pub fn repo_list_prev(&mut self)
        ensures
            repo_nav_effect(*old(self), *final(self), false),
    {
        if self.show_su_data() {
            let su_opt = self.searched_user.take();
            match su_opt {
                Some(mut su) => {
                    su.repo_list.state.previous();
                    su.commit_list.deselect();
                    self.searched_user = Some(su);
                },
                None => {
                    self.searched_user = None;
                },
            }
        } else {
            self.repo_list_state.previous();
            self.commit_list.deselect();
        }
    }

    /// Moves the commit selection in play.
    pub fn commit_list_next(&mut self)
        ensures
            commit_nav_effect(*old(self), *final(self), true),
    {
        if self.show_su_data() {
            let su_opt = self.searched_user.take();
            match su_opt {
                Some(mut su) => {
                    su.commit_list.next();
                    self.searched_user = Some(su);
                },
                None => {
                    self.searched_user = None;
                },
            }
        } else {
            self.commit_list.next();
        }
    }

    /// As `commit_list_next`, moving backwards.
    pub fn commit_list_prev(&mut self)
        ensures
            commit_nav_effect(*old(self), *final(self), false),
    {
        if self.show_su_data() {
            let su_opt = self.searched_user.take();
            match su_opt {
                Some(mut su) => {
                    su.commit_list.previous();
                    self.searched_user = Some(su);
                },
                None => {
                    self.searched_user = None;
                },
            }
        } else {
            self.commit_list.previous();
        }
    }
}

impl Tui {
    /// Reacts to activating the repository panel: a first activation only
    /// selects the first entry; otherwise the selected repository's commits
    /// are either served from the cache (the commit cursor is sized to
    /// them and focus moves to the next column) or, exactly when the cache
    /// holds no commits for it, a fetch is requested by returning the
    /// owner and name to fetch for.
    pub fn repo_select_step(&mut self) -> (r: Option<(String, String)>)
        requires
            old(self).inv(),
        ensures
            final(self).inv(),
            (!old(self).spec_show_su() && old(self).repo_list_state.selected is None) ==> r
                is None && *final(self) == (Tui {
                repo_list_state: next_sel(old(self).repo_list_state),
                ..*old(self)
            }),
            (!old(self).spec_show_su() && old(self).repo_list_state.selected is Some) ==> (match
                old(self).own_sel_name() {
                Some(nm) => {
                    if repo_named(old(self).user.git.repos@, nm) {
                        let rp = old(self).user.git.repos@[repo_ix(
                            old(self).user.git.repos@,
                            nm,
                        )];
                        if rp.commits@.len() == 0 {
                            r matches Some(t) && t.0@ == rp.user@ && t.1@ == nm && *final(self)
                                == *old(self)
                        } else {
                            r is None && *final(self) == (Tui {
                                commit_list: (StateL {
                                    selected: None,
                                    items_len: rp.commits@.len() as usize,
                                }),
                                layout: final(self).layout,
                                ..*old(self)
                            }) && final(self).layout@ == crate::layout::next_col_v(
                                old(self).layout@,
                            )
                        }
                    } else {
                        r is None && *final(self) == *old(self)
                    }
                },
                None => r is None && *final(self) == *old(self),
            }),
            (old(self).spec_show_su() && old(self).searched_user->0.repo_list.state.selected
                is None) ==> r is None && *final(self) == (Tui {
                searched_user: final(self).searched_user,
                ..*old(self)
            }) && (final(self).searched_user matches Some(sb) && sb == (SearchedUser {
                repo_list: (FilterList {
                    state: next_sel(old(self).searched_user->0.repo_list.state),
                    ..old(self).searched_user->0.repo_list
                }),
                ..old(self).searched_user->0
            })),
            (old(self).spec_show_su() && old(self).searched_user->0.repo_list.state.selected
                is Some) ==> ({
                let sa = old(self).searched_user->0;
                &&& final(self).searched_user is Some
                &&& ({
                    let sb = final(self).searched_user->0;
                    &&& sb.user == sa.user
                    &&& sb.repo_list.list == sa.repo_list.list
                    &&& sb.repo_list.filter == sa.repo_list.filter
                    &&& sb.repo_list.state.items_len == sa.repo_list.filtered_view().len()
                    &&& *final(self) == (Tui {
                        searched_user: final(self).searched_user,
                        layout: final(self).layout,
                        ..*old(self)
                    })
                    &&& (match sa.sel_filtered_name() {
                        Some(nm) => {
                            if repo_named(sa.user.repos@, nm) {
                                let rp = sa.user.repos@[repo_ix(sa.user.repos@, nm)];
                                if rp.commits@.len() == 0 {
                                    r matches Some(t) && t.0@ == rp.user@ && t.1@ == nm
                                        && sb.commit_list == sa.commit_list && final(self).layout
                                        == old(self).layout
                                } else {
                                    r is None && sb.commit_list == (StateL {
                                        selected: None,
                                        items_len: rp.commits@.len() as usize,
                                    }) && final(self).layout@ == crate::layout::next_col_v(
                                        old(self).layout@,
                                    )
                                }
                            } else {
                                r is None && sb.commit_list == sa.commit_list
                                    && final(self).layout == old(self).layout
                            }
                        },
                        None => r is None && sb.commit_list == sa.commit_list
                            && final(self).layout == old(self).layout,
                    })
                })
            }),
    {
        if self.show_su_data() {
            let su_opt = self.searched_user.take();
            match su_opt {
                Some(mut su) => {
                    match su.repo_list.get_index() {
                        None => {
                            su.repo_list.state.next();
                            self.searched_user = Some(su);
                            None
                        },
                        Some(_) => {
                            match su.selected_repo_index() {
                                Some(ix) => {
                                    proof {
                                        lemma_repo_ix(su.user.repos@, ix as int);
                                    }
                                    let len: usize = su.user.repos[ix].commits.len();
                                    if len == 0 {
                                        let owner: String = su.user.repos[ix].user.clone();
                                        let name: String = su.user.repos[ix].name.clone();
                                        self.searched_user = Some(su);
                                        Some((owner, name))
                                    } else {
                                        su.commit_list = StateL {
                                            selected: None,
                                            items_len: len,
                                        };
                                        self.searched_user = Some(su);
                                        self.layout.next_col();
                                        None
                                    }
                                },
                                None => {
                                    self.searched_user = Some(su);
                                    None
                                },
                            }
                        },
                    }
                },
                None => {
                    self.searched_user = None;
                    None
                },
            }
        } else {
            match self.repo_list_state.get_selected_index() {
                None => {
                    self.repo_list_state.next();
                    None
                },
                Some(_) => {
                    match self.selected_repo_name_user() {
                        None => None,
                        Some(nm) => {
                            match self.user.git.repo_index(nm.as_str()) {
                                None => None,
                                Some(ix) => {
                                    proof {
                                        lemma_repo_ix(self.user.git.repos@, ix as int);
                                    }
                                    let len: usize = self.user.git.repos[ix].commits.len();
                                    if len == 0 {
                                        let owner: String = self.user.git.repos[ix].user.clone();
                                        Some((owner, nm))
                                    } else {
                                        self.commit_list = StateL {
                                            selected: None,
                                            items_len: len,
                                        };
                                        self.layout.next_col();
                                        None
                                    }
                                },
                            }
                        },
                    }
                },
            }
        }
    }
}

impl Tui {
    /// Stores a fetched commit list in the selected repository, sizes the
    /// commit cursor to it, moves focus to the next column, and reports
    /// `Fetched N commits` (`N` being 0 when the selection vanished and
    /// nothing could be stored).
    pub fn finish_repo_select(&mut self, commits: Vec<Commit>)
        requires
            old(self).inv(),
        ensures
            final(self).inv(),
            final(self).layout@ == crate::layout::next_col_v(old(self).layout@),
            !old(self).spec_show_su() ==> (match old(self).own_sel_name() {
                Some(nm) => {
                    if repo_named(old(self).user.git.repos@, nm) {
                        &&& commits_stored(
                            old(self).user.git.repos@,
                            final(self).user.git.repos@,
                            repo_ix(old(self).user.git.repos@, nm),
                            commits,
                        )
                        &&& final(self).commit_list == (StateL {
                            selected: None,
                            items_len: commits@.len() as usize,
                        })
                        &&& final(self).status_text@ == "Fetched "@ + dec_str(commits@.len())
                            + " commits"@
                    } else {
                        &&& final(self).user == old(self).user
                        &&& final(self).commit_list == (StateL { selected: None, items_len: 0 })
                        &&& final(self).status_text@ == "Fetched "@ + dec_str(0) + " commits"@
                    }
                },
                None => {
                    &&& final(self).user == old(self).user
                    &&& final(self).commit_list == (StateL { selected: None, items_len: 0 })
                    &&& final(self).status_text@ == "Fetched "@ + dec_str(0) + " commits"@
                },
            }) && *final(self) == (Tui {
                user: final(self).user,
                commit_list: final(self).commit_list,
                layout: final(self).layout,
                status_text: final(self).status_text,
                ..*old(self)
            }),
            old(self).spec_show_su() ==> ({
                let sa = old(self).searched_user->0;
                &&& final(self).searched_user is Some
                &&& ({
                    let sb = final(self).searched_user->0;
                    &&& sb.repo_list.list == sa.repo_list.list
                    &&& sb.repo_list.filter == sa.repo_list.filter
                    &&& sb.user.username == sa.user.username
                    &&& (match sa.sel_filtered_name() {
                        Some(nm) => {
                            if repo_named(sa.user.repos@, nm) {
                                &&& commits_stored(
                                    sa.user.repos@,
                                    sb.user.repos@,
                                    repo_ix(sa.user.repos@, nm),
                                    commits,
                                )
                                &&& sb.commit_list == (StateL {
                                    selected: None,
                                    items_len: commits@.len() as usize,
                                })
                                &&& final(self).status_text@ == "Fetched "@ + dec_str(
                                    commits@.len(),
                                ) + " commits"@
                            } else {
                                &&& sb.user == sa.user
                                &&& sb.commit_list == (StateL { selected: None, items_len: 0 })
                                &&& final(self).status_text@ == "Fetched "@ + dec_str(0)
                                    + " commits"@
                            }
                        },
                        None => {
                            &&& sb.user == sa.user
                            &&& sb.commit_list == (StateL { selected: None, items_len: 0 })
                            &&& final(self).status_text@ == "Fetched "@ + dec_str(0)
                                + " commits"@
                        },
                    })
                    &&& *final(self) == (Tui {
                        searched_user: final(self).searched_user,
                        layout: final(self).layout,
                        status_text: final(self).status_text,
                        ..*old(self)
                    })
                })
            }),
    {
        let n: usize;
        if self.show_su_data() {
            let su_opt = self.searched_user.take();
            match su_opt {
                Some(mut su) => {
                    match su.selected_repo_index() {
                        Some(ix) => {
                            proof {
                                lemma_repo_ix(su.user.repos@, ix as int);
                            }
                            n = commits.len();
                            let ghost pre = su.user.repos@;
                            let slot = &mut su.user.repos[ix];
                            slot.commits = commits;
                            proof {
                                assert forall|a: int, b: int|
                                    0 <= a < b < su.user.repos@.len() implies su.user.repos@[
                                    a
                                ].name@ != su.user.repos@[b].name@ by {
                                    assert(pre[a].name@ != pre[b].name@);
                                }
                            }
                            su.commit_list = StateL { selected: None, items_len: n };
                            self.searched_user = Some(su);
                        },
                        None => {
                            n = 0;
                            su.commit_list = StateL { selected: None, items_len: 0 };
                            self.searched_user = Some(su);
                        },
                    }
                },
                None => {
                    n = 0;
                    self.searched_user = None;
                },
            }
        } else {
            match self.selected_repo_name_user() {
                Some(nm) => {
                    match self.user.git.repo_index(nm.as_str()) {
                        Some(ix) => {
                            proof {
                                lemma_repo_ix(self.user.git.repos@, ix as int);
                            }
                            n = commits.len();
                            let ghost pre = self.user.git.repos@;
                            let slot = &mut self.user.git.repos[ix];
                            slot.commits = commits;
                            proof {
                                assert forall|a: int, b: int|
                                    0 <= a < b < self.user.git.repos@.len() implies self.user.git.repos@[
                                    a
                                ].name@ != self.user.git.repos@[b].name@ by {
                                    assert(pre[a].name@ != pre[b].name@);
                                }
                            }
                        },
                        None => {
                            n = 0;
                        },
                    }
                },
                None => {
                    n = 0;
                },
            }
            self.commit_list = StateL { selected: None, items_len: n };
        }
        self.layout.next_col();
        let msg: String = fetched_commits_msg(n as u64);
        self.status_text = msg;
    }
}

impl Tui {
    /// Reacts to activating the commit panel: a first activation only
    /// selects the first commit; otherwise the selected commit's detail is
    /// either already cached (nothing happens) or, exactly when it is
    /// absent, a fetch is requested by returning the account login, the
    /// repository name and the commit hash to fetch for.
    pub fn commit_select_step(&mut self) -> (r: Option<(String, String, String)>)
        requires
            old(self).inv(),
        ensures
            final(self).inv(),
            (!old(self).spec_show_su() && old(self).commit_list.selected is None) ==> r is None
                && *final(self) == (Tui {
                commit_list: next_sel(old(self).commit_list),
                ..*old(self)
            }),
            (!old(self).spec_show_su() && old(self).commit_list.selected is Some) ==> ({
                let ci = old(self).commit_list.selected->0 as int;
                match old(self).own_sel_name() {
                    Some(nm) => {
                        if repo_named(old(self).user.git.repos@, nm) {
                            let rp = old(self).user.git.repos@[repo_ix(
                                old(self).user.git.repos@,
                                nm,
                            )];
                            if ci < rp.commits@.len() && rp.commits@[ci].info is None {
                                r matches Some(t) && t.0@ == old(self).user.git.username@ && t.1@
                                    == nm && t.2@ == rp.commits@[ci].sha@ && *final(self) == *old(
                                    self,
                                )
                            } else {
                                r is None && *final(self) == *old(self)
                            }
                        } else {
                            r is None && *final(self) == *old(self)
                        }
                    },
                    None => r is None && *final(self) == *old(self),
                }
            }),
            (old(self).spec_show_su() && old(self).searched_user->0.commit_list.selected
                is None) ==> r is None && *final(self) == (Tui {
                searched_user: final(self).searched_user,
                ..*old(self)
            }) && (final(self).searched_user matches Some(sb) && sb == (SearchedUser {
                commit_list: next_sel(old(self).searched_user->0.commit_list),
                ..old(self).searched_user->0
            })),
            (old(self).spec_show_su() && old(self).searched_user->0.commit_list.selected
                is Some) ==> ({
                let sa = old(self).searched_user->0;
                let ci = sa.commit_list.selected->0 as int;
                &&& final(self).searched_user is Some
                &&& ({
                    let sb = final(self).searched_user->0;
                    &&& sb.user == sa.user
                    &&& sb.commit_list == sa.commit_list
                    &&& sb.repo_list.list == sa.repo_list.list
                    &&& sb.repo_list.filter == sa.repo_list.filter
                    &&& *final(self) == (Tui {
                        searched_user: final(self).searched_user,
                        ..*old(self)
                    })
                    &&& (match sa.sel_filtered_name() {
                        Some(nm) => {
                            if repo_named(sa.user.repos@, nm) {
                                let rp = sa.user.repos@[repo_ix(sa.user.repos@, nm)];
                                if ci < rp.commits@.len() && rp.commits@[ci].info is None {
                                    r matches Some(t) && t.0@ == sa.user.username@ && t.1@ == nm
                                        && t.2@ == rp.commits@[ci].sha@
                                } else {
                                    r is None
                                }
                            } else {
                                r is None
                            }
                        },
                        None => r is None,
                    })
                })
            }),
    {
        if self.show_su_data() {
            let su_opt = self.searched_user.take();
            match su_opt {
                Some(mut su) => {
                    match su.commit_list.get_selected_index() {
                        None => {
                            su.commit_list.next();
                            self.searched_user = Some(su);
                            None
                        },
                        Some(ci) => {
                            let r: Option<(String, String, String)> = match su
                                .selected_repo_index() {
                                Some(ix) => {
                                    proof {
                                        lemma_repo_ix(su.user.repos@, ix as int);
                                    }
                                    if ci < su.user.repos[ix].commits.len() {
                                        if su.user.repos[ix].commits[ci].info.is_none() {
                                            Some(
                                                (
                                                    su.user.username.clone(),
                                                    su.user.repos[ix].name.clone(),
                                                    su.user.repos[ix].commits[ci].sha.clone(),
                                                ),
                                            )
                                        } else {
                                            None
                                        }
                                    } else {
                                        None
                                    }
                                },
                                None => None,
                            };
                            self.searched_user = Some(su);
                            r
                        },
                    }
                },
                None => {
                    self.searched_user = None;
                    None
                },
            }
        } else {
            match self.commit_list.get_selected_index() {
                None => {
                    self.commit_list.next();
                    None
                },
                Some(ci) => {
                    match self.selected_repo_name_user() {
                        None => None,
                        Some(nm) => {
                            match self.user.git.repo_index(nm.as_str()) {
                                None => None,
                                Some(ix) => {
                                    proof {
                                        lemma_repo_ix(self.user.git.repos@, ix as int);
                                    }
                                    if ci < self.user.git.repos[ix].commits.len() {
                                        if self.user.git.repos[ix].commits[ci].info.is_none() {
                                            Some(
                                                (
                                                    self.user.git.username.clone(),
                                                    nm,
                                                    self.user.git.repos[ix].commits[
                                                        ci
                                                    ].sha.clone(),
                                                ),
                                            )
                                        } else {
                                            None
                                        }
                                    } else {
                                        None
                                    }
                                },
                            }
                        },
                    }
                },
            }
        }
    }

    /// Stores a fetched commit detail in the selected commit and reports
    /// `Fetched commit info for S`, `S` being the abbreviated hash; when
    /// the selection vanished nothing changes.
    pub fn finish_commit_select(&mut self, info: CommitInfo)
        requires
            old(self).inv(),
            old(self).cur_commit_sel().selected is Some,
        ensures
            final(self).inv(),
            !old(self).spec_show_su() ==> ({
                let ci = old(self).commit_list.selected->0 as int;
                match old(self).own_sel_name() {
                    Some(nm) => {
                        if repo_named(old(self).user.git.repos@, nm) && ci < old(
                            self,
                        ).user.git.repos@[repo_ix(old(self).user.git.repos@, nm)].commits@.len() {
                            &&& info_stored(
                                old(self).user.git.repos@,
                                final(self).user.git.repos@,
                                repo_ix(old(self).user.git.repos@, nm),
                                ci,
                                info,
                            )
                            &&& final(self).status_text@ == "Fetched commit info for "@
                                + crate::git::sha_abbrev(
                                old(self).user.git.repos@[repo_ix(
                                    old(self).user.git.repos@,
                                    nm,
                                )].commits@[ci].sha@,
                            )
                            &&& *final(self) == (Tui {
                                user: final(self).user,
                                status_text: final(self).status_text,
                                ..*old(self)
                            })
                        } else {
                            *final(self) == *old(self)
                        }
                    },
                    None => *final(self) == *old(self),
                }
            }),
            old(self).spec_show_su() ==> ({
                let sa = old(self).searched_user->0;
                let ci = sa.commit_list.selected->0 as int;
                &&& final(self).searched_user is Some
                &&& ({
                    let sb = final(self).searched_user->0;
                    &&& sb.commit_list == sa.commit_list
                    &&& sb.repo_list.list == sa.repo_list.list
                    &&& sb.repo_list.filter == sa.repo_list.filter
                    &&& sb.user.username == sa.user.username
                    &&& *final(self) == (Tui {
                        searched_user: final(self).searched_user,
                        status_text: final(self).status_text,
                        ..*old(self)
                    })
                    &&& (match sa.sel_filtered_name() {
                        Some(nm) => {
                            if repo_named(sa.user.repos@, nm) && ci < sa.user.repos@[repo_ix(
                                sa.user.repos@,
                                nm,
                            )].commits@.len() {
                                &&& info_stored(
                                    sa.user.repos@,
                                    sb.user.repos@,
                                    repo_ix(sa.user.repos@, nm),
                                    ci,
                                    info,
                                )
                                &&& final(self).status_text@ == "Fetched commit info for "@
                                    + crate::git::sha_abbrev(
                                    sa.user.repos@[repo_ix(sa.user.repos@, nm)].commits@[ci].sha@,
                                )
                            } else {
                                &&& sb.user == sa.user
                                &&& final(self).status_text == old(self).status_text
                            }
                        },
                        None => sb.user == sa.user && final(self).status_text == old(
                            self,
                        ).status_text,
                    })
                })
            }),
    {
        if self.show_su_data() {
            let su_opt = self.searched_user.take();
            match su_opt {
                Some(mut su) => {
                    let ci_opt = su.commit_list.get_selected_index();
                    match ci_opt {
                        Some(ci) => {
                            match su.selected_repo_index() {
                                Some(ix) => {
                                    proof {
                                        lemma_repo_ix(su.user.repos@, ix as int);
                                    }
                                    if ci < su.user.repos[ix].commits.len() {
                                        let sh: String = su.user.repos[ix].commits[
                                            ci
                                        ].sha_short();
                                        let ghost pre = su.user.repos@;
                                        let repo_ref = &mut su.user.repos[ix];
                                        let c_ref = &mut repo_ref.commits[ci];
                                        c_ref.info = Some(info);
                                        proof {
                                            assert forall|a: int, b: int|
                                                0 <= a < b < su.user.repos@.len() implies su.user.repos@[
                                                a
                                            ].name@ != su.user.repos@[b].name@ by {
                                                assert(pre[a].name@ != pre[b].name@);
                                            }
                                        }
                                        self.searched_user = Some(su);
                                        let msg: String = fetched_info_msg(&sh);
                                        self.status_text = msg;
                                    } else {
                                        self.searched_user = Some(su);
                                    }
                                },
                                None => {
                                    self.searched_user = Some(su);
                                },
                            }
                        },
                        None => {
                            self.searched_user = Some(su);
                        },
                    }
                },
                None => {
                    self.searched_user = None;
                },
            }
        } else {
            match self.commit_list.get_selected_index() {
                Some(ci) => {
                    match self.selected_repo_name_user() {
                        Some(nm) => {
                            match self.user.git.repo_index(nm.as_str()) {
                                Some(ix) => {
                                    proof {
                                        lemma_repo_ix(self.user.git.repos@, ix as int);
                                    }
                                    if ci < self.user.git.repos[ix].commits.len() {
                                        let sh: String = self.user.git.repos[ix].commits[
                                            ci
                                        ].sha_short();
                                        let ghost pre = self.user.git.repos@;
                                        let repo_ref = &mut self.user.git.repos[ix];
                                        let c_ref = &mut repo_ref.commits[ci];
                                        c_ref.info = Some(info);
                                        proof {
                                            assert forall|a: int, b: int|
                                                0 <= a < b < self.user.git.repos@.len() implies self.user.git.repos@[
                                                a
                                            ].name@ != self.user.git.repos@[b].name@ by {
                                                assert(pre[a].name@ != pre[b].name@);
                                            }
                                        }
                                        let msg: String = fetched_info_msg(&sh);
                                        self.status_text = msg;
                                    }
                                },
                                None => {
                                },
                            }
                        },
                        None => {
                        },
                    }
                },
                None => {
                },
            }
        }
    }
}

/// Replaces a profile's repository map with the given listing, keyed by
/// name as a map insert would: afterwards a name is present exactly when
/// the listing carries it, and every entry comes from the listing.
fn rebuild_repos(g: &mut GitUser, repos: Vec<Repo>)
    ensures
        final(g).username == old(g).username,
        final(g).name == old(g).name,
        final(g).email == old(g).email,
        final(g).bio == old(g).bio,
        final(g).repos_wf(),
        forall|nm: Seq<char>| #[trigger] repo_named(final(g).repos@, nm) <==> (exists|t: int|
            0 <= t < repos@.len() && #[trigger] repos@[t].name@ == nm),
        forall|k: int|
            0 <= k < final(g).repos@.len() ==> repos@.contains(#[trigger] final(g).repos@[k]),
{
    g.repos = Vec::new();
    let n: usize = repos.len();
    let mut rem = repos;
    let ghost all = rem@;
    while rem.len() > 0
        invariant
            all.len() == n,
            rem@.len() <= n,
            rem@ == all.subrange((n - rem@.len()) as int, n as int),
            g.repos_wf(),
            g.username == old(g).username,
            g.name == old(g).name,
            g.email == old(g).email,
            g.bio == old(g).bio,
            forall|nm: Seq<char>| #[trigger] repo_named(g.repos@, nm) <==> (exists|t: int|
                0 <= t < n - rem@.len() && #[trigger] all[t].name@ == nm),
            forall|k: int|
                0 <= k < g.repos@.len() ==> all.subrange(0, (n - rem@.len()) as int).contains(
                    #[trigger] g.repos@[k],
                ),
        decreases rem@.len(),
    {
        let ghost i = n - rem@.len();
        let ghost pre = g.repos@;
        let rp = rem.remove(0);
        let ghost rpv = rp;
        proof {
            assert(rpv == all[i]);
            assert(rem@ =~= all.subrange(i + 1, n as int));
        }
        g.insert_repo(rp);
        proof {
            assert forall|nm: Seq<char>| #[trigger] repo_named(g.repos@, nm) implies (exists|
                t: int,
            | 0 <= t < i + 1 && #[trigger] all[t].name@ == nm) by {
                let w = choose|w: int| 0 <= w < g.repos@.len() && g.repos@[w].name@ == nm;
                if repo_named(pre, rpv.name@) {
                    let j = choose|j: int|
                        0 <= j < pre.len() && pre[j].name@ == rpv.name@ && g.repos@ == pre.update(
                            j,
                            rpv,
                        );
                    if w == j {
                        assert(all[i].name@ == nm);
                    } else {
                        assert(g.repos@[w] == pre[w]);
                        assert(repo_named(pre, nm));
                    }
                } else {
                    assert(g.repos@ == pre.push(rpv));
                    if w < pre.len() {
                        assert(g.repos@[w] == pre[w]);
                        assert(repo_named(pre, nm));
                    } else {
                        assert(all[i].name@ == nm);
                    }
                }
            }
            assert forall|nm: Seq<char>|
                (exists|t: int| 0 <= t < i + 1 && #[trigger] all[t].name@ == nm) implies #[trigger]
                repo_named(g.repos@, nm) by {
                let t = choose|t: int| 0 <= t < i + 1 && all[t].name@ == nm;
                if repo_named(pre, rpv.name@) {
                    let j = choose|j: int|
                        0 <= j < pre.len() && pre[j].name@ == rpv.name@ && g.repos@ == pre.update(
                            j,
                            rpv,
                        );
                    if t < i {
                        assert(repo_named(pre, nm));
                        let w = choose|w: int| 0 <= w < pre.len() && pre[w].name@ == nm;
                        if w == j {
                            assert(g.repos@[j].name@ == nm);
                        } else {
                            assert(g.repos@[w].name@ == nm);
                        }
                    } else {
                        assert(g.repos@[j].name@ == nm);
                    }
                } else {
                    assert(g.repos@ == pre.push(rpv));
                    if t < i {
                        assert(repo_named(pre, nm));
                        let w = choose|w: int| 0 <= w < pre.len() && pre[w].name@ == nm;
                        assert(g.repos@[w].name@ == nm);
                    } else {
                        assert(g.repos@[pre.len() as int].name@ == nm);
                    }
                }
            }
            assert forall|k: int| 0 <= k < g.repos@.len() implies all.subrange(
                0,
                i + 1,
            ).contains(#[trigger] g.repos@[k]) by {
                let fresh = all.subrange(0, i + 1);
                assert(fresh[i] == all[i]);
                if repo_named(pre, rpv.name@) {
                    let j = choose|j: int|
                        0 <= j < pre.len() && pre[j].name@ == rpv.name@ && g.repos@ == pre.update(
                            j,
                            rpv,
                        );
                    if k == j {
                        assert(g.repos@[k] == all[i]);
                        assert(fresh.contains(g.repos@[k]));
                    } else {
                        assert(g.repos@[k] == pre[k]);
                        assert(all.subrange(0, i).contains(pre[k]));
                        let t0 = choose|t0: int|
                            0 <= t0 < i && all.subrange(0, i)[t0] == pre[k];
                        assert(fresh[t0] == all[t0]);
                        assert(fresh.contains(g.repos@[k]));
                    }
                } else {
                    assert(g.repos@ == pre.push(rpv));
                    if k < pre.len() {
                        assert(g.repos@[k] == pre[k]);
                        assert(all.subrange(0, i).contains(pre[k]));
                        let t0 = choose|t0: int|
                            0 <= t0 < i && all.subrange(0, i)[t0] == pre[k];
                        assert(fresh[t0] == all[t0]);
                        assert(fresh.contains(g.repos@[k]));
                    } else {
                        assert(g.repos@[k] == all[i]);
                        assert(fresh.contains(g.repos@[k]));
                    }
                }
            }
        }
    }
    proof {
        assert(all.subrange(0, n as int) =~= all);
    }
}

impl Tui {
    /// Decides a confirmed search: when the searched username is the
    /// already-searched account (case-insensitively), only the repo filter
    /// is renewed and its data shown; otherwise the username to look up is
    /// returned and nothing changes yet.
    pub fn search_step(&mut self) -> (r: Option<String>)
        ensures
            (old(self).searched_user matches Some(sa) && lower_of(old(self).search_user@)
                == lower_of(sa.user.username@)) ==> {
                &&& r is None
                &&& *final(self) == (Tui {
                    searched_user: final(self).searched_user,
                    show_user_data: false,
                    layout: final(self).layout,
                    ..*old(self)
                })
                &&& (final(self).searched_user matches Some(sb) && sb == (SearchedUser {
                    repo_list: (FilterList {
                        filter: old(self).search_repo,
                        ..old(self).searched_user->0.repo_list
                    }),
                    ..old(self).searched_user->0
                }))
                &&& final(self).layout@ == (LayoutV { sub_active: false, ..old(self).layout@ })
            },
            !(old(self).searched_user matches Some(sa) && lower_of(old(self).search_user@)
                == lower_of(sa.user.username@)) ==> (r matches Some(u)
                && u@ == old(self).search_user@ && *final(self) == *old(self)),
    {
        let su_opt = self.searched_user.take();
        match su_opt {
            Some(mut su) => {
                let a: String = to_lower(self.search_user.as_str());
                let b: String = to_lower(su.user.username.as_str());
                if str_eq(a.as_str(), b.as_str()) {
                    su.repo_list.set_filter(self.search_repo.clone());
                    self.searched_user = Some(su);
                    self.show_user_data = false;
                    self.layout.unselect_layout();
                    None
                } else {
                    self.searched_user = Some(su);
                    Some(self.search_user.clone())
                }
            },
            None => {
                self.searched_user = None;
                Some(self.search_user.clone())
            },
        }
    }

    /// Applies a search's outcome. A found profile, with the repository
    /// listing fetched for it, replaces the searched account wholesale:
    /// its map holds exactly the listed names, its data is shown under the
    /// renewed filter, and the status reports the find. A miss clears the
    /// searched account and reports it.
    pub fn apply_search(&mut self, found: Option<GitUser>, repos: Vec<Repo>)
        requires
            old(self).inv(),
        ensures
            final(self).inv(),
            found is None ==> *final(self) == (Tui {
                searched_user: None,
                status_text: final(self).status_text,
                ..*old(self)
            }) && final(self).status_text@ == "No user found with '"@ + old(self).search_user@
                + "'"@,
            found matches Some(g) ==> {
                &&& final(self).searched_user is Some
                &&& ({
                    let sb = final(self).searched_user->0;
                    &&& sb.user.username == g.username
                    &&& sb.user.name == g.name
                    &&& sb.user.email == g.email
                    &&& sb.user.bio == g.bio
                    &&& sb.user.repos_wf()
                    &&& (forall|nm: Seq<char>| #[trigger] repo_named(sb.user.repos@, nm) <==> (
                    exists|t: int| 0 <= t < repos@.len() && #[trigger] repos@[t].name@ == nm))
                    &&& (forall|k: int|
                        0 <= k < sb.user.repos@.len() ==> repos@.contains(
                            #[trigger] sb.user.repos@[k],
                        ))
                    &&& names_of_repos(sb.repo_list.list.deep_view(), sb.user.repos@)
                    &&& sb.repo_list.filter == old(self).search_repo
                    &&& sb.commit_list == (StateL { selected: None, items_len: 0 })
                    &&& *final(self) == (Tui {
                        searched_user: final(self).searched_user,
                        show_user_data: false,
                        layout: final(self).layout,
                        status_text: final(self).status_text,
                        ..*old(self)
                    })
                    &&& final(self).layout@ == (LayoutV {
                        sub_active: false,
                        ..old(self).layout@
                    })
                    &&& final(self).status_text@ == "Found user "@ + old(self).search_user@
                        + " with "@ + dec_str(sb.user.repos@.len()) + " repos"@
                })
            },
    {
        match found {
            Some(mut g) => {
                rebuild_repos(&mut g, repos);
                let count: usize = g.repos.len();
                let found_su = SearchedUser::new(g, self.search_repo.clone());
                let msg: String = found_user_msg(&self.search_user, count as u64);
                self.status_text = msg;
                self.searched_user = Some(found_su);
                let su_opt = self.searched_user.take();
                match su_opt {
                    Some(mut su) => {
                        su.repo_list.set_filter(self.search_repo.clone());
                        self.searched_user = Some(su);
                    },
                    None => {
                        self.searched_user = None;
                    },
                }
                self.show_user_data = false;
                self.layout.unselect_layout();
            },
            None => {
                let msg: String = no_user_msg(&self.search_user);
                self.status_text = msg;
                self.searched_user = None;
            },
        }
    }
}

/// What an activate keypress does, by the active panel's role: descend
/// into the search group, toggle or confirm text input, or hand back the
/// cache operation to run.
impl Tui {
    pub fn handle_enter(&mut self) -> (r: Act)
        ensures
            active_role(old(self).layout@) == Some(BlockType::Repos) ==> r == Act::RepoSelect
                && *final(self) == *old(self),
            active_role(old(self).layout@) == Some(BlockType::Commits) ==> r == Act::CommitSelect
                && *final(self) == *old(self),
            active_role(old(self).layout@) == Some(BlockType::Search) ==> r == Act::Idle
                && *final(self) == (Tui { layout: final(self).layout, ..*old(self) })
                && final(self).layout@ == crate::layout::select_layout_v(old(self).layout@),
            (active_role(old(self).layout@) == Some(BlockType::SearchUser) || active_role(
                old(self).layout@,
            ) == Some(BlockType::SearchRepo)) ==> (if old(self).mode == Mode::Input {
                r == Act::RunSearch && *final(self) == (Tui { mode: Mode::Tui, ..*old(self) })
            } else {
                r == Act::Idle && *final(self) == (Tui { mode: Mode::Input, ..*old(self) })
            }),
            (match active_role(old(self).layout@) {
                Some(BlockType::Profile) => true,
                Some(BlockType::Info) => true,
                Some(BlockType::CommitInfo) => true,
                Some(BlockType::Default) => true,
                None => true,
                _ => false,
            }) ==> r == Act::Idle && *final(self) == *old(self),
    {
        let bt: Option<BlockType> = match self.layout.active_block() {
            Some(b) => Some(b.block_type()),
            None => None,
        };
        match bt {
            Some(BlockType::Repos) => Act::RepoSelect,
            Some(BlockType::Commits) => Act::CommitSelect,
            Some(BlockType::Search) => {
                self.layout.select_layout();
                Act::Idle
            },
            Some(BlockType::SearchUser) | Some(BlockType::SearchRepo) => {
                match self.mode {
                    Mode::Input => {
                        self.mode = Mode::Tui;
                        Act::RunSearch
                    },
                    Mode::Tui => {
                        self.mode = Mode::Input;
                        Act::Idle
                    },
                }
            },
            _ => Act::Idle,
        }
    }
}

/// A semantic input event, as the key-decoding layer delivers it.
#[derive(PartialEq, Eq, Structural, Clone, Copy, Debug)]
pub enum Key {
    Up,
    Down,
    Left,
    Right,
    Enter,
    Tab,
    Esc,
    Backspace,
    Char(char),
}

/// Appends one character to a text buffer.
fn push_char(s: &mut String, c: char)
    ensures
        final(s)@ == old(s)@.push(c),
{
    let mut v: Vec<char> = to_chars(s.as_str());
    v.push(c);
    *s = chars_to_string(&v);
}

/// Removes the last character of a text buffer, if any.
fn pop_char(s: &mut String)
    ensures
        old(s)@.len() > 0 ==> final(s)@ == old(s)@.drop_last(),
        old(s)@.len() == 0 ==> final(s)@ == old(s)@,
{
    let mut v: Vec<char> = to_chars(s.as_str());
    if v.len() > 0 {
        v.pop();
        proof {
            assert(v@ =~= old(s)@.drop_last());
        }
        *s = chars_to_string(&v);
    }
}

impl Tui {
    /// Handles one key in navigation mode. The first component of the
    /// result asks the event loop to quit; the second carries the cache
    /// operation an activate key decided on.
    pub fn handle_key_tui(&mut self, key: Key) -> (r: (bool, Act))
        ensures
            key == Key::Char('q') ==> r == (true, Act::Idle) && *final(self) == *old(self),
            (key == Key::Up || key == Key::Char('k')) ==> r == (false, Act::Idle) && (match
                active_role(old(self).layout@) {
                Some(BlockType::Repos) => repo_nav_effect(*old(self), *final(self), false),
                Some(BlockType::Commits) => commit_nav_effect(*old(self), *final(self), false),
                _ => *final(self) == *old(self),
            }),
            (key == Key::Down || key == Key::Char('j')) ==> r == (false, Act::Idle) && (match
                active_role(old(self).layout@) {
                Some(BlockType::Repos) => repo_nav_effect(*old(self), *final(self), true),
                Some(BlockType::Commits) => commit_nav_effect(*old(self), *final(self), true),
                _ => *final(self) == *old(self),
            }),
            (key == Key::Left || key == Key::Char('h')) ==> r == (false, Act::Idle)
                && *final(self) == (Tui { layout: final(self).layout, ..*old(self) })
                && final(self).layout@ == crate::layout::prev_block_v(old(self).layout@),
            (key == Key::Right || key == Key::Char('l')) ==> r == (false, Act::Idle)
                && *final(self) == (Tui { layout: final(self).layout, ..*old(self) })
                && final(self).layout@ == crate::layout::next_block_v(old(self).layout@),
            (key == Key::Enter || key == Key::Tab) ==> r.0 == false && final(self).status_text@
                == Seq::<char>::empty() && (match active_role(old(self).layout@) {
                Some(BlockType::Repos) => r.1 == Act::RepoSelect && *final(self) == (Tui {
                    status_text: final(self).status_text,
                    ..*old(self)
                }),
                Some(BlockType::Commits) => r.1 == Act::CommitSelect && *final(self) == (Tui {
                    status_text: final(self).status_text,
                    ..*old(self)
                }),
                Some(BlockType::Search) => r.1 == Act::Idle && *final(self) == (Tui {
                    layout: final(self).layout,
                    status_text: final(self).status_text,
                    ..*old(self)
                }) && final(self).layout@ == crate::layout::select_layout_v(old(self).layout@),
                Some(BlockType::SearchUser) | Some(BlockType::SearchRepo) => (if old(self).mode
                    == Mode::Input {
                    r.1 == Act::RunSearch && *final(self) == (Tui {
                        mode: Mode::Tui,
                        status_text: final(self).status_text,
                        ..*old(self)
                    })
                } else {
                    r.1 == Act::Idle && *final(self) == (Tui {
                        mode: Mode::Input,
                        status_text: final(self).status_text,
                        ..*old(self)
                    })
                }),
                _ => r.1 == Act::Idle && *final(self) == (Tui {
                    status_text: final(self).status_text,
                    ..*old(self)
                }),
            }),
            key == Key::Esc ==> r == (false, Act::Idle) && final(self).status_text@
                == Seq::<char>::empty() && (if old(self).layout@.sub_active {
                *final(self) == (Tui {
                    layout: final(self).layout,
                    status_text: final(self).status_text,
                    ..*old(self)
                }) && final(self).layout@ == (LayoutV {
                    sub_active: false,
                    ..old(self).layout@
                })
            } else if old(self).layout@.active_col == 0 {
                *final(self) == (Tui {
                    show_user_data: true,
                    layout: final(self).layout,
                    status_text: final(self).status_text,
                    ..*old(self)
                }) && final(self).layout@ == old(self).layout@
            } else {
                *final(self) == (Tui {
                    layout: final(self).layout,
                    status_text: final(self).status_text,
                    ..*old(self)
                }) && final(self).layout@ == crate::layout::prev_col_v(old(self).layout@)
            }),
            key == Key::Backspace ==> r == (false, Act::Idle) && *final(self) == *old(self),
            (key matches Key::Char(c) && c != 'q' && c != 'k' && c != 'j' && c != 'h' && c != 'l')
                ==> r == (false, Act::Idle) && *final(self) == *old(self),
    {
        match key {
            Key::Char('q') => (true, Act::Idle),
            Key::Up | Key::Char('k') => {
                let bt: Option<BlockType> = match self.layout.active_block() {
                    Some(b) => Some(b.block_type()),
                    None => None,
                };
                match bt {
                    Some(BlockType::Repos) => self.repo_list_prev(),
                    Some(BlockType::Commits) => self.commit_list_prev(),
                    _ => {
                    },
                }
                (false, Act::Idle)
            },
            Key::Down | Key::Char('j') => {
                let bt: Option<BlockType> = match self.layout.active_block() {
                    Some(b) => Some(b.block_type()),
                    None => None,
                };
                match bt {
                    Some(BlockType::Repos) => self.repo_list_next(),
                    Some(BlockType::Commits) => self.commit_list_next(),
                    _ => {
                    },
                }
                (false, Act::Idle)
            },
            Key::Left | Key::Char('h') => {
                self.layout.prev_block();
                (false, Act::Idle)
            },
            Key::Right | Key::Char('l') => {
                self.layout.next_block();
                (false, Act::Idle)
            },
            Key::Enter | Key::Tab => {
                self.set_status(String::new());
                let act: Act = self.handle_enter();
                (false, act)
            },
            Key::Esc => {
                self.set_status(String::new());
                if !self.layout.unselect_layout() {
                    let at_first_col: bool = self.layout.active_block_pos().col == 0;
                    if at_first_col {
                        self.show_user_data = true;
                    } else {
                        self.layout.prev_col();
                    }
                }
                (false, Act::Idle)
            },
            _ => (false, Act::Idle),
        }
    }

    /// Handles one key in text-input mode: characters and backspace edit
    /// the search field under focus, arrows move it, an activate key
    /// confirms, and escape leaves input mode.
    pub fn handle_key_input(&mut self, key: Key) -> (r: Act)
        ensures
            key == Key::Backspace ==> r == Act::Idle && (match active_role(old(self).layout@) {
                Some(BlockType::SearchUser) => *final(self) == (Tui {
                    search_user: final(self).search_user,
                    ..*old(self)
                }) && (if old(self).search_user@.len() > 0 {
                    final(self).search_user@ == old(self).search_user@.drop_last()
                } else {
                    final(self).search_user@ == old(self).search_user@
                }),
                Some(BlockType::SearchRepo) => *final(self) == (Tui {
                    search_repo: final(self).search_repo,
                    ..*old(self)
                }) && (if old(self).search_repo@.len() > 0 {
                    final(self).search_repo@ == old(self).search_repo@.drop_last()
                } else {
                    final(self).search_repo@ == old(self).search_repo@
                }),
                _ => *final(self) == *old(self),
            }),
            key matches Key::Char(c) ==> r == Act::Idle && (match active_role(
                old(self).layout@,
            ) {
                Some(BlockType::SearchUser) => *final(self) == (Tui {
                    search_user: final(self).search_user,
                    ..*old(self)
                }) && final(self).search_user@ == old(self).search_user@.push(c),
                Some(BlockType::SearchRepo) => *final(self) == (Tui {
                    search_repo: final(self).search_repo,
                    ..*old(self)
                }) && final(self).search_repo@ == old(self).search_repo@.push(c),
                _ => *final(self) == *old(self),
            }),
            key == Key::Left ==> r == Act::Idle && *final(self) == (Tui {
                layout: final(self).layout,
                ..*old(self)
            }) && final(self).layout@ == crate::layout::prev_block_v(old(self).layout@),
            key == Key::Right ==> r == Act::Idle && *final(self) == (Tui {
                layout: final(self).layout,
                ..*old(self)
            }) && final(self).layout@ == crate::layout::next_block_v(old(self).layout@),
            (key == Key::Enter || key == Key::Tab) ==> (match active_role(old(self).layout@) {
                Some(BlockType::Repos) => r == Act::RepoSelect && *final(self) == *old(self),
                Some(BlockType::Commits) => r == Act::CommitSelect && *final(self) == *old(self),
                Some(BlockType::Search) => r == Act::Idle && *final(self) == (Tui {
                    layout: final(self).layout,
                    ..*old(self)
                }) && final(self).layout@ == crate::layout::select_layout_v(old(self).layout@),
                Some(BlockType::SearchUser) | Some(BlockType::SearchRepo) => (if old(self).mode
                    == Mode::Input {
                    r == Act::RunSearch && *final(self) == (Tui {
                        mode: Mode::Tui,
                        ..*old(self)
                    })
                } else {
                    r == Act::Idle && *final(self) == (Tui { mode: Mode::Input, ..*old(self) })
                }),
                _ => r == Act::Idle && *final(self) == *old(self),
            }),
            key == Key::Esc ==> r == Act::Idle && *final(self) == (Tui {
                mode: Mode::Tui,
                ..*old(self)
            }),
            (key == Key::Up || key == Key::Down) ==> r == Act::Idle
                && *final(self) == *old(self),
    {
        match key {
            Key::Backspace => {
                let bt: Option<BlockType> = match self.layout.active_block() {
                    Some(b) => Some(b.block_type()),
                    None => None,
                };
                match bt {
                    Some(BlockType::SearchUser) => pop_char(&mut self.search_user),
                    Some(BlockType::SearchRepo) => pop_char(&mut self.search_repo),
                    _ => {
                    },
                }
                Act::Idle
            },
            Key::Char(c) => {
                let bt: Option<BlockType> = match self.layout.active_block() {
                    Some(b) => Some(b.block_type()),
                    None => None,
                };
                match bt {
                    Some(BlockType::SearchUser) => push_char(&mut self.search_user, c),
                    Some(BlockType::SearchRepo) => push_char(&mut self.search_repo, c),
                    _ => {
                    },
                }
                Act::Idle
            },
            Key::Left => {
                self.layout.prev_block();
                Act::Idle
            },
            Key::Right => {
                self.layout.next_block();
                Act::Idle
            },
            Key::Enter | Key::Tab => self.handle_enter(),
            Key::Esc => {
                self.mode = Mode::Tui;
                Act::Idle
            },
            _ => Act::Idle,
        }
    }
}

/// Law: the absence of entries is the only fetch trigger. Once a fetch has
/// stored a non-empty commit list in a repository, entering its panel
/// again finds the cache populated - `repo_select_step` then requests no
/// fetch and serves exactly the stored list.
pub proof fn lemma_commits_fetched_once(
    pre: Seq<Repo>,
    post: Seq<Repo>,
    ix: int,
    commits: Vec<Commit>,
)
    requires
        commits_stored(pre, post, ix, commits),
        commits@.len() > 0,
    ensures
        post[ix].commits@ == commits@,
        post[ix].commits@.len() != 0,
        post[ix].name@ == pre[ix].name@,
{
}

} // verus!
