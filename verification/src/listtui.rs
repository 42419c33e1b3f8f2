//! Decision logic of the list-selection screen: which repository list is
//! shown, when a new profile lookup is needed, and which command a
//! selection turns into. The drawing and the key decoding live outside the
//! library.

use vstd::prelude::*;
use crate::command::{Cmd, CmdType};
use crate::cursor::Cursor;
use crate::filterlist::FilterList;
use crate::git::{User, GitUser, get_clone_url};
use crate::text::{to_lower, lower_of, trim_str, trimmed, str_eq};

verus! {

#[derive(PartialEq, Eq, Structural, Clone, Copy, Debug)]
pub enum GiermError {
    NotFoundError,
}

/// Whether the selector fills the screen or sits inline.
#[derive(PartialEq, Eq, Structural, Clone, Copy, Debug)]
pub enum ListTuiMode {
    Full,
    Inline,
}

/// Which text the selector's keys edit: the repository filter or the
/// username to search.
#[derive(PartialEq, Eq, Structural, Clone, Copy, Debug)]
pub enum InputMode {
    Repo,
    Username,
}

/// The list-selection screen's state: the account, the profile whose
/// repositories are listed (if any), and the filter list a clone target is
/// picked from.
pub struct ListSearchTui {
    pub user: User,
    pub git_user: Option<GitUser>,
    pub searched_username: String,
    pub list: FilterList,
    pub command: CmdType,
    pub mode: ListTuiMode,
    pub input_mode: InputMode,
    pub cursor: Cursor,
}

impl ListSearchTui {
    pub fn new(
        user: User,
        git_user: Option<GitUser>,
        searched_username: String,
        command: CmdType,
        list: FilterList,
    ) -> (r: Self)
        ensures
            r.user == user,
            r.git_user == git_user,
            r.searched_username == searched_username,
            r.command == command,
            r.list == list,
            r.mode == ListTuiMode::Full,
            r.input_mode == InputMode::Repo,
            r.cursor.offset == 0,
    {
        Self {
            user,
            git_user,
            searched_username,
            command,
            list,
            mode: ListTuiMode::Full,
            input_mode: InputMode::Repo,
            cursor: Cursor::new(),
        }
    }

    /// Whether the username under edit differs (case-insensitively,
    /// blanks trimmed) from the profile whose repositories are listed; it
    /// always differs when none is listed.
    pub open spec fn spec_changed_username(self) -> bool {
        match self.git_user {
            Some(u) => trimmed(lower_of(self.searched_username@)) != trimmed(
                lower_of(u.username@),
            ),
            None => true,
        }
    }

    /// Whether the username under edit differs (case-insensitively,
    /// blanks trimmed) from the profile whose repositories are listed.
    pub fn changed_username(&self) -> (r: bool)
        ensures
            r == self.spec_changed_username(),
    {
        match &self.git_user {
            Some(u) => {
                let a: String = to_lower(self.searched_username.as_str());
                let at: String = trim_str(a.as_str());
                let b: String = to_lower(u.username.as_str());
                let bt: String = trim_str(b.as_str());
                !str_eq(at.as_str(), bt.as_str())
            },
            None => true,
        }
    }

    /// The command a confirmed selection stands for: a `git clone` of the
    /// selected repository, over HTTPS for a searched profile and over
    /// SSH for the session owner's own listing; `None` without a
    /// selection.
    pub fn get_command(&mut self) -> (r: Option<Cmd>)
        ensures
            old(self).command != CmdType::CLONE ==> r is None && *final(self) == *old(self),
            old(self).command == CmdType::CLONE ==> {
                &&& final(self).user == old(self).user
                &&& final(self).git_user == old(self).git_user
                &&& final(self).list.list == old(self).list.list
                &&& final(self).list.filter == old(self).list.filter
                &&& (match old(self).list.state.selected {
                    Some(i) => {
                        if (i as int) < old(self).list.filtered_view().len() {
                            &&& r is Some
                            &&& r->0.cmd@ == "git"@
                            &&& r->0.args.deep_view().len() == 2
                            &&& r->0.args.deep_view()[0] == "clone"@
                            &&& r->0.args.deep_view()[1] == (match old(self).git_user {
                                Some(u) => "https://github.com/"@ + u.username@ + seq!['/']
                                    + old(self).list.filtered_view()[i as int] + ".git"@,
                                None => "git@github.com:"@ + old(self).user.git.username@ + seq![
                                    '/'
                                ] + old(self).list.filtered_view()[i as int] + ".git"@,
                            })
                        } else {
                            r is None
                        }
                    },
                    None => r is None,
                })
            },
    {
        match self.command {
            CmdType::CLONE => {
                match self.list.state.get_selected_index() {
                    Some(i) => {
                        let filtered: Vec<String> = self.list.get_filtered();
                        if i < filtered.len() {
                            let repo_name: &String = &filtered[i];
                            proof {
                                assert(filtered.deep_view()[i as int] == filtered@[i as int]@);
                            }
                            proof {
                                reveal_strlit("git@github.com:");
                                reveal_strlit("https://github.com/");
                            }
                            let url: String = match &self.git_user {
                                Some(u) => get_clone_url(&u.username, repo_name, false),
                                None => get_clone_url(&self.user.git.username, repo_name, true),
                            };
                            let mut cmd = Cmd::new_git_cmd(CmdType::CLONE);
                            cmd.push_arg(url);
                            proof {
                                assert(cmd.args.deep_view() =~= seq![
                                    cmd.args@[0]@,
                                    cmd.args@[1]@,
                                ]);
                            }
                            Some(cmd)
                        } else {
                            None
                        }
                    },
                    None => None,
                }
            },
            CmdType::DEFAULT => None,
        }
    }

    /// Shows a looked-up profile's repositories, or falls back to the
    /// session owner's and clears the searched username.
    pub fn update_selected_user(&mut self, new_gituser: Option<GitUser>)
        ensures
            final(self).user == old(self).user,
            final(self).command == old(self).command,
            final(self).mode == old(self).mode,
            final(self).input_mode == old(self).input_mode,
            final(self).cursor == old(self).cursor,
            final(self).list.filter@ == Seq::<char>::empty(),
            final(self).list.state.selected is None,
            match new_gituser {
                Some(gu) => {
                    &&& final(self).git_user == Some(gu)
                    &&& final(self).searched_username == old(self).searched_username
                    &&& final(self).list.list@.len() == gu.repos@.len()
                    &&& (forall|k: int|
                        0 <= k < gu.repos@.len() ==> final(self).list.list@[k]@ == gu.repos@[
                            k
                        ].name@)
                },
                None => {
                    &&& final(self).git_user is None
                    &&& final(self).searched_username@ == Seq::<char>::empty()
                    &&& final(self).list.list@.len() == old(self).user.git.repos@.len()
                    &&& (forall|k: int|
                        0 <= k < old(self).user.git.repos@.len() ==> final(self).list.list@[k]@
                            == old(self).user.git.repos@[k].name@)
                },
            },
    {
        match new_gituser {
            Some(gu) => {
                let names: Vec<String> = gu.repo_names();
                self.list.set_list(names);
                self.git_user = Some(gu);
            },
            None => {
                let names: Vec<String> = self.user.git.repo_names();
                self.searched_username = String::new();
                self.list.set_list(names);
                self.git_user = None;
            },
        }
    }

    /// Decides a username lookup: a blank username falls back to the
    /// owner's listing at once; otherwise the username to look up is
    /// returned and nothing changes yet.
    pub fn search_username_step(&mut self) -> (r: Option<String>)
        ensures
            trimmed(old(self).searched_username@).len() != 0 ==> (r matches Some(u)
                && u == old(self).searched_username && *final(self) == *old(self)),
            trimmed(old(self).searched_username@).len() == 0 ==> r is None
                && final(self).input_mode == InputMode::Repo && final(self).git_user is None
                && final(self).searched_username@ == Seq::<char>::empty()
                && final(self).list.filter@ == Seq::<char>::empty()
                && final(self).list.state.selected is None
                && final(self).user == old(self).user
                && final(self).list.list@.len() == old(self).user.git.repos@.len()
                && (forall|k: int|
                0 <= k < old(self).user.git.repos@.len() ==> #[trigger] final(self).list.list@[
                    k
                ]@ == old(self).user.git.repos@[k].name@),
    {
        let t: String = trim_str(self.searched_username.as_str());
        if t.as_str().is_empty() {
            self.update_selected_user(None);
            self.input_mode = InputMode::Repo;
            None
        } else {
            Some(self.searched_username.clone())
        }
    }

    /// Applies a username lookup's outcome: a found profile is listed and
    /// editing returns to the filter; a miss changes nothing.
    pub fn apply_username_search(&mut self, found: Option<GitUser>)
        ensures
            found is None ==> *final(self) == *old(self),
            found matches Some(gu) ==> final(self).git_user == Some(gu) && final(self).input_mode
                == InputMode::Repo && final(self).user == old(self).user
                && final(self).searched_username == old(self).searched_username
                && final(self).command == old(self).command
                && final(self).list.filter@ == Seq::<char>::empty()
                && final(self).list.state.selected is None
                && final(self).list.list@.len() == gu.repos@.len()
                && (forall|k: int|
                0 <= k < gu.repos@.len() ==> final(self).list.list@[k]@ == gu.repos@[k].name@),
    {
        match found {
            Some(gu) => {
                self.update_selected_user(Some(gu));
                self.input_mode = InputMode::Repo;
            },
            None => {
            },
        }
    }

    /// Moves editing between the filter and the username; confirming a
    /// changed username hands back the lookup to run, as
    /// `search_username_step` decides it.
    pub fn change_input_mode_step(&mut self) -> (r: Option<String>)
        ensures
            old(self).input_mode == InputMode::Repo ==> r is None && *final(self) == (
            ListSearchTui {
                input_mode: InputMode::Username,
                cursor: (Cursor { offset: 0 }),
                ..*old(self)
            }),
            (old(self).input_mode == InputMode::Username
                && !old(self).spec_changed_username()) ==> r is None && *final(self) == (
            ListSearchTui {
                input_mode: InputMode::Repo,
                cursor: (Cursor { offset: 0 }),
                ..*old(self)
            }),
            (old(self).input_mode == InputMode::Username && old(self).spec_changed_username()
                && trimmed(old(self).searched_username@).len() != 0) ==> (r matches Some(u)
                && u == old(self).searched_username && *final(self) == *old(self)),
            (old(self).input_mode == InputMode::Username && old(self).spec_changed_username()
                && trimmed(old(self).searched_username@).len() == 0) ==> r is None
                && final(self).input_mode == InputMode::Repo && final(self).git_user is None,
    {
        match self.input_mode {
            InputMode::Repo => {
                self.input_mode = InputMode::Username;
                self.cursor.reset();
                None
            },
            InputMode::Username => {
                if self.changed_username() {
                    self.search_username_step()
                } else {
                    self.input_mode = InputMode::Repo;
                    self.cursor.reset();
                    None
                }
            },
        }
    }

    /// Inserts a character at the cursor into the text under edit; out of
    /// range cursors insert nothing rather than fail.
    pub fn handle_input(&mut self, c: char)
        ensures
            old(self).input_mode == InputMode::Repo ==> final(self).searched_username == old(
                self,
            ).searched_username && (if old(self).cursor.offset <= old(self).list.filter@.len() {
                final(self).list.filter@ == old(self).list.filter@.insert(
                    old(self).list.filter@.len() - old(self).cursor.offset,
                    c,
                )
            } else {
                final(self).list.filter@ == old(self).list.filter@
            }),
            old(self).input_mode == InputMode::Username ==> final(self).list == old(self).list
                && (if old(self).cursor.offset <= old(self).searched_username@.len() {
                final(self).searched_username@ == old(self).searched_username@.insert(
                    old(self).searched_username@.len() - old(self).cursor.offset,
                    c,
                )
            } else {
                final(self).searched_username@ == old(self).searched_username@
            }),
    {
        match self.input_mode {
            InputMode::Repo => {
                let len: usize = crate::text::to_chars(self.list.filter.as_str()).len();
                if self.cursor.offset <= len {
                    self.cursor.insert_at_cursor(&mut self.list.filter, c);
                }
            },
            InputMode::Username => {
                let len: usize = crate::text::to_chars(self.searched_username.as_str()).len();
                if self.cursor.offset <= len {
                    self.cursor.insert_at_cursor(&mut self.searched_username, c);
                }
            },
        }
    }

    /// Removes the character before the cursor from the text under edit.
    pub fn handle_backspace(&mut self)
        ensures
            old(self).input_mode == InputMode::Repo ==> final(self).searched_username == old(
                self,
            ).searched_username && (if old(self).cursor.offset < old(self).list.filter@.len() {
                final(self).list.filter@ == old(self).list.filter@.remove(
                    old(self).list.filter@.len() - old(self).cursor.offset - 1,
                )
            } else {
                final(self).list.filter@ == old(self).list.filter@
            }),
            old(self).input_mode == InputMode::Username ==> final(self).list == old(self).list
                && (if old(self).cursor.offset < old(self).searched_username@.len() {
                final(self).searched_username@ == old(self).searched_username@.remove(
                    old(self).searched_username@.len() - old(self).cursor.offset - 1,
                )
            } else {
                final(self).searched_username@ == old(self).searched_username@
            }),
    {
        match self.input_mode {
            InputMode::Repo => {
                self.cursor.remove_at_cursor(&mut self.list.filter);
            },
            InputMode::Username => {
                self.cursor.remove_at_cursor(&mut self.searched_username);
            },
        }
    }
}

} // verus!
