//! The session controller: the fetch-once commit cache, search
//! replacement, role dispatch, and the list cursors.

use gierm::git::{User, GitUser, Repo, Commit, CommitInfo};
use gierm::tui::{
    Tui, SearchedUser, StateL, Mode, Act, Key, create_layout, fetched_commits_msg,
};
use gierm::layout::BlockType;

fn repo(name: &str, updated: &str) -> Repo {
    Repo::new(
        "owner".to_string(),
        name.to_string(),
        "".to_string(),
        "Rust".to_string(),
        "2020-01-01T00:00:00Z".to_string(),
        updated.to_string(),
    )
}

fn commit(sha: &str) -> Commit {
    Commit::new(
        format!("message {sha}"),
        sha.to_string(),
        "alice".to_string(),
        "2024-01-01T00:00:00Z".to_string(),
    )
}

fn session_with(names: &[&str]) -> Tui {
    let mut user = User::new("alice".to_string(), "token".to_string());
    for (i, n) in names.iter().enumerate() {
        user.git.insert_repo(repo(n, &format!("2024-01-0{}T00:00:00Z", i + 1)));
    }
    Tui::new(user, String::new(), String::new(), String::new())
}

#[test]
fn entering_an_uncached_repo_panel_fetches_exactly_once() {
    let mut t = session_with(&["gierm"]);
    t.repo_list_state.selected = Some(0);

    let first = t.repo_select_step();
    assert_eq!(first, Some(("owner".to_string(), "gierm".to_string())));

    t.finish_repo_select(vec![commit("s1"), commit("s2"), commit("s3")]);
    assert_eq!(t.status_text, "Fetched 3 commits");
    assert_eq!(t.commit_list.items_len, 3);
    assert_eq!(t.commit_list.selected, None);

    let second = t.repo_select_step();
    assert_eq!(second, None);
    assert_eq!(t.commit_list.items_len, 3);
    let stored = &t.user.git.get_repo("gierm").expect("cached").commits;
    assert_eq!(stored.len(), 3);
    assert_eq!(stored[0].sha, "s1");
}

#[test]
fn a_first_activation_only_selects_the_first_entry() {
    let mut t = session_with(&["gierm"]);
    assert_eq!(t.repo_list_state.selected, None);
    let r = t.repo_select_step();
    assert_eq!(r, None);
    assert_eq!(t.repo_list_state.selected, Some(0));
}

#[test]
fn commit_detail_is_fetched_once_and_remembered() {
    let mut t = session_with(&["gierm"]);
    t.repo_list_state.selected = Some(0);
    assert!(t.repo_select_step().is_some());
    t.finish_repo_select(vec![commit("0123456789abcdef")]);

    t.commit_list.selected = Some(0);
    let target = t.commit_select_step();
    assert_eq!(
        target,
        Some(("alice".to_string(), "gierm".to_string(), "0123456789abcdef".to_string()))
    );

    t.finish_commit_select(CommitInfo::new(4, 3, 1));
    assert_eq!(t.status_text, "Fetched commit info for 01234567");
    let c = &t.user.git.get_repo("gierm").expect("repo").commits[0];
    let info = c.info.as_ref().expect("stored");
    assert_eq!(info.total_changes, 4);

    let again = t.commit_select_step();
    assert_eq!(again, None);
}

#[test]
fn searching_a_new_username_replaces_the_profile_wholesale() {
    let mut t = session_with(&["own"]);
    t.search_user = "aaa".to_string();
    assert_eq!(t.search_step(), Some("aaa".to_string()));
    let gu_a = GitUser::new("aaa".to_string(), "".to_string(), "".to_string(), "".to_string());
    t.apply_search(Some(gu_a), vec![repo("a-only", "2024-01-01T00:00:00Z")]);
    let su = t.searched_user.as_ref().expect("searched");
    assert!(su.user.get_repo("a-only").is_some());
    assert_eq!(t.status_text, "Found user aaa with 1 repos");
    assert!(!t.show_user_data);

    t.search_user = "bbb".to_string();
    assert_eq!(t.search_step(), Some("bbb".to_string()));
    let gu_b = GitUser::new("bbb".to_string(), "".to_string(), "".to_string(), "".to_string());
    t.apply_search(
        Some(gu_b),
        vec![repo("b-one", "2024-01-01T00:00:00Z"), repo("b-two", "2024-02-01T00:00:00Z")],
    );
    let su = t.searched_user.as_ref().expect("searched");
    assert_eq!(su.user.username, "bbb");
    assert!(su.user.get_repo("a-only").is_none(), "stale names must be gone");
    assert!(su.user.get_repo("b-one").is_some());
    assert_eq!(t.status_text, "Found user bbb with 2 repos");
}

#[test]
fn a_miss_clears_the_searched_account() {
    let mut t = session_with(&["own"]);
    t.search_user = "nobody".to_string();
    t.apply_search(None, vec![]);
    assert!(t.searched_user.is_none());
    assert_eq!(t.status_text, "No user found with 'nobody'");
}

#[test]
fn searching_the_same_username_again_only_renews_the_filter() {
    let mut t = session_with(&["own"]);
    t.search_user = "AAA".to_string();
    let gu_a = GitUser::new("aaa".to_string(), "".to_string(), "".to_string(), "".to_string());
    t.apply_search(Some(gu_a), vec![repo("a-only", "2024-01-01T00:00:00Z")]);
    t.search_repo = "only".to_string();
    assert_eq!(t.search_step(), None, "case-insensitive match is handled locally");
    let su = t.searched_user.as_ref().expect("kept");
    assert_eq!(su.repo_list.filter, "only");
}

#[test]
fn activate_dispatches_by_role() {
    let mut t = session_with(&["own"]);
    assert_eq!(t.handle_enter(), Act::Idle);
    t.layout.next_block();
    assert_eq!(t.handle_enter(), Act::RepoSelect);
    t.layout.next_block();
    assert_eq!(t.handle_enter(), Act::Idle);
    assert_eq!(t.handle_enter(), Act::Idle);
    assert_eq!(t.mode, Mode::Input);
    assert_eq!(t.handle_enter(), Act::RunSearch);
    assert_eq!(t.mode, Mode::Tui);
}

#[test]
fn keys_navigate_and_edit() {
    let mut t = session_with(&["a", "b", "c"]);
    let (quit, _) = t.handle_key_tui(Key::Char('q'));
    assert!(quit);

    t.layout.next_block();
    let (_, act) = t.handle_key_tui(Key::Down);
    assert_eq!(act, Act::Idle);
    assert_eq!(t.repo_list_state.selected, Some(0));
    t.handle_key_tui(Key::Down);
    assert_eq!(t.repo_list_state.selected, Some(1));
    t.handle_key_tui(Key::Up);
    assert_eq!(t.repo_list_state.selected, Some(0));

    t.handle_key_tui(Key::Right);
    t.handle_key_tui(Key::Left);

    t.layout.next_block();
    t.handle_key_tui(Key::Enter);
    t.handle_key_tui(Key::Enter);
    assert_eq!(t.mode, Mode::Input);
    t.handle_key_input(Key::Char('b'));
    t.handle_key_input(Key::Char('o'));
    t.handle_key_input(Key::Char('b'));
    assert_eq!(t.search_user, "bob");
    t.handle_key_input(Key::Backspace);
    assert_eq!(t.search_user, "bo");
    t.handle_key_input(Key::Esc);
    assert_eq!(t.mode, Mode::Tui);
}

#[test]
fn escape_backs_out_of_columns_and_sublayouts() {
    let mut t = session_with(&["own"]);
    t.layout.next_block();
    t.layout.next_block();
    t.handle_key_tui(Key::Enter);
    assert!(t.layout.sublayout_active);
    t.handle_key_tui(Key::Esc);
    assert!(!t.layout.sublayout_active);
    t.show_user_data = false;
    t.handle_key_tui(Key::Esc);
    assert!(t.show_user_data, "escape in the first column shows the owner's data");
    t.layout.next_col();
    t.handle_key_tui(Key::Esc);
    assert_eq!(t.layout.active_block_pos().col, 0);
}

#[test]
fn list_cursor_wraps_and_clamps() {
    let mut s = StateL::new(3);
    assert_eq!(s.get_selected_index(), None);
    s.next();
    assert_eq!(s.get_selected_index(), Some(0));
    s.previous();
    assert_eq!(s.get_selected_index(), Some(2));
    s.next();
    assert_eq!(s.get_selected_index(), Some(0));
    s.new_size(0);
    assert_eq!(s.get_selected_index(), Some(0));
    let mut t = StateL::new(5);
    t.selected = Some(4);
    t.new_size(2);
    assert_eq!(t.selected, Some(2));
    let mut e = StateL::new(0);
    e.next();
    assert_eq!(e.get_selected_index(), None);
}

#[test]
fn searched_user_lists_names_newest_first() {
    let mut gu = GitUser::new("aaa".to_string(), "".to_string(), "".to_string(), "".to_string());
    gu.insert_repo(repo("old", "2020-01-01T00:00:00Z"));
    gu.insert_repo(repo("new", "2024-01-01T00:00:00Z"));
    let su = SearchedUser::new(gu, "".to_string());
    assert_eq!(su.repo_list.list, vec!["new".to_string(), "old".to_string()]);
    assert_eq!(su.commit_list.items_len, 0);
}

#[test]
fn status_message_for_zero_commits() {
    assert_eq!(fetched_commits_msg(0), "Fetched 0 commits");
    assert_eq!(fetched_commits_msg(12), "Fetched 12 commits");
}

#[test]
fn fresh_session_shows_the_owner() {
    let t = session_with(&["b", "a"]);
    assert!(t.show_user_data);
    assert!(t.searched_user.is_none());
    assert_eq!(t.mode, Mode::Tui);
    assert_eq!(t.repo_list.len(), 2);
    assert_eq!(t.repo_list_state.items_len, 2);
    let mut lo = gierm::layout::TuiLayout::new();
    create_layout(&mut lo);
    assert_eq!(
        lo.active_block().expect("active").block_type(),
        BlockType::Profile
    );
}
