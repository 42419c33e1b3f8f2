//! Text editing, filtering, completion, command assembly, and the
//! configuration reader.

use gierm::cursor::Cursor;
use gierm::command::{Cmd, CmdType, command_type};
use gierm::args::{command, Command, CLArgs};
use gierm::filterlist::FilterList;
use gierm::autocomplete::{AutoComplete, Match, CompletionError};
use gierm::config::{Config, config_from_lines};
use gierm::listtui::{ListSearchTui, InputMode, ListTuiMode};
use gierm::git::{User, GitUser, Repo};
use gierm::tui::StateL;

#[test]
fn cursor_edits_relative_to_the_end() {
    let mut c = Cursor::new();
    let mut s = "hello".to_string();
    c.insert_at_cursor(&mut s, '!');
    assert_eq!(s, "hello!");
    assert!(c.c_left(s.len()));
    assert!(c.c_left(s.len()));
    c.insert_at_cursor(&mut s, 'X');
    assert_eq!(s, "hellXo!");
    assert!(c.remove_at_cursor(&mut s));
    assert_eq!(s, "hello!");
    assert!(c.c_right());
    c.reset();
    assert_eq!(c.offset, 0);
    let mut empty = String::new();
    assert!(!c.remove_at_cursor(&mut empty));
    assert!(!c.c_right());
}

#[test]
fn commands_assemble_and_render() {
    assert!(matches!(command_type(&"clone".to_string()), Some(CmdType::CLONE)));
    assert!(command_type(&"pull".to_string()).is_none());
    assert_eq!(command(&"clone".to_string()), Some(Command::CLONE));
    assert_eq!(command(&"push".to_string()), None);

    let mut cmd = Cmd::new_git_cmd(CmdType::CLONE);
    cmd.push_arg("https://x/y.git".to_string());
    cmd.push_arg(String::new());
    assert_eq!(cmd.cmd, "git");
    assert_eq!(cmd.args, vec!["clone".to_string(), "https://x/y.git".to_string()]);
    assert_eq!(cmd.to_string(), "git clone https://x/y.git");

    let parsed = Cmd::from_str("git clone url".to_string()).expect("always parses");
    assert_eq!(parsed.cmd, "git");
    assert_eq!(parsed.args, vec!["clone".to_string(), "url".to_string()]);

    let mut plain = Cmd::new("ls".to_string(), vec![]);
    plain.set_args(vec!["-l".to_string()]);
    assert_eq!(plain.to_string(), "ls -l");

    let empty_args = CLArgs::new();
    assert!(empty_args.command.is_none() && empty_args.username.is_none());
}

#[test]
fn filter_matches_case_insensitively() {
    let names = vec![
        "My-RUST-Repo".to_string(),
        "notes".to_string(),
        "rustlings".to_string(),
    ];
    let mut fl = FilterList::new(names, "rust".to_string());
    let filtered = fl.get_filtered();
    assert_eq!(filtered, vec!["My-RUST-Repo".to_string(), "rustlings".to_string()]);
    assert_eq!(fl.state.items_len, 2);

    fl.set_filter("NOTES".to_string());
    assert_eq!(fl.get_filtered(), vec!["notes".to_string()]);

    fl.filter_remove_last();
    fl.filter_remove_last();
    fl.filter_remove_last();
    fl.filter_remove_last();
    fl.filter_remove_last();
    assert_eq!(fl.filter, "");
    fl.filter_append('n');
    assert_eq!(fl.filter, "n");
    assert_eq!(fl.get_filtered().len(), 2);

    fl.set_list(vec!["a".to_string()]);
    assert_eq!(fl.filter, "");
    assert_eq!(fl.get_index(), None);
}

#[test]
fn completion_splits_filters_and_accepts() {
    let (d, p) = AutoComplete::split_input(&"src/ma".to_string());
    assert_eq!(d, "src/");
    assert_eq!(p, "ma");
    let (d2, p2) = AutoComplete::split_input(&"noslash".to_string());
    assert_eq!(d2, "./");
    assert_eq!(p2, "noslash");

    let mut ac = AutoComplete::new();
    ac.update_input("src/ma".to_string());
    let entries = vec![
        Match::new("main.rs".to_string(), false),
        Match::new("macros".to_string(), true),
        Match::new("lib.rs".to_string(), false),
    ];
    ac.refresh_matches(&entries);
    assert_eq!(ac.get_matches(), vec!["main.rs".to_string(), "macros/".to_string()]);

    assert_eq!(ac.complete(true), Some(false));
    assert_eq!(ac.selected_index(), None);
    assert_eq!(ac.complete(false), Some(false));
    assert_eq!(ac.selected_index(), Some(0));
    assert!(ac.accept_selected_match().is_ok());
    assert_eq!(ac.get_input(), "src/main.rs");
    assert!(ac.get_matches().is_empty());

    let mut one = AutoComplete::new();
    one.update_input("src/li".to_string());
    one.refresh_matches(&vec![Match::new("lib.rs".to_string(), false)]);
    assert_eq!(one.complete(true), Some(true));
    assert_eq!(one.get_input(), "src/lib.rs");

    let mut none = AutoComplete::new();
    none.update_input("zzz".to_string());
    none.refresh_matches(&vec![Match::new("main.rs".to_string(), false)]);
    assert_eq!(none.complete(true), None);
    assert!(matches!(none.accept_selected_match(), Err(CompletionError::NoSelectedMatch)));

    let mut dots = AutoComplete::new();
    dots.update_input(".".to_string());
    dots.refresh_matches(&vec![]);
    assert_eq!(dots.get_matches(), vec!["./".to_string(), "../".to_string()]);

    let mut ed = AutoComplete::new();
    ed.add_char('a');
    ed.add_char('b');
    ed.delete_char();
    assert_eq!(ed.get_input(), "a");
}

#[test]
fn configuration_lines_assign_credentials() {
    let lines = vec![
        "# a comment".to_string(),
        "Username = alice  ".to_string(),
        "password=first".to_string(),
        "PASSWORD =  second".to_string(),
    ];
    let cfg = config_from_lines(&lines);
    assert_eq!(cfg.username, Some("alice".to_string()));
    assert_eq!(cfg.password, Some("second".to_string()));

    let none = config_from_lines(&vec!["userame alice".to_string()]);
    assert!(none.username.is_none() && none.password.is_none());

    let built = Config::new(Some("u".to_string()), None);
    assert_eq!(built.username, Some("u".to_string()));
}

fn repo(name: &str) -> Repo {
    Repo::new(
        "owner".to_string(),
        name.to_string(),
        "".to_string(),
        "Rust".to_string(),
        "2020-01-01T00:00:00Z".to_string(),
        "2024-01-01T00:00:00Z".to_string(),
    )
}

#[test]
fn the_selector_builds_the_clone_command() {
    let mut user = User::new("alice".to_string(), "t".to_string());
    user.git.insert_repo(repo("mine"));
    let names = user.git.sorted_repo_names();
    let fl = FilterList::new(names, "".to_string());
    let mut lt = ListSearchTui::new(user, None, "".to_string(), CmdType::CLONE, fl);
    assert_eq!(lt.mode, ListTuiMode::Full);

    assert!(lt.get_command().is_none(), "no selection yet");
    lt.list.state = StateL { selected: Some(0), items_len: 1 };
    let cmd = lt.get_command().expect("a selection");
    assert_eq!(cmd.to_string(), "git clone git@github.com:alice/mine.git");

    let mut gu = GitUser::new("bob".to_string(), "".to_string(), "".to_string(), "".to_string());
    gu.insert_repo(repo("theirs"));
    lt.update_selected_user(Some(gu));
    lt.list.state = StateL { selected: Some(0), items_len: 1 };
    let cmd2 = lt.get_command().expect("a selection");
    assert_eq!(cmd2.to_string(), "git clone https://github.com/bob/theirs.git");
}

#[test]
fn the_selector_tracks_the_searched_username() {
    let user = User::new("alice".to_string(), "t".to_string());
    let fl = FilterList::new(vec![], "".to_string());
    let mut lt = ListSearchTui::new(user, None, "".to_string(), CmdType::CLONE, fl);
    assert!(lt.changed_username(), "no profile listed yet");

    lt.searched_username = "  ".to_string();
    assert_eq!(lt.search_username_step(), None, "blank falls back to the owner");
    assert_eq!(lt.input_mode, InputMode::Repo);

    lt.searched_username = "bob".to_string();
    assert_eq!(lt.search_username_step(), Some("bob".to_string()));
    let gu = GitUser::new("Bob".to_string(), "".to_string(), "".to_string(), "".to_string());
    lt.apply_username_search(Some(gu));
    assert!(!lt.changed_username(), "matches case-insensitively");

    lt.input_mode = InputMode::Username;
    lt.searched_username = "carol".to_string();
    assert_eq!(lt.change_input_mode_step(), Some("carol".to_string()));

    lt.input_mode = InputMode::Repo;
    assert_eq!(lt.change_input_mode_step(), None);
    assert_eq!(lt.input_mode, InputMode::Username);

    lt.handle_input('x');
    assert_eq!(lt.searched_username, "carolx");
    lt.handle_backspace();
    assert_eq!(lt.searched_username, "carol");
    lt.input_mode = InputMode::Repo;
    lt.handle_input('r');
    assert_eq!(lt.list.filter, "r");
    lt.handle_backspace();
    assert_eq!(lt.list.filter, "");
}
