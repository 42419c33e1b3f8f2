//! Filesystem-path completion state for the input prompt. The library
//! holds the editing, matching and selection logic; reading directory
//! entries is the surrounding program's part, handed in as plain
//! name/is-directory pairs.

use vstd::prelude::*;
use crate::text::{
    to_chars, chars_to_string, append_str_chars, rfind_char, str_eq, starts_with_chars, match_at,
};

verus! {

#[derive(PartialEq, Eq, Structural, Clone, Copy, Debug)]
pub enum CompletionError {
    NoSelectedMatch,
    NoMatches,
}

/// One completion candidate: an entry name and whether it is a directory.
pub struct Match {
    pub dir: bool,
    pub name: String,
}

/// How a candidate is displayed: directories carry a trailing slash.
pub open spec fn match_text(m: Match) -> Seq<char> {
    if m.dir {
        m.name@ + seq!['/']
    } else {
        m.name@
    }
}

impl Match {
    pub fn new(name: String, dir: bool) -> (r: Self)
        ensures
            r.name == name,
            r.dir == dir,
    {
        Self { name, dir }
    }

    pub fn to_string(&self) -> (r: String)
        ensures
            r@ == match_text(*self),
    {
        if self.dir {
            let mut v: Vec<char> = to_chars(self.name.as_str());
            v.push('/');
            chars_to_string(&v)
        } else {
            self.name.clone()
        }
    }
}

/// The index after the last `/` of a path; 0 when it has none.
pub open spec fn dir_split(s: Seq<char>) -> int
    decreases s.len(),
{
    if s.len() == 0 {
        0
    } else if s.last() == '/' {
        s.len() as int
    } else {
        dir_split(s.drop_last())
    }
}

/// `dir_split` finds the position right after the last slash.
proof fn lemma_dir_split_at(s: Seq<char>, i: int)
    requires
        0 <= i < s.len(),
        s[i] == '/',
        forall|k: int| i < k < s.len() ==> s[k] != '/',
    ensures
        dir_split(s) == i + 1,
    decreases s.len(),
{
    if i == s.len() - 1 {
    } else {
        assert(s.drop_last()[i] == '/');
        lemma_dir_split_at(s.drop_last(), i);
    }
}

/// Without a slash, `dir_split` is 0.
proof fn lemma_dir_split_none(s: Seq<char>)
    requires
        forall|k: int| 0 <= k < s.len() ==> s[k] != '/',
    ensures
        dir_split(s) == 0,
    decreases s.len(),
{
    if s.len() > 0 {
        lemma_dir_split_none(s.drop_last());
    }
}

/// The directory part of a path under completion: everything through the
/// last slash, or `./` when it has none.
pub open spec fn dir_part(s: Seq<char>) -> Seq<char> {
    if dir_split(s) == 0 {
        "./"@
    } else {
        s.subrange(0, dir_split(s))
    }
}

/// The partial entry name being completed: everything after the last
/// slash.
pub open spec fn partial_part(s: Seq<char>) -> Seq<char> {
    s.subrange(dir_split(s), s.len() as int)
}

/// The entries whose names begin with the partial, in order.
pub open spec fn keeps_partial(entries: Seq<Match>, partial: Seq<char>) -> Seq<Match> {
    entries.filter(|m: Match| match_at(m.name@, partial, 0))
}

pub struct AutoComplete {
    pub input: String,
    pub input_changed: bool,
    pub cur_path: String,
    pub match_list: Vec<Match>,
    pub selected_match: Option<usize>,
}

impl AutoComplete {
    /// Empty input, no candidates, marked changed so the first completion
    /// refreshes.
    pub fn new() -> (r: Self)
        ensures
            r.input@ == Seq::<char>::empty(),
            r.input_changed,
            r.cur_path@ == Seq::<char>::empty(),
            r.match_list@ == Seq::<Match>::empty(),
            r.selected_match is None,
    {
        Self {
            input: String::new(),
            input_changed: true,
            cur_path: String::new(),
            match_list: Vec::new(),
            selected_match: None,
        }
    }

    /// Replaces the input and marks it changed.
    pub fn update_input(&mut self, input: String)
        ensures
            *final(self) == (AutoComplete { input, input_changed: true, ..*old(self) }),
    {
        self.input = input;
        self.input_changed = true;
    }

    /// Appends one character to the input.
    pub fn add_char(&mut self, c: char)
        ensures
            final(self).input@ == old(self).input@.push(c),
            *final(self) == (AutoComplete {
                input: final(self).input,
                input_changed: true,
                ..*old(self)
            }),
    {
        let mut v: Vec<char> = to_chars(self.input.as_str());
        v.push(c);
        self.input = chars_to_string(&v);
        self.input_changed = true;
    }

    /// Removes the input's last character, if any.
    pub fn delete_char(&mut self)
        ensures
            old(self).input@.len() > 0 ==> final(self).input@ == old(self).input@.drop_last(),
            old(self).input@.len() == 0 ==> final(self).input@ == old(self).input@,
            *final(self) == (AutoComplete {
                input: final(self).input,
                input_changed: true,
                ..*old(self)
            }),
    {
        let mut v: Vec<char> = to_chars(self.input.as_str());
        if v.len() > 0 {
            v.pop();
            proof {
                assert(v@ =~= old(self).input@.drop_last());
            }
            self.input = chars_to_string(&v);
        }
        self.input_changed = true;
    }

    /// The current input.
    pub fn get_input(&self) -> (r: String)
        ensures
            r == self.input,
    {
        self.input.clone()
    }

    /// The candidates as displayed, slashes on directories.
    pub fn get_matches(&self) -> (r: Vec<String>)
        ensures
            r@.len() == self.match_list@.len(),
            forall|k: int| 0 <= k < r@.len() ==> r@[k]@ == match_text(self.match_list@[k]),
    {
        let n: usize = self.match_list.len();
        let mut out: Vec<String> = Vec::new();
        let mut i: usize = 0;
        while i < n
            invariant
                n == self.match_list@.len(),
                i <= n,
                out@.len() == i,
                forall|k: int| 0 <= k < i ==> out@[k]@ == match_text(self.match_list@[k]),
            decreases n - i,
        {
            let s: String = self.match_list[i].to_string();
            out.push(s);
            i = i + 1;
        }
        out
    }

    /// Forgets the candidates and the selection.
    pub fn clear_matches(&mut self)
        ensures
            *final(self) == (AutoComplete {
                match_list: final(self).match_list,
                selected_match: None,
                ..*old(self)
            }),
            final(self).match_list@ == Seq::<Match>::empty(),
    {
        self.match_list.clear();
        self.selected_match = None;
    }

    /// The selected candidate, if the selection indexes one.
    pub fn selected(&self) -> (r: Option<&Match>)
        ensures
            match r {
                Some(m) => self.selected_match matches Some(i) && (i as int)
                    < self.match_list@.len() && *m == self.match_list@[i as int],
                None => match self.selected_match {
                    Some(i) => (i as int) >= self.match_list@.len(),
                    None => true,
                },
            },
    {
        match self.selected_match {
            Some(i) => {
                if i < self.match_list.len() {
                    Some(&self.match_list[i])
                } else {
                    None
                }
            },
            None => None,
        }
    }

    /// The selected index.
    pub fn selected_index(&self) -> (r: Option<usize>)
        ensures
            r == self.selected_match,
    {
        self.selected_match
    }

    /// Selects the next candidate, wrapping; the first when none was
    /// selected; nothing when there are no candidates.
    pub fn select_next(&mut self)
        ensures
            *final(self) == (AutoComplete {
                selected_match: final(self).selected_match,
                ..*old(self)
            }),
            old(self).match_list@.len() == 0 ==> final(self).selected_match is None,
            old(self).match_list@.len() > 0 ==> final(self).selected_match == Some(
                match old(self).selected_match {
                    None => 0usize,
                    Some(i) => ((i + 1) as int % old(self).match_list@.len() as int) as usize,
                },
            ),
    {
        let n: usize = self.match_list.len();
        if n == 0 {
            self.selected_match = None;
        } else {
            match self.selected_match {
                None => {
                    self.selected_match = Some(0);
                },
                Some(i) => {
                    let base: usize = i % n;
                    proof {
                        crate::tui::lemma_inc_mod(i as int, n as int);
                    }
                    self.selected_match = Some(
                        if base + 1 == n {
                            0
                        } else {
                            base + 1
                        },
                    );
                },
            }
        }
    }

    /// Splits a path into its directory part (through the last slash, or
    /// `./`) and the partial entry name after it.
    pub fn split_input(input: &String) -> (r: (String, String))
        ensures
            r.0@ == dir_part(input@),
            r.1@ == partial_part(input@),
    {
        let v: Vec<char> = to_chars(input.as_str());
        let n: usize = v.len();
        match rfind_char(&v, '/') {
            Some(i) => {
                proof {
                    lemma_dir_split_at(input@, i as int);
                }
                let mut d: Vec<char> = Vec::new();
                let mut k: usize = 0;
                while k < i + 1
                    invariant
                        i < n,
                        n == v@.len(),
                        v@ == input@,
                        k <= i + 1,
                        d@ == input@.subrange(0, k as int),
                    decreases i + 1 - k,
                {
                    d.push(v[k]);
                    assert(d@ =~= input@.subrange(0, (k + 1) as int));
                    k = k + 1;
                }
                let mut p: Vec<char> = Vec::new();
                let mut t: usize = i + 1;
                while t < n
                    invariant
                        i < n,
                        n == v@.len(),
                        v@ == input@,
                        i + 1 <= t <= n,
                        p@ == input@.subrange((i + 1) as int, t as int),
                    decreases n - t,
                {
                    p.push(v[t]);
                    assert(p@ =~= input@.subrange((i + 1) as int, (t + 1) as int));
                    t = t + 1;
                }
                (chars_to_string(&d), chars_to_string(&p))
            },
            None => {
                proof {
                    lemma_dir_split_none(input@);
                    assert(input@.subrange(0, input@.len() as int) =~= input@);
                }
                let d: Vec<char> = to_chars("./");
                let p: Vec<char> = to_chars(input.as_str());
                (chars_to_string(&d), chars_to_string(&p))
            },
        }
    }

    /// The directory part of the current input.
    pub fn inputted_dir(&self) -> (r: String)
        ensures
            r@ == dir_part(self.input@),
    {
        let parts: (String, String) = AutoComplete::split_input(&self.input);
        parts.0
    }

    /// The directory part with an entry name appended.
    pub fn add_to_cur_path(&self, file: &String) -> (r: String)
        ensures
            r@ == dir_part(self.input@) + file@,
    {
        let mut out: Vec<char> = to_chars(self.inputted_dir().as_str());
        append_str_chars(&mut out, file.as_str());
        chars_to_string(&out)
    }

    /// A path with a candidate's display text appended.
    pub fn completed_input(path: &String, m: &Match) -> (r: String)
        ensures
            r@ == path@ + match_text(*m),
    {
        let mut out: Vec<char> = to_chars(path.as_str());
        let t: String = m.to_string();
        append_str_chars(&mut out, t.as_str());
        chars_to_string(&out)
    }

    /// The input completed with the given candidate.
    pub fn input_with_match(&self, m: &Match) -> (r: String)
        ensures
            r@ == dir_part(self.input@) + match_text(*m),
    {
        let d: String = self.inputted_dir();
        AutoComplete::completed_input(&d, m)
    }

    /// Accepts the selected candidate into the input and forgets the
    /// candidates; an error when nothing is selected.
    pub fn accept_selected_match(&mut self) -> (r: Result<(), CompletionError>)
        ensures
            (old(self).selected_match matches Some(i) && (i as int)
                < old(self).match_list@.len()) ==> r is Ok
                && final(self).input@ == dir_part(old(self).input@) + match_text(
                old(self).match_list@[old(self).selected_match->0 as int],
            ) && final(self).input_changed
                && final(self).match_list@ == Seq::<Match>::empty()
                && final(self).selected_match is None
                && final(self).cur_path == old(self).cur_path,
            !(old(self).selected_match matches Some(i) && (i as int)
                < old(self).match_list@.len()) ==> r == Result::<(), CompletionError>::Err(
                CompletionError::NoSelectedMatch,
            ) && *final(self) == *old(self),
    {
        let sel: Option<usize> = self.selected_match;
        match sel {
            Some(i) => {
                if i < self.match_list.len() {
                    let s: String = {
                        let m = &self.match_list[i];
                        self.input_with_match(m)
                    };
                    self.update_input(s);
                    self.input_changed = true;
                    self.clear_matches();
                    Ok(())
                } else {
                    Err(CompletionError::NoSelectedMatch)
                }
            },
            None => Err(CompletionError::NoSelectedMatch),
        }
    }

    /// Whether the input changed since the candidates were last refreshed;
    /// clears the mark.
    pub fn take_changed(&mut self) -> (r: bool)
        ensures
            r == old(self).input_changed,
            *final(self) == (AutoComplete { input_changed: false, ..*old(self) }),
    {
        let was: bool = self.input_changed;
        self.input_changed = false;
        was
    }

    /// Rebuilds the candidates from the entries of the inputted directory:
    /// a partial of `.` offers `.` and `..`, a partial of `..` offers
    /// `..`, and after those every entry whose name begins with the
    /// partial is offered, in order, with its directory flag.
    pub fn refresh_matches(&mut self, entries: &Vec<Match>)
        ensures
            final(self).input == old(self).input,
            final(self).input_changed == old(self).input_changed,
            final(self).cur_path == old(self).cur_path,
            final(self).selected_match is None,
            ({
                let partial = partial_part(old(self).input@);
                let fl = keeps_partial(entries@, partial);
                if partial == "."@ {
                    &&& final(self).match_list@.len() == fl.len() + 2
                    &&& final(self).match_list@[0].name@ == "."@
                    &&& final(self).match_list@[0].dir
                    &&& final(self).match_list@[1].name@ == ".."@
                    &&& final(self).match_list@[1].dir
                    &&& final(self).match_list@.subrange(2, final(self).match_list@.len() as int)
                        == fl
                } else if partial == ".."@ {
                    &&& final(self).match_list@.len() == fl.len() + 1
                    &&& final(self).match_list@[0].name@ == ".."@
                    &&& final(self).match_list@[0].dir
                    &&& final(self).match_list@.subrange(1, final(self).match_list@.len() as int)
                        == fl
                } else {
                    final(self).match_list@ == fl
                }
            }),
    {
        self.clear_matches();
        let parts: (String, String) = AutoComplete::split_input(&self.input);
        let partial: String = parts.1;
        let pchars: Vec<char> = to_chars(partial.as_str());
        let is_dot: bool = str_eq(partial.as_str(), ".");
        let is_dotdot: bool = str_eq(partial.as_str(), "..");
        if is_dot || is_dotdot {
            self.match_list.push(Match::new(partial.clone(), true));
            if is_dot {
                let two: Vec<char> = to_chars("..");
                self.match_list.push(Match::new(chars_to_string(&two), true));
            }
        }
        let ghost specials = self.match_list@;
        proof {
            reveal(Seq::filter);
            assert(keeps_partial(entries@.subrange(0, 0), partial_part(old(self).input@))
                =~= Seq::<Match>::empty());
            assert(self.match_list@ =~= specials + keeps_partial(
                entries@.subrange(0, 0),
                partial_part(old(self).input@),
            ));
        }
        let n: usize = entries.len();
        let mut i: usize = 0;
        while i < n
            invariant
                n == entries@.len(),
                i <= n,
                pchars@ == partial_part(old(self).input@),
                self.match_list@ == specials + keeps_partial(
                    entries@.subrange(0, i as int),
                    partial_part(old(self).input@),
                ),
                self.selected_match is None,
                self.input == old(self).input,
                self.input_changed == old(self).input_changed,
                self.cur_path == old(self).cur_path,
            decreases n - i,
        {
            proof {
                reveal(Seq::filter);
                assert(entries@.subrange(0, (i + 1) as int).drop_last() =~= entries@.subrange(
                    0,
                    i as int,
                ));
                assert(entries@.subrange(0, (i + 1) as int).last() == entries@[i as int]);
            }
            let name_chars: Vec<char> = to_chars(entries[i].name.as_str());
            if starts_with_chars(&name_chars, &pchars) {
                let m = Match::new(entries[i].name.clone(), entries[i].dir);
                assert(m == entries@[i as int]);
                self.match_list.push(m);
                assert(self.match_list@ =~= specials + keeps_partial(
                    entries@.subrange(0, (i + 1) as int),
                    partial_part(old(self).input@),
                ));
            } else {
                assert(self.match_list@ =~= specials + keeps_partial(
                    entries@.subrange(0, (i + 1) as int),
                    partial_part(old(self).input@),
                ));
            }
            i = i + 1;
        }
        proof {
            assert(entries@.subrange(0, n as int) =~= entries@);
            let fl = keeps_partial(entries@, partial_part(old(self).input@));
            if partial@ == "."@ {
                assert(self.match_list@.subrange(2, self.match_list@.len() as int) =~= fl);
            } else if partial@ == ".."@ {
                assert(self.match_list@.subrange(1, self.match_list@.len() as int) =~= fl);
            } else {
                assert(self.match_list@ =~= fl);
            }
        }
    }

    /// Resolves the completion attempt against the current candidates:
    /// none forgets them and reports failure, exactly one is accepted
    /// into the input, and several keep the choice open (advancing it on
    /// a repeated attempt).
    pub fn complete(&mut self, updated: bool) -> (r: Option<bool>)
        ensures
            old(self).match_list@.len() == 0 ==> r is None && *final(self) == (AutoComplete {
                match_list: final(self).match_list,
                selected_match: None,
                ..*old(self)
            }) && final(self).match_list@ == Seq::<Match>::empty(),
            old(self).match_list@.len() == 1 ==> r == Some(true)
                && final(self).input@ == dir_part(old(self).input@) + match_text(
                old(self).match_list@[0],
            ) && final(self).input_changed
                && final(self).match_list@ == Seq::<Match>::empty()
                && final(self).selected_match is None
                && final(self).cur_path == old(self).cur_path,
            old(self).match_list@.len() > 1 ==> r == Some(false) && (if updated {
                *final(self) == *old(self)
            } else {
                *final(self) == (AutoComplete {
                    selected_match: final(self).selected_match,
                    ..*old(self)
                }) && final(self).selected_match == Some(
                    match old(self).selected_match {
                        None => 0usize,
                        Some(i) => ((i + 1) as int % old(self).match_list@.len() as int) as usize,
                    },
                )
            }),
    {
        let n: usize = self.match_list.len();
        if n == 0 {
            self.clear_matches();
            None
        } else if n == 1 {
            let s: String = {
                let m = &self.match_list[0];
                self.input_with_match(m)
            };
            self.update_input(s);
            self.clear_matches();
            Some(true)
        } else {
            if !updated {
                self.select_next();
            }
            Some(false)
        }
    }
}

} // verus!
