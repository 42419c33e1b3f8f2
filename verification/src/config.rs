//! The credentials read from a configuration file: the `username=` and
//! `password=` lines of its text. Finding and reading the file stays with
//! the surrounding program; the library reads the lines.

use vstd::prelude::*;
use crate::text::{
    to_chars, chars_to_string, to_lower, lower_of, match_at, find_char, trim_chars, trimmed,
    starts_with_chars,
};

verus! {

/// The credentials a configuration carries, either possibly absent.
pub struct Config {
    pub username: Option<String>,
    pub password: Option<String>,
}

impl Config {
    pub fn new(username: Option<String>, password: Option<String>) -> (r: Self)
        ensures
            r.username == username,
            r.password == password,
    {
        Self { username, password }
    }
}

/// The line assigns to `key`: lowercased it begins with `key`, and an `=`
/// follows somewhere.
pub open spec fn assigns(line: Seq<char>, key: Seq<char>) -> bool {
    &&& match_at(lower_of(line), key, 0)
    &&& exists|j: int| 0 <= j < line.len() && line[j] == '='
}

/// The index of the line's first `=`.
pub open spec fn eq_idx(line: Seq<char>) -> int {
    choose|j: int| 0 <= j < line.len() && line[j] == '=' && (forall|k: int|
        0 <= k < j ==> line[k] != '=')
}

/// The value a line assigns: everything after its first `=`, blanks
/// trimmed.
pub open spec fn value_of(line: Seq<char>) -> Seq<char> {
    trimmed(line.subrange(eq_idx(line) + 1, line.len() as int))
}

/// The last value the lines assign to `key`, if any line does.
pub open spec fn last_value(lines: Seq<Seq<char>>, key: Seq<char>) -> Option<Seq<char>>
    decreases lines.len(),
{
    if lines.len() == 0 {
        None
    } else if assigns(lines.last(), key) {
        Some(value_of(lines.last()))
    } else {
        last_value(lines.drop_last(), key)
    }
}

/// The first `=` is unique, so `eq_idx` names the index a search finds.
proof fn lemma_eq_idx(line: Seq<char>, j: int)
    requires
        0 <= j < line.len(),
        line[j] == '=',
        forall|k: int| 0 <= k < j ==> line[k] != '=',
    ensures
        eq_idx(line) == j,
{
    let w = eq_idx(line);
    assert(0 <= w < line.len() && line[w] == '=' && (forall|k: int|
        0 <= k < w ==> line[k] != '='));
    if w < j {
        assert(line[w] != '=');
    }
    if j < w {
        assert(line[j] != '=');
    }
}

/// Reads one line's assignment to `key`, if it makes one.
fn read_assign(line: &String, key: &str) -> (r: Option<String>)
    ensures
        assigns(line@, key@) ==> (r matches Some(v) && v@ == value_of(line@)),
        !assigns(line@, key@) ==> r is None,
{
    let low: String = to_lower(line.as_str());
    let low_chars: Vec<char> = to_chars(low.as_str());
    let key_chars: Vec<char> = to_chars(key);
    if !starts_with_chars(&low_chars, &key_chars) {
        return None;
    }
    let v: Vec<char> = to_chars(line.as_str());
    match find_char(&v, '=') {
        Some(j) => {
            proof {
                lemma_eq_idx(line@, j as int);
            }
            let n: usize = v.len();
            let mut tail: Vec<char> = Vec::new();
            let mut k: usize = j + 1;
            while k < n
                invariant
                    j < n,
                    n == v@.len(),
                    v@ == line@,
                    j + 1 <= k <= n,
                    tail@ == line@.subrange((j + 1) as int, k as int),
                decreases n - k,
            {
                tail.push(v[k]);
                assert(tail@ =~= line@.subrange((j + 1) as int, (k + 1) as int));
                k = k + 1;
            }
            let t: Vec<char> = trim_chars(&tail);
            Some(chars_to_string(&t))
        },
        None => None,
    }
}

/// Reads a configuration from its lines: the last `username=` and
/// `password=` assignments win, values trimmed of blanks.
pub fn config_from_lines(lines: &Vec<String>) -> (r: Config)
    ensures
        match r.username {
            Some(u) => last_value(lines.deep_view(), "username"@) == Some(u@),
            None => last_value(lines.deep_view(), "username"@) is None,
        },
        match r.password {
            Some(p) => last_value(lines.deep_view(), "password"@) == Some(p@),
            None => last_value(lines.deep_view(), "password"@) is None,
        },
{
    let mut cfg = Config::new(None, None);
    let n: usize = lines.len();
    let mut i: usize = 0;
    proof {
        assert(lines.deep_view().subrange(0, 0) =~= Seq::<Seq<char>>::empty());
    }
    while i < n
        invariant
            n == lines@.len(),
            lines.deep_view().len() == n,
            i <= n,
            match cfg.username {
                Some(u) => last_value(lines.deep_view().subrange(0, i as int), "username"@)
                    == Some(u@),
                None => last_value(lines.deep_view().subrange(0, i as int), "username"@) is None,
            },
            match cfg.password {
                Some(p) => last_value(lines.deep_view().subrange(0, i as int), "password"@)
                    == Some(p@),
                None => last_value(lines.deep_view().subrange(0, i as int), "password"@) is None,
            },
        decreases n - i,
    {
        proof {
            assert(lines.deep_view().subrange(0, (i + 1) as int).drop_last()
                =~= lines.deep_view().subrange(0, i as int));
            assert(lines.deep_view().subrange(0, (i + 1) as int).last() == lines.deep_view()[
                i as int
            ]);
            assert(lines.deep_view()[i as int] == lines@[i as int]@);
        }
        match read_assign(&lines[i], "username") {
            Some(u) => {
                cfg.username = Some(u);
            },
            None => {
            },
        }
        match read_assign(&lines[i], "password") {
            Some(p) => {
                cfg.password = Some(p);
            },
            None => {
            },
        }
        i = i + 1;
    }
    proof {
        assert(lines.deep_view().subrange(0, n as int) =~= lines.deep_view());
    }
    cfg
}

} // verus!
