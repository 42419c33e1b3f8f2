//! Shell commands the client can assemble and hand to the surrounding
//! program for execution (only `git clone` in practice).

use vstd::prelude::*;
use crate::text::{
    str_eq, to_chars, chars_to_string, append_str_chars, append_chars, split_chars, join_chars,
    split_str, join_str,
};

verus! {

#[allow(non_camel_case_types)]
#[derive(PartialEq, Eq, Structural, Clone, Copy, Debug)]
pub enum CmdType {
    CLONE,
    DEFAULT,
}

#[derive(PartialEq, Eq, Structural, Clone, Copy, Debug)]
pub enum CmdError {
    CmdExecError,
}

/// Recognizes the textual command names the client accepts.
pub fn command_type(cmd: &String) -> (r: Option<CmdType>)
    ensures
        cmd@ == "clone"@ ==> r == Some(CmdType::CLONE),
        cmd@ != "clone"@ ==> r is None,
{
    if str_eq(cmd.as_str(), "clone") {
        Some(CmdType::CLONE)
    } else {
        None
    }
}

pub struct Cmd {
    pub cmd_type: CmdType,
    pub cmd: String,
    pub args: Vec<String>,
}

impl Cmd {
    /// The kind of command this is.
    pub open spec fn kind(&self) -> CmdType {
        self.cmd_type
    }

    /// An arbitrary program with its arguments.
    pub fn new(cmd: String, args: Vec<String>) -> (r: Self)
        ensures
            r.cmd == cmd,
            r.args == args,
            r.kind() == CmdType::DEFAULT,
    {
        Cmd { cmd_type: CmdType::DEFAULT, cmd, args }
    }

    /// The kind of command this is.
    pub fn cmd_type(&self) -> (r: CmdType)
        ensures
            r == self.kind(),
    {
        self.cmd_type
    }

    /// A `git` command of the given kind, with the subcommand word as its
    /// first argument.
    pub fn new_git_cmd(cmd_type: CmdType) -> (r: Self)
        ensures
            r.cmd@ == "git"@,
            r.args.deep_view().len() == 1,
            cmd_type == CmdType::CLONE ==> r.args.deep_view()[0] == "clone"@,
            cmd_type == CmdType::DEFAULT ==> r.args.deep_view()[0] == Seq::<char>::empty(),
            r.kind() == cmd_type,
    {
        let cmd_arg: String = match cmd_type {
            CmdType::CLONE => {
                let v: Vec<char> = to_chars("clone");
                chars_to_string(&v)
            },
            CmdType::DEFAULT => String::new(),
        };
        let mut args: Vec<String> = Vec::new();
        args.push(cmd_arg);
        let gitv: Vec<char> = to_chars("git");
        Cmd { cmd_type, cmd: chars_to_string(&gitv), args }
    }

    /// Replaces the argument list.
    pub fn set_args(&mut self, args: Vec<String>)
        ensures
            final(self).args == args,
            final(self).cmd == old(self).cmd,
            final(self).kind() == old(self).kind(),
    {
        self.args = args;
    }

    /// Appends one argument, ignoring empty strings.
    pub fn push_arg(&mut self, arg: String)
        ensures
            arg@.len() > 0 ==> final(self).args@ == old(self).args@.push(arg),
            arg@.len() == 0 ==> final(self).args@ == old(self).args@,
            final(self).cmd == old(self).cmd,
            final(self).kind() == old(self).kind(),
    {
        if !arg.as_str().is_empty() {
            self.args.push(arg);
        }
    }

    /// Splits a command line on spaces: the first word is the program, the
    /// rest are its arguments.
    pub fn from_str(cmd_str: String) -> (r: Option<Self>)
        ensures
            r is Some,
            r.unwrap().cmd@ == split_str(cmd_str@, ' ')[0],
            r.unwrap().args.deep_view() == split_str(cmd_str@, ' ').drop_first(),
            r.unwrap().kind() == CmdType::DEFAULT,
    {
        let v: Vec<char> = to_chars(cmd_str.as_str());
        let parts: Vec<Vec<char>> = split_chars(&v, ' ');
        proof {
            crate::text::lemma_split_len(cmd_str@, ' ');
        }
        let cmd: String = chars_to_string(&parts[0]);
        let mut args: Vec<String> = Vec::new();
        let n: usize = parts.len();
        let mut i: usize = 1;
        while i < n
            invariant
                n == parts@.len(),
                parts.deep_view().len() == n,
                1 <= i <= n,
                args@.len() == i - 1,
                forall|k: int| 0 <= k < i - 1 ==> args@[k]@ == parts.deep_view()[k + 1],
            decreases n - i,
        {
            args.push(chars_to_string(&parts[i]));
            assert(parts.deep_view()[i as int] =~= parts@[i as int]@);
            i = i + 1;
        }
        assert(args.deep_view() =~= parts.deep_view().drop_first()) by {
            assert forall|k: int| 0 <= k < n - 1 implies args.deep_view()[k]
                == parts.deep_view().drop_first()[k] by {
                assert(args.deep_view()[k] == args@[k]@);
            }
        }
        Some(Cmd::new(cmd, args))
    }

    /// The command line as one string: program, a space, then the arguments
    /// joined with spaces.
    pub fn to_string(&self) -> (r: String)
        ensures
            r@ == self.cmd@ + seq![' '] + join_str(self.args.deep_view(), ' '),
    {
        let mut out: Vec<char> = to_chars(self.cmd.as_str());
        out.push(' ');
        let mut parts: Vec<Vec<char>> = Vec::new();
        let n: usize = self.args.len();
        let mut i: usize = 0;
        while i < n
            invariant
                n == self.args@.len(),
                self.args.deep_view().len() == n,
                i <= n,
                parts@.len() == i,
                forall|k: int| 0 <= k < i ==> parts@[k]@ == self.args@[k]@,
            decreases n - i,
        {
            let a: Vec<char> = to_chars(self.args[i].as_str());
            parts.push(a);
            i = i + 1;
        }
        assert(parts.deep_view() =~= self.args.deep_view()) by {
            assert forall|k: int| 0 <= k < n implies parts.deep_view()[k]
                == self.args.deep_view()[k] by {
                assert(parts.deep_view()[k] =~= parts@[k]@);
                assert(self.args.deep_view()[k] == self.args@[k]@);
            }
        }
        let joined: Vec<char> = join_chars(&parts, ' ');
        append_chars(&mut out, &joined);
        chars_to_string(&out)
    }
}

} // verus!
