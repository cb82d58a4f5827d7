//! What the interactive prompt does with each line it reads.

use vstd::prelude::*;
use crate::credentials::{extract_user, login_user};
use crate::text::{has_prefix, push_str, starts_with, str_equal, trim, trim_str, views};

verus! {

/// What to do with a line typed at the prompt.
#[derive(Debug)]
pub enum ReplAction {
    /// Stop reading.
    Exit,
    /// Ask for the password of this user, then send the login command.
    Login(String),
    /// Send this line on as a command.
    Send(String),
    /// A `login` line that names no user: nothing is sent.
    Skip,
}

/// What the prompt does with `line`: the line is trimmed; `exit` and `quit`
/// stop; a line starting with `login` asks for a password when it names a
/// user (see `login_user`) and is dropped otherwise; any other line is sent
/// on as it is (trimmed).
pub open spec fn repl_decision(line: Seq<char>) -> ReplActionView {
    let t = trim(line);
    if t == "exit"@ || t == "quit"@ {
        ReplActionView::Exit
    } else if has_prefix(t, "login"@) {
        match login_user(t) {
            Some(u) => ReplActionView::Login(u),
            None => ReplActionView::Skip,
        }
    } else {
        ReplActionView::Send(t)
    }
}

/// `ReplAction` with its strings as character sequences.
pub enum ReplActionView {
    Exit,
    Login(Seq<char>),
    Send(Seq<char>),
    Skip,
}

impl View for ReplAction {
    type V = ReplActionView;

    open spec fn view(&self) -> ReplActionView {
        match self {
            ReplAction::Exit => ReplActionView::Exit,
            ReplAction::Login(u) => ReplActionView::Login(u@),
            ReplAction::Send(s) => ReplActionView::Send(s@),
            ReplAction::Skip => ReplActionView::Skip,
        }
    }
}

/// What the prompt does with `line` (see `repl_decision`).
pub fn repl_step(line: &str) -> (res: ReplAction)
    ensures
        res@ == repl_decision(line@),
{
    let t = trim_str(line);
    if str_equal(t.as_str(), "exit") || str_equal(t.as_str(), "quit") {
        return ReplAction::Exit;
    }
    if starts_with(t.as_str(), "login") {
        return match extract_user(t.as_str()) {
            Some(u) => ReplAction::Login(u),
            None => ReplAction::Skip,
        };
    }
    ReplAction::Send(t)
}

/// The command sent for a login: `login --username <user> --password <password>`.
pub open spec fn login_line(user: Seq<char>, password: Seq<char>) -> Seq<char> {
    "login --username "@ + user + " --password "@ + password
}

/// The command sent for a login (see `login_line`).
pub fn login_command(user: &str, password: &str) -> (res: String)
    ensures
        res@ == login_line(user@, password@),
{
    let mut s = "login --username ".to_owned();
    push_str(&mut s, user);
    push_str(&mut s, " --password ");
    push_str(&mut s, password);
    s
}

/// The words of a command line split as a POSIX shell would (quotes and
/// escapes honoured), or `None` when the line cannot be split (an open
/// quote, a trailing escape).
pub uninterp spec fn shell_words(line: Seq<char>) -> Option<Seq<Seq<char>>>;

/// `shlex::split`.
#[verifier::external_body]
fn shlex_split(line: &str) -> (res: Option<Vec<String>>)
    ensures
        match res {
            Some(v) => shell_words(line@) == Some(views(v@)),
            None => shell_words(line@) is None,
        },
{
    shlex::split(line)
}

/// The arguments a command line is parsed from: the program name `repl`,
/// then the shell words of the line (none when it cannot be split).
pub open spec fn command_arg_views(line: Seq<char>) -> Seq<Seq<char>> {
    seq!["repl"@] + match shell_words(line) {
        Some(w) => w,
        None => Seq::empty(),
    }
}

/// The arguments a command line is parsed from (see `command_arg_views`).
pub fn command_args(line: &str) -> (res: Vec<String>)
    ensures
        views(res@) == command_arg_views(line@),
{
    let mut args: Vec<String> = Vec::new();
    args.push("repl".to_owned());
    let parts = match shlex_split(line) {
        Some(p) => p,
        None => Vec::new(),
    };
    let ghost start = views(args@);
    let n = parts.len();
    let mut i: usize = 0;
    while i < n
        invariant
            n == parts@.len(),
            i <= n,
            start == seq!["repl"@],
            views(args@) == start + views(parts@).subrange(0, i as int),
        decreases n - i,
    {
        let ghost before = args@;
        args.push(parts[i].clone());
        assert(views(args@) =~= views(before).push(parts@[i as int]@));
        assert(views(parts@).subrange(0, i + 1) =~= views(parts@).subrange(0, i as int).push(parts@[i as int]@));
        i = i + 1;
    }
    assert(views(parts@).subrange(0, n as int) =~= views(parts@));
    proof {
        if shell_words(line@) is None {
            assert(views(parts@) =~= Seq::<Seq<char>>::empty());
        }
    }
    args
}

} // verus!
