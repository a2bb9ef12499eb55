//! The command line once parsed: `[OPTIONS] IDENTIFER -- COMMAND [ARGS...]`.

use vstd::prelude::*;

use crate::text::views;

verus! {

/// What the command line asks for.
pub struct Options {
    /// The job identifier, the first word that is no option.
    pub identifer: Option<String>,
    pub help: bool,
    pub version: bool,
    /// Runs of the job may overlap.
    pub multipled: bool,
    /// Report hooks, in the order given.
    pub reports: Vec<String>,
    /// Notify hooks, in the order given.
    pub notifies: Vec<String>,
    /// `NAME=VALUE` assignments, in the order given.
    pub env: Vec<String>,
    /// The working directory of the command.
    pub cwd: Option<String>,
    /// The configuration file to read in place of the default one.
    pub conf: Option<String>,
}

/// What an invocation comes to.
#[derive(Clone, Copy, Debug, PartialEq, Eq, Structural)]
pub enum Request {
    /// Show the usage and stop.
    Usage,
    /// Show the version and stop.
    Version,
    /// Run the command.
    Run,
}

/// The index of the first `--` at `j` or later, if there is one.
pub open spec fn separator_from(args: Seq<Seq<char>>, j: int) -> Option<int>
    decreases args.len() - j,
{
    if j < 0 || j >= args.len() {
        None
    } else if args[j] == "--"@ {
        Some(j)
    } else {
        separator_from(args, j + 1)
    }
}

/// Where the words of the options end: just after the first `--`, or at the
/// end when there is none. The command is what follows.
pub open spec fn options_end(args: Seq<Seq<char>>) -> int {
    match separator_from(args, 0) {
        Some(i) => i + 1,
        None => args.len() as int,
    }
}

proof fn lemma_separator_from(args: Seq<Seq<char>>, j: int)
    requires
        0 <= j,
    ensures
        separator_from(args, j) matches Some(i) ==> j <= i < args.len(),
    decreases args.len() - j,
{
    if j < args.len() && args[j] != "--"@ {
        lemma_separator_from(args, j + 1);
    }
}

/// Where the words of the options end in `args`: just after the first `--`,
/// or at the end when there is none.
pub fn options_end_of(args: &Vec<String>) -> (r: usize)
    ensures
        r == options_end(views(args@)),
        r <= args@.len(),
{
    let separator = String::from_str("--");
    let ghost words = views(args@);
    proof {
        lemma_separator_from(words, 0);
    }
    let mut i: usize = 0;
    while i < args.len()
        invariant
            i <= args@.len(),
            words == views(args@),
            separator@ == "--"@,
            separator_from(words, 0) == separator_from(words, i as int),
        decreases args@.len() - i,
    {
        if args[i] == separator {
            return i + 1;
        }
        i = i + 1;
    }
    args.len()
}

/// The first `=` at `j` or later, if there is one.
pub open spec fn equals_from(s: Seq<char>, j: int) -> Option<int>
    decreases s.len() - j,
{
    if j < 0 || j >= s.len() {
        None
    } else if s[j] == '=' {
        Some(j)
    } else {
        equals_from(s, j + 1)
    }
}

/// A `NAME=VALUE` assignment split at its first `=`.
pub open spec fn assignment(s: Seq<char>) -> Option<(Seq<char>, Seq<char>)> {
    match equals_from(s, 0) {
        Some(p) => Some((s.subrange(0, p), s.subrange(p + 1, s.len() as int))),
        None => None,
    }
}

/// The assignments among `words`, in order; a word without `=` is passed over.
pub open spec fn assignments_of(words: Seq<Seq<char>>) -> Seq<(Seq<char>, Seq<char>)>
    decreases words.len(),
{
    if words.len() == 0 {
        Seq::empty()
    } else {
        match assignment(words.last()) {
            Some(a) => assignments_of(words.drop_last()).push(a),
            None => assignments_of(words.drop_last()),
        }
    }
}

proof fn lemma_equals_from(s: Seq<char>, j: int)
    requires
        0 <= j,
    ensures
        equals_from(s, j) matches Some(p) ==> j <= p < s.len() && s[p] == '=',
    decreases s.len() - j,
{
    if j < s.len() && s[j] != '=' {
        lemma_equals_from(s, j + 1);
    }
}

/// Splits `NAME=VALUE` at its first `=`; `None` when there is no `=`.
pub fn split_assignment(s: &str) -> (r: Option<(String, String)>)
    ensures
        match assignment(s@) {
            Some((name, value)) => r matches Some((n, v)) && n@ == name && v@ == value,
            None => r is None,
        },
{
    let n = s.unicode_len();
    proof {
        lemma_equals_from(s@, 0);
    }
    let mut i: usize = 0;
    while i < n
        invariant
            n == s@.len(),
            i <= n,
            equals_from(s@, 0) == equals_from(s@, i as int),
        decreases n - i,
    {
        if s.get_char(i) == '=' {
            return Some((String::from_str(s.substring_char(0, i)), String::from_str(s.substring_char(i + 1, n))));
        }
        i = i + 1;
    }
    None
}

impl Options {
    /// Options that ask for nothing: no identifier, no flag, no hook, no
    /// assignment, no directory and no configuration file.
    pub fn new() -> (r: Options)
        ensures
            r.identifer is None,
            !r.help && !r.version && !r.multipled,
            r.reports@.len() == 0,
            r.notifies@.len() == 0,
            r.env@.len() == 0,
            r.cwd is None,
            r.conf is None,
    {
        Options {
            identifer: None,
            help: false,
            version: false,
            multipled: false,
            reports: Vec::new(),
            notifies: Vec::new(),
            env: Vec::new(),
            cwd: None,
            conf: None,
        }
    }

    /// What the invocation asks for, given how many words of command follow
    /// the options: help first, then the version, and the usage again when
    /// the identifier or the command is missing.
    pub fn request(&self, command_words: usize) -> (r: Request)
        ensures
            r == (if self.help {
                Request::Usage
            } else if self.version {
                Request::Version
            } else if self.identifer is None || command_words == 0 {
                Request::Usage
            } else {
                Request::Run
            }),
    {
        if self.help {
            Request::Usage
        } else if self.version {
            Request::Version
        } else if self.identifer.is_none() || command_words == 0 {
            Request::Usage
        } else {
            Request::Run
        }
    }
}

} // verus!
