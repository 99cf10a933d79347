//! Command grammar: a total, order-sensitive parser from one trimmed
//! command line to a closed set of command shapes.
//!
//! The rules, first match wins, case-sensitive, with any number of spaces
//! between tokens:
//! 1. exactly `list`
//! 2. exactly `reqs`
//! 3. `glide <path> @<user>` — the path may contain spaces and runs
//!    greedily up to the last ` @`; the user token is nonempty and
//!    space-free
//! 4. `ok @<user>`
//! 5. `no @<user>`
//! 6. `help`, or `help <topic>` with a nonempty topic
//! 7. anything else is `Invalid`, carrying the original text
//!
//! Parsing is pure: it never fails and touches nothing.
use vstd::prelude::*;
use vstd::string::StrSliceExecFns;
use vstd::string::StringExecFns;
use vstd::pervasive::unreached;

verus! {

/// One parsed command.
#[derive(Debug, PartialEq, Eq)]
pub enum Command {
    /// List the other connected users.
    List,
    /// List the caller's pending share requests.
    Requests,
    /// Offer the file at `path` to user `to`.
    Glide { path: String, to: String },
    /// Accept the earliest pending request from `from`.
    Accept { from: String },
    /// Decline the earliest pending request from `from`.
    Decline { from: String },
    /// Ask for help, perhaps on a topic.
    Help(Option<String>),
    /// Anything the grammar does not know, kept verbatim.
    Invalid(String),
}

/// Mathematical image of a [`Command`].
pub enum CommandV {
    List,
    Requests,
    Glide { path: Seq<char>, to: Seq<char> },
    Accept { from: Seq<char> },
    Decline { from: Seq<char> },
    Help(Option<Seq<char>>),
    Invalid(Seq<char>),
}

impl View for Command {
    type V = CommandV;

    open spec fn view(&self) -> CommandV {
        match self {
            Command::List => CommandV::List,
            Command::Requests => CommandV::Requests,
            Command::Glide { path, to } => CommandV::Glide { path: path@, to: to@ },
            Command::Accept { from } => CommandV::Accept { from: from@ },
            Command::Decline { from } => CommandV::Decline { from: from@ },
            Command::Help(t) => CommandV::Help(
                match t {
                    Some(x) => Some(x@),
                    None => None,
                },
            ),
            Command::Invalid(s) => CommandV::Invalid(s@),
        }
    }
}

/// The first index at or after `i` that is not a space, or the length.
pub open spec fn skip_spaces(s: Seq<char>, i: int) -> int
    decreases s.len() - i,
{
    if 0 <= i < s.len() && s[i] == ' ' {
        skip_spaces(s, i + 1)
    } else {
        i
    }
}

/// The last index at or before `j` holding ` @` (the index of the `@`),
/// or -1.
pub open spec fn last_at_from(s: Seq<char>, j: int) -> int
    decreases j + 1,
{
    if j < 1 {
        -1
    } else if j < s.len() && s[j] == '@' && s[j - 1] == ' ' {
        j
    } else {
        last_at_from(s, j - 1)
    }
}

/// The last index at or before `j` that is not a space, or -1.
pub open spec fn last_nonspace(s: Seq<char>, j: int) -> int
    decreases j + 1,
{
    if j < 0 {
        -1
    } else if j < s.len() && s[j] != ' ' {
        j
    } else {
        last_nonspace(s, j - 1)
    }
}

/// No space anywhere in `[lo, hi)`.
pub open spec fn no_space(s: Seq<char>, lo: int, hi: int) -> bool {
    forall|k: int| lo <= k < hi ==> (#[trigger] s[k]) != ' '
}

/// The path and user of a `glide` line, if it has that shape.
pub open spec fn glide_parts(s: Seq<char>) -> Option<(Seq<char>, Seq<char>)> {
    if s.len() > 5 && s.subrange(0, 5) == "glide"@ && s[5] == ' ' {
        let b = skip_spaces(s, 5);
        let j = last_at_from(s, s.len() - 1);
        if j >= b + 1 && j + 1 < s.len() && no_space(s, j + 1, s.len() as int) {
            let e = last_nonspace(s, j - 2);
            if b <= e {
                Some((s.subrange(b, e + 1), s.subrange(j + 1, s.len() as int)))
            } else {
                None
            }
        } else {
            None
        }
    } else {
        None
    }
}

/// The `@<user>` token after a keyword of length `kwlen`, if well formed:
/// spaces, then `@`, then a nonempty, space-free name reaching the end.
pub open spec fn tail_user(s: Seq<char>, kwlen: int) -> Option<Seq<char>> {
    let b = skip_spaces(s, kwlen);
    if b + 1 < s.len() && s[b] == '@' && no_space(s, b + 1, s.len() as int) {
        Some(s.subrange(b + 1, s.len() as int))
    } else {
        None
    }
}

/// The user of an `ok @<user>` line, if it has that shape.
pub open spec fn accept_from(s: Seq<char>) -> Option<Seq<char>> {
    if s.len() > 2 && s.subrange(0, 2) == "ok"@ && s[2] == ' ' {
        tail_user(s, 2)
    } else {
        None
    }
}

/// The user of a `no @<user>` line, if it has that shape.
pub open spec fn decline_from(s: Seq<char>) -> Option<Seq<char>> {
    if s.len() > 2 && s.subrange(0, 2) == "no"@ && s[2] == ' ' {
        tail_user(s, 2)
    } else {
        None
    }
}

/// The topic of a `help` line: `Some(None)` for bare `help`, `Some(Some(t))`
/// for `help <topic>`, `None` when the line is not a help request.
pub open spec fn help_topic(s: Seq<char>) -> Option<Option<Seq<char>>> {
    if s == "help"@ {
        Some(None)
    } else if s.len() > 4 && s.subrange(0, 4) == "help"@ && s[4] == ' ' {
        let b = skip_spaces(s, 4);
        if b == s.len() {
            Some(None)
        } else {
            let e = last_nonspace(s, s.len() - 1);
            Some(Some(s.subrange(b, e + 1)))
        }
    } else {
        None
    }
}

/// The whole grammar: which command a line denotes.
pub open spec fn parse_spec(s: Seq<char>) -> CommandV {
    if s == "list"@ {
        CommandV::List
    } else if s == "reqs"@ {
        CommandV::Requests
    } else if glide_parts(s) is Some {
        CommandV::Glide { path: (glide_parts(s)->0).0, to: (glide_parts(s)->0).1 }
    } else if accept_from(s) is Some {
        CommandV::Accept { from: accept_from(s)->0 }
    } else if decline_from(s) is Some {
        CommandV::Decline { from: decline_from(s)->0 }
    } else if help_topic(s) is Some {
        CommandV::Help(help_topic(s)->0)
    } else {
        CommandV::Invalid(s)
    }
}

/// Where `skip_spaces` lands: on the first nonspace, past only spaces.
proof fn lemma_skip_spaces(s: Seq<char>, i: int)
    requires
        0 <= i <= s.len(),
    ensures
        i <= skip_spaces(s, i) <= s.len(),
        skip_spaces(s, i) < s.len() ==> s[skip_spaces(s, i)] != ' ',
        forall|k: int| i <= k < skip_spaces(s, i) ==> s[k] == ' ',
    decreases s.len() - i,
{
    if i < s.len() && s[i] == ' ' {
        lemma_skip_spaces(s, i + 1);
    }
}

/// A nonspace at or before `j` keeps `last_nonspace` at or above it.
proof fn lemma_last_nonspace_at_least(s: Seq<char>, j: int, k: int)
    requires
        0 <= k <= j < s.len(),
        s[k] != ' ',
    ensures
        last_nonspace(s, j) >= k,
    decreases j + 1,
{
    if j > k && !(s[j] != ' ') {
        lemma_last_nonspace_at_least(s, j - 1, k);
    }
}

/// Whether two strings hold the same characters.
fn str_eq(a: &str, b: &str) -> (r: bool)
    ensures
        r == (a@ == b@),
{
    let n = a.unicode_len();
    let m = b.unicode_len();
    if n != m {
        return false;
    }
    let mut i: usize = 0;
    while i < n
        invariant
            i <= n,
            n == a@.len(),
            n == b@.len(),
            forall|k: int| 0 <= k < i ==> a@[k] == b@[k],
        decreases n - i,
    {
        if a.get_char(i) != b.get_char(i) {
            return false;
        }
        i += 1;
    }
    proof {
        assert(a@ =~= b@);
    }
    true
}

/// Whether `p` is a prefix of `s`.
fn prefix_eq(s: &str, p: &str) -> (r: bool)
    ensures
        r == (s@.len() >= p@.len() && s@.subrange(0, p@.len() as int) == p@),
{
    let n = s.unicode_len();
    let m = p.unicode_len();
    if n < m {
        return false;
    }
    let mut i: usize = 0;
    while i < m
        invariant
            i <= m,
            m == p@.len(),
            n == s@.len(),
            n >= m,
            forall|k: int| 0 <= k < i ==> s@[k] == p@[k],
        decreases m - i,
    {
        if s.get_char(i) != p.get_char(i) {
            proof {
                assert(s@.subrange(0, m as int)[i as int] == s@[i as int]);
            }
            return false;
        }
        i += 1;
    }
    proof {
        assert(s@.subrange(0, m as int) =~= p@);
    }
    true
}

/// The first index at or after `i` that is not a space, or the length.
fn skip_spaces_exec(s: &str, i: usize) -> (r: usize)
    requires
        i as int <= s@.len(),
    ensures
        r as int == skip_spaces(s@, i as int),
        i <= r,
        r as int <= s@.len(),
{
    let n = s.unicode_len();
    let mut cur = i;
    while cur < n && s.get_char(cur) == ' '
        invariant
            i <= cur <= n,
            n == s@.len(),
            skip_spaces(s@, i as int) == skip_spaces(s@, cur as int),
        decreases n - cur,
    {
        cur += 1;
    }
    cur
}

/// The index of the last ` @` (its `@`), scanning the whole string.
fn last_at_exec(s: &str) -> (r: Option<usize>)
    ensures
        match r {
            Some(j) => 1 <= j && (j as int) < s@.len() && last_at_from(s@, s@.len() - 1)
                == j as int,
            None => last_at_from(s@, s@.len() - 1) == -1,
        },
{
    let n = s.unicode_len();
    if n < 2 {
        return None;
    }
    let mut j: usize = n - 1;
    while j >= 1
        invariant
            j <= n - 1,
            n == s@.len(),
            n >= 2,
            last_at_from(s@, n as int - 1) == last_at_from(s@, j as int),
        decreases j,
    {
        if s.get_char(j) == '@' && s.get_char(j - 1) == ' ' {
            return Some(j);
        }
        j -= 1;
    }
    None
}

/// The last index at or before `from` that is not a space.
fn last_nonspace_exec(s: &str, from: usize) -> (r: Option<usize>)
    requires
        (from as int) < s@.len(),
    ensures
        match r {
            Some(e) => e <= from && last_nonspace(s@, from as int) == e as int,
            None => last_nonspace(s@, from as int) == -1,
        },
{
    let mut j = from;
    while j > 0
        invariant
            j <= from,
            (from as int) < s@.len(),
            last_nonspace(s@, from as int) == last_nonspace(s@, j as int),
        decreases j,
    {
        if s.get_char(j) != ' ' {
            return Some(j);
        }
        j -= 1;
    }
    assert(j == 0);
    if s.get_char(0) != ' ' {
        assert(last_nonspace(s@, 0) == 0);
        Some(0)
    } else {
        assert(last_nonspace(s@, 0) == last_nonspace(s@, -1));
        None
    }
}

/// Whether `[lo, hi)` is free of spaces.
fn all_nonspace(s: &str, lo: usize, hi: usize) -> (r: bool)
    requires
        lo <= hi,
        hi as int <= s@.len(),
    ensures
        r == no_space(s@, lo as int, hi as int),
{
    let mut i = lo;
    while i < hi
        invariant
            lo <= i <= hi,
            hi as int <= s@.len(),
            forall|k: int| lo <= k < i ==> (#[trigger] s@[k]) != ' ',
        decreases hi - i,
    {
        if s.get_char(i) == ' ' {
            return false;
        }
        i += 1;
    }
    true
}

/// An owned copy of the characters in `[a, b)`.
fn substring_to_string(s: &str, a: usize, b: usize) -> (r: String)
    requires
        a <= b,
        b as int <= s@.len(),
    ensures
        r@ == s@.subrange(a as int, b as int),
{
    String::from_str(s.substring_char(a, b))
}

/// The path and user of a `glide` line, if it has that shape.
fn glide_parts_exec(line: &str) -> (r: Option<(String, String)>)
    ensures
        match r {
            Some(pu) => glide_parts(line@) == Some((pu.0@, pu.1@)),
            None => glide_parts(line@) is None,
        },
{
    proof {
        reveal_strlit("glide");
    }
    let n = line.unicode_len();
    if !(n > 5 && prefix_eq(line, "glide")) {
        return None;
    }
    if line.get_char(5) != ' ' {
        return None;
    }
    let b = skip_spaces_exec(line, 5);
    match last_at_exec(line) {
        None => None,
        Some(j) => {
            if !(j > b && j + 1 < n) {
                return None;
            }
            if !all_nonspace(line, j + 1, n) {
                return None;
            }
            match last_nonspace_exec(line, j - 2) {
                None => None,
                Some(e) => {
                    if e < b {
                        return None;
                    }
                    let path = substring_to_string(line, b, e + 1);
                    let user = substring_to_string(line, j + 1, n);
                    Some((path, user))
                },
            }
        },
    }
}

/// The user of a `<kw> @<user>` line, after a keyword of length `kwlen`.
fn tail_user_exec(line: &str, kwlen: usize) -> (r: Option<String>)
    requires
        kwlen as int <= line@.len(),
    ensures
        match r {
            Some(u) => tail_user(line@, kwlen as int) == Some(u@),
            None => tail_user(line@, kwlen as int) is None,
        },
{
    let n = line.unicode_len();
    let b = skip_spaces_exec(line, kwlen);
    if b < n && b + 1 < n && line.get_char(b) == '@' {
        if all_nonspace(line, b + 1, n) {
            return Some(substring_to_string(line, b + 1, n));
        }
    }
    None
}

/// The user of an `ok @<user>` line, if it has that shape.
fn accept_from_exec(line: &str) -> (r: Option<String>)
    ensures
        match r {
            Some(u) => accept_from(line@) == Some(u@),
            None => accept_from(line@) is None,
        },
{
    proof {
        reveal_strlit("ok");
    }
    let n = line.unicode_len();
    if n > 2 && prefix_eq(line, "ok") {
        if line.get_char(2) == ' ' {
            return tail_user_exec(line, 2);
        }
    }
    None
}

/// The user of a `no @<user>` line, if it has that shape.
fn decline_from_exec(line: &str) -> (r: Option<String>)
    ensures
        match r {
            Some(u) => decline_from(line@) == Some(u@),
            None => decline_from(line@) is None,
        },
{
    proof {
        reveal_strlit("no");
    }
    let n = line.unicode_len();
    if n > 2 && prefix_eq(line, "no") {
        if line.get_char(2) == ' ' {
            return tail_user_exec(line, 2);
        }
    }
    None
}

/// The topic of a `help` line, if the line is a help request.
fn help_topic_exec(line: &str) -> (r: Option<Option<String>>)
    ensures
        match r {
            None => help_topic(line@) is None,
            Some(None) => help_topic(line@) == Some(None::<Seq<char>>),
            Some(Some(x)) => help_topic(line@) == Some(Some(x@)),
        },
{
    proof {
        reveal_strlit("help");
    }
    if str_eq(line, "help") {
        return Some(None);
    }
    let n = line.unicode_len();
    if !(n > 4 && prefix_eq(line, "help")) {
        return None;
    }
    if line.get_char(4) != ' ' {
        return None;
    }
    let b = skip_spaces_exec(line, 4);
    if b == n {
        return Some(None);
    }
    proof {
        lemma_skip_spaces(line@, 4);
        lemma_last_nonspace_at_least(line@, n as int - 1, b as int);
    }
    match last_nonspace_exec(line, n - 1) {
        Some(e) => Some(Some(substring_to_string(line, b, e + 1))),
        None => unreached(),
    }
}

/// Parses one trimmed command line. Total: every line yields a command,
/// unknown ones as `Invalid` with the original text.
pub fn parse(line: &str) -> (r: Command)
    ensures
        r@ == parse_spec(line@),
{
    if str_eq(line, "list") {
        return Command::List;
    }
    if str_eq(line, "reqs") {
        return Command::Requests;
    }
    if let Some((path, to)) = glide_parts_exec(line) {
        return Command::Glide { path, to };
    }
    if let Some(from) = accept_from_exec(line) {
        return Command::Accept { from };
    }
    if let Some(from) = decline_from_exec(line) {
        return Command::Decline { from };
    }
    if let Some(topic) = help_topic_exec(line) {
        return Command::Help(topic);
    }
    Command::Invalid(String::from_str(line))
}

} // verus!
