//! Commands typed into the message area.
//!
//! A command is a pattern with an action. A line of text is a command where
//! the pattern matches somewhere in it; the groups of the leftmost match are
//! the command's arguments. `/ban <username>` is the one command there is.

use crate::network::{User, UserView};
use crate::schema::{opt_text, PeerAddr};
use vstd::prelude::*;
use vstd::string::StringExecFns;

verus! {

/// The pattern of the ban command: `/ban`, white space, and a name.
pub const BAN_PATTERN: &'static str = "/ban\\s+(\\S+)";

/// The groups of the leftmost match of the regular expression `pattern` in
/// `haystack`, as the `regex` crate finds them: group 0 is the whole match,
/// and a group that took no part in the match is `None`. The result is `None`
/// where nothing matches, and where `pattern` does not compile.
pub uninterp spec fn regex_captures(pattern: Seq<char>, haystack: Seq<char>) -> Option<
    Seq<Option<Seq<char>>>,
>;

/// The groups of a list, each as plain values.
pub open spec fn groups_view(groups: Seq<Option<String>>) -> Seq<Option<Seq<char>>> {
    groups.map_values(|g: Option<String>| opt_text(g))
}

/// Compiles `pattern` with `regex::Regex::new`, calls `Regex::captures` on
/// `haystack`, and copies out the text of each group that `Captures::iter`
/// yields. A match always has its group 0.
#[verifier::external_body]
fn captures(pattern: &str, haystack: &str) -> (r: Option<Vec<Option<String>>>)
    ensures
        match r {
            Some(groups) => regex_captures(pattern@, haystack@) == Some(groups_view(groups@))
                && groups@.len() >= 1 && groups@[0] is Some,
            None => regex_captures(pattern@, haystack@) is None,
        },
{
    let re = regex::Regex::new(pattern).ok()?;
    let found = re.captures(haystack)?;
    Some(found.iter().map(|group| group.map(|m| m.as_str().to_string())).collect())
}

/// What a command does.
#[derive(Clone, Copy, Debug, PartialEq, Eq, Structural)]
pub enum Action {
    /// Ask the host to ban the user that the first argument names.
    Ban,
}

/// The arguments of a command: the text of every group, where every group
/// took part in the match.
pub open spec fn spec_args(groups: Seq<Option<Seq<char>>>) -> Option<Seq<Seq<char>>> {
    if forall|i: int| 0 <= i < groups.len() ==> (#[trigger] groups[i]) is Some {
        Some(groups.map_values(|g: Option<Seq<char>>| g.unwrap()))
    } else {
        None
    }
}

/// The strings of a list, each as a sequence of characters.
pub open spec fn strings_view(v: Seq<String>) -> Seq<Seq<char>> {
    v.map_values(|s: String| s@)
}

/// The arguments that the groups of a match make (see [`spec_args`]).
pub fn args_of(groups: Vec<Option<String>>) -> (r: Option<Vec<String>>)
    ensures
        match r {
            Some(args) => spec_args(groups_view(groups@)) == Some(strings_view(args@)),
            None => spec_args(groups_view(groups@)) is None,
        },
{
    let ghost gv = groups_view(groups@);
    let mut out: Vec<String> = Vec::new();
    let mut i: usize = 0;
    while i < groups.len()
        invariant
            i <= groups.len(),
            gv == groups_view(groups@),
            out@.len() == i,
            forall|j: int| 0 <= j < i ==> (#[trigger] gv[j]) is Some,
            forall|j: int| 0 <= j < i ==> (#[trigger] out@[j])@ == gv[j].unwrap(),
        decreases groups.len() - i,
    {
        match &groups[i] {
            Some(text) => {
                out.push(text.clone());
            },
            None => {
                assert(gv[i as int] is None);
                return None;
            },
        }
        i += 1;
    }
    assert(strings_view(out@) =~= gv.map_values(|g: Option<Seq<char>>| g.unwrap()));
    Some(out)
}

/// The address of the first of `users` whose name is the first argument of
/// the command, where there are such an argument and such a user and the
/// user has an address.
pub open spec fn spec_ban_target(args: Seq<Seq<char>>, users: Seq<UserView>) -> Option<PeerAddr> {
    if args.len() < 2 {
        None
    } else if exists|i: int| 0 <= i < users.len() && (#[trigger] users[i]).id == args[1] {
        let first = choose|i: int|
            0 <= i < users.len() && (#[trigger] users[i]).id == args[1] && forall|j: int|
                0 <= j < i ==> (#[trigger] users[j]).id != args[1];
        users[first].addr
    } else {
        None
    }
}

/// The ban command.
#[derive(Clone, Copy, Debug, PartialEq, Eq, Structural)]
pub struct Ban;

impl Ban {
    /// Whom the command with the arguments `args` asks to ban (see
    /// [`spec_ban_target`]).
    pub fn target(args: &Vec<String>, users: &Vec<User>) -> (r: Option<PeerAddr>)
        ensures
            r == spec_ban_target(strings_view(args@), crate::network::users_view(users@)),
    {
        let ghost av = strings_view(args@);
        let ghost uv = crate::network::users_view(users@);
        if args.len() < 2 {
            return None;
        }
        let mut i: usize = 0;
        while i < users.len()
            invariant
                i <= users.len(),
                args@.len() >= 2,
                av == strings_view(args@),
                uv == crate::network::users_view(users@),
                forall|j: int| 0 <= j < i ==> (#[trigger] uv[j]).id != av[1],
            decreases users.len() - i,
        {
            if users[i].id == args[1] {
                proof {
                    assert(uv[i as int].id == av[1]);
                    let first = choose|k: int|
                        0 <= k < uv.len() && (#[trigger] uv[k]).id == av[1] && forall|j: int|
                            0 <= j < k ==> (#[trigger] uv[j]).id != av[1];
                    assert(first == i) by {
                        if first < i {
                            assert(uv[first].id != av[1]);
                        }
                        if first > i {
                            assert(uv[i as int].id != av[1]);
                        }
                    }
                }
                return users[i].addr;
            }
            i += 1;
        }
        None
    }
}

/// A pattern and what a match of it asks for.
#[derive(Debug, PartialEq, Eq)]
pub struct Command {
    pub pattern: String,
    pub action: Action,
}

impl Command {
    /// The command that does `action` where `pattern` matches.
    pub fn new(pattern: &str, action: Action) -> (c: Self)
        ensures
            c.pattern@ == pattern@,
            c.action == action,
    {
        Command { pattern: String::from_str(pattern), action }
    }

    /// The ban command.
    pub fn ban() -> (c: Self)
        ensures
            c.pattern@ == BAN_PATTERN@,
            c.action == Action::Ban,
    {
        Command::new(BAN_PATTERN, Action::Ban)
    }

    /// What this command finds in `haystack`: its arguments where its pattern
    /// matches and every group took part, else nothing.
    pub open spec fn spec_parse(self, haystack: Seq<char>) -> Option<Seq<Seq<char>>> {
        match regex_captures(self.pattern@, haystack) {
            Some(groups) => spec_args(groups),
            None => None,
        }
    }

    /// Looks for this command in `haystack`.
    pub fn parse(&self, haystack: &str) -> (r: Option<Vec<String>>)
        ensures
            match r {
                Some(args) => self.spec_parse(haystack@) == Some(strings_view(args@)),
                None => self.spec_parse(haystack@) is None,
            },
    {
        match captures(self.pattern.as_str(), haystack) {
            Some(groups) => args_of(groups),
            None => None,
        }
    }
}

/// The commands that a line of text is tried against, in order.
#[derive(Debug, PartialEq, Eq)]
pub struct Commander {
    pub commands: Vec<Command>,
}

impl Commander {
    /// A commander that tries `commands` in the given order.
    pub fn new(commands: Vec<Command>) -> (c: Self)
        ensures
            c.commands == commands,
    {
        Commander { commands }
    }

    /// The index of the first command found in `haystack`, if any is.
    pub open spec fn spec_first_match(self, haystack: Seq<char>) -> Option<int> {
        if exists|i: int|
            0 <= i < self.commands@.len() && (#[trigger] self.commands@[i]).spec_parse(haystack)
                is Some {
            Some(
                choose|i: int|
                    0 <= i < self.commands@.len() && (#[trigger] self.commands@[i]).spec_parse(
                        haystack,
                    ) is Some && forall|j: int|
                        0 <= j < i ==> (#[trigger] self.commands@[j]).spec_parse(haystack)
                            is None,
            )
        } else {
            None
        }
    }

    /// Tries the commands in order on `haystack`. The first that is found
    /// gives its action and its arguments; where none is, the text is no
    /// command.
    pub fn parse(&self, haystack: &str) -> (r: Option<(Action, Vec<String>)>)
        ensures
            match r {
                Some((action, args)) => {
                    &&& self.spec_first_match(haystack@) matches Some(i)
                    &&& 0 <= i < self.commands@.len()
                    &&& action == self.commands@[i].action
                    &&& self.commands@[i].spec_parse(haystack@) == Some(strings_view(args@))
                },
                None => self.spec_first_match(haystack@) is None,
            },
    {
        let mut i: usize = 0;
        while i < self.commands.len()
            invariant
                i <= self.commands.len(),
                forall|j: int|
                    0 <= j < i ==> (#[trigger] self.commands@[j]).spec_parse(haystack@) is None,
            decreases self.commands.len() - i,
        {
            match self.commands[i].parse(haystack) {
                Some(args) => {
                    proof {
                        assert(self.commands@[i as int].spec_parse(haystack@) is Some);
                        let first = self.spec_first_match(haystack@).unwrap();
                        assert(first == i) by {
                            if first < i {
                                assert(self.commands@[first].spec_parse(haystack@) is None);
                            }
                            if first > i {
                                assert(self.commands@[i as int].spec_parse(haystack@) is None);
                            }
                        }
                    }
                    return Some((self.commands[i].action, args));
                },
                None => {},
            }
            i += 1;
        }
        None
    }
}

} // verus!
