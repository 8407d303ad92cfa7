//! Parsing and validation of the commands of the key-value store: `set`,
//! `get`, `length` and `snapshot`, each with the number of arguments it takes.

use vstd::prelude::*;

use crate::error::Error;
use crate::text::{chars_of, char_is_whitespace, is_whitespace, string_of};

verus! {

/// The kinds of command. Each takes between a least and a greatest number of
/// arguments: `SetValue` 1 to 2, `Get` exactly 1, `Length` and `Snapshot` none.
#[derive(Debug, PartialEq, Eq, Copy, Clone, Structural)]
pub enum CommandType {
    SetValue,
    Get,
    Length,
    Snapshot,
}

/// The lower-case form of an ASCII letter; any other character is kept.
pub open spec fn ascii_lower(c: char) -> char {
    if 'A' <= c <= 'Z' {
        ((c as u32) + 32) as char
    } else {
        c
    }
}

/// The text with its ASCII letters in lower case. On the four command names
/// this agrees with `str::to_lowercase`: no other character lower-cases to a
/// letter of those names.
pub open spec fn lower(s: Seq<char>) -> Seq<char> {
    s.map_values(|c: char| ascii_lower(c))
}

/// The command name that a word stands for, whatever the case of its letters.
pub open spec fn spec_parse_type(s: Seq<char>) -> Option<CommandType> {
    let l = lower(s);
    if l == seq!['s', 'e', 't'] {
        Some(CommandType::SetValue)
    } else if l == seq!['g', 'e', 't'] {
        Some(CommandType::Get)
    } else if l == seq!['l', 'e', 'n', 'g', 't', 'h'] {
        Some(CommandType::Length)
    } else if l == seq!['s', 'n', 'a', 'p', 's', 'h', 'o', 't'] {
        Some(CommandType::Snapshot)
    } else {
        None
    }
}

impl CommandType {
    /// The least number of arguments the command takes.
    pub open spec fn spec_min(self) -> nat {
        match self {
            CommandType::SetValue | CommandType::Get => 1,
            CommandType::Length | CommandType::Snapshot => 0,
        }
    }

    /// The greatest number of arguments the command takes.
    pub open spec fn spec_max(self) -> nat {
        match self {
            CommandType::SetValue => 2,
            CommandType::Get => 1,
            CommandType::Length | CommandType::Snapshot => 0,
        }
    }

    /// Converts a word into a command type, ignoring the case of its letters.
    pub fn parse(s: &str) -> (t: Option<CommandType>)
        ensures
            t == spec_parse_type(s@),
    {
        let v = chars_of(s);
        let l = lower_chars(&v);
        if chars_equal(&l, &vec!['s', 'e', 't']) {
            Some(CommandType::SetValue)
        } else if chars_equal(&l, &vec!['g', 'e', 't']) {
            Some(CommandType::Get)
        } else if chars_equal(&l, &vec!['l', 'e', 'n', 'g', 't', 'h']) {
            Some(CommandType::Length)
        } else if chars_equal(&l, &vec!['s', 'n', 'a', 'p', 's', 'h', 'o', 't']) {
            Some(CommandType::Snapshot)
        } else {
            None
        }
    }

    /// The least number of arguments the command takes.
    pub fn min_argument_count(self) -> (n: usize)
        ensures
            n == self.spec_min(),
    {
        match self {
            CommandType::SetValue | CommandType::Get => 1,
            CommandType::Length | CommandType::Snapshot => 0,
        }
    }

    /// The greatest number of arguments the command takes.
    pub fn max_argument_count(self) -> (n: usize)
        ensures
            n == self.spec_max(),
    {
        match self {
            CommandType::SetValue => 2,
            CommandType::Get => 1,
            CommandType::Length | CommandType::Snapshot => 0,
        }
    }
}

/// The lower-case form of an ASCII letter.
fn lower_char(c: char) -> (l: char)
    ensures
        l == ascii_lower(c),
{
    if 'A' <= c && c <= 'Z' {
        ((c as u8) + 32) as char
    } else {
        c
    }
}

/// The characters with their ASCII letters in lower case.
fn lower_chars(v: &Vec<char>) -> (l: Vec<char>)
    ensures
        l@ == lower(v@),
{
    let mut l: Vec<char> = Vec::new();
    let mut i: usize = 0;
    while i < v.len()
        invariant
            i <= v.len(),
            l@ == lower(v@.take(i as int)),
        decreases v.len() - i,
    {
        l.push(lower_char(v[i]));
        i = i + 1;
        assert(l@ =~= lower(v@.take(i as int)));
    }
    assert(v@.take(v.len() as int) =~= v@);
    l
}

/// Whether two character sequences are equal.
fn chars_equal(a: &Vec<char>, b: &Vec<char>) -> (r: bool)
    ensures
        r == (a@ == b@),
{
    if a.len() != b.len() {
        return false;
    }
    let mut i: usize = 0;
    while i < a.len()
        invariant
            i <= a.len(),
            a.len() == b.len(),
            forall|j: int| 0 <= j < i ==> a@[j] == b@[j],
        decreases a.len() - i,
    {
        if a[i] != b[i] {
            return false;
        }
        i = i + 1;
    }
    assert(a@ =~= b@);
    true
}

/// The views of a sequence of strings.
pub open spec fn views(args: Seq<String>) -> Seq<Seq<char>> {
    args.map_values(|s: String| s@)
}

/// What a command line, given as its words (the first one is the program),
/// stands for: its type, its key and its value; or the error that refuses it.
pub open spec fn spec_command(args: Seq<Seq<char>>) -> Result<
    (CommandType, Option<Seq<char>>, Option<Seq<char>>),
    Error,
> {
    if args.len() < 2 {
        Err(Error::UnknownCommand)
    } else {
        match spec_parse_type(args[1]) {
            None => Err(Error::UnknownCommand),
            Some(t) => {
                let n = args.len() - 2;
                if n < t.spec_min() {
                    Err(Error::MissingArgument)
                } else if n > t.spec_max() {
                    Err(Error::ExtraArgument)
                } else {
                    Ok(
                        (
                            t,
                            if args.len() > 2 {
                                Some(args[2])
                            } else {
                                None
                            },
                            if t == CommandType::SetValue && n >= 2 {
                                Some(args[3])
                            } else {
                                None
                            },
                        ),
                    )
                }
            },
        }
    }
}

/// One step of the splitting of a text into its white-space separated words:
/// the words found so far and the word being read.
pub open spec fn split_step(st: (Seq<Seq<char>>, Seq<char>), c: char) -> (
    Seq<Seq<char>>,
    Seq<char>,
) {
    if is_whitespace(c) {
        if st.1.len() > 0 {
            (st.0.push(st.1), Seq::empty())
        } else {
            st
        }
    } else {
        (st.0, st.1.push(c))
    }
}

/// The splitting state after reading the whole text.
pub open spec fn split_run(st: (Seq<Seq<char>>, Seq<char>), s: Seq<char>) -> (
    Seq<Seq<char>>,
    Seq<char>,
)
    decreases s.len(),
{
    if s.len() == 0 {
        st
    } else {
        split_run(split_step(st, s[0]), s.skip(1))
    }
}

/// The maximal runs of non-white-space characters of a text, in order (what
/// `str::split_whitespace` yields).
pub open spec fn words(s: Seq<char>) -> Seq<Seq<char>> {
    let st = split_run((Seq::empty(), Seq::empty()), s);
    if st.1.len() > 0 {
        st.0.push(st.1)
    } else {
        st.0
    }
}

/// The white-space separated words of a text.
pub fn split_whitespace(line: &str) -> (ws: Vec<String>)
    ensures
        views(ws@) == words(line@),
{
    let v = chars_of(line);
    let mut ws: Vec<String> = Vec::new();
    let mut cur: Vec<char> = Vec::new();
    let mut i: usize = 0;
    assert(v@.skip(0) =~= v@);
    assert(views(ws@) =~= Seq::<Seq<char>>::empty());
    while i < v.len()
        invariant
            i <= v.len(),
            v@ == line@,
            split_run((views(ws@), cur@), v@.skip(i as int)) == split_run(
                (Seq::empty(), Seq::empty()),
                line@,
            ),
        decreases v.len() - i,
    {
        let ghost rest = v@.skip(i as int);
        let ghost st = (views(ws@), cur@);
        assert(rest[0] == v@[i as int]);
        assert(rest.skip(1) =~= v@.skip(i + 1));
        assert(split_run(st, rest) == split_run(split_step(st, rest[0]), rest.skip(1)));
        let c = v[i];
        if char_is_whitespace(c) {
            if cur.len() > 0 {
                let w = string_of(&cur);
                ws.push(w);
                cur = Vec::new();
                assert(views(ws@) =~= st.0.push(st.1));
                assert(cur@ =~= Seq::<char>::empty());
            }
        } else {
            cur.push(c);
        }
        i = i + 1;
    }
    assert(v@.skip(v.len() as int) =~= Seq::<char>::empty());
    if cur.len() > 0 {
        let ghost before = views(ws@);
        let w = string_of(&cur);
        ws.push(w);
        assert(views(ws@) =~= before.push(cur@));
    }
    ws
}

/// A command entered by a user: its type and its arguments.
pub struct Command {
    cmd_type: CommandType,
    key: Option<String>,
    value: Option<String>,
}

/// The value of an optional string.
pub open spec fn opt_view(o: Option<String>) -> Option<Seq<char>> {
    match o {
        Some(s) => Some(s@),
        None => None,
    }
}

impl Command {
    /// The type of the command.
    pub closed spec fn kind(&self) -> CommandType {
        self.cmd_type
    }

    /// The key given to the command, if any.
    pub closed spec fn key(&self) -> Option<Seq<char>> {
        opt_view(self.key)
    }

    /// The value given to the command, if any.
    pub closed spec fn value(&self) -> Option<Seq<char>> {
        opt_view(self.value)
    }

    /// Whether the command has the type, key and value of `t`.
    pub open spec fn stands_for(&self, t: (CommandType, Option<Seq<char>>, Option<Seq<char>>)) -> bool {
        self.kind() == t.0 && self.key() == t.1 && self.value() == t.2
    }

    /// Parses the words of a command line (the first one is the program's name)
    /// and checks the number of arguments that the command takes.
    pub fn new(args: &[String]) -> (r: Result<Command, Error>)
        ensures
            match (r, spec_command(views(args@))) {
                (Ok(cmd), Ok(t)) => cmd.stands_for(t),
                (Err(e), Err(f)) => e == f,
                _ => false,
            },
    {
        let ghost a = views(args@);
        if args.len() < 2 {
            return Err(Error::UnknownCommand);
        }
        assert(a[1] == args@[1]@);
        let cmd_type = match CommandType::parse(args[1].as_str()) {
            Some(t) => t,
            None => {
                return Err(Error::UnknownCommand);
            },
        };
        let received_args = args.len() - 2;
        if received_args < cmd_type.min_argument_count() {
            return Err(Error::MissingArgument);
        }
        if received_args > cmd_type.max_argument_count() {
            return Err(Error::ExtraArgument);
        }
        let key = if args.len() > 2 {
            assert(a[2] == args@[2]@);
            Some(args[2].clone())
        } else {
            None
        };
        let value = get_set_value(cmd_type, args, received_args);
        Ok(Command { cmd_type, key, value })
    }

    /// Splits a text at white space and parses the words as a command line.
    pub fn parse_from_string(line: &str) -> (r: Result<Command, Error>)
        ensures
            match (r, spec_command(seq![Seq::<char>::empty()] + words(line@))) {
                (Ok(cmd), Ok(t)) => cmd.stands_for(t),
                (Err(e), Err(f)) => e == f,
                _ => false,
            },
    {
        let ws = split_whitespace(line);
        let mut args: Vec<String> = Vec::new();
        args.push(String::new());
        let mut i: usize = 0;
        while i < ws.len()
            invariant
                i <= ws.len(),
                views(args@) == seq![Seq::<char>::empty()] + views(ws@).take(i as int),
            decreases ws.len() - i,
        {
            let ghost before = args@;
            args.push(ws[i].clone());
            assert(views(args@) =~= views(before).push(ws@[i as int]@));
            assert(views(ws@).take(i + 1) =~= views(ws@).take(i as int).push(ws@[i as int]@));
            i = i + 1;
            assert(views(args@) =~= seq![Seq::<char>::empty()] + views(ws@).take(i as int));
        }
        assert(views(ws@).take(ws.len() as int) =~= views(ws@));
        Command::new(args.as_slice())
    }

    /// The key of the command, or `NotFound` where it has none.
    pub fn get_key(&self) -> (r: Result<String, Error>)
        ensures
            match self.key() {
                Some(k) => r matches Ok(s) && s@ == k,
                None => r == Err::<String, Error>(Error::NotFound),
            },
    {
        match &self.key {
            Some(key) => Ok(key.clone()),
            None => Err(Error::NotFound),
        }
    }

    /// The value of the command: the empty string for a `set` given no value,
    /// `NotFound` for any other command without one.
    pub fn get_value(&self) -> (r: Result<String, Error>)
        ensures
            match self.value() {
                Some(v) => r matches Ok(s) && s@ == v,
                None => if self.kind() == CommandType::SetValue {
                    r matches Ok(s) && s@ == Seq::<char>::empty()
                } else {
                    r == Err::<String, Error>(Error::NotFound)
                },
            },
    {
        match &self.value {
            Some(value) => Ok(value.clone()),
            None => {
                if self.cmd_type == CommandType::SetValue {
                    Ok(String::new())
                } else {
                    Err(Error::NotFound)
                }
            },
        }
    }

    /// The type of the command.
    pub fn get_type(&self) -> (t: CommandType)
        ensures
            t == self.kind(),
    {
        self.cmd_type
    }
}

/// The value argument of a `set` given two arguments; nothing otherwise.
fn get_set_value(cmd_type: CommandType, args: &[String], received_args: usize) -> (v: Option<
    String,
>)
    requires
        received_args == args.len() - 2,
        args.len() >= 2,
    ensures
        v == (if cmd_type == CommandType::SetValue && received_args >= 2 && args.len() > 3 {
            Some(args@[3])
        } else {
            None::<String>
        }),
{
    if cmd_type == CommandType::SetValue && received_args >= 2 && args.len() > 3 {
        Some(args[3].clone())
    } else {
        None
    }
}

} // verus!
