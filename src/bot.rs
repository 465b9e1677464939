//! The chat bot's canned replies, and the kinds of achievement it records.

use vstd::prelude::*;
use vstd::string::*;
use crate::terminal::{chars_of, occurs_at, occurs_at_exec};

verus! {

/// A chat command with a fixed reply. `{user}` in the reply stands for the
/// name of whoever sent the command.
#[derive(Clone, Debug, PartialEq, Eq)]
pub struct Command {
    /// The command's name, without the leading `!`.
    pub trigger: String,
    /// The reply.
    pub response: String,
}

/// The bot's settings: its canned replies.
#[derive(Clone, Debug, PartialEq, Eq)]
pub struct Config {
    pub command: Vec<Command>,
}

/// What a chatter can achieve.
#[derive(Clone, Copy, Debug, PartialEq, Eq, Structural)]
pub enum AchievementKind {
    /// Several rubber chickens in a row.
    ChickenRun,
}

/// Whether `c` has Unicode's White_Space property.
pub open spec fn is_white(c: char) -> bool {
    let u = c as u32;
    ||| 0x09 <= u <= 0x0d
    ||| u == 0x20
    ||| u == 0x85
    ||| u == 0xa0
    ||| u == 0x1680
    ||| 0x2000 <= u <= 0x200a
    ||| u == 0x2028
    ||| u == 0x2029
    ||| u == 0x202f
    ||| u == 0x205f
    ||| u == 0x3000
}

/// Whether `c` is white space.
pub fn white(c: char) -> (r: bool)
    ensures
        r == is_white(c),
{
    let u = c as u32;
    (0x09 <= u && u <= 0x0d) || u == 0x20 || u == 0x85 || u == 0xa0 || u == 0x1680 || (0x2000 <= u
        && u <= 0x200a) || u == 0x2028 || u == 0x2029 || u == 0x202f || u == 0x205f || u == 0x3000
}

/// The first position from `from` on that holds white space, or the length
/// of `s` where none does.
pub open spec fn next_white(s: Seq<char>, from: int) -> int
    decreases s.len() - from,
{
    if from >= s.len() {
        s.len() as int
    } else if is_white(s[from]) {
        from
    } else {
        next_white(s, from + 1)
    }
}

/// The first position from `from` on that holds no white space, or the
/// length of `s` where none does.
pub open spec fn next_word(s: Seq<char>, from: int) -> int
    decreases s.len() - from,
{
    if from >= s.len() {
        s.len() as int
    } else if !is_white(s[from]) {
        from
    } else {
        next_word(s, from + 1)
    }
}

/// A chat message read as a command: `!` and then the command's name, the
/// first word; its arguments are what follows the first white space, if
/// there is any. A message with no `!` in front, or with no word after it,
/// is no command.
pub open spec fn command_of(text: Seq<char>) -> Option<(Seq<char>, Option<Seq<char>>)> {
    if text.len() == 0 || text[0] != '!' {
        None
    } else {
        let body = text.drop_first();
        let start = next_word(body, 0);
        if start == body.len() {
            None
        } else {
            let name = body.subrange(start, next_white(body, start));
            let gap = next_white(body, 0);
            let arguments = if gap < body.len() {
                Some(body.subrange(gap + 1, body.len() as int))
            } else {
                None
            };
            Some((name, arguments))
        }
    }
}

/// The first position from `from` on, in `chars`, whose white-space-ness is
/// `wanted`.
fn scan(chars: &Vec<char>, from: usize, wanted: bool) -> (r: usize)
    requires
        1 <= from <= chars@.len(),
    ensures
        r as int - 1 == if wanted {
            next_white(chars@.drop_first(), from - 1)
        } else {
            next_word(chars@.drop_first(), from - 1)
        },
        from <= r <= chars@.len(),
    decreases chars@.len() - from,
{
    if from == chars.len() {
        return from;
    }
    if white(chars[from]) == wanted {
        return from;
    }
    scan(chars, from + 1, wanted)
}

/// Reads a chat message as a command name and its arguments.
pub fn parse_command(text: &str) -> (r: Option<(String, Option<String>)>)
    ensures
        match (command_of(text@), r) {
            (None, None) => true,
            (Some((name, arguments)), Some((parsed_name, parsed_arguments))) => {
                &&& parsed_name@ == name
                &&& match (arguments, parsed_arguments) {
                    (None, None) => true,
                    (Some(a), Some(parsed)) => parsed@ == a,
                    _ => false,
                }
            },
            _ => false,
        },
{
    let chars = chars_of(text);
    let n = chars.len();
    if n == 0 || chars[0] != '!' {
        return None;
    }
    let ghost body = text@.drop_first();
    let start = scan(&chars, 1, false);
    if start == n {
        return None;
    }
    let end = scan(&chars, start, true);
    let name = text.substring_char(start, end).to_owned();
    assert(name@ =~= body.subrange(start - 1, end - 1));
    let gap = scan(&chars, 1, true);
    let arguments = if gap < n {
        let rest = text.substring_char(gap + 1, n).to_owned();
        assert(rest@ =~= body.subrange(gap as int, body.len() as int));
        Some(rest)
    } else {
        None
    };
    Some((name, arguments))
}

/// `text` with each occurrence of `from`, taken left to right without
/// overlap, put in place by `to`. An empty `from` occurs before each
/// character and at the end.
pub open spec fn replaced(text: Seq<char>, from: Seq<char>, to: Seq<char>) -> Seq<char>
    decreases text.len(),
{
    if from.len() == 0 {
        if text.len() == 0 {
            to
        } else {
            to + seq![text[0]] + replaced(text.drop_first(), from, to)
        }
    } else if text.len() == 0 {
        text
    } else if occurs_at(text, from, 0) {
        to + replaced(text.subrange(from.len() as int, text.len() as int), from, to)
    } else {
        seq![text[0]] + replaced(text.drop_first(), from, to)
    }
}

/// The reply of the first command whose trigger is `trigger`.
pub open spec fn first_response(commands: Seq<Command>, trigger: Seq<char>) -> Option<Seq<char>>
    decreases commands.len(),
{
    if commands.len() == 0 {
        None
    } else if commands[0].trigger@ == trigger {
        Some(commands[0].response@)
    } else {
        first_response(commands.drop_first(), trigger)
    }
}

/// `text` with every `from` replaced by `to`, left to right.
pub fn replace_all(text: &str, from: &str, to: &str) -> (r: String)
    ensures
        r@ == replaced(text@, from@, to@),
{
    let chars = chars_of(text);
    let wanted = chars_of(from);
    let n: usize = chars.len();
    let mut out = String::new();
    let mut i: usize = 0;
    assert(text@.subrange(0, n as int) =~= text@);
    if wanted.len() == 0 {
        while i < n
            invariant
                n == text@.len(),
                from@.len() == 0,
                i <= n,
                out@ + replaced(text@.subrange(i as int, n as int), from@, to@) == replaced(text@, from@, to@),
            decreases n - i,
        {
            let ghost before = out@;
            proof {
                assert(text@.subrange(i as int, n as int).drop_first() =~= text@.subrange(i + 1, n as int));
            }
            out.append(to);
            let piece = text.substring_char(i, i + 1);
            assert(piece@ =~= seq![text@[i as int]]);
            out.append(piece);
            i = i + 1;
            assert(out@ + replaced(text@.subrange(i as int, n as int), from@, to@) =~= before + (to@
                + seq![text@[i - 1]] + replaced(text@.subrange(i as int, n as int), from@, to@)));
        }
        assert(text@.subrange(n as int, n as int).len() == 0);
        out.append(to);
        return out;
    }
    while i < n
        invariant
            n == text@.len(),
            chars@ == text@,
            wanted@ == from@,
            from@.len() > 0,
            i <= n,
            out@ + replaced(text@.subrange(i as int, n as int), from@, to@) == replaced(text@, from@, to@),
        decreases n - i,
    {
        let ghost rest = text@.subrange(i as int, n as int);
        let ghost before = out@;
        if occurs_at_exec(&chars, &wanted, i) {
            proof {
                assert(rest.subrange(0, from@.len() as int) =~= text@.subrange(i as int, i + from@.len()));
                assert(rest.subrange(from@.len() as int, rest.len() as int)
                    =~= text@.subrange(i + from@.len(), n as int));
            }
            out.append(to);
            i = i + wanted.len();
            assert(out@ + replaced(text@.subrange(i as int, n as int), from@, to@) =~= before + (to@
                + replaced(text@.subrange(i as int, n as int), from@, to@)));
        } else {
            proof {
                if occurs_at(rest, from@, 0) {
                    assert(rest.subrange(0, from@.len() as int) =~= text@.subrange(i as int, i + from@.len()));
                }
                assert(rest.drop_first() =~= text@.subrange(i + 1, n as int));
            }
            let piece = text.substring_char(i, i + 1);
            assert(piece@ =~= seq![text@[i as int]]);
            out.append(piece);
            i = i + 1;
            assert(out@ + replaced(text@.subrange(i as int, n as int), from@, to@) =~= before + (
            seq![text@[i - 1]] + replaced(text@.subrange(i as int, n as int), from@, to@)));
        }
    }
    assert(text@.subrange(n as int, n as int).len() == 0);
    assert(out@ + Seq::<char>::empty() =~= out@);
    out
}

impl Config {
    /// The reply to `trigger`, with `{user}` in it replaced by `user`; `None`
    /// where no command has that trigger.
    pub fn response_to(&self, trigger: &String, user: &str) -> (r: Option<String>)
        ensures
            match first_response(self.command@, trigger@) {
                Some(reply) => r is Some && r->0@ == replaced(reply, "{user}"@, user@),
                None => r is None,
            },
    {
        let mut i: usize = 0;
        assert(self.command@.subrange(0, self.command@.len() as int) =~= self.command@);
        while i < self.command.len()
            invariant
                i <= self.command@.len(),
                first_response(self.command@, trigger@) == first_response(
                    self.command@.subrange(i as int, self.command@.len() as int),
                    trigger@,
                ),
            decreases self.command@.len() - i,
        {
            proof {
                let tail = self.command@.subrange(i as int, self.command@.len() as int);
                assert(tail.drop_first() =~= self.command@.subrange(i + 1, self.command@.len() as int));
            }
            if self.command[i].trigger == *trigger {
                return Some(replace_all(self.command[i].response.as_str(), "{user}", user));
            }
            i = i + 1;
        }
        None
    }
}

} // verus!
