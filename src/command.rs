//! Splitting a line into words and choosing the built-in command it names.
use vstd::prelude::*;

use crate::text::push_char;

verus! {

/// ASCII whitespace: space, tab, line feed, form feed, carriage return.
pub open spec fn is_ascii_space(c: char) -> bool {
    c == ' ' || c == '\t' || c == '\n' || c == '\x0C' || c == '\r'
}

pub open spec fn word_if_any(cur: Seq<char>) -> Seq<Seq<char>> {
    if cur.len() > 0 {
        seq![cur]
    } else {
        seq![]
    }
}

/// The words of `s`, with `cur` the part of a word already read before it.
pub open spec fn split_words(s: Seq<char>, cur: Seq<char>) -> Seq<Seq<char>>
    decreases s.len(),
{
    if s.len() == 0 {
        word_if_any(cur)
    } else if is_ascii_space(s[0]) {
        word_if_any(cur) + split_words(s.drop_first(), seq![])
    } else {
        split_words(s.drop_first(), cur.push(s[0]))
    }
}

/// The maximal runs of non-whitespace characters of `s`, in order.
pub open spec fn words(s: Seq<char>) -> Seq<Seq<char>> {
    split_words(s, seq![])
}

pub open spec fn views(v: Seq<String>) -> Seq<Seq<char>> {
    v.map_values(|t: String| t@)
}

/// The built-in that a line asks for.
#[derive(Debug)]
pub enum Command {
    /// The line holds no word.
    NoCommand,
    /// `version`: show the firmware vendor and revision.
    Version,
    /// `memorymap`: list the usable memory ranges.
    MemoryMap,
    /// `echo`: repeat the remaining words.
    Echo(Vec<String>),
    /// Any other first word.
    NotFound(String),
}

/// Splits `line` on ASCII whitespace, dropping empty words.
pub fn split_words_of(line: &str) -> (r: Vec<String>)
    ensures
        views(r@) == words(line@),
{
    let n = line.unicode_len();
    let mut out: Vec<String> = Vec::new();
    let mut start: usize = 0;
    let mut i: usize = 0;
    assert(line@.skip(0) =~= line@);
    assert(line@.subrange(0, 0) =~= Seq::<char>::empty());
    assert(views(out@) =~= Seq::<Seq<char>>::empty());
    while i < n
        invariant
            n == line@.len(),
            start <= i <= n,
            forall|k: int| start <= k < i ==> !is_ascii_space(#[trigger] line@[k]),
            words(line@) == views(out@) + split_words(
                line@.skip(i as int),
                line@.subrange(start as int, i as int),
            ),
        decreases n - i,
    {
        let c = line.get_char(i);
        let ghost rest = line@.skip(i as int);
        assert(rest[0] == c);
        assert(rest.drop_first() =~= line@.skip(i + 1));
        if c == ' ' || c == '\t' || c == '\n' || c == '\x0C' || c == '\r' {
            let ghost cur = line@.subrange(start as int, i as int);
            let ghost before = out@;
            if start < i {
                let w = String::from_str(line.substring_char(start, i));
                out.push(w);
                assert(views(out@) =~= views(before) + seq![cur]);
            } else {
                assert(cur =~= Seq::<char>::empty());
            }
            assert(views(out@) =~= views(before) + word_if_any(cur));
            assert(split_words(rest, cur) == word_if_any(cur) + split_words(
                line@.skip(i + 1),
                seq![],
            ));
            assert(views(before) + (word_if_any(cur) + split_words(line@.skip(i + 1), seq![]))
                =~= views(out@) + split_words(line@.skip(i + 1), seq![]));
            assert(line@.subrange(i + 1, i + 1) =~= Seq::<char>::empty());
            i = i + 1;
            start = i;
        } else {
            assert(line@.subrange(start as int, i as int).push(c) =~= line@.subrange(
                start as int,
                i + 1,
            ));
            i = i + 1;
        }
    }
    let ghost before = out@;
    let ghost cur = line@.subrange(start as int, n as int);
    if start < n {
        out.push(String::from_str(line.substring_char(start, n)));
        assert(views(out@) =~= views(before) + seq![cur]);
    } else {
        assert(cur =~= Seq::<char>::empty());
    }
    assert(line@.skip(n as int) =~= Seq::<char>::empty());
    assert(views(out@) =~= words(line@));
    out
}

/// The message logged for a line that holds no word.
pub const NO_COMMAND_MESSAGE: &'static str = "No command given!";

/// The command that a line of the given words asks for.
pub open spec fn command_matches(ws: Seq<Seq<char>>, r: Command) -> bool {
    if ws.len() == 0 {
        r is NoCommand
    } else if ws[0] == "version"@ {
        r is Version
    } else if ws[0] == "memorymap"@ {
        r is MemoryMap
    } else if ws[0] == "echo"@ {
        r is Echo && views(r->Echo_0@) == ws.drop_first()
    } else {
        r is NotFound && r->NotFound_0@ == ws[0]
    }
}

/// Chooses the built-in that `line` names by its first word (matched exactly,
/// case included); the other words are its arguments.
pub fn parse_command(line: &str) -> (r: Command)
    ensures
        command_matches(words(line@), r),
{
    proof {
        reveal_strlit("version");
        reveal_strlit("memorymap");
        reveal_strlit("echo");
    }
    let mut ws = split_words_of(line);
    if ws.len() == 0 {
        return Command::NoCommand;
    }
    let ghost all = ws@;
    let name = ws.remove(0);
    assert(views(ws@) =~= views(all).drop_first());
    if name == String::from_str("version") {
        Command::Version
    } else if name == String::from_str("memorymap") {
        Command::MemoryMap
    } else if name == String::from_str("echo") {
        Command::Echo(ws)
    } else {
        Command::NotFound(name)
    }
}

/// Whether the line asks to leave the shell: it is exactly `exit`.
pub fn is_exit(line: &str) -> (r: bool)
    ensures
        r == (line@ == "exit"@),
{
    String::from_str(line) == String::from_str("exit")
}

/// Each word followed by one space, then a line feed.
pub open spec fn echo_text(ws: Seq<Seq<char>>) -> Seq<char>
    decreases ws.len(),
{
    if ws.len() == 0 {
        seq!['\n']
    } else {
        ws[0] + seq![' '] + echo_text(ws.drop_first())
    }
}

/// What `echo` writes for its arguments.
pub fn echo_line(args: &Vec<String>) -> (r: String)
    ensures
        r@ == echo_text(views(args@)),
{
    let mut i: usize = args.len();
    let ghost vs = views(args@);
    let mut tail = String::new();
    push_char(&mut tail, '\n');
    while i > 0
        invariant
            i <= args@.len(),
            vs == views(args@),
            tail@ == echo_text(vs.skip(i as int)),
        decreases i,
    {
        i = i - 1;
        let mut piece = String::new();
        piece.append(args[i].as_str());
        push_char(&mut piece, ' ');
        piece.append(tail.as_str());
        assert(vs.skip(i as int).drop_first() =~= vs.skip(i + 1));
        tail = piece;
    }
    assert(vs.skip(0) =~= vs);
    tail
}

/// `Command "<name>" not found!`
pub open spec fn not_found_text(name: Seq<char>) -> Seq<char> {
    "Command \""@ + name + "\" not found!"@
}

/// The error line that a command gives, if it is an error.
pub fn error_line(cmd: &Command) -> (r: Option<String>)
    ensures
        cmd is NoCommand ==> r is Some && r->Some_0@ == NO_COMMAND_MESSAGE@,
        cmd is NotFound ==> r is Some && r->Some_0@ == not_found_text(cmd->NotFound_0@),
        !(cmd is NoCommand || cmd is NotFound) ==> r is None,
{
    match cmd {
        Command::NoCommand => Some(String::from_str(NO_COMMAND_MESSAGE)),
        Command::NotFound(name) => {
            let mut line = String::from_str("Command \"");
            line.append(name.as_str());
            line.append("\" not found!");
            Some(line)
        },
        _ => None,
    }
}

/// A line of whitespace alone holds no word, so it names no command.
pub proof fn lemma_blank_line_has_no_words(s: Seq<char>)
    requires
        forall|i: int| 0 <= i < s.len() ==> is_ascii_space(#[trigger] s[i]),
    ensures
        words(s) == Seq::<Seq<char>>::empty(),
        forall|r: Command| command_matches(words(s), r) ==> r is NoCommand,
    decreases s.len(),
{
    if s.len() > 0 {
        assert forall|i: int| 0 <= i < s.drop_first().len() implies is_ascii_space(
            #[trigger] s.drop_first()[i],
        ) by {
            assert(s.drop_first()[i] == s[i + 1]);
        }
        lemma_blank_line_has_no_words(s.drop_first());
        assert(word_if_any(seq![]) =~= Seq::<Seq<char>>::empty());
        assert(words(s) =~= Seq::<Seq<char>>::empty());
    }
}

} // verus!
