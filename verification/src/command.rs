//! Request framing: a command name with string arguments, its serialized
//! wire form `{"command": ["name", "arg", ...]}\n`, a parser for that form,
//! and the proof that parsing inverts serialization.

use vstd::prelude::*;
use crate::text::push_char;

verus! {

/// A position in the media, in whole seconds, as carried by a seek command.
#[derive(Debug, Clone, Copy, PartialEq, Eq, Structural)]
pub struct TimeStamp {
    pub seconds: u64,
}

/// The ready-made player commands of the convenience layer. Each is framed
/// on the wire like any other command name with string arguments.
#[derive(Debug, Clone, Copy, PartialEq, Eq, Structural)]
pub enum MpvCommand {
    Pause,
    Play,
    Seek(TimeStamp),
}

/// Mathematical view of one request: a command name and its arguments, in
/// order, each seen as a character sequence.
#[verifier::ext_equal]
pub struct CommandView {
    pub name: Seq<char>,
    pub args: Seq<Seq<char>>,
}

/// How one character of a name or argument appears inside a quoted string
/// on the wire: quote, backslash and newline are escaped, everything else
/// stands for itself.
pub open spec fn esc_char(c: char) -> Seq<char> {
    if c == '"' {
        seq!['\\', '"']
    } else if c == '\\' {
        seq!['\\', '\\']
    } else if c == '\n' {
        seq!['\\', 'n']
    } else {
        seq![c]
    }
}

/// The escaped form of a whole character sequence.
pub open spec fn escape(s: Seq<char>) -> Seq<char>
    decreases s.len(),
{
    if s.len() == 0 {
        Seq::empty()
    } else {
        esc_char(s.first()) + escape(s.drop_first())
    }
}

/// A string as it stands on the wire: escaped and surrounded by quotes.
pub open spec fn quoted(s: Seq<char>) -> Seq<char> {
    seq!['"'] + escape(s) + seq!['"']
}

/// The opening of every request line, up to and including the bracket that
/// starts the command array: `{"command": [`.
pub open spec fn header() -> Seq<char> {
    seq!['{', '"', 'c', 'o', 'm', 'm', 'a', 'n', 'd', '"', ':', ' ', '[']
}

/// The wire text that follows the quoted command name: each argument after
/// a comma-space separator, then the closing `]}` and the line terminator.
pub open spec fn ser_tail(args: Seq<Seq<char>>) -> Seq<char>
    decreases args.len(),
{
    if args.len() == 0 {
        seq![']', '}', '\n']
    } else {
        seq![',', ' '] + quoted(args.first()) + ser_tail(args.drop_first())
    }
}

/// The full serialized request line for a command.
pub open spec fn ser_command(c: CommandView) -> Seq<char> {
    header() + quoted(c.name) + ser_tail(c.args)
}

/// The character an escape sequence `\c` stands for, if `\c` is one the
/// wire format emits.
pub open spec fn unescape_char(c: char) -> Option<char> {
    if c == '"' {
        Some('"')
    } else if c == '\\' {
        Some('\\')
    } else if c == 'n' {
        Some('\n')
    } else {
        None
    }
}

/// Parse the body of a quoted string. The input starts just after the
/// opening quote; on success the result is the decoded content and what
/// remains after the closing quote.
pub open spec fn parse_qbody(s: Seq<char>) -> Option<(Seq<char>, Seq<char>)>
    decreases s.len(),
{
    if s.len() == 0 {
        None
    } else if s.first() == '"' {
        Some((Seq::empty(), s.drop_first()))
    } else if s.first() == '\\' {
        if s.len() < 2 {
            None
        } else {
            match unescape_char(s[1]) {
                None => None,
                Some(d) => match parse_qbody(s.skip(2)) {
                    None => None,
                    Some(p) => Some((seq![d] + p.0, p.1)),
                },
            }
        }
    } else {
        match parse_qbody(s.drop_first()) {
            None => None,
            Some(p) => Some((seq![s.first()] + p.0, p.1)),
        }
    }
}

/// A successful quoted-string parse consumes at least the closing quote.
pub proof fn lemma_parse_qbody_shrinks(s: Seq<char>)
    ensures
        parse_qbody(s) is Some ==> parse_qbody(s).unwrap().1.len() < s.len(),
    decreases s.len(),
{
    if s.len() == 0 {
    } else if s.first() == '"' {
    } else if s.first() == '\\' {
        if s.len() >= 2 {
            lemma_parse_qbody_shrinks(s.skip(2));
        }
    } else {
        lemma_parse_qbody_shrinks(s.drop_first());
    }
}

/// Parse what follows the quoted command name: the argument list tail and
/// the closing `]}` with its line terminator, which must end the input.
pub open spec fn parse_args_tail(s: Seq<char>) -> Option<Seq<Seq<char>>>
    decreases s.len(),
    via parse_args_tail_dec
{
    if s.len() == 3 && s[0] == ']' && s[1] == '}' && s[2] == '\n' {
        Some(Seq::empty())
    } else if s.len() >= 3 && s[0] == ',' && s[1] == ' ' && s[2] == '"' {
        match parse_qbody(s.skip(3)) {
            None => None,
            Some(p) => match parse_args_tail(p.1) {
                None => None,
                Some(rest) => Some(seq![p.0] + rest),
            },
        }
    } else {
        None
    }
}

#[via_fn]
proof fn parse_args_tail_dec(s: Seq<char>) {
    if s.len() >= 3 && s[0] == ',' && s[1] == ' ' && s[2] == '"' {
        lemma_parse_qbody_shrinks(s.skip(3));
    }
}

/// Parse a whole request line: the fixed header, the quoted command name,
/// then the argument tail through the end of the line.
pub open spec fn parse_command_seq(s: Seq<char>) -> Option<CommandView> {
    if s.len() >= 14 && s.subrange(0, 13) == header() && s[13] == '"' {
        match parse_qbody(s.skip(14)) {
            None => None,
            Some(p) => match parse_args_tail(p.1) {
                None => None,
                Some(args) => Some(CommandView { name: p.0, args }),
            },
        }
    } else {
        None
    }
}

/// Escaping distributes over concatenation.
pub proof fn lemma_escape_app(a: Seq<char>, b: Seq<char>)
    ensures
        escape(a + b) == escape(a) + escape(b),
    decreases a.len(),
{
    if a.len() == 0 {
        assert(a + b =~= b);
        assert(escape(a) + escape(b) =~= escape(b));
    } else {
        assert((a + b).first() == a.first());
        assert((a + b).len() > 0);
        assert((a + b).drop_first() =~= a.drop_first() + b);
        lemma_escape_app(a.drop_first(), b);
        assert(escape(a + b) =~= escape(a) + escape(b));
    }
}

/// The escaped form of a single character is its escape sequence.
pub proof fn lemma_escape_singleton(c: char)
    ensures
        escape(seq![c]) == esc_char(c),
{
    assert(seq![c].first() == c);
    assert(seq![c].drop_first() =~= Seq::<char>::empty());
    assert(escape(Seq::<char>::empty()) =~= Seq::<char>::empty());
    assert(escape(seq![c]) =~= esc_char(c));
}

/// Parsing a quoted string inverts escaping: the escaped content followed
/// by the closing quote and any remainder parses back to the content,
/// leaving exactly the remainder.
pub proof fn lemma_parse_quoted(s: Seq<char>, rest: Seq<char>)
    ensures
        parse_qbody(escape(s) + seq!['"'] + rest) == Some((s, rest)),
    decreases s.len(),
{
    let input = escape(s) + seq!['"'] + rest;
    if s.len() == 0 {
        assert(escape(s) =~= Seq::<char>::empty());
        assert(input =~= seq!['"'] + rest);
        assert(input.first() == '"');
        assert(input.drop_first() =~= rest);
        assert(parse_qbody(input).unwrap().0 =~= s);
    } else {
        let c = s.first();
        let s1 = s.drop_first();
        let tail_input = escape(s1) + seq!['"'] + rest;
        lemma_parse_quoted(s1, rest);
        assert(escape(s) == esc_char(c) + escape(s1));
        if c == '"' {
            assert(input =~= seq!['\\', '"'] + tail_input);
            assert(input.first() == '\\');
            assert(input.len() >= 2);
            assert(input[1] == '"');
            assert(input.skip(2) =~= tail_input);
            assert(seq!['"'] + s1 =~= s);
        } else if c == '\\' {
            assert(input =~= seq!['\\', '\\'] + tail_input);
            assert(input.first() == '\\');
            assert(input.len() >= 2);
            assert(input[1] == '\\');
            assert(input.skip(2) =~= tail_input);
            assert(seq!['\\'] + s1 =~= s);
        } else if c == '\n' {
            assert(input =~= seq!['\\', 'n'] + tail_input);
            assert(input.first() == '\\');
            assert(input.len() >= 2);
            assert(input[1] == 'n');
            assert(input.skip(2) =~= tail_input);
            assert(seq!['\n'] + s1 =~= s);
        } else {
            assert(esc_char(c) =~= seq![c]);
            assert(input =~= seq![c] + tail_input);
            assert(input.first() == c);
            assert(input.drop_first() =~= tail_input);
            assert(seq![c] + s1 =~= s);
        }
    }
}

/// Parsing the argument tail inverts its serialization.
pub proof fn lemma_parse_args(args: Seq<Seq<char>>)
    ensures
        parse_args_tail(ser_tail(args)) == Some(args),
    decreases args.len(),
{
    let input = ser_tail(args);
    if args.len() == 0 {
        assert(input =~= seq![']', '}', '\n']);
        assert(parse_args_tail(input).unwrap() =~= args);
    } else {
        let a0 = args.first();
        let rest_args = args.drop_first();
        let tail = ser_tail(rest_args);
        assert(input =~= seq![',', ' '] + quoted(a0) + tail);
        assert(quoted(a0)[0] == '"');
        assert(input[0] == ',');
        assert(input[1] == ' ');
        assert(input[2] == '"');
        assert(input.len() >= 3);
        assert(input.skip(3) =~= escape(a0) + seq!['"'] + tail);
        lemma_parse_quoted(a0, tail);
        lemma_parse_args(rest_args);
        assert(seq![a0] + rest_args =~= args);
    }
}

/// Round-trip law for request framing: for every command name and every
/// argument list, serialization followed by parsing yields the same name
/// and the same arguments in the same order.
pub proof fn lemma_round_trip(c: CommandView)
    ensures
        parse_command_seq(ser_command(c)) == Some(c),
{
    let s = ser_command(c);
    let tail = ser_tail(c.args);
    assert(s =~= header() + seq!['"'] + (escape(c.name) + seq!['"'] + tail));
    assert(s.len() >= 14);
    assert(s.subrange(0, 13) =~= header());
    assert(s[13] == '"');
    assert(s.skip(14) =~= escape(c.name) + seq!['"'] + tail);
    lemma_parse_quoted(c.name, tail);
    lemma_parse_args(c.args);
    assert(parse_command_seq(s).unwrap() =~= c);
}

/// Append the escaped form of `s` to `out`.
pub fn escape_append(out: &mut String, s: &str)
    ensures
        final(out)@ == old(out)@ + escape(s@),
{
    let len = s.unicode_len();
    let mut i: usize = 0;
    proof {
        assert(s@.take(0) =~= Seq::<char>::empty());
        assert(escape(Seq::<char>::empty()) =~= Seq::<char>::empty());
        assert(out@ =~= old(out)@ + escape(s@.take(0)));
    }
    while i < len
        invariant
            len == s@.len(),
            i <= len,
            out@ == old(out)@ + escape(s@.take(i as int)),
        decreases len - i,
    {
        let c = s.get_char(i);
        if c == '"' {
            push_char(out, '\\');
            push_char(out, '"');
        } else if c == '\\' {
            push_char(out, '\\');
            push_char(out, '\\');
        } else if c == '\n' {
            push_char(out, '\\');
            push_char(out, 'n');
        } else {
            push_char(out, c);
        }
        proof {
            assert(s@.take(i + 1) =~= s@.take(i as int) + seq![c]);
            lemma_escape_app(s@.take(i as int), seq![c]);
            lemma_escape_singleton(c);
            assert(out@ =~= old(out)@ + escape(s@.take(i + 1)));
        }
        i = i + 1;
    }
    proof {
        assert(s@.take(len as int) =~= s@);
    }
}

/// Serialize a request: the command name and each argument escaped and
/// quoted inside `{"command": [...]}`, ending with the line terminator.
pub fn serialize_command(name: &str, args: &Vec<String>) -> (r: String)
    ensures
        r@ == ser_command(CommandView { name: name@, args: args.deep_view() }),
{
    let ghost cv = CommandView { name: name@, args: args.deep_view() };
    let mut out = String::new();
    out.append("{\"command\": [");
    proof {
        reveal_strlit("{\"command\": [");
        assert(out@ =~= header());
    }
    push_char(&mut out, '"');
    escape_append(&mut out, name);
    push_char(&mut out, '"');
    proof {
        assert(out@ =~= header() + quoted(cv.name));
        assert(args.deep_view().skip(0) =~= args.deep_view());
        assert(out@ + ser_tail(args.deep_view()) =~= ser_command(cv));
    }
    let mut i: usize = 0;
    while i < args.len()
        invariant
            i <= args.len(),
            args.deep_view().len() == args@.len(),
            cv == (CommandView { name: name@, args: args.deep_view() }),
            out@ + ser_tail(args.deep_view().skip(i as int)) == ser_command(cv),
        decreases args@.len() - i,
    {
        let ghost pending = args.deep_view().skip(i as int);
        proof {
            assert(pending.first() == args.deep_view()[i as int]);
            assert(args.deep_view()[i as int] == args@[i as int]@);
            assert(pending.drop_first() =~= args.deep_view().skip(i + 1));
        }
        out.append(", \"");
        proof {
            reveal_strlit(", \"");
        }
        escape_append(&mut out, args[i].as_str());
        push_char(&mut out, '"');
        proof {
            assert(ser_tail(pending) =~= seq![',', ' '] + quoted(pending.first())
                + ser_tail(pending.drop_first()));
            assert(", \""@ =~= seq![',', ' ', '"']);
            assert(out@ + ser_tail(args.deep_view().skip(i + 1)) =~= ser_command(cv));
        }
        i = i + 1;
    }
    proof {
        assert(args.deep_view().skip(i as int) =~= Seq::<Seq<char>>::empty());
    }
    out.append("]}\n");
    proof {
        reveal_strlit("]}\n");
        assert("]}\n"@ =~= seq![']', '}', '\n']);
        assert(out@ =~= ser_command(cv));
    }
    out
}

/// Parse a quoted-string body starting at character `start` of `s`, just
/// after an opening quote. On success the result is the decoded content
/// and the position just past the closing quote.
fn parse_qbody_at(s: &str, start: usize) -> (r: Option<(String, usize)>)
    requires
        start <= s@.len(),
    ensures
        (match parse_qbody(s@.skip(start as int)) {
            None => r is None,
            Some(p) => {
                &&& r is Some
                &&& r.unwrap().0@ == p.0
                &&& start <= r.unwrap().1 <= s@.len()
                &&& p.1 == s@.skip(r.unwrap().1 as int)
            },
        }),
{
    let len = s.unicode_len();
    let mut content = String::new();
    let mut i: usize = start;
    while i < len
        invariant
            len == s@.len(),
            start <= i <= len,
            (match parse_qbody(s@.skip(i as int)) {
                None => parse_qbody(s@.skip(start as int)) is None,
                Some(p) => parse_qbody(s@.skip(start as int))
                    == Some((content@ + p.0, p.1)),
            }),
        decreases len - i,
    {
        let c = s.get_char(i);
        proof {
            assert(s@.skip(i as int).len() > 0);
            assert(s@.skip(i as int).first() == s@[i as int]);
        }
        if c == '"' {
            proof {
                assert(s@.skip(i as int).drop_first() =~= s@.skip(i + 1));
                assert(content@ + Seq::<char>::empty() =~= content@);
            }
            return Some((content, i + 1));
        } else if c == '\\' {
            if i + 1 >= len {
                proof {
                    assert(s@.skip(i as int).len() < 2);
                }
                return None;
            }
            let d = s.get_char(i + 1);
            proof {
                assert(s@.skip(i as int)[1] == s@[i + 1]);
            }
            let dec: char;
            if d == '"' {
                dec = '"';
            } else if d == '\\' {
                dec = '\\';
            } else if d == 'n' {
                dec = '\n';
            } else {
                proof {
                    assert(unescape_char(s@[i + 1]) is None);
                }
                return None;
            }
            let ghost pre = content@;
            push_char(&mut content, dec);
            proof {
                assert(s@.skip(i as int).skip(2) =~= s@.skip(i + 2));
                assert(content@ =~= pre + seq![dec]);
                match parse_qbody(s@.skip(i + 2)) {
                    None => {
                        assert(parse_qbody(s@.skip(i as int)) is None);
                    },
                    Some(p) => {
                        assert(parse_qbody(s@.skip(i as int))
                            == Some((seq![dec] + p.0, p.1)));
                        assert(pre + (seq![dec] + p.0) =~= content@ + p.0);
                    },
                }
            }
            i = i + 2;
        } else {
            let ghost pre = content@;
            push_char(&mut content, c);
            proof {
                assert(s@.skip(i as int).drop_first() =~= s@.skip(i + 1));
                assert(content@ =~= pre + seq![c]);
                match parse_qbody(s@.skip(i + 1)) {
                    None => {
                        assert(parse_qbody(s@.skip(i as int)) is None);
                    },
                    Some(p) => {
                        assert(parse_qbody(s@.skip(i as int))
                            == Some((seq![c] + p.0, p.1)));
                        assert(pre + (seq![c] + p.0) =~= content@ + p.0);
                    },
                }
            }
            i = i + 1;
        }
    }
    proof {
        assert(s@.skip(i as int).len() == 0);
    }
    None
}

/// Parse the argument tail starting at character `start` of `s`: the
/// remaining `, "..."` items and the closing `]}` with its terminator,
/// which must end the input.
fn parse_args_at(s: &str, start: usize) -> (r: Option<Vec<String>>)
    requires
        start <= s@.len(),
    ensures
        (match parse_args_tail(s@.skip(start as int)) {
            None => r is None,
            Some(args) => r is Some && r.unwrap().deep_view() == args,
        }),
{
    let len = s.unicode_len();
    let mut acc: Vec<String> = Vec::new();
    let mut i: usize = start;
    proof {
        assert(acc.deep_view() =~= Seq::<Seq<char>>::empty());
    }
    loop
        invariant
            len == s@.len(),
            start <= i <= len,
            (match parse_args_tail(s@.skip(i as int)) {
                None => parse_args_tail(s@.skip(start as int)) is None,
                Some(rest) => parse_args_tail(s@.skip(start as int))
                    == Some(acc.deep_view() + rest),
            }),
        decreases len - i,
    {
        let ghost si = s@.skip(i as int);
        proof {
            assert(si.len() == len - i);
            assert(forall|k: int| 0 <= k < si.len() ==> si[k] == s@[i + k]);
        }
        if len - i == 3 && s.get_char(i) == ']' && s.get_char(i + 1) == '}'
            && s.get_char(i + 2) == '\n' {
            proof {
                assert(parse_args_tail(si) == Some(Seq::<Seq<char>>::empty()));
                assert(acc.deep_view() + Seq::<Seq<char>>::empty() =~= acc.deep_view());
            }
            return Some(acc);
        }
        if len - i >= 3 && s.get_char(i) == ',' && s.get_char(i + 1) == ' '
            && s.get_char(i + 2) == '"' {
            proof {
                assert(si.skip(3) =~= s@.skip(i + 3));
            }
            match parse_qbody_at(s, i + 3) {
                None => {
                    proof {
                        assert(parse_args_tail(si) is None);
                    }
                    return None;
                },
                Some((item, j)) => {
                    let ghost pre = acc.deep_view();
                    let ghost itemv = item@;
                    proof {
                        assert(parse_qbody(si.skip(3)) == Some((itemv, s@.skip(j as int))));
                    }
                    acc.push(item);
                    proof {
                        assert(acc.deep_view() =~= pre + seq![itemv]);
                        match parse_args_tail(s@.skip(j as int)) {
                            None => {
                                assert(parse_args_tail(si) is None);
                            },
                            Some(rest) => {
                                assert(parse_args_tail(si) == Some(seq![itemv] + rest));
                                assert(pre + (seq![itemv] + rest) =~= acc.deep_view() + rest);
                            },
                        }
                    }
                    let ghost iold = i as int;
                    i = j;
                    proof {
                        lemma_parse_qbody_shrinks(s@.skip(iold + 3));
                        assert(i as int > iold);
                    }
                },
            }
        } else {
            proof {
                assert(parse_args_tail(si) is None);
            }
            return None;
        }
    }
}

/// Parse a whole request line. Yields the command name and arguments when
/// `s` is exactly the serialized form of some command, and nothing
/// otherwise.
pub fn parse_command(s: &str) -> (r: Option<(String, Vec<String>)>)
    ensures
        (match parse_command_seq(s@) {
            None => r is None,
            Some(c) => {
                &&& r is Some
                &&& r.unwrap().0@ == c.name
                &&& r.unwrap().1.deep_view() == c.args
            },
        }),
{
    let len = s.unicode_len();
    if len < 14 {
        return None;
    }
    let hdr = "{\"command\": [";
    proof {
        reveal_strlit("{\"command\": [");
        assert(hdr@ =~= header());
    }
    let mut i: usize = 0;
    while i < 13
        invariant
            len == s@.len(),
            len >= 14,
            i <= 13,
            hdr@ == header(),
            forall|k: int| 0 <= k < i ==> s@[k] == header()[k],
        decreases 13 - i,
    {
        if s.get_char(i) != hdr.get_char(i) {
            proof {
                assert(s@.subrange(0, 13)[i as int] != header()[i as int]);
            }
            return None;
        }
        i = i + 1;
    }
    proof {
        assert(s@.subrange(0, 13) =~= header());
    }
    if s.get_char(13) != '"' {
        return None;
    }
    match parse_qbody_at(s, 14) {
        None => None,
        Some((name, j)) => {
            match parse_args_at(s, j) {
                None => None,
                Some(args) => Some((name, args)),
            }
        },
    }
}

} // verus!
