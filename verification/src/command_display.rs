//! Command lines for people.

use vstd::prelude::*;

use crate::text;

verus! {

/// Characters that need no quoting in a shell.
pub open spec fn is_shell_safe(c: char) -> bool {
    ||| 'a' <= c <= 'z'
    ||| 'A' <= c <= 'Z'
    ||| '0' <= c <= '9'
    ||| c == '-' || c == '_' || c == '.' || c == '/' || c == ':' || c == '=' || c == '@' || c == '%'
        || c == '+' || c == ','
}

/// An argument that can stand in a command line as it is.
pub open spec fn is_bare(arg: Seq<char>) -> bool {
    arg.len() > 0 && forall|i: int| 0 <= i < arg.len() ==> is_shell_safe(#[trigger] arg[i])
}

/// The characters of `arg`, each `'` written as `'\''`.
pub open spec fn quote_escaped(arg: Seq<char>) -> Seq<char>
    decreases arg.len(),
{
    if arg.len() == 0 {
        Seq::empty()
    } else if arg.last() == '\'' {
        quote_escaped(arg.drop_last()) + "'\\''"@
    } else {
        quote_escaped(arg.drop_last()).push(arg.last())
    }
}

/// An argument as it is typed in a shell: bare where that is possible, else in single quotes.
pub open spec fn shell_word(arg: Seq<char>) -> Seq<char> {
    if is_bare(arg) {
        arg
    } else {
        "'"@ + quote_escaped(arg) + "'"@
    }
}

/// Writes one argument as it is typed in a shell.
pub fn shell_quote(arg: &str) -> (out: String)
    ensures
        out@ == shell_word(arg@),
{
    let chars = text::chars_of(arg);
    let mut bare = chars.len() > 0;
    let mut escaped = String::new();
    let mut i: usize = 0;
    while i < chars.len()
        invariant
            chars@ == arg@,
            i <= chars.len(),
            bare == (chars.len() > 0 && forall|j: int|
                0 <= j < i ==> is_shell_safe(#[trigger] arg@[j])),
            escaped@ == quote_escaped(arg@.take(i as int)),
        decreases chars.len() - i,
    {
        let c = chars[i];
        assert(arg@.take(i + 1).drop_last() =~= arg@.take(i as int));
        let safe = ('a' <= c && c <= 'z') || ('A' <= c && c <= 'Z') || ('0' <= c && c <= '9') || c
            == '-' || c == '_' || c == '.' || c == '/' || c == ':' || c == '=' || c == '@' || c
            == '%' || c == '+' || c == ',';
        assert(safe == is_shell_safe(arg@[i as int]));
        if !safe {
            bare = false;
        }
        if c == '\'' {
            escaped.append("'\\''");
        } else {
            escaped.push(c);
        }
        i += 1;
    }
    assert(arg@.take(arg@.len() as int) =~= arg@);
    if bare {
        arg.to_owned()
    } else {
        let mut out = "'".to_owned();
        out.append(escaped.as_str());
        out.append("'");
        out
    }
}

/// The arguments as one shell command line.
pub open spec fn command_line(command: Seq<Seq<char>>) -> Seq<char> {
    text::joined(command.map_values(|arg: Seq<char>| shell_word(arg)), " "@)
}

/// Writes a command as one shell command line.
pub fn format_command_line(command: &[String]) -> (out: String)
    ensures
        out@ == command_line(text::texts(command@)),
{
    let mut words: Vec<String> = Vec::new();
    let mut i: usize = 0;
    while i < command.len()
        invariant
            i <= command.len(),
            words.len() == i,
            forall|j: int| 0 <= j < i ==> #[trigger] words@[j]@ == shell_word(command@[j]@),
        decreases command.len() - i,
    {
        words.push(shell_quote(command[i].as_str()));
        i += 1;
    }
    assert(text::texts(words@) =~= text::texts(command@).map_values(
        |arg: Seq<char>| shell_word(arg),
    ));
    text::join(&words, " ")
}

/// The command line, cut to `max_len` characters where it is longer, the last three then being
/// dots.
pub open spec fn truncated_line(command: Seq<Seq<char>>, max_len: nat) -> Seq<char> {
    let line = command_line(command);
    if line.len() <= max_len {
        line
    } else {
        line.take(if max_len >= 3 { max_len - 3 } else { 0 }) + "..."@
    }
}

/// Writes a command as one shell command line of limited length.
pub fn truncate_command(command: &[String], max_len: usize) -> (out: String)
    ensures
        out@ == truncated_line(text::texts(command@), max_len as nat),
{
    let line = format_command_line(command);
    let chars = text::chars_of(line.as_str());
    if chars.len() <= max_len {
        return line;
    }
    let keep: usize = if max_len >= 3 {
        max_len - 3
    } else {
        0
    };
    let mut out = text::text_range(&chars, 0, keep);
    assert(out@ =~= line@.take(keep as int));
    out.append("...");
    out
}

/// A truncated command line is no longer than it may be, provided that the dots fit.
pub proof fn law_truncated_line_fits(command: Seq<Seq<char>>, max_len: nat)
    requires
        max_len >= 3,
    ensures
        truncated_line(command, max_len).len() <= max_len,
{
    reveal_strlit("...");
}

/// Reads a word as a shell does; `quoted` says whether it starts within single quotes, where every
/// character but the quote stands for itself. Outside a backslash takes the meaning from what
/// follows it.
pub open spec fn shell_value(s: Seq<char>, quoted: bool) -> Seq<char>
    decreases s.len(),
{
    if s.len() == 0 {
        Seq::empty()
    } else if s[0] == '\'' {
        shell_value(s.skip(1), !quoted)
    } else if !quoted && s[0] == '\\' && s.len() > 1 {
        seq![s[1]] + shell_value(s.skip(2), false)
    } else {
        seq![s[0]] + shell_value(s.skip(1), quoted)
    }
}

proof fn lemma_quote_escaped_front(c: char, s: Seq<char>)
    ensures
        quote_escaped(seq![c] + s) == (if c == '\'' {
            seq!['\'', '\\', '\'', '\'']
        } else {
            seq![c]
        }) + quote_escaped(s),
    decreases s.len(),
{
    reveal_strlit("'\\''");
    assert("'\\''"@ =~= seq!['\'', '\\', '\'', '\'']);
    let t = seq![c] + s;
    let code = if c == '\'' {
        seq!['\'', '\\', '\'', '\'']
    } else {
        seq![c]
    };
    if s.len() == 0 {
        assert(t.drop_last() =~= Seq::empty());
        assert(quote_escaped(t.drop_last()) =~= Seq::empty());
        assert(quote_escaped(t) =~= code + quote_escaped(s));
    } else {
        lemma_quote_escaped_front(c, s.drop_last());
        assert(t.drop_last() =~= seq![c] + s.drop_last());
        assert(quote_escaped(t) =~= code + quote_escaped(s));
    }
}

proof fn lemma_quoted_reads_back(arg: Seq<char>)
    ensures
        shell_value(quote_escaped(arg) + seq!['\''], true) == arg,
    decreases arg.len(),
{
    let s = quote_escaped(arg) + seq!['\''];
    if arg.len() == 0 {
        assert(s =~= seq!['\'']);
        assert(s.skip(1) =~= Seq::empty());
        assert(shell_value(s.skip(1), false) =~= Seq::empty());
        assert(shell_value(s, true) =~= arg);
    } else {
        let (c, rest) = (arg[0], arg.skip(1));
        assert(arg =~= seq![c] + rest);
        lemma_quote_escaped_front(c, rest);
        lemma_quoted_reads_back(rest);
        let tail = quote_escaped(rest) + seq!['\''];
        if c == '\'' {
            assert(s =~= seq!['\'', '\\', '\'', '\''] + tail);
            let s1 = s.skip(1);
            assert(s1[0] == '\\' && s1[1] == '\'');
            let s3 = s1.skip(2);
            assert(s3[0] == '\'');
            assert(s3.skip(1) =~= tail);
            assert(shell_value(s3, false) == shell_value(tail, true));
            assert(shell_value(s1, false) == seq!['\''] + shell_value(s3, false));
        } else {
            assert(s =~= seq![c] + tail);
            assert(s.skip(1) =~= tail);
        }
        assert(shell_value(s, true) =~= arg);
    }
}

proof fn lemma_bare_reads_back(arg: Seq<char>)
    requires
        forall|i: int| 0 <= i < arg.len() ==> is_shell_safe(#[trigger] arg[i]),
    ensures
        shell_value(arg, false) == arg,
    decreases arg.len(),
{
    if arg.len() > 0 {
        assert(is_shell_safe(arg[0]));
        assert forall|i: int| 0 <= i < arg.skip(1).len() implies is_shell_safe(
            #[trigger] arg.skip(1)[i],
        ) by {
            assert(arg.skip(1)[i] == arg[i + 1]);
        }
        lemma_bare_reads_back(arg.skip(1));
        assert(shell_value(arg, false) =~= arg);
    } else {
        assert(shell_value(arg, false) =~= arg);
    }
}

/// What is written for an argument is read by a shell as that argument.
pub proof fn law_arguments_read_back(arg: Seq<char>)
    ensures
        shell_value(shell_word(arg), false) == arg,
        shell_word(arg).len() > 0,
{
    reveal_strlit("'");
    if is_bare(arg) {
        lemma_bare_reads_back(arg);
    } else {
        lemma_quoted_reads_back(arg);
        let w = shell_word(arg);
        assert(w.skip(1) =~= quote_escaped(arg) + seq!['\'']);
        assert(w[0] == '\'');
    }
}

/// An argument is written without quotes where it is made of letters, digits and a few marks that
/// mean nothing to a shell.
pub proof fn law_harmless_arguments_stay_bare(arg: Seq<char>)
    requires
        arg.len() > 0,
        forall|i: int|
            0 <= i < arg.len() ==> {
                ||| 97 <= (#[trigger] arg[i]) as int <= 122
                ||| 65 <= arg[i] as int <= 90
                ||| 43 <= arg[i] as int <= 58
                ||| arg[i] == '_'
                ||| arg[i] == '='
                ||| arg[i] == '@'
                ||| arg[i] == '%'
            },
    ensures
        shell_word(arg) == arg,
{
    assert forall|i: int| 0 <= i < arg.len() implies is_shell_safe(#[trigger] arg[i]) by {
        assert(43 <= arg[i] as int <= 58 ==> arg[i] == '+' || arg[i] == ',' || arg[i] == '-'
            || arg[i] == '.' || arg[i] == '/' || arg[i] == ':' || '0' <= arg[i] <= '9');
    }
}

/// What is written without quotes holds no blanks, no quotes and nothing else that means something
/// to a shell.
pub proof fn law_only_harmless_arguments_are_bare(arg: Seq<char>, i: int)
    requires
        shell_word(arg) == arg,
        0 <= i < arg.len(),
    ensures
        ({
            let c = arg[i];
            &&& c as int > 32 && c != ' ' && c != '\'' && c != '"' && c != '\\' && c != '$'
            &&& c != '`' && c != ';' && c != '|' && c != '&' && c != '<' && c != '>' && c != '('
            &&& c != ')' && c != '*' && c != '?' && c != '[' && c != '#' && c != '~' && c != '!'
        }),
{
    if !is_bare(arg) {
        reveal_strlit("'");
        lemma_quoting_adds(arg);
    }
    assert(is_shell_safe(arg[i]));
}

proof fn lemma_quoting_adds(arg: Seq<char>)
    ensures
        quote_escaped(arg).len() >= arg.len(),
    decreases arg.len(),
{
    reveal_strlit("'\\''");
    if arg.len() > 0 {
        lemma_quoting_adds(arg.drop_last());
    }
}

/// A command line is made argument by argument, with a blank between neighbours.
pub proof fn law_command_lines_are_made_of_arguments(command: Seq<Seq<char>>, arg: Seq<char>)
    ensures
        command_line(Seq::empty()) == Seq::<char>::empty(),
        command_line(seq![arg]) == shell_word(arg),
        command.len() > 0 ==> command_line(command.push(arg)) == command_line(command) + " "@
            + shell_word(arg),
{
    let f = |arg: Seq<char>| shell_word(arg);
    assert(command.push(arg).map_values(f) =~= command.map_values(f).push(f(arg)));
    assert(seq![arg].map_values(f) =~= seq![f(arg)]);
    assert(Seq::<Seq<char>>::empty().map_values(f) =~= Seq::empty());
    text::law_joining_puts_separators_between(command.map_values(f), f(arg), " "@);
}

/// A command line that fits is shown whole; one that does not keeps as much of its start as there
/// is room for in front of three dots.
pub proof fn law_truncation_keeps_the_start(command: Seq<Seq<char>>, max_len: nat)
    ensures
        command_line(command).len() <= max_len ==> truncated_line(command, max_len) == command_line(
            command,
        ),
        command_line(command).len() > max_len && max_len >= 3 ==> ({
            let cut = truncated_line(command, max_len);
            &&& cut.len() == max_len
            &&& cut.take(max_len - 3) == command_line(command).take(max_len - 3)
            &&& cut.skip(max_len - 3) == seq!['.', '.', '.']
        }),
{
    reveal_strlit("...");
    let cut = truncated_line(command, max_len);
    if command_line(command).len() > max_len && max_len >= 3 {
        assert(cut.take(max_len - 3) =~= command_line(command).take(max_len - 3));
        assert(cut.skip(max_len - 3) =~= seq!['.', '.', '.']);
    }
}

} // verus!
