//! A shell-like lexer for the external discovery command line: whitespace
//! separates tokens unless inside matching single or double quotes, a
//! backslash escapes the following character (kept literally, backslash
//! included), and a group left open at the end of the input is flushed as it
//! stands.

use vstd::prelude::*;

use crate::action::Action;

verus! {

/// The lexer's state after some prefix of the input.
pub ghost struct LexState {
    /// A backslash was just read and the next character is taken literally.
    pub escaped: bool,
    /// The quote character of the currently open group, if any.
    pub group: Option<char>,
    /// The characters of the token being accumulated.
    pub buffer: Seq<char>,
    /// The tokens already produced.
    pub tokens: Seq<Seq<char>>,
}

/// The lexer's initial state.
pub open spec fn lex_init() -> LexState {
    LexState { escaped: false, group: None, buffer: Seq::empty(), tokens: Seq::empty() }
}

/// One step of the lexer on character `c`.
pub open spec fn lex_step(st: LexState, c: char) -> LexState {
    if st.escaped {
        LexState { escaped: false, buffer: st.buffer.push('\\').push(c), ..st }
    } else if c == '\\' {
        LexState { escaped: true, ..st }
    } else if st.group == Some(c) {
        LexState { group: None, tokens: st.tokens.push(st.buffer), buffer: Seq::empty(), ..st }
    } else if (c == '"' || c == '\'') && st.group is None {
        LexState { group: Some(c), ..st }
    } else if c == ' ' && st.group is None {
        LexState { tokens: st.tokens.push(st.buffer), buffer: Seq::empty(), ..st }
    } else {
        LexState { buffer: st.buffer.push(c), ..st }
    }
}

/// The lexer's state after reading all of `s`.
pub open spec fn lex_run(s: Seq<char>) -> LexState
    decreases s.len(),
{
    if s.len() == 0 {
        lex_init()
    } else {
        lex_step(lex_run(s.drop_last()), s.last())
    }
}

/// The tokens of the command line `s`: what the lexer produced, with a
/// non-empty leftover buffer flushed as a final token.
pub open spec fn lex_tokens(s: Seq<char>) -> Seq<Seq<char>> {
    let fin = lex_run(s);
    if fin.buffer.len() > 0 {
        fin.tokens.push(fin.buffer)
    } else {
        fin.tokens
    }
}

/// Split a shell-like command line into its argv tokens.
pub fn commandline_parser(input: &str) -> (r: Vec<String>)
    ensures
        r@.map_values(|t: String| t@) == lex_tokens(input@),
{
    let n = input.unicode_len();
    let mut output: Vec<String> = Vec::new();
    let mut buffer = String::new();
    let mut found_special: char = ' ';
    let mut is_in_group = false;
    let mut is_escaped = false;
    let mut i: usize = 0;
    while i < n
        invariant
            i <= n,
            n == input@.len(),
            ({
                let st = lex_run(input@.take(i as int));
                &&& st.escaped == is_escaped
                &&& st.group == if is_in_group {
                    Some(found_special)
                } else {
                    None::<char>
                }
                &&& st.buffer == buffer@
                &&& st.tokens == output@.map_values(|t: String| t@)
            }),
        decreases n - i,
    {
        let c = input.get_char(i);
        let ghost prefix = input@.take(i as int);
        let ghost prefix1 = input@.take(i as int + 1);
        proof {
            assert(prefix1.drop_last() =~= prefix);
            assert(prefix1.last() == c);
        }
        if is_escaped {
            is_escaped = false;
            buffer.push('\\');
            buffer.push(c);
        } else if c == '\\' {
            is_escaped = true;
        } else if is_in_group && found_special == c {
            is_in_group = false;
            output.push(buffer);
            buffer = String::new();
            proof {
                assert(output@.map_values(|t: String| t@) =~= lex_run(prefix).tokens.push(
                    lex_run(prefix).buffer,
                ));
            }
        } else if (c == '"' || c == '\'') && !is_in_group {
            is_in_group = true;
            found_special = c;
        } else if c == ' ' && !is_in_group {
            output.push(buffer);
            buffer = String::new();
            proof {
                assert(output@.map_values(|t: String| t@) =~= lex_run(prefix).tokens.push(
                    lex_run(prefix).buffer,
                ));
            }
        } else {
            buffer.push(c);
        }
        i += 1;
    }
    proof {
        assert(input@.take(n as int) =~= input@);
    }
    if !buffer.as_str().is_empty() {
        output.push(buffer);
        proof {
            assert(output@.map_values(|t: String| t@) =~= lex_tokens(input@));
        }
    } else {
        proof {
            assert(buffer@ =~= Seq::<char>::empty());
        }
    }
    output
}

/// The action that runs the external discovery command: its argv is the
/// lexed command line.
pub fn query_list(cmd: &str) -> (r: Action)
    ensures
        r matches Action::RunCommand { argv } && argv@.map_values(|t: String| t@) == lex_tokens(
            cmd@,
        ),
{
    Action::RunCommand { argv: commandline_parser(cmd) }
}

} // verus!
