//! Command pipeline front end: splitting a command string into shell words,
//! and the once-only endpoint hand-out of a spawned pipeline.
//!
//! The words of a command are found by the POSIX rules: whitespace separates
//! words; single quotes keep everything literal; double quotes keep
//! everything but let a backslash escape `$`, a backquote, a double quote, a
//! backslash and a line break; an unquoted backslash escapes the next
//! character, and a backslash before a line break continues the line. An
//! unclosed quote or a trailing backslash is a lexical error.

use vstd::prelude::*;

use crate::errors::CommandError;
use crate::errors::Error;

verus! {

/// Where the splitter stands in the middle of the input.
#[derive(Clone, Copy, PartialEq, Eq, Structural, Debug)]
pub enum LexMode {
    /// Outside any quote.
    Normal,
    /// Right after an unquoted backslash.
    Escaped,
    /// Inside single quotes.
    Single,
    /// Inside double quotes.
    Double,
    /// Inside double quotes, right after a backslash.
    DoubleEscaped,
}

/// The splitter's whole state: finished words, the word being built, whether
/// a word is open, and the quoting mode.
pub struct LexState {
    pub words: Seq<Seq<char>>,
    pub cur: Seq<char>,
    pub in_word: bool,
    pub mode: LexMode,
}

/// The state before any character is read.
pub open spec fn lex_init() -> LexState {
    LexState { words: Seq::empty(), cur: Seq::empty(), in_word: false, mode: LexMode::Normal }
}

/// One step of the splitter on one character.
pub open spec fn lex_step(s: LexState, c: char) -> LexState {
    match s.mode {
        LexMode::Normal => {
            if c == ' ' || c == '\t' || c == '\n' || c == '\r' {
                if s.in_word {
                    LexState {
                        words: s.words.push(s.cur),
                        cur: Seq::empty(),
                        in_word: false,
                        mode: LexMode::Normal,
                    }
                } else {
                    s
                }
            } else if c == '\\' {
                LexState { words: s.words, cur: s.cur, in_word: true, mode: LexMode::Escaped }
            } else if c == '\'' {
                LexState { words: s.words, cur: s.cur, in_word: true, mode: LexMode::Single }
            } else if c == '"' {
                LexState { words: s.words, cur: s.cur, in_word: true, mode: LexMode::Double }
            } else {
                LexState {
                    words: s.words,
                    cur: s.cur.push(c),
                    in_word: true,
                    mode: LexMode::Normal,
                }
            }
        }
        LexMode::Escaped => {
            if c == '\n' {
                LexState { words: s.words, cur: s.cur, in_word: s.in_word, mode: LexMode::Normal }
            } else {
                LexState {
                    words: s.words,
                    cur: s.cur.push(c),
                    in_word: true,
                    mode: LexMode::Normal,
                }
            }
        }
        LexMode::Single => {
            if c == '\'' {
                LexState { words: s.words, cur: s.cur, in_word: true, mode: LexMode::Normal }
            } else {
                LexState {
                    words: s.words,
                    cur: s.cur.push(c),
                    in_word: true,
                    mode: LexMode::Single,
                }
            }
        }
        LexMode::Double => {
            if c == '"' {
                LexState { words: s.words, cur: s.cur, in_word: true, mode: LexMode::Normal }
            } else if c == '\\' {
                LexState { words: s.words, cur: s.cur, in_word: true, mode: LexMode::DoubleEscaped }
            } else {
                LexState {
                    words: s.words,
                    cur: s.cur.push(c),
                    in_word: true,
                    mode: LexMode::Double,
                }
            }
        }
        LexMode::DoubleEscaped => {
            if c == '$' || c == '`' || c == '"' || c == '\\' {
                LexState {
                    words: s.words,
                    cur: s.cur.push(c),
                    in_word: true,
                    mode: LexMode::Double,
                }
            } else if c == '\n' {
                LexState { words: s.words, cur: s.cur, in_word: true, mode: LexMode::Double }
            } else {
                LexState {
                    words: s.words,
                    cur: s.cur.push('\\').push(c),
                    in_word: true,
                    mode: LexMode::Double,
                }
            }
        }
    }
}

/// The state after the whole input has been read.
pub open spec fn lex_run(input: Seq<char>) -> LexState {
    input.fold_left(lex_init(), |s: LexState, c: char| lex_step(s, c))
}

/// What splitting an input yields: its words, or nothing when a quote is
/// left open or a backslash hangs at the end.
pub open spec fn spec_shell_words(input: Seq<char>) -> Option<Seq<Seq<char>>> {
    let s = lex_run(input);
    if s.mode is Normal {
        if s.in_word {
            Some(s.words.push(s.cur))
        } else {
            Some(s.words)
        }
    } else {
        None
    }
}

/// Splits a command string into shell words by the rules above.
pub fn split_shell_words(input: &str) -> (r: Result<Vec<String>, Error>)
    ensures
        match r {
            Ok(words) => spec_shell_words(input@) == Some(
                words@.map_values(|w: String| w@),
            ),
            Err(e) => spec_shell_words(input@) is None && e == Error::CommandFailed(
                CommandError::UnableToParse,
            ),
        },
{
    let n = input.unicode_len();
    let mut words: Vec<String> = Vec::new();
    let mut cur: String = String::new();
    let mut in_word: bool = false;
    let mut mode: LexMode = LexMode::Normal;
    let mut i: usize = 0;
    while i < n
        invariant
            n == input@.len(),
            0 <= i <= n,
            ({
                let g = lex_run(input@.subrange(0, i as int));
                &&& g.words == words@.map_values(|w: String| w@)
                &&& g.cur == cur@
                &&& g.in_word == in_word
                &&& g.mode == mode
            }),
            mode is DoubleEscaped ==> 1 <= i && input@[i - 1] == '\\',
        decreases n - i,
    {
        let ghost pre = lex_run(input@.subrange(0, i as int));
        let c = input.get_char(i);
        proof {
            assert(input@.subrange(0, i + 1 as int).drop_last() =~= input@.subrange(0, i as int));
            assert(input@.subrange(0, i + 1 as int).last() == c);
            assert(lex_run(input@.subrange(0, i + 1 as int)) == lex_step(pre, c));
        }
        match mode {
            LexMode::Normal => {
                if c == ' ' || c == '\t' || c == '\n' || c == '\r' {
                    if in_word {
                        words.push(cur);
                        cur = String::new();
                        in_word = false;
                        proof {
                            assert(words@.map_values(|w: String| w@) =~= pre.words.push(pre.cur));
                        }
                    }
                } else if c == '\\' {
                    mode = LexMode::Escaped;
                    in_word = true;
                } else if c == '\'' {
                    mode = LexMode::Single;
                    in_word = true;
                } else if c == '"' {
                    mode = LexMode::Double;
                    in_word = true;
                } else {
                    cur.append(input.substring_char(i, i + 1));
                    in_word = true;
                    proof {
                        assert(input@.subrange(i as int, i + 1 as int) =~= seq![c]);
                        assert(cur@ =~= pre.cur.push(c));
                    }
                }
            }
            LexMode::Escaped => {
                if c == '\n' {
                    mode = LexMode::Normal;
                } else {
                    cur.append(input.substring_char(i, i + 1));
                    in_word = true;
                    mode = LexMode::Normal;
                    proof {
                        assert(input@.subrange(i as int, i + 1 as int) =~= seq![c]);
                        assert(cur@ =~= pre.cur.push(c));
                    }
                }
            }
            LexMode::Single => {
                if c == '\'' {
                    mode = LexMode::Normal;
                } else {
                    cur.append(input.substring_char(i, i + 1));
                    proof {
                        assert(input@.subrange(i as int, i + 1 as int) =~= seq![c]);
                        assert(cur@ =~= pre.cur.push(c));
                    }
                }
            }
            LexMode::Double => {
                if c == '"' {
                    mode = LexMode::Normal;
                } else if c == '\\' {
                    mode = LexMode::DoubleEscaped;
                } else {
                    cur.append(input.substring_char(i, i + 1));
                    proof {
                        assert(input@.subrange(i as int, i + 1 as int) =~= seq![c]);
                        assert(cur@ =~= pre.cur.push(c));
                    }
                }
            }
            LexMode::DoubleEscaped => {
                if c == '$' || c == '`' || c == '"' || c == '\\' {
                    cur.append(input.substring_char(i, i + 1));
                    mode = LexMode::Double;
                    proof {
                        assert(input@.subrange(i as int, i + 1 as int) =~= seq![c]);
                        assert(cur@ =~= pre.cur.push(c));
                    }
                } else if c == '\n' {
                    mode = LexMode::Double;
                } else {
                    cur.append(input.substring_char(i - 1, i + 1));
                    mode = LexMode::Double;
                    proof {
                        assert(input@[i - 1 as int] == '\\');
                        assert(input@.subrange(i - 1 as int, i + 1 as int) =~= seq!['\\', c]);
                        assert(cur@ =~= pre.cur.push('\\').push(c));
                    }
                }
            }
        }
        i += 1;
    }
    proof {
        assert(input@.subrange(0, n as int) =~= input@);
    }
    match mode {
        LexMode::Normal => {
            if in_word {
                words.push(cur);
                proof {
                    assert(words@.map_values(|w: String| w@) =~= lex_run(input@).words.push(
                        lex_run(input@).cur,
                    ));
                }
            }
            Ok(words)
        }
        _ => Err(Error::CommandFailed(CommandError::UnableToParse)),
    }
}

} // verus!
