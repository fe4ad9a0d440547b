//! Splitting a typed tmux command line into arguments, with shell-like
//! quoting and backslash escapes.
use vstd::prelude::*;

use crate::text::{is_ws, is_whitespace, push_char, str_chars};

verus! {

/// Why a command line could not be split.
#[derive(Clone, Copy, Debug, PartialEq, Eq, Structural)]
pub enum ArgsError {
    /// A quote (the character given) was opened and never closed.
    UnclosedQuote(char),
    /// The first argument was the word `tmux`.
    LeadingTmuxWord,
}

/// The text that each error is shown with.
pub open spec fn args_error_text(e: ArgsError) -> Seq<char> {
    match e {
        ArgsError::UnclosedQuote(q) => "unclosed quote "@.push(q),
        ArgsError::LeadingTmuxWord => "omit the leading tmux word"@,
    }
}

impl ArgsError {
    /// The message shown for this error.
    pub fn message(&self) -> (res: String)
        ensures
            res@ == args_error_text(*self),
    {
        match self {
            ArgsError::UnclosedQuote(q) => {
                let mut s = "unclosed quote ".to_string();
                push_char(&mut s, *q);
                s
            },
            ArgsError::LeadingTmuxWord => "omit the leading tmux word".to_string(),
        }
    }
}

/// The tokenizer's state after some prefix of the input.
pub struct SplitState {
    pub args: Seq<Seq<char>>,
    pub current: Seq<char>,
    pub quote: Option<char>,
    pub escaped: bool,
    pub in_arg: bool,
}

pub open spec fn is_quote(c: char) -> bool {
    c == '\'' || c == '"'
}

pub open spec fn split_start() -> SplitState {
    SplitState { args: seq![], current: seq![], quote: None, escaped: false, in_arg: false }
}

/// One character of input: an escaped character is taken as is; a backslash
/// escapes the next one; a quote opens or closes quoting (a quote of the other
/// kind inside quotes is an ordinary character); unquoted whitespace ends the
/// current argument; anything else extends it.
pub open spec fn split_step(st: SplitState, c: char) -> SplitState {
    if st.escaped {
        SplitState {
            args: st.args,
            current: st.current.push(c),
            quote: st.quote,
            escaped: false,
            in_arg: true,
        }
    } else if c == '\\' {
        SplitState {
            args: st.args,
            current: st.current,
            quote: st.quote,
            escaped: true,
            in_arg: true,
        }
    } else if is_quote(c) && st.quote == Some(c) {
        SplitState { args: st.args, current: st.current, quote: None, escaped: false, in_arg: true }
    } else if is_quote(c) && st.quote is None {
        SplitState {
            args: st.args,
            current: st.current,
            quote: Some(c),
            escaped: false,
            in_arg: true,
        }
    } else if is_ws(c) && st.quote is None {
        if st.in_arg {
            SplitState {
                args: st.args.push(st.current),
                current: seq![],
                quote: None,
                escaped: false,
                in_arg: false,
            }
        } else {
            st
        }
    } else {
        SplitState {
            args: st.args,
            current: st.current.push(c),
            quote: st.quote,
            escaped: false,
            in_arg: true,
        }
    }
}

/// The state after reading all of `s`.
pub open spec fn split_run(s: Seq<char>) -> SplitState
    decreases s.len(),
{
    if s.len() == 0 {
        split_start()
    } else {
        split_step(split_run(s.drop_last()), s.last())
    }
}

/// The arguments of a command line, or why there are none: a trailing lone
/// backslash stands for itself; an open quote at the end is an error; so is a
/// first argument `tmux`.
pub open spec fn split_command_line(s: Seq<char>) -> Result<Seq<Seq<char>>, ArgsError> {
    let st = split_run(s);
    let current = if st.escaped {
        st.current.push('\\')
    } else {
        st.current
    };
    let args = if st.in_arg {
        st.args.push(current)
    } else {
        st.args
    };
    match st.quote {
        Some(q) => Err(ArgsError::UnclosedQuote(q)),
        None => if args.len() > 0 && args[0] == "tmux"@ {
            Err(ArgsError::LeadingTmuxWord)
        } else {
            Ok(args)
        },
    }
}

/// Splits a command line into tmux arguments (without the leading `tmux`).
pub fn split_tmux_args(input: &str) -> (res: Result<Vec<String>, ArgsError>)
    ensures
        match res {
            Ok(args) => split_command_line(input@) == Ok::<Seq<Seq<char>>, ArgsError>(
                args.deep_view(),
            ),
            Err(e) => split_command_line(input@) == Err::<Seq<Seq<char>>, ArgsError>(e),
        },
{
    let chars = str_chars(input);
    let mut args: Vec<String> = Vec::new();
    let mut current = String::new();
    let mut quote: Option<char> = None;
    let mut escaped = false;
    let mut in_arg = false;
    let mut i: usize = 0;
    assert(args.deep_view() =~= Seq::<Seq<char>>::empty());
    assert(chars@.take(0) =~= Seq::<char>::empty());
    while i < chars.len()
        invariant
            i <= chars.len(),
            chars@ == input@,
            split_run(chars@.take(i as int)) == (SplitState {
                args: args.deep_view(),
                current: current@,
                quote,
                escaped,
                in_arg,
            }),
        decreases chars.len() - i,
    {
        let c = chars[i];
        let ghost before = args.deep_view();
        proof {
            assert(chars@.take(i + 1).drop_last() == chars@.take(i as int));
        }
        if escaped {
            push_char(&mut current, c);
            escaped = false;
            in_arg = true;
        } else if c == '\\' {
            escaped = true;
            in_arg = true;
        } else if (c == '\'' || c == '"') && quote == Some(c) {
            quote = None;
            in_arg = true;
        } else if (c == '\'' || c == '"') && quote.is_none() {
            quote = Some(c);
            in_arg = true;
        } else if is_whitespace(c) && quote.is_none() {
            if in_arg {
                let finished = current;
                current = String::new();
                args.push(finished);
                in_arg = false;
                assert(args.deep_view() =~= before.push(finished@));
            }
        } else {
            push_char(&mut current, c);
            in_arg = true;
        }
        i += 1;
    }
    assert(chars@.take(chars.len() as int) == chars@);
    if escaped {
        push_char(&mut current, '\\');
    }
    if let Some(q) = quote {
        return Err(ArgsError::UnclosedQuote(q));
    }
    if in_arg {
        let ghost before = args.deep_view();
        args.push(current);
        assert(args.deep_view() =~= before.push(current@));
    }
    if args.len() > 0 && first_is_tmux(&args[0]) {
        return Err(ArgsError::LeadingTmuxWord);
    }
    Ok(args)
}

/// Whether an argument is the word `tmux`.
fn first_is_tmux(arg: &String) -> (res: bool)
    ensures
        res == (arg@ == "tmux"@),
{
    let tmux = "tmux".to_string();
    arg.eq(&tmux)
}

} // verus!
