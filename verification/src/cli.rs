//! Decisions of the command-line program around the pager: colours,
//! settings taken from the environment, and how a run ends.

use vstd::prelude::*;
use vstd::string::*;
use crate::error::Error;
use crate::text::push_str;

verus! {

/// When to colour the help output.
#[derive(Debug, Clone, Copy, PartialEq, Eq, Structural)]
pub enum ColorWhen {
    Auto,
    Never,
}

/// Colours only on an interactive output and when `NO_COLOR` is not set.
pub fn color_when(interactive_output: bool, no_color: bool) -> (c: ColorWhen)
    ensures
        c == if interactive_output && !no_color { ColorWhen::Auto } else { ColorWhen::Never },
{
    if interactive_output && !no_color {
        ColorWhen::Auto
    } else {
        ColorWhen::Never
    }
}

/// `NO_COLOR` counts when it is set to something not empty.
pub fn no_color(value: Option<&str>) -> (b: bool)
    ensures
        b == (value matches Some(v) && v@.len() > 0),
{
    match value {
        Some(v) => v.unicode_len() > 0,
        None => false,
    }
}

fn is_word(s: &str, w: &str) -> (b: bool)
    ensures
        b == (s@ == w@),
{
    let n = s.unicode_len();
    if n != w.unicode_len() {
        return false;
    }
    let mut i: usize = 0;
    while i < n
        invariant
            n == s@.len() == w@.len(),
            i <= n,
            forall|k: int| 0 <= k < i ==> s@[k] == w@[k],
        decreases n - i,
    {
        if s.get_char(i) != w.get_char(i) {
            return false;
        }
        i = i + 1;
    }
    assert(s@ =~= w@);
    true
}

/// A terminal of 24-bit colour: `COLORTERM` is `truecolor` or `24bit`.
pub fn is_truecolor_terminal(colorterm: Option<&str>) -> (b: bool)
    ensures
        b == (colorterm matches Some(v) && (v@ == "truecolor"@ || v@ == "24bit"@)),
{
    match colorterm {
        Some(v) => is_word(v, "truecolor") || is_word(v, "24bit"),
        None => false,
    }
}

/// The options that environment variables stand for: each flag with the
/// variable that sets it.
pub fn env_flags() -> (v: Vec<(&'static str, &'static str)>)
    ensures
        v@.len() == 1,
        v@[0].0@ == "--ascii"@ && v@[0].1@ == "RMORE_ASCII"@,
{
    let mut v = Vec::new();
    v.push(("--ascii", "RMORE_ASCII"));
    v
}

/// The argument that a set environment variable stands for: `flag=value`.
pub fn flag_from_env(flag: &str, value: &str) -> (a: String)
    ensures
        a@ == flag@ + "="@ + value@,
{
    let mut a = String::new();
    push_str(&mut a, flag);
    push_str(&mut a, "=");
    push_str(&mut a, value);
    a
}

/// The exit status of a run: 0 when it succeeded, 1 otherwise.
pub fn exit_code(result: &Result<bool, Error>) -> (c: i32)
    ensures
        c == if result matches Ok(true) { 0i32 } else { 1i32 },
{
    match result {
        Ok(true) => 0,
        _ => 1,
    }
}

/// Whether an I/O error is of the kind `ErrorKind::BrokenPipe`: the output
/// was closed by the reader at its other end.
pub uninterp spec fn broken_pipe(e: std::io::Error) -> bool;

/// `io::Error::kind`, compared with `ErrorKind::BrokenPipe`. The claim is
/// only that the answer is `broken_pipe` of the error: the kind is a field
/// of the error value, so the same error gives the same answer.
#[verifier::external_body]
fn is_broken_pipe(e: &std::io::Error) -> (b: bool)
    ensures
        b == broken_pipe(*e),
{
    e.kind() == std::io::ErrorKind::BrokenPipe
}

/// Whether an error ends the program quietly, with success: exactly an I/O
/// error whose output pipe was closed.
pub fn ends_quietly(error: &Error) -> (b: bool)
    ensures
        b == (error matches Error::Io(e) && broken_pipe(*e)),
{
    match error {
        Error::Io(e) => is_broken_pipe(e),
        _ => false,
    }
}

} // verus!
