use vstd::prelude::*;
use vstd::utf8::{decode_utf8, valid_utf8};

use crate::error::StatsError;
use crate::escape::string_from_utf8;
use crate::text::{chars_of, string_of};

verus! {

/// How a command ended, as seen by whoever ran it.
#[derive(Debug)]
pub enum Outcome {
    /// The shell could not be started.
    NotStarted,
    /// The shell ran the command and exited.
    Exited { success: bool, stdout: Vec<u8> },
}

/// The printed bytes as text; output that is not UTF-8 reads as empty.
pub open spec fn printed_text(bytes: Seq<u8>) -> Seq<char> {
    if valid_utf8(bytes) {
        decode_utf8(bytes)
    } else {
        seq![]
    }
}

/// `s` without one trailing line feed, if it ends with one.
pub open spec fn without_final_newline(s: Seq<char>) -> Seq<char> {
    if s.len() > 0 && s.last() == '\n' {
        s.drop_last()
    } else {
        s
    }
}

/// Removes one trailing line feed from `s`, if it ends with one.
pub fn trim_final_newline(s: &str) -> (r: String)
    ensures
        r@ == without_final_newline(s@),
{
    let mut v = chars_of(s);
    if v.len() > 0 && v[v.len() - 1] == '\n' {
        v.pop();
        assert(v@ =~= s@.drop_last());
    }
    string_of(&v)
}

/// The output of `command` given how it ended: its standard output as text
/// with one trailing line feed removed, or the error that ends the run.
pub fn command_output(command: &str, outcome: Outcome) -> (r: Result<String, StatsError>)
    ensures
        match outcome {
            Outcome::NotStarted => r == Err::<String, StatsError>(StatsError::Launch),
            Outcome::Exited { success, stdout } => if success {
                r matches Ok(t) && t@ == without_final_newline(printed_text(stdout@))
            } else {
                r matches Err(StatsError::Subprocess { command: c }) && c@ == command@
            },
        },
{
    match outcome {
        Outcome::NotStarted => Err(StatsError::Launch),
        Outcome::Exited { success, stdout } => {
            if !success {
                return Err(StatsError::Subprocess { command: String::from_str(command) });
            }
            let text = match string_from_utf8(stdout) {
                Some(t) => t,
                None => String::new(),
            };
            Ok(trim_final_newline(text.as_str()))
        },
    }
}

} // verus!
