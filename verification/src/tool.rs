//! Command lines for the external password tool and the mapping from what a
//! finished subprocess shows to an operation's result.
//!
//! The caller spawns the command a builder here produced and hands back
//! either the captured output or the launcher's error text; the functions
//! here decide the outcome. The exit status is inspected, so a tool failure
//! is reported rather than mistaken for success, and output that is not
//! valid UTF-8 becomes a typed error rather than an abort.

use vstd::prelude::*;
use vstd::utf8::decode_utf8;
use vstd::utf8::valid_utf8;
use crate::errors::PassError;

verus! {

/// The command line an operation hands to the spawner: a program and its
/// arguments, in order.
pub struct ToolCommand {
    pub program: String,
    pub args: Vec<String>,
}

/// What the spawner captured of a finished subprocess: its standard output
/// and whether its exit status reported success.
pub struct ToolOutput {
    pub stdout: Vec<u8>,
    pub success: bool,
}

/// The command line that reads one entry: `pass <entry>`.
pub fn read_command(entry: String) -> (c: ToolCommand)
    ensures
        c.program@ == "pass"@,
        c.args.deep_view() == seq![entry@],
{
    let ghost e = entry@;
    let mut args: Vec<String> = Vec::new();
    args.push(entry);
    proof {
        assert(args.deep_view() =~= seq![e]);
    }
    ToolCommand { program: String::from_str("pass"), args }
}

/// The command line that removes one entry: `pass rm <entry>`.
pub fn remove_command(entry: String) -> (c: ToolCommand)
    ensures
        c.program@ == "pass"@,
        c.args.deep_view() == seq!["rm"@, entry@],
{
    let ghost e = entry@;
    let mut args: Vec<String> = Vec::new();
    args.push(String::from_str("rm"));
    args.push(entry);
    proof {
        assert(args.deep_view() =~= seq!["rm"@, e]);
    }
    ToolCommand { program: String::from_str("pass"), args }
}

/// Relies on `String::from_utf8`: it succeeds exactly when the bytes are
/// valid UTF-8, and the returned string is the text those bytes encode.
#[verifier::external_body]
fn decode_output(bytes: Vec<u8>) -> (r: Option<String>)
    ensures
        r is Some <==> valid_utf8(bytes@),
        r matches Some(s) ==> s@ == decode_utf8(bytes@),
{
    String::from_utf8(bytes).ok()
}

/// The reader's outcome, given what spawning `pass <entry>` produced.
///
/// A launch failure is reported as a process error carrying the launcher's
/// text. When the tool ran, its exit status decides first: a non-zero status
/// is a tool failure whatever was printed. On success the captured output is
/// decoded; text comes back as is, and anything that is not valid UTF-8 is a
/// typed decoding error, never an abort.
pub fn read_outcome(spawn: Result<ToolOutput, String>) -> (r: Result<String, PassError>)
    ensures
        match spawn {
            Ok(out) => (!out.success ==> (r matches Err(e) && e is ToolFailed)) && (out.success
                && valid_utf8(out.stdout@) ==> (r matches Ok(s) && s@ == decode_utf8(out.stdout@)))
                && (out.success && !valid_utf8(out.stdout@) ==> (r matches Err(e)
                && e is NonUtf8Output)),
            Err(m) => r matches Err(e) && (e matches PassError::Process(t) && t@ == m@),
        },
{
    match spawn {
        Ok(out) => {
            if !out.success {
                Err(PassError::ToolFailed)
            } else {
                match decode_output(out.stdout) {
                    Some(s) => Ok(s),
                    None => Err(PassError::NonUtf8Output),
                }
            }
        },
        Err(m) => Err(PassError::Process(m)),
    }
}

/// The remover's outcome, given whether `pass rm <entry>` could be spawned
/// and, if so, whether its exit status reported success.
///
/// Success is reported only when the tool itself succeeded: a non-zero exit
/// status (the entry absent, a confirmation refused) is a reported tool
/// failure, and a launch failure carries the launcher's text.
pub fn remove_outcome(spawn: Result<bool, String>) -> (r: Result<(), PassError>)
    ensures
        match spawn {
            Ok(success) => (success ==> r is Ok) && (!success ==> (r matches Err(e)
                && e is ToolFailed)),
            Err(m) => r matches Err(e) && (e matches PassError::Process(t) && t@ == m@),
        },
{
    match spawn {
        Ok(success) => {
            if success {
                Ok(())
            } else {
                Err(PassError::ToolFailed)
            }
        },
        Err(m) => Err(PassError::Process(m)),
    }
}

} // verus!
