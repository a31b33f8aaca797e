//! Command descriptors handed to the opaque executor collaborator, the
//! capability heuristic over them, and shell quoting for their arguments.
use vstd::prelude::*;

verus! {

use crate::textutil::contains_seq;
use crate::textutil::lower_of;
use crate::textutil::str_contains;
use crate::textutil::to_lowercase;

/// An opaque command descriptor for the executor collaborator.
pub enum Action {
    /// A shell command line.
    Cli(String),
    /// A file to write with the given content.
    WriteFile { path: String, content: String },
}

/// What the executor collaborator reports back for one action.
pub struct ExecResult {
    pub ok: bool,
    pub drift: bool,
    pub stdout: String,
    /// Path of a produced artifact, if the action yields one.
    pub artifact: Option<String>,
}

/// The capability class the heuristic assigns to a lower-cased command
/// line, if any: network access, file rewriting, or acting under the
/// repository identity.
pub open spec fn capability_of(lc: Seq<char>) -> Option<Seq<char>> {
    if contains_seq(lc, "curl "@) || contains_seq(lc, "wget "@) {
        Some("network"@)
    } else if contains_seq(lc, " rm "@) || contains_seq(lc, "rm -rf"@) || contains_seq(
        lc,
        " mv "@,
    ) {
        Some("file_write"@)
    } else if contains_seq(lc, "git push"@) || contains_seq(lc, "gh release"@) {
        Some("identity"@)
    } else {
        None
    }
}

/// String-match heuristic naming the risky capability a command line would
/// exercise, if any.
pub fn detect_capability(cmd: &str) -> (r: Option<&'static str>)
    ensures
        match r {
            Some(c) => capability_of(lower_of(cmd@)) == Some(c@),
            None => capability_of(lower_of(cmd@)) is None,
        },
{
    let s = to_lowercase(cmd);
    let sref = s.as_str();
    if str_contains(sref, "curl ") || str_contains(sref, "wget ") {
        return Some("network");
    }
    if str_contains(sref, " rm ") || str_contains(sref, "rm -rf") || str_contains(sref, " mv ") {
        return Some("file_write");
    }
    if str_contains(sref, "git push") || str_contains(sref, "gh release") {
        return Some("identity");
    }
    None
}

/// An execution produced a deliverable: it succeeded, named an artifact,
/// and the artifact is present on disk (the caller answers the on-disk
/// question).
pub fn deliverable_exists(res: &ExecResult, artifact_on_disk: bool) -> (r: bool)
    ensures
        r == (res.ok && res.artifact is Some && artifact_on_disk),
{
    res.ok && res.artifact.is_some() && artifact_on_disk
}

/// A character POSIX shells take literally, so that a word of such
/// characters needs no quoting.
pub open spec fn shell_plain(c: char) -> bool {
    ('a' <= c && c <= 'z') || ('A' <= c && c <= 'Z') || ('0' <= c && c <= '9') || c == '-' || c
        == '_' || c == '=' || c == '/' || c == ',' || c == '.' || c == '+'
}

/// How one character is written inside single quotes: a quote or a bang
/// closes the quotes, escapes itself and reopens them.
pub open spec fn shell_quoted_char(c: char) -> Seq<char> {
    if c == '\'' || c == '!' {
        seq!['\'', '\\', c, '\'']
    } else {
        seq![c]
    }
}

/// The quoted body of a command-line word, character by character.
pub open spec fn shell_quoted_chars(s: Seq<char>) -> Seq<char>
    decreases s.len(),
{
    if s.len() == 0 {
        Seq::empty()
    } else {
        shell_quoted_char(s[0]) + shell_quoted_chars(s.skip(1))
    }
}

/// A word escaped for a POSIX shell: unchanged when non-empty and made of
/// plain characters only, otherwise wrapped in single quotes with quotes
/// and bangs escaped.
pub open spec fn shell_escaped(s: Seq<char>) -> Seq<char> {
    if s.len() > 0 && (forall|i: int| 0 <= i < s.len() ==> shell_plain(s[i])) {
        s
    } else {
        seq!['\''] + shell_quoted_chars(s) + seq!['\'']
    }
}

/// Relies on `shell_escape::unix::escape`: it returns the word unchanged
/// when non-empty and wholly whitelisted, and otherwise single-quotes it,
/// escaping embedded quotes and bangs.
#[verifier::external_body]
pub(crate) fn escape_arg(s: &str) -> (r: String)
    ensures
        r@ == shell_escaped(s@),
{
    shell_escape::unix::escape(std::borrow::Cow::Borrowed(s)).into_owned()
}

} // verus!
