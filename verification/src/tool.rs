//! The contract of the external build tool: how it is invoked and how what
//! it leaves behind is read.

use vstd::prelude::*;
use vstd::utf8::{decode_utf8, valid_utf8};
use crate::text::{chars_of, trim_chars, trimmed};

verus! {

/// `core::str::Utf8Error`, of which nothing is read.
#[verifier::external_type_specification]
#[verifier::external_body]
pub struct ExUtf8Error(core::str::Utf8Error);

/// `core::str::from_utf8`: succeeds exactly on well-formed UTF-8 and then
/// yields the text that the bytes encode.
pub assume_specification<'a>[ core::str::from_utf8 ](v: &'a [u8]) -> (r: Result<
    &'a str,
    core::str::Utf8Error,
>)
    ensures
        r is Ok <==> valid_utf8(v@),
        r is Ok ==> r->Ok_0@ == decode_utf8(v@),
;

/// The text that `String::from_utf8_lossy` makes of `bytes`: ill-formed parts
/// come out as U+FFFD.
pub uninterp spec fn utf8_lossy(bytes: Seq<u8>) -> Seq<char>;

/// `String::from_utf8_lossy`: the lossy text of the bytes, which is the text
/// they encode where they are well-formed UTF-8.
#[verifier::external_body]
fn lossy_text(bytes: &[u8]) -> (r: String)
    ensures
        r@ == utf8_lossy(bytes@),
        valid_utf8(bytes@) ==> r@ == decode_utf8(bytes@),
{
    String::from_utf8_lossy(bytes).into_owned()
}

/// What a finished run of the build tool left behind. `code` is `None`
/// where the process ended without an exit code.
#[derive(Debug)]
pub struct ToolOutput {
    pub code: Option<i32>,
    pub stdout: Vec<u8>,
    pub stderr: Vec<u8>,
}

/// The mathematical value of a `ToolOutput`.
pub struct ToolOutputView {
    pub code: Option<i32>,
    pub stdout: Seq<u8>,
    pub stderr: Seq<u8>,
}

impl View for ToolOutput {
    type V = ToolOutputView;

    open spec fn view(&self) -> ToolOutputView {
        ToolOutputView { code: self.code, stdout: self.stdout@, stderr: self.stderr@ }
    }
}

impl ToolOutputView {
    /// The run ended with exit code 0.
    pub open spec fn succeeded(self) -> bool {
        self.code == Some(0i32)
    }

    /// The standard output as text, lossily decoded and trimmed.
    pub open spec fn stdout_text(self) -> Seq<char> {
        trimmed(utf8_lossy(self.stdout))
    }

    /// The standard error as text, lossily decoded and trimmed.
    pub open spec fn stderr_text(self) -> Seq<char> {
        trimmed(utf8_lossy(self.stderr))
    }
}

impl ToolOutput {
    /// Whether the run ended with exit code 0.
    pub fn succeeded(&self) -> (r: bool)
        ensures
            r == self@.succeeded(),
    {
        match self.code {
            Some(c) => c == 0,
            None => false,
        }
    }

    /// The standard output as text, lossily decoded and trimmed.
    pub fn stdout_text(&self) -> (r: String)
        ensures
            r@ == self@.stdout_text(),
    {
        let text = lossy_text(self.stdout.as_slice());
        let chars = chars_of(text.as_str());
        trim_chars(&chars)
    }

    /// The standard error as text, lossily decoded and trimmed.
    pub fn stderr_text(&self) -> (r: String)
        ensures
            r@ == self@.stderr_text(),
    {
        let text = lossy_text(self.stderr.as_slice());
        let chars = chars_of(text.as_str());
        trim_chars(&chars)
    }
}

/// The arguments with which the tool lists the targets of a flake.
pub open spec fn list_arguments(flake_url: Seq<char>) -> Seq<Seq<char>> {
    seq!["flake"@, "show"@, "--json"@, "--all-systems"@, flake_url]
}

/// The arguments with which the tool builds one target.
pub open spec fn build_arguments(flake_url: Seq<char>) -> Seq<Seq<char>> {
    seq!["build"@, "--no-link"@, "--print-out-paths"@, flake_url]
}

/// The text of each string of a list, in order.
pub open spec fn strings_view(v: Seq<String>) -> Seq<Seq<char>> {
    v.map_values(|s: String| s@)
}

/// The arguments with which the tool lists the targets of a flake.
pub fn list_command(flake_url: &str) -> (r: Vec<String>)
    ensures
        strings_view(r@) == list_arguments(flake_url@),
{
    let mut r: Vec<String> = Vec::new();
    r.push(String::from_str("flake"));
    r.push(String::from_str("show"));
    r.push(String::from_str("--json"));
    r.push(String::from_str("--all-systems"));
    r.push(String::from_str(flake_url));
    assert(strings_view(r@) =~= list_arguments(flake_url@));
    r
}

/// The arguments with which the tool builds one target.
pub fn build_command(flake_url: &str) -> (r: Vec<String>)
    ensures
        strings_view(r@) == build_arguments(flake_url@),
{
    let mut r: Vec<String> = Vec::new();
    r.push(String::from_str("build"));
    r.push(String::from_str("--no-link"));
    r.push(String::from_str("--print-out-paths"));
    r.push(String::from_str(flake_url));
    assert(strings_view(r@) =~= build_arguments(flake_url@));
    r
}

} // verus!
