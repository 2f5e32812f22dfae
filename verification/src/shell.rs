//! Running a shell command safely: splitting it into a program and its
//! arguments (no shell ever interprets it), and assembling what is reported
//! back.
use vstd::prelude::*;
use vstd::string::*;
use crate::text::concat2;

verus! {

/// What `shlex::split` returns for a command line: its words under POSIX
/// shell quoting rules, or nothing when the quoting is unbalanced.
pub uninterp spec fn shell_words(line: Seq<char>) -> Option<Seq<Seq<char>>>;

/// Calls `shlex::split`; the result is `shell_words` of the argument.
#[verifier::external_body]
fn shlex_split(line: &str) -> (r: Option<Vec<String>>)
    ensures
        r is Some <==> shell_words(line@) is Some,
        r matches Some(v) ==> v@.map_values(|w: String| w@) == shell_words(line@)->0,
{
    shlex::split(line)
}

/// How a command will be run.
#[derive(Debug, Clone, PartialEq, Eq)]
pub enum ShellPlan {
    /// Directly, as a program with its arguments (no shell interpolation).
    Direct { program: String, args: Vec<String> },
    /// Not run at all: this output is reported with exit code -1.
    Fail { output: String },
}

/// A plan, as characters.
pub enum ShellPlanView {
    Direct { program: Seq<char>, args: Seq<Seq<char>> },
    Fail { output: Seq<char> },
}

impl View for ShellPlan {
    type V = ShellPlanView;

    open spec fn view(&self) -> ShellPlanView {
        match self {
            ShellPlan::Direct { program, args } => ShellPlanView::Direct {
                program: program@,
                args: args@.map_values(|a: String| a@),
            },
            ShellPlan::Fail { output } => ShellPlanView::Fail { output: output@ },
        }
    }
}

/// How a command runs: never through a shell; it is split into words under
/// shell quoting rules, the first word being the program and the rest its
/// arguments, taken literally (`|`, `>`, `$X` and the like are plain words).
/// A command that does not split into at least one word is not run.
pub open spec fn plan_spec(command: Seq<char>) -> ShellPlanView {
    match shell_words(command) {
        Some(words) if words.len() > 0 => ShellPlanView::Direct {
            program: words[0],
            args: words.drop_first(),
        },
        _ => ShellPlanView::Fail { output: "Failed to parse command: "@ + command },
    }
}

/// Decides how `command` runs.
pub fn plan_shell_command(command: &str) -> (r: ShellPlan)
    ensures
        r@ == plan_spec(command@),
{
    match shlex_split(command) {
        Some(parts) => {
            if parts.len() == 0 {
                return ShellPlan::Fail { output: concat2("Failed to parse command: ", command) };
            }
            let mut parts = parts;
            let ghost all = parts@;
            let program = parts.remove(0);
            assert(parts@ =~= all.drop_first());
            assert(parts@.map_values(|a: String| a@) =~= all.map_values(|a: String| a@).drop_first());
            ShellPlan::Direct { program, args: parts }
        },
        None => ShellPlan::Fail { output: concat2("Failed to parse command: ", command) },
    }
}

/// What `String::from_utf8_lossy` gives for bytes: their UTF-8 decoding, with
/// each invalid sequence replaced by U+FFFD.
pub uninterp spec fn lossy_text(bytes: Seq<u8>) -> Seq<char>;

/// Calls `String::from_utf8_lossy`; the result is `lossy_text` of the bytes.
#[verifier::external_body]
pub(crate) fn from_utf8_lossy(bytes: &[u8]) -> (r: String)
    ensures
        r@ == lossy_text(bytes@),
{
    String::from_utf8_lossy(bytes).into_owned()
}

/// The report of a finished command: standard output, then standard error when
/// there is any, and the exit code (-1 when the process had none, as when
/// killed by a signal).
pub fn command_output(stdout: &[u8], stderr: &[u8], code: Option<i32>) -> (r: (String, i32))
    ensures
        r.0@ == lossy_text(stdout@) + lossy_text(stderr@),
        r.1 == match code {
            Some(c) => c,
            None => -1i32,
        },
{
    let mut combined = from_utf8_lossy(stdout);
    let err = from_utf8_lossy(stderr);
    if err.as_str().unicode_len() > 0 {
        combined.append(err.as_str());
    } else {
        assert(combined@ + err@ =~= combined@);
    }
    let c = match code {
        Some(c) => c,
        None => -1,
    };
    (combined, c)
}

/// The report when a command could not be started; `error` is the system's
/// error text.
pub fn spawn_failure(error: &str) -> (r: (String, i32))
    ensures
        r.0@ == "Failed to run command: "@ + error@,
        r.1 == -1,
{
    (concat2("Failed to run command: ", error), -1)
}

} // verus!
