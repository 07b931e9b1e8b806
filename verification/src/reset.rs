//! What resetting submodules to their parent pins reports: the preview, the progress and
//! stash lines, the report and error of a reset that stopped, and the summary.
use vstd::prelude::*;

use crate::config::texts;
use crate::errors::SubmoduleError;
use crate::plan::{decimal, join, join_texts, push_decimal};
use crate::text::{concat2, owned};

verus! {

/// Append `b` to `a`.
fn append_text(a: &mut String, b: &str)
    ensures
        final(a)@ == old(a)@ + b@,
{
    a.append(b);
}

/// The error when the index records no commit for `path`.
pub fn no_pin_error(path: &str) -> (r: SubmoduleError)
    ensures
        r matches SubmoduleError::CliError(m) && m@ == "No parent pin recorded for "@ + path@,
{
    SubmoduleError::CliError(concat2("No parent pin recorded for ", path))
}

/// The preview of resetting `name` at `path` to the commit `target`.
pub fn reset_preview_line(name: &str, path: &str, target: &str) -> (r: String)
    ensures
        r@ == "Would preserve local work and reset submodule '"@ + name@ + "' at '"@ + path@
            + "' to parent pin "@ + target@ + "."@,
{
    let mut line = concat2("Would preserve local work and reset submodule '", name);
    append_text(&mut line, "' at '");
    append_text(&mut line, path);
    append_text(&mut line, "' to parent pin ");
    append_text(&mut line, target);
    append_text(&mut line, ".");
    line
}

/// The line shown as `name` is reset to `target`.
pub fn reset_progress_line(name: &str, target: &str) -> (r: String)
    ensures
        r@ == "Resetting "@ + name@ + " to parent pin "@ + target@ + "..."@,
{
    let mut line = concat2("Resetting ", name);
    append_text(&mut line, " to parent pin ");
    append_text(&mut line, target);
    append_text(&mut line, "...");
    line
}

/// The line shown once local work is kept in the stash `oid`.
pub fn stash_line(oid: &str) -> (r: String)
    ensures
        r@ == "  Preserved local work in stash "@ + oid@,
{
    concat2("  Preserved local work in stash ", oid)
}

/// The line shown when there was no local work to keep.
pub fn no_stash_line() -> (r: String)
    ensures
        r@ == "  No local work needed a stash"@,
{
    owned("  No local work needed a stash")
}

/// The command that recovers kept work, run inside the checkout `dir`; `failed`: shown
/// in the report of a reset that failed.
pub fn recovery_line(dir: &str, command: &str, failed: bool) -> (r: String)
    ensures
        r@ == (if failed {
            "  preserved work (run inside "@
        } else {
            "  Recovery (run inside "@
        }) + dir@ + "): "@ + command@,
{
    let mut line = if failed {
        owned("  preserved work (run inside ")
    } else {
        owned("  Recovery (run inside ")
    };
    append_text(&mut line, dir);
    append_text(&mut line, "): ");
    append_text(&mut line, command);
    line
}

/// The line shown once `name` is reset to `target`.
pub fn reset_done_line(name: &str, target: &str) -> (r: String)
    ensures
        r@ == name@ + " reset to "@ + target@,
{
    let mut line = owned(name);
    append_text(&mut line, " reset to ");
    append_text(&mut line, target);
    line
}

/// Where a reset stopped: keeping local work failed (the reset was not tried), or the
/// reset itself failed.
#[derive(Debug, Clone, Copy, PartialEq, Eq, Structural)]
pub enum ResetStop {
    Preservation,
    Runtime,
}

/// The report of a reset that stopped at `failed` with `error`.
pub open spec fn reset_failure_texts(
    stop: ResetStop,
    completed: Seq<Seq<char>>,
    failed: Seq<char>,
    error: Seq<char>,
    pending: Seq<Seq<char>>,
) -> Seq<Seq<char>> {
    seq![
        match stop {
            ResetStop::Preservation => "Reset stopped after preservation failed."@,
            ResetStop::Runtime => "Reset stopped after a runtime failure."@,
        },
        "  completed: "@ + join(completed, ", "@),
        "  failed: "@ + failed + ": "@ + error,
        "  pending: "@ + join(pending, ", "@),
    ]
}

/// The report of a reset that stopped at `failed` with `error` (see
/// [`reset_failure_texts`]).
pub fn reset_failure_report(
    stop: ResetStop,
    completed: &Vec<String>,
    failed: &str,
    error: &str,
    pending: &Vec<String>,
) -> (r: Vec<String>)
    ensures
        texts(r@) == reset_failure_texts(stop, texts(completed@), failed@, error@, texts(pending@)),
{
    let mut lines: Vec<String> = Vec::new();
    lines.push(
        match stop {
            ResetStop::Preservation => owned("Reset stopped after preservation failed."),
            ResetStop::Runtime => owned("Reset stopped after a runtime failure."),
        },
    );
    let mut c = owned("  completed: ");
    let cj = join_texts(completed, ", ");
    append_text(&mut c, cj.as_str());
    lines.push(c);
    let mut f = owned("  failed: ");
    append_text(&mut f, failed);
    append_text(&mut f, ": ");
    append_text(&mut f, error);
    lines.push(f);
    let mut p = owned("  pending: ");
    let pj = join_texts(pending, ", ");
    append_text(&mut p, pj.as_str());
    lines.push(p);
    proof {
        assert(texts(lines@) =~= reset_failure_texts(stop, texts(completed@), failed@, error@, texts(pending@)));
    }
    lines
}

/// The error a reset that stopped at `name` with `error` returns.
pub fn reset_error(stop: ResetStop, name: &str, error: &str) -> (r: SubmoduleError)
    ensures
        r matches SubmoduleError::CliError(m) && m@ == match stop {
            ResetStop::Preservation => "Could not preserve work for "@ + name@
                + "; reset was not attempted: "@ + error@,
            ResetStop::Runtime => "Reset failed for "@ + name@ + ": "@ + error@,
        },
{
    let mut m = match stop {
        ResetStop::Preservation => concat2("Could not preserve work for ", name),
        ResetStop::Runtime => concat2("Reset failed for ", name),
    };
    match stop {
        ResetStop::Preservation => append_text(&mut m, "; reset was not attempted: "),
        ResetStop::Runtime => append_text(&mut m, ": "),
    }
    append_text(&mut m, error);
    SubmoduleError::CliError(m)
}

/// The summary of resetting `count` submodules, every one of them changed.
pub fn reset_summary_line(count: usize) -> (r: String)
    ensures
        r@ == "Reset summary: "@ + decimal(count as nat) + " changed, 0 unchanged, 0 skipped, 0 failed."@,
{
    let mut line = owned("Reset summary: ");
    push_decimal(&mut line, count);
    append_text(&mut line, " changed, 0 unchanged, 0 skipped, 0 failed.");
    line
}

} // verus!
