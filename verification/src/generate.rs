//! Generating a new `submod.toml`: whether an existing file may be replaced, which kind
//! of configuration is written, the check that it loads, and the lines reported.
use vstd::prelude::*;

use crate::config::Config;
use crate::declarations::{parse_error, src_bytes};
use crate::errors::SubmoduleError;
use crate::text::concat2;

verus! {

/// The kind of configuration generated.
#[derive(Debug, Clone, Copy, PartialEq, Eq, Structural)]
pub enum Generated {
    /// The commented sample configuration.
    Template,
    /// The submodules declared in `.gitmodules` of the current repository.
    FromSetup,
    /// Only an empty `[defaults]` table.
    Empty,
}

/// Which kind is generated: the template when asked for, else the repository's
/// submodules when asked for, else an empty configuration.
pub fn generated_kind(from_setup: bool, template: bool) -> (r: Generated)
    ensures
        r == if template {
            Generated::Template
        } else if from_setup {
            Generated::FromSetup
        } else {
            Generated::Empty
        },
{
    if template {
        Generated::Template
    } else if from_setup {
        Generated::FromSetup
    } else {
        Generated::Empty
    }
}

/// An existing output file is only replaced with `--force` (`shown`: the path as
/// displayed).
pub fn check_overwrite(present: bool, force: bool, shown: &str) -> (r: Result<(), SubmoduleError>)
    ensures
        (r is Ok) == (!present || force),
        r matches Err(e) ==> e matches SubmoduleError::ConfigError(m) && m@ == "Output file '"@ + shown@
            + "' already exists. Use --force to overwrite."@,
{
    if present && !force {
        let mut m = concat2("Output file '", shown);
        m.append("' already exists. Use --force to overwrite.");
        Err(SubmoduleError::ConfigError(m))
    } else {
        Ok(())
    }
}

/// The words naming a kind in the reported lines.
pub open spec fn kind_words(kind: Generated) -> Seq<char> {
    match kind {
        Generated::Template => "template config"@,
        Generated::FromSetup => "config from .gitmodules"@,
        Generated::Empty => "empty config"@,
    }
}

/// The line reported once the configuration is generated (or, on a dry run, would be).
pub fn generated_line(kind: Generated, dry_run: bool, shown: &str) -> (r: String)
    ensures
        r@ == (if dry_run {
            "Would generate "@
        } else {
            "Generated "@
        }) + kind_words(kind) + " at '"@ + shown@ + "'."@,
{
    let mut line = if dry_run {
        crate::text::owned("Would generate ")
    } else {
        crate::text::owned("Generated ")
    };
    match kind {
        Generated::Template => line.append("template config"),
        Generated::FromSetup => line.append("config from .gitmodules"),
        Generated::Empty => line.append("empty config"),
    }
    line.append(" at '");
    line.append(shown);
    line.append("'.");
    line
}

/// The error of a generated text that does not load.
pub open spec fn invalid_words(kind: Generated) -> Seq<char> {
    match kind {
        Generated::Template => "Bundled template is invalid: "@,
        _ => "Generated empty config is invalid: "@,
    }
}

/// A template or empty configuration is written only when it loads (see
/// [`Config::parse`]).
pub fn check_generated(kind: Generated, text: &str) -> (r: Result<(), SubmoduleError>)
    requires
        src_bytes(text@).len() < usize::MAX,
    ensures
        match parse_error(text@) {
            None => r is Ok,
            Some(e) => r matches Err(SubmoduleError::ConfigError(m)) && m@ == invalid_words(kind) + e,
        },
{
    let (loaded, _warnings) = Config::parse(text);
    match loaded {
        Ok(_) => Ok(()),
        Err(e) => {
            let words = match kind {
                Generated::Template => "Bundled template is invalid: ",
                _ => "Generated empty config is invalid: ",
            };
            Err(SubmoduleError::ConfigError(concat2(words, e.as_str())))
        },
    }
}

} // verus!
