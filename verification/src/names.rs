//! Names, paths and patterns as the command line gives them, and text made safe to show:
//! the name a new submodule is declared under, its checkout path in normal form, its
//! sparse patterns, and control characters escaped before anything is printed.
use vstd::prelude::*;

use crate::config::{texts, url_name, OtherSubmoduleSettings};
use crate::paths::{normalize_submodule_path, normalized_path, path_problem, path_problem_text};
use crate::text::{owned, push_char, trim, trim_seq};
use crate::urls::{forward_slashes, to_forward_slashes};

verus! {

/// A control character (general category Cc: U+0000 to U+001F and U+007F to U+009F), as
/// `char::is_control` documents it.
pub open spec fn is_control(c: char) -> bool {
    (c as int) <= 0x1f || (0x7f <= (c as int) && (c as int) <= 0x9f)
}

/// The lower-case hexadecimal digit of `d` (below 16).
pub open spec fn hex_digit(d: int) -> char {
    if d < 10 {
        ((48 + d) as u8) as char
    } else {
        ((87 + d) as u8) as char
    }
}

/// The lower-case hexadecimal digits of `n`, without leading zeros.
pub open spec fn hex_digits(n: nat) -> Seq<char>
    decreases n,
{
    if n < 16 {
        seq![hex_digit(n as int)]
    } else {
        hex_digits(n / 16) + seq![hex_digit((n % 16) as int)]
    }
}

/// A control character as `char::escape_default` writes it: `\t`, `\r`, or `\u{..}` with
/// its code in hexadecimal.
pub open spec fn escaped_control(c: char) -> Seq<char> {
    if c == '\t' {
        seq!['\\', 't']
    } else if c == '\r' {
        seq!['\\', 'r']
    } else {
        seq!['\\', 'u', '{'] + hex_digits(c as nat) + seq!['}']
    }
}

/// How one character is shown: a control character other than a line break escaped,
/// anything else as it is.
pub open spec fn shown_char(c: char) -> Seq<char> {
    if is_control(c) && c != '\n' {
        escaped_control(c)
    } else {
        seq![c]
    }
}

/// The text with every control character but the line break escaped.
pub open spec fn safe_text(s: Seq<char>) -> Seq<char>
    decreases s.len(),
{
    if s.len() == 0 {
        Seq::empty()
    } else {
        safe_text(s.drop_last()) + shown_char(s.last())
    }
}

/// The hexadecimal digit of `d`.
fn hex_digit_char(d: u32) -> (r: char)
    requires
        d < 16,
    ensures
        r == hex_digit(d as int),
{
    if d < 10 {
        ((48 + d) as u8) as char
    } else {
        ((87 + d) as u8) as char
    }
}

/// Append the hexadecimal digits of `n`.
fn push_hex(out: &mut String, n: u32)
    ensures
        final(out)@ == old(out)@ + hex_digits(n as nat),
    decreases n,
{
    if n >= 16 {
        push_hex(out, n / 16);
    }
    push_char(out, hex_digit_char(n % 16));
    proof {
        if n < 16 {
            assert(n % 16 == n);
        }
    }
}

/// The text with every control character escaped (a line break stays), so that names,
/// paths and messages taken from repositories cannot move the cursor or forge lines
/// when they are printed.
pub fn safe_human_text(text: &str) -> (r: String)
    ensures
        r@ == safe_text(text@),
{
    let n = text.unicode_len();
    let mut out = String::new();
    let mut i: usize = 0;
    while i < n
        invariant
            n == text@.len(),
            i <= n,
            out@ == safe_text(text@.subrange(0, i as int)),
        decreases n - i,
    {
        let c = text.get_char(i);
        let code = c as u32;
        proof {
            assert(text@.subrange(0, i + 1).drop_last() =~= text@.subrange(0, i as int));
        }
        if (code <= 0x1f || (0x7f <= code && code <= 0x9f)) && c != '\n' {
            if c == '\t' {
                out.append("\\t");
            } else if c == '\r' {
                out.append("\\r");
            } else {
                out.append("\\u{");
                push_hex(&mut out, code);
                push_char(&mut out, '}');
            }
            proof {
                reveal_strlit("\\t");
                reveal_strlit("\\r");
                reveal_strlit("\\u{");
            }
        } else {
            push_char(&mut out, c);
        }
        i = i + 1;
    }
    proof {
        assert(text@.subrange(0, n as int) =~= text@);
    }
    out
}

/// The name a new submodule is declared under: the one given (trimmed), else its path
/// (with `/` separators), else the name its (trimmed) URL suggests.
pub open spec fn chosen_name(name: Option<Seq<char>>, url: Seq<char>, path: Option<Seq<char>>) -> Seq<char> {
    match (name, path) {
        (Some(n), _) => trim_seq(n),
        (None, Some(p)) => forward_slashes(p),
        (None, None) => url_name(trim_seq(url)),
    }
}

/// The name a new submodule is declared under (see [`chosen_name`]); refused when it is
/// empty.
pub fn submodule_name(name: Option<String>, url: &str, path: Option<String>) -> (r: Result<String, String>)
    ensures
        ({
            let chosen = chosen_name(
                crate::config::opt_text(name),
                url@,
                crate::config::opt_text(path),
            );
            match r {
                Ok(n) => chosen.len() > 0 && n@ == chosen,
                Err(m) => chosen.len() == 0 && m@ == "the name cannot be empty"@,
            }
        }),
{
    let chosen = match (name, path) {
        (Some(n), _) => owned(trim(n.as_str())),
        (None, Some(p)) => to_forward_slashes(p.as_str()),
        (None, None) => OtherSubmoduleSettings::name_from_url(trim(url)),
    };
    if chosen.unicode_len() == 0 {
        Err(owned("the name cannot be empty"))
    } else {
        Ok(chosen)
    }
}

/// The sparse patterns given on the command line, each trimmed; refused when one is
/// blank.
#[verifier::loop_isolation(false)]
pub fn sparse_paths(paths: Option<Vec<String>>) -> (r: Result<Option<Vec<String>>, String>)
    ensures
        match paths {
            None => r matches Ok(None),
            Some(v) => if exists|i: int| 0 <= i < v@.len() && #[trigger] trim_seq(v@[i]@).len() == 0 {
                r matches Err(m) && m@ == "a sparse path cannot be blank"@
            } else {
                r matches Ok(Some(w)) && texts(w@) == texts(v@).map_values(|p: Seq<char>| trim_seq(p))
            },
        },
{
    let paths = match paths {
        None => {
            return Ok(None);
        },
        Some(v) => v,
    };
    let mut out: Vec<String> = Vec::new();
    let mut i: usize = 0;
    while i < paths.len()
        invariant
            i <= paths@.len(),
            out@.len() == i,
            forall|j: int| 0 <= j < i ==> trim_seq(paths@[j]@).len() > 0,
            forall|j: int| 0 <= j < i ==> #[trigger] out@[j]@ == trim_seq(paths@[j]@),
        decreases paths@.len() - i,
    {
        let trimmed = trim(paths[i].as_str());
        if trimmed.unicode_len() == 0 {
            return Err(owned("a sparse path cannot be blank"));
        }
        out.push(owned(trimmed));
        i = i + 1;
    }
    assert(texts(out@) =~= texts(paths@).map_values(|p: Seq<char>| trim_seq(p)));
    Ok(Some(out))
}

/// A checkout path given on the command line in its normal form (see
/// [`normalize_submodule_path`]), `\` read as `/`; the error says why it is refused.
pub fn normalize_path(path: &str) -> (r: Result<String, String>)
    ensures
        ({
            let p = forward_slashes(path@);
            match r {
                Ok(t) => path_problem(p) is None && t@ == normalized_path(p),
                Err(m) => path_problem(p) matches Some(q) && m@ == path_problem_text(q),
            }
        }),
{
    let forward = to_forward_slashes(path);
    match normalize_submodule_path(forward.as_str()) {
        Ok(t) => Ok(t),
        Err(problem) => Err(problem.message()),
    }
}

} // verus!
