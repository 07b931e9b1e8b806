//! The shells that command-line completions can be generated for, and how a shell is
//! recognized from its name or from the path of its executable.
use vstd::prelude::*;

use crate::text::{concat2, owned, str_eq};

verus! {

/// The supported shells for command-line completion.
#[non_exhaustive]
#[derive(Clone, Copy, Debug, Eq, Hash, PartialEq, Structural)]
pub enum Shell {
    /// Bourne Again `SHell` (bash)
    Bash,
    /// Elvish shell
    Elvish,
    /// Friendly Interactive `SHell` (fish)
    Fish,
    /// `PowerShell`
    PowerShell,
    /// Z `SHell` (zsh)
    Zsh,
    /// NuSHell
    Nushell,
}

/// The name a shell is shown and parsed by.
pub open spec fn shell_name(sh: Shell) -> Seq<char> {
    match sh {
        Shell::Bash => "bash"@,
        Shell::Elvish => "elvish"@,
        Shell::Fish => "fish"@,
        Shell::PowerShell => "powershell"@,
        Shell::Zsh => "zsh"@,
        Shell::Nushell => "nushell"@,
    }
}

/// The shell a name (or the alias `pwsh`) stands for; names are case-sensitive.
pub open spec fn shell_parse(s: Seq<char>) -> Option<Shell> {
    if s == "bash"@ {
        Some(Shell::Bash)
    } else if s == "elvish"@ {
        Some(Shell::Elvish)
    } else if s == "fish"@ {
        Some(Shell::Fish)
    } else if s == "powershell"@ || s == "pwsh"@ {
        Some(Shell::PowerShell)
    } else if s == "zsh"@ {
        Some(Shell::Zsh)
    } else if s == "nushell"@ {
        Some(Shell::Nushell)
    } else {
        None
    }
}

/// The shell an executable's file stem names.
pub open spec fn shell_of_stem(s: Seq<char>) -> Option<Shell> {
    if s == "bash"@ {
        Some(Shell::Bash)
    } else if s == "elvish"@ {
        Some(Shell::Elvish)
    } else if s == "fish"@ {
        Some(Shell::Fish)
    } else if s == "powershell"@ || s == "pwsh"@ || s == "powershell_ise"@ {
        Some(Shell::PowerShell)
    } else if s == "zsh"@ {
        Some(Shell::Zsh)
    } else if s == "nu"@ || s == "nushell"@ {
        Some(Shell::Nushell)
    } else {
        None
    }
}

/// The index of the last `c` in `s`, or -1.
pub open spec fn last_index_of(s: Seq<char>, c: char) -> int
    decreases s.len(),
{
    if s.len() == 0 {
        -1
    } else if s.last() == c {
        s.len() - 1
    } else {
        last_index_of(s.drop_last(), c)
    }
}

/// The last normal component of a `/`-separated path: empty and `.` components are
/// skipped, and there is none when the path ends in `..` or has no other component.
pub open spec fn file_name_of(s: Seq<char>) -> Option<Seq<char>>
    decreases s.len(),
{
    let i = last_index_of(s, '/');
    let piece = s.subrange(i + 1, s.len() as int);
    if piece.len() == 0 || piece == "."@ {
        if i < 0 {
            None
        } else {
            proof {
                lemma_last_index_bounds(s, '/');
            }
            file_name_of(s.subrange(0, i))
        }
    } else if piece == ".."@ {
        None
    } else {
        Some(piece)
    }
}

/// A file name without its extension: the part before the last `.`, unless the name
/// has no `.` other than a leading one (or is `..`).
pub open spec fn stem_of(name: Seq<char>) -> Seq<char> {
    let i = last_index_of(name, '.');
    if name == ".."@ || i <= 0 {
        name
    } else {
        name.subrange(0, i)
    }
}

/// The shell the file stem of `path` names.
pub open spec fn shell_of_path(path: Seq<char>) -> Option<Shell> {
    match file_name_of(path) {
        Some(name) => shell_of_stem(stem_of(name)),
        None => None,
    }
}

/// The last index of `c` is in range, holds `c`, and no later position does.
pub proof fn lemma_last_index_bounds(s: Seq<char>, c: char)
    ensures
        -1 <= last_index_of(s, c) < s.len(),
        last_index_of(s, c) >= 0 ==> s[last_index_of(s, c)] == c,
        forall|k: int| last_index_of(s, c) < k < s.len() ==> s[k] != c,
    decreases s.len(),
{
    if s.len() > 0 && s.last() != c {
        lemma_last_index_bounds(s.drop_last(), c);
        assert forall|k: int| last_index_of(s, c) < k < s.len() implies s[k] != c by {
            if k < s.len() - 1 {
                assert(s[k] == s.drop_last()[k]);
            }
        }
    }
}

/// The position of the last `c` in `s`, if any.
fn last_index(s: &str, c: char) -> (r: Option<usize>)
    ensures
        match r {
            Some(i) => i == last_index_of(s@, c),
            None => last_index_of(s@, c) == -1,
        },
{
    let n = s.unicode_len();
    let mut j: usize = n;
    assert(s@.subrange(0, n as int) =~= s@);
    while j > 0
        invariant
            n == s@.len(),
            j <= n,
            last_index_of(s@, c) == last_index_of(s@.subrange(0, j as int), c),
        decreases j,
    {
        proof {
            let sub = s@.subrange(0, j as int);
            assert(sub.drop_last() =~= s@.subrange(0, j - 1));
        }
        if s.get_char(j - 1) == c {
            return Some(j - 1);
        }
        j = j - 1;
    }
    None
}

/// The last normal component of the `/`-separated `path`.
fn file_name(path: &str) -> (r: Option<&str>)
    ensures
        match r {
            Some(t) => file_name_of(path@) == Some(t@),
            None => file_name_of(path@) is None,
        },
{
    let mut cur: &str = path;
    loop
        invariant
            file_name_of(path@) == file_name_of(cur@),
        decreases cur@.len(),
    {
        let n = cur.unicode_len();
        let found = last_index(cur, '/');
        proof {
            lemma_last_index_bounds(cur@, '/');
        }
        let start: usize = match found {
            Some(i) => i + 1,
            None => 0,
        };
        let piece = cur.substring_char(start, n);
        if piece.unicode_len() == 0 || str_eq(piece, ".") {
            match found {
                Some(i) => {
                    cur = cur.substring_char(0, i);
                },
                None => {
                    return None;
                },
            }
        } else if str_eq(piece, "..") {
            return None;
        } else {
            return Some(piece);
        }
    }
}

/// The file stem of a file name.
fn stem(name: &str) -> (r: &str)
    ensures
        r@ == stem_of(name@),
{
    let dot = last_index(name, '.');
    proof {
        lemma_last_index_bounds(name@, '.');
    }
    if str_eq(name, "..") {
        return name;
    }
    match dot {
        Some(i) => {
            if i == 0 {
                name
            } else {
                name.substring_char(0, i)
            }
        },
        None => name,
    }
}

impl Shell {
    /// Every supported shell, in order.
    pub fn value_variants() -> (r: Vec<Shell>)
        ensures
            r@ == seq![
                Shell::Bash,
                Shell::Elvish,
                Shell::Fish,
                Shell::PowerShell,
                Shell::Zsh,
                Shell::Nushell,
            ],
    {
        let r = vec![
            Shell::Bash,
            Shell::Elvish,
            Shell::Fish,
            Shell::PowerShell,
            Shell::Zsh,
            Shell::Nushell,
        ];
        assert(r@ =~= seq![
            Shell::Bash,
            Shell::Elvish,
            Shell::Fish,
            Shell::PowerShell,
            Shell::Zsh,
            Shell::Nushell,
        ]);
        r
    }

    /// The shell's name.
    pub fn display_text(&self) -> (r: String)
        ensures
            r@ == shell_name(*self),
    {
        match self {
            Shell::Bash => owned("bash"),
            Shell::Elvish => owned("elvish"),
            Shell::Fish => owned("fish"),
            Shell::PowerShell => owned("powershell"),
            Shell::Zsh => owned("zsh"),
            Shell::Nushell => owned("nushell"),
        }
    }

    /// The shell named `s` (or `pwsh`); otherwise the error `invalid variant: {s}`.
    pub fn parse_name(s: &str) -> (r: Result<Shell, String>)
        ensures
            match r {
                Ok(sh) => shell_parse(s@) == Some(sh),
                Err(e) => shell_parse(s@) is None && e@ == "invalid variant: "@ + s@,
            },
    {
        if str_eq(s, "bash") {
            Ok(Shell::Bash)
        } else if str_eq(s, "elvish") {
            Ok(Shell::Elvish)
        } else if str_eq(s, "fish") {
            Ok(Shell::Fish)
        } else if str_eq(s, "powershell") || str_eq(s, "pwsh") {
            Ok(Shell::PowerShell)
        } else if str_eq(s, "zsh") {
            Ok(Shell::Zsh)
        } else if str_eq(s, "nushell") {
            Ok(Shell::Nushell)
        } else {
            Err(concat2("invalid variant: ", s))
        }
    }

    /// The shell whose executable `path` names, by the file stem of its last component.
    pub fn from_path(path: &str) -> (r: Option<Shell>)
        ensures
            r == shell_of_path(path@),
    {
        Self::parse_shell_from_path(path)
    }

    fn parse_shell_from_path(path: &str) -> (r: Option<Shell>)
        ensures
            r == shell_of_path(path@),
    {
        let name = match file_name(path) {
            Some(n) => n,
            None => {
                return None;
            },
        };
        let s = stem(name);
        if str_eq(s, "bash") {
            Some(Shell::Bash)
        } else if str_eq(s, "elvish") {
            Some(Shell::Elvish)
        } else if str_eq(s, "fish") {
            Some(Shell::Fish)
        } else if str_eq(s, "powershell") || str_eq(s, "pwsh") || str_eq(s, "powershell_ise") {
            Some(Shell::PowerShell)
        } else if str_eq(s, "zsh") {
            Some(Shell::Zsh)
        } else if str_eq(s, "nu") || str_eq(s, "nushell") {
            Some(Shell::Nushell)
        } else {
            None
        }
    }
}

impl std::str::FromStr for Shell {
    type Err = String;

    fn from_str(s: &str) -> (r: Result<Self, Self::Err>)
        ensures
            match r {
                Ok(sh) => shell_parse(s@) == Some(sh),
                Err(e) => shell_parse(s@) is None && e@ == "invalid variant: "@ + s@,
            },
    {
        Shell::parse_name(s)
    }
}

/// A shell's name parses back to the shell.
pub proof fn lemma_shell_name_round_trip(sh: Shell)
    ensures
        shell_parse(shell_name(sh)) == Some(sh),
{
    reveal_strlit("bash");
    reveal_strlit("elvish");
    reveal_strlit("fish");
    reveal_strlit("powershell");
    reveal_strlit("pwsh");
    reveal_strlit("zsh");
    reveal_strlit("nushell");
    assert("bash"@[0] == 'b');
    assert("fish"@[0] == 'f');
    assert("pwsh"@[0] == 'p');
    assert("bash"@.len() == 4 && "fish"@.len() == 4 && "pwsh"@.len() == 4);
    assert("zsh"@.len() == 3 && "elvish"@.len() == 6 && "nushell"@.len() == 7);
    assert("powershell"@.len() == 10);
}

} // verus!
