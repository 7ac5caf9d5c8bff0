//! Shell integration scripts: which shells get one, the script itself, the
//! name of the file it is saved to, and the arguments that load it.
use vstd::prelude::*;

use crate::text::{push_char, push_str, str_equal};

verus! {

/// The PowerShell integration script: it wraps the prompt to send the OSC
/// 133 / 633 / 7 sequences.
pub const POWERSHELL_INTEGRATION: &'static str = r#"
# zTerm Shell Integration for PowerShell
function __zterm_osc { param([string]$code) Write-Host -NoNewline "`e]$code`a" }
function __zterm_urlencode { param([string]$text) [uri]::EscapeDataString($text) }

# Save original prompt if exists
if (Test-Path Function:\Prompt) { Copy-Item Function:\Prompt Function:\__zterm_original_prompt }

# Track command state
$global:__zterm_last_cmd = $null

function Prompt {
    $exit_code = if ($null -eq $LASTEXITCODE) { 0 } else { $LASTEXITCODE }

    # Send command finished if we had a command
    if ($global:__zterm_last_cmd) {
        # IMPORTANT: Send command text BEFORE finished, so handler can associate it with the zone
        __zterm_osc "633;E;$(__zterm_urlencode $global:__zterm_last_cmd)"
        __zterm_osc "133;D;$exit_code"
        $global:__zterm_last_cmd = $null
    }

    # Send working directory
    try {
        $loc = Get-Location
        if ($loc.Provider.Name -eq 'FileSystem') {
            $uri = [Uri]::new($loc.ProviderPath).AbsoluteUri
            __zterm_osc "7;$uri"
        }
    } catch {}

    # Send prompt start
    __zterm_osc "133;A"

    # Get original prompt
    $p = if (Test-Path Function:\__zterm_original_prompt) {
        & __zterm_original_prompt
    } else {
        "PS $($executionContext.SessionState.Path.CurrentLocation)$('>' * ($nestedPromptLevel + 1)) "
    }

    # Send command input start
    __zterm_osc "133;B"
    return $p
}

# Hook PSReadLine if available
try {
    if (Get-Module -ListAvailable -Name PSReadLine) {
        Import-Module PSReadLine -ErrorAction SilentlyContinue
        Set-PSReadLineKeyHandler -Chord Enter -ScriptBlock {
            $line = $null; $cursor = $null
            [Microsoft.PowerShell.PSConsoleReadLine]::GetBufferState([ref]$line, [ref]$cursor)
            if ($line) {
                $global:__zterm_last_cmd = $line
                __zterm_osc "133;C"
            }
            [Microsoft.PowerShell.PSConsoleReadLine]::AcceptLine()
        }
    }
} catch {}
"#;

/// Whether `c` separates path components (`/`, or `\` as on Windows).
pub open spec fn is_separator(c: char) -> bool {
    c == '/' || c == '\\'
}

/// `s` without trailing separators.
pub open spec fn without_trailing_separators(s: Seq<char>) -> Seq<char>
    decreases s.len(),
{
    if s.len() > 0 && is_separator(s.last()) {
        without_trailing_separators(s.drop_last())
    } else {
        s
    }
}

/// The part of `s` after its last separator (all of `s` without one).
pub open spec fn after_last_separator(s: Seq<char>) -> Seq<char>
    decreases s.len(),
{
    if s.len() == 0 {
        s
    } else if is_separator(s.last()) {
        Seq::empty()
    } else {
        after_last_separator(s.drop_last()).push(s.last())
    }
}

/// Stripping trailing separators never makes a path longer.
pub proof fn lemma_without_trailing_len(s: Seq<char>)
    ensures
        without_trailing_separators(s).len() <= s.len(),
        without_trailing_separators(s) == s.take(without_trailing_separators(s).len() as int),
    decreases s.len(),
{
    if s.len() > 0 && is_separator(s.last()) {
        lemma_without_trailing_len(s.drop_last());
        let t = without_trailing_separators(s.drop_last());
        assert(s.drop_last().take(t.len() as int) =~= s.take(t.len() as int));
    } else {
        assert(s.take(s.len() as int) =~= s);
    }
}

/// The part after the last separator is a suffix.
pub proof fn lemma_after_last_len(s: Seq<char>)
    ensures
        after_last_separator(s).len() <= s.len(),
        after_last_separator(s) == s.skip(s.len() - after_last_separator(s).len()),
    decreases s.len(),
{
    if s.len() == 0 {
        assert(s.skip(0) =~= s);
    } else if is_separator(s.last()) {
        assert(s.skip(s.len() as int) =~= Seq::<char>::empty());
    } else {
        lemma_after_last_len(s.drop_last());
        let c = after_last_separator(s.drop_last());
        assert(s.skip(s.len() - (c.len() + 1)) =~= s.drop_last().skip(s.drop_last().len() - c.len()).push(
            s.last(),
        ));
    }
}

/// The last component of a path as `Path::components` reads it: trailing
/// separators are ignored, and a `.` component is skipped unless it begins
/// the path.
pub open spec fn last_component(s: Seq<char>) -> Seq<char>
    decreases s.len(),
{
    let t = without_trailing_separators(s);
    let c = after_last_separator(t);
    let prefix = t.take(t.len() - c.len());
    if c == seq!['.'] && prefix.len() > 0 {
        proof {
            lemma_without_trailing_len(s);
            lemma_after_last_len(t);
        }
        last_component(prefix)
    } else {
        c
    }
}

/// The file name of a shell path (as `Path::file_name` gives it): its last
/// component (see `last_component`), or the whole path where there is no
/// file name: the component is empty, `.` or `..`.
pub open spec fn shell_file_name(shell: Seq<char>) -> Seq<char> {
    let c = last_component(shell);
    if c.len() == 0 || c == seq!['.'] || c == seq!['.', '.'] {
        shell
    } else {
        c
    }
}

/// `c` with ASCII capitals made small.
pub open spec fn ascii_lower_char(c: char) -> char {
    if 'A' <= c <= 'Z' {
        ((c as u32) + 32) as char
    } else {
        c
    }
}

/// `s` with ASCII capitals made small.
pub open spec fn ascii_lower(s: Seq<char>) -> Seq<char> {
    s.map_values(|c: char| ascii_lower_char(c))
}

/// Whether a (lower-case) shell name is one of PowerShell's.
pub open spec fn is_powershell_name(name: Seq<char>) -> bool {
    ||| name == seq!['p', 'w', 's', 'h']
    ||| name == seq!['p', 'w', 's', 'h', '.', 'e', 'x', 'e']
    ||| name == seq!['p', 'o', 'w', 'e', 'r', 's', 'h', 'e', 'l', 'l']
    ||| name == seq!['p', 'o', 'w', 'e', 'r', 's', 'h', 'e', 'l', 'l', '.', 'e', 'x', 'e']
}

/// Whether a shell (given by path or name) gets the integration script.
pub open spec fn is_supported_shell(shell: Seq<char>) -> bool {
    is_powershell_name(ascii_lower(shell_file_name(shell)))
}

/// The bounds of the last component of the first `end` characters of
/// `shell`: the trailing separators are dropped (up to `e`) and the
/// component runs from `s` to `e`.
fn component_bounds(shell: &str, end: usize) -> (r: (usize, usize))
    requires
        end <= shell@.len(),
    ensures
        r.0 <= r.1 <= end,
        shell@.take(r.1 as int) == without_trailing_separators(shell@.take(end as int)),
        shell@.subrange(r.0 as int, r.1 as int) == after_last_separator(shell@.take(r.1 as int)),
{
    let mut e: usize = end;
    while e > 0 && (shell.get_char(e - 1) == '/' || shell.get_char(e - 1) == '\\')
        invariant
            end <= shell@.len(),
            e <= end,
            without_trailing_separators(shell@.take(end as int)) == without_trailing_separators(shell@.take(e as int)),
        decreases e,
    {
        proof {
            assert(shell@.take(e as int).drop_last() =~= shell@.take(e - 1));
        }
        e = e - 1;
    }
    let ghost t = shell@.take(e as int);
    assert(without_trailing_separators(t) == t);
    let mut s0: usize = e;
    proof {
        assert(t.take(e as int) =~= t);
        assert(t.subrange(e as int, e as int) =~= Seq::<char>::empty());
    }
    while s0 > 0 && shell.get_char(s0 - 1) != '/' && shell.get_char(s0 - 1) != '\\'
        invariant
            end <= shell@.len(),
            s0 <= e <= end,
            t == shell@.take(e as int),
            after_last_separator(t) == after_last_separator(t.take(s0 as int)) + t.subrange(s0 as int, e as int),
        decreases s0,
    {
        proof {
            let p = t.take(s0 as int);
            assert(p.drop_last() =~= t.take(s0 - 1));
            assert(t.subrange(s0 - 1, e as int) =~= seq![p.last()] + t.subrange(s0 as int, e as int));
            assert(after_last_separator(p) == after_last_separator(t.take(s0 - 1)).push(p.last()));
            assert(after_last_separator(t.take(s0 - 1)).push(p.last()) + t.subrange(s0 as int, e as int)
                =~= after_last_separator(t.take(s0 - 1)) + t.subrange(s0 - 1, e as int));
        }
        s0 = s0 - 1;
    }
    proof {
        let p = t.take(s0 as int);
        if s0 > 0 {
            assert(is_separator(p.last()));
            assert(after_last_separator(p) =~= Seq::<char>::empty());
        } else {
            assert(p =~= Seq::<char>::empty());
        }
        assert(after_last_separator(t) =~= t.subrange(s0 as int, e as int));
        assert(shell@.subrange(s0 as int, e as int) =~= t.subrange(s0 as int, e as int));
    }
    (s0, e)
}

/// The file name of a shell path (see `shell_file_name`), lower-cased in
/// ASCII.
pub fn shell_name(shell: &str) -> (r: String)
    ensures
        r@ == ascii_lower(shell_file_name(shell@)),
{
    let n = shell.unicode_len();
    let mut end: usize = n;
    proof {
        assert(shell@.take(n as int) =~= shell@);
    }
    let mut start: usize;
    let mut stop: usize;
    loop
        invariant
            n == shell@.len(),
            end <= n,
            last_component(shell@.take(end as int)) == last_component(shell@),
        ensures
            start <= stop <= n,
            shell@.subrange(start as int, stop as int) == last_component(shell@),
        decreases end,
    {
        let (s0, e0) = component_bounds(shell, end);
        let ghost t = shell@.take(e0 as int);
        let ghost c = shell@.subrange(s0 as int, e0 as int);
        proof {
            assert(t.take(t.len() - c.len()) =~= shell@.take(s0 as int));
        }
        if e0 - s0 == 1 && shell.get_char(s0) == '.' && s0 > 0 {
            assert(c =~= seq!['.']);
            end = s0;
        } else {
            proof {
                if c == seq!['.'] {
                    assert(c[0] == '.');
                }
            }
            start = s0;
            stop = e0;
            break;
        }
    }
    let component = shell.substring_char(start, stop);
    assert(component@ =~= last_component(shell@));
    let dot = ".";
    let dotdot = "..";
    proof {
        reveal_strlit(".");
        reveal_strlit("..");
        assert(dot@ =~= seq!['.']);
        assert(dotdot@ =~= seq!['.', '.']);
    }
    let name = if component.unicode_len() == 0 || str_equal(component, dot) || str_equal(component, dotdot) {
        shell
    } else {
        component
    };
    assert(name@ == shell_file_name(shell@));
    let m = name.unicode_len();
    let mut out = String::new();
    let mut i: usize = 0;
    while i < m
        invariant
            m == name@.len(),
            i <= m,
            out@ == ascii_lower(name@.take(i as int)),
        decreases m - i,
    {
        let c = name.get_char(i);
        let lc = if 'A' <= c && c <= 'Z' {
            char_from_lower(c)
        } else {
            c
        };
        push_char(&mut out, lc);
        assert(ascii_lower(name@.take(i + 1)) =~= ascii_lower(name@.take(i as int)).push(lc));
        i = i + 1;
    }
    assert(name@.take(m as int) =~= name@);
    out
}

/// The small letter of an ASCII capital.
fn char_from_lower(c: char) -> (r: char)
    requires
        'A' <= c <= 'Z',
    ensures
        r == ascii_lower_char(c),
{
    let b = c as u8;
    assert(b == c as u32);
    (b + 32) as char
}

/// The integration script for a shell (by path or name): PowerShell's for
/// `pwsh` and `powershell` (with or without `.exe`, in any ASCII case).
pub fn get_integration_script(shell: &str) -> (r: Option<&'static str>)
    ensures
        r is Some <==> is_supported_shell(shell@),
        r matches Some(s) ==> s == POWERSHELL_INTEGRATION,
{
    if is_powershell(shell) {
        Some(POWERSHELL_INTEGRATION)
    } else {
        None
    }
}

/// Whether the file name of a shell path is one of PowerShell's.
fn is_powershell(shell: &str) -> (r: bool)
    ensures
        r == is_supported_shell(shell@),
{
    let name = shell_name(shell);
    let n = name.as_str();
    let a = "pwsh";
    let b = "pwsh.exe";
    let c = "powershell";
    let d = "powershell.exe";
    proof {
        reveal_strlit("pwsh");
        reveal_strlit("pwsh.exe");
        reveal_strlit("powershell");
        reveal_strlit("powershell.exe");
        assert(a@ =~= seq!['p', 'w', 's', 'h']);
        assert(b@ =~= seq!['p', 'w', 's', 'h', '.', 'e', 'x', 'e']);
        assert(c@ =~= seq!['p', 'o', 'w', 'e', 'r', 's', 'h', 'e', 'l', 'l']);
        assert(d@ =~= seq!['p', 'o', 'w', 'e', 'r', 's', 'h', 'e', 'l', 'l', '.', 'e', 'x', 'e']);
    }
    str_equal(n, a) || str_equal(n, b) || str_equal(n, c) || str_equal(n, d)
}

/// Whether a shell gets the integration script.
pub fn supports_integration(shell: &str) -> (r: bool)
    ensures
        r == is_supported_shell(shell@),
{
    get_integration_script(shell).is_some()
}

/// The name of the file the integration script of a supported shell is
/// saved to: the shell's lower-cased file name and `.ps1`.
pub fn integration_script_file_name(shell: &str) -> (r: Option<String>)
    ensures
        r is Some <==> is_supported_shell(shell@),
        r matches Some(f) ==> f@ == ascii_lower(shell_file_name(shell@)) + ".ps1"@,
{
    if !is_powershell(shell) {
        return None;
    }
    let mut f = shell_name(shell);
    push_str(&mut f, ".ps1");
    Some(f)
}

/// The PowerShell command that loads the script at `script_path`.
pub open spec fn load_command(script_path: Seq<char>) -> Seq<char> {
    "try { . '"@ + script_path + "' } catch {}"@
}

/// The arguments that start a supported shell with its integration script
/// (saved at `script_path`) loaded: `-NoLogo -NoExit -Command` and the
/// command that dot-sources the script; `None` for other shells.
pub fn get_shell_args_with_integration(shell: &str, script_path: &str) -> (r: Option<Vec<String>>)
    ensures
        r is Some <==> is_supported_shell(shell@),
        r matches Some(args) ==> args@.len() == 4 && args@[0]@ == "-NoLogo"@ && args@[1]@ == "-NoExit"@
            && args@[2]@ == "-Command"@ && args@[3]@ == load_command(script_path@),
{
    if !is_powershell(shell) {
        return None;
    }
    let mut cmd = String::new();
    push_str(&mut cmd, "try { . '");
    push_str(&mut cmd, script_path);
    push_str(&mut cmd, "' } catch {}");
    let mut args: Vec<String> = Vec::new();
    args.push("-NoLogo".to_owned());
    args.push("-NoExit".to_owned());
    args.push("-Command".to_owned());
    args.push(cmd);
    Some(args)
}

} // verus!
