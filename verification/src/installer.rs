//! The commands the installer hands to Windows: the PowerShell script that
//! creates the Start Menu shortcut, the startup registry value, and the
//! command that deletes the installer once it has finished.
use vstd::prelude::*;

use crate::text::chars_of;

verus! {

/// The registry key whose values Windows starts at sign-in.
pub const STARTUP_RUN_KEY: &'static str = "HKCU\\Software\\Microsoft\\Windows\\CurrentVersion\\Run";

/// The name of the app's value under `STARTUP_RUN_KEY`.
pub const STARTUP_VALUE_NAME: &'static str = "TrackMLN";

/// The full path of the app's startup registry value.
pub const STARTUP_KEY: &'static str = "HKCU\\Software\\Microsoft\\Windows\\CurrentVersion\\Run\\TrackMLN";

/// `s` with every `q` doubled.
pub open spec fn doubled(s: Seq<char>, q: char) -> Seq<char>
    decreases s.len(),
{
    if s.len() == 0 {
        Seq::<char>::empty()
    } else {
        doubled(s.drop_last(), q) + if s.last() == q {
            seq![q, q]
        } else {
            seq![s.last()]
        }
    }
}

fn double_char(s: &str, q: char) -> (r: String)
    ensures
        r@ == doubled(s@, q),
{
    let v = chars_of(s);
    let mut out = String::new();
    let mut k: usize = 0;
    while k < v.len()
        invariant
            k <= v@.len(),
            v@ == s@,
            out@ == doubled(v@.take(k as int), q),
        decreases v@.len() - k,
    {
        let c = v[k];
        assert(v@.take(k + 1).drop_last() =~= v@.take(k as int));
        let ghost before = out@;
        crate::unicode::string_push(&mut out, c);
        if c == q {
            crate::unicode::string_push(&mut out, q);
            assert(out@ =~= before + seq![q, q]);
        } else {
            assert(out@ =~= before + seq![c]);
        }
        k += 1;
    }
    assert(v@.take(v@.len() as int) =~= v@);
    out
}

/// `value` made safe inside a single-quoted PowerShell string: every `'` is
/// doubled.
pub fn escape_powershell_single_quoted(value: &str) -> (r: String)
    ensures
        r@ == doubled(value@, '\''),
{
    double_char(value, '\'')
}

/// The PowerShell script that creates the shortcut `shortcut` to `target`,
/// started in `working` and showing `target`'s first icon.
pub open spec fn shortcut_script_spec(shortcut: Seq<char>, target: Seq<char>, working: Seq<char>) -> Seq<char> {
    "$shell = New-Object -ComObject WScript.Shell; $shortcut = $shell.CreateShortcut('"@ + doubled(
        shortcut,
        '\'',
    ) + "'); $shortcut.TargetPath = '"@ + doubled(target, '\'') + "'; $shortcut.WorkingDirectory = '"@
        + doubled(working, '\'') + "'; $shortcut.IconLocation = '"@ + doubled(target, '\'')
        + ",0'; $shortcut.Save()"@
}

/// The PowerShell script that creates the Start Menu shortcut.
pub fn shortcut_script(shortcut: &str, target: &str, working: &str) -> (r: String)
    ensures
        r@ == shortcut_script_spec(shortcut@, target@, working@),
{
    let mut r = String::from_str("$shell = New-Object -ComObject WScript.Shell; $shortcut = $shell.CreateShortcut('");
    r.append(escape_powershell_single_quoted(shortcut).as_str());
    r.append("'); $shortcut.TargetPath = '");
    let target_quoted = escape_powershell_single_quoted(target);
    r.append(target_quoted.as_str());
    r.append("'; $shortcut.WorkingDirectory = '");
    r.append(escape_powershell_single_quoted(working).as_str());
    r.append("'; $shortcut.IconLocation = '");
    r.append(target_quoted.as_str());
    r.append(",0'; $shortcut.Save()");
    r
}

/// The startup registry value: the installed executable's path in double
/// quotes.
pub fn startup_registry_value(installed_exe: &str) -> (r: String)
    ensures
        r@ == "\""@ + installed_exe@ + "\""@,
{
    let mut r = String::from_str("\"");
    r.append(installed_exe);
    r.append("\"");
    r
}

/// The command that deletes the installer `installer_exe` a few seconds after
/// it exits; double quotes in the path are doubled.
pub fn self_delete_command(installer_exe: &str) -> (r: String)
    ensures
        r@ == "ping 127.0.0.1 -n 3 > nul && del /f /q \""@ + doubled(installer_exe@, '"') + "\""@,
{
    let mut r = String::from_str("ping 127.0.0.1 -n 3 > nul && del /f /q \"");
    r.append(double_char(installer_exe, '"').as_str());
    r.append("\"");
    r
}

} // verus!
