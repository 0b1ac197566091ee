//! Decisions of the Windows autostart entry. Portable builds use a shortcut in the Startup
//! folder, packaged ones the startup task of their manifest.
use crate::platform::PKG_NAME;
use crate::text;
use vstd::prelude::*;
use vstd::string::StringExecFns;

verus! {

/// Name of the startup task in the package manifest.
pub const STARTUP_TASK_ID: &'static str = "SdscUtilsStartup";

/// States of a startup task, as the system numbers them.
pub const TASK_DISABLED: i32 = 0;

pub const TASK_DISABLED_BY_USER: i32 = 1;

pub const TASK_ENABLED: i32 = 2;

pub const TASK_DISABLED_BY_POLICY: i32 = 3;

pub const TASK_ENABLED_BY_POLICY: i32 = 4;

/// Whether a startup task runs at login.
pub open spec fn task_runs(state: i32) -> bool {
    state == TASK_ENABLED || state == TASK_ENABLED_BY_POLICY
}

/// Whether autostart is on: for a packaged app its task decides (one whose state cannot be
/// read counts as off), else whether the shortcut exists.
pub fn is_enabled(packaged: bool, task_state: Option<i32>, shortcut_exists: bool) -> (r: bool)
    ensures
        r == (if packaged {
            task_state matches Some(s) && task_runs(s)
        } else {
            shortcut_exists
        }),
{
    if packaged {
        match task_state {
            Some(s) => s == TASK_ENABLED || s == TASK_ENABLED_BY_POLICY,
            None => false,
        }
    } else {
        shortcut_exists
    }
}

/// Outcome of asking to enable the startup task, by the state it is in afterwards.
pub fn enable_outcome(state: i32) -> (r: Result<(), String>)
    ensures
        match r {
            Ok(()) => task_runs(state),
            Err(e) => !task_runs(state) && e@ == (if state == TASK_DISABLED_BY_USER {
                "startup was disabled in Task Manager; re-enable it there first"@
            } else if state == TASK_DISABLED_BY_POLICY {
                "startup is disabled by system policy"@
            } else {
                "could not enable startup (state=StartupTaskState("@ + text::signed_dec(
                    state as int,
                ) + "))"@
            }),
        },
{
    if state == TASK_ENABLED || state == TASK_ENABLED_BY_POLICY {
        return Ok(());
    }
    if state == TASK_DISABLED_BY_USER {
        return Err(text::own("startup was disabled in Task Manager; re-enable it there first"));
    }
    if state == TASK_DISABLED_BY_POLICY {
        return Err(text::own("startup is disabled by system policy"));
    }
    let mut m = text::own("could not enable startup (state=StartupTaskState(");
    text::push_signed(&mut m, state);
    m.append("))");
    Err(m)
}

/// Whether a leftover Startup `.cmd` is to be replaced by a silent shortcut.
pub fn should_migrate(packaged: bool, cmd_exists: bool) -> (r: bool)
    ensures
        r == (!packaged && cmd_exists),
{
    !packaged && cmd_exists
}

/// A text with each single quote doubled.
pub open spec fn doubled_quotes(s: Seq<char>) -> Seq<char>
    decreases s.len(),
{
    if s.len() == 0 {
        seq![]
    } else if s.last() == '\'' {
        doubled_quotes(s.drop_last()) + seq!['\'', '\'']
    } else {
        doubled_quotes(s.drop_last()).push(s.last())
    }
}

/// A text for the inside of a single-quoted PowerShell string.
pub fn ps_single_quoted(s: &str) -> (r: String)
    ensures
        r@ == doubled_quotes(s@),
{
    let cs = text::chars_of(s);
    let mut out: Vec<char> = Vec::new();
    let mut i: usize = 0;
    assert(s@.take(0) =~= Seq::<char>::empty());
    while i < cs.len()
        invariant
            i <= cs@.len(),
            cs@ == s@,
            out@ == doubled_quotes(s@.take(i as int)),
        decreases cs@.len() - i,
    {
        assert(s@.take(i + 1).drop_last() == s@.take(i as int));
        let ghost before = out@;
        if cs[i] == '\'' {
            out.push('\'');
            out.push('\'');
            assert(out@ =~= before + seq!['\'', '\'']);
        } else {
            out.push(cs[i]);
        }
        i = i + 1;
    }
    assert(s@.take(i as int) == s@);
    text::to_text(out.as_slice())
}

/// PowerShell script that writes the shortcut.
pub fn shortcut_script(lnk: &str, target: &str, work_dir: &str) -> (r: String)
    ensures
        r@ == "$s = (New-Object -ComObject WScript.Shell).CreateShortcut('"@ + doubled_quotes(lnk@)
            + "'); $s.TargetPath = '"@ + doubled_quotes(target@) + "'; $s.WorkingDirectory = '"@
            + doubled_quotes(work_dir@) + "'; $s.Save()"@,
{
    let mut r = text::own("$s = (New-Object -ComObject WScript.Shell).CreateShortcut('");
    let a = ps_single_quoted(lnk);
    let b = ps_single_quoted(target);
    let c = ps_single_quoted(work_dir);
    r.append(a.as_str());
    r.append("'); $s.TargetPath = '");
    r.append(b.as_str());
    r.append("'; $s.WorkingDirectory = '");
    r.append(c.as_str());
    r.append("'; $s.Save()");
    r
}

/// Outcome of running the script: its exit status, then whether the shortcut is there.
pub fn shortcut_outcome(succeeded: bool, status: &str, exists: bool) -> (r: Result<(), String>)
    ensures
        match r {
            Ok(()) => succeeded && exists,
            Err(e) => !(succeeded && exists) && e@ == (if !succeeded {
                "powershell failed creating shortcut (exit "@ + status@ + ")"@
            } else {
                "shortcut was not created"@
            }),
        },
{
    if !succeeded {
        return Err(text::cat3("powershell failed creating shortcut (exit ", status, ")"));
    }
    if !exists {
        return Err(text::own("shortcut was not created"));
    }
    Ok(())
}

/// File names of the shortcut and of the older entry in the Startup folder.
pub fn entry_names() -> (r: (String, String))
    ensures
        r.0@ == PKG_NAME@ + ".lnk"@,
        r.1@ == PKG_NAME@ + ".cmd"@,
{
    (text::cat2(PKG_NAME, ".lnk"), text::cat2(PKG_NAME, ".cmd"))
}

/// Whether a text has only doubled single quotes: cut at its quotes, they come in pairs.
pub open spec fn quotes_paired(s: Seq<char>) -> bool
    decreases s.len(),
{
    if s.len() == 0 {
        true
    } else if s.last() == '\'' {
        s.len() >= 2 && s[s.len() - 2] == '\'' && quotes_paired(s.drop_last().drop_last())
    } else {
        quotes_paired(s.drop_last())
    }
}

/// No quoted text ends the string it stands in: its quotes come in pairs.
pub proof fn law_quoting_is_safe(s: Seq<char>)
    ensures
        quotes_paired(doubled_quotes(s)),
    decreases s.len(),
{
    if s.len() > 0 {
        law_quoting_is_safe(s.drop_last());
        let d = doubled_quotes(s.drop_last());
        let t = doubled_quotes(s);
        if s.last() == '\'' {
            assert(t.drop_last().drop_last() =~= d);
            assert(t[t.len() - 2] == '\'');
        } else {
            assert(t.drop_last() =~= d);
        }
    }
}

} // verus!
