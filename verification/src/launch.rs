//! Opening catalog targets: Steam URLs, executables and shortcuts.
use crate::text;
use vstd::prelude::*;
use vstd::string::StringExecFns;

verus! {

/// What to hand to the system to open a target.
#[derive(Debug, Clone, PartialEq, Eq)]
pub struct Launch {
    pub target: String,
    /// A URL goes to the desktop's opener, anything else is started as a program.
    pub url: bool,
}

/// Whether a target is a URL.
pub open spec fn is_url(target: Seq<char>) -> bool {
    text::occurs(target, "://"@)
}

/// Whether a target is a URL.
pub fn looks_like_url(target: &str) -> (r: bool)
    ensures
        r == is_url(target@),
{
    text::str_contains(target, "://")
}

/// What to open for a catalog target (path, `.lnk`, or URL such as `steam://…`); a blank one
/// is refused.
pub fn launch_target(target: &str) -> (r: Result<Launch, String>)
    ensures
        ({
            let t = text::trim(target@);
            match r {
                Ok(l) => t.len() > 0 && l.target@ == t && l.url == is_url(t),
                Err(e) => t.len() == 0 && e@ == "empty launch target"@,
            }
        }),
{
    let trimmed = text::str_trim(target);
    if trimmed.as_str().is_empty() {
        return Err(text::own("empty launch target"));
    }
    let url = looks_like_url(trimmed.as_str());
    Ok(Launch { target: trimmed, url })
}

/// Outcome of the shell's open call, whose codes above 32 mean success.
pub fn shell_outcome(target: &str, code: i32) -> (r: Result<(), String>)
    ensures
        match r {
            Ok(()) => code > 32,
            Err(e) => code <= 32 && e@ == "ShellExecute failed for "@ + target@ + " (code "@
                + text::signed_dec(code as int) + ")"@,
        },
{
    if code > 32 {
        return Ok(());
    }
    let mut m = text::cat2("ShellExecute failed for ", target);
    m.append(" (code ");
    text::push_signed(&mut m, code);
    m.append(")");
    Err(m)
}

/// Message for a target that could not be started.
pub fn spawn_error(launch: &Launch, cause: &str) -> (r: String)
    ensures
        r@ == (if launch.url {
            "failed to open "@
        } else {
            "failed to launch "@
        }) + launch.target@ + ": "@ + cause@,
{
    let lead = if launch.url {
        "failed to open "
    } else {
        "failed to launch "
    };
    let mut m = text::cat2(lead, launch.target.as_str());
    m.append(": ");
    m.append(cause);
    m
}

} // verus!
