//! Where the app keeps its files.
use crate::games;
use crate::platform::PKG_NAME;
use crate::text;
use vstd::prelude::*;

verus! {

/// Family of the operating system.
#[derive(Debug, Clone, Copy, PartialEq, Eq, Structural)]
pub enum Os {
    Windows,
    Mac,
    Unix,
}

/// Environment variables that place files.
#[derive(Debug, Clone, PartialEq, Eq)]
pub struct Places {
    pub appdata: Option<String>,
    pub home: Option<String>,
    pub xdg_config_home: Option<String>,
    pub xdg_state_home: Option<String>,
}

/// Path as its components, to be joined.
pub open spec fn data_parts(os: Os, p: Places) -> Seq<Seq<char>> {
    let appdata = games::text_option(p.appdata);
    let home = games::text_option(p.home);
    let config = games::text_option(p.xdg_config_home);
    match os {
        Os::Windows => match appdata {
            Some(a) => seq![a, PKG_NAME@],
            None => seq![PKG_NAME@],
        },
        Os::Mac => match home {
            Some(h) => seq![h, "Library"@, "Application Support"@, PKG_NAME@],
            None => seq![PKG_NAME@],
        },
        Os::Unix => match (config, home) {
            (Some(c), _) => seq![c, PKG_NAME@],
            (None, Some(h)) => seq![h, ".config"@, PKG_NAME@],
            (None, None) => seq![PKG_NAME@],
        },
    }
}

/// Path of a log file as its components.
pub open spec fn log_parts(os: Os, p: Places, file_name: Seq<char>) -> Seq<Seq<char>> {
    let appdata = games::text_option(p.appdata);
    let home = games::text_option(p.home);
    let state = games::text_option(p.xdg_state_home);
    let bare = seq![PKG_NAME@ + "-"@ + file_name];
    match os {
        Os::Windows => match appdata {
            Some(a) => seq![a, PKG_NAME@, file_name],
            None => bare,
        },
        _ => match (state, home) {
            (Some(s), _) => seq![s, PKG_NAME@, file_name],
            (None, Some(h)) => seq![h, ".local"@, "state"@, PKG_NAME@, file_name],
            (None, None) => bare,
        },
    }
}

fn push_part(out: &mut Vec<String>, part: &str)
    ensures
        text::views(final(out)@) == text::views(old(out)@).push(part@),
{
    let ghost before = text::views(out@);
    out.push(text::own(part));
    assert(text::views(out@) =~= before.push(part@));
}

fn no_parts() -> (r: Vec<String>)
    ensures
        text::views(r@) == Seq::<Seq<char>>::empty(),
{
    let r: Vec<String> = Vec::new();
    assert(text::views(r@) =~= Seq::<Seq<char>>::empty());
    r
}

/// Directory for prefs, controllers and analytics (and on Windows the log file), as the
/// components to join.
pub fn data_dir(os: Os, places: &Places) -> (r: Vec<String>)
    ensures
        text::views(r@) == data_parts(os, *places),
{
    let mut out = no_parts();
    match os {
        Os::Windows => {
            if let Some(a) = &places.appdata {
                push_part(&mut out, a.as_str());
            }
        },
        Os::Mac => {
            if let Some(h) = &places.home {
                push_part(&mut out, h.as_str());
                push_part(&mut out, "Library");
                push_part(&mut out, "Application Support");
            }
        },
        Os::Unix => {
            if let Some(c) = &places.xdg_config_home {
                push_part(&mut out, c.as_str());
            } else if let Some(h) = &places.home {
                push_part(&mut out, h.as_str());
                push_part(&mut out, ".config");
            }
        },
    }
    push_part(&mut out, PKG_NAME);
    assert(text::views(out@) =~= data_parts(os, *places));
    out
}

/// Path of a log file, as the components to join.
pub fn log_file_path(os: Os, places: &Places, file_name: &str) -> (r: Vec<String>)
    ensures
        text::views(r@) == log_parts(os, *places, file_name@),
{
    let mut out = no_parts();
    match os {
        Os::Windows => {
            if let Some(a) = &places.appdata {
                push_part(&mut out, a.as_str());
            }
        },
        _ => {
            if let Some(s) = &places.xdg_state_home {
                push_part(&mut out, s.as_str());
            } else if let Some(h) = &places.home {
                push_part(&mut out, h.as_str());
                push_part(&mut out, ".local");
                push_part(&mut out, "state");
            }
        },
    }
    if out.len() > 0 {
        push_part(&mut out, PKG_NAME);
        push_part(&mut out, file_name);
    } else {
        let name = text::cat3(PKG_NAME, "-", file_name);
        push_part(&mut out, name.as_str());
    }
    assert(text::views(out@) =~= log_parts(os, *places, file_name@));
    out
}

/// Outcome of opening the data folder with a desktop opener: on Windows its exit status does
/// not count.
pub fn opener_outcome(os: Os, succeeded: bool, status: &str) -> (r: Result<(), String>)
    ensures
        match r {
            Ok(()) => os == Os::Windows || succeeded,
            Err(e) => os != Os::Windows && !succeeded && e@ == (if os == Os::Mac {
                "open"@
            } else {
                "xdg-open"@
            }) + " exited with "@ + status@,
        },
{
    match os {
        Os::Windows => Ok(()),
        Os::Mac => if succeeded {
            Ok(())
        } else {
            Err(text::cat3("open", " exited with ", status))
        },
        Os::Unix => if succeeded {
            Ok(())
        } else {
            Err(text::cat3("xdg-open", " exited with ", status))
        },
    }
}

} // verus!
