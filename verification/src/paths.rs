//! Where the state file lives: under the XDG data directory when one is
//! set, under the home directory otherwise, in this tool's own directory —
//! plus a legacy directory from an older layout, still read for
//! compatibility.

use vstd::prelude::*;
use vstd::string::StringExecFns;
use crate::plan::CmdError;

verus! {

/// The path under a home directory without an XDG data directory.
pub open spec fn spec_home_path(home: Seq<char>, dir: Seq<char>) -> Seq<char> {
    home + "/.local/share/"@ + dir + "/state.json"@
}

/// The path under an XDG data directory.
pub open spec fn spec_xdg_path(xdg: Seq<char>, dir: Seq<char>) -> Seq<char> {
    xdg + "/"@ + dir + "/state.json"@
}

/// Where the state file for a directory name lives, given the environment:
/// a non-empty XDG data directory wins, the home directory is the
/// fallback, and without either the location is unknown.
pub open spec fn spec_state_path_for_dir(
    xdg: Option<Seq<char>>,
    home: Option<Seq<char>>,
    dir: Seq<char>,
) -> Result<Seq<char>, CmdError> {
    let fallback: Result<Seq<char>, CmdError> = match home {
        Some(h) => Ok(spec_home_path(h, dir)),
        None => Err(CmdError::HomeNotSet),
    };
    match xdg {
        Some(x) => if x.len() > 0 {
            Ok(spec_xdg_path(x, dir))
        } else {
            fallback
        },
        None => fallback,
    }
}

/// The views of an optional environment value.
pub open spec fn opt_view(o: Option<String>) -> Option<Seq<char>> {
    match o {
        Some(s) => Some(s@),
        None => None,
    }
}

/// Resolves the state-file path for one directory name from the given
/// environment values.
pub fn state_path_for_dir(
    xdg_data_home: &Option<String>,
    home: &Option<String>,
    dir_name: &str,
) -> (r: Result<String, CmdError>)
    ensures
        match r {
            Ok(p) => spec_state_path_for_dir(opt_view(*xdg_data_home), opt_view(*home), dir_name@)
                == Ok::<Seq<char>, CmdError>(p@),
            Err(e) => spec_state_path_for_dir(opt_view(*xdg_data_home), opt_view(*home), dir_name@)
                == Err::<Seq<char>, CmdError>(e),
        },
{
    match xdg_data_home {
        Some(x) => {
            if !x.as_str().is_empty() {
                let mut p = String::new();
                p.append(x.as_str());
                p.append("/");
                p.append(dir_name);
                p.append("/state.json");
                return Ok(p);
            }
            home_fallback(home, dir_name)
        },
        None => home_fallback(home, dir_name),
    }
}

/// The home-directory fallback of `state_path_for_dir`.
fn home_fallback(home: &Option<String>, dir_name: &str) -> (r: Result<String, CmdError>)
    ensures
        match r {
            Ok(p) => home matches Some(h) && p@ == spec_home_path(h@, dir_name@),
            Err(e) => home is None && e == CmdError::HomeNotSet,
        },
{
    match home {
        Some(h) => {
            let mut p = String::new();
            p.append(h.as_str());
            p.append("/.local/share/");
            p.append(dir_name);
            p.append("/state.json");
            Ok(p)
        },
        None => Err(CmdError::HomeNotSet),
    }
}

/// Resolves both state-file locations from the environment: the primary
/// path first, the legacy path second.
pub fn state_paths(xdg_data_home: &Option<String>, home: &Option<String>) -> (r: Result<
    (String, String),
    CmdError,
>)
    ensures
        match r {
            Ok(pair) => spec_state_path_for_dir(
                opt_view(*xdg_data_home),
                opt_view(*home),
                "pomodoro"@,
            ) == Ok::<Seq<char>, CmdError>(pair.0@) && spec_state_path_for_dir(
                opt_view(*xdg_data_home),
                opt_view(*home),
                "pomo"@,
            ) == Ok::<Seq<char>, CmdError>(pair.1@),
            Err(e) => spec_state_path_for_dir(opt_view(*xdg_data_home), opt_view(*home), "pomodoro"@)
                == Err::<Seq<char>, CmdError>(e) && e == CmdError::HomeNotSet,
        },
{
    let primary = state_path_for_dir(xdg_data_home, home, "pomodoro")?;
    let legacy = state_path_for_dir(xdg_data_home, home, "pomo")?;
    Ok((primary, legacy))
}

} // verus!
