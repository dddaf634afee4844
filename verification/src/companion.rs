use vstd::prelude::*;

use crate::config::CompanionConfig;
use crate::paths::{
    file_name_of, opt_seq, opt_str, parent_of, path_file_name, path_parent, resolve_config_path,
    resolve_config_spec,
};
use crate::text::{chars_of, string_of};

verus! {

// ---------------------------------------------------------------------------
// Model files
// ---------------------------------------------------------------------------

/// The directory of a model file; an error when the path has no parent.
pub fn model_dir_of(model_path: &str) -> (res: Result<String, String>)
    ensures
        match parent_of(model_path@) {
            Some(d) => res is Ok && res->Ok_0@ == d,
            None => res is Err && res->Err_0@ == "Model file has no parent directory."@,
        },
{
    match path_parent(model_path) {
        Some(d) => Ok(d),
        None => Err(string_of(&chars_of("Model file has no parent directory."))),
    }
}

/// The directory and the file name of a model file, which a model file
/// server serves: an error when the path has no parent or no file name.
pub fn model_file_parts(model_path: &str) -> (res: Result<(String, String), String>)
    ensures
        match (parent_of(model_path@), file_name_of(model_path@)) {
            (None, _) => res is Err && res->Err_0@ == "Model file has no parent directory."@,
            (Some(_), None) => res is Err && res->Err_0@ == "Model file name is not valid UTF-8."@,
            (Some(d), Some(n)) => res is Ok && res->Ok_0.0@ == d && res->Ok_0.1@ == n,
        },
{
    let dir = match path_parent(model_path) {
        Some(d) => d,
        None => {
            return Err(string_of(&chars_of("Model file has no parent directory.")));
        },
    };
    match path_file_name(model_path) {
        Some(n) => Ok((dir, n)),
        None => Err(string_of(&chars_of("Model file name is not valid UTF-8."))),
    }
}

// ---------------------------------------------------------------------------
// The Archive launcher
// ---------------------------------------------------------------------------

/// The Archive checkout named by the configuration, resolved; the caller
/// uses it only when it exists.
pub fn archive_app_dir(config: &CompanionConfig, home: Option<&str>, manifest_dir: &str) -> (res: Option<String>)
    ensures
        opt_seq(res) == match opt_seq(config.archive_app_dir) {
            Some(d) => Some(resolve_config_spec(d, opt_str(home), manifest_dir@)),
            None => None,
        },
{
    match &config.archive_app_dir {
        Some(d) => Some(resolve_config_path(d.as_str(), home, manifest_dir)),
        None => None,
    }
}

pub open spec fn archive_not_configured_spec() -> Seq<char> {
    "Archive is not configured. Set archiveAppDir in local/config.json to enable Option+Right."@
}

/// The error shown when no existing Archive checkout is configured.
pub fn archive_not_configured_message() -> (m: String)
    ensures
        m@ == archive_not_configured_spec(),
{
    string_of(
        &chars_of(
            "Archive is not configured. Set archiveAppDir in local/config.json to enable Option+Right.",
        ),
    )
}

pub open spec fn folia_missing_spec() -> Seq<char> {
    "Folia is not installed or configured. Install Folia or set foliaAppPath in local/config.json."@
}

/// The error shown when the Folia application is not found.
pub fn folia_missing_message() -> (m: String)
    ensures
        m@ == folia_missing_spec(),
{
    string_of(
        &chars_of(
            "Folia is not installed or configured. Install Folia or set foliaAppPath in local/config.json.",
        ),
    )
}

pub open spec fn folia_data_missing_spec() -> Seq<char> {
    "Folia data directory was not found. Install Folia or set foliaDataDir in local/config.json."@
}

/// The error shown when the Folia data directory is not found.
pub fn folia_data_missing_message() -> (m: String)
    ensures
        m@ == folia_data_missing_spec(),
{
    string_of(
        &chars_of(
            "Folia data directory was not found. Install Folia or set foliaDataDir in local/config.json.",
        ),
    )
}

// ---------------------------------------------------------------------------
// Global shortcuts
// ---------------------------------------------------------------------------

/// What a global shortcut does.
#[derive(Debug)]
pub enum ShortcutAction {
    LaunchArchive,
    OpenNotebookSearch,
    OpenDefaultNotebookCard,
}

/// The action of a global shortcut event: nothing unless the key was
/// pressed; Option+Right launches Archive, else Option+F opens the notebook
/// search, else Option+N opens the default notebook card.
pub open spec fn shortcut_action_spec(pressed: bool, alt_right: bool, alt_f: bool, alt_n: bool) -> Option<ShortcutAction> {
    if !pressed {
        None
    } else if alt_right {
        Some(ShortcutAction::LaunchArchive)
    } else if alt_f {
        Some(ShortcutAction::OpenNotebookSearch)
    } else if alt_n {
        Some(ShortcutAction::OpenDefaultNotebookCard)
    } else {
        None
    }
}

/// The action of a global shortcut event (see `shortcut_action_spec`);
/// the flags say which registered shortcut the event matches.
pub fn shortcut_action(pressed: bool, alt_right: bool, alt_f: bool, alt_n: bool) -> (action: Option<ShortcutAction>)
    ensures
        action == shortcut_action_spec(pressed, alt_right, alt_f, alt_n),
{
    if !pressed {
        None
    } else if alt_right {
        Some(ShortcutAction::LaunchArchive)
    } else if alt_f {
        Some(ShortcutAction::OpenNotebookSearch)
    } else if alt_n {
        Some(ShortcutAction::OpenDefaultNotebookCard)
    } else {
        None
    }
}

/// The position the companion window is moved to by "reset position".
pub fn reset_window_position() -> (pos: (i32, i32))
    ensures
        pos == (60i32, 160i32),
{
    (60, 160)
}

// ---------------------------------------------------------------------------
// Waiting for a local service
// ---------------------------------------------------------------------------

/// What to do next while waiting for a local HTTP service to answer.
#[derive(Debug)]
pub enum WaitAction {
    /// Ask the service once.
    Probe,
    /// Sleep this many milliseconds.
    Sleep(u64),
    /// Stop waiting, with this outcome.
    Done(Result<(), String>),
}

pub open spec fn wait_timeout_message() -> Seq<char> {
    "Archive service did not respond in time."@
}

/// The next step of waiting for a service: a probe that answered ends the
/// wait; one that did not is followed by a pause of 250 ms; before each
/// probe, a wait that has lasted `timeout_ms` ends with an error.
/// `last_probe` is the answer of the probe just made, if the last step was
/// a probe.
pub fn wait_action(elapsed_ms: u128, timeout_ms: u128, last_probe: Option<bool>) -> (action: WaitAction)
    ensures
        match last_probe {
            Some(true) => action matches WaitAction::Done(Ok(())),
            Some(false) => action matches WaitAction::Sleep(ms) && ms == 250,
            None => if elapsed_ms < timeout_ms {
                action is Probe
            } else {
                action matches WaitAction::Done(Err(e)) && e@ == wait_timeout_message()
            },
        },
{
    match last_probe {
        Some(true) => WaitAction::Done(Ok(())),
        Some(false) => WaitAction::Sleep(250),
        None => if elapsed_ms < timeout_ms {
            WaitAction::Probe
        } else {
            let e = string_of(&chars_of("Archive service did not respond in time."));
            WaitAction::Done(Err(e))
        },
    }
}

// ---------------------------------------------------------------------------
// Model file servers
// ---------------------------------------------------------------------------

/// The port of a model directory's file server that can be used again:
/// that of the server started for the directory, if there is one and it
/// is still running (`entry` holds its port and whether it runs); `None`
/// means a new server is started.
pub fn reusable_server_port(entry: Option<(u16, bool)>) -> (port: Option<u16>)
    ensures
        port == match entry {
            Some((p, running)) => if running {
                Some(p)
            } else {
                None
            },
            None => None,
        },
{
    match entry {
        Some((p, running)) => if running {
            Some(p)
        } else {
            None
        },
        None => None,
    }
}

} // verus!
