//! Choice of the program that displays text files.

use vstd::prelude::*;
use crate::flags::Language;

verus! {

/// Location of the `bat` executable when it is installed from the official repositories.
pub const BAT: &'static str = "/bin/bat";

/// Location of the `less` executable.
pub const LESS: &'static str = "/bin/less";

/// The path of the viewer that `viewer` picks.
pub open spec fn viewer_path(bat_installed: bool) -> Seq<char> {
    if bat_installed {
        BAT@
    } else {
        LESS@
    }
}

/// A complete path to a file viewer program: `bat` where it is installed, `less` otherwise.
pub fn viewer(bat_installed: bool) -> (prog: &'static str)
    ensures
        prog@ == viewer_path(bat_installed),
{
    if bat_installed {
        BAT
    } else {
        LESS
    }
}

/// Where the package manager's configuration lies unless told otherwise.
pub const DEFAULT_PAC_CONF: &'static str = "/etc/pacman.conf";

/// A file to show and the program to show it with.
#[derive(Debug, PartialEq, Eq)]
pub struct ViewCommand {
    /// The complete path of the viewer.
    pub program: &'static str,
    /// The file to show.
    pub file: String,
}

/// How to show the package manager's configuration: the given file, or the
/// default one where none is given, in `bat` where it is installed and in
/// `less` otherwise.
pub fn pacman_conf(config: Option<String>, bat_installed: bool) -> (command: ViewCommand)
    ensures
        command.program@ == viewer_path(bat_installed),
        command.file@ == match config {
            Some(path) => path@,
            None => DEFAULT_PAC_CONF@,
        },
{
    let file = match config {
        Some(path) => path,
        None => DEFAULT_PAC_CONF.to_owned(),
    };
    ViewCommand { program: viewer(bat_installed), file }
}

/// The languages that messages can be shown in.
pub fn languages() -> (all: Vec<Language>)
    ensures
        all@ == seq![Language::English, Language::German, Language::Japanese],
{
    let mut all: Vec<Language> = Vec::new();
    all.push(Language::English);
    all.push(Language::German);
    all.push(Language::Japanese);
    assert(all@ =~= seq![Language::English, Language::German, Language::Japanese]);
    all
}

} // verus!
