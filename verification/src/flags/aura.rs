//! Flags of the subcommands that this front end serves itself.

use vstd::prelude::*;
use crate::flags::Date;

verus! {

/// Perform security analysis of a PKGBUILD.
#[derive(Debug)]
pub struct Analysis {
    /// Analyse a given PKGBUILD.
    pub file: Option<String>,
    /// Analyse a PKGBUILD found in the specified directory.
    pub dir: Option<String>,
    /// Analyse the PKGBUILDs of all locally installed AUR packages.
    pub audit: bool,
}

impl Analysis {
    /// No flag of the subcommand is set and no argument is given.
    pub open spec fn is_unset(&self) -> bool {
        &&& self.file is None
        &&& self.dir is None
        &&& !self.audit
    }
}

impl Default for Analysis {
    /// The subcommand as it is when the command line names it and nothing else.
    fn default() -> (flags: Self)
        ensures
            flags.is_unset(),
    {
        Analysis {
            file: None,
            dir: None,
            audit: false,
        }
    }
}

/// Handle orphan packages.
#[derive(Debug)]
pub struct Orphans {
    /// Mark a package as being explicitly installed.
    pub adopt: Vec<String>,
    /// Uninstall all orphan packages.
    pub abandon: bool,
    /// Display all explicitly installed, top-level packages.
    pub elderly: bool,
}

impl Orphans {
    /// No flag of the subcommand is set and no argument is given.
    pub open spec fn is_unset(&self) -> bool {
        &&& self.adopt@.len() == 0
        &&& !self.abandon
        &&& !self.elderly
    }
}

impl Default for Orphans {
    /// The subcommand as it is when the command line names it and nothing else.
    fn default() -> (flags: Self)
        ensures
            flags.is_unset(),
    {
        Orphans {
            adopt: Vec::new(),
            abandon: false,
            elderly: false,
        }
    }
}

/// View various configuration settings and files.
#[derive(Debug)]
pub struct Conf {
    /// Set an alternate Pacman configuration file.
    pub config: Option<String>,
    /// View the Pacman conf.
    pub pacman: bool,
    /// View the contents of ~/.config/aura.toml.
    pub aura: bool,
    /// View the Makepkg conf.
    pub makepkg: bool,
    /// List all .pacnew files newer than their originals.
    pub pacnew: bool,
    /// Output your current, full Aura config as legal TOML.
    pub gen: bool,
}

impl Conf {
    /// No flag of the subcommand is set and no argument is given.
    pub open spec fn is_unset(&self) -> bool {
        &&& self.config is None
        &&& !self.pacman
        &&& !self.aura
        &&& !self.makepkg
        &&& !self.pacnew
        &&& !self.gen
    }
}

impl Default for Conf {
    /// The subcommand as it is when the command line names it and nothing else.
    fn default() -> (flags: Self)
        ensures
            flags.is_unset(),
    {
        Conf {
            config: None,
            pacman: false,
            aura: false,
            makepkg: false,
            pacnew: false,
            gen: false,
        }
    }
}

/// View the Pacman/ALPM log.
#[derive(Debug)]
pub struct Log {
    /// Display install/upgrade history for the given packages.
    pub info: Vec<String>,
    /// Search the Pacman log for a matching string.
    pub search: Option<String>,
    /// Only display log entries from before the given date.
    pub before: Option<Date>,
    /// Only display log entries from after the given date.
    pub after: Option<Date>,
    /// Set an alternate log file.
    pub logfile: Option<String>,
}

impl Log {
    /// No flag of the subcommand is set and no argument is given.
    pub open spec fn is_unset(&self) -> bool {
        &&& self.info@.len() == 0
        &&& self.search is None
        &&& self.before is None
        &&& self.after is None
        &&& self.logfile is None
    }
}

impl Default for Log {
    /// The subcommand as it is when the command line names it and nothing else.
    fn default() -> (flags: Self)
        ensures
            flags.is_unset(),
    {
        Log {
            info: Vec::new(),
            search: None,
            before: None,
            after: None,
            logfile: None,
        }
    }
}

/// View statistics about your machine or Aura itself.
#[derive(Debug)]
pub struct Stats {
    /// View Aura's localization statistics.
    pub lang: bool,
    /// View all installed package groups.
    pub groups: bool,
    /// View the Top 10 heaviest installed packages.
    pub heavy: bool,
}

impl Stats {
    /// No flag of the subcommand is set and no argument is given.
    pub open spec fn is_unset(&self) -> bool {
        &&& !self.lang
        &&& !self.groups
        &&& !self.heavy
    }
}

impl Default for Stats {
    /// The subcommand as it is when the command line names it and nothing else.
    fn default() -> (flags: Self)
        ensures
            flags.is_unset(),
    {
        Stats {
            lang: false,
            groups: false,
            heavy: false,
        }
    }
}

/// Manage a consistent system environment.
#[derive(Debug)]
pub struct Home;

impl Default for Home {
    fn default() -> Self {
        Home
    }
}

/// Synchronize AUR packages.
#[derive(Debug)]
pub struct Aur {
    /// View AUR package information.
    pub info: Vec<String>,
    /// Search the AUR via search strings. Multiple terms narrow the result.
    pub search: Vec<String>,
    /// [-s] Sort results alphabetically.
    pub abc: bool,
    /// [-s] Limit the results to N results.
    pub limit: Option<usize>,
    /// [-s] Reverse the search results.
    pub reverse: bool,
    /// [-s] Only print matching package names.
    pub quiet: bool,
    /// Open a given package's AUR package.
    pub open: Option<String>,
    /// View a package's PKGBUILD.
    pub pkgbuild: Option<String>,
    /// View/edit PKGBUILDs and related build files before building.
    pub hotedit: bool,
    /// View diffs of PKGBUILDs and related build files before building.
    pub diff: bool,
    /// Remove makedeps after building.
    pub delmakedeps: bool,
    /// Upgrade all installed AUR packages.
    pub sysupgrade: bool,
    /// [-u] Rebuild all git/svn/hg/etc. packages as well.
    pub git: bool,
    /// [-u] Ignore a package upgrade (can be used more than once).
    pub ignore: Vec<String>,
    /// Clone a package's AUR repository, but don't build anything.
    pub wclone: Vec<String>,
    /// Deprecated.
    pub unsuppress: bool,
    /// Pull the latest changes for every local copy of an AUR package.
    pub refresh: bool,
    /// Do not ask for any confirmation.
    pub noconfirm: bool,
    /// Packages to install.
    pub packages: Vec<String>,
}

impl Aur {
    /// No flag of the subcommand is set and no argument is given.
    pub open spec fn is_unset(&self) -> bool {
        &&& self.info@.len() == 0
        &&& self.search@.len() == 0
        &&& !self.abc
        &&& self.limit is None
        &&& !self.reverse
        &&& !self.quiet
        &&& self.open is None
        &&& self.pkgbuild is None
        &&& !self.hotedit
        &&& !self.diff
        &&& !self.delmakedeps
        &&& !self.sysupgrade
        &&& !self.git
        &&& self.ignore@.len() == 0
        &&& self.wclone@.len() == 0
        &&& !self.unsuppress
        &&& !self.refresh
        &&& !self.noconfirm
        &&& self.packages@.len() == 0
    }
}

impl Default for Aur {
    /// The subcommand as it is when the command line names it and nothing else.
    fn default() -> (flags: Self)
        ensures
            flags.is_unset(),
    {
        Aur {
            info: Vec::new(),
            search: Vec::new(),
            abc: false,
            limit: None,
            reverse: false,
            quiet: false,
            open: None,
            pkgbuild: None,
            hotedit: false,
            diff: false,
            delmakedeps: false,
            sysupgrade: false,
            git: false,
            ignore: Vec::new(),
            wclone: Vec::new(),
            unsuppress: false,
            refresh: false,
            noconfirm: false,
            packages: Vec::new(),
        }
    }
}

/// Save and restore the global package state.
#[derive(Debug)]
pub struct Backup {
    /// Show all saved package snapshot filenames.
    pub list: bool,
    /// Remove all snapshots without matching tarballs in the cache.
    pub clean: bool,
    /// Restore to a previous package snapshot.
    pub restore: bool,
}

impl Backup {
    /// No flag of the subcommand is set and no argument is given.
    pub open spec fn is_unset(&self) -> bool {
        &&& !self.list
        &&& !self.clean
        &&& !self.restore
    }
}

impl Default for Backup {
    /// The subcommand as it is when the command line names it and nothing else.
    fn default() -> (flags: Self)
        ensures
            flags.is_unset(),
    {
        Backup {
            list: false,
            clean: false,
            restore: false,
        }
    }
}

/// Manage the package cache.
#[derive(Debug)]
pub struct Cache {
    /// Search the package cache.
    pub search: Option<String>,
    /// Back up the package cache to a given directory.
    pub backup: Option<String>,
    /// Save the most recent <N> versions of a package.
    pub clean: Option<usize>,
    /// Delete only those tarballs which aren't present in a snapshot.
    pub clean_unsaved: bool,
    /// Look up specific packages for info on their cache entries.
    pub info: Vec<String>,
    /// Print the contents of the package cache.
    pub list: bool,
    /// Download tarballs of installed packages that are missing from the cache.
    pub refresh: bool,
    /// Delete invalid tarballs from the cache.
    pub invalid: bool,
    /// Display packages that don't have a tarball in the cache.
    pub missing: bool,
    /// Packages to downgrade.
    pub packages: Vec<String>,
}

impl Cache {
    /// No flag of the subcommand is set and no argument is given.
    pub open spec fn is_unset(&self) -> bool {
        &&& self.search is None
        &&& self.backup is None
        &&& self.clean is None
        &&& !self.clean_unsaved
        &&& self.info@.len() == 0
        &&& !self.list
        &&& !self.refresh
        &&& !self.invalid
        &&& !self.missing
        &&& self.packages@.len() == 0
    }
}

impl Default for Cache {
    /// The subcommand as it is when the command line names it and nothing else.
    fn default() -> (flags: Self)
        ensures
            flags.is_unset(),
    {
        Cache {
            search: None,
            backup: None,
            clean: None,
            clean_unsaved: false,
            info: Vec::new(),
            list: false,
            refresh: false,
            invalid: false,
            missing: false,
            packages: Vec::new(),
        }
    }
}

/// Open various webpages related to Aura.
#[derive(Debug)]
pub struct Open {
    /// Open the Aura Guide Book.
    pub docs: bool,
    /// Open Aura's Github repository.
    pub repo: bool,
    /// File a bug report for Aura.
    pub bug: bool,
    /// Open Aura's LICENSE file.
    pub license: bool,
    /// Open Aura's AUR page.
    pub aur: bool,
}

impl Open {
    /// No flag of the subcommand is set and no argument is given.
    pub open spec fn is_unset(&self) -> bool {
        &&& !self.docs
        &&& !self.repo
        &&& !self.bug
        &&& !self.license
        &&& !self.aur
    }
}

impl Default for Open {
    /// The subcommand as it is when the command line names it and nothing else.
    fn default() -> (flags: Self)
        ensures
            flags.is_unset(),
    {
        Open {
            docs: false,
            repo: false,
            bug: false,
            license: false,
            aur: false,
        }
    }
}

/// Output a dependency graph in DOT format.
#[derive(Debug)]
pub struct Deps {
    /// Display packages that depend on the given args.
    pub reverse: bool,
    /// Include optional dependencies.
    pub optional: bool,
    /// The number of layers up or down to allow.
    pub limit: Option<u8>,
    /// Packages to focus on.
    pub packages: Vec<String>,
}

impl Deps {
    /// No flag of the subcommand is set and no argument is given.
    pub open spec fn is_unset(&self) -> bool {
        &&& !self.reverse
        &&& !self.optional
        &&& self.limit is None
        &&& self.packages@.len() == 0
    }
}

impl Default for Deps {
    /// The subcommand as it is when the command line names it and nothing else.
    fn default() -> (flags: Self)
        ensures
            flags.is_unset(),
    {
        Deps {
            reverse: false,
            optional: false,
            limit: None,
            packages: Vec::new(),
        }
    }
}

/// Validate your system.
#[derive(Debug)]
pub struct Check {}

impl Check {
    /// No flag of the subcommand is set and no argument is given.
    pub open spec fn is_unset(&self) -> bool {
        true
    }
}

impl Default for Check {
    /// The subcommand as it is when the command line names it and nothing else.
    fn default() -> (flags: Self)
        ensures
            flags.is_unset(),
    {
        Check {}
    }
}

} // verus!
