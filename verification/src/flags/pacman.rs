//! Flags of the subcommands that are handed on to the package manager.

use vstd::prelude::*;

verus! {

/// Synchronize official packages.
#[derive(Debug)]
pub struct Sync {
    /// Remove old packages from cache directory (-cc for all).
    pub clean: u8,
    /// Skip dependency version checks (-dd to skip all checks).
    pub nodeps: u8,
    /// View all members of a package group (-gg to view all groups and members).
    pub groups: u8,
    /// View package information.
    pub info: Vec<String>,
    /// View a list of packages in a repo.
    pub list: Option<String>,
    /// Print the targets instead of performing the operation.
    pub print: bool,
    /// Show less information for query and search.
    pub quiet: bool,
    /// Search remote repositories for matching strings.
    pub search: Vec<String>,
    /// Upgrade installed packages (-uu enables downgrades).
    pub sysupgrade: u8,
    /// Be verbose.
    pub verbose: bool,
    /// Download packages but do not install/upgrade anything.
    pub downloadonly: Vec<String>,
    /// Download fresh package databases from the server (-yy to force a refresh even if up to date).
    pub refresh: u8,
    /// Set an alternate architecture.
    pub arch: Option<String>,
    /// Install packages as non-explicitly installed.
    pub asdeps: bool,
    /// Install packages as explicitly installed.
    pub asexplicit: bool,
    /// Add a virtual package to satisfy dependencies.
    pub assumed_installed: Option<String>,
    /// Set an alternate package cache location.
    pub cachedir: Option<String>,
    /// Colorize the output.
    pub color: Option<String>,
    /// Set an alternate Pacman configuration file.
    pub config: Option<String>,
    /// Always ask for confirmation.
    pub confirm: bool,
    /// Only modify database entries, not package files.
    pub dbonly: bool,
    /// Set an alternate database location.
    pub dbpath: Option<String>,
    /// Display Pacman debug messages.
    pub debug: bool,
    /// Use relaxed timeouts for download.
    pub disable_download_timeout: bool,
    /// Set an alternate home directory for GnuPG.
    pub gpgdir: Option<String>,
    /// Set an alternate hook location.
    pub hookdir: Option<String>,
    /// Ignore a package upgrade (can be used more than once).
    pub ignore: Option<String>,
    /// Ignore a group upgrade (can be used more than once).
    pub ignoregroup: Option<String>,
    /// Set an alternate log file.
    pub logfile: Option<String>,
    /// Do not reinstall up to date packages.
    pub needed: bool,
    /// Do not ask for any confirmation.
    pub noconfirm: bool,
    /// Do not show a progress bar when downloading files.
    pub noprogressbar: bool,
    /// Do not execute the install scriptlet if one exists.
    pub noscriptlet: bool,
    /// Overwrite conflicting files (can be used more than once.)
    pub overwrite: Option<String>,
    /// Specify how the targets should be printed.
    pub print_format: Option<String>,
    /// Set an alternate installation root.
    pub root: Option<String>,
    /// Operate on a mounted guest system (root-only).
    pub sysroot: bool,
    /// Packages to search/install.
    pub packages: Vec<String>,
}

impl Sync {
    /// No flag of the subcommand is set and no argument is given.
    pub open spec fn is_unset(&self) -> bool {
        &&& self.clean == 0
        &&& self.nodeps == 0
        &&& self.groups == 0
        &&& self.info@.len() == 0
        &&& self.list is None
        &&& !self.print
        &&& !self.quiet
        &&& self.search@.len() == 0
        &&& self.sysupgrade == 0
        &&& !self.verbose
        &&& self.downloadonly@.len() == 0
        &&& self.refresh == 0
        &&& self.arch is None
        &&& !self.asdeps
        &&& !self.asexplicit
        &&& self.assumed_installed is None
        &&& self.cachedir is None
        &&& self.color is None
        &&& self.config is None
        &&& !self.confirm
        &&& !self.dbonly
        &&& self.dbpath is None
        &&& !self.debug
        &&& !self.disable_download_timeout
        &&& self.gpgdir is None
        &&& self.hookdir is None
        &&& self.ignore is None
        &&& self.ignoregroup is None
        &&& self.logfile is None
        &&& !self.needed
        &&& !self.noconfirm
        &&& !self.noprogressbar
        &&& !self.noscriptlet
        &&& self.overwrite is None
        &&& self.print_format is None
        &&& self.root is None
        &&& !self.sysroot
        &&& self.packages@.len() == 0
    }

    /// The flags ask only to view or print: `--info`, `--search`, `--list` or `--print`.
    pub open spec fn only_reports(&self) -> bool {
        self.info@.len() > 0 || self.search@.len() > 0 || self.list is Some || self.print
    }

    /// A flag changes what the system records: the reason of an installation
    /// with `--asdeps` or `--asexplicit`, the package databases with `--refresh`.
    pub open spec fn changes_records(&self) -> bool {
        self.asdeps || self.asexplicit || self.refresh > 0
    }

    /// `-S` runs elevated where a flag changes what the system records,
    /// whatever else is set, and otherwise unless a flag turns it into a report.
    pub open spec fn elevates(&self) -> bool {
        self.changes_records() || !self.only_reports()
    }

    /// Does this `-S` subflag need sudo?
    pub fn needs_sudo(&self) -> (sudo: bool)
        ensures
            sudo == self.elevates(),
    {
        self.asdeps || self.asexplicit || self.refresh > 0 || !(!self.info.is_empty()
            || !self.search.is_empty() || self.list.is_some() || self.print)
    }
}

impl Default for Sync {
    /// The subcommand as it is when the command line names it and nothing else.
    fn default() -> (flags: Self)
        ensures
            flags.is_unset(),
    {
        Sync {
            clean: 0,
            nodeps: 0,
            groups: 0,
            info: Vec::new(),
            list: None,
            print: false,
            quiet: false,
            search: Vec::new(),
            sysupgrade: 0,
            verbose: false,
            downloadonly: Vec::new(),
            refresh: 0,
            arch: None,
            asdeps: false,
            asexplicit: false,
            assumed_installed: None,
            cachedir: None,
            color: None,
            config: None,
            confirm: false,
            dbonly: false,
            dbpath: None,
            debug: false,
            disable_download_timeout: false,
            gpgdir: None,
            hookdir: None,
            ignore: None,
            ignoregroup: None,
            logfile: None,
            needed: false,
            noconfirm: false,
            noprogressbar: false,
            noscriptlet: false,
            overwrite: None,
            print_format: None,
            root: None,
            sysroot: false,
            packages: Vec::new(),
        }
    }
}

/// Check if given dependencies are satisfied.
#[derive(Debug)]
pub struct DepTest {
    /// Be verbose.
    pub verbose: bool,
    /// Set an alternate architecture.
    pub arch: Option<String>,
    /// Colorize the output.
    pub color: Option<String>,
    /// Set an alternate Pacman configuration file.
    pub config: Option<String>,
    /// Always ask for confirmation.
    pub confirm: bool,
    /// Set an alternate database location.
    pub dbpath: Option<String>,
    /// Display Pacman debug messages.
    pub debug: bool,
    /// Use relaxed timeouts for download.
    pub disable_download_timeout: bool,
    /// Set an alternate home directory for GnuPG.
    pub gpgdir: Option<String>,
    /// Set an alternate hook location.
    pub hookdir: Option<String>,
    /// Set an alternate log file.
    pub logfile: Option<String>,
    /// Do not ask for any confirmation.
    pub noconfirm: bool,
    /// Set an alternate installation root.
    pub root: Option<String>,
    /// Operate on a mounted guest system (root-only).
    pub sysroot: bool,
    /// Dependencies to check.
    pub packages: Vec<String>,
}

impl DepTest {
    /// No flag of the subcommand is set and no argument is given.
    pub open spec fn is_unset(&self) -> bool {
        &&& !self.verbose
        &&& self.arch is None
        &&& self.color is None
        &&& self.config is None
        &&& !self.confirm
        &&& self.dbpath is None
        &&& !self.debug
        &&& !self.disable_download_timeout
        &&& self.gpgdir is None
        &&& self.hookdir is None
        &&& self.logfile is None
        &&& !self.noconfirm
        &&& self.root is None
        &&& !self.sysroot
        &&& self.packages@.len() == 0
    }
}

impl Default for DepTest {
    /// The subcommand as it is when the command line names it and nothing else.
    fn default() -> (flags: Self)
        ensures
            flags.is_unset(),
    {
        DepTest {
            verbose: false,
            arch: None,
            color: None,
            config: None,
            confirm: false,
            dbpath: None,
            debug: false,
            disable_download_timeout: false,
            gpgdir: None,
            hookdir: None,
            logfile: None,
            noconfirm: false,
            root: None,
            sysroot: false,
            packages: Vec::new(),
        }
    }
}

/// Upgrade or add packages to the system.
#[derive(Debug)]
pub struct Upgrade {
    /// Skip dependency version checks (-dd to skip all checks).
    pub nodeps: bool,
    /// Print the targets instead of performing the operation.
    pub print: bool,
    /// Be verbose.
    pub verbose: bool,
    /// Set an alternate architecture.
    pub arch: Option<String>,
    /// Install packages as non-explicitly installed.
    pub asdeps: bool,
    /// Install packages as explicitly installed.
    pub asexplicit: bool,
    /// Add a virtual package to satisfy dependencies.
    pub assumed_installed: Option<String>,
    /// Colorize the output.
    pub color: Option<String>,
    /// Set an alternate Pacman configuration file.
    pub config: Option<String>,
    /// Always ask for confirmation.
    pub confirm: bool,
    /// Only modify database entries, not package files.
    pub dbonly: bool,
    /// Set an alternate database location.
    pub dbpath: Option<String>,
    /// Display Pacman debug messages.
    pub debug: bool,
    /// Use relaxed timeouts for download.
    pub disable_download_timeout: bool,
    /// Set an alternate home directory for GnuPG.
    pub gpgdir: Option<String>,
    /// Set an alternate hook location.
    pub hookdir: Option<String>,
    /// Ignore a package upgrade (can be used more than once).
    pub ignore: Option<String>,
    /// Ignore a group upgrade (can be used more than once).
    pub ignoregroup: Option<String>,
    /// Set an alternate log file.
    pub logfile: Option<String>,
    /// Do not reinstall up to date packages.
    pub needed: bool,
    /// Do not ask for any confirmation.
    pub noconfirm: bool,
    /// Do not show a progress bar when downloading files.
    pub noprogressbar: bool,
    /// Do not execute the install scriptlet if one exists.
    pub noscriptlet: bool,
    /// Overwrite conflicting files (can be used more than once.)
    pub overwrite: Option<String>,
    /// Specify how the targets should be printed.
    pub print_format: Option<String>,
    /// Set an alternate installation root.
    pub root: Option<String>,
    /// Operate on a mounted guest system (root-only).
    pub sysroot: bool,
    /// Packages to install, either a tarball or a URL.
    pub packages: Vec<String>,
}

impl Upgrade {
    /// No flag of the subcommand is set and no argument is given.
    pub open spec fn is_unset(&self) -> bool {
        &&& !self.nodeps
        &&& !self.print
        &&& !self.verbose
        &&& self.arch is None
        &&& !self.asdeps
        &&& !self.asexplicit
        &&& self.assumed_installed is None
        &&& self.color is None
        &&& self.config is None
        &&& !self.confirm
        &&& !self.dbonly
        &&& self.dbpath is None
        &&& !self.debug
        &&& !self.disable_download_timeout
        &&& self.gpgdir is None
        &&& self.hookdir is None
        &&& self.ignore is None
        &&& self.ignoregroup is None
        &&& self.logfile is None
        &&& !self.needed
        &&& !self.noconfirm
        &&& !self.noprogressbar
        &&& !self.noscriptlet
        &&& self.overwrite is None
        &&& self.print_format is None
        &&& self.root is None
        &&& !self.sysroot
        &&& self.packages@.len() == 0
    }

    /// `-U` runs elevated where `--asdeps` or `--asexplicit` changes the
    /// reason of an installation, whatever else is set, and otherwise unless
    /// `--print` is set: it installs.
    pub open spec fn elevates(&self) -> bool {
        self.asdeps || self.asexplicit || !self.print
    }

    /// Does this `-U` subflag need sudo?
    pub fn needs_sudo(&self) -> (sudo: bool)
        ensures
            sudo == self.elevates(),
    {
        self.asdeps || self.asexplicit || !self.print
    }
}

impl Default for Upgrade {
    /// The subcommand as it is when the command line names it and nothing else.
    fn default() -> (flags: Self)
        ensures
            flags.is_unset(),
    {
        Upgrade {
            nodeps: false,
            print: false,
            verbose: false,
            arch: None,
            asdeps: false,
            asexplicit: false,
            assumed_installed: None,
            color: None,
            config: None,
            confirm: false,
            dbonly: false,
            dbpath: None,
            debug: false,
            disable_download_timeout: false,
            gpgdir: None,
            hookdir: None,
            ignore: None,
            ignoregroup: None,
            logfile: None,
            needed: false,
            noconfirm: false,
            noprogressbar: false,
            noscriptlet: false,
            overwrite: None,
            print_format: None,
            root: None,
            sysroot: false,
            packages: Vec::new(),
        }
    }
}

/// Query the files database.
#[derive(Debug)]
pub struct Files {
    /// View a list of files belonging to a package.
    pub list: bool,
    /// Show less information for query and search.
    pub quiet: bool,
    /// Be verbose.
    pub verbose: bool,
    /// Enable searching using regular expressions.
    pub regex: bool,
    /// Download fresh package databases from the server (-yy to force a refresh even if up to date).
    pub refresh: u8,
    /// Set an alternate architecture.
    pub arch: Option<String>,
    /// Colorize the output.
    pub color: Option<String>,
    /// Set an alternate Pacman configuration file.
    pub config: Option<String>,
    /// Always ask for confirmation.
    pub confirm: bool,
    /// Display Pacman debug messages.
    pub debug: bool,
    /// Set an alternate database location.
    pub dbpath: Option<String>,
    /// Use relaxed timeouts for download.
    pub disable_download_timeout: bool,
    /// Set an alternate home directory for GnuPG.
    pub gpgdir: Option<String>,
    /// Set an alternate hook location.
    pub hookdir: Option<String>,
    /// Set an alternate log file.
    pub logfile: Option<String>,
    /// Produce machine-readable output.
    pub machinereadable: bool,
    /// Do not ask for any confirmation.
    pub noconfirm: bool,
    /// Set an alternate installation root.
    pub root: Option<String>,
    /// Operate on a mounted guest system (root-only).
    pub sysroot: bool,
    /// Files to search.
    pub files: Vec<String>,
}

impl Files {
    /// No flag of the subcommand is set and no argument is given.
    pub open spec fn is_unset(&self) -> bool {
        &&& !self.list
        &&& !self.quiet
        &&& !self.verbose
        &&& !self.regex
        &&& self.refresh == 0
        &&& self.arch is None
        &&& self.color is None
        &&& self.config is None
        &&& !self.confirm
        &&& !self.debug
        &&& self.dbpath is None
        &&& !self.disable_download_timeout
        &&& self.gpgdir is None
        &&& self.hookdir is None
        &&& self.logfile is None
        &&& !self.machinereadable
        &&& !self.noconfirm
        &&& self.root is None
        &&& !self.sysroot
        &&& self.files@.len() == 0
    }

    /// `-F` only reads, unless `--refresh` makes it write the files database.
    pub open spec fn elevates(&self) -> bool {
        self.refresh > 0
    }

    /// Does this `-F` subflag need sudo?
    pub fn needs_sudo(&self) -> (sudo: bool)
        ensures
            sudo == self.elevates(),
    {
        self.refresh > 0
    }
}

impl Default for Files {
    /// The subcommand as it is when the command line names it and nothing else.
    fn default() -> (flags: Self)
        ensures
            flags.is_unset(),
    {
        Files {
            list: false,
            quiet: false,
            verbose: false,
            regex: false,
            refresh: 0,
            arch: None,
            color: None,
            config: None,
            confirm: false,
            debug: false,
            dbpath: None,
            disable_download_timeout: false,
            gpgdir: None,
            hookdir: None,
            logfile: None,
            machinereadable: false,
            noconfirm: false,
            root: None,
            sysroot: false,
            files: Vec::new(),
        }
    }
}

/// Remove packages from the system.
#[derive(Debug)]
pub struct Remove {
    /// Remove packages and all packages that depend on them.
    pub cascade: bool,
    /// Skip dependency version checks (-dd to skip all checks).
    pub nodeps: bool,
    /// Remove configuration files.
    pub nosave: bool,
    /// Print the targets instead of performing the operation.
    pub print: bool,
    /// Remove unnecessary dependencies (-ss includes explicitly installed dependencies).
    pub recursive: bool,
    /// Remove unneeded packages.
    pub unneeded: bool,
    /// Be verbose.
    pub verbose: bool,
    /// Set an alternate architecture.
    pub arch: Option<String>,
    /// Add a virtual package to satisfy dependencies.
    pub assumed_installed: Option<String>,
    /// Set an alternate package cache location.
    pub cachedir: Option<String>,
    /// Colorize the output.
    pub color: Option<String>,
    /// Set an alternate Pacman configuration file.
    pub config: Option<String>,
    /// Always ask for confirmation.
    pub confirm: bool,
    /// Only modify database entries, not package files.
    pub dbonly: bool,
    /// Set an alternate database location.
    pub dbpath: Option<String>,
    /// Display Pacman debug messages.
    pub debug: bool,
    /// Use relaxed timeouts for download.
    pub disable_download_timeout: bool,
    /// Set an alternate home directory for GnuPG.
    pub gpgdir: Option<String>,
    /// Set an alternate hook location.
    pub hookdir: Option<String>,
    /// Set an alternate log file.
    pub logfile: Option<String>,
    /// Do not ask for any confirmation.
    pub noconfirm: bool,
    /// Do not show a progress bar when downloading files.
    pub noprogressbar: bool,
    /// Do not execute the install scriptlet if one exists.
    pub noscriptlet: bool,
    /// Specify how the targets should be printed.
    pub print_format: Option<String>,
    /// Set an alternate installation root.
    pub root: Option<String>,
    /// Operate on a mounted guest system (root-only).
    pub sysroot: bool,
    /// Packages to remove.
    pub packages: Vec<String>,
}

impl Remove {
    /// No flag of the subcommand is set and no argument is given.
    pub open spec fn is_unset(&self) -> bool {
        &&& !self.cascade
        &&& !self.nodeps
        &&& !self.nosave
        &&& !self.print
        &&& !self.recursive
        &&& !self.unneeded
        &&& !self.verbose
        &&& self.arch is None
        &&& self.assumed_installed is None
        &&& self.cachedir is None
        &&& self.color is None
        &&& self.config is None
        &&& !self.confirm
        &&& !self.dbonly
        &&& self.dbpath is None
        &&& !self.debug
        &&& !self.disable_download_timeout
        &&& self.gpgdir is None
        &&& self.hookdir is None
        &&& self.logfile is None
        &&& !self.noconfirm
        &&& !self.noprogressbar
        &&& !self.noscriptlet
        &&& self.print_format is None
        &&& self.root is None
        &&& !self.sysroot
        &&& self.packages@.len() == 0
    }

    /// `-R` removes, and so runs elevated, unless `--print` is set.
    pub open spec fn elevates(&self) -> bool {
        !self.print
    }

    /// Does this `-R` subflag need sudo?
    pub fn needs_sudo(&self) -> (sudo: bool)
        ensures
            sudo == self.elevates(),
    {
        !self.print
    }
}

impl Default for Remove {
    /// The subcommand as it is when the command line names it and nothing else.
    fn default() -> (flags: Self)
        ensures
            flags.is_unset(),
    {
        Remove {
            cascade: false,
            nodeps: false,
            nosave: false,
            print: false,
            recursive: false,
            unneeded: false,
            verbose: false,
            arch: None,
            assumed_installed: None,
            cachedir: None,
            color: None,
            config: None,
            confirm: false,
            dbonly: false,
            dbpath: None,
            debug: false,
            disable_download_timeout: false,
            gpgdir: None,
            hookdir: None,
            logfile: None,
            noconfirm: false,
            noprogressbar: false,
            noscriptlet: false,
            print_format: None,
            root: None,
            sysroot: false,
            packages: Vec::new(),
        }
    }
}

/// Operate on the package database.
#[derive(Debug)]
pub struct Database {
    /// Test local database for validity (-kk for sync databases).
    pub check: u8,
    /// Show less information for query and search.
    pub quiet: bool,
    /// Be verbose.
    pub verbose: bool,
    /// Set an alternate architecture.
    pub arch: Option<String>,
    /// Mark packages as non-explicitly installed.
    pub asdeps: bool,
    /// Mark packages as explicitly installed.
    pub asexplicit: bool,
    /// Colorize the output.
    pub color: Option<String>,
    /// Set an alternate Pacman configuration file.
    pub config: Option<String>,
    /// Always ask for confirmation.
    pub confirm: bool,
    /// Set an alternate database location.
    pub dbpath: Option<String>,
    /// Display Pacman debug messages.
    pub debug: bool,
    /// Use relaxed timeouts for download.
    pub disable_download_timeout: bool,
    /// Set an alternate home directory for GnuPG.
    pub gpgdir: Option<String>,
    /// Set an alternate hook location.
    pub hookdir: Option<String>,
    /// Set an alternate log file.
    pub logfile: Option<String>,
    /// Do not ask for any confirmation.
    pub noconfirm: bool,
    /// Set an alternate installation root.
    pub root: Option<String>,
    /// Operate on a mounted guest system (root-only).
    pub sysroot: bool,
    /// Packages to modify.
    pub packages: Vec<String>,
}

impl Database {
    /// No flag of the subcommand is set and no argument is given.
    pub open spec fn is_unset(&self) -> bool {
        &&& self.check == 0
        &&& !self.quiet
        &&& !self.verbose
        &&& self.arch is None
        &&& !self.asdeps
        &&& !self.asexplicit
        &&& self.color is None
        &&& self.config is None
        &&& !self.confirm
        &&& self.dbpath is None
        &&& !self.debug
        &&& !self.disable_download_timeout
        &&& self.gpgdir is None
        &&& self.hookdir is None
        &&& self.logfile is None
        &&& !self.noconfirm
        &&& self.root is None
        &&& !self.sysroot
        &&& self.packages@.len() == 0
    }

    /// `-D` only reads, unless `--asdeps` or `--asexplicit` changes an install reason.
    pub open spec fn elevates(&self) -> bool {
        self.asdeps || self.asexplicit
    }

    /// Does this `-D` subflag need sudo?
    pub fn needs_sudo(&self) -> (sudo: bool)
        ensures
            sudo == self.elevates(),
    {
        self.asdeps || self.asexplicit
    }
}

impl Default for Database {
    /// The subcommand as it is when the command line names it and nothing else.
    fn default() -> (flags: Self)
        ensures
            flags.is_unset(),
    {
        Database {
            check: 0,
            quiet: false,
            verbose: false,
            arch: None,
            asdeps: false,
            asexplicit: false,
            color: None,
            config: None,
            confirm: false,
            dbpath: None,
            debug: false,
            disable_download_timeout: false,
            gpgdir: None,
            hookdir: None,
            logfile: None,
            noconfirm: false,
            root: None,
            sysroot: false,
            packages: Vec::new(),
        }
    }
}

/// Query the package database.
#[derive(Debug)]
pub struct Query {
    /// View the changelog of a package.
    pub changelog: bool,
    /// List packages installed as dependencies [filter].
    pub deps: bool,
    /// List packages explicitly installed [filter].
    pub explicit: bool,
    /// View all members of a package group.
    pub groups: bool,
    /// View package information (-ii for backup files).
    pub info: bool,
    /// Check that package files exist (-kk for file properties).
    pub check: u8,
    /// List the files owned by the queried package.
    pub list: bool,
    /// List installed packages not found in sync db(s) [filter].
    pub foreign: bool,
    /// List installed packages only found in sync db(s) [filter].
    /// Print the targets instead of performing the operation.
    pub native: bool,
    /// Query the package that owns <file>.
    pub owns: Option<String>,
    /// Query a package file instead of the database.
    pub file: Option<String>,
    /// Show less information for query and search.
    pub quiet: bool,
    /// Search remote repositories for matching strings.
    pub search: bool,
    /// List packages not (optionally) required by any package (-tt to ignore optdepends) [filter].
    pub unrequired: bool,
    /// List outdated packages [filter].
    pub upgrades: bool,
    /// Be verbose.
    pub verbose: bool,
    /// Set an alternate architecture.
    pub arch: Option<String>,
    /// Set an alternate package cache location.
    pub cachedir: Option<String>,
    /// Colorize the output.
    pub color: Option<String>,
    /// Set an alternate Pacman configuration file.
    pub config: Option<String>,
    /// Always ask for confirmation.
    pub confirm: bool,
    /// Display Pacman debug messages.
    pub debug: bool,
    /// Set an alternate database location.
    pub dbpath: Option<String>,
    /// Use relaxed timeouts for download.
    pub disable_download_timeout: bool,
    /// Set an alternate home directory for GnuPG.
    pub gpgdir: Option<String>,
    /// Set an alternate hook location.
    pub hookdir: Option<String>,
    /// Set an alternate log file.
    pub logfile: Option<String>,
    /// Do not ask for any confirmation.
    pub noconfirm: bool,
    /// Set an alternate installation root.
    pub root: Option<String>,
    /// Operate on a mounted guest system (root-only).
    pub sysroot: bool,
    /// Packages to query.
    pub packages: Vec<String>,
}

impl Query {
    /// No flag of the subcommand is set and no argument is given.
    pub open spec fn is_unset(&self) -> bool {
        &&& !self.changelog
        &&& !self.deps
        &&& !self.explicit
        &&& !self.groups
        &&& !self.info
        &&& self.check == 0
        &&& !self.list
        &&& !self.foreign
        &&& !self.native
        &&& self.owns is None
        &&& self.file is None
        &&& !self.quiet
        &&& !self.search
        &&& !self.unrequired
        &&& !self.upgrades
        &&& !self.verbose
        &&& self.arch is None
        &&& self.cachedir is None
        &&& self.color is None
        &&& self.config is None
        &&& !self.confirm
        &&& !self.debug
        &&& self.dbpath is None
        &&& !self.disable_download_timeout
        &&& self.gpgdir is None
        &&& self.hookdir is None
        &&& self.logfile is None
        &&& !self.noconfirm
        &&& self.root is None
        &&& !self.sysroot
        &&& self.packages@.len() == 0
    }
}

impl Default for Query {
    /// The subcommand as it is when the command line names it and nothing else.
    fn default() -> (flags: Self)
        ensures
            flags.is_unset(),
    {
        Query {
            changelog: false,
            deps: false,
            explicit: false,
            groups: false,
            info: false,
            check: 0,
            list: false,
            foreign: false,
            native: false,
            owns: None,
            file: None,
            quiet: false,
            search: false,
            unrequired: false,
            upgrades: false,
            verbose: false,
            arch: None,
            cachedir: None,
            color: None,
            config: None,
            confirm: false,
            debug: false,
            dbpath: None,
            disable_download_timeout: false,
            gpgdir: None,
            hookdir: None,
            logfile: None,
            noconfirm: false,
            root: None,
            sysroot: false,
            packages: Vec::new(),
        }
    }
}

} // verus!
