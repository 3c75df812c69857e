//! The command line as parsed values: the top-level options, the subcommands
//! and the decision whether a subcommand must run with elevated rights.

use vstd::prelude::*;
use crate::package::texts;

pub mod aura;
pub mod pacman;
pub mod policy;

pub use aura::{Analysis, Aur, Backup, Cache, Check, Conf, Deps, Home, Log, Open, Orphans, Stats};
pub use pacman::{Database, DepTest, Files, Query, Remove, Sync, Upgrade};

verus! {

/// A language that messages can be shown in.
#[derive(Debug, Clone, Copy, PartialEq, Eq, Structural)]
pub enum Language {
    /// American English.
    English,
    /// German as written in Germany.
    German,
    /// Japanese as written in Japan.
    Japanese,
}

impl Language {
    /// The standardized language code.
    pub open spec fn code(self) -> Seq<char> {
        match self {
            Language::English => "en-US"@,
            Language::German => "de-DE"@,
            Language::Japanese => "ja-JP"@,
        }
    }

    /// The standardized language code, as text.
    pub fn tag(self) -> (tag: &'static str)
        ensures
            tag@ == self.code(),
    {
        match self {
            Language::English => "en-US",
            Language::German => "de-DE",
            Language::Japanese => "ja-JP",
        }
    }
}

/// The least severity at which a log message is shown.
#[derive(Debug, Clone, Copy, PartialEq, Eq, Structural)]
pub enum LogLevel {
    /// Show nothing.
    Off,
    /// Show errors only.
    Error,
    /// Show warnings and errors.
    Warn,
    /// Show informational messages and above.
    Info,
    /// Show debugging messages and above.
    Debug,
    /// Show everything.
    Trace,
}

/// A day of the calendar, as given to `--before` and `--after`.
#[derive(Debug, Clone, Copy, PartialEq, Eq, Structural)]
pub struct Date {
    /// The year.
    pub year: u16,
    /// The month, from 1 for January.
    pub month: u8,
    /// The day of the month, from 1.
    pub day: u8,
}

/// Whether a year has a 29th of February.
pub open spec fn is_leap_year(year: int) -> bool {
    year % 4 == 0 && (year % 100 != 0 || year % 400 == 0)
}

/// The number of days of a month; 0 where the month is none.
pub open spec fn days_in_month(year: int, month: int) -> int {
    if month == 2 {
        if is_leap_year(year) {
            29
        } else {
            28
        }
    } else if month == 4 || month == 6 || month == 9 || month == 11 {
        30
    } else if 1 <= month <= 12 {
        31
    } else {
        0
    }
}

impl Date {
    /// The date exists in the calendar.
    pub open spec fn is_valid(self) -> bool {
        1 <= self.day <= days_in_month(self.year as int, self.month as int)
    }

    /// The date, where the calendar has it.
    pub fn new(year: u16, month: u8, day: u8) -> (date: Option<Date>)
        ensures
            date == if (Date { year, month, day }).is_valid() {
                Some(Date { year, month, day })
            } else {
                None
            },
    {
        let leap = year % 4 == 0 && (year % 100 != 0 || year % 400 == 0);
        let days: u8 = if month == 2 {
            if leap {
                29
            } else {
                28
            }
        } else if month == 4 || month == 6 || month == 9 || month == 11 {
            30
        } else if 1 <= month && month <= 12 {
            31
        } else {
            0
        };
        if 1 <= day && day <= days {
            Some(Date { year, month, day })
        } else {
            None
        }
    }

    /// Whether this date lies before the other.
    pub open spec fn precedes(self, other: Date) -> bool {
        self.year < other.year || (self.year == other.year && (self.month < other.month || (
        self.month == other.month && self.day < other.day)))
    }

    /// Whether this date lies before the other.
    pub fn is_before(&self, other: &Date) -> (before: bool)
        ensures
            before == self.precedes(*other),
    {
        self.year < other.year || (self.year == other.year && (self.month < other.month || (
        self.month == other.month && self.day < other.day)))
    }
}

/// Whether an argument is one of the global options that only this front end
/// knows: `--english`, `--japanese` and `--german`.
pub open spec fn aura_global(arg: Seq<char>) -> bool {
    arg == "--english"@ || arg == "--japanese"@ || arg == "--german"@
}

/// The arguments without the global options that only this front end knows, in their order.
pub open spec fn without_aura_globals(args: Seq<String>) -> Seq<Seq<char>>
    decreases args.len(),
{
    if args.len() == 0 {
        Seq::empty()
    } else if aura_global(args.last()@) {
        without_aura_globals(args.drop_last())
    } else {
        without_aura_globals(args.drop_last()).push(args.last()@)
    }
}

/// Whether an argument is a global option that must be removed from the
/// arguments before they are sent to the package manager.
pub fn is_aura_global(arg: &String) -> (global: bool)
    ensures
        global == aura_global(arg@),
{
    let english = "--english".to_owned();
    let japanese = "--japanese".to_owned();
    let german = "--german".to_owned();
    *arg == english || *arg == japanese || *arg == german
}

/// The arguments to send to the package manager: those given, without the
/// global options that only this front end knows.
pub fn pacman_args(args: &Vec<String>) -> (kept: Vec<String>)
    ensures
        texts(kept@) == without_aura_globals(args@),
{
    let mut kept: Vec<String> = Vec::new();
    let mut i: usize = 0;
    assert(args@.subrange(0, 0) =~= Seq::empty());
    assert(texts(kept@) =~= Seq::empty());
    while i < args.len()
        invariant
            i <= args.len(),
            texts(kept@) == without_aura_globals(args@.subrange(0, i as int)),
        decreases args.len() - i,
    {
        let ghost before = texts(kept@);
        assert(args@.subrange(0, i + 1).drop_last() =~= args@.subrange(0, i as int));
        if !is_aura_global(&args[i]) {
            kept.push(args[i].clone());
            assert(texts(kept@) =~= before.push(args[i as int]@));
        }
        i += 1;
    }
    assert(args@.subrange(0, i as int) =~= args@);
    kept
}

/// Commandline arguments to the executable.
#[derive(Debug)]
pub struct Args {
    /// Output in English.
    pub english: bool,
    /// Output in Japanese.
    pub japanese: bool,
    /// Output in German.
    pub german: bool,
    /// Minimum level of log messages to display.
    pub log_level: Option<LogLevel>,
    /// The subcommand to run.
    pub subcmd: SubCmd,
}

impl Args {
    /// The language that the flags select: English before German before Japanese.
    pub open spec fn chosen_language(&self) -> Option<Language> {
        if self.english {
            Some(Language::English)
        } else if self.german {
            Some(Language::German)
        } else if self.japanese {
            Some(Language::Japanese)
        } else {
            None
        }
    }

    /// If a language flag was given on the command line, extract the
    /// corresponding language.
    pub fn language(&self) -> (lang: Option<Language>)
        ensures
            lang == self.chosen_language(),
    {
        if self.english {
            Some(Language::English)
        } else if self.german {
            Some(Language::German)
        } else if self.japanese {
            Some(Language::Japanese)
        } else {
            None
        }
    }
}

/// The subcommand that a command line names, with its flags.
#[derive(Debug)]
pub enum SubCmd {
    /// Operate on the package database.
    Database(Database),
    /// Query the files database.
    Files(Files),
    /// Query the package database.
    Query(Query),
    /// Remove packages from the system.
    Remove(Remove),
    /// Synchronize official packages.
    Sync(Sync),
    /// Check if given dependencies are satisfied.
    DepTest(DepTest),
    /// Upgrade or add packages to the system.
    Upgrade(Upgrade),
    /// Synchronize AUR packages.
    Aur(Aur),
    /// Save and restore the global package state.
    Backup(Backup),
    /// Manage the package cache.
    Cache(Cache),
    /// View the package manager's log.
    Log(Log),
    /// Handle orphan packages.
    Orphans(Orphans),
    /// Validate your system.
    Check(Check),
    /// View various configuration settings and files.
    Conf(Conf),
    /// Output a dependency graph in DOT format.
    Deps(Deps),
    /// Manage a consistent system environment.
    Home(Home),
    /// Open various webpages.
    Open(Open),
    /// View statistics about your machine.
    Stats(Stats),
}

impl SubCmd {
    /// Whether the subcommand must be started with elevated rights.
    ///
    /// The five subcommands that can change the system decide by their flags.
    /// `-Q` and `-T` only read. The subcommands that this front end serves
    /// itself start without elevation: they ask for it at the one step that
    /// installs or removes.
    pub open spec fn elevates(&self) -> bool {
        match self {
            SubCmd::Database(d) => d.elevates(),
            SubCmd::Files(f) => f.elevates(),
            SubCmd::Remove(r) => r.elevates(),
            SubCmd::Sync(s) => s.elevates(),
            SubCmd::Upgrade(u) => u.elevates(),
            _ => false,
        }
    }

    /// Must the subcommand be started with elevated rights?
    pub fn needs_sudo(&self) -> (sudo: bool)
        ensures
            sudo == self.elevates(),
    {
        match self {
            SubCmd::Database(d) => d.needs_sudo(),
            SubCmd::Files(f) => f.needs_sudo(),
            SubCmd::Remove(r) => r.needs_sudo(),
            SubCmd::Sync(s) => s.needs_sudo(),
            SubCmd::Upgrade(u) => u.needs_sudo(),
            _ => false,
        }
    }
}

} // verus!
