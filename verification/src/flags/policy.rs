//! What holds of the elevation decision for every combination of flags.
//!
//! A flag that changes what the system records elevates, whatever else is
//! set. Without one, a subcommand that changes the system runs elevated
//! unless a flag turns the run into a report, and a subcommand that reads
//! does not run elevated. Each decision is a disjunction over a few deciding
//! flags.

use vstd::prelude::*;
use crate::flags::{Database, Files, Remove, SubCmd, Sync, Upgrade};

verus! {

/// `-S`: a flag that changes what the system records elevates, whatever
/// else is set.
pub proof fn lemma_sync_changes_always_elevate(flags: Sync)
    ensures
        flags.asdeps ==> flags.elevates(),
        flags.asexplicit ==> flags.elevates(),
        flags.refresh > 0 ==> flags.elevates(),
{
}

/// `-S`: where no flag changes what the system records, one reporting flag
/// is enough to run without elevation, whatever else is set; with none of
/// them the run is elevated.
pub proof fn lemma_sync_reports_do_not_elevate(flags: Sync)
    requires
        !flags.asdeps,
        !flags.asexplicit,
        flags.refresh == 0,
    ensures
        flags.info@.len() > 0 ==> !flags.elevates(),
        flags.search@.len() > 0 ==> !flags.elevates(),
        flags.list is Some ==> !flags.elevates(),
        flags.print ==> !flags.elevates(),
        flags.info@.len() == 0 && flags.search@.len() == 0 && flags.list is None && !flags.print
            ==> flags.elevates(),
{
}

/// `-S`: two flag sets that agree on the three flags that change what the
/// system records and on the four reporting flags get the same decision.
pub proof fn lemma_sync_decided_by_deciding_flags(a: Sync, b: Sync)
    requires
        a.asdeps == b.asdeps,
        a.asexplicit == b.asexplicit,
        (a.refresh > 0) == (b.refresh > 0),
        (a.info@.len() > 0) == (b.info@.len() > 0),
        (a.search@.len() > 0) == (b.search@.len() > 0),
        (a.list is Some) == (b.list is Some),
        a.print == b.print,
    ensures
        a.elevates() == b.elevates(),
{
}

/// `-U`: `--asdeps` and `--asexplicit` elevate, whatever else is set;
/// without them the decision is the negation of `--print`. Two flag sets
/// that agree on the three get the same decision.
pub proof fn lemma_upgrade_decided_by_deciding_flags(a: Upgrade, b: Upgrade)
    requires
        a.asdeps == b.asdeps,
        a.asexplicit == b.asexplicit,
        a.print == b.print,
    ensures
        a.elevates() == b.elevates(),
        a.asdeps ==> a.elevates(),
        a.asexplicit ==> a.elevates(),
        !a.asdeps && !a.asexplicit ==> a.elevates() == !a.print,
{
}

/// `-R`: the decision is the negation of `--print`, so two flag sets that
/// agree on it get the same decision.
pub proof fn lemma_remove_decided_by_print(a: Remove, b: Remove)
    requires
        a.print == b.print,
    ensures
        a.elevates() == b.elevates(),
        a.print ==> !a.elevates(),
        !a.print ==> a.elevates(),
{
}

/// `-F`: any `--refresh` elevates, whatever else is set, and nothing else does.
pub proof fn lemma_files_decided_by_refresh(a: Files, b: Files)
    requires
        (a.refresh > 0) == (b.refresh > 0),
    ensures
        a.elevates() == b.elevates(),
        a.refresh > 0 ==> a.elevates(),
        a.refresh == 0 ==> !a.elevates(),
{
}

/// `-D`: either of `--asdeps` and `--asexplicit` elevates, whatever else is
/// set, and nothing else does.
pub proof fn lemma_database_decided_by_install_reason(a: Database, b: Database)
    requires
        a.asdeps == b.asdeps,
        a.asexplicit == b.asexplicit,
    ensures
        a.elevates() == b.elevates(),
        a.asdeps ==> a.elevates(),
        a.asexplicit ==> a.elevates(),
        !a.asdeps && !a.asexplicit ==> !a.elevates(),
{
}

/// With no flag set, the subcommands that change the system elevate and those
/// that read do not.
pub proof fn lemma_unset_flags(s: Sync, u: Upgrade, r: Remove, f: Files, d: Database)
    requires
        s.is_unset(),
        u.is_unset(),
        r.is_unset(),
        f.is_unset(),
        d.is_unset(),
    ensures
        s.elevates(),
        u.elevates(),
        r.elevates(),
        !f.elevates(),
        !d.elevates(),
{
}

/// Only the five subcommands that are handed on to the package manager and can
/// change the system ever start elevated.
pub proof fn lemma_only_system_subcommands_elevate(cmd: SubCmd)
    requires
        cmd.elevates(),
    ensures
        cmd is Database || cmd is Files || cmd is Remove || cmd is Sync || cmd is Upgrade,
{
}

} // verus!
