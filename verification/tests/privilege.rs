use aura_pm::flags::{Args, Database, DepTest, Files, Language, Query, Remove, SubCmd, Sync, Upgrade};

#[test]
fn remove_without_flags_needs_sudo() {
    let flags = Remove::default();
    assert!(flags.needs_sudo());
}

#[test]
fn remove_with_only_print_needs_no_sudo() {
    let flags = Remove { print: true, ..Remove::default() };
    assert!(!flags.needs_sudo());
}

#[test]
fn remove_print_wins_over_other_flags() {
    let flags = Remove {
        print: true,
        cascade: true,
        recursive: true,
        packages: vec!["firefox".to_string()],
        ..Remove::default()
    };
    assert!(!flags.needs_sudo());
}

#[test]
fn sync_without_flags_needs_sudo() {
    assert!(Sync::default().needs_sudo());
}

#[test]
fn sync_info_needs_no_sudo() {
    let flags = Sync { info: vec!["linux".to_string()], ..Sync::default() };
    assert!(!flags.needs_sudo());
}

#[test]
fn sync_search_needs_no_sudo() {
    let flags = Sync { search: vec!["linux".to_string()], ..Sync::default() };
    assert!(!flags.needs_sudo());
}

#[test]
fn sync_list_needs_no_sudo() {
    let flags = Sync { list: Some("core".to_string()), ..Sync::default() };
    assert!(!flags.needs_sudo());
}

#[test]
fn sync_print_needs_no_sudo() {
    let flags = Sync { print: true, sysupgrade: 1, quiet: true, ..Sync::default() };
    assert!(!flags.needs_sudo());
}

#[test]
fn sync_print_with_asdeps_needs_sudo() {
    let flags = Sync { print: true, asdeps: true, ..Sync::default() };
    assert!(flags.needs_sudo());
    let flags = Sync { print: true, asexplicit: true, ..Sync::default() };
    assert!(flags.needs_sudo());
}

#[test]
fn sync_search_with_refresh_needs_sudo() {
    let flags = Sync { search: vec!["firefox".to_string()], refresh: 1, ..Sync::default() };
    assert!(flags.needs_sudo());
    let flags = Sync { print: true, refresh: 2, ..Sync::default() };
    assert!(flags.needs_sudo());
    let flags = Sync { info: vec!["linux".to_string()], refresh: 1, ..Sync::default() };
    assert!(flags.needs_sudo());
    let flags = Sync { list: Some("core".to_string()), refresh: 1, ..Sync::default() };
    assert!(flags.needs_sudo());
}

#[test]
fn sync_upgrade_and_refresh_need_sudo() {
    let flags = Sync { sysupgrade: 1, refresh: 1, asdeps: true, ..Sync::default() };
    assert!(flags.needs_sudo());
}

#[test]
fn upgrade_needs_sudo_unless_print() {
    assert!(Upgrade::default().needs_sudo());
    let flags = Upgrade { print: true, verbose: true, needed: true, ..Upgrade::default() };
    assert!(!flags.needs_sudo());
}

#[test]
fn upgrade_print_with_install_reason_needs_sudo() {
    let flags = Upgrade { print: true, asdeps: true, ..Upgrade::default() };
    assert!(flags.needs_sudo());
    let flags = Upgrade { print: true, asexplicit: true, ..Upgrade::default() };
    assert!(flags.needs_sudo());
    let flags = Upgrade { asdeps: true, ..Upgrade::default() };
    assert!(flags.needs_sudo());
}

#[test]
fn files_needs_sudo_only_to_refresh() {
    assert!(!Files::default().needs_sudo());
    let listing = Files { list: true, regex: true, ..Files::default() };
    assert!(!listing.needs_sudo());
    let once = Files { refresh: 1, ..Files::default() };
    assert!(once.needs_sudo());
    let twice = Files { refresh: 2, list: true, ..Files::default() };
    assert!(twice.needs_sudo());
}

#[test]
fn database_needs_sudo_to_change_install_reason() {
    assert!(!Database::default().needs_sudo());
    let check = Database { check: 2, ..Database::default() };
    assert!(!check.needs_sudo());
    let asdeps = Database { asdeps: true, ..Database::default() };
    assert!(asdeps.needs_sudo());
    let asexplicit = Database { asexplicit: true, quiet: true, ..Database::default() };
    assert!(asexplicit.needs_sudo());
    let both = Database { asdeps: true, asexplicit: true, ..Database::default() };
    assert!(both.needs_sudo());
}

#[test]
fn subcommand_decides_as_its_flags_do() {
    assert!(SubCmd::Remove(Remove::default()).needs_sudo());
    assert!(!SubCmd::Remove(Remove { print: true, ..Remove::default() }).needs_sudo());
    assert!(SubCmd::Sync(Sync::default()).needs_sudo());
    assert!(SubCmd::Upgrade(Upgrade::default()).needs_sudo());
    assert!(!SubCmd::Files(Files::default()).needs_sudo());
    assert!(!SubCmd::Database(Database::default()).needs_sudo());
    assert!(!SubCmd::Query(Query::default()).needs_sudo());
    assert!(!SubCmd::DepTest(DepTest::default()).needs_sudo());
}

#[test]
fn needs_sudo_gives_the_same_answer_twice() {
    let flags = Sync { quiet: true, verbose: true, ..Sync::default() };
    assert_eq!(flags.needs_sudo(), flags.needs_sudo());
}

fn args(english: bool, german: bool, japanese: bool) -> Args {
    Args { english, japanese, german, log_level: None, subcmd: SubCmd::Query(Query::default()) }
}

#[test]
fn language_follows_the_flag() {
    assert_eq!(args(false, false, false).language(), None);
    assert_eq!(args(true, false, false).language(), Some(Language::English));
    assert_eq!(args(false, true, false).language(), Some(Language::German));
    assert_eq!(args(false, false, true).language(), Some(Language::Japanese));
}

#[test]
fn language_prefers_english_then_german() {
    assert_eq!(args(true, true, true).language(), Some(Language::English));
    assert_eq!(args(false, true, true).language(), Some(Language::German));
}

#[test]
fn language_tags_are_standard_codes() {
    assert_eq!(Language::English.tag(), "en-US");
    assert_eq!(Language::German.tag(), "de-DE");
    assert_eq!(Language::Japanese.tag(), "ja-JP");
}
