use aura_pm::flags::{is_aura_global, pacman_args, Date, Language};
use aura_pm::viewer::{languages, pacman_conf, viewer, ViewCommand, BAT, DEFAULT_PAC_CONF, LESS};

#[test]
fn viewer_prefers_bat() {
    assert_eq!(viewer(true), "/bin/bat");
    assert_eq!(viewer(false), "/bin/less");
    assert_eq!(BAT, "/bin/bat");
    assert_eq!(LESS, "/bin/less");
}

#[test]
fn pacman_conf_shows_the_default_file() {
    assert_eq!(
        pacman_conf(None, false),
        ViewCommand { program: "/bin/less", file: "/etc/pacman.conf".to_string() }
    );
    assert_eq!(DEFAULT_PAC_CONF, "/etc/pacman.conf");
}

#[test]
fn pacman_conf_shows_the_given_file() {
    assert_eq!(
        pacman_conf(Some("/tmp/other.conf".to_string()), true),
        ViewCommand { program: "/bin/bat", file: "/tmp/other.conf".to_string() }
    );
}

#[test]
fn languages_are_those_of_the_flags() {
    assert_eq!(languages(), vec![Language::English, Language::German, Language::Japanese]);
}

#[test]
fn aura_globals_are_the_language_flags() {
    assert!(is_aura_global(&"--english".to_string()));
    assert!(is_aura_global(&"--japanese".to_string()));
    assert!(is_aura_global(&"--german".to_string()));
    assert!(!is_aura_global(&"--englis".to_string()));
    assert!(!is_aura_global(&"--noconfirm".to_string()));
    assert!(!is_aura_global(&"".to_string()));
}

#[test]
fn pacman_args_drop_the_aura_globals() {
    let args: Vec<String> =
        ["-S", "--japanese", "firefox", "--noconfirm", "--english", "--german"].iter().map(|s| s.to_string()).collect();
    assert_eq!(pacman_args(&args), vec!["-S".to_string(), "firefox".to_string(), "--noconfirm".to_string()]);
    assert_eq!(pacman_args(&Vec::new()), Vec::<String>::new());
}

#[test]
fn dates_follow_the_calendar() {
    assert_eq!(Date::new(2024, 2, 29), Some(Date { year: 2024, month: 2, day: 29 }));
    assert_eq!(Date::new(2023, 2, 29), None);
    assert_eq!(Date::new(1900, 2, 29), None);
    assert_eq!(Date::new(2000, 2, 29), Some(Date { year: 2000, month: 2, day: 29 }));
    assert_eq!(Date::new(2024, 4, 31), None);
    assert_eq!(Date::new(2024, 12, 31), Some(Date { year: 2024, month: 12, day: 31 }));
    assert_eq!(Date::new(2024, 13, 1), None);
    assert_eq!(Date::new(2024, 0, 1), None);
    assert_eq!(Date::new(2024, 1, 0), None);
}

#[test]
fn dates_are_ordered() {
    let a = Date { year: 2023, month: 12, day: 31 };
    let b = Date { year: 2024, month: 1, day: 1 };
    let c = Date { year: 2024, month: 1, day: 2 };
    assert!(a.is_before(&b));
    assert!(b.is_before(&c));
    assert!(!c.is_before(&b));
    assert!(!b.is_before(&b));
}
