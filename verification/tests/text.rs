use aura_pm::cache::CacheEntry;
use aura_pm::listing::{depends_of, installed_from_info, packages_from_lines, snapshot_from_lines};
use aura_pm::package::{InstalledPackage, PackageId};
use aura_pm::resolve::plan::PackageTarget;
use aura_pm::text::{chars_of, dependency_name, digit, field, find_char, find_last, find_operator, numbers, trim, words};
use aura_pm::version::{Constraint, Relation, Version};

fn strings(list: &[&str]) -> Vec<String> {
    list.iter().map(|s| s.to_string()).collect()
}

#[test]
fn numbers_are_the_runs_of_digits() {
    assert_eq!(numbers("1.12.3-2"), vec![1, 12, 3, 2]);
    assert_eq!(numbers("2:1.0rc3+r45.gabc9-1"), vec![2, 1, 0, 3, 45, 9, 1]);
    assert_eq!(numbers(""), Vec::<u64>::new());
    assert_eq!(numbers("none"), Vec::<u64>::new());
    assert_eq!(numbers("007"), vec![7]);
    assert_eq!(numbers("x0y"), vec![0]);
}

#[test]
fn numbers_stop_at_the_greatest() {
    assert_eq!(numbers("18446744073709551615"), vec![u64::MAX]);
    assert_eq!(numbers("18446744073709551616"), vec![u64::MAX]);
    assert_eq!(numbers("18446744073709551614.5"), vec![u64::MAX - 1, 5]);
    assert_eq!(numbers("99999999999999999999999999"), vec![u64::MAX]);
}

#[test]
fn digits_have_their_value() {
    assert_eq!(digit('0'), Some(0));
    assert_eq!(digit('9'), Some(9));
    assert_eq!(digit('/'), None);
    assert_eq!(digit(':'), None);
    assert_eq!(digit('a'), None);
}

#[test]
fn version_parse_reads_the_numbers() {
    assert_eq!(Version::parse("9.1.0-2"), Version::new(vec![9, 1, 0, 2]));
    assert!(Version::parse("1.10").is_newer_than(&Version::parse("1.9")));
}

#[test]
fn words_are_split_at_blanks() {
    assert_eq!(words("a  b\tc"), strings(&["a", "b", "c"]));
    assert_eq!(words("  lead and trail  "), strings(&["lead", "and", "trail"]));
    assert_eq!(words(""), Vec::<String>::new());
    assert_eq!(words(" \t "), Vec::<String>::new());
    assert_eq!(words("one"), strings(&["one"]));
    assert_eq!(words("日本 語"), strings(&["日本", "語"]));
}

#[test]
fn trim_takes_the_blanks_around() {
    assert_eq!(trim("  a b \t"), "a b");
    assert_eq!(trim("a"), "a");
    assert_eq!(trim(""), "");
    assert_eq!(trim(" \t"), "");
    assert_eq!(trim("\tx"), "x");
}

#[test]
fn field_splits_at_the_first_separator() {
    assert_eq!(field("Name            : vim", ':'), Some(("Name".to_string(), "vim".to_string())));
    assert_eq!(field("URL : https://www.vim.org", ':'), Some(("URL".to_string(), "https://www.vim.org".to_string())));
    assert_eq!(field("no separator", ':'), None);
    assert_eq!(field(":", ':'), Some((String::new(), String::new())));
    assert_eq!(field("key =", '='), Some(("key".to_string(), String::new())));
}

#[test]
fn characters_are_found() {
    assert_eq!(chars_of("añb"), vec!['a', 'ñ', 'b']);
    assert_eq!(find_char("a:b:c", ':'), Some(1));
    assert_eq!(find_char("abc", ':'), None);
    assert_eq!(find_operator("glibc>=2"), Some(5));
    assert_eq!(find_operator("glibc"), None);
    let chars = chars_of("a-b-c");
    assert_eq!(find_last(&chars, '-', 5), Some(3));
    assert_eq!(find_last(&chars, '-', 3), Some(1));
    assert_eq!(find_last(&chars, '-', 1), None);
    assert_eq!(find_last(&chars, '-', 0), None);
}

#[test]
fn dependency_name_drops_the_demand() {
    assert_eq!(dependency_name("glibc>=2.39"), "glibc");
    assert_eq!(dependency_name("glibc"), "glibc");
    assert_eq!(dependency_name("java-runtime=17"), "java-runtime");
    assert_eq!(dependency_name(" spaced <1"), "spaced");
}

fn constraint(relation: Relation, numbers: &[u64]) -> Option<Constraint> {
    Some(Constraint { relation, version: Version::new(numbers.to_vec()) })
}

#[test]
fn targets_are_parsed_with_their_demand() {
    assert_eq!(PackageTarget::parse("vim"), PackageTarget::new("vim".to_string(), None));
    assert_eq!(
        PackageTarget::parse("glibc>=2.39"),
        PackageTarget::new("glibc".to_string(), constraint(Relation::GreaterOrEqual, &[2, 39]))
    );
    assert_eq!(
        PackageTarget::parse("glibc>2.39"),
        PackageTarget::new("glibc".to_string(), constraint(Relation::Greater, &[2, 39]))
    );
    assert_eq!(
        PackageTarget::parse("a<=1"),
        PackageTarget::new("a".to_string(), constraint(Relation::LessOrEqual, &[1]))
    );
    assert_eq!(PackageTarget::parse("a<1"), PackageTarget::new("a".to_string(), constraint(Relation::Less, &[1])));
    assert_eq!(
        PackageTarget::parse("a=1.0-3"),
        PackageTarget::new("a".to_string(), constraint(Relation::Equal, &[1, 0, 3]))
    );
    assert_eq!(PackageTarget::parse("a="), PackageTarget::new("a".to_string(), constraint(Relation::Equal, &[])));
}

#[test]
fn package_lines_hold_a_name_and_a_version() {
    assert_eq!(
        PackageId::parse("vim 9.1.0-2"),
        Some(PackageId::new("vim".to_string(), Version::new(vec![9, 1, 0, 2])))
    );
    assert_eq!(PackageId::parse("vim"), None);
    assert_eq!(PackageId::parse("vim 9 extra"), None);
    assert_eq!(PackageId::parse(""), None);
}

#[test]
fn tarball_names_tell_package_and_version() {
    let entry = CacheEntry::from_path("/var/cache/pacman/pkg/vim-9.1.0-2-x86_64.pkg.tar.zst".to_string(), true).unwrap();
    assert_eq!(entry.package_name, "vim");
    assert_eq!(entry.version, Version::new(vec![9, 1, 0, 2]));
    assert_eq!(entry.file_path, "/var/cache/pacman/pkg/vim-9.1.0-2-x86_64.pkg.tar.zst");
    assert!(entry.valid);
    let dashed = CacheEntry::from_path("xorg-server-21.1.13-1-x86_64.pkg.tar.zst".to_string(), false).unwrap();
    assert_eq!(dashed.package_name, "xorg-server");
    assert_eq!(dashed.version, Version::new(vec![21, 1, 13, 1]));
    assert!(!dashed.valid);
}

#[test]
fn other_files_are_no_tarballs() {
    assert_eq!(CacheEntry::from_path("/var/cache/pacman/pkg/readme".to_string(), true), None);
    assert_eq!(CacheEntry::from_path("a-b".to_string(), true), None);
    assert_eq!(CacheEntry::from_path("a-b-c".to_string(), true), None);
    assert_eq!(CacheEntry::from_path("-1-2-any".to_string(), true), None);
    assert_eq!(CacheEntry::from_path("/with-many-dashes-in/dir/file".to_string(), true), None);
    assert_eq!(CacheEntry::from_path(String::new(), true), None);
}

#[test]
fn depends_are_read_without_demands() {
    assert_eq!(depends_of(&"glibc>=2.39  ncurses  libgcc".to_string()), strings(&["glibc", "ncurses", "libgcc"]));
    assert_eq!(depends_of(&"None".to_string()), Vec::<String>::new());
    assert_eq!(depends_of(&"".to_string()), Vec::<String>::new());
}

#[test]
fn installed_packages_are_read_from_a_listing() {
    let lines = strings(&[
        "Name            : vim",
        "Version         : 9.1.0-2",
        "Description     : Vi Improved: a text editor",
        "Depends On      : vim-runtime=9.1.0-2  glibc  libgcc",
        "Install Reason  : Explicitly installed",
        "",
        "Name            : glibc",
        "Version         : 2.39-1",
        "Depends On      : None",
        "Install Reason  : Installed as a dependency for another package",
    ]);
    let system = installed_from_info(&lines);
    assert_eq!(
        system,
        vec![
            InstalledPackage::new(
                PackageId::new("vim".to_string(), Version::new(vec![9, 1, 0, 2])),
                true,
                strings(&["vim-runtime", "glibc", "libgcc"]),
            ),
            InstalledPackage::new(PackageId::new("glibc".to_string(), Version::new(vec![2, 39, 1])), false, Vec::new()),
        ]
    );
}

#[test]
fn fields_before_the_first_name_are_passed_over() {
    let lines = strings(&["Version : 3", "Name : a", "Unknown : x", "no field here"]);
    assert_eq!(
        installed_from_info(&lines),
        vec![InstalledPackage::new(PackageId::new("a".to_string(), Version::new(Vec::new())), false, Vec::new())]
    );
    assert_eq!(installed_from_info(&Vec::new()), Vec::new());
}

#[test]
fn snapshots_are_read_from_their_lines() {
    let lines = strings(&["vim 9.1.0-2", "", "broken", "firefox 120.0-1"]);
    let expected = vec![
        PackageId::new("vim".to_string(), Version::new(vec![9, 1, 0, 2])),
        PackageId::new("firefox".to_string(), Version::new(vec![120, 0, 1])),
    ];
    assert_eq!(packages_from_lines(&lines), expected);
    let snapshot = snapshot_from_lines(1700000000, &lines);
    assert_eq!(snapshot.timestamp, 1700000000);
    assert_eq!(snapshot.explicitly_installed, expected);
}
