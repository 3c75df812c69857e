//! Reading the lists that the package manager prints and that snapshots are kept in.

use vstd::prelude::*;
use crate::backup::Snapshot;
use crate::package::{identities, texts, InstalledPackage, PackageId};
use crate::text::{
    append_decimal,
    decimal,
    dependency_name,
    dependency_name_in,
    field,
    field_in,
    is_blank,
    is_digit,
    is_word,
    lemma_decimal_digits,
    lemma_one_word,
    lemma_scanned_decimal,
    lemma_scanned_numbers_prefix,
    lemma_two_words,
    numbers_in,
    scanned_numbers,
    words,
    words_in,
};
use vstd::string::StringExecFns;
use crate::version::Version;

verus! {

/// What a record of an installed package tells.
pub struct PackageRecord {
    /// The name of the package.
    pub name: Seq<char>,
    /// The numbers of its version.
    pub version: Seq<u64>,
    /// Whether it was explicitly installed.
    pub explicit: bool,
    /// The names of the packages that it depends on.
    pub depends: Seq<Seq<char>>,
}

/// What an installed package tells.
pub open spec fn record_of(package: InstalledPackage) -> PackageRecord {
    PackageRecord {
        name: package.id.name@,
        version: package.id.version@,
        explicit: package.explicit,
        depends: texts(package.depends@),
    }
}

/// What a list of installed packages tells.
pub open spec fn records_of(system: Seq<InstalledPackage>) -> Seq<PackageRecord> {
    system.map_values(|p: InstalledPackage| record_of(p))
}

/// The names in a list of dependencies, each without the demand on its version.
pub open spec fn dependency_names_in(list: Seq<Seq<char>>) -> Seq<Seq<char>> {
    list.map_values(|d: Seq<char>| dependency_name_in(d))
}

/// The names of the packages that the value of a `Depends On` field lists;
/// none where the value is `None`.
pub open spec fn depends_in(value: Seq<char>) -> Seq<Seq<char>> {
    if value == "None"@ {
        Seq::empty()
    } else {
        dependency_names_in(words_in(value))
    }
}

/// A record after one more field: the version, the reason of the
/// installation and the dependencies are taken from the fields of those
/// names, every other field is passed over.
pub open spec fn with_field(record: PackageRecord, key: Seq<char>, value: Seq<char>) -> PackageRecord {
    if key == "Version"@ {
        PackageRecord { version: numbers_in(value), ..record }
    } else if key == "Install Reason"@ {
        PackageRecord { explicit: value == "Explicitly installed"@, ..record }
    } else if key == "Depends On"@ {
        PackageRecord { depends: depends_in(value), ..record }
    } else {
        record
    }
}

/// The records with the one that is open, if one is.
pub open spec fn closed(done: Seq<PackageRecord>, open: Option<PackageRecord>) -> Seq<PackageRecord> {
    match open {
        Some(record) => done.push(record),
        None => done,
    }
}

/// The records that end within the first `n` lines, and the record that is
/// open after them. A field `Name` opens a record and ends the one before.
pub open spec fn scanned_info(lines: Seq<String>, n: int) -> (Seq<PackageRecord>, Option<PackageRecord>)
    decreases n,
{
    if n <= 0 {
        (Seq::empty(), None)
    } else {
        let (done, open) = scanned_info(lines, n - 1);
        match field_in(lines[n - 1]@, ':') {
            Some((key, value)) => if key == "Name"@ {
                (
                    closed(done, open),
                    Some(
                        PackageRecord {
                            name: value,
                            version: Seq::empty(),
                            explicit: false,
                            depends: Seq::empty(),
                        },
                    ),
                )
            } else {
                match open {
                    Some(record) => (done, Some(with_field(record, key, value))),
                    None => (done, None),
                }
            },
            None => (done, open),
        }
    }
}

/// The records that the lines of a package listing hold.
pub open spec fn info_records(lines: Seq<String>) -> Seq<PackageRecord> {
    let (done, open) = scanned_info(lines, lines.len() as int);
    closed(done, open)
}

/// The names of the packages that the value of a `Depends On` field lists.
pub fn depends_of(value: &String) -> (names: Vec<String>)
    ensures
        texts(names@) == depends_in(value@),
{
    let mut names: Vec<String> = Vec::new();
    if *value == "None".to_owned() {
        assert(texts(names@) =~= Seq::empty());
        return names;
    }
    let listed = words(value.as_str());
    let mut i: usize = 0;
    while i < listed.len()
        invariant
            i <= listed.len(),
            texts(listed@) == words_in(value@),
            names.len() == i,
            forall|k: int| 0 <= k < i ==> (#[trigger] names@[k])@ == dependency_name_in(listed@[k]@),
        decreases listed.len() - i,
    {
        names.push(dependency_name(listed[i].as_str()));
        i += 1;
    }
    assert(texts(names@) =~= dependency_names_in(texts(listed@)));
    names
}

/// Reads the installed packages from the lines of a listing with one field
/// to the line, as `Name : vim`. A package begins with its field `Name`; its
/// fields `Version`, `Install Reason` and `Depends On` are read, the others
/// and the lines without a field are passed over.
pub fn installed_from_info(lines: &Vec<String>) -> (system: Vec<InstalledPackage>)
    ensures
        records_of(system@) == info_records(lines@),
{
    let mut system: Vec<InstalledPackage> = Vec::new();
    let mut open: Option<InstalledPackage> = None;
    let mut i: usize = 0;
    assert(records_of(system@) =~= Seq::empty());
    while i < lines.len()
        invariant
            i <= lines.len(),
            records_of(system@) == scanned_info(lines@, i as int).0,
            match open {
                Some(package) => scanned_info(lines@, i as int).1 == Some(record_of(package)),
                None => scanned_info(lines@, i as int).1 is None,
            },
        decreases lines.len() - i,
    {
        if let Some((key, value)) = field(lines[i].as_str(), ':') {
            if key == "Name".to_owned() {
                if let Some(package) = open {
                    let ghost before = records_of(system@);
                    system.push(package);
                    assert(records_of(system@) =~= before.push(record_of(package)));
                }
                let fresh = InstalledPackage {
                    id: PackageId { name: value, version: Version::new(Vec::new()) },
                    explicit: false,
                    depends: Vec::new(),
                };
                assert(texts(fresh.depends@) =~= Seq::empty());
                open = Some(fresh);
            } else if let Some(package) = open {
                let mut package = package;
                if key == "Version".to_owned() {
                    package.id.version = Version::parse(value.as_str());
                } else if key == "Install Reason".to_owned() {
                    package.explicit = value == "Explicitly installed".to_owned();
                } else if key == "Depends On".to_owned() {
                    package.depends = depends_of(&value);
                }
                open = Some(package);
            }
        }
        i += 1;
    }
    if let Some(package) = open {
        let ghost before = records_of(system@);
        system.push(package);
        assert(records_of(system@) =~= before.push(record_of(package)));
    }
    system
}

/// The packages that the first `n` lines name, one to the line, in order.
pub open spec fn listed_packages(lines: Seq<String>, n: int) -> Seq<(Seq<char>, Seq<u64>)>
    decreases n,
{
    if n <= 0 {
        Seq::empty()
    } else {
        match PackageId::parsed(lines[n - 1]@) {
            Some(id) => listed_packages(lines, n - 1).push(id),
            None => listed_packages(lines, n - 1),
        }
    }
}

/// Reads packages from lines that hold a name and a version each, such as
/// `vim 9.1-2`. Lines of fewer or more than two words are passed over.
pub fn packages_from_lines(lines: &Vec<String>) -> (packages: Vec<PackageId>)
    ensures
        identities(packages@) == listed_packages(lines@, lines@.len() as int),
{
    let mut packages: Vec<PackageId> = Vec::new();
    let mut i: usize = 0;
    assert(identities(packages@) =~= Seq::empty());
    while i < lines.len()
        invariant
            i <= lines.len(),
            identities(packages@) == listed_packages(lines@, i as int),
        decreases lines.len() - i,
    {
        if let Some(id) = PackageId::parse(lines[i].as_str()) {
            let ghost before = identities(packages@);
            packages.push(id);
            assert(identities(packages@) =~= before.push(id@));
        }
        i += 1;
    }
    packages
}

/// Reads a snapshot from its file: the packages that its lines name, under
/// the timestamp that the file is named by.
pub fn snapshot_from_lines(timestamp: u64, lines: &Vec<String>) -> (snapshot: Snapshot)
    ensures
        snapshot.timestamp == timestamp,
        identities(snapshot.explicitly_installed@) == listed_packages(
            lines@,
            lines@.len() as int,
        ),
{
    Snapshot { timestamp, explicitly_installed: packages_from_lines(lines) }
}

/// A version as it is written: its numbers in decimal digits, with a dot between them.
pub open spec fn version_text(v: Seq<u64>) -> Seq<char>
    decreases v.len(),
{
    if v.len() == 0 {
        Seq::empty()
    } else if v.len() == 1 {
        decimal(v[0] as nat)
    } else {
        version_text(v.drop_last()) + seq!['.'] + decimal(v.last() as nat)
    }
}

/// The line of a package in a snapshot: its name, a space, and its version.
pub open spec fn snapshot_text(package: (Seq<char>, Seq<u64>)) -> Seq<char> {
    package.0 + seq![' '] + version_text(package.1)
}

/// A version as it is written has only digits and dots, and is read back as
/// the same numbers: after its last character the scan has ended all numbers
/// but the last, and is in the run of the last.
pub proof fn lemma_version_text(v: Seq<u64>)
    requires
        v.len() > 0,
    ensures
        version_text(v).len() > 0,
        forall|i: int|
            0 <= i < version_text(v).len() ==> is_digit(#[trigger] version_text(v)[i])
                || version_text(v)[i] == '.',
        scanned_numbers(version_text(v), version_text(v).len() as int) == (
            v.drop_last(),
            Some(v.last()),
        ),
    decreases v.len(),
{
    let text = version_text(v);
    let last = decimal(v.last() as nat);
    lemma_decimal_digits(v.last() as nat);
    if v.len() == 1 {
        assert(text == last);
        assert(scanned_numbers(text, 0) == (Seq::<u64>::empty(), None::<u64>));
        lemma_scanned_decimal(text, 0, v.last() as nat);
        assert(v.drop_last() =~= Seq::<u64>::empty());
    } else {
        let front = v.drop_last();
        let before = version_text(front);
        lemma_version_text(front);
        let dot = before.len() as int;
        assert(text == before + seq!['.'] + last);
        assert forall|i: int| 0 <= i < text.len() implies is_digit(#[trigger] text[i]) || text[i]
            == '.' by {
            if i < dot {
                assert(text[i] == before[i]);
            } else if i > dot {
                assert(text[i] == last[i - dot - 1]);
            }
        }
        assert forall|i: int| 0 <= i < dot implies text[i] == before[i] by {}
        lemma_scanned_numbers_prefix(text, before, dot);
        assert(text[dot] == '.');
        assert(scanned_numbers(text, dot + 1) == (front.drop_last().push(front.last()), None::<u64>));
        assert(front.drop_last().push(front.last()) =~= front);
        assert forall|i: int| 0 <= i < last.len() implies text[dot + 1 + i] == #[trigger] last[i] by {}
        lemma_scanned_decimal(text, dot + 1, v.last() as nat);
    }
}

/// A version as it is written is read back as the same numbers.
pub proof fn lemma_version_read_back(v: Seq<u64>)
    requires
        v.len() > 0,
    ensures
        numbers_in(version_text(v)) == v,
        is_word(version_text(v)),
{
    lemma_version_text(v);
    assert(v.drop_last().push(v.last()) =~= v);
    let text = version_text(v);
    assert forall|i: int| 0 <= i < text.len() implies !is_blank(#[trigger] text[i]) by {
        assert(is_digit(text[i]) || text[i] == '.');
    }
}

/// The line of a package in a snapshot is read back as the package, where
/// the version has a number and the name is one word.
pub proof fn lemma_snapshot_line_read_back(package: (Seq<char>, Seq<u64>))
    requires
        package.1.len() > 0,
        words_in(package.0) == seq![package.0],
    ensures
        PackageId::parsed(snapshot_text(package)) == Some(package),
{
    lemma_one_word(package.0);
    lemma_version_read_back(package.1);
    lemma_two_words(package.0, version_text(package.1));
}

/// A package can be kept in a snapshot: its version has a number and its name is one word.
pub open spec fn can_be_kept(package: (Seq<char>, Seq<u64>)) -> bool {
    package.1.len() > 0 && words_in(package.0) == seq![package.0]
}

/// The lines of packages that can be kept are read back as those packages, in their order.
pub proof fn lemma_snapshot_read_back(
    lines: Seq<String>,
    packages: Seq<(Seq<char>, Seq<u64>)>,
    n: int,
)
    requires
        0 <= n <= lines.len(),
        n <= packages.len(),
        forall|i: int| 0 <= i < n ==> (#[trigger] lines[i])@ == snapshot_text(packages[i]),
        forall|i: int| 0 <= i < n ==> can_be_kept(#[trigger] packages[i]),
    ensures
        listed_packages(lines, n) == packages.subrange(0, n),
    decreases n,
{
    if n > 0 {
        lemma_snapshot_read_back(lines, packages, n - 1);
        assert(lines[n - 1]@ == snapshot_text(packages[n - 1]));
        assert(can_be_kept(packages[n - 1]));
        lemma_snapshot_line_read_back(packages[n - 1]);
        assert(packages.subrange(0, n - 1).push(packages[n - 1]) =~= packages.subrange(0, n));
    } else {
        assert(packages.subrange(0, 0) =~= Seq::empty());
    }
}

/// Writes a version: its numbers in decimal digits, with a dot between them.
pub fn append_version(line: &mut String, version: &Version)
    ensures
        final(line)@ == old(line)@ + version_text(version@),
{
    let mut i: usize = 0;
    assert(version@.subrange(0, 0) =~= Seq::<u64>::empty());
    assert(line@ =~= old(line)@ + version_text(version@.subrange(0, 0)));
    while i < version.numbers.len()
        invariant
            i <= version.numbers.len(),
            line@ == old(line)@ + version_text(version@.subrange(0, i as int)),
        decreases version.numbers.len() - i,
    {
        let ghost so_far = version@.subrange(0, i as int);
        let ghost next = version@.subrange(0, i + 1);
        assert(next.drop_last() =~= so_far);
        assert(next.last() == version@[i as int]);
        if i > 0 {
            proof {
                reveal_strlit(".");
            }
            line.append(".");
            assert(line@ =~= old(line)@ + version_text(so_far) + seq!['.']);
        }
        append_decimal(line, version.numbers[i]);
        proof {
            if i > 0 {
                assert(line@ =~= old(line)@ + (version_text(so_far) + seq!['.'] + decimal(
                    version@[i as int] as nat,
                )));
            } else {
                assert(version_text(so_far) =~= Seq::<char>::empty());
                assert(line@ =~= old(line)@ + decimal(version@[i as int] as nat));
            }
        }
        i += 1;
    }
    assert(version@.subrange(0, i as int) =~= version@);
}

/// The line of a package in a snapshot: its name, a space, and its version
/// with a dot between the numbers, such as `vim 9.1.0.2`. Reading the line
/// gives the package back, where its version has a number and its name is
/// one word.
pub fn snapshot_line(package: &PackageId) -> (line: String)
    ensures
        line@ == snapshot_text(package@),
        package.version@.len() > 0 && words_in(package.name@) == seq![package.name@]
            ==> PackageId::parsed(line@) == Some(package@),
{
    let mut line = package.name.clone();
    proof {
        reveal_strlit(" ");
    }
    line.append(" ");
    assert(line@ =~= package.name@ + seq![' ']);
    append_version(&mut line, &package.version);
    proof {
        if package.version@.len() > 0 && words_in(package.name@) == seq![package.name@] {
            lemma_snapshot_line_read_back(package@);
        }
    }
    line
}

/// The lines of a snapshot, one for each of its packages, in their order.
pub fn snapshot_lines(snapshot: &Snapshot) -> (lines: Vec<String>)
    ensures
        lines@.len() == snapshot.explicitly_installed@.len(),
        forall|i: int|
            0 <= i < lines@.len() ==> (#[trigger] lines@[i])@ == snapshot_text(
                snapshot.explicitly_installed@[i]@,
            ),
{
    let mut lines: Vec<String> = Vec::new();
    let mut i: usize = 0;
    while i < snapshot.explicitly_installed.len()
        invariant
            i <= snapshot.explicitly_installed.len(),
            lines@.len() == i,
            forall|k: int|
                0 <= k < i ==> (#[trigger] lines@[k])@ == snapshot_text(
                    snapshot.explicitly_installed@[k]@,
                ),
        decreases snapshot.explicitly_installed.len() - i,
    {
        lines.push(snapshot_line(&snapshot.explicitly_installed[i]));
        i += 1;
    }
    lines
}

} // verus!
