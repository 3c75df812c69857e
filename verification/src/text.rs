//! Text as the package manager prints it: fields, words and numbers.

use vstd::prelude::*;
use vstd::string::{StrSliceExecFns, StringExecFns};
use crate::package::texts;

verus! {

/// The characters of a text, one by one.
pub fn chars_of(text: &str) -> (chars: Vec<char>)
    ensures
        chars@ == text@,
{
    let n = text.unicode_len();
    let mut chars: Vec<char> = Vec::new();
    let mut i: usize = 0;
    while i < n
        invariant
            i <= n,
            n == text@.len(),
            chars@ == text@.subrange(0, i as int),
        decreases n - i,
    {
        chars.push(text.get_char(i));
        assert(chars@ =~= text@.subrange(0, i + 1));
        i += 1;
    }
    assert(text@.subrange(0, n as int) =~= text@);
    chars
}

/// Whether a character is a decimal digit.
pub open spec fn is_digit(c: char) -> bool {
    '0' <= c <= '9'
}

/// The value of a decimal digit.
pub open spec fn digit_value(c: char) -> nat {
    (c as u32 - '0' as u32) as nat
}

/// The value of a decimal digit, if the character is one.
pub fn digit(c: char) -> (value: Option<u64>)
    ensures
        value == if is_digit(c) {
            Some(digit_value(c) as u64)
        } else {
            None
        },
{
    if '0' <= c && c <= '9' {
        Some((c as u32 - '0' as u32) as u64)
    } else {
        None
    }
}

/// A run of digits grown by one digit: ten times the value so far plus the
/// digit, or the greatest number where that is too great.
pub open spec fn grown(run: Option<u64>, c: char) -> u64 {
    let before = match run {
        Some(v) => v as nat,
        None => 0nat,
    };
    let value = before * 10 + digit_value(c);
    if value > u64::MAX {
        u64::MAX
    } else {
        value as u64
    }
}

/// The numbers that end within the first `n` characters of a text, and the
/// value of the run of digits that the text is in after them, if it is in one.
pub open spec fn scanned_numbers(s: Seq<char>, n: int) -> (Seq<u64>, Option<u64>)
    decreases n,
{
    if n <= 0 {
        (Seq::empty(), None)
    } else {
        let (done, run) = scanned_numbers(s, n - 1);
        if is_digit(s[n - 1]) {
            (done, Some(grown(run, s[n - 1])))
        } else {
            match run {
                Some(v) => (done.push(v), None),
                None => (done, None),
            }
        }
    }
}

/// The numbers that a text holds: the values of its runs of digits, in order.
pub open spec fn numbers_in(s: Seq<char>) -> Seq<u64> {
    let (done, run) = scanned_numbers(s, s.len() as int);
    match run {
        Some(v) => done.push(v),
        None => done,
    }
}

/// The numbers that a text holds: the values of its runs of digits, in
/// order. A run whose value is too great counts as the greatest number.
pub fn numbers(text: &str) -> (found: Vec<u64>)
    ensures
        found@ == numbers_in(text@),
{
    let chars = chars_of(text);
    let mut found: Vec<u64> = Vec::new();
    let mut run: Option<u64> = None;
    let mut i: usize = 0;
    while i < chars.len()
        invariant
            i <= chars.len(),
            chars@ == text@,
            (found@, run) == scanned_numbers(text@, i as int),
        decreases chars.len() - i,
    {
        match digit(chars[i]) {
            Some(d) => {
                let before: u64 = match run {
                    Some(v) => v,
                    None => 0,
                };
                let value: u64 = if before > (u64::MAX - d) / 10 {
                    u64::MAX
                } else {
                    before * 10 + d
                };
                run = Some(value);
            },
            None => {
                if let Some(v) = run {
                    found.push(v);
                }
                run = None;
            },
        }
        i += 1;
    }
    if let Some(v) = run {
        found.push(v);
    }
    found
}

/// Whether a character is a space or a tab.
pub open spec fn is_blank(c: char) -> bool {
    c == ' ' || c == '\t'
}

/// The words that end within the first `n` characters of a text, and where
/// the word begins that the text is in after them; `n` where it is in none.
pub open spec fn scanned_words(s: Seq<char>, n: int) -> (Seq<Seq<char>>, int)
    decreases n,
{
    if n <= 0 {
        (Seq::empty(), 0)
    } else {
        let (done, start) = scanned_words(s, n - 1);
        if is_blank(s[n - 1]) {
            if start < n - 1 {
                (done.push(s.subrange(start, n - 1)), n)
            } else {
                (done, n)
            }
        } else {
            (done, start)
        }
    }
}

/// The words of a text: its longest runs of characters that are not blank, in order.
pub open spec fn words_in(s: Seq<char>) -> Seq<Seq<char>> {
    let (done, start) = scanned_words(s, s.len() as int);
    if start < s.len() {
        done.push(s.subrange(start, s.len() as int))
    } else {
        done
    }
}

/// A word: it has a character, and none of its characters is blank.
pub open spec fn is_word(w: Seq<char>) -> bool {
    w.len() > 0 && forall|i: int| 0 <= i < w.len() ==> !is_blank(#[trigger] w[i])
}

/// What is scanned as words are words, and the text from where a word begins
/// has no blank yet.
proof fn lemma_scanned_words(s: Seq<char>, n: int)
    requires
        0 <= n <= s.len(),
    ensures
        forall|k: int|
            0 <= k < scanned_words(s, n).0.len() ==> is_word(#[trigger] scanned_words(s, n).0[k]),
        0 <= scanned_words(s, n).1 <= n,
        forall|i: int| scanned_words(s, n).1 <= i < n ==> !is_blank(#[trigger] s[i]),
    decreases n,
{
    if n > 0 {
        lemma_scanned_words(s, n - 1);
        let (done, start) = scanned_words(s, n - 1);
        if is_blank(s[n - 1]) && start < n - 1 {
            let word = s.subrange(start, n - 1);
            assert(is_word(word)) by {
                assert forall|i: int| 0 <= i < word.len() implies !is_blank(#[trigger] word[i]) by {
                    assert(word[i] == s[start + i]);
                }
            }
            let all = done.push(word);
            assert forall|k: int| 0 <= k < all.len() implies is_word(#[trigger] all[k]) by {
                if k < done.len() {
                    assert(all[k] == done[k]);
                }
            }
        }
    }
}

/// Every word of a text has a character, and none of its characters is blank.
pub proof fn lemma_words_are_words(s: Seq<char>, k: int)
    requires
        0 <= k < words_in(s).len(),
    ensures
        is_word(words_in(s)[k]),
{
    lemma_scanned_words(s, s.len() as int);
    let (done, start) = scanned_words(s, s.len() as int);
    if start < s.len() {
        let word = s.subrange(start, s.len() as int);
        assert(is_word(word)) by {
            assert forall|i: int| 0 <= i < word.len() implies !is_blank(#[trigger] word[i]) by {
                assert(word[i] == s[start + i]);
            }
        }
        if k < done.len() {
            assert(done.push(word)[k] == done[k]);
        }
    }
}

/// The words of a text: its longest runs of characters that are neither
/// space nor tab, in order.
pub fn words(text: &str) -> (found: Vec<String>)
    ensures
        texts(found@) == words_in(text@),
{
    let chars = chars_of(text);
    let mut found: Vec<String> = Vec::new();
    let mut start: usize = 0;
    let mut i: usize = 0;
    assert(texts(found@) =~= Seq::empty());
    while i < chars.len()
        invariant
            i <= chars.len(),
            start <= i,
            chars@ == text@,
            (texts(found@), start as int) == scanned_words(text@, i as int),
        decreases chars.len() - i,
    {
        let c = chars[i];
        if c == ' ' || c == '\t' {
            if start < i {
                let ghost before = texts(found@);
                found.push(text.substring_char(start, i).to_owned());
                assert(texts(found@) =~= before.push(
                    text@.subrange(start as int, i as int),
                ));
            }
            start = i + 1;
        }
        i += 1;
    }
    if start < chars.len() {
        let ghost before = texts(found@);
        found.push(text.substring_char(start, chars.len()).to_owned());
        assert(texts(found@) =~= before.push(
            text@.subrange(start as int, text@.len() as int),
        ));
    }
    found
}

/// The first place from `i` on that holds a character that is not blank; the
/// length of the text where there is none.
pub open spec fn ink_start(s: Seq<char>, i: int) -> int
    decreases s.len() - i,
{
    if i < 0 || i >= s.len() {
        s.len() as int
    } else if is_blank(s[i]) {
        ink_start(s, i + 1)
    } else {
        i
    }
}

/// The place after the last character before `i` that is not blank, but not below `floor`.
pub open spec fn ink_end(s: Seq<char>, i: int, floor: int) -> int
    decreases i,
{
    if i <= floor || i <= 0 || i > s.len() {
        floor
    } else if is_blank(s[i - 1]) {
        ink_end(s, i - 1, floor)
    } else {
        i
    }
}

/// A text without the blanks at its beginning and at its end.
pub open spec fn trimmed(s: Seq<char>) -> Seq<char> {
    let from = ink_start(s, 0);
    s.subrange(from, ink_end(s, s.len() as int, from))
}

/// A text without the spaces and tabs at its beginning and at its end.
pub fn trim(text: &str) -> (bare: String)
    ensures
        bare@ == trimmed(text@),
{
    let chars = chars_of(text);
    let n = chars.len();
    let mut from: usize = 0;
    while from < n && (chars[from] == ' ' || chars[from] == '\t')
        invariant
            from <= n,
            n == text@.len(),
            chars@ == text@,
            ink_start(text@, from as int) == ink_start(text@, 0),
        decreases n - from,
    {
        from += 1;
    }
    let mut to: usize = n;
    while to > from && (chars[to - 1] == ' ' || chars[to - 1] == '\t')
        invariant
            from <= to <= n,
            n == text@.len(),
            chars@ == text@,
            ink_end(text@, to as int, from as int) == ink_end(text@, n as int, from as int),
        decreases to,
    {
        to -= 1;
    }
    text.substring_char(from, to).to_owned()
}

/// Place `i` is the first of the text that holds the character.
pub open spec fn is_first_place(s: Seq<char>, c: char, i: int) -> bool {
    &&& 0 <= i < s.len()
    &&& s[i] == c
    &&& forall|j: int| 0 <= j < i ==> s[j] != c
}

/// The first place of the text that holds the character.
pub open spec fn first_place(s: Seq<char>, c: char) -> int {
    choose|i: int| is_first_place(s, c, i)
}

/// The first place of a text that holds the character, if there is one.
pub fn find_char(text: &str, c: char) -> (place: Option<usize>)
    ensures
        match place {
            Some(i) => is_first_place(text@, c, i as int) && i == first_place(text@, c),
            None => !text@.contains(c),
        },
{
    let chars = chars_of(text);
    let mut i: usize = 0;
    while i < chars.len()
        invariant
            i <= chars.len(),
            chars@ == text@,
            forall|j: int| 0 <= j < i ==> text@[j] != c,
        decreases chars.len() - i,
    {
        if chars[i] == c {
            assert(is_first_place(text@, c, i as int));
            let ghost other = first_place(text@, c);
            assert(is_first_place(text@, c, other));
            return Some(i);
        }
        i += 1;
    }
    None
}

/// What stands before and after the first separator of a text, each without
/// the blanks around it; nothing where the text has no separator.
pub open spec fn field_in(s: Seq<char>, separator: char) -> Option<(Seq<char>, Seq<char>)> {
    if s.contains(separator) {
        let at = first_place(s, separator);
        Some((trimmed(s.subrange(0, at)), trimmed(s.subrange(at + 1, s.len() as int))))
    } else {
        None
    }
}

/// Splits a line such as `Name : value` at its first separator into what
/// stands before and after it, each without the blanks around it.
pub fn field(line: &str, separator: char) -> (parts: Option<(String, String)>)
    ensures
        match parts {
            Some((key, value)) => field_in(line@, separator) == Some((key@, value@)),
            None => field_in(line@, separator) is None,
        },
{
    match find_char(line, separator) {
        Some(at) => {
            let n = line.unicode_len();
            let key = trim(line.substring_char(0, at));
            let value = trim(line.substring_char(at + 1, n));
            Some((key, value))
        },
        None => None,
    }
}

/// Whether a character begins a demand on a version: `<`, `>` or `=`.
pub open spec fn is_operator(c: char) -> bool {
    c == '<' || c == '>' || c == '='
}

/// Place `i` is the first of the text that holds `<`, `>` or `=`.
pub open spec fn is_operator_place(s: Seq<char>, i: int) -> bool {
    &&& 0 <= i < s.len()
    &&& is_operator(s[i])
    &&& forall|j: int| 0 <= j < i ==> !is_operator(s[j])
}

/// The text holds `<`, `>` or `=`.
pub open spec fn has_operator(s: Seq<char>) -> bool {
    exists|i: int| 0 <= i < s.len() && is_operator(#[trigger] s[i])
}

/// The first place of the text that holds `<`, `>` or `=`.
pub open spec fn operator_place(s: Seq<char>) -> int {
    choose|i: int| is_operator_place(s, i)
}

/// The first place of a text that holds `<`, `>` or `=`, if there is one.
pub fn find_operator(text: &str) -> (place: Option<usize>)
    ensures
        match place {
            Some(i) => is_operator_place(text@, i as int) && i == operator_place(text@),
            None => !has_operator(text@),
        },
{
    let chars = chars_of(text);
    let mut i: usize = 0;
    while i < chars.len()
        invariant
            i <= chars.len(),
            chars@ == text@,
            forall|j: int| 0 <= j < i ==> !is_operator(#[trigger] text@[j]),
        decreases chars.len() - i,
    {
        let c = chars[i];
        if c == '<' || c == '>' || c == '=' {
            assert(is_operator_place(text@, i as int));
            let ghost other = operator_place(text@);
            assert(is_operator_place(text@, other));
            return Some(i);
        }
        i += 1;
    }
    None
}

/// The name in a dependency such as `glibc>=2.39`: what stands before the
/// first `<`, `>` or `=`, without the blanks around it.
pub open spec fn dependency_name_in(s: Seq<char>) -> Seq<char> {
    if has_operator(s) {
        trimmed(s.subrange(0, operator_place(s)))
    } else {
        trimmed(s)
    }
}

/// The name in a dependency such as `glibc>=2.39`.
pub fn dependency_name(text: &str) -> (name: String)
    ensures
        name@ == dependency_name_in(text@),
{
    match find_operator(text) {
        Some(at) => trim(text.substring_char(0, at)),
        None => trim(text),
    }
}

/// The last place before `end` that holds the character; -1 where there is none.
pub open spec fn last_place(s: Seq<char>, c: char, end: int) -> int
    decreases end,
{
    if end <= 0 || end > s.len() {
        -1
    } else if s[end - 1] == c {
        end - 1
    } else {
        last_place(s, c, end - 1)
    }
}

/// The last place before `end` of a text that holds the character, if there is one.
pub fn find_last(chars: &Vec<char>, c: char, end: usize) -> (place: Option<usize>)
    ensures
        match place {
            Some(i) => i < end && i == last_place(chars@, c, end as int),
            None => last_place(chars@, c, end as int) == -1,
        },
{
    if end > chars.len() {
        return None;
    }
    let mut i: usize = end;
    while i > 0
        invariant
            i <= end <= chars.len(),
            last_place(chars@, c, i as int) == last_place(chars@, c, end as int),
        decreases i,
    {
        if chars[i - 1] == c {
            return Some(i - 1);
        }
        i -= 1;
    }
    None
}

/// The text ends with the given ending.
pub open spec fn ends_with(s: Seq<char>, ending: Seq<char>) -> bool {
    ending.len() <= s.len() && s.subrange(s.len() - ending.len(), s.len() as int) == ending
}

/// Whether a text ends with the given ending.
pub fn has_ending(text: &str, ending: &str) -> (found: bool)
    ensures
        found == ends_with(text@, ending@),
{
    let chars = chars_of(text);
    let end = chars_of(ending);
    if end.len() > chars.len() {
        return false;
    }
    let shift = chars.len() - end.len();
    let mut i: usize = 0;
    while i < end.len()
        invariant
            i <= end.len(),
            shift + end.len() == chars.len(),
            chars@ == text@,
            end@ == ending@,
            forall|j: int| 0 <= j < i ==> chars@[shift + j] == end@[j],
        decreases end.len() - i,
    {
        if chars[shift + i] != end[i] {
            assert(text@.subrange(shift as int, text@.len() as int)[i as int] != ending@[i as int]);
            return false;
        }
        i += 1;
    }
    assert(text@.subrange(shift as int, text@.len() as int) =~= ending@);
    true
}

/// The name is that of a package that is built from a version-control
/// system and so has no version to compare: it ends with `-git`, `-svn`,
/// `-hg` or `-bzr`.
pub open spec fn version_controlled(name: Seq<char>) -> bool {
    ends_with(name, "-git"@) || ends_with(name, "-svn"@) || ends_with(name, "-hg"@) || ends_with(
        name,
        "-bzr"@,
    )
}

/// Whether a package of that name is built from a version-control system.
pub fn is_version_controlled(name: &str) -> (found: bool)
    ensures
        found == version_controlled(name@),
{
    has_ending(name, "-git") || has_ending(name, "-svn") || has_ending(name, "-hg") || has_ending(
        name,
        "-bzr",
    )
}

/// The digit of a value below ten.
pub open spec fn digit_char(d: nat) -> char {
    if d == 0 {
        '0'
    } else if d == 1 {
        '1'
    } else if d == 2 {
        '2'
    } else if d == 3 {
        '3'
    } else if d == 4 {
        '4'
    } else if d == 5 {
        '5'
    } else if d == 6 {
        '6'
    } else if d == 7 {
        '7'
    } else if d == 8 {
        '8'
    } else {
        '9'
    }
}

/// A number written in decimal digits, without leading zeros.
pub open spec fn decimal(n: nat) -> Seq<char>
    decreases n,
{
    if n < 10 {
        seq![digit_char(n)]
    } else {
        decimal(n / 10).push(digit_char(n % 10))
    }
}

/// The digit of a value below ten is a digit of that value.
pub proof fn lemma_digit_char(d: nat)
    requires
        d < 10,
    ensures
        is_digit(digit_char(d)),
        digit_value(digit_char(d)) == d,
        !is_blank(digit_char(d)),
{
}

/// The text of the digit of a value; that of nine for a value over nine.
fn digit_text(d: u64) -> (text: &'static str)
    ensures
        text@ == seq![digit_char(d as nat)],
{
    proof {
        reveal_strlit("0");
        reveal_strlit("1");
        reveal_strlit("2");
        reveal_strlit("3");
        reveal_strlit("4");
        reveal_strlit("5");
        reveal_strlit("6");
        reveal_strlit("7");
        reveal_strlit("8");
        reveal_strlit("9");
    }
    let text = if d == 0 {
        "0"
    } else if d == 1 {
        "1"
    } else if d == 2 {
        "2"
    } else if d == 3 {
        "3"
    } else if d == 4 {
        "4"
    } else if d == 5 {
        "5"
    } else if d == 6 {
        "6"
    } else if d == 7 {
        "7"
    } else if d == 8 {
        "8"
    } else {
        "9"
    };
    assert(text@ =~= seq![digit_char(d as nat)]);
    text
}

/// Writes a number in decimal digits at the end of a text.
pub fn append_decimal(line: &mut String, n: u64)
    ensures
        final(line)@ == old(line)@ + decimal(n as nat),
    decreases n,
{
    if n >= 10 {
        append_decimal(line, n / 10);
    }
    let ghost before = line@;
    line.append(digit_text(n % 10));
    proof {
        if n >= 10 {
            assert(line@ =~= old(line)@ + decimal(n as nat));
        } else {
            assert(line@ =~= old(line)@ + decimal(n as nat));
        }
    }
}

/// A text of digits has only digits, and at least one.
pub proof fn lemma_decimal_digits(n: nat)
    ensures
        decimal(n).len() > 0,
        forall|i: int| 0 <= i < decimal(n).len() ==> is_digit(#[trigger] decimal(n)[i]),
    decreases n,
{
    if n < 10 {
        lemma_digit_char(n);
    } else {
        lemma_decimal_digits(n / 10);
        lemma_digit_char(n % 10);
    }
}

/// What is scanned as numbers within the first `n` characters depends on those characters only.
pub proof fn lemma_scanned_numbers_prefix(s: Seq<char>, t: Seq<char>, n: int)
    requires
        0 <= n <= s.len(),
        n <= t.len(),
        forall|i: int| 0 <= i < n ==> s[i] == t[i],
    ensures
        scanned_numbers(s, n) == scanned_numbers(t, n),
    decreases n,
{
    if n > 0 {
        lemma_scanned_numbers_prefix(s, t, n - 1);
    }
}

/// Where a text stands outside a run of digits and goes on with a number
/// written in decimal digits, the scan is in a run of that value after them.
pub proof fn lemma_scanned_decimal(s: Seq<char>, from: int, v: nat)
    requires
        0 <= from,
        from + decimal(v).len() <= s.len(),
        forall|i: int| 0 <= i < decimal(v).len() ==> s[from + i] == #[trigger] decimal(v)[i],
        v <= u64::MAX,
        scanned_numbers(s, from).1 is None,
    ensures
        scanned_numbers(s, from + decimal(v).len()) == (
            scanned_numbers(s, from).0,
            Some(v as u64),
        ),
    decreases v,
{
    let text = decimal(v);
    let end = from + text.len();
    if v < 10 {
        lemma_digit_char(v);
        assert(s[from + 0] == text[0]);
    } else {
        let front = decimal(v / 10);
        assert forall|i: int| 0 <= i < front.len() implies s[from + i] == #[trigger] front[i] by {
            assert(text[i] == front[i]);
        }
        lemma_scanned_decimal(s, from, v / 10);
        lemma_digit_char(v % 10);
        assert(s[from + front.len()] == text[front.len() as int]);
        assert(s[end - 1] == digit_char(v % 10));
        assert((v / 10) * 10 + v % 10 == v);
    }
}

/// What is scanned as words does not change over characters that are not blank.
pub proof fn lemma_scanned_words_run(s: Seq<char>, from: int, n: int)
    requires
        0 <= from <= n <= s.len(),
        forall|i: int| from <= i < n ==> !is_blank(#[trigger] s[i]),
    ensures
        scanned_words(s, n) == scanned_words(s, from),
    decreases n - from,
{
    if from < n {
        lemma_scanned_words_run(s, from, n - 1);
    }
}

/// Two words with a space between them are the two words of the text.
pub proof fn lemma_two_words(a: Seq<char>, b: Seq<char>)
    requires
        is_word(a),
        is_word(b),
    ensures
        words_in(a + seq![' '] + b) == seq![a, b],
{
    let s = a + seq![' '] + b;
    let gap = a.len() as int;
    assert forall|i: int| 0 <= i < gap implies !is_blank(#[trigger] s[i]) by {
        assert(s[i] == a[i]);
    }
    assert forall|i: int| gap + 1 <= i < s.len() implies !is_blank(#[trigger] s[i]) by {
        assert(s[i] == b[i - gap - 1]);
    }
    lemma_scanned_words_run(s, 0, gap);
    assert(scanned_words(s, 0) == (Seq::<Seq<char>>::empty(), 0int));
    assert(s[gap] == ' ');
    assert(s.subrange(0, gap) =~= a);
    assert(scanned_words(s, gap + 1) == (Seq::<Seq<char>>::empty().push(a), gap + 1));
    lemma_scanned_words_run(s, gap + 1, s.len() as int);
    assert(s.subrange(gap + 1, s.len() as int) =~= b);
    assert(Seq::<Seq<char>>::empty().push(a).push(b) =~= seq![a, b]);
}

/// A text that is its own one word is a word.
pub proof fn lemma_one_word(a: Seq<char>)
    requires
        words_in(a) == seq![a],
    ensures
        is_word(a),
{
    lemma_words_are_words(a, 0);
}

} // verus!
