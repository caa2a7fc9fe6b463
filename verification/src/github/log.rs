//! Step logs: reading a runner log as text.

use vstd::prelude::*;
use vstd::string::*;

use crate::text;

verus! {

/// An ASCII letter.
pub open spec fn ascii_letter(c: char) -> bool {
    'a' <= c <= 'z' || 'A' <= c <= 'Z'
}

/// An ASCII letter or digit.
pub open spec fn ascii_alphanumeric(c: char) -> bool {
    ascii_letter(c) || '0' <= c <= '9'
}

/// `c` in lower case, where it is an ASCII capital.
pub open spec fn ascii_lower(c: char) -> char {
    if 'A' <= c <= 'Z' {
        (c as u32 + 32) as char
    } else {
        c
    }
}

/// The ASCII letters and digits of `s`, in lower case.
pub open spec fn normalized(s: Seq<char>) -> Seq<char> {
    s.filter(|c: char| ascii_alphanumeric(c)).map_values(|c: char| ascii_lower(c))
}

/// Lowercase alphanumerics only: archive names and API names agree on these,
/// whatever else the archive's file names had to give up.
pub fn normalize(name: &str) -> (r: String)
    ensures
        r@ == normalized(name@),
{
    let chars: Vec<char> = text::to_chars(name);
    let mut out: String = String::new();
    let mut i: usize = 0;
    let ghost keep = |c: char| ascii_alphanumeric(c);
    let ghost lower = |c: char| ascii_lower(c);
    proof {
        assert(name@.take(0).filter(keep) =~= Seq::<char>::empty());
        assert(out@ =~= name@.take(0).filter(keep).map_values(lower));
    }
    while i < chars.len()
        invariant
            chars@ == name@,
            i <= chars@.len(),
            keep == (|c: char| ascii_alphanumeric(c)),
            lower == (|c: char| ascii_lower(c)),
            out@ == name@.take(i as int).filter(keep).map_values(lower),
        decreases chars@.len() - i,
    {
        let c: char = chars[i];
        proof {
            assert(name@.take(i + 1) =~= name@.take(i as int).push(c));
            name@.take(i as int).lemma_filter_push(c, keep);
        }
        let ghost before = out@;
        if 'A' <= c && c <= 'Z' {
            let u: u8 = c as u8;
            out.push((u + 32) as char);
        } else if ('a' <= c && c <= 'z') || ('0' <= c && c <= '9') {
            out.push(c);
        }
        i += 1;
        assert(out@ =~= name@.take(i as int).filter(keep).map_values(lower));
    }
    assert(name@.take(i as int) =~= name@);
    out
}

/// `s` from just after its first ASCII letter on; nothing if it holds none.
pub open spec fn past_letter(s: Seq<char>) -> Seq<char>
    decreases s.len(),
{
    if s.len() == 0 {
        s
    } else if ascii_letter(s[0]) {
        s.skip(1)
    } else {
        past_letter(s.skip(1))
    }
}

/// `past_letter` only drops characters.
pub proof fn lemma_past_letter_len(s: Seq<char>)
    ensures
        past_letter(s).len() <= s.len(),
    decreases s.len(),
{
    if s.len() > 0 && !ascii_letter(s[0]) {
        lemma_past_letter_len(s.skip(1));
    }
}

/// `s` without its escapes: an escape followed by `[` goes together with
/// everything up to the next ASCII letter, any other escape goes alone.
pub open spec fn without_ansi(s: Seq<char>) -> Seq<char>
    decreases s.len(),
{
    if s.len() == 0 {
        s
    } else if s[0] == '\u{1b}' {
        if s.len() > 1 && s[1] == '[' {
            proof {
                lemma_past_letter_len(s.skip(2));
            }
            without_ansi(past_letter(s.skip(2)))
        } else {
            without_ansi(s.skip(1))
        }
    } else {
        seq![s[0]] + without_ansi(s.skip(1))
    }
}

/// Remove ANSI CSI escape sequences (`\e[…m` and friends).
pub fn strip_ansi(line: &str) -> (r: String)
    ensures
        r@ == without_ansi(line@),
{
    let chars: Vec<char> = text::to_chars(line);
    let mut out: String = String::new();
    let mut i: usize = 0;
    assert(line@.skip(0) =~= line@);
    assert(out@ + without_ansi(line@) =~= without_ansi(line@));
    while i < chars.len()
        invariant
            chars@ == line@,
            i <= chars@.len(),
            out@ + without_ansi(line@.skip(i as int)) == without_ansi(line@),
        decreases chars@.len() - i,
    {
        let ghost at = i as int;
        let ghost rest = line@.skip(at);
        assert(rest[0] == line@[at]);
        assert(rest.skip(1) =~= line@.skip(at + 1));
        if chars[i] == '\u{1b}' {
            i += 1;
            if i < chars.len() && chars[i] == '[' {
                assert(rest[1] == line@[at + 1]);
                i += 1;
                assert(rest.skip(2) =~= line@.skip(i as int));
                let mut inside: bool = true;
                while i < chars.len() && inside
                    invariant
                        chars@ == line@,
                        at < i <= chars@.len(),
                        inside ==> past_letter(rest.skip(2)) == past_letter(line@.skip(i as int)),
                        !inside ==> past_letter(rest.skip(2)) == line@.skip(i as int),
                    decreases chars@.len() - i,
                {
                    let c: char = chars[i];
                    assert(line@.skip(i as int)[0] == c);
                    assert(line@.skip(i as int).skip(1) =~= line@.skip(i + 1));
                    inside = !(('a' <= c && c <= 'z') || ('A' <= c && c <= 'Z'));
                    i += 1;
                }
                assert(inside ==> line@.skip(i as int) =~= Seq::<char>::empty());
            }
        } else {
            let ghost before = out@;
            out.push(chars[i]);
            i += 1;
            assert(out@ + without_ansi(line@.skip(i as int)) =~= before + (seq![line@[at]]
                + without_ansi(line@.skip(i as int))));
        }
    }
    assert(line@.skip(i as int) =~= Seq::<char>::empty());
    assert(out@ + Seq::<char>::empty() =~= out@);
    out
}

/// Whether `c` may stand at place `i` of a date and a time to the second, as in
/// `2026-07-24T14:30:01`.
pub open spec fn stamp_char(i: int, c: char) -> bool {
    if i == 4 || i == 7 {
        c == '-'
    } else if i == 10 {
        c == 'T'
    } else if i == 13 || i == 16 {
        c == ':'
    } else {
        text::is_digit(c)
    }
}

/// Whether `first` is a runner's time stamp: a date and a time to the second,
/// a fraction of it where there is one, and a `Z`.
pub open spec fn time_stamp(first: Seq<char>) -> bool {
    &&& first.len() >= 20
    &&& forall|i: int| 0 <= i < 19 ==> stamp_char(i, #[trigger] first[i])
    &&& first.last() == 'Z'
    &&& first.len() > 20 ==> first.len() > 21 && first[19] == '.' && forall|i: int|
        20 <= i < first.len() - 1 ==> text::is_digit(#[trigger] first[i])
}

/// Whether `c` is a decimal digit.
fn digit(c: char) -> (r: bool)
    ensures
        r == text::is_digit(c),
{
    '0' <= c && c <= '9'
}

/// Whether the characters are a runner's time stamp.
fn is_time_stamp(chars: &Vec<char>) -> (r: bool)
    ensures
        r == time_stamp(chars@),
{
    let n: usize = chars.len();
    if n < 20 || chars[n - 1] != 'Z' {
        return false;
    }
    let mut i: usize = 0;
    while i < 19
        invariant
            n == chars@.len(),
            n >= 20,
            i <= 19,
            forall|j: int| 0 <= j < i ==> stamp_char(j, #[trigger] chars@[j]),
        decreases 19 - i,
    {
        let c: char = chars[i];
        let fits: bool = if i == 4 || i == 7 {
            c == '-'
        } else if i == 10 {
            c == 'T'
        } else if i == 13 || i == 16 {
            c == ':'
        } else {
            digit(c)
        };
        if !fits {
            assert(!stamp_char(i as int, chars@[i as int]));
            return false;
        }
        i += 1;
    }
    if n == 20 {
        return true;
    }
    if n == 21 || chars[19] != '.' {
        return false;
    }
    let mut k: usize = 20;
    while k < n - 1
        invariant
            n == chars@.len(),
            n > 21,
            20 <= k <= n - 1,
            forall|j: int| 20 <= j < k ==> text::is_digit(#[trigger] chars@[j]),
        decreases n - k,
    {
        if !digit(chars[k]) {
            assert(!text::is_digit(chars@[k as int]));
            return false;
        }
        k += 1;
    }
    true
}

/// `line` without a leading time stamp and the space that follows it.
pub open spec fn without_time_stamp(line: Seq<char>) -> Seq<char> {
    match text::cut_first(line, ' ') {
        Some((first, rest)) => if time_stamp(first) {
            rest
        } else {
            line
        },
        None => line,
    }
}

/// Drop a `2026-07-24T14:30:01.12Z ` time stamp prefix, if present. A line
/// without one comes back as it is.
pub fn strip_timestamp(line: &str) -> (r: String)
    ensures
        r@ == without_time_stamp(line@),
{
    match text::split_once(line, ' ') {
        Some((first, rest)) => {
            let chars: Vec<char> = text::to_chars(first.as_str());
            if is_time_stamp(&chars) {
                return rest;
            }
            line.to_owned()
        },
        None => line.to_owned(),
    }
}

/// `line` without one leading group, command or section marker.
pub open spec fn without_marker(line: Seq<char>) -> Seq<char> {
    if "##[group]"@.is_prefix_of(line) {
        line.skip("##[group]"@.len() as int)
    } else if "##[command]"@.is_prefix_of(line) {
        line.skip("##[command]"@.len() as int)
    } else if "##[section]"@.is_prefix_of(line) {
        line.skip("##[section]"@.len() as int)
    } else {
        line
    }
}

/// `s` after `prefix`, if it starts with it.
pub open spec fn after_prefix(s: Seq<char>, prefix: Seq<char>) -> Option<Seq<char>> {
    if prefix.is_prefix_of(s) {
        Some(s.skip(prefix.len() as int))
    } else {
        None
    }
}

/// What a raw line shows: no time stamp, no colour escapes, no leading white
/// space.
pub open spec fn shown_line(raw: Seq<char>) -> Seq<char> {
    text::trimmed_start(without_ansi(without_time_stamp(raw)))
}

/// What a raw line adds to the readable log: nothing for the end of a group,
/// else its text without the marker, and a line feed.
pub open spec fn clean_line(raw: Seq<char>) -> Seq<char> {
    let line = shown_line(raw);
    if line == "##[endgroup]"@ {
        Seq::empty()
    } else {
        without_marker(line).push('\n')
    }
}

/// The readable text of a raw runner log: its lines, each cleaned, in order.
pub open spec fn readable_log(raw: Seq<char>) -> Seq<char> {
    text::lines_of(raw).map_values(|line: Seq<char>| clean_line(line)).flatten()
}

/// The text after `prefix`, if `s` starts with it.
pub fn strip_prefix(s: &str, prefix: &str) -> (r: Option<String>)
    ensures
        match r {
            Some(rest) => after_prefix(s@, prefix@) == Some(rest@),
            None => after_prefix(s@, prefix@) is None,
        },
{
    if text::starts_with(s, prefix) {
        let chars: Vec<char> = text::to_chars(s);
        let marker: Vec<char> = text::to_chars(prefix);
        let rest: String = text::text_between(&chars, marker.len(), chars.len());
        assert(rest@ =~= s@.skip(prefix@.len() as int));
        Some(rest)
    } else {
        None
    }
}

/// Turn a raw runner log into readable text: drop each line's leading time
/// stamp, strip ANSI colour escapes, and unwrap the `##[…]` grouping markers.
pub fn clean_log(raw: &str) -> (r: String)
    ensures
        r@ == readable_log(raw@),
{
    let lines: Vec<String> = text::lines(raw);
    let mut out: String = String::new();
    let ghost f = |line: Seq<char>| clean_line(line);
    let ghost cleaned = text::lines_of(raw@).map_values(f);
    assert(cleaned.take(0).flatten() =~= Seq::<char>::empty());
    let mut i: usize = 0;
    while i < lines.len()
        invariant
            text::texts(lines@) == text::lines_of(raw@),
            f == (|line: Seq<char>| clean_line(line)),
            cleaned == text::lines_of(raw@).map_values(f),
            i <= lines@.len(),
            out@ == cleaned.take(i as int).flatten(),
        decreases lines@.len() - i,
    {
        let ghost before = out@;
        assert(text::texts(lines@)[i as int] == lines@[i as int]@);
        let stamped: String = strip_timestamp(lines[i].as_str());
        let plain: String = strip_ansi(stamped.as_str());
        let line: String = text::trim_start(plain.as_str());
        if !text::same_text(line.as_str(), "##[endgroup]") {
            let shown: String = match strip_prefix(line.as_str(), "##[group]") {
                Some(rest) => rest,
                None => match strip_prefix(line.as_str(), "##[command]") {
                    Some(rest) => rest,
                    None => match strip_prefix(line.as_str(), "##[section]") {
                        Some(rest) => rest,
                        None => line,
                    },
                },
            };
            out.append(shown.as_str());
            out.push('\n');
        }
        proof {
            assert(out@ =~= before + clean_line(lines@[i as int]@));
            assert(cleaned.take(i + 1) =~= cleaned.take(i as int).push(cleaned[i as int]));
            cleaned.take(i as int).lemma_flatten_push(cleaned[i as int]);
        }
        i += 1;
    }
    assert(cleaned.take(i as int) =~= cleaned);
    out
}

/// Whether `i` is the first position of `s` where `p` holds.
pub open spec fn first_at<A>(s: Seq<A>, p: spec_fn(A) -> bool, i: int) -> bool {
    &&& 0 <= i < s.len()
    &&& p(s[i])
    &&& forall|j: int| 0 <= j < i ==> !p(#[trigger] s[j])
}

/// The first position of `s` where `p` holds, if there is one.
pub open spec fn first_where<A>(s: Seq<A>, p: spec_fn(A) -> bool) -> Option<int> {
    if exists|i: int| first_at(s, p, i) {
        Some(choose|i: int| first_at(s, p, i))
    } else {
        None
    }
}

/// A first position is the only one.
pub proof fn lemma_first_at<A>(s: Seq<A>, p: spec_fn(A) -> bool, i: int)
    requires
        first_at(s, p, i),
    ensures
        first_where(s, p) == Some(i),
{
    let k = choose|k: int| first_at(s, p, k);
    assert(first_at(s, p, k));
    if k < i {
        assert(!p(s[k]));
    } else if i < k {
        assert(!p(s[i]));
    }
}

/// Where `p` holds nowhere, there is no first position.
pub proof fn lemma_first_nowhere<A>(s: Seq<A>, p: spec_fn(A) -> bool)
    requires
        forall|j: int| 0 <= j < s.len() ==> !p(#[trigger] s[j]),
    ensures
        first_where(s, p) is None,
{
    if exists|i: int| first_at(s, p, i) {
        let i = choose|i: int| first_at(s, p, i);
        assert(!p(s[i]));
    }
}

/// The file-name prefix of a step: its number and an underscore.
pub open spec fn step_prefix(number: int) -> Seq<char> {
    text::signed_decimal(number).push('_')
}

/// An archive name's folder and file, where it has both.
pub open spec fn folder_and_file(name: Option<Seq<char>>) -> Option<(Seq<char>, Seq<char>)> {
    match name {
        Some(full) => text::cut_last(full, '/'),
        None => None,
    }
}

/// Whether an archive name is the step's: its number, in the job's folder.
pub open spec fn names_step(name: Option<Seq<char>>, job: Seq<char>, number: int) -> bool {
    match folder_and_file(name) {
        Some((folder, file)) => {
            &&& step_prefix(number).is_prefix_of(file)
            &&& normalized(folder) == normalized(job)
        },
        None => false,
    }
}

/// Whether an archive name could be the step's: its number and its name, in
/// some folder.
pub open spec fn resembles_step(name: Option<Seq<char>>, number: int, step: Seq<char>) -> bool {
    match folder_and_file(name) {
        Some((folder, file)) => {
            &&& step_prefix(number).is_prefix_of(file)
            &&& text::contains_text(normalized(file), normalized(step))
        },
        None => false,
    }
}

/// The archive entry of a step: the first that is in the job's folder, else
/// the first that resembles it.
pub open spec fn step_entry(
    names: Seq<Option<Seq<char>>>,
    job: Seq<char>,
    number: int,
    step: Seq<char>,
) -> Option<int> {
    match first_where(names, |n: Option<Seq<char>>| names_step(n, job, number)) {
        Some(i) => Some(i),
        None => first_where(names, |n: Option<Seq<char>>| resembles_step(n, number, step)),
    }
}

/// The views of a list of optional strings.
pub open spec fn optional_texts(v: Seq<Option<String>>) -> Seq<Option<Seq<char>>> {
    v.map_values(
        |s: Option<String>|
            match s {
                Some(t) => Some(t@),
                None => None,
            },
    )
}

/// Find a step's entry among the names in a run-log archive.
///
/// GitHub sanitises the names in the archive, so this matches on a normalised
/// job folder plus the `number_` file-name prefix, with a looser step-name
/// fallback for when the folder name doesn't survive normalisation.
pub fn find_step(
    names: &Vec<Option<String>>,
    job_name: &str,
    step_number: i64,
    step_name: &str,
) -> (r: Option<usize>)
    ensures
        match r {
            Some(i) => step_entry(optional_texts(names@), job_name@, step_number as int, step_name@)
                == Some(i as int),
            None => step_entry(
                optional_texts(names@),
                job_name@,
                step_number as int,
                step_name@,
            ) is None,
        },
        r is Some ==> r->0 < names@.len(),
{
    let mut prefix: String = text::signed_number(step_number);
    prefix.push('_');
    let job_key: String = normalize(job_name);
    let step_key: String = normalize(step_name);
    let ghost views = optional_texts(names@);
    let ghost number = step_number as int;
    let ghost exact = |n: Option<Seq<char>>| names_step(n, job_name@, number);
    let ghost loose = |n: Option<Seq<char>>| resembles_step(n, number, step_name@);

    let mut fallback: Option<usize> = None;
    let mut i: usize = 0;
    while i < names.len()
        invariant
            prefix@ == step_prefix(number),
            job_key@ == normalized(job_name@),
            step_key@ == normalized(step_name@),
            number == step_number,
            views == optional_texts(names@),
            exact == (|n: Option<Seq<char>>| names_step(n, job_name@, number)),
            loose == (|n: Option<Seq<char>>| resembles_step(n, number, step_name@)),
            i <= names@.len(),
            forall|j: int| 0 <= j < i ==> !exact(#[trigger] views[j]),
            match fallback {
                Some(f) => f < i && first_at(views, loose, f as int),
                None => forall|j: int| 0 <= j < i ==> !loose(#[trigger] views[j]),
            },
        decreases names@.len() - i,
    {
        assert(views[i as int] == match names@[i as int] {
            Some(t) => Some(t@),
            None => None,
        });
        if let Some(name) = &names[i] {
            if let Some((folder, file)) = text::rsplit_once(name.as_str(), '/') {
                if text::starts_with(file.as_str(), prefix.as_str()) {
                    let folder_key: String = normalize(folder.as_str());
                    if text::same_text(folder_key.as_str(), job_key.as_str()) {
                        proof {
                            assert(first_at(views, exact, i as int));
                            lemma_first_at(views, exact, i as int);
                        }
                        return Some(i);
                    }
                    let file_key: String = normalize(file.as_str());
                    if fallback.is_none() && text::contains(file_key.as_str(), step_key.as_str()) {
                        fallback = Some(i);
                        assert(first_at(views, loose, i as int));
                    }
                }
            }
        }
        i += 1;
    }
    proof {
        lemma_first_nowhere(views, exact);
        match fallback {
            Some(f) => lemma_first_at(views, loose, f as int),
            None => lemma_first_nowhere(views, loose),
        }
    }
    fallback
}

/// What a step's log page gets from the text of its archive entry.
pub open spec fn step_log_of(entry: Result<Seq<char>, Seq<char>>) -> Result<Seq<char>, Seq<char>> {
    match entry {
        Ok(raw) => Ok(readable_log(raw)),
        Err(reason) => Err("couldn't read the step log: "@ + reason),
    }
}

/// The views of a fallible string.
pub open spec fn result_text(r: Result<String, String>) -> Result<Seq<char>, Seq<char>> {
    match r {
        Ok(t) => Ok(t@),
        Err(e) => Err(e@),
    }
}

/// Clean a step's raw log, or say why it could not be read.
pub fn finish_step_log(entry: Result<String, String>) -> (r: Result<String, String>)
    ensures
        result_text(r) == step_log_of(result_text(entry)),
{
    match entry {
        Ok(raw) => Ok(clean_log(raw.as_str())),
        Err(reason) => {
            let mut message: String = "couldn't read the step log: ".to_owned();
            message.append(reason.as_str());
            Err(message)
        },
    }
}

/// The standard library's in-memory reader.
#[verifier::external_type_specification]
#[verifier::external_body]
#[verifier::reject_recursive_types(T)]
pub struct ExCursor<T>(std::io::Cursor<T>);

/// An open zip archive.
#[verifier::external_type_specification]
#[verifier::external_body]
#[verifier::reject_recursive_types(R)]
pub struct ExZipArchive<R>(zip::ZipArchive<R>);

/// What an open archive holds, entry by entry: the entry's name, where the
/// entry can be opened, and its text, or why it cannot be read as text.
pub uninterp spec fn archive_entries(
    archive: zip::ZipArchive<std::io::Cursor<Vec<u8>>>,
) -> Seq<(Option<Seq<char>>, Result<Seq<char>, Seq<char>>)>;

/// What `zip::ZipArchive::new` makes of a file's bytes: the entries, or why
/// they are no archive.
pub uninterp spec fn zip_contents(
    bytes: Seq<u8>,
) -> Result<Seq<(Option<Seq<char>>, Result<Seq<char>, Seq<char>>)>, Seq<char>>;

/// `zip::ZipArchive::new` on the bytes, its error as text. What the archive
/// holds is a function of the bytes, named by [`zip_contents`].
#[verifier::external_body]
fn open_archive(bytes: &[u8]) -> (r: Result<zip::ZipArchive<std::io::Cursor<Vec<u8>>>, String>)
    ensures
        match r {
            Ok(archive) => zip_contents(bytes@) == Ok::<_, Seq<char>>(archive_entries(archive)),
            Err(reason) => zip_contents(bytes@) == Err::<
                Seq<(Option<Seq<char>>, Result<Seq<char>, Seq<char>>)>,
                _,
            >(reason@),
        },
{
    zip::ZipArchive::new(std::io::Cursor::new(bytes.to_vec())).map_err(|err| err.to_string())
}

/// `zip::ZipArchive::len` counts the entries.
#[verifier::external_body]
fn archive_len(archive: &zip::ZipArchive<std::io::Cursor<Vec<u8>>>) -> (r: usize)
    ensures
        r == archive_entries(*archive).len(),
{
    archive.len()
}

/// `zip::ZipArchive::by_index` opens an entry, `name` tells its name; `None`
/// where the entry cannot be opened. Looking changes nothing.
#[verifier::external_body]
fn entry_name(
    archive: &mut zip::ZipArchive<std::io::Cursor<Vec<u8>>>,
    index: usize,
) -> (r: Option<String>)
    requires
        index < archive_entries(*old(archive)).len(),
    ensures
        archive_entries(*final(archive)) == archive_entries(*old(archive)),
        match r {
            Some(name) => archive_entries(*old(archive))[index as int].0 == Some(name@),
            None => archive_entries(*old(archive))[index as int].0 is None,
        },
{
    archive.by_index(index).ok().map(|entry| entry.name().to_owned())
}

/// `zip::ZipArchive::by_index` opens an entry, `read_to_string` unpacks it as
/// UTF-8 text; either one's error comes back as text. Reading changes nothing.
#[verifier::external_body]
fn entry_text(
    archive: &mut zip::ZipArchive<std::io::Cursor<Vec<u8>>>,
    index: usize,
) -> (r: Result<String, String>)
    requires
        index < archive_entries(*old(archive)).len(),
    ensures
        archive_entries(*final(archive)) == archive_entries(*old(archive)),
        result_text(r) == archive_entries(*old(archive))[index as int].1,
{
    let mut entry = archive.by_index(index).map_err(|err| err.to_string())?;
    let mut raw = String::new();
    std::io::Read::read_to_string(&mut entry, &mut raw).map_err(|err| err.to_string())?;
    Ok(raw)
}

/// The names among an archive's entries.
pub open spec fn entry_names(
    entries: Seq<(Option<Seq<char>>, Result<Seq<char>, Seq<char>>)>,
) -> Seq<Option<Seq<char>>> {
    entries.map_values(|e: (Option<Seq<char>>, Result<Seq<char>, Seq<char>>)| e.0)
}

/// What a step's log page gets from the contents of a run-log archive.
pub open spec fn archived_step_log(
    contents: Result<Seq<(Option<Seq<char>>, Result<Seq<char>, Seq<char>>)>, Seq<char>>,
    job: Seq<char>,
    number: int,
    step: Seq<char>,
) -> Result<Seq<char>, Seq<char>> {
    match contents {
        Err(reason) => Err("couldn't open the log archive: "@ + reason),
        Ok(entries) => match step_entry(entry_names(entries), job, number, step) {
            Some(i) => step_log_of(entries[i].1),
            None => Err(
                "couldn't find this step's log in the archive — open it in the browser instead"@,
            ),
        },
    }
}

/// Find and read a step's file inside the run-log zip, then clean it.
pub fn extract_step_log(
    zip_bytes: &[u8],
    job_name: &str,
    step_number: i64,
    step_name: &str,
) -> (r: Result<String, String>)
    ensures
        result_text(r) == archived_step_log(
            zip_contents(zip_bytes@),
            job_name@,
            step_number as int,
            step_name@,
        ),
{
    match open_archive(zip_bytes) {
        Err(reason) => {
            let mut message: String = "couldn't open the log archive: ".to_owned();
            message.append(reason.as_str());
            Err(message)
        },
        Ok(opened) => {
            let mut archive = opened;
            let ghost entries = archive_entries(archive);
            let count: usize = archive_len(&archive);
            let mut names: Vec<Option<String>> = Vec::new();
            let mut i: usize = 0;
            while i < count
                invariant
                    archive_entries(archive) == entries,
                    count == entries.len(),
                    i <= count,
                    optional_texts(names@) == entry_names(entries).take(i as int),
                decreases count - i,
            {
                let name: Option<String> = entry_name(&mut archive, i);
                let ghost before = names@;
                names.push(name);
                assert(entry_names(entries)[i as int] == entries[i as int].0);
                assert(optional_texts(names@) =~= optional_texts(before).push(
                    entry_names(entries)[i as int],
                ));
                i += 1;
                assert(optional_texts(names@) =~= entry_names(entries).take(i as int));
            }
            assert(entry_names(entries).take(i as int) =~= entry_names(entries));
            match find_step(&names, job_name, step_number, step_name) {
                Some(index) => {
                    assert(optional_texts(names@).len() == names@.len());
                    let raw: Result<String, String> = entry_text(&mut archive, index);
                    finish_step_log(raw)
                },
                None => Err(
                    "couldn't find this step's log in the archive — open it in the browser instead".to_owned(),
                ),
            }
        },
    }
}

/// No escape is left.
pub proof fn law_no_escape_left(s: Seq<char>)
    ensures
        !without_ansi(s).contains('\u{1b}'),
    decreases s.len(),
{
    if s.len() > 0 {
        if s[0] == '\u{1b}' {
            if s.len() > 1 && s[1] == '[' {
                lemma_past_letter_len(s.skip(2));
                law_no_escape_left(past_letter(s.skip(2)));
            } else {
                law_no_escape_left(s.skip(1));
            }
        } else {
            law_no_escape_left(s.skip(1));
            let rest = without_ansi(s.skip(1));
            let all = without_ansi(s);
            assert(all == seq![s[0]] + rest);
            if all.contains('\u{1b}') {
                let k = choose|k: int| 0 <= k < all.len() && all[k] == '\u{1b}';
                assert(k > 0);
                assert(rest[k - 1] == '\u{1b}');
            }
        }
    }
}

/// Text without escapes is kept as it is.
pub proof fn law_plain_text_is_kept(s: Seq<char>)
    requires
        !s.contains('\u{1b}'),
    ensures
        without_ansi(s) == s,
    decreases s.len(),
{
    if s.len() > 0 {
        assert(s.contains(s[0]));
        let rest = s.skip(1);
        if rest.contains('\u{1b}') {
            let k = choose|k: int| 0 <= k < rest.len() && rest[k] == '\u{1b}';
            assert(s[k + 1] == '\u{1b}');
        }
        law_plain_text_is_kept(rest);
        assert(seq![s[0]] + rest =~= s);
    }
}

/// Removing escapes twice is removing them once.
pub proof fn law_strip_ansi_is_idempotent(s: Seq<char>)
    ensures
        without_ansi(without_ansi(s)) == without_ansi(s),
{
    law_no_escape_left(s);
    law_plain_text_is_kept(without_ansi(s));
}

/// Dropping leading white space drops from the front only.
proof fn lemma_trimmed_is_suffix(s: Seq<char>, c: char)
    requires
        !s.contains(c),
    ensures
        !text::trimmed_start(s).contains(c),
    decreases s.len(),
{
    if s.len() > 0 && text::white_space(s[0]) {
        lemma_skip_brings_nothing(s, 1, c);
        lemma_trimmed_is_suffix(s.skip(1), c);
    }
}

/// A suffix has no character that the whole has not.
proof fn lemma_skip_brings_nothing(s: Seq<char>, n: int, c: char)
    requires
        0 <= n <= s.len(),
        !s.contains(c),
    ensures
        !s.skip(n).contains(c),
{
    let rest = s.skip(n);
    if rest.contains(c) {
        let k = choose|k: int| 0 <= k < rest.len() && rest[k] == c;
        assert(s[k + n] == c);
    }
}

/// A cleaned line has no escape.
proof fn lemma_clean_line_has_no_escape(raw: Seq<char>)
    ensures
        !clean_line(raw).contains('\u{1b}'),
{
    let esc = '\u{1b}';
    law_no_escape_left(without_time_stamp(raw));
    lemma_trimmed_is_suffix(without_ansi(without_time_stamp(raw)), esc);
    let line = shown_line(raw);
    if "##[group]"@.is_prefix_of(line) {
        lemma_skip_brings_nothing(line, "##[group]"@.len() as int, esc);
    }
    if "##[command]"@.is_prefix_of(line) {
        lemma_skip_brings_nothing(line, "##[command]"@.len() as int, esc);
    }
    if "##[section]"@.is_prefix_of(line) {
        lemma_skip_brings_nothing(line, "##[section]"@.len() as int, esc);
    }
    let shown = without_marker(line);
    let clean = clean_line(raw);
    if clean.contains(esc) {
        let k = choose|k: int| 0 <= k < clean.len() && clean[k] == esc;
        assert(k < shown.len());
        assert(shown[k] == esc);
    }
}

/// The readable log has no escape, whatever the tools wrote.
pub proof fn law_readable_log_has_no_escape(raw: Seq<char>)
    ensures
        !readable_log(raw).contains('\u{1b}'),
{
    let cleaned = text::lines_of(raw).map_values(|line: Seq<char>| clean_line(line));
    assert forall|i: int| 0 <= i < cleaned.len() implies !(#[trigger] cleaned[i]).contains(
        '\u{1b}',
    ) by {
        lemma_clean_line_has_no_escape(text::lines_of(raw)[i]);
    }
    lemma_flatten_brings_nothing(cleaned, '\u{1b}');
}

/// Putting texts together brings no character that none of them has.
proof fn lemma_flatten_brings_nothing(parts: Seq<Seq<char>>, c: char)
    requires
        forall|i: int| 0 <= i < parts.len() ==> !(#[trigger] parts[i]).contains(c),
    ensures
        !parts.flatten().contains(c),
    decreases parts.len(),
{
    if parts.len() > 0 {
        let init = parts.drop_last();
        assert forall|i: int| 0 <= i < init.len() implies !(#[trigger] init[i]).contains(c) by {
            assert(init[i] == parts[i]);
        }
        lemma_flatten_brings_nothing(init, c);
        init.lemma_flatten_push(parts.last());
        assert(init.push(parts.last()) =~= parts);
        let whole = parts.flatten();
        assert(whole == init.flatten() + parts.last());
        assert(!parts[parts.len() - 1].contains(c));
        if whole.contains(c) {
            let k = choose|k: int| 0 <= k < whole.len() && whole[k] == c;
            if k < init.flatten().len() {
                assert(init.flatten()[k] == c);
            } else {
                assert(parts.last()[k - init.flatten().len()] == c);
            }
        }
    }
}

/// Normalising leaves only lower-case letters and digits.
pub proof fn law_normalized_is_lower_alphanumeric(s: Seq<char>, i: int)
    requires
        0 <= i < normalized(s).len(),
    ensures
        'a' <= normalized(s)[i] <= 'z' || '0' <= normalized(s)[i] <= '9',
{
    let keep = |c: char| ascii_alphanumeric(c);
    s.lemma_filter_pred(keep, i);
}

/// Normalising twice is normalising once, so two names that agree once
/// normalised agree with their normal form.
pub proof fn law_normalize_is_idempotent(s: Seq<char>)
    ensures
        normalized(normalized(s)) == normalized(s),
{
    let keep = |c: char| ascii_alphanumeric(c);
    let lower = |c: char| ascii_lower(c);
    let once = normalized(s);
    assert forall|i: int| 0 <= i < once.len() implies keep(#[trigger] once[i]) && lower(once[i])
        == once[i] by {
        law_normalized_is_lower_alphanumeric(s, i);
    }
    text::lemma_filter_keeps_all(once, keep);
    assert(once.map_values(lower) =~= once);
}

/// A date and a time to the second, with the fraction of the second where there
/// is one, and the `Z` that ends a time stamp.
pub open spec fn stamp_of(d: Seq<char>, f: Seq<char>) -> Seq<char> {
    if f.len() == 0 {
        d.push('Z')
    } else {
        (d.push('.') + f).push('Z')
    }
}

/// A time stamp goes, with the space behind it, however many digits the
/// fraction of its second has: what follows it is the line.
pub proof fn law_time_stamp_is_dropped(d: Seq<char>, f: Seq<char>, t: Seq<char>)
    requires
        d.len() == 19,
        d[4] == '-' && d[7] == '-' && d[10] == 'T' && d[13] == ':' && d[16] == ':',
        forall|i: int|
            0 <= i < 19 && i != 4 && i != 7 && i != 10 && i != 13 && i != 16 ==> '0'
                <= #[trigger] d[i] <= '9',
        forall|i: int| 0 <= i < f.len() ==> '0' <= #[trigger] f[i] <= '9',
    ensures
        without_time_stamp(d + seq!['Z', ' '] + t) == t,
        f.len() > 0 ==> without_time_stamp(d + seq!['.'] + f + seq!['Z', ' '] + t) == t,
        without_time_stamp(stamp_of(d, f).push(' ') + t) == t,
{
    let none = Seq::<char>::empty();
    lemma_stamp(d, none);
    lemma_stamp(d, f);
    text::law_cut_at_the_first(stamp_of(d, none), t, ' ');
    text::law_cut_at_the_first(stamp_of(d, f), t, ' ');
    assert(d + seq!['Z', ' '] + t =~= stamp_of(d, none).push(' ') + t);
    if f.len() > 0 {
        assert(d + seq!['.'] + f + seq!['Z', ' '] + t =~= stamp_of(d, f).push(' ') + t);
    }
}

/// A time stamp has its shape, and no space in it.
proof fn lemma_stamp(d: Seq<char>, f: Seq<char>)
    requires
        d.len() == 19,
        d[4] == '-' && d[7] == '-' && d[10] == 'T' && d[13] == ':' && d[16] == ':',
        forall|i: int|
            0 <= i < 19 && i != 4 && i != 7 && i != 10 && i != 13 && i != 16 ==> '0'
                <= #[trigger] d[i] <= '9',
        forall|i: int| 0 <= i < f.len() ==> '0' <= #[trigger] f[i] <= '9',
    ensures
        time_stamp(stamp_of(d, f)),
        !stamp_of(d, f).contains(' '),
{
    let first = stamp_of(d, f);
    assert forall|i: int| 0 <= i < 19 implies stamp_char(i, #[trigger] first[i]) by {
        assert(first[i] == d[i]);
    }
    if f.len() > 0 {
        assert forall|i: int| 20 <= i < first.len() - 1 implies text::is_digit(
            #[trigger] first[i],
        ) by {
            assert(first[i] == f[i - 20]);
        }
        assert(first[19] == '.');
    }
    if first.contains(' ') {
        let k = choose|k: int| 0 <= k < first.len() && first[k] == ' ';
        if k < 19 {
            assert(first[k] == d[k]);
            assert(stamp_char(k, d[k]));
        } else if f.len() > 0 && 20 <= k < first.len() - 1 {
            assert(first[k] == f[k - 20]);
        }
    }
}

/// Only a time stamp goes: a line that loses anything begins with a date and a
/// time, perhaps with a fraction of the second in digits, and a `Z`, and loses
/// that word and the space behind it. Gives the place of the space.
pub proof fn law_only_a_time_stamp_goes(line: Seq<char>) -> (k: int)
    requires
        without_time_stamp(line) != line,
    ensures
        line.len() > 20,
        line[4] == '-' && line[7] == '-' && line[10] == 'T' && line[13] == ':' && line[16] == ':',
        forall|i: int|
            0 <= i < 19 && i != 4 && i != 7 && i != 10 && i != 13 && i != 16 ==> '0'
                <= #[trigger] line[i] <= '9',
        19 < k < line.len() && line[k] == ' ' && line[k - 1] == 'Z',
        forall|i: int| 0 <= i < k ==> #[trigger] line[i] != ' ',
        k == 20 || k > 21 && line[19] == '.',
        forall|i: int| 20 <= i < k - 1 ==> '0' <= #[trigger] line[i] <= '9',
        line.skip(k + 1) == without_time_stamp(line),
{
    text::law_cut_first_joins(line, ' ');
    let (first, rest) = text::cut_first(line, ' ').unwrap();
    let k = first.len() as int;
    assert(line[k] == ' ' && line[k - 1] == first.last());
    assert(line.skip(k + 1) =~= rest);
    assert forall|i: int| 0 <= i < 19 implies line[i] == first[i] by {}
    assert forall|i: int|
        0 <= i < 19 && i != 4 && i != 7 && i != 10 && i != 13 && i != 16 implies '0'
        <= #[trigger] line[i] <= '9' by {
        assert(stamp_char(i, first[i]));
    }
    assert(stamp_char(4, first[4]) && stamp_char(7, first[7]) && stamp_char(10, first[10])
        && stamp_char(13, first[13]) && stamp_char(16, first[16]));
    assert forall|i: int| 0 <= i < k implies #[trigger] line[i] != ' ' by {
        assert(line[i] == first[i]);
        assert(first.contains(first[i]));
    }
    assert forall|i: int| 20 <= i < k - 1 implies '0' <= #[trigger] line[i] <= '9' by {
        assert(line[i] == first[i]);
        assert(text::is_digit(first[i]));
    }
    assert(line[19] == first[19] || k == 19);
    k
}

/// The readable log of one line, and of the lines behind it, one after the
/// other.
proof fn lemma_line_by_line(line: Seq<char>, rest: Seq<char>)
    requires
        !line.contains('\n'),
        line.len() == 0 || line.last() != '\r',
    ensures
        readable_log(line.push('\n') + rest) == clean_line(line) + readable_log(rest),
{
    let f = |l: Seq<char>| clean_line(l);
    text::law_first_line_first(line, rest);
    let all = text::lines_of(line.push('\n') + rest).map_values(f);
    let others = text::lines_of(rest).map_values(f);
    assert(all =~= seq![clean_line(line)] + others);
    assert(all.first() == clean_line(line));
    assert(all.drop_first() =~= others);
}

/// What text without escapes reads as, behind a time stamp and an indentation.
proof fn lemma_shown(d: Seq<char>, f: Seq<char>, space: Seq<char>, t: Seq<char>)
    requires
        d.len() == 19,
        d[4] == '-' && d[7] == '-' && d[10] == 'T' && d[13] == ':' && d[16] == ':',
        forall|i: int|
            0 <= i < 19 && i != 4 && i != 7 && i != 10 && i != 13 && i != 16 ==> '0'
                <= #[trigger] d[i] <= '9',
        forall|i: int| 0 <= i < f.len() ==> '0' <= #[trigger] f[i] <= '9',
        forall|i: int| 0 <= i < space.len() ==> #[trigger] space[i] == ' ' || space[i] == '\t',
        !t.contains('\u{1b}'),
        t.len() == 0 || !text::white_space(t[0]),
    ensures
        shown_line(stamp_of(d, f).push(' ') + (space + t)) == t,
{
    law_time_stamp_is_dropped(d, f, space + t);
    if space.contains('\u{1b}') {
        let k = choose|k: int| 0 <= k < space.len() && space[k] == '\u{1b}';
        assert(space[k] == ' ' || space[k] == '\t');
    }
    lemma_neither(space, t, '\u{1b}');
    law_plain_text_is_kept(space + t);
    assert forall|i: int| 0 <= i < space.len() implies text::white_space(#[trigger] space[i]) by {
        assert(space[i] == ' ' || space[i] == '\t');
    }
    text::law_only_leading_space_goes(space, t);
}

/// No character of two texts means none of the two together.
proof fn lemma_neither(a: Seq<char>, b: Seq<char>, c: char)
    requires
        !a.contains(c),
        !b.contains(c),
    ensures
        !(a + b).contains(c),
{
    let s = a + b;
    if s.contains(c) {
        let k = choose|k: int| 0 <= k < s.len() && s[k] == c;
        if k < a.len() {
            assert(a[k] == c);
        } else {
            assert(b[k - a.len()] == c);
        }
    }
}

/// A stamped line has no line feed and no return at its end where its text has
/// none.
proof fn lemma_stamped_line(d: Seq<char>, f: Seq<char>, t: Seq<char>)
    requires
        d.len() == 19,
        d[4] == '-' && d[7] == '-' && d[10] == 'T' && d[13] == ':' && d[16] == ':',
        forall|i: int|
            0 <= i < 19 && i != 4 && i != 7 && i != 10 && i != 13 && i != 16 ==> '0'
                <= #[trigger] d[i] <= '9',
        forall|i: int| 0 <= i < f.len() ==> '0' <= #[trigger] f[i] <= '9',
        !t.contains('\n'),
        t.len() == 0 || t.last() != '\r',
    ensures
        !(stamp_of(d, f).push(' ') + t).contains('\n'),
        (stamp_of(d, f).push(' ') + t).last() != '\r',
{
    let first = stamp_of(d, f).push(' ');
    if first.contains('\n') {
        let k = choose|k: int| 0 <= k < first.len() && first[k] == '\n';
        lemma_stamp(d, f);
        if k < 19 {
            assert(first[k] == d[k]);
            assert(stamp_char(k, d[k]));
        } else if f.len() > 0 && 20 <= k < first.len() - 2 {
            assert(first[k] == f[k - 20]);
        }
    }
    lemma_neither(first, t, '\n');
    if t.len() > 0 {
        assert((first + t).last() == t.last());
    } else {
        assert(first + t =~= first);
    }
}

/// A group, command or section marker is unwrapped: of a stamped line with one,
/// the readable log has the title alone, and the lines behind it are read on
/// their own.
pub proof fn law_marker_is_unwrapped(
    d: Seq<char>,
    f: Seq<char>,
    marker: Seq<char>,
    title: Seq<char>,
    rest: Seq<char>,
)
    requires
        d.len() == 19,
        d[4] == '-' && d[7] == '-' && d[10] == 'T' && d[13] == ':' && d[16] == ':',
        forall|i: int|
            0 <= i < 19 && i != 4 && i != 7 && i != 10 && i != 13 && i != 16 ==> '0'
                <= #[trigger] d[i] <= '9',
        forall|i: int| 0 <= i < f.len() ==> '0' <= #[trigger] f[i] <= '9',
        marker == "##[group]"@ || marker == "##[command]"@ || marker == "##[section]"@,
        !title.contains('\n') && !title.contains('\u{1b}'),
        title.len() == 0 || title.last() != '\r',
    ensures
        readable_log((stamp_of(d, f).push(' ') + (marker + title)).push('\n') + rest)
            == title.push('\n') + readable_log(rest),
{
    reveal_strlit("##[group]");
    reveal_strlit("##[command]");
    reveal_strlit("##[section]");
    reveal_strlit("##[endgroup]");
    let t = marker + title;
    let group = "##[group]"@;
    let command = "##[command]"@;
    let section = "##[section]"@;
    assert(!marker.contains('\n') && !marker.contains('\u{1b}'));
    lemma_neither(marker, title, '\n');
    lemma_neither(marker, title, '\u{1b}');
    assert(t[0] == '#');
    assert(t.last() != '\r') by {
        if title.len() > 0 {
            assert(t.last() == title.last());
        } else {
            assert(t =~= marker);
        }
    }
    let none = Seq::<char>::empty();
    assert(none + t =~= t);
    lemma_stamped_line(d, f, t);
    lemma_shown(d, f, none, t);
    lemma_line_by_line(stamp_of(d, f).push(' ') + t, rest);
    assert(t[3] == marker[3]);
    assert("##[endgroup]"@[3] == 'e');
    assert(t.skip(marker.len() as int) =~= title);
    assert(marker.is_prefix_of(t)) by {
        assert(t.take(marker.len() as int) =~= marker);
    }
    assert(marker == command || marker == section ==> !group.is_prefix_of(t)) by {
        assert(group[3] == 'g');
    }
    assert(marker == section ==> !command.is_prefix_of(t)) by {
        assert(command[3] == 'c');
    }
}

/// The end of a group leaves nothing in the readable log.
pub proof fn law_group_end_leaves_nothing(d: Seq<char>, f: Seq<char>, rest: Seq<char>)
    requires
        d.len() == 19,
        d[4] == '-' && d[7] == '-' && d[10] == 'T' && d[13] == ':' && d[16] == ':',
        forall|i: int|
            0 <= i < 19 && i != 4 && i != 7 && i != 10 && i != 13 && i != 16 ==> '0'
                <= #[trigger] d[i] <= '9',
        forall|i: int| 0 <= i < f.len() ==> '0' <= #[trigger] f[i] <= '9',
    ensures
        readable_log((stamp_of(d, f).push(' ') + "##[endgroup]"@).push('\n') + rest)
            == readable_log(rest),
{
    reveal_strlit("##[endgroup]");
    let t = "##[endgroup]"@;
    assert(!t.contains('\n') && !t.contains('\u{1b}'));
    let none = Seq::<char>::empty();
    assert(none + t =~= t);
    lemma_stamped_line(d, f, t);
    lemma_shown(d, f, none, t);
    lemma_line_by_line(stamp_of(d, f).push(' ') + t, rest);
    assert(Seq::<char>::empty() + readable_log(rest) =~= readable_log(rest));
}

/// Any other line is kept, an error or a warning with its marker, an empty one
/// as such: of a stamped line that is no group, command or section marker the
/// readable log has the text as it is, without the indentation.
pub proof fn law_plain_line_is_kept(
    d: Seq<char>,
    f: Seq<char>,
    space: Seq<char>,
    t: Seq<char>,
    rest: Seq<char>,
)
    requires
        d.len() == 19,
        d[4] == '-' && d[7] == '-' && d[10] == 'T' && d[13] == ':' && d[16] == ':',
        forall|i: int|
            0 <= i < 19 && i != 4 && i != 7 && i != 10 && i != 13 && i != 16 ==> '0'
                <= #[trigger] d[i] <= '9',
        forall|i: int| 0 <= i < f.len() ==> '0' <= #[trigger] f[i] <= '9',
        forall|i: int| 0 <= i < space.len() ==> #[trigger] space[i] == ' ' || space[i] == '\t',
        !t.contains('\n') && !t.contains('\u{1b}'),
        t.len() == 0 || t.last() != '\r' && !text::white_space(t[0]),
        !"##[group]"@.is_prefix_of(t),
        !"##[command]"@.is_prefix_of(t),
        !"##[section]"@.is_prefix_of(t),
        t != "##[endgroup]"@,
    ensures
        readable_log((stamp_of(d, f).push(' ') + (space + t)).push('\n') + rest) == t.push('\n')
            + readable_log(rest),
{
    if space.contains('\n') {
        let k = choose|k: int| 0 <= k < space.len() && space[k] == '\n';
        assert(space[k] == ' ' || space[k] == '\t');
    }
    lemma_neither(space, t, '\n');
    if t.len() > 0 {
        assert((space + t).last() == t.last());
    } else if space.len() > 0 {
        assert((space + t).last() == space[space.len() - 1]);
    }
    lemma_stamped_line(d, f, space + t);
    lemma_shown(d, f, space, t);
    lemma_line_by_line(stamp_of(d, f).push(' ') + (space + t), rest);
}

/// A line without a time stamp is read as it is, and an empty log has no line.
pub proof fn law_unstamped_line_is_kept(t: Seq<char>, rest: Seq<char>)
    requires
        t.len() > 0 && !('0' <= t[0] <= '9'),
        !t.contains('\n') && !t.contains('\u{1b}'),
        t.last() != '\r' && !text::white_space(t[0]),
        !"##[group]"@.is_prefix_of(t),
        !"##[command]"@.is_prefix_of(t),
        !"##[section]"@.is_prefix_of(t),
        t != "##[endgroup]"@,
    ensures
        readable_log(t.push('\n') + rest) == t.push('\n') + readable_log(rest),
        readable_log(Seq::empty()) == Seq::<char>::empty(),
{
    if without_time_stamp(t) != t {
        law_only_a_time_stamp_goes(t);
    }
    law_plain_text_is_kept(t);
    let none = Seq::<char>::empty();
    text::law_only_leading_space_goes(none, t);
    assert(none + t =~= t);
    lemma_line_by_line(t, rest);
    let lines = text::lines_of(none).map_values(|line: Seq<char>| clean_line(line));
    assert(lines =~= Seq::<Seq<char>>::empty());
}

/// An escape sequence goes from its escape to its final letter, whatever stands
/// in between, and nothing of the text around it.
pub proof fn law_escape_sequence_goes(a: Seq<char>, inside: Seq<char>, last: char, b: Seq<char>)
    requires
        !a.contains('\u{1b}'),
        forall|i: int|
            0 <= i < inside.len() ==> !('a' <= #[trigger] inside[i] <= 'z' || 'A' <= inside[i]
                <= 'Z'),
        'a' <= last <= 'z' || 'A' <= last <= 'Z',
    ensures
        without_ansi(a + seq!['\u{1b}', '['] + inside + seq![last] + b) == a + without_ansi(b),
    decreases a.len(),
{
    let s = a + seq!['\u{1b}', '['] + inside + seq![last] + b;
    if a.len() == 0 {
        assert(s[0] == '\u{1b}' && s[1] == '[');
        assert(s.skip(2) =~= inside + seq![last] + b);
        lemma_past(inside, last, b);
        assert(a + without_ansi(b) =~= without_ansi(b));
    } else {
        let rest = a.skip(1);
        assert(a.contains(a[0]));
        assert(s[0] == a[0]);
        assert(s.skip(1) =~= rest + seq!['\u{1b}', '['] + inside + seq![last] + b);
        if rest.contains('\u{1b}') {
            let k = choose|k: int| 0 <= k < rest.len() && rest[k] == '\u{1b}';
            assert(a[k + 1] == '\u{1b}');
        }
        law_escape_sequence_goes(rest, inside, last, b);
        assert(seq![a[0]] + (rest + without_ansi(b)) =~= a + without_ansi(b));
    }
}

/// Past the first letter comes what follows it.
proof fn lemma_past(inside: Seq<char>, last: char, b: Seq<char>)
    requires
        forall|i: int| 0 <= i < inside.len() ==> !ascii_letter(#[trigger] inside[i]),
        ascii_letter(last),
    ensures
        past_letter(inside + seq![last] + b) == b,
    decreases inside.len(),
{
    let s = inside + seq![last] + b;
    if inside.len() == 0 {
        assert(s[0] == last);
        assert(s.skip(1) =~= b);
    } else {
        assert(s[0] == inside[0]);
        assert(s.skip(1) =~= inside.skip(1) + seq![last] + b);
        assert forall|i: int| 0 <= i < inside.skip(1).len() implies !ascii_letter(
            #[trigger] inside.skip(1)[i],
        ) by {
            assert(inside.skip(1)[i] == inside[i + 1]);
        }
        lemma_past(inside.skip(1), last, b);
    }
}

/// Names are normalised character by character.
pub proof fn law_normalize_goes_by_characters(a: Seq<char>, b: Seq<char>)
    ensures
        normalized(a + b) == normalized(a) + normalized(b),
{
    let keep = |c: char| ascii_alphanumeric(c);
    let lower = |c: char| ascii_lower(c);
    Seq::filter_distributes_over_add(a, b, keep);
    assert((a.filter(keep) + b.filter(keep)).map_values(lower) =~= a.filter(keep).map_values(lower)
        + b.filter(keep).map_values(lower));
}

/// A letter or a digit stays, a capital in lower case, and any other character
/// goes.
pub proof fn law_normalize_a_character(c: char)
    ensures
        'a' <= c <= 'z' || '0' <= c <= '9' ==> normalized(seq![c]) == seq![c],
        'A' <= c <= 'Z' ==> normalized(seq![c]) == seq![(c as u32 + 32) as char],
        !('a' <= c <= 'z' || '0' <= c <= '9' || 'A' <= c <= 'Z') ==> normalized(seq![c])
            == Seq::<char>::empty(),
{
    let keep = |c: char| ascii_alphanumeric(c);
    let lower = |c: char| ascii_lower(c);
    let none = Seq::<char>::empty();
    reveal(Seq::filter);
    assert(seq![c] =~= none.push(c));
    none.lemma_filter_push(c, keep);
    assert(none.filter(keep) =~= none);
    assert(none.push(c).map_values(lower) =~= seq![ascii_lower(c)]);
    assert(none.map_values(lower) =~= none);
}

/// A decimal number has no slash in it.
proof fn lemma_no_slash(n: nat)
    ensures
        !text::decimal(n).contains('/'),
{
    text::law_decimal_is_digits(n);
    let all = text::decimal(n);
    if all.contains('/') {
        let k = choose|k: int| 0 <= k < all.len() && all[k] == '/';
        assert('0' <= all[k]);
    }
}

/// A step's file name, cut from its folder.
proof fn lemma_step_file(folder: Seq<char>, number: int, label: Seq<char>)
    requires
        !label.contains('/'),
    ensures
        folder_and_file(Some(folder.push('/') + (step_prefix(number) + label))) == Some(
            (folder, step_prefix(number) + label),
        ),
        step_prefix(number).is_prefix_of(step_prefix(number) + label),
{
    let prefix = step_prefix(number);
    let n = if number < 0 {
        (-number) as nat
    } else {
        number as nat
    };
    lemma_no_slash(n);
    if prefix.contains('/') {
        let k = choose|k: int| 0 <= k < prefix.len() && prefix[k] == '/';
        if number < 0 {
            if k > 0 && k < prefix.len() - 1 {
                assert(text::decimal(n)[k - 1] == '/');
            }
        } else if k < prefix.len() - 1 {
            assert(text::decimal(n)[k] == '/');
        }
    }
    lemma_neither(prefix, label, '/');
    text::law_cut_at_the_last(folder, prefix + label, '/');
    assert((prefix + label).take(prefix.len() as int) =~= prefix);
}

/// A job's own step is found: where an entry has the step's number and stands in
/// a folder named like the job, the entry found comes no later, has the step's
/// number, and stands in a folder with exactly the job's letters and digits,
/// never in that of a job whose name has more or others. Gives the entry's
/// place, its folder and its file.
pub proof fn law_own_job_comes_first(
    names: Seq<Option<Seq<char>>>,
    job: Seq<char>,
    number: int,
    step: Seq<char>,
    j: int,
    label: Seq<char>,
) -> (r: (int, Seq<char>, Seq<char>))
    requires
        0 <= j < names.len(),
        !label.contains('/'),
        names[j] == Some(job.push('/') + (text::signed_decimal(number).push('_') + label)),
    ensures
        step_entry(names, job, number, step) == Some(r.0),
        0 <= r.0 <= j,
        names[r.0] == Some(r.1.push('/') + r.2),
        !r.2.contains('/'),
        text::signed_decimal(number).push('_').is_prefix_of(r.2),
        normalized(r.1) == normalized(job),
{
    let exact = |n: Option<Seq<char>>| names_step(n, job, number);
    lemma_step_file(job, number, label);
    assert(exact(names[j]));
    let i = lemma_some_first(names, exact, j);
    lemma_first_at(names, exact, i);
    let full = names[i].unwrap();
    text::law_cut_last_joins(full, '/');
    let (folder, file) = text::cut_last(full, '/').unwrap();
    (i, folder, file)
}

/// Where something holds somewhere, it holds somewhere first.
proof fn lemma_some_first<A>(s: Seq<A>, p: spec_fn(A) -> bool, j: int) -> (i: int)
    requires
        0 <= j < s.len(),
        p(s[j]),
    ensures
        first_at(s, p, i),
        i <= j,
    decreases j,
{
    if exists|k: int| 0 <= k < j && p(#[trigger] s[k]) {
        let k = choose|k: int| 0 <= k < j && p(#[trigger] s[k]);
        lemma_some_first(s, p, k)
    } else {
        j
    }
}

/// Whatever entry is found has the step's number, and either stands in the
/// job's folder or has the step's letters and digits in its name. Gives its
/// folder and its file.
pub proof fn law_found_entry_fits(
    names: Seq<Option<Seq<char>>>,
    job: Seq<char>,
    number: int,
    step: Seq<char>,
) -> (r: (Seq<char>, Seq<char>))
    requires
        step_entry(names, job, number, step) is Some,
    ensures
        0 <= step_entry(names, job, number, step).unwrap() < names.len(),
        names[step_entry(names, job, number, step).unwrap()] == Some(r.0.push('/') + r.1),
        !r.1.contains('/'),
        text::signed_decimal(number).push('_').is_prefix_of(r.1),
        normalized(r.0) == normalized(job) || text::contains_text(
            normalized(r.1),
            normalized(step),
        ),
{
    let exact = |n: Option<Seq<char>>| names_step(n, job, number);
    let loose = |n: Option<Seq<char>>| resembles_step(n, number, step);
    let i = step_entry(names, job, number, step).unwrap();
    if first_where(names, exact) is Some {
        assert(first_at(names, exact, i));
    } else {
        assert(first_at(names, loose, i));
    }
    text::law_cut_last_joins(names[i].unwrap(), '/');
    text::cut_last(names[i].unwrap(), '/').unwrap()
}

/// Where the job's folder is not to be had, the first entry with the step's
/// number and name in another folder is found: what is found stands no later
/// than any such entry, or in the job's own folder. Gives the found entry's
/// folder and file.
pub proof fn law_step_name_is_enough(
    names: Seq<Option<Seq<char>>>,
    job: Seq<char>,
    number: int,
    step: Seq<char>,
    j: int,
    folder: Seq<char>,
    label: Seq<char>,
) -> (r: (Seq<char>, Seq<char>))
    requires
        0 <= j < names.len(),
        !label.contains('/'),
        names[j] == Some(folder.push('/') + (text::signed_decimal(number).push('_') + label)),
        text::contains_text(
            normalized(text::signed_decimal(number).push('_') + label),
            normalized(step),
        ),
    ensures
        step_entry(names, job, number, step) is Some,
        names[step_entry(names, job, number, step).unwrap()] == Some(r.0.push('/') + r.1),
        !r.1.contains('/'),
        step_entry(names, job, number, step).unwrap() <= j || normalized(r.0) == normalized(job),
{
    let exact = |n: Option<Seq<char>>| names_step(n, job, number);
    let loose = |n: Option<Seq<char>>| resembles_step(n, number, step);
    lemma_step_file(folder, number, label);
    assert(loose(names[j]));
    let i = lemma_some_first(names, loose, j);
    lemma_first_at(names, loose, i);
    let found = step_entry(names, job, number, step).unwrap();
    if first_where(names, exact) is Some {
        assert(first_at(names, exact, found));
    } else {
        assert(found == i);
    }
    text::law_cut_last_joins(names[found].unwrap(), '/');
    text::cut_last(names[found].unwrap(), '/').unwrap()
}

/// What is told of a step's log: its readable text, or which of the three went
/// wrong, opening the archive, finding the step or reading it.
pub proof fn law_step_log_is_told(
    entries: Seq<(Option<Seq<char>>, Result<Seq<char>, Seq<char>>)>,
    job: Seq<char>,
    number: int,
    step: Seq<char>,
    reason: Seq<char>,
)
    ensures
        archived_step_log(Err(reason), job, number, step) == Err::<Seq<char>, Seq<char>>(
            "couldn't open the log archive: "@ + reason,
        ),
        step_entry(entry_names(entries), job, number, step) is None ==> archived_step_log(
            Ok(entries),
            job,
            number,
            step,
        ) == Err::<Seq<char>, Seq<char>>(
            "couldn't find this step's log in the archive — open it in the browser instead"@,
        ),
        step_entry(entry_names(entries), job, number, step) matches Some(i) ==> {
            &&& entries[i].1 matches Ok(raw) ==> archived_step_log(Ok(entries), job, number, step)
                == Ok::<Seq<char>, Seq<char>>(readable_log(raw))
            &&& entries[i].1 matches Err(why) ==> archived_step_log(Ok(entries), job, number, step)
                == Err::<Seq<char>, Seq<char>>("couldn't read the step log: "@ + why)
        },
{
}

/// The log of a job's own step is read from an entry in a folder with exactly
/// the job's letters and digits, and no other, where the archive has the step
/// under the job's name. Gives the entry's place and its folder and file.
pub proof fn law_own_step_log_is_read(
    entries: Seq<(Option<Seq<char>>, Result<Seq<char>, Seq<char>>)>,
    job: Seq<char>,
    number: int,
    step: Seq<char>,
    j: int,
    label: Seq<char>,
) -> (r: (int, Seq<char>, Seq<char>))
    requires
        0 <= j < entries.len(),
        !label.contains('/'),
        entries[j].0 == Some(job.push('/') + (text::signed_decimal(number).push('_') + label)),
    ensures
        0 <= r.0 <= j,
        entries[r.0].0 == Some(r.1.push('/') + r.2),
        !r.2.contains('/'),
        text::signed_decimal(number).push('_').is_prefix_of(r.2),
        normalized(r.1) == normalized(job),
        entries[r.0].1 matches Ok(raw) ==> archived_step_log(Ok(entries), job, number, step)
            == Ok::<Seq<char>, Seq<char>>(readable_log(raw)),
{
    law_own_job_comes_first(entry_names(entries), job, number, step, j, label)
}

/// An escape that begins no sequence goes alone, and a sequence without its
/// final letter takes the rest of the text with it.
pub proof fn law_other_escapes_go(a: Seq<char>, b: Seq<char>, inside: Seq<char>)
    requires
        !a.contains('\u{1b}'),
        b.len() == 0 || b[0] != '[',
        forall|i: int|
            0 <= i < inside.len() ==> !('a' <= #[trigger] inside[i] <= 'z' || 'A' <= inside[i]
                <= 'Z'),
    ensures
        without_ansi(a + seq!['\u{1b}'] + b) == a + without_ansi(b),
        without_ansi(a + seq!['\u{1b}', '['] + inside) == a,
    decreases a.len(),
{
    let lone = a + seq!['\u{1b}'] + b;
    let open = a + seq!['\u{1b}', '['] + inside;
    if a.len() == 0 {
        assert(lone[0] == '\u{1b}');
        assert(lone.skip(1) =~= b);
        assert(b.len() > 0 ==> lone[1] == b[0]);
        assert(a + without_ansi(b) =~= without_ansi(b));
        assert(open[0] == '\u{1b}' && open[1] == '[');
        assert(open.skip(2) =~= inside);
        lemma_never_past(inside);
        assert(without_ansi(Seq::<char>::empty()) =~= Seq::<char>::empty());
        assert(without_ansi(open) =~= a);
    } else {
        let rest = a.skip(1);
        assert(a.contains(a[0]));
        assert(lone[0] == a[0] && open[0] == a[0]);
        assert(lone.skip(1) =~= rest + seq!['\u{1b}'] + b);
        assert(open.skip(1) =~= rest + seq!['\u{1b}', '['] + inside);
        if rest.contains('\u{1b}') {
            let k = choose|k: int| 0 <= k < rest.len() && rest[k] == '\u{1b}';
            assert(a[k + 1] == '\u{1b}');
        }
        law_other_escapes_go(rest, b, inside);
        assert(seq![a[0]] + (rest + without_ansi(b)) =~= a + without_ansi(b));
        assert(seq![a[0]] + rest =~= a);
    }
}

/// Without a letter nothing comes past it.
proof fn lemma_never_past(inside: Seq<char>)
    requires
        forall|i: int| 0 <= i < inside.len() ==> !ascii_letter(#[trigger] inside[i]),
    ensures
        past_letter(inside) == Seq::<char>::empty(),
    decreases inside.len(),
{
    if inside.len() > 0 {
        assert(!ascii_letter(inside[0]));
        assert forall|i: int| 0 <= i < inside.skip(1).len() implies !ascii_letter(
            #[trigger] inside.skip(1)[i],
        ) by {
            assert(inside.skip(1)[i] == inside[i + 1]);
        }
        lemma_never_past(inside.skip(1));
    }
}

} // verus!
