//! The sections of a desktop file: lines of the form `[Header]`, each followed
//! by lines `key=value` or `key[locale]=value`.
//!
//! Only sections whose header begins with `Desktop ` are of interest. The
//! lines before the first such header, and those of other sections, are
//! passed over.

use crate::errors::{Error, ErrorView};
use crate::locale::{default_locale, spec_parse_locale, Locale, LocaleView};
use crate::localised::{
    lemma_add_keeps_well_formed, lemma_resolve_keeps_keys_distinct, spec_add, spec_resolve,
    well_formed, Entries, LocalisedEntries, LocalisedGroup, Section, Sections,
};
use crate::table::{distinct_keys, key_index, lemma_key_index, lemma_put, put, Table};
use crate::text::{
    chars_of, find, first_index_of, last_index_of, lemma_first_index_is, lemma_first_index_of,
    rfind, slice, starts_with, text_of, trim, trimmed,
};
use vstd::prelude::*;

verus! {

/// The mathematical value of `Sections`: the headers in order, each with the
/// entries of its section.
pub type SectionEntries = Seq<(Seq<char>, Entries)>;

/// `line` without a carriage return at its end.
pub open spec fn strip_cr(line: Seq<char>) -> Seq<char> {
    if line.len() > 0 && line.last() == '\r' {
        line.drop_last()
    } else {
        line
    }
}

/// The lines of `s`. A line ends at a line feed, which does not belong to it,
/// nor does a carriage return just before the line feed. What follows the
/// last line feed is a line if it holds a character.
pub open spec fn split_lines(s: Seq<char>) -> Seq<Seq<char>>
    decreases s.len(),
{
    if s.len() == 0 {
        Seq::empty()
    } else {
        let n = first_index_of(s, '\n');
        if n < 0 || n >= s.len() {
            seq![s]
        } else {
            seq![strip_cr(s.take(n))] + split_lines(s.skip(n + 1))
        }
    }
}

/// What stands in `s` before the first `c`: all of `s` where there is none.
pub open spec fn until(s: Seq<char>, c: char) -> Seq<char> {
    let i = first_index_of(s, c);
    if i < 0 {
        s
    } else {
        s.take(i)
    }
}

/// Whether the line, trimmed, begins with `[`.
pub open spec fn opens_section(line: Seq<char>) -> bool {
    trim(line).len() > 0 && trim(line)[0] == '['
}

/// The header that the line spells: where the line, trimmed, begins with `[`,
/// what follows up to the first `]` or, without one, up to the end.
pub open spec fn spec_parse_header(line: Seq<char>) -> Option<Seq<char>> {
    if opens_section(line) {
        Some(until(trim(line).drop_first(), ']'))
    } else {
        None
    }
}

/// The beginning of every header that is of interest.
pub open spec fn header_prefix() -> Seq<char> {
    "Desktop "@
}

/// Whether the line spells a header that is of interest.
pub open spec fn is_desktop_header(line: Seq<char>) -> bool {
    match spec_parse_header(line) {
        Some(header) => header_prefix().is_prefix_of(header),
        None => false,
    }
}

/// The index of the first line at or after `from` that spells a header of
/// interest, or the number of lines if there is none.
pub open spec fn header_index(lines: Seq<Seq<char>>, from: int) -> int
    decreases lines.len() - from,
{
    if from < 0 || from >= lines.len() {
        lines.len() as int
    } else if is_desktop_header(lines[from]) {
        from
    } else {
        header_index(lines, from + 1)
    }
}

/// The index of the first line at or after `from` that opens a section, or
/// the number of lines if there is none.
pub open spec fn body_end(lines: Seq<Seq<char>>, from: int) -> int
    decreases lines.len() - from,
{
    if from < 0 || from >= lines.len() {
        lines.len() as int
    } else if opens_section(lines[from]) {
        from
    } else {
        body_end(lines, from + 1)
    }
}

/// `s` split at its first `delim`: what stands before it and what stands
/// after it, both trimmed. Nothing where `s` holds no `delim`.
pub open spec fn spec_split_first(delim: char, s: Seq<char>) -> Option<(Seq<char>, Seq<char>)> {
    let i = first_index_of(s, delim);
    if i < 0 {
        None
    } else {
        Some((trim(s.take(i)), trim(s.skip(i + 1))))
    }
}

/// The name and the locale that a key spells.
///
/// A key that ends in a bracketed tag, `name[tag]`, has the locale that the
/// tag spells; with an empty tag, or without brackets, it has the default
/// locale. Where the tag spells no locale, the whole key, brackets and all, is
/// the name, with the default locale. The brackets are the last `]` and the
/// last `[` before it; what follows the `]` is dropped.
pub open spec fn spec_parse_key(line: Seq<char>) -> (Seq<char>, LocaleView) {
    let j = last_index_of(line, ']');
    let i = last_index_of(line.take(j), '[');
    if j < 0 || i < 0 {
        (line, default_locale())
    } else if j - i > 1 {
        match spec_parse_locale(line.subrange(i + 1, j)) {
            Some(locale) => (line.take(i), locale),
            None => (line, default_locale()),
        }
    } else {
        (line.take(i), default_locale())
    }
}

/// The section `group` after one more line of its body.
///
/// A line that is blank or, trimmed, begins with `#` changes nothing, nor does
/// one without `=` or with nothing after it. Any other line stores what
/// follows its first `=` under the key that stands before it.
pub open spec fn add_line(group: LocalisedEntries, line: Seq<char>) -> LocalisedEntries {
    let t = trim(line);
    if t.len() == 0 || t[0] == '#' {
        group
    } else {
        match spec_split_first('=', t) {
            None => group,
            Some((key, value)) => if value.len() == 0 {
                group
            } else {
                spec_add(group, spec_parse_key(key).0, spec_parse_key(key).1, value)
            },
        }
    }
}

/// The section that the lines from `from` up to, not including, `to` spell.
pub open spec fn parse_body(lines: Seq<Seq<char>>, from: int, to: int) -> LocalisedEntries
    decreases to - from,
{
    if to <= from {
        Seq::empty()
    } else {
        add_line(parse_body(lines, from, to - 1), lines[to - 1])
    }
}

/// The sections `acc` together with those that the lines from `from` on
/// spell, each with its values chosen for `locale`. A header that comes
/// again takes the place of the section that had it before.
pub open spec fn parse_groups(
    lines: Seq<Seq<char>>,
    from: int,
    locale: LocaleView,
    acc: SectionEntries,
) -> SectionEntries
    decreases lines.len() - from,
    via parse_groups_terminates
{
    let h = header_index(lines, from);
    let end = body_end(lines, h + 1);
    if from < 0 || h >= lines.len() {
        acc
    } else {
        parse_groups(
            lines,
            end,
            locale,
            put(
                acc,
                spec_parse_header(lines[h])->0,
                spec_resolve(parse_body(lines, h + 1, end), locale),
            ),
        )
    }
}

#[via_fn]
proof fn parse_groups_terminates(
    lines: Seq<Seq<char>>,
    from: int,
    locale: LocaleView,
    acc: SectionEntries,
) {
    if from >= 0 {
        lemma_index_bounds(lines, from);
        lemma_index_bounds(lines, header_index(lines, from) + 1);
    }
}

/// The sections of interest of the file `src`, with the values for `locale`;
/// nothing where the file holds no such section.
pub open spec fn spec_parse_desktop_groups(src: Seq<char>, locale: LocaleView) -> Option<
    SectionEntries,
> {
    let sections = parse_groups(split_lines(src), 0, locale, Seq::empty());
    if sections.len() == 0 {
        None
    } else {
        Some(sections)
    }
}

/// Where the searches for a header and for the end of a body arrive: not
/// before their start, and not past the last line.
pub proof fn lemma_index_bounds(lines: Seq<Seq<char>>, from: int)
    requires
        0 <= from,
    ensures
        from <= lines.len() ==> from <= header_index(lines, from) <= lines.len(),
        from <= lines.len() ==> from <= body_end(lines, from) <= lines.len(),
        from > lines.len() ==> header_index(lines, from) == lines.len(),
        from > lines.len() ==> body_end(lines, from) == lines.len(),
        header_index(lines, from) < lines.len() ==> is_desktop_header(
            lines[header_index(lines, from)],
        ),
    decreases lines.len() - from,
{
    if from < lines.len() {
        lemma_index_bounds(lines, from + 1);
    }
}

/// The character sequences of a list of lines.
pub open spec fn rows(lines: Seq<Vec<char>>) -> Seq<Seq<char>> {
    Seq::new(lines.len(), |i: int| lines[i]@)
}

/// Every body is a well formed section: it holds no key twice and, under each
/// key, no tag twice.
pub proof fn lemma_parse_body_well_formed(lines: Seq<Seq<char>>, from: int, to: int)
    ensures
        well_formed(parse_body(lines, from, to)),
    decreases to - from,
{
    if to > from {
        lemma_parse_body_well_formed(lines, from, to - 1);
        let before = parse_body(lines, from, to - 1);
        let line = lines[to - 1];
        if add_line(before, line) != before {
            let pair = spec_split_first('=', trim(line))->0;
            lemma_add_keeps_well_formed(
                before,
                spec_parse_key(pair.0).0,
                spec_parse_key(pair.0).1,
                pair.1,
            );
        }
    }
}

/// No header comes twice among the sections that are read, and within each
/// section no key does, as long as this holds of the sections to begin with.
pub proof fn lemma_parse_groups_distinct(
    lines: Seq<Seq<char>>,
    from: int,
    locale: LocaleView,
    acc: SectionEntries,
)
    requires
        proper(acc),
    ensures
        proper(parse_groups(lines, from, locale, acc)),
    decreases lines.len() - from,
{
    let h = header_index(lines, from);
    let end = body_end(lines, h + 1);
    if !(from < 0 || h >= lines.len()) {
        lemma_index_bounds(lines, from);
        lemma_index_bounds(lines, h + 1);
        let body = parse_body(lines, h + 1, end);
        let header = spec_parse_header(lines[h])->0;
        lemma_parse_body_well_formed(lines, h + 1, end);
        lemma_resolve_keeps_keys_distinct(body, locale);
        let next = put(acc, header, spec_resolve(body, locale));
        lemma_put(acc, header, spec_resolve(body, locale), header);
        lemma_key_index(acc, header);
        assert forall|k: int| 0 <= k < next.len() implies distinct_keys((#[trigger] next[k]).1) by {
            let i = key_index(acc, header);
            if i >= 0 && k != i {
                assert(next[k] == acc[k]);
            } else if i < 0 && k < acc.len() {
                assert(next[k] == acc[k]);
            }
        }
        lemma_parse_groups_distinct(lines, end, locale, next);
    }
}

/// Whether the header of every section begins with `Desktop `.
pub open spec fn of_interest(sections: SectionEntries) -> bool {
    forall|k: int|
        0 <= k < sections.len() ==> header_prefix().is_prefix_of((#[trigger] sections[k]).0)
}

/// Every section that is read has a header that begins with `Desktop `.
pub proof fn lemma_parse_groups_headers(
    lines: Seq<Seq<char>>,
    from: int,
    locale: LocaleView,
    acc: SectionEntries,
)
    requires
        of_interest(acc),
    ensures
        of_interest(parse_groups(lines, from, locale, acc)),
    decreases lines.len() - from,
{
    let h = header_index(lines, from);
    let end = body_end(lines, h + 1);
    if !(from < 0 || h >= lines.len()) {
        lemma_index_bounds(lines, from);
        lemma_index_bounds(lines, h + 1);
        let header = spec_parse_header(lines[h])->0;
        let next = put(acc, header, spec_resolve(parse_body(lines, h + 1, end), locale));
        lemma_key_index(acc, header);
        assert forall|k: int| 0 <= k < next.len() implies header_prefix().is_prefix_of(
            (#[trigger] next[k]).0,
        ) by {
            let i = key_index(acc, header);
            if i >= 0 && k != i {
                assert(next[k] == acc[k]);
            } else if i < 0 && k < acc.len() {
                assert(next[k] == acc[k]);
            }
        }
        lemma_parse_groups_headers(lines, end, locale, next);
    }
}

/// Whether no header comes twice among the sections, and within each section
/// no key.
pub open spec fn proper(sections: SectionEntries) -> bool {
    &&& distinct_keys(sections)
    &&& forall|i: int| 0 <= i < sections.len() ==> distinct_keys((#[trigger] sections[i]).1)
}

/// The lines of a text, and a place among them up to which they were read.
pub struct Lines {
    lines: Vec<Vec<char>>,
    pos: usize,
}

impl Lines {
    /// All the lines.
    pub closed spec fn text(&self) -> Seq<Seq<char>> {
        rows(self.lines@)
    }

    /// The number of lines that were read.
    pub closed spec fn cursor(&self) -> int {
        self.pos as int
    }

    /// The lines of `src`, none of them read.
    pub fn new(src: &str) -> (r: Lines)
        ensures
            r.text() == split_lines(src@),
            r.cursor() == 0,
    {
        let chars = chars_of(src);
        let n = chars.len();
        let mut lines: Vec<Vec<char>> = Vec::new();
        let mut start: usize = 0;
        let mut i: usize = 0;
        assert(rows(lines@) =~= Seq::<Seq<char>>::empty());
        assert(src@.skip(0) =~= src@);
        assert(Seq::<Seq<char>>::empty() + split_lines(src@) =~= split_lines(src@));
        while i < n
            invariant
                start <= i <= n == chars.len(),
                chars@ == src@,
                forall|j: int| start <= j < i ==> chars@[j] != '\n',
                split_lines(src@) == rows(lines@) + split_lines(src@.skip(start as int)),
            decreases n - i,
        {
            if chars[i] == '\n' {
                let mut line = slice(&chars, start, i);
                let ghost raw = line@;
                if line.len() > 0 && line[line.len() - 1] == '\r' {
                    line.pop();
                }
                assert(line@ == strip_cr(raw));
                proof {
                    let rest = src@.skip(start as int);
                    assert forall|j: int| 0 <= j < i - start implies rest[j] != '\n' by {
                        assert(rest[j] == chars@[start + j]);
                    }
                    lemma_first_index_is(rest, '\n', i - start);
                    assert(rest.take(i - start) =~= raw);
                    assert(rest.skip(i - start + 1) =~= src@.skip(i + 1));
                    assert(split_lines(rest) == seq![strip_cr(raw)] + split_lines(
                        src@.skip(i + 1),
                    ));
                }
                let ghost before = rows(lines@);
                lines.push(line);
                assert(rows(lines@) =~= before.push(strip_cr(raw)));
                assert(before + (seq![strip_cr(raw)] + split_lines(src@.skip(i + 1)))
                    =~= before.push(strip_cr(raw)) + split_lines(src@.skip(i + 1)));
                start = i + 1;
            }
            i += 1;
        }
        if start < n {
            let line = slice(&chars, start, n);
            proof {
                let rest = src@.skip(start as int);
                assert(rest =~= line@);
                assert forall|j: int| 0 <= j < rest.len() implies rest[j] != '\n' by {
                    assert(rest[j] == chars@[start + j]);
                }
                lemma_first_index_of(rest, '\n');
                assert(split_lines(rest) == seq![rest]);
            }
            let ghost before = rows(lines@);
            lines.push(line);
            assert(rows(lines@) =~= before + seq![line@]);
        } else {
            assert(src@.skip(start as int).len() == 0);
            assert(rows(lines@) + Seq::<Seq<char>>::empty() =~= rows(lines@));
        }
        Lines { lines, pos: 0 }
    }

    /// The next line, which stays unread.
    pub fn peek(&self) -> (r: Option<String>)
        ensures
            self.cursor() < self.text().len() ==> r.deep_view() == Some(
                self.text()[self.cursor()],
            ),
            self.cursor() >= self.text().len() ==> r is None,
    {
        if self.pos < self.lines.len() {
            assert(self.text()[self.pos as int] == self.lines@[self.pos as int]@);
            Some(text_of(&self.lines[self.pos]))
        } else {
            None
        }
    }

    /// Reads the next line.
    pub fn next(&mut self) -> (r: Option<String>)
        ensures
            final(self).text() == old(self).text(),
            old(self).cursor() < old(self).text().len() ==> r.deep_view() == Some(
                old(self).text()[old(self).cursor()],
            ) && final(self).cursor() == old(self).cursor() + 1,
            old(self).cursor() >= old(self).text().len() ==> r is None && final(self).cursor()
                == old(self).cursor(),
    {
        if self.pos < self.lines.len() {
            assert(self.text()[self.pos as int] == self.lines@[self.pos as int]@);
            let line = text_of(&self.lines[self.pos]);
            self.pos = self.pos + 1;
            Some(line)
        } else {
            None
        }
    }
}

/// The header that the characters of a line spell.
fn header_of(line: &Vec<char>) -> (r: Option<Vec<char>>)
    ensures
        match r {
            Some(header) => spec_parse_header(line@) == Some(header@),
            None => spec_parse_header(line@) is None,
        },
{
    let t = trimmed(line);
    if t.len() > 0 && t[0] == '[' {
        let rest = slice(&t, 1, t.len());
        assert(rest@ == t@.drop_first());
        match find(&rest, ']') {
            Some(i) => Some(slice(&rest, 0, i)),
            None => Some(rest),
        }
    } else {
        None
    }
}

/// The header that a line spells: where the line, trimmed, begins with `[`,
/// what follows up to the first `]` or, without one, up to the end.
pub fn parse_header(line: &str) -> (r: Option<String>)
    ensures
        r.deep_view() == spec_parse_header(line@),
{
    match header_of(&chars_of(line)) {
        Some(header) => Some(text_of(&header)),
        None => None,
    }
}

/// `s` split at its first `delim`, on characters.
fn split_chars(delim: char, s: &Vec<char>) -> (r: Option<(Vec<char>, Vec<char>)>)
    ensures
        match r {
            Some((name, value)) => spec_split_first(delim, s@) == Some((name@, value@)),
            None => spec_split_first(delim, s@) is None,
        },
{
    match find(s, delim) {
        Some(i) => {
            let name = trimmed(&slice(s, 0, i));
            let value = trimmed(&slice(s, i + 1, s.len()));
            Some((name, value))
        },
        None => None,
    }
}

/// `s` split at its first `delim`: what stands before it and what stands
/// after it, both trimmed. Nothing where `s` holds no `delim`.
pub fn split_first(delim: char, s: &str) -> (r: Option<(String, String)>)
    ensures
        r.deep_view() == spec_split_first(delim, s@),
{
    match split_chars(delim, &chars_of(s)) {
        Some((name, value)) => Some((text_of(&name), text_of(&value))),
        None => None,
    }
}

/// The name and the locale that the characters of a key spell.
fn key_of(line: &Vec<char>) -> (r: (Vec<char>, Locale))
    ensures
        r.0@ == spec_parse_key(line@).0,
        r.1@ == spec_parse_key(line@).1,
{
    assert(line@.subrange(0, line@.len() as int) == line@);
    match rfind(line, ']') {
        Some(j) => {
            let before = slice(line, 0, j);
            match rfind(&before, '[') {
                Some(i) => {
                    if j - i > 1 {
                        let tag = slice(line, i + 1, j);
                        match Locale::from_chars(&tag) {
                            Some(locale) => (slice(line, 0, i), locale),
                            None => (slice(line, 0, line.len()), Locale::default()),
                        }
                    } else {
                        (slice(line, 0, i), Locale::default())
                    }
                },
                None => (slice(line, 0, line.len()), Locale::default()),
            }
        },
        None => (slice(line, 0, line.len()), Locale::default()),
    }
}

/// The name and the locale that a key spells.
pub fn parse_key(line: &str) -> (r: (String, Locale))
    ensures
        r.0@ == spec_parse_key(line@).0,
        r.1@ == spec_parse_key(line@).1,
{
    let (name, locale) = key_of(&chars_of(line));
    (text_of(&name), locale)
}

/// Takes one more line of a body into the section.
fn add_body_line(group: &mut LocalisedGroup, line: &Vec<char>)
    ensures
        final(group).deep_view() == add_line(old(group).deep_view(), line@),
{
    let t = trimmed(line);
    if t.len() == 0 || t[0] == '#' {
        return ;
    }
    match split_chars('=', &t) {
        Some((key, value)) => {
            if value.len() > 0 {
                let (name, locale) = key_of(&key);
                group.add(text_of(&name), locale, text_of(&value));
            }
        },
        None => {},
    }
}

/// Reads lines up to and including the next header of interest, and hands
/// that header back. Without such a header all lines are read.
pub fn find_desktop_header(lines: &mut Lines) -> (r: Option<String>)
    ensures
        final(lines).text() == old(lines).text(),
        final(lines).cursor() <= final(lines).text().len(),
        match r {
            Some(header) => {
                let h = header_index(old(lines).text(), old(lines).cursor());
                &&& h < old(lines).text().len()
                &&& final(lines).cursor() == h + 1
                &&& Some(header@) == spec_parse_header(old(lines).text()[h])
            },
            None => header_index(old(lines).text(), old(lines).cursor()) == old(lines).text().len()
                && final(lines).cursor() == old(lines).text().len(),
        },
{
    let prefix = chars_of("Desktop ");
    if lines.pos > lines.lines.len() {
        proof {
            lemma_index_bounds(lines.text(), lines.cursor());
        }
        lines.pos = lines.lines.len();
    }
    while lines.pos < lines.lines.len()
        invariant
            lines.text() == old(lines).text(),
            lines.pos <= lines.lines.len(),
            prefix@ == header_prefix(),
            header_index(old(lines).text(), old(lines).cursor()) == header_index(
                lines.text(),
                lines.pos as int,
            ),
        decreases lines.lines.len() - lines.pos,
    {
        assert(lines.text()[lines.pos as int] == lines.lines@[lines.pos as int]@);
        let found = header_of(&lines.lines[lines.pos]);
        lines.pos = lines.pos + 1;
        if let Some(header) = found {
            if starts_with(&header, &prefix) {
                return Some(text_of(&header));
            }
        }
    }
    None
}

/// Reads the next section of interest: lines up to and including its header,
/// and then its body, which ends before the next line that opens a section.
/// Without such a section all lines are read.
pub fn parse_localised_desktop_group(lines: &mut Lines) -> (r: Option<(String, LocalisedGroup)>)
    ensures
        final(lines).text() == old(lines).text(),
        final(lines).cursor() <= final(lines).text().len(),
        match r {
            Some((header, group)) => {
                let h = header_index(old(lines).text(), old(lines).cursor());
                let end = body_end(old(lines).text(), h + 1);
                &&& h < old(lines).text().len()
                &&& final(lines).cursor() == end
                &&& h < end
                &&& Some(header@) == spec_parse_header(old(lines).text()[h])
                &&& group.deep_view() == parse_body(old(lines).text(), h + 1, end)
            },
            None => header_index(old(lines).text(), old(lines).cursor()) == old(lines).text().len()
                && final(lines).cursor() == old(lines).text().len(),
        },
{
    let header = match find_desktop_header(lines) {
        Some(header) => header,
        None => {
            return None;
        },
    };
    let ghost first = lines.cursor();
    let mut group = LocalisedGroup::default();
    proof {
        lemma_index_bounds(lines.text(), first);
    }
    while lines.pos < lines.lines.len()
        invariant
            lines.text() == old(lines).text(),
            first <= lines.pos <= lines.lines.len(),
            group.deep_view() == parse_body(lines.text(), first, lines.pos as int),
            body_end(lines.text(), first) == body_end(lines.text(), lines.pos as int),
        ensures
            lines.pos as int == body_end(lines.text(), first),
        decreases lines.lines.len() - lines.pos,
    {
        assert(lines.text()[lines.pos as int] == lines.lines@[lines.pos as int]@);
        let t = trimmed(&lines.lines[lines.pos]);
        if t.len() > 0 && t[0] == '[' {
            break ;
        }
        add_body_line(&mut group, &lines.lines[lines.pos]);
        lines.pos = lines.pos + 1;
    }
    Some((header, group))
}

/// The sections of interest of the desktop file `src`, each under its header,
/// with the values for `locale`.
///
/// Fails with `NoGroupsFound` exactly when the file holds no section whose
/// header begins with `Desktop `.
pub fn parse_desktop_groups(src: &str, locale: &Locale) -> (r: Result<Sections, Error>)
    ensures
        match r {
            Ok(groups) => spec_parse_desktop_groups(src@, locale@) == Some(groups.deep_view())
                && proper(groups.deep_view()) && of_interest(groups.deep_view()),
            Err(e) => spec_parse_desktop_groups(src@, locale@) is None && e@
                == ErrorView::NoGroupsFound,
        },
{
    let mut groups: Sections = Table::new();
    let mut lines = Lines::new(src);
    let ghost all = lines.text();
    proof {
        lemma_parse_groups_distinct(all, 0, locale@, Seq::empty());
        lemma_parse_groups_headers(all, 0, locale@, Seq::empty());
    }
    while lines.pos < lines.lines.len()
        invariant
            lines.text() == all,
            lines.pos <= lines.lines.len(),
            parse_groups(all, 0, locale@, Seq::empty()) == parse_groups(
                all,
                lines.pos as int,
                locale@,
                groups.deep_view(),
            ),
        decreases lines.lines.len() - lines.pos,
    {
        proof {
            lemma_index_bounds(all, lines.pos as int);
            lemma_index_bounds(all, header_index(all, lines.pos as int) + 1);
        }
        if let Some((header, localised_group)) = parse_localised_desktop_group(&mut lines) {
            let group = localised_group.resolve_to_locale(locale);
            groups.insert(header, group);
        }
    }
    proof {
        lemma_index_bounds(all, lines.pos as int);
    }
    if groups.is_empty() {
        Err(Error::NoGroupsFound)
    } else {
        Ok(groups)
    }
}

/// The line that opens the section with the name `name`: the name, trimmed,
/// in brackets.
pub open spec fn named_header(name: Seq<char>) -> Seq<char> {
    seq!['['] + trim(name) + seq![']']
}

/// Whether the line, trimmed, begins with the header of the section `name`.
pub open spec fn is_named_header(line: Seq<char>, name: Seq<char>) -> bool {
    named_header(name).is_prefix_of(trim(line))
}

/// The mathematical value of lines of which each may have failed to be read.
pub open spec fn fallible_lines(input: Seq<Result<String, Error>>) -> Seq<
    Result<Seq<char>, ErrorView>,
> {
    Seq::new(
        input.len(),
        |i: int|
            match input[i] {
                Ok(line) => Ok(line@),
                Err(e) => Err(e@),
            },
    )
}

/// The section `name` as the lines from `from` on spell it, where `body` is
/// what was read of it so far: nothing as long as its header was not met.
///
/// The section begins after the first line that spells its header and ends
/// before the next line that opens a section. A line that could not be read
/// is the error, if it comes before the section has ended. Without the header
/// there is no section.
pub open spec fn spec_parse_localised_group(
    input: Seq<Result<Seq<char>, ErrorView>>,
    name: Seq<char>,
    from: int,
    body: Option<LocalisedEntries>,
) -> Result<LocalisedEntries, ErrorView>
    decreases input.len() - from,
{
    if from < 0 || from >= input.len() {
        match body {
            Some(group) => Ok(group),
            None => Err(ErrorView::NoGroupsFound),
        }
    } else {
        match input[from] {
            Err(e) => Err(e),
            Ok(line) => match body {
                None => spec_parse_localised_group(
                    input,
                    name,
                    from + 1,
                    if is_named_header(line, name) {
                        Some(Seq::empty())
                    } else {
                        None
                    },
                ),
                Some(group) => if opens_section(line) {
                    Ok(group)
                } else {
                    spec_parse_localised_group(input, name, from + 1, Some(add_line(group, line)))
                },
            },
        }
    }
}

/// The section `name` of the lines, with the values for `locale`.
pub open spec fn spec_parse_group(
    input: Seq<Result<Seq<char>, ErrorView>>,
    name: Seq<char>,
    locale: LocaleView,
) -> Result<Entries, ErrorView> {
    match spec_parse_localised_group(input, name, 0, None) {
        Ok(group) => Ok(spec_resolve(group, locale)),
        Err(e) => Err(e),
    }
}

/// The section with the name `group_name` of lines of which each may have
/// failed to be read, before a locale is chosen.
///
/// Fails with the error of the first line that could not be read, if that
/// comes before the section has ended, and with `NoGroupsFound` where no line
/// spells the header of the section.
pub fn parse_localised_group(input: Vec<Result<String, Error>>, group_name: &str) -> (r: Result<
    LocalisedGroup,
    Error,
>)
    ensures
        match r {
            Ok(group) => spec_parse_localised_group(fallible_lines(input@), group_name@, 0, None)
                == Ok::<LocalisedEntries, ErrorView>(group.deep_view()),
            Err(e) => spec_parse_localised_group(fallible_lines(input@), group_name@, 0, None)
                == Err::<LocalisedEntries, ErrorView>(e@),
        },
{
    let mut header: Vec<char> = Vec::new();
    header.push('[');
    let name = trimmed(&chars_of(group_name));
    let mut k: usize = 0;
    while k < name.len()
        invariant
            k <= name.len(),
            header@ == seq!['['] + name@.take(k as int),
        decreases name.len() - k,
    {
        header.push(name[k]);
        assert(name@.take(k + 1) == name@.take(k as int).push(name@[k as int]));
        k += 1;
    }
    assert(name@.take(name.len() as int) == name@);
    header.push(']');
    assert(header@ == named_header(group_name@));
    let mut lines = input;
    let ghost all = fallible_lines(input@);
    let ghost n = lines.len();
    let mut group = LocalisedGroup::default();
    let mut inside = false;
    let mut i: usize = 0;
    while lines.len() > 0
        invariant
            i + lines.len() == n == all.len(),
            all == fallible_lines(input@),
            header@ == named_header(group_name@),
            forall|j: int| 0 <= j < lines.len() ==> lines@[j] == input@[j + i],
            !inside ==> group.deep_view() == LocalisedEntries::empty(),
            spec_parse_localised_group(all, group_name@, 0, None) == spec_parse_localised_group(
                all,
                group_name@,
                i as int,
                if inside {
                    Some(group.deep_view())
                } else {
                    None
                },
            ),
        decreases lines.len(),
    {
        let item = lines.remove(0);
        assert(item == input@[i as int]);
        match item {
            Err(e) => {
                assert(all[i as int] == Err::<Seq<char>, ErrorView>(e@));
                return Err(e);
            },
            Ok(text) => {
                assert(all[i as int] == Ok::<Seq<char>, ErrorView>(text@));
                let line = chars_of(text.as_str());
                if inside {
                    let t = trimmed(&line);
                    if t.len() > 0 && t[0] == '[' {
                        return Ok(group);
                    }
                    add_body_line(&mut group, &line);
                } else {
                    if starts_with(&trimmed(&line), &header) {
                        inside = true;
                    }
                }
            },
        }
        i += 1;
    }
    if inside {
        Ok(group)
    } else {
        Err(Error::NoGroupsFound)
    }
}

/// The section with the name `group_name` of lines of which each may have
/// failed to be read, with the values for `locale`.
///
/// Fails with the error of the first line that could not be read, if that
/// comes before the section has ended, and with `NoGroupsFound` where no line
/// spells the header of the section.
pub fn parse_group(input: Vec<Result<String, Error>>, group_name: &str, locale: &Locale) -> (r:
    Result<Section, Error>)
    ensures
        match r {
            Ok(group) => spec_parse_group(fallible_lines(input@), group_name@, locale@) == Ok::<
                Entries,
                ErrorView,
            >(group.deep_view()),
            Err(e) => spec_parse_group(fallible_lines(input@), group_name@, locale@) == Err::<
                Entries,
                ErrorView,
            >(e@),
        },
{
    match parse_localised_group(input, group_name) {
        Ok(localised_group) => Ok(localised_group.resolve_to_locale(locale)),
        Err(e) => Err(e),
    }
}

} // verus!
