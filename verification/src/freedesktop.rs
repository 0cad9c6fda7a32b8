//! A set of desktop files, and the search for an application by its name.

use crate::desktopfile::{application_type, spec_read, DesktopFile, DesktopFileView};
use crate::entry::{DesktopEntry, DesktopEntryView};
use crate::errors::{Error, ErrorView};
use crate::locale::{Locale, LocaleView};
use crate::text::{chars_of, copies_of, copy_of, last_index_of, rfind, same_chars, slice};
use vstd::prelude::*;

verus! {

/// The texts of the desktop files that were found, in the order in which
/// they were found.
#[derive(Debug, Clone, PartialEq, Eq)]
pub struct DesktopFiles {
    pub desktop_files: Vec<String>,
}

/// What the texts describe, read for `locale`, in order; a text that cannot
/// be read is passed over.
pub open spec fn spec_parse_files(sources: Seq<Seq<char>>, locale: LocaleView) -> Seq<
    DesktopFileView,
>
    decreases sources.len(),
{
    if sources.len() == 0 {
        Seq::empty()
    } else {
        let front = spec_parse_files(sources.drop_last(), locale);
        match spec_read(sources.last(), locale) {
            Ok(file) => front.push(file),
            Err(_) => front,
        }
    }
}

/// Whether the entry is an application that may be displayed.
pub open spec fn displayed(entry: DesktopEntryView) -> bool {
    entry.entry_type == application_type() && !entry.no_display
}

/// The index of the first file at or after `from` that may be displayed and
/// has the name `name`, or the number of files if there is none.
pub open spec fn first_named(files: Seq<DesktopFileView>, name: Seq<char>, from: int) -> int
    decreases files.len() - from,
{
    if from < 0 || from >= files.len() {
        files.len() as int
    } else if displayed(files[from].desktop_entry) && files[from].desktop_entry.name == name {
        from
    } else {
        first_named(files, name, from + 1)
    }
}

/// The index of the first file at or after `from` that may be displayed and
/// is not hidden, or the number of files if there is none.
pub open spec fn first_shown(files: Seq<DesktopFileView>, from: int) -> int
    decreases files.len() - from,
{
    if from < 0 || from >= files.len() {
        files.len() as int
    } else if displayed(files[from].desktop_entry) && !files[from].desktop_entry.hidden {
        from
    } else {
        first_shown(files, from + 1)
    }
}

/// The index of the file that a search for `name` finds: the first that may
/// be displayed and is not hidden, from the first one on that may be
/// displayed and has the name. The number of files if there is none.
pub open spec fn spec_find_exact_match(files: Seq<DesktopFileView>, name: Seq<char>) -> int {
    first_shown(files, first_named(files, name, 0))
}

/// Where the searches arrive: not before their start, and not past the last
/// file.
pub proof fn lemma_search_bounds(files: Seq<DesktopFileView>, name: Seq<char>, from: int)
    requires
        0 <= from <= files.len(),
    ensures
        from <= first_named(files, name, from) <= files.len(),
        from <= first_shown(files, from) <= files.len(),
        first_shown(files, from) < files.len() ==> displayed(
            files[first_shown(files, from)].desktop_entry,
        ) && !files[first_shown(files, from)].desktop_entry.hidden,
    decreases files.len() - from,
{
    if from < files.len() {
        lemma_search_bounds(files, name, from + 1);
    }
}

/// What the texts describe, read for `locale`, in order; a text that cannot
/// be read is passed over.
pub fn parse_files(sources: &Vec<String>, locale: &Locale) -> (r: Vec<DesktopFile>)
    ensures
        r.deep_view() == spec_parse_files(sources.deep_view(), locale@),
{
    let mut files: Vec<DesktopFile> = Vec::new();
    let mut i: usize = 0;
    assert(sources.deep_view().take(0) =~= Seq::<Seq<char>>::empty());
    assert(files.deep_view() =~= Seq::<DesktopFileView>::empty());
    while i < sources.len()
        invariant
            i <= sources.len(),
            files.deep_view() == spec_parse_files(sources.deep_view().take(i as int), locale@),
        decreases sources.len() - i,
    {
        assert(sources.deep_view().take(i + 1).drop_last() =~= sources.deep_view().take(i as int));
        assert(sources.deep_view().take(i + 1).last() == sources@[i as int]@);
        match DesktopFile::read(sources[i].as_str(), locale) {
            Ok(file) => {
                let ghost before = files.deep_view();
                files.push(file);
                assert(files.deep_view() =~= before.push(file@));
            },
            Err(_) => {},
        }
        i += 1;
    }
    assert(sources.deep_view().take(sources.len() as int) =~= sources.deep_view());
    files
}

/// A copy of an entry.
fn copy_of_entry(entry: &DesktopEntry) -> (r: DesktopEntry)
    ensures
        r@ == entry@,
{
    DesktopEntry {
        entry_type: entry.entry_type.clone(),
        name: entry.name.clone(),
        generic_name: copy_of(&entry.generic_name),
        no_display: entry.no_display,
        comment: copy_of(&entry.comment),
        icon: copy_of(&entry.icon),
        hidden: entry.hidden,
        only_show_in: copies_of(&entry.only_show_in),
        not_show_in: copies_of(&entry.not_show_in),
        try_exec: copy_of(&entry.try_exec),
        command: copy_of(&entry.command),
        path: copy_of(&entry.path),
        actions: copies_of(&entry.actions),
        mime_type: copies_of(&entry.mime_type),
        categories: copies_of(&entry.categories),
        keywords: copies_of(&entry.keywords),
    }
}

/// Whether the entry is an application that may be displayed.
fn is_displayed(entry: &DesktopEntry) -> (r: bool)
    ensures
        r == displayed(entry@),
{
    let application = "Application".to_owned();
    entry.entry_type == application && !entry.no_display
}

/// The entry that a search for `name` finds among `files`.
///
/// Fails with `NoMatchFound`, which carries `name`, exactly when there is
/// none.
pub fn find_among(files: &Vec<DesktopFile>, name: &str) -> (r: Result<DesktopEntry, Error>)
    ensures
        match r {
            Ok(entry) => spec_find_exact_match(files.deep_view(), name@) < files.len() && entry@
                == files.deep_view()[spec_find_exact_match(files.deep_view(), name@)].desktop_entry,
            Err(e) => spec_find_exact_match(files.deep_view(), name@) == files.len() && e@
                == ErrorView::NoMatchFound(name@),
        },
{
    let wanted = name.to_owned();
    let ghost all = files.deep_view();
    let mut i: usize = 0;
    while i < files.len()
        invariant
            i <= files.len(),
            all == files.deep_view(),
            wanted@ == name@,
            first_named(all, name@, 0) == first_named(all, name@, i as int),
        ensures
            i <= files.len(),
            i as int == first_named(all, name@, 0),
        decreases files.len() - i,
    {
        assert(all[i as int] == files@[i as int]@);
        if is_displayed(&files[i].desktop_entry) && files[i].desktop_entry.name == wanted {
            break ;
        }
        i += 1;
    }
    let ghost start = i as int;
    while i < files.len()
        invariant
            start <= i <= files.len(),
            all == files.deep_view(),
            wanted@ == name@,
            start == first_named(all, name@, 0),
            first_shown(all, start) == first_shown(all, i as int),
        decreases files.len() - i,
    {
        assert(all[i as int] == files@[i as int]@);
        if is_displayed(&files[i].desktop_entry) && !files[i].desktop_entry.hidden {
            return Ok(copy_of_entry(&files[i].desktop_entry));
        }
        i += 1;
    }
    Err(Error::NoMatchFound(wanted))
}

impl DesktopFiles {
    /// The set of the desktop files with these texts.
    pub fn new(desktop_files: Vec<String>) -> (r: Self)
        ensures
            r.desktop_files == desktop_files,
    {
        DesktopFiles { desktop_files }
    }

    /// What the files describe, read for `locale`; a file that cannot be read
    /// is passed over.
    pub fn parse_files(&self, locale: &Locale) -> (r: Vec<DesktopFile>)
        ensures
            r.deep_view() == spec_parse_files(self.desktop_files.deep_view(), locale@),
    {
        parse_files(&self.desktop_files, locale)
    }

    /// The application with the name `name`, as the files describe it for
    /// `locale`: among the applications that may be displayed, the first that
    /// is not hidden, from the first one on that has the name.
    ///
    /// Fails with `NoMatchFound`, which carries `name`, exactly when there is
    /// none.
    pub fn find_exact_match(&self, name: &str, locale: &Locale) -> (r: Result<DesktopEntry, Error>)
        ensures
            match r {
                Ok(entry) => {
                    let files = spec_parse_files(self.desktop_files.deep_view(), locale@);
                    spec_find_exact_match(files, name@) < files.len() && entry@
                        == files[spec_find_exact_match(files, name@)].desktop_entry
                },
                Err(e) => {
                    let files = spec_parse_files(self.desktop_files.deep_view(), locale@);
                    spec_find_exact_match(files, name@) == files.len() && e@
                        == ErrorView::NoMatchFound(name@)
                },
            },
    {
        let files = self.parse_files(locale);
        find_among(&files, name)
    }
}

/// What every name of a desktop file ends in.
pub open spec fn desktop_suffix() -> Seq<char> {
    ".desktop"@
}

/// The name of the file that a path leads to: what follows its last `/`.
pub open spec fn file_name(path: Seq<char>) -> Seq<char> {
    path.skip(last_index_of(path, '/') + 1)
}

/// Whether the path leads to a desktop file: the name of the file ends in
/// `.desktop` and is longer than that.
pub open spec fn spec_is_desktop_file(path: Seq<char>) -> bool {
    let name = file_name(path);
    name.len() > desktop_suffix().len() && name.skip(name.len() - desktop_suffix().len())
        == desktop_suffix()
}

/// The paths among `paths` that lead to desktop files, in order.
pub open spec fn keep_desktop_files(paths: Seq<Seq<char>>) -> Seq<Seq<char>>
    decreases paths.len(),
{
    if paths.len() == 0 {
        Seq::empty()
    } else if spec_is_desktop_file(paths.last()) {
        keep_desktop_files(paths.drop_last()).push(paths.last())
    } else {
        keep_desktop_files(paths.drop_last())
    }
}

/// Whether the path leads to a desktop file.
pub fn is_desktop_file(path: &str) -> (r: bool)
    ensures
        r == spec_is_desktop_file(path@),
{
    let chars = chars_of(path);
    let suffix = chars_of(".desktop");
    let start = match rfind(&chars, '/') {
        Some(i) => i + 1,
        None => 0,
    };
    let name = slice(&chars, start, chars.len());
    assert(name@ == file_name(path@));
    if name.len() > suffix.len() {
        let tail = slice(&name, name.len() - suffix.len(), name.len());
        same_chars(&tail, &suffix)
    } else {
        false
    }
}

/// The desktop files among the files that were found: those of `data_files`
/// whose name ends in `.desktop`, in order.
pub fn find_all_desktop_files(data_files: Vec<String>) -> (r: Vec<String>)
    ensures
        r.deep_view() == keep_desktop_files(data_files.deep_view()),
{
    let mut kept: Vec<String> = Vec::new();
    let mut i: usize = 0;
    let ghost all = data_files.deep_view();
    assert(all.take(0) =~= Seq::<Seq<char>>::empty());
    assert(kept.deep_view() =~= Seq::<Seq<char>>::empty());
    while i < data_files.len()
        invariant
            i <= data_files.len(),
            all == data_files.deep_view(),
            kept.deep_view() == keep_desktop_files(all.take(i as int)),
        decreases data_files.len() - i,
    {
        assert(all.take(i + 1).drop_last() =~= all.take(i as int));
        assert(all.take(i + 1).last() == data_files@[i as int]@);
        if is_desktop_file(data_files[i].as_str()) {
            let ghost before = kept.deep_view();
            kept.push(data_files[i].clone());
            assert(kept.deep_view() =~= before.push(data_files@[i as int]@));
        }
        i += 1;
    }
    assert(all.take(data_files.len() as int) =~= all);
    kept
}

} // verus!
