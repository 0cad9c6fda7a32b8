//! From the desktop files that were read to the applications that a desktop
//! shows: one for each name, without those that are hidden or that are not
//! meant for the desktop.

use crate::application::{spec_application, Application, ApplicationView};
use crate::desktopfile::{DesktopFile, DesktopFileView};
use crate::entry::DesktopEntryView;
use crate::errors::{Error, ErrorView};
use crate::text::{chars_of, contains_text};
use vstd::prelude::*;

verus! {

/// Whether the text `a` comes before the text `b`: at the first place where
/// they differ `a` has the character with the lower code, or `a` ends there
/// and `b` does not. This is the order of `String`.
pub open spec fn text_lt(a: Seq<char>, b: Seq<char>) -> bool
    decreases a.len(),
{
    if b.len() == 0 {
        false
    } else if a.len() == 0 {
        true
    } else if a[0] != b[0] {
        (a[0] as u32) < (b[0] as u32)
    } else {
        text_lt(a.drop_first(), b.drop_first())
    }
}

/// The name of the application that a file describes.
pub open spec fn name_of(file: DesktopFileView) -> Seq<char> {
    file.desktop_entry.name
}

/// The files `sorted` with `file` put in after the last file whose name does
/// not come after its own.
pub open spec fn insert_by_name(sorted: Seq<DesktopFileView>, file: DesktopFileView) -> Seq<
    DesktopFileView,
>
    decreases sorted.len(),
{
    if sorted.len() == 0 {
        seq![file]
    } else if text_lt(name_of(file), name_of(sorted.last())) {
        insert_by_name(sorted.drop_last(), file).push(sorted.last())
    } else {
        sorted.push(file)
    }
}

/// The files in the order of their names; files with the same name keep the
/// order that they had.
pub open spec fn sort_by_name(files: Seq<DesktopFileView>) -> Seq<DesktopFileView>
    decreases files.len(),
{
    if files.len() == 0 {
        Seq::empty()
    } else {
        insert_by_name(sort_by_name(files.drop_last()), files.last())
    }
}

/// The files without those that have the name of the file just before them.
pub open spec fn dedup_by_name(files: Seq<DesktopFileView>) -> Seq<DesktopFileView>
    decreases files.len(),
{
    if files.len() == 0 {
        Seq::empty()
    } else {
        let front = dedup_by_name(files.drop_last());
        if front.len() > 0 && name_of(front.last()) == name_of(files.last()) {
            front
        } else {
            front.push(files.last())
        }
    }
}

/// Whether the desktop `desktop` shows the entry: it may be displayed and is
/// not hidden; it is meant for the desktop, or for no desktop in particular;
/// and it is not kept from the desktop.
pub open spec fn shown_in(entry: DesktopEntryView, desktop: Seq<char>) -> bool {
    &&& !entry.no_display
    &&& !entry.hidden
    &&& entry.only_show_in.len() == 0 || entry.only_show_in.contains(desktop)
    &&& !entry.not_show_in.contains(desktop)
}

/// The files whose entries the desktop shows, in order.
pub open spec fn keep_shown(files: Seq<DesktopFileView>, desktop: Seq<char>) -> Seq<
    DesktopFileView,
>
    decreases files.len(),
{
    if files.len() == 0 {
        Seq::empty()
    } else if shown_in(files.last().desktop_entry, desktop) {
        keep_shown(files.drop_last(), desktop).push(files.last())
    } else {
        keep_shown(files.drop_last(), desktop)
    }
}

/// The applications that the files give, in order, or the error of the first
/// file that gives none.
pub open spec fn spec_applications(files: Seq<DesktopFileView>) -> Result<
    Seq<ApplicationView>,
    ErrorView,
>
    decreases files.len(),
{
    if files.len() == 0 {
        Ok(Seq::empty())
    } else {
        match spec_applications(files.drop_last()) {
            Err(e) => Err(e),
            Ok(front) => match spec_application(files.last()) {
                Ok(app) => Ok(front.push(app)),
                Err(e) => Err(e),
            },
        }
    }
}

/// The files that the desktop shows: in the order of their names, of files
/// with the same name the first, and of those the ones that the desktop shows.
pub open spec fn spec_visible(files: Seq<DesktopFileView>, desktop: Seq<char>) -> Seq<
    DesktopFileView,
> {
    keep_shown(dedup_by_name(sort_by_name(files)), desktop)
}

/// Whether the names of the files do not go down.
pub open spec fn sorted_by_name(files: Seq<DesktopFileView>) -> bool {
    forall|i: int, j: int|
        0 <= i < j < files.len() ==> !text_lt(
            name_of(#[trigger] files[j]),
            name_of(#[trigger] files[i]),
        )
}

/// Whether the names of the files go up: no name comes twice.
pub open spec fn rising_by_name(files: Seq<DesktopFileView>) -> bool {
    forall|i: int, j: int|
        0 <= i < j < files.len() ==> text_lt(
            name_of(#[trigger] files[i]),
            name_of(#[trigger] files[j]),
        )
}

/// No text comes before itself.
pub proof fn lemma_text_lt_irreflexive(a: Seq<char>)
    ensures
        !text_lt(a, a),
    decreases a.len(),
{
    if a.len() > 0 {
        lemma_text_lt_irreflexive(a.drop_first());
    }
}

/// Of two different texts one comes before the other.
pub proof fn lemma_text_lt_total(a: Seq<char>, b: Seq<char>)
    ensures
        text_lt(a, b) || text_lt(b, a) || a == b,
        !(text_lt(a, b) && text_lt(b, a)),
    decreases a.len(),
{
    if a.len() > 0 && b.len() > 0 && a[0] == b[0] {
        lemma_text_lt_total(a.drop_first(), b.drop_first());
        if a.drop_first() == b.drop_first() {
            assert(a =~= seq![a[0]] + a.drop_first());
            assert(b =~= seq![b[0]] + b.drop_first());
        }
    } else if a.len() == 0 && b.len() == 0 {
        assert(a =~= b);
    } else if a.len() > 0 && b.len() > 0 {
        assert(a[0] as u32 != b[0] as u32) by {
            vstd::utf8::char_u32_cast(a[0], a[0] as u32);
            vstd::utf8::char_u32_cast(b[0], b[0] as u32);
        }
    }
}

/// What comes before a text comes before all that the text comes before.
pub proof fn lemma_text_lt_transitive(a: Seq<char>, b: Seq<char>, c: Seq<char>)
    requires
        text_lt(a, b),
        text_lt(b, c),
    ensures
        text_lt(a, c),
    decreases a.len(),
{
    if a.len() > 0 && b.len() > 0 && c.len() > 0 && a[0] == b[0] && b[0] == c[0] {
        lemma_text_lt_transitive(a.drop_first(), b.drop_first(), c.drop_first());
    }
}

/// A text that does not come after a second, which does not come after a
/// third, does not come after the third.
pub proof fn lemma_text_le_transitive(a: Seq<char>, b: Seq<char>, c: Seq<char>)
    requires
        !text_lt(b, a),
        !text_lt(c, b),
    ensures
        !text_lt(c, a),
{
    lemma_text_lt_total(a, b);
    lemma_text_lt_total(b, c);
    if text_lt(c, a) {
        if a == b {
        } else if b == c {
        } else {
            lemma_text_lt_transitive(c, a, b);
            lemma_text_lt_total(b, c);
        }
    }
}

/// Where a file goes when it is put in by its name: what `insert_by_name`
/// gives is the files with the new one at the place before which no name
/// comes after its own, and from which on every name does.
pub proof fn lemma_insert_at(sorted: Seq<DesktopFileView>, file: DesktopFileView, pos: int)
    requires
        0 <= pos <= sorted.len(),
        forall|k: int|
            pos <= k < sorted.len() ==> text_lt(name_of(file), name_of(#[trigger] sorted[k])),
        pos > 0 ==> !text_lt(name_of(file), name_of(sorted[pos - 1])),
    ensures
        insert_by_name(sorted, file) == sorted.insert(pos, file),
    decreases sorted.len(),
{
    if sorted.len() == 0 {
        assert(sorted.insert(pos, file) =~= seq![file]);
    } else if pos == sorted.len() {
        assert(sorted.insert(pos, file) =~= sorted.push(file));
    } else {
        let front = sorted.drop_last();
        assert(text_lt(name_of(file), name_of(sorted[sorted.len() - 1])));
        assert forall|k: int| pos <= k < front.len() implies text_lt(
            name_of(file),
            name_of(#[trigger] front[k]),
        ) by {
            assert(front[k] == sorted[k]);
        }
        if pos > 0 {
            assert(front[pos - 1] == sorted[pos - 1]);
        }
        lemma_insert_at(front, file, pos);
        assert(front.insert(pos, file).push(sorted.last()) =~= sorted.insert(pos, file));
    }
}

/// Putting a file in by its name keeps the names from going down.
pub proof fn lemma_insert_keeps_sorted(sorted: Seq<DesktopFileView>, file: DesktopFileView)
    requires
        sorted_by_name(sorted),
    ensures
        sorted_by_name(insert_by_name(sorted, file)),
        insert_by_name(sorted, file).len() == sorted.len() + 1,
    decreases sorted.len(),
{
    let after = insert_by_name(sorted, file);
    if sorted.len() == 0 {
    } else if text_lt(name_of(file), name_of(sorted.last())) {
        let front = sorted.drop_last();
        assert forall|i: int, j: int| 0 <= i < j < front.len() implies !text_lt(
            name_of(#[trigger] front[j]),
            name_of(#[trigger] front[i]),
        ) by {
            assert(front[i] == sorted[i] && front[j] == sorted[j]);
        }
        lemma_insert_keeps_sorted(front, file);
        lemma_insert_members(front, file);
        let inner = insert_by_name(front, file);
        assert forall|i: int, j: int| 0 <= i < j < after.len() implies !text_lt(
            name_of(#[trigger] after[j]),
            name_of(#[trigger] after[i]),
        ) by {
            if j < inner.len() {
                assert(after[i] == inner[i] && after[j] == inner[j]);
            } else {
                assert(after[j] == sorted.last());
                assert(after[i] == inner[i]);
                if inner[i] == file {
                    lemma_text_lt_total(name_of(file), name_of(sorted.last()));
                } else {
                    let k = choose|k: int| 0 <= k < front.len() && front[k] == inner[i];
                    assert(front[k] == sorted[k]);
                    assert(!text_lt(name_of(sorted[sorted.len() - 1]), name_of(sorted[k])));
                }
            }
        }
    } else {
        assert forall|i: int, j: int| 0 <= i < j < after.len() implies !text_lt(
            name_of(#[trigger] after[j]),
            name_of(#[trigger] after[i]),
        ) by {
            if j < sorted.len() {
                assert(after[i] == sorted[i] && after[j] == sorted[j]);
            } else {
                assert(after[j] == file);
                assert(after[i] == sorted[i]);
                if i < sorted.len() - 1 {
                    assert(!text_lt(name_of(sorted[sorted.len() - 1]), name_of(sorted[i])));
                    lemma_text_le_transitive(
                        name_of(sorted[i]),
                        name_of(sorted.last()),
                        name_of(file),
                    );
                }
            }
        }
    }
}

/// What is there after a file was put in: the file, and what was there.
pub proof fn lemma_insert_members(sorted: Seq<DesktopFileView>, file: DesktopFileView)
    ensures
        forall|i: int|
            0 <= i < insert_by_name(sorted, file).len() ==> (#[trigger] insert_by_name(
                sorted,
                file,
            )[i]) == file || exists|k: int|
                0 <= k < sorted.len() && sorted[k] == insert_by_name(sorted, file)[i],
    decreases sorted.len(),
{
    let after = insert_by_name(sorted, file);
    if sorted.len() > 0 && text_lt(name_of(file), name_of(sorted.last())) {
        let front = sorted.drop_last();
        lemma_insert_members(front, file);
        let inner = insert_by_name(front, file);
        assert forall|i: int| 0 <= i < after.len() implies (#[trigger] after[i]) == file
            || exists|k: int| 0 <= k < sorted.len() && sorted[k] == after[i] by {
            if i < inner.len() {
                assert(after[i] == inner[i]);
                if inner[i] != file {
                    let k = choose|k: int| 0 <= k < front.len() && front[k] == inner[i];
                    assert(sorted[k] == after[i]);
                }
            } else {
                assert(sorted[sorted.len() - 1] == after[i]);
            }
        }
    } else if sorted.len() > 0 {
        assert forall|i: int| 0 <= i < after.len() implies (#[trigger] after[i]) == file
            || exists|k: int| 0 <= k < sorted.len() && sorted[k] == after[i] by {
            if i < sorted.len() {
                assert(sorted[i] == after[i]);
            }
        }
    }
}

/// After sorting, the names do not go down, and no file is lost or gained.
pub proof fn lemma_sort_sorts(files: Seq<DesktopFileView>)
    ensures
        sorted_by_name(sort_by_name(files)),
        sort_by_name(files).len() == files.len(),
    decreases files.len(),
{
    if files.len() > 0 {
        lemma_sort_sorts(files.drop_last());
        lemma_insert_keeps_sorted(sort_by_name(files.drop_last()), files.last());
    }
}

/// Among files whose names do not go down, dropping the files that have the
/// name of the file before them leaves no name twice: the names go up.
pub proof fn lemma_dedup_rises(files: Seq<DesktopFileView>)
    requires
        sorted_by_name(files),
    ensures
        rising_by_name(dedup_by_name(files)),
        dedup_by_name(files).len() <= files.len(),
        files.len() > 0 ==> dedup_by_name(files).len() > 0 && name_of(dedup_by_name(files).last())
            == name_of(files.last()),
    decreases files.len(),
{
    if files.len() > 0 {
        let front_files = files.drop_last();
        assert forall|i: int, j: int| 0 <= i < j < front_files.len() implies !text_lt(
            name_of(#[trigger] front_files[j]),
            name_of(#[trigger] front_files[i]),
        ) by {
            assert(front_files[i] == files[i] && front_files[j] == files[j]);
        }
        lemma_dedup_rises(front_files);
        let front = dedup_by_name(front_files);
        let after = dedup_by_name(files);
        if !(front.len() > 0 && name_of(front.last()) == name_of(files.last())) {
            assert forall|i: int, j: int| 0 <= i < j < after.len() implies text_lt(
                name_of(#[trigger] after[i]),
                name_of(#[trigger] after[j]),
            ) by {
                if j < front.len() {
                    assert(after[i] == front[i] && after[j] == front[j]);
                } else {
                    assert(after[j] == files.last());
                    assert(after[i] == front[i]);
                    let last_front = front_files[front_files.len() - 1];
                    assert(last_front == files[files.len() - 2]);
                    assert(!text_lt(
                        name_of(files[files.len() - 1]),
                        name_of(files[files.len() - 2]),
                    ));
                    lemma_text_lt_total(name_of(front.last()), name_of(files.last()));
                    if i < front.len() - 1 {
                        assert(text_lt(name_of(front[i]), name_of(front[front.len() - 1])));
                        lemma_text_lt_transitive(
                            name_of(front[i]),
                            name_of(front.last()),
                            name_of(files.last()),
                        );
                    }
                }
            }
        } else {
            assert(after == front);
        }
    }
}

/// What the desktop is shown has every name once at most, in the order of
/// the names.
pub proof fn lemma_visible_rises(files: Seq<DesktopFileView>, desktop: Seq<char>)
    ensures
        rising_by_name(spec_visible(files, desktop)),
{
    lemma_sort_sorts(files);
    lemma_dedup_rises(sort_by_name(files));
    lemma_keep_shown_rises(dedup_by_name(sort_by_name(files)), desktop);
}

/// Leaving files out keeps the names going up, and what is kept is shown.
pub proof fn lemma_keep_shown_rises(files: Seq<DesktopFileView>, desktop: Seq<char>)
    requires
        rising_by_name(files),
    ensures
        rising_by_name(keep_shown(files, desktop)),
        forall|i: int|
            0 <= i < keep_shown(files, desktop).len() ==> shown_in(
                (#[trigger] keep_shown(files, desktop)[i]).desktop_entry,
                desktop,
            ) && exists|k: int| 0 <= k < files.len() && files[k] == keep_shown(files, desktop)[i],
    decreases files.len(),
{
    if files.len() > 0 {
        let front_files = files.drop_last();
        assert forall|i: int, j: int| 0 <= i < j < front_files.len() implies text_lt(
            name_of(#[trigger] front_files[i]),
            name_of(#[trigger] front_files[j]),
        ) by {
            assert(front_files[i] == files[i] && front_files[j] == files[j]);
        }
        lemma_keep_shown_rises(front_files, desktop);
        let front = keep_shown(front_files, desktop);
        let after = keep_shown(files, desktop);
        assert forall|i: int| 0 <= i < after.len() implies shown_in(
            (#[trigger] after[i]).desktop_entry,
            desktop,
        ) && exists|k: int| 0 <= k < files.len() && files[k] == after[i] by {
            if i < front.len() {
                assert(after[i] == front[i]);
                let k = choose|k: int| 0 <= k < front_files.len() && front_files[k] == front[i];
                assert(files[k] == after[i]);
            } else {
                assert(files[files.len() - 1] == after[i]);
            }
        }
        assert forall|i: int, j: int| 0 <= i < j < after.len() implies text_lt(
            name_of(#[trigger] after[i]),
            name_of(#[trigger] after[j]),
        ) by {
            if j < front.len() {
                assert(after[i] == front[i] && after[j] == front[j]);
            } else {
                assert(after[j] == files[files.len() - 1]);
                assert(after[i] == front[i]);
                let k = choose|k: int| 0 <= k < front_files.len() && front_files[k] == front[i];
                assert(files[k] == front[i]);
            }
        }
    }
}

/// Whether the name `a` comes before the name `b`.
pub fn name_lt(a: &String, b: &String) -> (r: bool)
    ensures
        r == text_lt(a@, b@),
{
    let x = chars_of(a.as_str());
    let y = chars_of(b.as_str());
    let mut i: usize = 0;
    assert(x@.skip(0) =~= x@);
    assert(y@.skip(0) =~= y@);
    while i < x.len() && i < y.len()
        invariant
            i <= x.len(),
            i <= y.len(),
            x@ == a@,
            y@ == b@,
            text_lt(a@, b@) == text_lt(x@.skip(i as int), y@.skip(i as int)),
        decreases x.len() - i,
    {
        assert(x@.skip(i as int).drop_first() =~= x@.skip(i + 1));
        assert(y@.skip(i as int).drop_first() =~= y@.skip(i + 1));
        assert(x@.skip(i as int)[0] == x@[i as int]);
        assert(y@.skip(i as int)[0] == y@[i as int]);
        if x[i] != y[i] {
            return (x[i] as u32) < (y[i] as u32);
        }
        i += 1;
    }
    i < y.len()
}

/// The files in the order of their names; files with the same name keep the
/// order that they had.
pub fn sorted_files(files: Vec<DesktopFile>) -> (r: Vec<DesktopFile>)
    ensures
        r.deep_view() == sort_by_name(files.deep_view()),
{
    let mut rest = files;
    let ghost all = rest.deep_view();
    let ghost n = rest.len();
    let mut sorted: Vec<DesktopFile> = Vec::new();
    let mut i: usize = 0;
    assert(all.take(0) =~= Seq::<DesktopFileView>::empty());
    assert(sorted.deep_view() =~= Seq::<DesktopFileView>::empty());
    while rest.len() > 0
        invariant
            i + rest.len() == n == all.len(),
            forall|j: int| 0 <= j < rest.len() ==> rest@[j]@ == all[j + i],
            sorted.deep_view() == sort_by_name(all.take(i as int)),
        decreases rest.len(),
    {
        assert(all.take(i + 1).drop_last() =~= all.take(i as int));
        assert(all.take(i + 1).last() == all[i as int]);
        let file = rest.remove(0);
        assert(file@ == all[i as int]);
        let ghost before = sorted.deep_view();
        let mut pos: usize = sorted.len();
        while pos > 0 && name_lt(&file.desktop_entry.name, &sorted[pos - 1].desktop_entry.name)
            invariant
                pos <= sorted.len(),
                before == sorted.deep_view(),
                forall|k: int|
                    pos <= k < sorted.len() ==> text_lt(
                        name_of(file@),
                        name_of(#[trigger] before[k]),
                    ),
            decreases pos,
        {
            assert(before[pos - 1] == sorted@[pos - 1]@);
            pos -= 1;
        }
        proof {
            if pos > 0 {
                assert(before[pos - 1] == sorted@[pos - 1]@);
            }
            lemma_insert_at(before, file@, pos as int);
        }
        sorted.insert(pos, file);
        assert(sorted.deep_view() =~= before.insert(pos as int, file@));
        i += 1;
    }
    assert(all.take(n as int) =~= all);
    sorted
}

/// The files without those that have the name of the file just before them.
pub fn deduped_files(files: Vec<DesktopFile>) -> (r: Vec<DesktopFile>)
    ensures
        r.deep_view() == dedup_by_name(files.deep_view()),
{
    let mut rest = files;
    let ghost all = rest.deep_view();
    let ghost n = rest.len();
    let mut kept: Vec<DesktopFile> = Vec::new();
    let mut i: usize = 0;
    assert(all.take(0) =~= Seq::<DesktopFileView>::empty());
    assert(kept.deep_view() =~= Seq::<DesktopFileView>::empty());
    while rest.len() > 0
        invariant
            i + rest.len() == n == all.len(),
            forall|j: int| 0 <= j < rest.len() ==> rest@[j]@ == all[j + i],
            kept.deep_view() == dedup_by_name(all.take(i as int)),
        decreases rest.len(),
    {
        assert(all.take(i + 1).drop_last() =~= all.take(i as int));
        assert(all.take(i + 1).last() == all[i as int]);
        let file = rest.remove(0);
        assert(file@ == all[i as int]);
        let ghost before = kept.deep_view();
        let same = if kept.len() > 0 {
            assert(before.last() == kept@[kept.len() - 1]@);
            kept[kept.len() - 1].desktop_entry.name == file.desktop_entry.name
        } else {
            false
        };
        if !same {
            kept.push(file);
            assert(kept.deep_view() =~= before.push(file@));
        }
        i += 1;
    }
    assert(all.take(n as int) =~= all);
    kept
}

/// The files whose entries the desktop `current_desktop` shows, in order.
pub fn shown_files(files: Vec<DesktopFile>, current_desktop: &str) -> (r: Vec<DesktopFile>)
    ensures
        r.deep_view() == keep_shown(files.deep_view(), current_desktop@),
{
    let desktop = current_desktop.to_owned();
    let mut rest = files;
    let ghost all = rest.deep_view();
    let ghost n = rest.len();
    let mut kept: Vec<DesktopFile> = Vec::new();
    let mut i: usize = 0;
    assert(all.take(0) =~= Seq::<DesktopFileView>::empty());
    assert(kept.deep_view() =~= Seq::<DesktopFileView>::empty());
    while rest.len() > 0
        invariant
            i + rest.len() == n == all.len(),
            desktop@ == current_desktop@,
            forall|j: int| 0 <= j < rest.len() ==> rest@[j]@ == all[j + i],
            kept.deep_view() == keep_shown(all.take(i as int), current_desktop@),
        decreases rest.len(),
    {
        assert(all.take(i + 1).drop_last() =~= all.take(i as int));
        assert(all.take(i + 1).last() == all[i as int]);
        let file = rest.remove(0);
        assert(file@ == all[i as int]);
        let entry = &file.desktop_entry;
        let shown = !entry.no_display && !entry.hidden && (entry.only_show_in.len() == 0
            || contains_text(&entry.only_show_in, &desktop)) && !contains_text(
            &entry.not_show_in,
            &desktop,
        );
        if shown {
            let ghost before = kept.deep_view();
            kept.push(file);
            assert(kept.deep_view() =~= before.push(file@));
        }
        i += 1;
    }
    assert(all.take(n as int) =~= all);
    kept
}

/// The applications that the files give, in order.
///
/// Fails with the error of the first file that gives no application:
/// `InvalidCommandLine` with the command that holds no program.
pub fn applications(files: Vec<DesktopFile>) -> (r: Result<Vec<Application>, Error>)
    ensures
        match r {
            Ok(apps) => spec_applications(files.deep_view()) == Ok::<
                Seq<ApplicationView>,
                ErrorView,
            >(apps.deep_view()),
            Err(e) => spec_applications(files.deep_view()) == Err::<
                Seq<ApplicationView>,
                ErrorView,
            >(e@),
        },
{
    let mut rest = files;
    let ghost all = rest.deep_view();
    let ghost n = rest.len();
    let mut apps: Vec<Application> = Vec::new();
    let mut i: usize = 0;
    assert(all.take(0) =~= Seq::<DesktopFileView>::empty());
    assert(apps.deep_view() =~= Seq::<ApplicationView>::empty());
    while rest.len() > 0
        invariant
            i + rest.len() == n == all.len(),
            all == files.deep_view(),
            forall|j: int| 0 <= j < rest.len() ==> rest@[j]@ == all[j + i],
            spec_applications(all.take(i as int)) == Ok::<Seq<ApplicationView>, ErrorView>(
                apps.deep_view(),
            ),
        decreases rest.len(),
    {
        assert(all.take(i + 1).drop_last() =~= all.take(i as int));
        assert(all.take(i + 1).last() == all[i as int]);
        let file = rest.remove(0);
        assert(file@ == all[i as int]);
        match Application::try_from(file) {
            Ok(app) => {
                let ghost before = apps.deep_view();
                apps.push(app);
                assert(apps.deep_view() =~= before.push(app@));
            },
            Err(e) => {
                proof {
                    lemma_application_error_stays(all, i + 1);
                }
                return Err(e);
            },
        }
        i += 1;
    }
    assert(all.take(n as int) =~= all);
    Ok(apps)
}

/// The applications that the desktop `current_desktop` shows, out of the
/// desktop files that were read: sorted by name, one for each name, and only
/// those that the desktop shows.
///
/// Fails with the error of the first of them whose command holds no program.
pub fn visible_applications(files: Vec<DesktopFile>, current_desktop: &str) -> (r: Result<
    Vec<Application>,
    Error,
>)
    ensures
        match r {
            Ok(apps) => spec_applications(spec_visible(files.deep_view(), current_desktop@))
                == Ok::<Seq<ApplicationView>, ErrorView>(apps.deep_view()),
            Err(e) => spec_applications(spec_visible(files.deep_view(), current_desktop@))
                == Err::<Seq<ApplicationView>, ErrorView>(e@),
        },
{
    applications(shown_files(deduped_files(sorted_files(files)), current_desktop))
}

/// Once a file keeps the applications from being built, later files change
/// nothing.
proof fn lemma_application_error_stays(files: Seq<DesktopFileView>, k: int)
    requires
        0 <= k <= files.len(),
        spec_applications(files.take(k)) is Err,
    ensures
        spec_applications(files) == spec_applications(files.take(k)),
    decreases files.len() - k,
{
    if k < files.len() {
        assert(files.take(k + 1).drop_last() =~= files.take(k));
        lemma_application_error_stays(files, k + 1);
    } else {
        assert(files.take(k) =~= files);
    }
}

} // verus!
