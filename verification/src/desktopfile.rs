//! From the text of a desktop file to the application that it describes and
//! the actions that the application declares.

use crate::entry::{DesktopAction, DesktopActionView, DesktopEntry, DesktopEntryView};
use crate::errors::{Error, ErrorView};
use crate::locale::{Locale, LocaleView};
use crate::localised::{Entries, Section};
use crate::parse::{parse_desktop_groups, spec_parse_desktop_groups, SectionEntries};
use crate::table::{lookup, without};
use crate::text::{
    chars_of, contains_text, first_index_of, lemma_first_index_is, lemma_first_index_of, slice,
    starts_with, text_of,
};
use vstd::prelude::*;

verus! {

/// A desktop file, read: the application and those of its actions that it
/// declares and that the file describes.
#[derive(Debug, Clone, Eq, PartialEq)]
pub struct DesktopFile {
    pub desktop_entry: DesktopEntry,
    pub actions: Vec<DesktopAction>,
}

/// The mathematical value of a `DesktopFile`.
pub ghost struct DesktopFileView {
    pub desktop_entry: DesktopEntryView,
    pub actions: Seq<DesktopActionView>,
}

impl View for DesktopFile {
    type V = DesktopFileView;

    open spec fn view(&self) -> DesktopFileView {
        DesktopFileView { desktop_entry: self.desktop_entry@, actions: self.actions.deep_view() }
    }
}

impl DeepView for DesktopFile {
    type V = DesktopFileView;

    open spec fn deep_view(&self) -> DesktopFileView {
        self@
    }
}

/// The header of the primary section.
pub open spec fn entry_header() -> Seq<char> {
    "Desktop Entry"@
}

/// What the header of every action section begins with; the rest of the
/// header is the action's name.
pub open spec fn action_prefix() -> Seq<char> {
    "Desktop Action "@
}

/// The only type of entry that is an application.
pub open spec fn application_type() -> Seq<char> {
    "Application"@
}

/// The truth value that a text spells: `true` or `false`, and nothing else.
pub open spec fn spec_parse_bool(text: Seq<char>) -> Option<bool> {
    if text == "true"@ {
        Some(true)
    } else if text == "false"@ {
        Some(false)
    } else {
        None
    }
}

/// The items of a list that is written with a `;` after or between its
/// items. Items without a character are left out.
pub open spec fn split_list(s: Seq<char>) -> Seq<Seq<char>>
    decreases s.len(),
{
    let n = first_index_of(s, ';');
    if s.len() == 0 {
        Seq::empty()
    } else if n < 0 || n >= s.len() {
        seq![s]
    } else if n == 0 {
        split_list(s.skip(1))
    } else {
        seq![s.take(n)] + split_list(s.skip(n + 1))
    }
}

/// The list under `key`: empty where the section lacks the key.
pub open spec fn list_under(group: Entries, key: Seq<char>) -> Seq<Seq<char>> {
    match lookup(group, key) {
        Some(text) => split_list(text),
        None => Seq::empty(),
    }
}

/// The truth value under `key`: `false` where the section lacks the key, and
/// nothing where the text under it spells no truth value.
pub open spec fn flag_under(group: Entries, key: Seq<char>) -> Option<bool> {
    match lookup(group, key) {
        Some(text) => spec_parse_bool(text),
        None => Some(false),
    }
}

/// The application that the primary section describes, or why it describes
/// none. The reasons, in the order in which they are looked for:
/// `NoDisplay`, then `Hidden`, spells no truth value; `Type` is missing;
/// `Type` is not `Application`; `Name` is missing.
pub open spec fn spec_build_entry(group: Entries) -> Result<DesktopEntryView, ErrorView> {
    if flag_under(group, "NoDisplay"@) is None {
        Err(ErrorView::InvalidValueFormat(lookup(group, "NoDisplay"@)->0))
    } else if flag_under(group, "Hidden"@) is None {
        Err(ErrorView::InvalidValueFormat(lookup(group, "Hidden"@)->0))
    } else if lookup(group, "Type"@) is None {
        Err(ErrorView::MissingRequiredEntryKey("Type"@))
    } else if lookup(group, "Type"@)->0 != application_type() {
        Err(ErrorView::TypeNotApplication)
    } else if lookup(group, "Name"@) is None {
        Err(ErrorView::MissingRequiredEntryKey("Name"@))
    } else {
        Ok(
            DesktopEntryView {
                entry_type: lookup(group, "Type"@)->0,
                name: lookup(group, "Name"@)->0,
                generic_name: lookup(group, "GenericName"@),
                no_display: flag_under(group, "NoDisplay"@)->0,
                comment: lookup(group, "Comment"@),
                icon: lookup(group, "Icon"@),
                hidden: flag_under(group, "Hidden"@)->0,
                only_show_in: list_under(group, "OnlyShowIn"@),
                not_show_in: list_under(group, "NotShowIn"@),
                try_exec: lookup(group, "TryExec"@),
                command: lookup(group, "Exec"@),
                path: lookup(group, "Path"@),
                actions: list_under(group, "Actions"@),
                mime_type: list_under(group, "MimeType"@),
                categories: list_under(group, "Categories"@),
                keywords: list_under(group, "Keywords"@),
            },
        )
    }
}

/// The action that an action section describes, or the key that it lacks:
/// `Name` first, then `Exec`.
pub open spec fn spec_build_action(group: Entries) -> Result<DesktopActionView, ErrorView> {
    if lookup(group, "Name"@) is None {
        Err(ErrorView::MissingRequiredEntryKey("Name"@))
    } else if lookup(group, "Exec"@) is None {
        Err(ErrorView::MissingRequiredEntryKey("Exec"@))
    } else {
        Ok(
            DesktopActionView {
                name: lookup(group, "Name"@)->0,
                command: lookup(group, "Exec"@)->0,
                icon: lookup(group, "Icon"@),
            },
        )
    }
}

/// Whether `header` is that of an action section whose name is among
/// `declared`.
pub open spec fn is_declared_action(header: Seq<char>, declared: Seq<Seq<char>>) -> bool {
    action_prefix().is_prefix_of(header) && declared.contains(
        header.skip(action_prefix().len() as int),
    )
}

/// The actions that the sections describe, in the order of the sections:
/// one for each action section whose name is among `declared`. The first such
/// section that lacks a key is the reason why there are none.
pub open spec fn spec_build_actions(groups: SectionEntries, declared: Seq<Seq<char>>) -> Result<
    Seq<DesktopActionView>,
    ErrorView,
>
    decreases groups.len(),
{
    if groups.len() == 0 {
        Ok(Seq::empty())
    } else {
        match spec_build_actions(groups.drop_last(), declared) {
            Err(e) => Err(e),
            Ok(front) => if is_declared_action(groups.last().0, declared) {
                match spec_build_action(groups.last().1) {
                    Ok(action) => Ok(front.push(action)),
                    Err(e) => Err(e),
                }
            } else {
                Ok(front)
            },
        }
    }
}

/// The application and the actions that the sections describe. Without a
/// primary section the application is not found.
pub open spec fn spec_build_file(groups: SectionEntries) -> Result<DesktopFileView, ErrorView> {
    match lookup(groups, entry_header()) {
        None => Err(ErrorView::ApplicationNotFound),
        Some(primary) => match spec_build_entry(primary) {
            Err(e) => Err(e),
            Ok(desktop_entry) => with_actions(
                desktop_entry,
                spec_build_actions(without(groups, entry_header()), desktop_entry.actions),
            ),
        },
    }
}

/// The file that an application makes with the actions that were built for
/// it, or the reason why those were not built.
pub open spec fn with_actions(
    desktop_entry: DesktopEntryView,
    actions: Result<Seq<DesktopActionView>, ErrorView>,
) -> Result<DesktopFileView, ErrorView> {
    match actions {
        Err(e) => Err(e),
        Ok(actions) => Ok(DesktopFileView { desktop_entry, actions }),
    }
}

/// What the desktop file `src` describes, read for `locale`.
pub open spec fn spec_read(src: Seq<char>, locale: LocaleView) -> Result<
    DesktopFileView,
    ErrorView,
> {
    match spec_parse_desktop_groups(src, locale) {
        None => Err(ErrorView::NoGroupsFound),
        Some(groups) => spec_build_file(groups),
    }
}

/// A primary section whose type is present and is not `Application` is
/// refused as `TypeNotApplication`, as long as its truth values are well
/// formed; what its other keys hold plays no part.
pub proof fn lemma_type_not_application(group: Entries)
    requires
        flag_under(group, "NoDisplay"@) is Some,
        flag_under(group, "Hidden"@) is Some,
        lookup(group, "Type"@) is Some,
        lookup(group, "Type"@)->0 != application_type(),
    ensures
        spec_build_entry(group) == Err::<DesktopEntryView, ErrorView>(
            ErrorView::TypeNotApplication,
        ),
{
}

/// Every entry that is built is an application.
pub proof fn lemma_built_entry_is_application(group: Entries)
    requires
        spec_build_entry(group) is Ok,
    ensures
        spec_build_entry(group)->Ok_0.entry_type == application_type(),
{
}

/// Whether `action` is what one of the sections describes whose header is the
/// action prefix followed by one of the names `declared`.
pub open spec fn stems_from(
    groups: SectionEntries,
    declared: Seq<Seq<char>>,
    action: DesktopActionView,
) -> bool {
    exists|i: int|
        0 <= i < groups.len() && is_declared_action((#[trigger] groups[i]).0, declared)
            && spec_build_action(groups[i].1) == Ok::<DesktopActionView, ErrorView>(action)
}

/// Every action that is built is described by a section of the file whose
/// header is the action prefix followed by a name that the application
/// declares. So an action that is declared and has no section is not built,
/// nor is one that has a section and is not declared.
pub proof fn lemma_actions_declared_and_present(groups: SectionEntries, declared: Seq<Seq<char>>)
    requires
        spec_build_actions(groups, declared) is Ok,
    ensures
        forall|k: int|
            0 <= k < spec_build_actions(groups, declared)->Ok_0.len() ==> stems_from(
                groups,
                declared,
                #[trigger] spec_build_actions(groups, declared)->Ok_0[k],
            ),
    decreases groups.len(),
{
    if groups.len() > 0 {
        let front = groups.drop_last();
        lemma_actions_declared_and_present(front, declared);
        let built = spec_build_actions(groups, declared)->Ok_0;
        let built_front = spec_build_actions(front, declared)->Ok_0;
        assert forall|k: int| 0 <= k < built.len() implies stems_from(
            groups,
            declared,
            #[trigger] built[k],
        ) by {
            if k < built_front.len() {
                assert(built[k] == built_front[k]);
                assert(stems_from(front, declared, built_front[k]));
                let i = choose|i: int|
                    0 <= i < front.len() && is_declared_action((#[trigger] front[i]).0, declared)
                        && spec_build_action(front[i].1) == Ok::<DesktopActionView, ErrorView>(
                        built_front[k],
                    );
                assert(front[i] == groups[i]);
            } else {
                let i = groups.len() - 1;
                assert(is_declared_action(groups[i].0, declared));
                assert(spec_build_action(groups[i].1) == Ok::<DesktopActionView, ErrorView>(
                    built[k],
                ));
            }
        }
    }
}

/// The truth value that a text spells.
pub fn parse_bool(text: &String) -> (r: Option<bool>)
    ensures
        r == spec_parse_bool(text@),
{
    let yes = "true".to_owned();
    let no = "false".to_owned();
    if *text == yes {
        Some(true)
    } else if *text == no {
        Some(false)
    } else {
        None
    }
}

/// The items of a `;`-separated list, without the empty ones.
pub fn split_list_items(text: &String) -> (r: Vec<String>)
    ensures
        r.deep_view() == split_list(text@),
{
    let chars = chars_of(text.as_str());
    let n = chars.len();
    let mut items: Vec<String> = Vec::new();
    let mut start: usize = 0;
    let mut i: usize = 0;
    assert(items.deep_view() =~= Seq::<Seq<char>>::empty());
    assert(text@.skip(0) =~= text@);
    assert(Seq::<Seq<char>>::empty() + split_list(text@) =~= split_list(text@));
    while i < n
        invariant
            start <= i <= n == chars.len(),
            chars@ == text@,
            forall|j: int| start <= j < i ==> chars@[j] != ';',
            split_list(text@) == items.deep_view() + split_list(text@.skip(start as int)),
        decreases n - i,
    {
        if chars[i] == ';' {
            proof {
                let rest = text@.skip(start as int);
                assert forall|j: int| 0 <= j < i - start implies rest[j] != ';' by {
                    assert(rest[j] == chars@[start + j]);
                }
                lemma_first_index_is(rest, ';', i - start);
                assert(rest.skip(i - start + 1) =~= text@.skip(i + 1));
                assert(rest.skip(1) =~= text@.skip(start + 1));
            }
            if start < i {
                let item = slice(&chars, start, i);
                assert(text@.skip(start as int).take(i - start) =~= item@);
                let ghost before = items.deep_view();
                let item_text = text_of(&item);
                items.push(item_text);
                assert(items.deep_view() =~= before.push(item@));
                assert(before + (seq![item@] + split_list(text@.skip(i + 1))) =~= before.push(
                    item@,
                ) + split_list(text@.skip(i + 1)));
            }
            start = i + 1;
        }
        i += 1;
    }
    if start < n {
        let item = slice(&chars, start, n);
        proof {
            let rest = text@.skip(start as int);
            assert(rest =~= item@);
            assert forall|j: int| 0 <= j < rest.len() implies rest[j] != ';' by {
                assert(rest[j] == chars@[start + j]);
            }
            lemma_first_index_of(rest, ';');
        }
        let ghost before = items.deep_view();
        items.push(text_of(&item));
        assert(items.deep_view() =~= before + seq![item@]);
    } else {
        assert(text@.skip(start as int).len() == 0);
        assert(items.deep_view() + Seq::<Seq<char>>::empty() =~= items.deep_view());
    }
    items
}

/// A copy of the text under `key`.
fn text_under(group: &Section, key: &str) -> (r: Option<String>)
    ensures
        r.deep_view() == lookup(group.deep_view(), key@),
{
    match group.get(key) {
        Some(text) => Some(text.clone()),
        None => None,
    }
}

/// The list under `key`.
fn items_under(group: &Section, key: &str) -> (r: Vec<String>)
    ensures
        r.deep_view() == list_under(group.deep_view(), key@),
{
    match group.get(key) {
        Some(text) => split_list_items(text),
        None => {
            let none: Vec<String> = Vec::new();
            assert(none.deep_view() =~= Seq::<Seq<char>>::empty());
            none
        },
    }
}

/// The truth value under `key`, or the text under it that spells none.
fn truth_under(group: &Section, key: &str) -> (r: Result<bool, Error>)
    ensures
        match r {
            Ok(b) => flag_under(group.deep_view(), key@) == Some(b),
            Err(e) => flag_under(group.deep_view(), key@) is None && e@
                == ErrorView::InvalidValueFormat(lookup(group.deep_view(), key@)->0),
        },
{
    match group.get(key) {
        Some(text) => match parse_bool(text) {
            Some(b) => Ok(b),
            None => Err(Error::InvalidValueFormat(text.clone())),
        },
        None => Ok(false),
    }
}

impl DesktopFile {
    /// Reads a desktop file for `locale`.
    ///
    /// Fails with `NoGroupsFound` where the file holds no section whose header
    /// begins with `Desktop `, with `ApplicationNotFound` where none of them is
    /// the primary section, and otherwise with what keeps the primary section,
    /// or the first declared action, from being built.
    pub fn read(input: &str, locale: &Locale) -> (r: Result<DesktopFile, Error>)
        ensures
            match r {
                Ok(file) => spec_read(input@, locale@) == Ok::<DesktopFileView, ErrorView>(file@),
                Err(e) => spec_read(input@, locale@) == Err::<DesktopFileView, ErrorView>(e@),
            },
    {
        let mut groups = match parse_desktop_groups(input, locale) {
            Ok(groups) => groups,
            Err(e) => {
                return Err(e);
            },
        };
        let ghost all = groups.deep_view();
        let primary = match groups.remove("Desktop Entry") {
            Some(primary) => primary,
            None => {
                return Err(Error::ApplicationNotFound);
            },
        };
        let desktop_entry = match entry_from(&primary) {
            Ok(desktop_entry) => desktop_entry,
            Err(e) => {
                return Err(e);
            },
        };
        let prefix = chars_of("Desktop Action ");
        let ghost others = groups.deep_view();
        let ghost declared = desktop_entry@.actions;
        let mut actions: Vec<DesktopAction> = Vec::new();
        let mut i: usize = 0;
        assert(others.take(0) =~= SectionEntries::empty());
        assert(actions.deep_view() =~= Seq::<DesktopActionView>::empty());
        assert(spec_read(input@, locale@) == with_actions(
            desktop_entry@,
            spec_build_actions(others, declared),
        ));
        while i < groups.entries.len()
            invariant
                i <= groups.entries.len(),
                spec_read(input@, locale@) == with_actions(
                    desktop_entry@,
                    spec_build_actions(others, declared),
                ),
                groups.deep_view() == others,
                prefix@ == action_prefix(),
                declared == desktop_entry.actions.deep_view(),
                spec_build_actions(others.take(i as int), declared) == Ok::<
                    Seq<DesktopActionView>,
                    ErrorView,
                >(actions.deep_view()),
            decreases groups.entries.len() - i,
        {
            let ghost upto = others.take(i + 1);
            assert(upto.drop_last() =~= others.take(i as int));
            assert(upto.last() == others[i as int]);
            assert(others[i as int] == (
                groups.entries@[i as int].0@,
                groups.entries@[i as int].1.deep_view(),
            ));
            let header = chars_of(groups.entries[i].0.as_str());
            if starts_with(&header, &prefix) {
                let name = text_of(&slice(&header, prefix.len(), header.len()));
                assert(name@ == header@.skip(prefix@.len() as int));
                if contains_text(&desktop_entry.actions, &name) {
                    match action_from(&groups.entries[i].1) {
                        Ok(action) => {
                            let ghost before = actions.deep_view();
                            actions.push(action);
                            assert(actions.deep_view() =~= before.push(action@));
                        },
                        Err(e) => {
                            proof {
                                lemma_error_stays(others, declared, i + 1);
                                assert(others.take(others.len() as int) =~= others);
                            }
                            return Err(e);
                        },
                    }
                }
            }
            i += 1;
        }
        assert(others.take(groups.entries.len() as int) =~= others);
        Ok(DesktopFile { desktop_entry, actions })
    }

    /// The application that the primary section describes.
    ///
    /// Fails with `InvalidValueFormat` where `NoDisplay` or `Hidden` spells no
    /// truth value, with `MissingRequiredEntryKey` where `Type` or `Name` is
    /// missing, and with `TypeNotApplication` where the type is another one.
    /// Keys that are not known are passed over.
    pub fn build_desktop_entry(desktop_entry_group: Section) -> (r: Result<DesktopEntry, Error>)
        ensures
            match r {
                Ok(entry) => spec_build_entry(desktop_entry_group.deep_view()) == Ok::<
                    DesktopEntryView,
                    ErrorView,
                >(entry@),
                Err(e) => spec_build_entry(desktop_entry_group.deep_view()) == Err::<
                    DesktopEntryView,
                    ErrorView,
                >(e@),
            },
    {
        entry_from(&desktop_entry_group)
    }

    /// The action that an action section describes.
    ///
    /// Fails with `MissingRequiredEntryKey` where `Name` or `Exec` is missing.
    pub fn build_desktop_action(desktop_action_group: Section) -> (r: Result<DesktopAction, Error>)
        ensures
            match r {
                Ok(action) => spec_build_action(desktop_action_group.deep_view()) == Ok::<
                    DesktopActionView,
                    ErrorView,
                >(action@),
                Err(e) => spec_build_action(desktop_action_group.deep_view()) == Err::<
                    DesktopActionView,
                    ErrorView,
                >(e@),
            },
    {
        action_from(&desktop_action_group)
    }
}

/// The application that a section describes.
fn entry_from(group: &Section) -> (r: Result<DesktopEntry, Error>)
    ensures
        match r {
            Ok(entry) => spec_build_entry(group.deep_view()) == Ok::<DesktopEntryView, ErrorView>(
                entry@,
            ),
            Err(e) => spec_build_entry(group.deep_view()) == Err::<DesktopEntryView, ErrorView>(
                e@,
            ),
        },
{
    let no_display = match truth_under(group, "NoDisplay") {
        Ok(b) => b,
        Err(e) => {
            return Err(e);
        },
    };
    let hidden = match truth_under(group, "Hidden") {
        Ok(b) => b,
        Err(e) => {
            return Err(e);
        },
    };
    let entry_type = match text_under(group, "Type") {
        Some(text) => text,
        None => {
            return Err(Error::MissingRequiredEntryKey("Type".to_owned()));
        },
    };
    let application = "Application".to_owned();
    if !(entry_type == application) {
        return Err(Error::TypeNotApplication);
    }
    let name = match text_under(group, "Name") {
        Some(text) => text,
        None => {
            return Err(Error::MissingRequiredEntryKey("Name".to_owned()));
        },
    };
    Ok(
        DesktopEntry {
            entry_type,
            name,
            generic_name: text_under(group, "GenericName"),
            no_display,
            comment: text_under(group, "Comment"),
            icon: text_under(group, "Icon"),
            hidden,
            only_show_in: items_under(group, "OnlyShowIn"),
            not_show_in: items_under(group, "NotShowIn"),
            try_exec: text_under(group, "TryExec"),
            command: text_under(group, "Exec"),
            path: text_under(group, "Path"),
            actions: items_under(group, "Actions"),
            mime_type: items_under(group, "MimeType"),
            categories: items_under(group, "Categories"),
            keywords: items_under(group, "Keywords"),
        },
    )
}

/// The action that a section describes.
fn action_from(group: &Section) -> (r: Result<DesktopAction, Error>)
    ensures
        match r {
            Ok(action) => spec_build_action(group.deep_view()) == Ok::<
                DesktopActionView,
                ErrorView,
            >(action@),
            Err(e) => spec_build_action(group.deep_view()) == Err::<DesktopActionView, ErrorView>(
                e@,
            ),
        },
{
    let name = match text_under(group, "Name") {
        Some(text) => text,
        None => {
            return Err(Error::MissingRequiredEntryKey("Name".to_owned()));
        },
    };
    let command = match text_under(group, "Exec") {
        Some(text) => text,
        None => {
            return Err(Error::MissingRequiredEntryKey("Exec".to_owned()));
        },
    };
    Ok(DesktopAction { name, command, icon: text_under(group, "Icon") })
}

/// Once a section keeps the actions from being built, later sections change
/// nothing.
proof fn lemma_error_stays(groups: SectionEntries, declared: Seq<Seq<char>>, k: int)
    requires
        0 <= k <= groups.len(),
        spec_build_actions(groups.take(k), declared) is Err,
    ensures
        spec_build_actions(groups, declared) == spec_build_actions(groups.take(k), declared),
    decreases groups.len() - k,
{
    if k < groups.len() {
        assert(groups.take(k + 1).drop_last() =~= groups.take(k));
        lemma_error_stays(groups, declared, k + 1);
    } else {
        assert(groups.take(k) =~= groups);
    }
}

} // verus!
