//! What a desktop file says of an application and of its actions.

use vstd::prelude::*;

verus! {

/// The primary section of a desktop file, field by field.
#[derive(Debug, Default, Clone, Eq, PartialEq)]
pub struct DesktopEntry {
    /// `Type`.
    pub entry_type: String,
    /// `Name`.
    pub name: String,
    /// `GenericName`.
    pub generic_name: Option<String>,
    /// `NoDisplay`.
    pub no_display: bool,
    /// `Comment`.
    pub comment: Option<String>,
    /// `Icon`.
    pub icon: Option<String>,
    /// `Hidden`.
    pub hidden: bool,
    /// `OnlyShowIn`.
    pub only_show_in: Vec<String>,
    /// `NotShowIn`.
    pub not_show_in: Vec<String>,
    /// `TryExec`.
    pub try_exec: Option<String>,
    /// `Exec`: the command template, as written.
    pub command: Option<String>,
    /// `Path`: the directory to run the command in.
    pub path: Option<String>,
    /// `Actions`: the names of the actions that the application declares.
    pub actions: Vec<String>,
    /// `MimeType`.
    pub mime_type: Vec<String>,
    /// `Categories`.
    pub categories: Vec<String>,
    /// `Keywords`.
    pub keywords: Vec<String>,
}

/// The mathematical value of a `DesktopEntry`.
pub ghost struct DesktopEntryView {
    pub entry_type: Seq<char>,
    pub name: Seq<char>,
    pub generic_name: Option<Seq<char>>,
    pub no_display: bool,
    pub comment: Option<Seq<char>>,
    pub icon: Option<Seq<char>>,
    pub hidden: bool,
    pub only_show_in: Seq<Seq<char>>,
    pub not_show_in: Seq<Seq<char>>,
    pub try_exec: Option<Seq<char>>,
    pub command: Option<Seq<char>>,
    pub path: Option<Seq<char>>,
    pub actions: Seq<Seq<char>>,
    pub mime_type: Seq<Seq<char>>,
    pub categories: Seq<Seq<char>>,
    pub keywords: Seq<Seq<char>>,
}

impl View for DesktopEntry {
    type V = DesktopEntryView;

    open spec fn view(&self) -> DesktopEntryView {
        DesktopEntryView {
            entry_type: self.entry_type@,
            name: self.name@,
            generic_name: self.generic_name.deep_view(),
            no_display: self.no_display,
            comment: self.comment.deep_view(),
            icon: self.icon.deep_view(),
            hidden: self.hidden,
            only_show_in: self.only_show_in.deep_view(),
            not_show_in: self.not_show_in.deep_view(),
            try_exec: self.try_exec.deep_view(),
            command: self.command.deep_view(),
            path: self.path.deep_view(),
            actions: self.actions.deep_view(),
            mime_type: self.mime_type.deep_view(),
            categories: self.categories.deep_view(),
            keywords: self.keywords.deep_view(),
        }
    }
}

impl DeepView for DesktopEntry {
    type V = DesktopEntryView;

    open spec fn deep_view(&self) -> DesktopEntryView {
        self@
    }
}

/// One action section of a desktop file, field by field.
#[derive(Debug, Default, Clone, Eq, PartialEq)]
pub struct DesktopAction {
    /// `Name`.
    pub name: String,
    /// `Exec`: the command template, as written.
    pub command: String,
    /// `Icon`.
    pub icon: Option<String>,
}

/// The mathematical value of a `DesktopAction`.
pub ghost struct DesktopActionView {
    pub name: Seq<char>,
    pub command: Seq<char>,
    pub icon: Option<Seq<char>>,
}

impl View for DesktopAction {
    type V = DesktopActionView;

    open spec fn view(&self) -> DesktopActionView {
        DesktopActionView { name: self.name@, command: self.command@, icon: self.icon.deep_view() }
    }
}

impl DeepView for DesktopAction {
    type V = DesktopActionView;

    open spec fn deep_view(&self) -> DesktopActionView {
        self@
    }
}

} // verus!
