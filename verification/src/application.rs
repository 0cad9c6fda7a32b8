//! Applications that can be launched, with their actions, and the question
//! whether the program that an application names can be run.
//!
//! Whether a file exists, and what its mode and owners are, is for the caller
//! to find out: this module says where to look and what the answers mean.

use crate::desktopfile::{DesktopFile, DesktopFileView};
use crate::entry::{DesktopAction, DesktopActionView};
use crate::errors::{Error, ErrorView};
use crate::exec::{spec_extract_field_code, spec_parse_exec, Exec, ExecView, FieldCode};
use crate::search::{SearchIdxData, SearchIdxDataView, SearchIdxItem};
use crate::text::{chars_of, copies_of, copy_of, push_char, slice, text_of, trim, trimmed};
use vstd::prelude::*;

verus! {

/// What the system knows of a file: its mode bits, its owners, and whether it
/// is a regular file.
#[derive(Debug, Clone, Copy, PartialEq, Eq)]
pub struct Metadata {
    pub mode: u32,
    pub uid: u32,
    pub gid: u32,
    pub regular: bool,
}

/// A group of the system's group database, as the `users` crate hands it out.
#[verifier::external_type_specification]
#[verifier::external_body]
pub struct ExGroup(users::Group);

/// A user of the system's user database, as the `users` crate hands it out.
#[verifier::external_type_specification]
#[verifier::external_body]
pub struct ExUser(users::User);

/// Calls `users::get_effective_uid`. Trusted, and nothing is claimed: the
/// result is whatever user the process runs as.
#[verifier::external_body]
fn effective_uid() -> u32 {
    users::get_effective_uid()
}

/// Calls `users::get_group_by_gid`. Trusted, and nothing is claimed: the
/// result is whatever the system's group database holds, and nothing where it
/// knows no such group.
#[verifier::external_body]
fn group_by_gid(gid: u32) -> Option<users::Group> {
    users::get_group_by_gid(gid)
}

/// Calls `users::os::unix::GroupExt::members` and hands the members' names on
/// as bytes. Trusted, and nothing is claimed of them.
#[verifier::external_body]
fn members_of(group: &users::Group) -> Vec<Vec<u8>> {
    let members = users::os::unix::GroupExt::members(group);
    members.iter().map(|member| member.as_encoded_bytes().to_vec()).collect()
}

/// Calls `users::get_user_by_uid`. Trusted, and nothing is claimed: the result
/// is whatever the system's user database holds, and nothing where it knows no
/// such user.
#[verifier::external_body]
fn user_by_uid(uid: u32) -> Option<users::User> {
    users::get_user_by_uid(uid)
}

/// Calls `users::User::name` and hands the name on as bytes. Trusted, and
/// nothing is claimed of it.
#[verifier::external_body]
fn name_of_user(user: &users::User) -> Vec<u8> {
    user.name().as_encoded_bytes().to_vec()
}

/// The byte sequences of a list of names.
pub open spec fn names_view(names: Option<Vec<Vec<u8>>>) -> Option<Seq<Seq<u8>>> {
    match names {
        Some(list) => Some(Seq::new(list@.len(), |i: int| list@[i]@)),
        None => None,
    }
}

/// The byte sequence of a name.
pub open spec fn name_view(name: Option<Vec<u8>>) -> Option<Seq<u8>> {
    match name {
        Some(bytes) => Some(bytes@),
        None => None,
    }
}

/// Whether the user is a member of the group: both are known, and the user's
/// name is among the names of the group's members.
pub open spec fn is_member(members: Option<Seq<Seq<u8>>>, user: Option<Seq<u8>>) -> bool {
    members is Some && user is Some && members->0.contains(user->0)
}

/// Whether the owner may execute a file of this mode.
pub open spec fn owner_bit(mode: u32) -> bool {
    mode & 0o100 != 0
}

/// Whether the owning group may execute a file of this mode.
pub open spec fn group_bit(mode: u32) -> bool {
    mode & 0o010 != 0
}

/// Whether everybody may execute a file of this mode.
pub open spec fn others_bit(mode: u32) -> bool {
    mode & 0o001 != 0
}

/// Whether a user may execute the file: the user owns it and the owner may;
/// or the owner may and the user is a member of the owning group; or
/// everybody may. For a member of the group it is the owner's bit that
/// counts, not the group's.
pub open spec fn spec_exec(meta: Metadata, current_uid: u32, in_group: bool) -> bool {
    (current_uid == meta.uid && owner_bit(meta.mode)) || (owner_bit(meta.mode) && in_group)
        || others_bit(meta.mode)
}

/// Whether two names are the same bytes.
fn same_bytes(a: &Vec<u8>, b: &Vec<u8>) -> (r: bool)
    ensures
        r == (a@ == b@),
{
    if a.len() != b.len() {
        return false;
    }
    let mut i: usize = 0;
    while i < a.len()
        invariant
            i <= a.len() == b.len(),
            forall|j: int| 0 <= j < i ==> a@[j] == b@[j],
        decreases a.len() - i,
    {
        if a[i] != b[i] {
            return false;
        }
        i += 1;
    }
    assert(a@ =~= b@);
    true
}

/// Whether the user is a member of the group.
fn member_of(members: &Option<Vec<Vec<u8>>>, user: &Option<Vec<u8>>) -> (r: bool)
    ensures
        r == is_member(names_view(*members), name_view(*user)),
{
    match (members, user) {
        (Some(list), Some(name)) => {
            let ghost names = names_view(*members)->0;
            let mut i: usize = 0;
            while i < list.len()
                invariant
                    i <= list.len(),
                    names == Seq::new(list@.len(), |k: int| list@[k]@),
                    names_view(*members) == Some(names),
                    name_view(*user) == Some(name@),
                    forall|j: int| 0 <= j < i ==> names[j] != name@,
                decreases list.len() - i,
            {
                if same_bytes(&list[i], name) {
                    assert(names[i as int] == name@);
                    assert(names.contains(name@));
                    return true;
                }
                i += 1;
            }
            false
        },
        _ => false,
    }
}

impl Metadata {
    /// Whether the owner may execute the file.
    pub fn exec_owner(&self) -> (r: bool)
        ensures
            r == owner_bit(self.mode),
    {
        self.mode & 0o100 != 0
    }

    /// Whether the owning group may execute the file.
    pub fn exec_group(&self) -> (r: bool)
        ensures
            r == group_bit(self.mode),
    {
        self.mode & 0o010 != 0
    }

    /// Whether everybody may execute the file.
    pub fn exec_others(&self) -> (r: bool)
        ensures
            r == others_bit(self.mode),
    {
        self.mode & 0o001 != 0
    }

    /// Whether the user `current_uid` may execute the file, given the names
    /// of the members of the file's owning group and the user's own name, as
    /// far as the system knows them.
    pub fn exec_as(
        &self,
        current_uid: u32,
        members: &Option<Vec<Vec<u8>>>,
        user: &Option<Vec<u8>>,
    ) -> (r: bool)
        ensures
            r == spec_exec(*self, current_uid, is_member(names_view(*members), name_view(*user))),
    {
        if current_uid == self.uid && self.exec_owner() {
            return true;
        }
        if self.exec_owner() && member_of(members, user) {
            return true;
        }
        self.exec_others()
    }

    /// Whether the user that runs this process may execute the file. The
    /// user and the group are looked up in the system, so the answer depends
    /// on it; but whoever the user is, a file that everybody may execute can
    /// be executed, and one that neither its owner nor everybody may execute
    /// cannot.
    pub fn exec(&self) -> (r: bool)
        ensures
            others_bit(self.mode) ==> r,
            !owner_bit(self.mode) && !others_bit(self.mode) ==> !r,
    {
        let current_uid = effective_uid();
        if !self.exec_owner() || current_uid == self.uid {
            let unknown_group: Option<Vec<Vec<u8>>> = None;
            let unknown_user: Option<Vec<u8>> = None;
            return self.exec_as(current_uid, &unknown_group, &unknown_user);
        }
        let members = match group_by_gid(self.gid) {
            Some(group) => Some(members_of(&group)),
            None => None,
        };
        let user = match user_by_uid(current_uid) {
            Some(user) => Some(name_of_user(&user)),
            None => None,
        };
        self.exec_as(current_uid, &members, &user)
    }
}

/// Whether what was found at a path can be executed by the user that runs
/// this process: nothing can where nothing was found.
pub fn is_executable(found: Option<Metadata>) -> (r: bool)
    ensures
        found is None ==> !r,
        found is Some && others_bit(found->0.mode) ==> r,
        found is Some && !owner_bit(found->0.mode) && !others_bit(found->0.mode) ==> !r,
{
    match found {
        Some(meta) => meta.exec(),
        None => false,
    }
}

/// Whether the path starts at the root.
pub open spec fn is_absolute(path: Seq<char>) -> bool {
    path.len() > 0 && path[0] == '/'
}

/// The path of `file` in the directory `dir`.
pub open spec fn join(dir: Seq<char>, file: Seq<char>) -> Seq<char> {
    if dir.len() > 0 && dir.last() == '/' {
        dir + file
    } else {
        dir + seq!['/'] + file
    }
}

/// The paths at which `file` is looked for in the directories `dirs`: one in
/// each directory that is given by an absolute path, in order.
pub open spec fn in_dirs(dirs: Seq<Seq<char>>, file: Seq<char>) -> Seq<Seq<char>>
    decreases dirs.len(),
{
    if dirs.len() == 0 {
        Seq::empty()
    } else if is_absolute(dirs.last()) {
        in_dirs(dirs.drop_last(), file).push(join(dirs.last(), file))
    } else {
        in_dirs(dirs.drop_last(), file)
    }
}

/// The directories that a search path names: what stands between its colons.
pub open spec fn split_paths(s: Seq<char>) -> Seq<Seq<char>>
    decreases s.len(),
{
    if s.len() == 0 {
        seq![s]
    } else if s.last() == ':' {
        split_paths(s.drop_last()).push(Seq::empty())
    } else {
        let front = split_paths(s.drop_last());
        front.update(front.len() - 1, front.last().push(s.last()))
    }
}

/// The paths at which the program `try_exec` is looked for, in order: the
/// path itself where it is absolute; else one in each directory of the search
/// path `env_path`, and none where there is no search path.
pub open spec fn spec_candidates(try_exec: Seq<char>, env_path: Option<Seq<char>>) -> Seq<
    Seq<char>,
> {
    if is_absolute(try_exec) {
        seq![try_exec]
    } else {
        match env_path {
            Some(paths) => in_dirs(split_paths(paths), try_exec),
            None => Seq::empty(),
        }
    }
}

/// The path of `file` in the directory `dir`.
fn join_path(dir: &Vec<char>, file: &Vec<char>) -> (r: Vec<char>)
    ensures
        r@ == join(dir@, file@),
{
    let mut path = slice(dir, 0, dir.len());
    assert(path@ == dir@);
    if !(dir.len() > 0 && dir[dir.len() - 1] == '/') {
        path.push('/');
    }
    let ghost head = path@;
    let mut i: usize = 0;
    while i < file.len()
        invariant
            i <= file.len(),
            path@ == head + file@.take(i as int),
        decreases file.len() - i,
    {
        path.push(file[i]);
        assert(file@.take(i + 1) == file@.take(i as int).push(file@[i as int]));
        i += 1;
    }
    assert(file@.take(file.len() as int) == file@);
    path
}

/// The paths at which the program `try_exec` is looked for, in order.
pub fn candidates(try_exec: &str, env_path: Option<&str>) -> (r: Vec<String>)
    ensures
        r.deep_view() == spec_candidates(
            try_exec@,
            match env_path {
                Some(paths) => Some(paths@),
                None => None,
            },
        ),
{
    let file = chars_of(try_exec);
    let mut found: Vec<String> = Vec::new();
    assert(found.deep_view() =~= Seq::<Seq<char>>::empty());
    if file.len() > 0 && file[0] == '/' {
        found.push(try_exec.to_owned());
        assert(found.deep_view() =~= seq![try_exec@]);
        return found;
    }
    let paths = match env_path {
        Some(paths) => chars_of(paths),
        None => {
            return found;
        },
    };
    let mut dir: Vec<char> = Vec::new();
    let mut i: usize = 0;
    assert(paths@.take(0) =~= Seq::<char>::empty());
    while i < paths.len()
        invariant
            i <= paths.len(),
            file@ == try_exec@,
            split_paths(paths@.take(i as int)).len() > 0,
            dir@ == split_paths(paths@.take(i as int)).last(),
            found.deep_view() == in_dirs(split_paths(paths@.take(i as int)).drop_last(), file@),
        decreases paths.len() - i,
    {
        let ghost before = split_paths(paths@.take(i as int));
        assert(paths@.take(i + 1).drop_last() =~= paths@.take(i as int));
        if paths[i] == ':' {
            let ghost so_far = found.deep_view();
            assert(before.push(Seq::<char>::empty()).drop_last() =~= before);
            assert(before.drop_last().push(before.last()) =~= before);
            if dir.len() > 0 && dir[0] == '/' {
                let path = text_of(&join_path(&dir, &file));
                found.push(path);
                assert(found.deep_view() =~= so_far.push(join(dir@, file@)));
            }
            dir = Vec::new();
        } else {
            dir.push(paths[i]);
            assert(before.update(before.len() - 1, before.last().push(paths@[i as int])).drop_last()
                =~= before.drop_last());
        }
        i += 1;
    }
    assert(paths@.take(paths.len() as int) =~= paths@);
    let ghost all = split_paths(paths@);
    assert(all.drop_last().push(all.last()) =~= all);
    if dir.len() > 0 && dir[0] == '/' {
        let ghost so_far = found.deep_view();
        let path = text_of(&join_path(&dir, &file));
        found.push(path);
        assert(found.deep_view() =~= so_far.push(join(dir@, file@)));
    }
    found
}

/// What a search for a program does next.
#[derive(Debug, Clone, PartialEq, Eq)]
pub enum SearchStep {
    /// Look at this path, and say what is there.
    Probe(String),
    /// The search is over: the program can, or cannot, be run.
    Done(bool),
}

/// The mathematical value of a `SearchStep`.
pub ghost enum SearchStepView {
    Probe(Seq<char>),
    Done(bool),
}

impl View for SearchStep {
    type V = SearchStepView;

    open spec fn view(&self) -> SearchStepView {
        match self {
            SearchStep::Probe(path) => SearchStepView::Probe(path@),
            SearchStep::Done(b) => SearchStepView::Done(*b),
        }
    }
}

/// A search for a program among the paths at which it may be: the paths, the
/// number of them that were looked at in vain, and whether the program was
/// named by an absolute path, so that nothing was taken from the search path.
#[derive(Debug, Clone, PartialEq, Eq)]
pub struct ExecSearch {
    pub candidates: Vec<String>,
    pub tried: usize,
    pub absolute: bool,
}

/// Whether what was found at a path is taken for the program at all: in a
/// directory of the search path only a regular file is.
pub open spec fn counts(absolute: bool, found: Option<Metadata>) -> bool {
    found is Some && (absolute || found->0.regular)
}

/// What a search that has looked at `tried` of the paths in vain does next:
/// it looks at the next path, or gives up where none is left.
pub open spec fn spec_next_step(candidates: Seq<Seq<char>>, tried: int) -> SearchStepView {
    if 0 <= tried < candidates.len() {
        SearchStepView::Probe(candidates[tried])
    } else {
        SearchStepView::Done(false)
    }
}

impl ExecSearch {
    /// The next step of the search as it stands.
    fn next_step(&self) -> (r: SearchStep)
        ensures
            r@ == spec_next_step(self.candidates.deep_view(), self.tried as int),
    {
        if self.tried < self.candidates.len() {
            assert(self.candidates.deep_view()[self.tried as int]
                == self.candidates@[self.tried as int]@);
            SearchStep::Probe(self.candidates[self.tried].clone())
        } else {
            SearchStep::Done(false)
        }
    }

    /// Begins the search for the program `try_exec`, with the search path
    /// `env_path`. An application that names no program can be run, and the
    /// search is over at once.
    pub fn start(try_exec: Option<&str>, env_path: Option<&str>) -> (r: (ExecSearch, SearchStep))
        ensures
            r.0.tried == 0,
            r.0.absolute == (try_exec is Some && is_absolute(try_exec->0@)),
            match try_exec {
                None => r.0.candidates.deep_view() == Seq::<Seq<char>>::empty() && r.1@
                    == SearchStepView::Done(true),
                Some(program) => r.0.candidates.deep_view() == spec_candidates(
                    program@,
                    match env_path {
                        Some(paths) => Some(paths@),
                        None => None,
                    },
                ) && r.1@ == spec_next_step(r.0.candidates.deep_view(), 0),
            },
    {
        match try_exec {
            None => {
                let search = ExecSearch { candidates: Vec::new(), tried: 0, absolute: false };
                assert(search.candidates.deep_view() =~= Seq::<Seq<char>>::empty());
                (search, SearchStep::Done(true))
            },
            Some(program) => {
                let chars = chars_of(program);
                let absolute = chars.len() > 0 && chars[0] == '/';
                let search = ExecSearch {
                    candidates: candidates(program, env_path),
                    tried: 0,
                    absolute,
                };
                let step = search.next_step();
                (search, step)
            },
        }
    }

    /// Goes on after a look at the path that was asked for: the search is
    /// over where the file there can be executed, and else moves to the next
    /// path, or gives up where none is left.
    pub fn step(&mut self, executable: bool) -> (r: SearchStep)
        ensures
            final(self).candidates == old(self).candidates,
            final(self).absolute == old(self).absolute,
            executable ==> r@ == SearchStepView::Done(true) && final(self).tried == old(
                self,
            ).tried,
            !executable && old(self).tried < old(self).candidates.len() ==> final(self).tried
                == old(self).tried + 1 && r@ == spec_next_step(
                old(self).candidates.deep_view(),
                old(self).tried + 1,
            ),
            !executable && old(self).tried >= old(self).candidates.len() ==> final(self).tried
                == old(self).tried && r@ == SearchStepView::Done(false),
    {
        if executable {
            return SearchStep::Done(true);
        }
        if self.tried < self.candidates.len() {
            self.tried = self.tried + 1;
        }
        self.next_step()
    }

    /// Goes on after a look at the path that was asked for, given what was
    /// found there. The search is over where that is taken for the program
    /// and can be executed, which depends on who runs this process; see
    /// `is_executable`. Else the search moves on as `step` does after a look
    /// in vain: so it does where nothing was found, and where something other
    /// than a regular file was found in a directory of the search path.
    pub fn advance(&mut self, found: Option<Metadata>) -> (r: SearchStep)
        ensures
            final(self).candidates == old(self).candidates,
            final(self).absolute == old(self).absolute,
            r@ == SearchStepView::Done(true) || (final(self).tried == old(self).tried + 1 && r@
                == spec_next_step(old(self).candidates.deep_view(), old(self).tried + 1)) || (
            final(self).tried == old(self).tried && old(self).tried >= old(self).candidates.len()
                && r@ == SearchStepView::Done(false)),
            !counts(old(self).absolute, found) ==> r@ != SearchStepView::Done(true),
            counts(old(self).absolute, found) && others_bit(found->0.mode) ==> r@
                == SearchStepView::Done(true),
    {
        let usable = match found {
            Some(meta) => self.absolute || meta.regular,
            None => false,
        };
        let executable = usable && is_executable(found);
        self.step(executable)
    }
}

/// What can be launched of an application itself.
#[derive(Debug, Clone, PartialEq, Eq)]
pub struct ApplicationPart {
    pub name: String,
    pub icon: Option<String>,
    pub comment: Option<String>,
    pub keywords: Vec<String>,
    /// The command template, split.
    pub template: Exec,
    /// What the template's variable argument stands for, if it has one.
    pub field_code: Option<FieldCode>,
    /// The program whose presence shows that the application is installed.
    pub try_exec: Option<String>,
    /// The directory to run the command in.
    pub path: Option<String>,
}

/// The mathematical value of an `ApplicationPart`.
pub ghost struct ApplicationPartView {
    pub name: Seq<char>,
    pub icon: Option<Seq<char>>,
    pub comment: Option<Seq<char>>,
    pub keywords: Seq<Seq<char>>,
    pub template: ExecView,
    pub field_code: Option<FieldCode>,
    pub try_exec: Option<Seq<char>>,
    pub path: Option<Seq<char>>,
}

impl View for ApplicationPart {
    type V = ApplicationPartView;

    open spec fn view(&self) -> ApplicationPartView {
        ApplicationPartView {
            name: self.name@,
            icon: self.icon.deep_view(),
            comment: self.comment.deep_view(),
            keywords: self.keywords.deep_view(),
            template: self.template@,
            field_code: self.field_code,
            try_exec: self.try_exec.deep_view(),
            path: self.path.deep_view(),
        }
    }
}

/// One action of an application, with what it needs to know of the
/// application.
#[derive(Debug, Clone, PartialEq, Eq)]
pub struct ActionPart {
    pub name: String,
    pub icon: Option<String>,
    /// The command template, split.
    pub template: Exec,
    /// The name of the application that the action belongs to.
    pub application_name: String,
    /// The program whose presence shows that the application is installed.
    pub try_exec: Option<String>,
}

/// The mathematical value of an `ActionPart`.
pub ghost struct ActionPartView {
    pub name: Seq<char>,
    pub icon: Option<Seq<char>>,
    pub template: ExecView,
    pub application_name: Seq<char>,
    pub try_exec: Option<Seq<char>>,
}

impl View for ActionPart {
    type V = ActionPartView;

    open spec fn view(&self) -> ActionPartView {
        ActionPartView {
            name: self.name@,
            icon: self.icon.deep_view(),
            template: self.template@,
            application_name: self.application_name@,
            try_exec: self.try_exec.deep_view(),
        }
    }
}

impl DeepView for ActionPart {
    type V = ActionPartView;

    open spec fn deep_view(&self) -> ActionPartView {
        self@
    }
}

/// An application with its actions.
#[derive(Debug, Clone, PartialEq, Eq)]
pub struct Application {
    pub app_part: ApplicationPart,
    pub action_parts: Vec<ActionPart>,
}

/// The mathematical value of an `Application`.
pub ghost struct ApplicationView {
    pub app_part: ApplicationPartView,
    pub action_parts: Seq<ActionPartView>,
}

impl View for Application {
    type V = ApplicationView;

    open spec fn view(&self) -> ApplicationView {
        ApplicationView { app_part: self.app_part@, action_parts: self.action_parts.deep_view() }
    }
}

impl DeepView for Application {
    type V = ApplicationView;

    open spec fn deep_view(&self) -> ApplicationView {
        self@
    }
}

/// The command template of an entry: empty where the entry has none.
pub open spec fn command_of(file: DesktopFileView) -> Seq<char> {
    match file.desktop_entry.command {
        Some(command) => command,
        None => Seq::empty(),
    }
}

/// The action part that an action of the application `name` gives, or
/// `InvalidCommandLine` with its command where that holds no program.
pub open spec fn spec_action_part(
    action: DesktopActionView,
    name: Seq<char>,
    try_exec: Option<Seq<char>>,
) -> Result<ActionPartView, ErrorView> {
    match spec_parse_exec(action.command) {
        Some(template) => Ok(
            ActionPartView {
                name: action.name,
                icon: action.icon,
                template,
                application_name: name,
                try_exec,
            },
        ),
        None => Err(ErrorView::InvalidCommandLine(action.command)),
    }
}

/// The action parts that the actions give, in order, or the error of the
/// first that gives none.
pub open spec fn spec_action_parts(
    actions: Seq<DesktopActionView>,
    name: Seq<char>,
    try_exec: Option<Seq<char>>,
) -> Result<Seq<ActionPartView>, ErrorView>
    decreases actions.len(),
{
    if actions.len() == 0 {
        Ok(Seq::empty())
    } else {
        match spec_action_parts(actions.drop_last(), name, try_exec) {
            Err(e) => Err(e),
            Ok(front) => match spec_action_part(actions.last(), name, try_exec) {
                Ok(part) => Ok(front.push(part)),
                Err(e) => Err(e),
            },
        }
    }
}

/// The application that a desktop file gives: `InvalidCommandLine` with the
/// command where that is missing, blank or without a program, and else the
/// application with the parts of its actions.
pub open spec fn spec_application(file: DesktopFileView) -> Result<ApplicationView, ErrorView> {
    let command = command_of(file);
    if trim(command).len() == 0 || spec_parse_exec(command) is None {
        Err(ErrorView::InvalidCommandLine(command))
    } else {
        let app_part = ApplicationPartView {
            name: file.desktop_entry.name,
            icon: file.desktop_entry.icon,
            comment: file.desktop_entry.comment,
            keywords: file.desktop_entry.keywords,
            template: spec_parse_exec(command)->0,
            field_code: spec_extract_field_code(command),
            try_exec: file.desktop_entry.try_exec,
            path: file.desktop_entry.path,
        };
        with_parts(app_part, spec_action_parts(file.actions, app_part.name, app_part.try_exec))
    }
}

/// The application that an application part makes with the parts of its
/// actions, or the reason why those were not built.
pub open spec fn with_parts(
    app_part: ApplicationPartView,
    parts: Result<Seq<ActionPartView>, ErrorView>,
) -> Result<ApplicationView, ErrorView> {
    match parts {
        Err(e) => Err(e),
        Ok(action_parts) => Ok(ApplicationView { app_part, action_parts }),
    }
}

/// The words by which an application is found: its name and, where it has
/// one, its comment as terms, and its keywords.
pub open spec fn spec_search_terms(app: ApplicationPartView) -> SearchIdxDataView {
    SearchIdxDataView {
        terms: match app.comment {
            Some(comment) => seq![app.name, comment],
            None => seq![app.name],
        },
        keywords: app.keywords,
    }
}

/// How an action is shown: its name, ` - `, and the name of its application.
pub open spec fn spec_action_label(action: ActionPartView) -> Seq<char> {
    action.name + seq![' ', '-', ' '] + action.application_name
}

impl ApplicationPart {
    /// The words by which the application is found.
    pub fn search_data(&self) -> (r: SearchIdxData)
        ensures
            r@ == spec_search_terms(self@),
    {
        let mut terms: Vec<String> = Vec::new();
        terms.push(self.name.clone());
        if let Some(comment) = &self.comment {
            terms.push(comment.clone());
            assert(terms.deep_view() =~= seq![self.name@, comment@]);
        } else {
            assert(terms.deep_view() =~= seq![self.name@]);
        }
        SearchIdxData { terms, keywords: copies_of(&self.keywords) }
    }

    /// How the application is shown: by its name.
    pub fn label(&self) -> (r: String)
        ensures
            r@ == self@.name,
    {
        self.name.clone()
    }
}

impl SearchIdxItem for ApplicationPart {
    /// The words by which the application is found: its name and, where it
    /// has one, its comment as terms, and its keywords.
    fn search_terms(&self) -> (r: SearchIdxData)
        ensures
            r@ == spec_search_terms(self@),
    {
        self.search_data()
    }
}

impl ActionPart {
    /// The part that an action of an application gives.
    ///
    /// Fails with `InvalidCommandLine`, which carries the action's command,
    /// exactly when that holds no program.
    pub fn from_desktop_action(desktop_action: DesktopAction, application: &ApplicationPart) -> (r:
        Result<ActionPart, Error>)
        ensures
            match r {
                Ok(part) => spec_action_part(
                    desktop_action@,
                    application@.name,
                    application@.try_exec,
                ) == Ok::<ActionPartView, ErrorView>(part@),
                Err(e) => spec_action_part(
                    desktop_action@,
                    application@.name,
                    application@.try_exec,
                ) == Err::<ActionPartView, ErrorView>(e@),
            },
    {
        match Exec::parse(desktop_action.command.as_str()) {
            Ok(template) => Ok(
                ActionPart {
                    name: desktop_action.name,
                    icon: desktop_action.icon,
                    template,
                    application_name: application.name.clone(),
                    try_exec: copy_of(&application.try_exec),
                },
            ),
            Err(e) => Err(e),
        }
    }

    /// How the action is shown: its name, ` - `, and the name of its
    /// application.
    pub fn label(&self) -> (r: String)
        ensures
            r@ == spec_action_label(self@),
    {
        let mut label = self.name.clone();
        push_char(&mut label, ' ');
        push_char(&mut label, '-');
        push_char(&mut label, ' ');
        assert(label@ =~= self.name@ + seq![' ', '-', ' ']);
        let name = chars_of(self.application_name.as_str());
        let ghost head = label@;
        let mut i: usize = 0;
        while i < name.len()
            invariant
                i <= name.len(),
                label@ == head + name@.take(i as int),
            decreases name.len() - i,
        {
            push_char(&mut label, name[i]);
            assert(name@.take(i + 1) == name@.take(i as int).push(name@[i as int]));
            i += 1;
        }
        assert(name@.take(name.len() as int) == name@);
        label
    }

    /// The words by which the action is found: its name as the one term.
    pub fn search_data(&self) -> (r: SearchIdxData)
        ensures
            r@ == (SearchIdxDataView { terms: seq![self@.name], keywords: Seq::empty() }),
    {
        let mut terms: Vec<String> = Vec::new();
        terms.push(self.name.clone());
        assert(terms.deep_view() =~= seq![self.name@]);
        let keywords: Vec<String> = Vec::new();
        assert(keywords.deep_view() =~= Seq::<Seq<char>>::empty());
        SearchIdxData { terms, keywords }
    }
}

impl SearchIdxItem for ActionPart {
    /// The words by which the action is found: its name as the one term.
    fn search_terms(&self) -> (r: SearchIdxData)
        ensures
            r@ == (SearchIdxDataView { terms: seq![self@.name], keywords: Seq::empty() }),
    {
        self.search_data()
    }
}

impl Application {
    /// The application that a desktop file describes, with its actions.
    ///
    /// Fails with `InvalidCommandLine` where the command of the application
    /// is missing, blank or without a program, or where the command of one of
    /// its actions holds no program; the error carries that command.
    pub fn try_from(desktop_file: DesktopFile) -> (r: Result<Application, Error>)
        ensures
            match r {
                Ok(app) => spec_application(desktop_file@) == Ok::<ApplicationView, ErrorView>(
                    app@,
                ),
                Err(e) => spec_application(desktop_file@) == Err::<ApplicationView, ErrorView>(
                    e@,
                ),
            },
    {
        let entry = desktop_file.desktop_entry;
        let command = match entry.command {
            Some(command) => command,
            None => String::new(),
        };
        if trimmed(&chars_of(command.as_str())).len() == 0 {
            return Err(Error::InvalidCommandLine(command));
        }
        let template = match Exec::parse(command.as_str()) {
            Ok(template) => template,
            Err(e) => {
                return Err(e);
            },
        };
        let app_part = ApplicationPart {
            name: entry.name,
            icon: entry.icon,
            comment: entry.comment,
            keywords: entry.keywords,
            template,
            field_code: FieldCode::extract_field_code(command.as_str()),
            try_exec: entry.try_exec,
            path: entry.path,
        };
        let actions = desktop_file.actions;
        let ghost all = actions.deep_view();
        let ghost name = app_part@.name;
        let ghost try_exec = app_part@.try_exec;
        let mut action_parts: Vec<ActionPart> = Vec::new();
        let mut i: usize = 0;
        assert(all.take(0) =~= Seq::<DesktopActionView>::empty());
        assert(action_parts.deep_view() =~= Seq::<ActionPartView>::empty());
        assert(spec_application(desktop_file@) == with_parts(
            app_part@,
            spec_action_parts(all, name, try_exec),
        ));
        while i < actions.len()
            invariant
                i <= actions.len(),
                all == actions.deep_view(),
                spec_application(desktop_file@) == with_parts(
                    app_part@,
                    spec_action_parts(all, name, try_exec),
                ),
                name == app_part@.name,
                try_exec == app_part@.try_exec,
                spec_action_parts(all.take(i as int), name, try_exec) == Ok::<
                    Seq<ActionPartView>,
                    ErrorView,
                >(action_parts.deep_view()),
            decreases actions.len() - i,
        {
            assert(all.take(i + 1).drop_last() =~= all.take(i as int));
            assert(all.take(i + 1).last() == actions@[i as int]@);
            let action = DesktopAction {
                name: actions[i].name.clone(),
                command: actions[i].command.clone(),
                icon: copy_of(&actions[i].icon),
            };
            assert(action@ == actions@[i as int]@);
            match ActionPart::from_desktop_action(action, &app_part) {
                Ok(part) => {
                    let ghost before = action_parts.deep_view();
                    action_parts.push(part);
                    assert(action_parts.deep_view() =~= before.push(part@));
                },
                Err(e) => {
                    proof {
                        lemma_action_error_stays(all, name, try_exec, i + 1);
                    }
                    return Err(e);
                },
            }
            i += 1;
        }
        assert(all.take(actions.len() as int) =~= all);
        Ok(Application { app_part, action_parts })
    }

    /// Begins the search for the program whose presence shows that the
    /// application is installed, with the search path `env_path`. An
    /// application that names no such program can be run as it is.
    pub fn can_exec(&self, env_path: Option<&str>) -> (r: (ExecSearch, SearchStep))
        ensures
            r.0.tried == 0,
            match self@.app_part.try_exec {
                None => r.1@ == SearchStepView::Done(true),
                Some(program) => r.0.candidates.deep_view() == spec_candidates(
                    program,
                    match env_path {
                        Some(paths) => Some(paths@),
                        None => None,
                    },
                ) && r.1@ == spec_next_step(r.0.candidates.deep_view(), 0),
            },
    {
        match &self.app_part.try_exec {
            Some(program) => ExecSearch::start(Some(program.as_str()), env_path),
            None => ExecSearch::start(None, env_path),
        }
    }
}

/// Once an action keeps the parts from being built, later actions change
/// nothing.
proof fn lemma_action_error_stays(
    actions: Seq<DesktopActionView>,
    name: Seq<char>,
    try_exec: Option<Seq<char>>,
    k: int,
)
    requires
        0 <= k <= actions.len(),
        spec_action_parts(actions.take(k), name, try_exec) is Err,
    ensures
        spec_action_parts(actions, name, try_exec) == spec_action_parts(
            actions.take(k),
            name,
            try_exec,
        ),
    decreases actions.len() - k,
{
    if k < actions.len() {
        assert(actions.take(k + 1).drop_last() =~= actions.take(k));
        lemma_action_error_stays(actions, name, try_exec, k + 1);
    } else {
        assert(actions.take(k) =~= actions);
    }
}

} // verus!
