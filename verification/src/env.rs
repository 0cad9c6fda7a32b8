//! What there is to launch: applications and their actions, side by side.

use crate::application::{
    spec_search_terms, ActionPart, ActionPartView, Application, ApplicationPart,
    ApplicationPartView, ApplicationView,
};
use crate::exec::{ExecView, FieldCode};
use crate::keyword::{find_keyword, spec_search};
use crate::search::{SearchIdxData, SearchIdxDataView, SearchIdxItem};
use vstd::prelude::*;

verus! {

/// Something that can be launched: an application or one of its actions.
#[derive(Debug, Clone, PartialEq, Eq)]
pub enum Lunchable {
    Application(ApplicationPart),
    Action(ActionPart),
}

/// The mathematical value of a `Lunchable`.
pub ghost enum LunchableView {
    Application(ApplicationPartView),
    Action(ActionPartView),
}

impl View for Lunchable {
    type V = LunchableView;

    open spec fn view(&self) -> LunchableView {
        match self {
            Lunchable::Application(app) => LunchableView::Application(app@),
            Lunchable::Action(action) => LunchableView::Action(action@),
        }
    }
}

impl DeepView for Lunchable {
    type V = LunchableView;

    open spec fn deep_view(&self) -> LunchableView {
        self@
    }
}

impl LunchableView {
    /// The program whose presence shows that the application is installed.
    pub open spec fn try_exec(self) -> Option<Seq<char>> {
        match self {
            LunchableView::Application(app) => app.try_exec,
            LunchableView::Action(action) => action.try_exec,
        }
    }

    /// The command template.
    pub open spec fn template(self) -> ExecView {
        match self {
            LunchableView::Application(app) => app.template,
            LunchableView::Action(action) => action.template,
        }
    }

    /// What the template's variable argument stands for. An action takes no
    /// files or URLs.
    pub open spec fn field_code(self) -> Option<FieldCode> {
        match self {
            LunchableView::Application(app) => app.field_code,
            LunchableView::Action(_) => None,
        }
    }

    /// The directory to run the command in. An action runs where the
    /// launcher runs.
    pub open spec fn work_dir(self) -> Option<Seq<char>> {
        match self {
            LunchableView::Application(app) => app.path,
            LunchableView::Action(_) => None,
        }
    }

    /// Whether the program is looked for once more just before the launch:
    /// for an application it is.
    pub open spec fn rechecks(self) -> bool {
        self is Application
    }

    /// The words by which it is found.
    pub open spec fn search_terms(self) -> SearchIdxDataView {
        match self {
            LunchableView::Application(app) => spec_search_terms(app),
            LunchableView::Action(action) => SearchIdxDataView {
                terms: seq![action.name],
                keywords: Seq::empty(),
            },
        }
    }
}

impl Lunchable {
    /// The words by which it is found.
    pub fn search_data(&self) -> (r: SearchIdxData)
        ensures
            r@ == self@.search_terms(),
    {
        match self {
            Lunchable::Application(app) => app.search_data(),
            Lunchable::Action(action) => action.search_data(),
        }
    }

    /// How it is shown.
    pub fn label(&self) -> (r: String)
        ensures
            r@ == match self@ {
                LunchableView::Application(app) => app.name,
                LunchableView::Action(action) => crate::application::spec_action_label(action),
            },
    {
        match self {
            Lunchable::Application(app) => app.label(),
            Lunchable::Action(action) => action.label(),
        }
    }
}

impl SearchIdxItem for Lunchable {
    /// The words by which it is found: those of the application, or of the
    /// action, that it is.
    fn search_terms(&self) -> (r: SearchIdxData)
        ensures
            r@ == self@.search_terms(),
    {
        self.search_data()
    }
}

/// All that can be launched.
#[derive(Debug, Clone, PartialEq, Eq)]
pub struct LunchEnv {
    pub lunchables: Vec<Lunchable>,
}

/// What an application gives to launch: itself, then its actions in order.
pub open spec fn spec_to_lunchables(app: ApplicationView) -> Seq<LunchableView> {
    seq![LunchableView::Application(app.app_part)] + Seq::new(
        app.action_parts.len(),
        |i: int| LunchableView::Action(app.action_parts[i]),
    )
}

/// What the applications give to launch: of each one that can be run, itself
/// and its actions; the applications in their order.
pub open spec fn spec_init_lunch(apps: Seq<ApplicationView>, runnable: Seq<bool>) -> Seq<
    LunchableView,
>
    decreases apps.len(),
{
    if apps.len() == 0 {
        Seq::empty()
    } else {
        let front = spec_init_lunch(apps.drop_last(), runnable);
        if apps.len() <= runnable.len() && runnable[apps.len() - 1] {
            front + spec_to_lunchables(apps.last())
        } else {
            front
        }
    }
}

/// The words by which each of the lunchables is found.
pub open spec fn words_of(lunchables: Seq<LunchableView>) -> Seq<SearchIdxDataView> {
    Seq::new(lunchables.len(), |i: int| lunchables[i].search_terms())
}

impl Application {
    /// What the application gives to launch: itself, then its actions.
    pub fn to_lunchables(self) -> (r: Vec<Lunchable>)
        ensures
            r.deep_view() == spec_to_lunchables(self@),
    {
        let mut lunchables: Vec<Lunchable> = Vec::new();
        lunchables.push(Lunchable::Application(self.app_part));
        let mut actions = self.action_parts;
        let ghost all = actions.deep_view();
        let ghost n = actions.len();
        while actions.len() > 0
            invariant
                actions.len() <= n == all.len(),
                lunchables.len() == 1 + n - actions.len(),
                lunchables@[0]@ == LunchableView::Application(self@.app_part),
                forall|j: int|
                    0 <= j < actions.len() ==> actions@[j]@ == all[j + n - actions.len()],
                forall|j: int|
                    0 <= j < n - actions.len() ==> (#[trigger] lunchables@[j + 1])@
                        == LunchableView::Action(all[j]),
            decreases actions.len(),
        {
            let action = actions.remove(0);
            lunchables.push(Lunchable::Action(action));
        }
        assert(lunchables.deep_view() =~= spec_to_lunchables(self@)) by {
            assert forall|j: int| 1 <= j < lunchables.len() implies lunchables.deep_view()[j]
                == LunchableView::Action(all[j - 1]) by {
                assert(lunchables@[(j - 1) + 1]@ == LunchableView::Action(all[j - 1]));
            }
        }
        lunchables
    }
}

/// All that the applications give to launch, given of each whether its
/// program can be run: `runnable` answers for the applications in order, and
/// an application without an answer counts as one that cannot be run.
pub fn init_lunch(applications: Vec<Application>, runnable: &Vec<bool>) -> (r: LunchEnv)
    ensures
        r.lunchables.deep_view() == spec_init_lunch(applications.deep_view(), runnable@),
{
    let mut apps = applications;
    let ghost all = apps.deep_view();
    let ghost n = apps.len();
    let mut lunchables: Vec<Lunchable> = Vec::new();
    let mut i: usize = 0;
    assert(all.take(0) =~= Seq::<ApplicationView>::empty());
    assert(lunchables.deep_view() =~= Seq::<LunchableView>::empty());
    while apps.len() > 0
        invariant
            i + apps.len() == n == all.len(),
            forall|j: int| 0 <= j < apps.len() ==> apps@[j]@ == all[j + i],
            lunchables.deep_view() == spec_init_lunch(all.take(i as int), runnable@),
        decreases apps.len(),
    {
        assert(all.take(i + 1).drop_last() =~= all.take(i as int));
        assert(all.take(i + 1).last() == all[i as int]);
        let app = apps.remove(0);
        assert(app@ == all[i as int]);
        if i < runnable.len() && runnable[i] {
            let mut more = app.to_lunchables();
            let ghost before = lunchables.deep_view();
            let ghost added = more.deep_view();
            lunchables.append(&mut more);
            assert(lunchables.deep_view() =~= before + added);
        }
        i += 1;
    }
    assert(all.take(n as int) =~= all);
    LunchEnv { lunchables }
}

impl LunchEnv {
    /// All that the applications give to launch; see `init_lunch`.
    pub fn init(applications: Vec<Application>, runnable: &Vec<bool>) -> (r: LunchEnv)
        ensures
            r.lunchables.deep_view() == spec_init_lunch(applications.deep_view(), runnable@),
    {
        init_lunch(applications, runnable)
    }

    /// What `keyword` finds: the first lunchable that has it as a keyword;
    /// where none has, and the keyword is longer than three bytes, the first
    /// that has a keyword which begins with it.
    pub fn keyword(self, keyword: &str) -> (r: Option<Lunchable>)
        ensures
            match r {
                Some(found) => 0 <= spec_search(words_of(self.lunchables.deep_view()), keyword@)
                    < self.lunchables.len() && found@ == self.lunchables@[spec_search(
                    words_of(self.lunchables.deep_view()),
                    keyword@,
                )]@,
                None => spec_search(words_of(self.lunchables.deep_view()), keyword@) == -1,
            },
    {
        let mut words: Vec<SearchIdxData> = Vec::new();
        let mut i: usize = 0;
        while i < self.lunchables.len()
            invariant
                i <= self.lunchables.len(),
                words.len() == i,
                forall|j: int|
                    0 <= j < i ==> (#[trigger] words@[j])@
                        == self.lunchables@[j]@.search_terms(),
            decreases self.lunchables.len() - i,
        {
            words.push(self.lunchables[i].search_data());
            i += 1;
        }
        assert(words.deep_view() =~= words_of(self.lunchables.deep_view()));
        let mut lunchables = self.lunchables;
        match find_keyword(&words, keyword) {
            Some(n) => Some(lunchables.swap_remove(n)),
            None => None,
        }
    }
}

} // verus!
