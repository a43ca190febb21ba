//! The state machine of the interactive browser: three tabs of lists with
//! a wrapping selection, the per-project stage fetch, the keys and the
//! sizes of the panes.

use vstd::prelude::*;
use vstd::arithmetic::div_mod::{lemma_add_mod_noop, lemma_mod_bound, lemma_mod_self_0, lemma_small_mod};
use crate::changelog::Commit;
use crate::config::{Account, ProjectConfig, RegistryEntry};
use crate::pipeline::StageRevision;
use crate::recipe::Recipe;
use crate::text::{
    chars_of, contains_chars, contains_seq, lines, lines_from, lower_seq, next_line, push_char,
    push_str_chars, short, str_eq, take_chars, to_lower,
};

verus! {

/// The tabs of the browser.
#[derive(Clone, Copy, Debug, PartialEq, Eq, Structural)]
pub enum Tab {
    Projects,
    Recipes,
    Accounts,
}

/// The tab after `t`, wrapping around.
pub open spec fn next_tab_spec(t: Tab) -> Tab {
    match t {
        Tab::Projects => Tab::Recipes,
        Tab::Recipes => Tab::Accounts,
        Tab::Accounts => Tab::Projects,
    }
}

/// The tab before `t`, wrapping around.
pub open spec fn prev_tab_spec(t: Tab) -> Tab {
    match t {
        Tab::Projects => Tab::Accounts,
        Tab::Recipes => Tab::Projects,
        Tab::Accounts => Tab::Recipes,
    }
}

/// The position of a tab in the tab bar.
pub open spec fn tab_index(t: Tab) -> usize {
    match t {
        Tab::Projects => 0,
        Tab::Recipes => 1,
        Tab::Accounts => 2,
    }
}

impl Tab {
    /// The labels of the tab bar, in order.
    pub fn titles() -> (r: [&'static str; 3])
        ensures
            r@[0]@ == "Projects"@,
            r@[1]@ == "Recipes"@,
            r@[2]@ == "Accounts"@,
    {
        ["Projects", "Recipes", "Accounts"]
    }

    /// The position of the tab in the tab bar.
    pub fn index(self) -> (r: usize)
        ensures
            r == tab_index(self),
    {
        match self {
            Tab::Projects => 0,
            Tab::Recipes => 1,
            Tab::Accounts => 2,
        }
    }
}

/// Going forward then back returns to the same tab, and so does going back
/// then forward; three steps forward come back around.
pub proof fn law_tab_cycle(t: Tab)
    ensures
        prev_tab_spec(next_tab_spec(t)) == t,
        next_tab_spec(prev_tab_spec(t)) == t,
        next_tab_spec(next_tab_spec(next_tab_spec(t))) == t,
        tab_index(next_tab_spec(t)) == (tab_index(t) + 1) % 3,
{
}

/// Where the stage fetch of a project is. A finished fetch holds both
/// stages' revisions and the commits between them (or why they could not
/// be listed).
#[derive(Clone, Debug)]
pub enum StageFetchState {
    Idle,
    Loading,
    Ready {
        from: StageRevision,
        to: StageRevision,
        commits: Vec<Commit>,
        commits_error: Option<String>,
    },
    Failed(String),
}

/// The outcome of a stage fetch, for the project it was started for.
#[derive(Debug)]
pub struct StageFetchResult {
    pub project_name: String,
    pub state: StageFetchState,
}

/// A registered project in the browser: its entry, its configuration (or
/// why it could not be read), its stage fetch and the scroll offset of its
/// changelog pane.
#[derive(Debug)]
pub struct ProjectView {
    pub entry: RegistryEntry,
    pub config: Option<ProjectConfig>,
    pub config_error: Option<String>,
    pub stage_state: StageFetchState,
    pub changelog_scroll: u16,
}

/// The configuration of a project, or the error to show: `PATH not found`
/// when the file does not exist (`loaded` is `None`), else the outcome of
/// reading it.
pub fn load_project_config(path: &str, loaded: Option<Result<ProjectConfig, String>>) -> (r: (
    Option<ProjectConfig>,
    Option<String>,
))
    ensures
        match loaded {
            None => r.0 is None && (r.1 matches Some(e) && e@ == path@ + " not found"@),
            Some(Ok(c)) => r.0 == Some(c) && r.1 is None,
            Some(Err(e)) => r.0 is None && r.1 == Some(e),
        },
{
    match loaded {
        None => {
            let mut e = String::new();
            push_str_chars(&mut e, path);
            push_str_chars(&mut e, " not found");
            (None, Some(e))
        },
        Some(Ok(c)) => (Some(c), None),
        Some(Err(e)) => (None, Some(e)),
    }
}

impl ProjectView {
    /// The view of a registered project, given what reading its
    /// configuration file gave (`None` when the file does not exist).
    pub fn new(entry: RegistryEntry, loaded: Option<Result<ProjectConfig, String>>) -> (r: ProjectView)
        ensures
            r.entry == entry,
            r.stage_state is Idle,
            r.changelog_scroll == 0,
            match loaded {
                None => r.config is None && (r.config_error matches Some(e) && e@
                    == crate::paths::path_join(entry.path@, entry.config@) + " not found"@),
                Some(Ok(c)) => r.config == Some(c) && r.config_error is None,
                Some(Err(e)) => r.config is None && r.config_error == Some(e),
            },
    {
        let project_path = entry.project_config_path();
        let (config, config_error) = load_project_config(project_path.as_str(), loaded);
        ProjectView { entry, config, config_error, stage_state: StageFetchState::Idle, changelog_scroll: 0 }
    }
}

/// A selection that is empty or points into a list of `len` items.
pub open spec fn sel_ok(sel: Option<usize>, len: nat) -> bool {
    match sel {
        Some(i) => i < len,
        None => true,
    }
}

/// The selection after moving down in a list of `len` items: the next item,
/// wrapping to the first; the first when nothing was selected; unchanged in
/// an empty list.
pub open spec fn move_down_spec(sel: Option<usize>, len: nat) -> Option<usize> {
    if len == 0 {
        sel
    } else {
        match sel {
            Some(i) => Some(((i + 1) % (len as int)) as usize),
            None => Some(0),
        }
    }
}

/// The selection after moving up: the previous item, wrapping to the last;
/// the first when nothing was selected; unchanged in an empty list.
pub open spec fn move_up_spec(sel: Option<usize>, len: nat) -> Option<usize> {
    if len == 0 {
        sel
    } else {
        match sel {
            Some(i) => Some(
                if i == 0 {
                    (len - 1) as usize
                } else {
                    (i - 1) as usize
                },
            ),
            None => Some(0),
        }
    }
}

/// Moving up undoes moving down, and moving down undoes moving up, for a
/// selected item of a list.
pub proof fn law_move_up_undoes_move_down(i: usize, len: nat)
    requires
        i < len <= usize::MAX,
    ensures
        move_up_spec(move_down_spec(Some(i), len), len) == Some(i),
        move_down_spec(move_up_spec(Some(i), len), len) == Some(i),
{
    if i + 1 < len {
        lemma_small_mod((i + 1) as nat, len);
        assert(move_down_spec(Some(i), len) == Some((i + 1) as usize));
    } else {
        lemma_mod_self_0(len as int);
        assert(move_down_spec(Some(i), len) == Some(0usize));
    }
    if i > 0 {
        lemma_small_mod(i as nat, len);
        assert(move_up_spec(Some(i), len) == Some((i - 1) as usize));
        assert(move_down_spec(Some((i - 1) as usize), len) == Some(i));
    } else {
        lemma_mod_self_0(len as int);
        assert(move_up_spec(Some(i), len) == Some((len - 1) as usize));
        assert(move_down_spec(Some((len - 1) as usize), len) == Some(0usize));
    }
}

/// Moving keeps a selection in range, and selects something in a list that
/// has items.
pub proof fn law_moves_stay_in_range(sel: Option<usize>, len: nat)
    requires
        sel_ok(sel, len),
    ensures
        sel_ok(move_down_spec(sel, len), len),
        sel_ok(move_up_spec(sel, len), len),
        len > 0 ==> move_down_spec(sel, len) is Some && move_up_spec(sel, len) is Some,
{
    if len > 0 {
        if let Some(i) = sel {
            if i + 1 < len {
                lemma_small_mod((i + 1) as nat, len);
            } else {
                lemma_mod_self_0(len as int);
            }
        }
    }
}

fn move_down_sel(sel: Option<usize>, len: usize) -> (r: Option<usize>)
    ensures
        r == move_down_spec(sel, len as nat),
{
    if len == 0 {
        return sel;
    }
    match sel {
        Some(i) => {
            let k = i % len;
            let n = if k + 1 == len {
                0
            } else {
                k + 1
            };
            proof {
                lemma_mod_bound(i as int, len as int);
                lemma_add_mod_noop(i as int, 1, len as int);
                if len == 1 {
                    lemma_mod_self_0(1);
                } else {
                    lemma_small_mod(1, len as nat);
                }
                if k + 1 == len {
                    lemma_mod_self_0(len as int);
                } else {
                    lemma_small_mod((k + 1) as nat, len as nat);
                }
            }
            Some(n)
        },
        None => Some(0),
    }
}

fn move_up_sel(sel: Option<usize>, len: usize) -> (r: Option<usize>)
    ensures
        r == move_up_spec(sel, len as nat),
{
    if len == 0 {
        return sel;
    }
    match sel {
        Some(i) => Some(
            if i == 0 {
                len - 1
            } else {
                i - 1
            },
        ),
        None => Some(0),
    }
}

/// What the browser shows: the tab, the three lists with their
/// selections, and a status message.
pub struct AppState {
    pub tab: Tab,
    pub projects: Vec<ProjectView>,
    pub projects_list: Option<usize>,
    pub recipes: Vec<Recipe>,
    pub recipes_list: Option<usize>,
    pub accounts: Vec<Account>,
    pub accounts_list: Option<usize>,
    /// One-line status message shown in the help bar after actions
    /// (recipe create, account switch). Cleared on the next action.
    pub status: Option<String>,
}

/// What a fetch of a project's stages needs.
pub struct FetchRequest {
    pub project_name: String,
    pub pipeline: String,
    pub region: String,
    pub from_stage: String,
    pub to_stage: String,
}

/// The first project named `name`.
pub open spec fn project_named(ps: Seq<ProjectView>, name: Seq<char>) -> Option<int> {
    if exists|i: int| 0 <= i < ps.len() && #[trigger] ps[i].entry.name@ == name {
        Some(
            choose|i: int|
                0 <= i < ps.len() && #[trigger] ps[i].entry.name@ == name && forall|j: int|
                    0 <= j < i ==> ps[j].entry.name@ != name,
        )
    } else {
        None
    }
}

/// The offset after scrolling by `delta` lines, kept within `u16`.
pub open spec fn scroll_spec(offset: u16, delta: i32) -> u16 {
    if offset + delta < 0 {
        0
    } else if offset + delta > u16::MAX {
        u16::MAX
    } else {
        (offset + delta) as u16
    }
}

/// `b` is `a` but for its stage state.
pub open spec fn same_but_stage(a: ProjectView, b: ProjectView) -> bool {
    &&& b.entry == a.entry
    &&& b.config == a.config
    &&& b.config_error == a.config_error
    &&& b.changelog_scroll == a.changelog_scroll
}

/// `b` is `a` but for its changelog scroll offset.
pub open spec fn same_but_scroll(a: ProjectView, b: ProjectView) -> bool {
    &&& b.entry == a.entry
    &&& b.config == a.config
    &&& b.config_error == a.config_error
    &&& b.stage_state == a.stage_state
}

impl AppState {
    /// Every selection is empty or in range.
    pub open spec fn wf(&self) -> bool {
        &&& sel_ok(self.projects_list, self.projects@.len())
        &&& sel_ok(self.recipes_list, self.recipes@.len())
        &&& sel_ok(self.accounts_list, self.accounts@.len())
    }

    /// The selection and length of the list of the current tab.
    pub open spec fn active(&self) -> (Option<usize>, nat) {
        match self.tab {
            Tab::Projects => (self.projects_list, self.projects@.len()),
            Tab::Recipes => (self.recipes_list, self.recipes@.len()),
            Tab::Accounts => (self.accounts_list, self.accounts@.len()),
        }
    }

    /// Everything but the selections is as in `o`.
    pub open spec fn same_but_selection(&self, o: &AppState) -> bool {
        &&& self.tab == o.tab
        &&& self.projects@ == o.projects@
        &&& self.recipes@ == o.recipes@
        &&& self.accounts@ == o.accounts@
        &&& self.status == o.status
    }

    /// The browser on the Projects tab, each non-empty list with its first
    /// item selected.
    pub fn new(projects: Vec<ProjectView>, recipes: Vec<Recipe>, accounts: Vec<Account>) -> (r: AppState)
        ensures
            r.wf(),
            r.tab == Tab::Projects,
            r.projects@ == projects@,
            r.recipes@ == recipes@,
            r.accounts@ == accounts@,
            r.projects_list == (if projects@.len() > 0 { Some(0usize) } else { None }),
            r.recipes_list == (if recipes@.len() > 0 { Some(0usize) } else { None }),
            r.accounts_list == (if accounts@.len() > 0 { Some(0usize) } else { None }),
            r.status is None,
    {
        let projects_list = if projects.len() > 0 {
            Some(0)
        } else {
            None
        };
        let recipes_list = if recipes.len() > 0 {
            Some(0)
        } else {
            None
        };
        let accounts_list = if accounts.len() > 0 {
            Some(0)
        } else {
            None
        };
        AppState {
            tab: Tab::Projects,
            projects,
            projects_list,
            recipes,
            recipes_list,
            accounts,
            accounts_list,
            status: None,
        }
    }

    /// The account of the active session: the value of `AWS_ACCOUNT_NAME`,
    /// when it is set and not empty.
    pub fn current_account(&self, aws_account_name: Option<&str>) -> (r: Option<String>)
        ensures
            match aws_account_name {
                Some(v) => if v@.len() > 0 {
                    r matches Some(s) && s@ == v@
                } else {
                    r is None
                },
                None => r is None,
            },
    {
        match aws_account_name {
            Some(v) => {
                if chars_of(v).len() > 0 {
                    let mut s = String::new();
                    push_str_chars(&mut s, v);
                    Some(s)
                } else {
                    None
                }
            },
            None => None,
        }
    }

    /// The name of the selected account.
    pub fn selected_account_name(&self) -> (r: Option<&str>)
        ensures
            match self.accounts_list {
                Some(i) => if i < self.accounts@.len() {
                    r matches Some(n) && n@ == self.accounts@[i as int].name@
                } else {
                    r is None
                },
                None => r is None,
            },
    {
        match self.accounts_list {
            Some(i) => if i < self.accounts.len() {
                Some(self.accounts[i].name.as_str())
            } else {
                None
            },
            None => None,
        }
    }

    /// Switches to the next tab.
    pub fn next_tab(&mut self)
        ensures
            final(self).tab == next_tab_spec(old(self).tab),
            final(self).projects@ == old(self).projects@,
            final(self).recipes@ == old(self).recipes@,
            final(self).accounts@ == old(self).accounts@,
            final(self).projects_list == old(self).projects_list,
            final(self).recipes_list == old(self).recipes_list,
            final(self).accounts_list == old(self).accounts_list,
            final(self).status == old(self).status,
    {
        self.tab = match self.tab {
            Tab::Projects => Tab::Recipes,
            Tab::Recipes => Tab::Accounts,
            Tab::Accounts => Tab::Projects,
        };
    }

    /// Switches to the previous tab.
    pub fn prev_tab(&mut self)
        ensures
            final(self).tab == prev_tab_spec(old(self).tab),
            final(self).projects@ == old(self).projects@,
            final(self).recipes@ == old(self).recipes@,
            final(self).accounts@ == old(self).accounts@,
            final(self).projects_list == old(self).projects_list,
            final(self).recipes_list == old(self).recipes_list,
            final(self).accounts_list == old(self).accounts_list,
            final(self).status == old(self).status,
    {
        self.tab = match self.tab {
            Tab::Projects => Tab::Accounts,
            Tab::Recipes => Tab::Projects,
            Tab::Accounts => Tab::Recipes,
        };
    }

    /// Moves the selection of the current tab's list down (wrapping).
    pub fn move_down(&mut self)
        ensures
            old(self).wf() ==> final(self).wf(),
            final(self).same_but_selection(&*old(self)),
            final(self).active().0 == move_down_spec(old(self).active().0, old(self).active().1),
            final(self).tab != Tab::Projects ==> final(self).projects_list == old(
                self,
            ).projects_list,
            final(self).tab != Tab::Recipes ==> final(self).recipes_list == old(self).recipes_list,
            final(self).tab != Tab::Accounts ==> final(self).accounts_list == old(
                self,
            ).accounts_list,
    {
        proof {
            if sel_ok(self.active().0, self.active().1) {
                law_moves_stay_in_range(self.active().0, self.active().1);
            }
        }
        match self.tab {
            Tab::Projects => {
                self.projects_list = move_down_sel(self.projects_list, self.projects.len());
            },
            Tab::Recipes => {
                self.recipes_list = move_down_sel(self.recipes_list, self.recipes.len());
            },
            Tab::Accounts => {
                self.accounts_list = move_down_sel(self.accounts_list, self.accounts.len());
            },
        }
    }

    /// Moves the selection of the current tab's list up (wrapping).
    pub fn move_up(&mut self)
        ensures
            old(self).wf() ==> final(self).wf(),
            final(self).same_but_selection(&*old(self)),
            final(self).active().0 == move_up_spec(old(self).active().0, old(self).active().1),
            final(self).tab != Tab::Projects ==> final(self).projects_list == old(
                self,
            ).projects_list,
            final(self).tab != Tab::Recipes ==> final(self).recipes_list == old(self).recipes_list,
            final(self).tab != Tab::Accounts ==> final(self).accounts_list == old(
                self,
            ).accounts_list,
    {
        proof {
            if sel_ok(self.active().0, self.active().1) {
                law_moves_stay_in_range(self.active().0, self.active().1);
            }
        }
        match self.tab {
            Tab::Projects => {
                self.projects_list = move_up_sel(self.projects_list, self.projects.len());
            },
            Tab::Recipes => {
                self.recipes_list = move_up_sel(self.recipes_list, self.recipes.len());
            },
            Tab::Accounts => {
                self.accounts_list = move_up_sel(self.accounts_list, self.accounts.len());
            },
        }
    }

    /// The selected project.
    pub fn selected_project(&self) -> (r: Option<&ProjectView>)
        ensures
            match self.projects_list {
                Some(i) => if i < self.projects@.len() {
                    r == Some(&self.projects@[i as int])
                } else {
                    r is None
                },
                None => r is None,
            },
    {
        match self.projects_list {
            Some(i) => if i < self.projects.len() {
                Some(&self.projects[i])
            } else {
                None
            },
            None => None,
        }
    }

    /// The selected recipe.
    pub fn selected_recipe(&self) -> (r: Option<&Recipe>)
        ensures
            match self.recipes_list {
                Some(i) => if i < self.recipes@.len() {
                    r == Some(&self.recipes@[i as int])
                } else {
                    r is None
                },
                None => r is None,
            },
    {
        match self.recipes_list {
            Some(i) => if i < self.recipes.len() {
                Some(&self.recipes[i])
            } else {
                None
            },
            None => None,
        }
    }

    fn set_stage_state(&mut self, idx: usize, state: StageFetchState)
        requires
            idx < old(self).projects@.len(),
        ensures
            final(self).projects@.len() == old(self).projects@.len(),
            final(self).projects@[idx as int].stage_state == state,
            final(self).projects@[idx as int].entry == old(self).projects@[idx as int].entry,
            final(self).projects@[idx as int].config == old(self).projects@[idx as int].config,
            final(self).projects@[idx as int].config_error == old(
                self,
            ).projects@[idx as int].config_error,
            final(self).projects@[idx as int].changelog_scroll == old(
                self,
            ).projects@[idx as int].changelog_scroll,
            forall|j: int|
                0 <= j < old(self).projects@.len() && j != idx ==> final(self).projects@[j] == old(
                    self,
                ).projects@[j],
            final(self).tab == old(self).tab,
            final(self).recipes@ == old(self).recipes@,
            final(self).accounts@ == old(self).accounts@,
            final(self).projects_list == old(self).projects_list,
            final(self).recipes_list == old(self).recipes_list,
            final(self).accounts_list == old(self).accounts_list,
            final(self).status == old(self).status,
    {
        let mut pv = self.projects.remove(idx);
        pv.stage_state = state;
        self.projects.insert(idx, pv);
    }

    /// Starts a stage fetch for the selected project: marks it loading and
    /// gives what the fetch needs (the region defaults to `eu-central-1`).
    /// Without a configuration the project is marked failed and nothing is
    /// fetched; without a selection nothing happens.
    pub fn start_stage_fetch(&mut self) -> (r: Option<FetchRequest>)
        requires
            sel_ok(old(self).projects_list, old(self).projects@.len()),
        ensures
            old(self).wf() ==> final(self).wf(),
            final(self).projects@.len() == old(self).projects@.len(),
            match old(self).projects_list {
                None => r is None && final(self).projects@ == old(self).projects@,
                Some(i) => match old(self).projects@[i as int].config {
                    None => r is None && (final(self).projects@[i as int].stage_state matches StageFetchState::Failed(m) && m@ == "project config missing"@),
                    Some(c) => (final(self).projects@[i as int].stage_state is Loading) && (r matches Some(q) && q.project_name@ == old(self).projects@[i as int].entry.name@ && q.pipeline@ == c.pipeline@ && q.region@ == (match c.region {
                        Some(g) => g@,
                        None => "eu-central-1"@,
                    }) && q.from_stage@ == c.from_stage@ && q.to_stage@ == c.to_stage@),
                },
            },
            old(self).projects_list matches Some(i) ==> same_but_stage(
                old(self).projects@[i as int],
                final(self).projects@[i as int],
            ),
            forall|j: int|
                0 <= j < old(self).projects@.len() && old(self).projects_list != Some(j as usize)
                    ==> final(self).projects@[j] == old(self).projects@[j],
            final(self).recipes@ == old(self).recipes@,
            final(self).accounts@ == old(self).accounts@,
            final(self).tab == old(self).tab,
            final(self).projects_list == old(self).projects_list,
            final(self).recipes_list == old(self).recipes_list,
            final(self).accounts_list == old(self).accounts_list,
            final(self).status == old(self).status,
    {
        let idx = match self.projects_list {
            Some(i) => i,
            None => return None,
        };
        let request = match &self.projects[idx].config {
            None => None,
            Some(cfg) => {
                let region = match &cfg.region {
                    Some(g) => g.clone(),
                    None => {
                        let mut d = String::new();
                        push_str_chars(&mut d, "eu-central-1");
                        d
                    },
                };
                Some(
                    FetchRequest {
                        project_name: self.projects[idx].entry.name.clone(),
                        pipeline: cfg.pipeline.clone(),
                        region,
                        from_stage: cfg.from_stage.clone(),
                        to_stage: cfg.to_stage.clone(),
                    },
                )
            },
        };
        match request {
            None => {
                let mut m = String::new();
                push_str_chars(&mut m, "project config missing");
                self.set_stage_state(idx, StageFetchState::Failed(m));
                None
            },
            Some(q) => {
                self.set_stage_state(idx, StageFetchState::Loading);
                Some(q)
            },
        }
    }

    /// Records the outcome of a stage fetch on the first project of that
    /// name; nothing changes when there is none.
    pub fn apply_stage_fetch(&mut self, result: StageFetchResult)
        ensures
            old(self).wf() ==> final(self).wf(),
            final(self).projects@.len() == old(self).projects@.len(),
            match project_named(old(self).projects@, result.project_name@) {
                Some(i) => final(self).projects@[i].stage_state == result.state && same_but_stage(old(self).projects@[i], final(self).projects@[i]) && forall|j: int|
                    0 <= j < old(self).projects@.len() && j != i ==> final(self).projects@[j]
                        == old(self).projects@[j],
                None => final(self).projects@ == old(self).projects@,
            },
            final(self).recipes@ == old(self).recipes@,
            final(self).accounts@ == old(self).accounts@,
            final(self).tab == old(self).tab,
            final(self).projects_list == old(self).projects_list,
            final(self).recipes_list == old(self).recipes_list,
            final(self).accounts_list == old(self).accounts_list,
            final(self).status == old(self).status,
    {
        let mut i: usize = 0;
        while i < self.projects.len()
            invariant
                *self == *old(self),
                i <= self.projects@.len(),
                forall|j: int| 0 <= j < i ==> self.projects@[j].entry.name@ != result.project_name@,
            decreases self.projects@.len() - i,
        {
            if str_eq(self.projects[i].entry.name.as_str(), result.project_name.as_str()) {
                proof {
                    let ps = self.projects@;
                    assert(ps[i as int].entry.name@ == result.project_name@);
                    let c = choose|c: int|
                        0 <= c < ps.len() && #[trigger] ps[c].entry.name@ == result.project_name@
                            && forall|j: int| 0 <= j < c ==> ps[j].entry.name@ != result.project_name@;
                    if c > i {
                        assert(ps[i as int].entry.name@ != result.project_name@);
                    }
                    assert(c == i);
                }
                self.set_stage_state(i, result.state);
                return;
            }
            i = i + 1;
        }
    }

    /// Scrolls the changelog pane of the selected project by `delta` lines.
    pub fn scroll_changelog(&mut self, delta: i32)
        ensures
            old(self).wf() ==> final(self).wf(),
            final(self).projects@.len() == old(self).projects@.len(),
            match old(self).projects_list {
                Some(i) => if i >= old(self).projects@.len() {
                    final(self).projects@ == old(self).projects@
                } else { final(self).projects@[i as int].changelog_scroll == scroll_spec(
                    old(self).projects@[i as int].changelog_scroll,
                    delta,
                ) && same_but_scroll(old(self).projects@[i as int], final(self).projects@[i as int])
                    && forall|j: int| 0 <= j < old(self).projects@.len() && j != i ==> final(self).projects@[j] == old(self).projects@[j] },
                None => final(self).projects@ == old(self).projects@,
            },
            final(self).recipes@ == old(self).recipes@,
            final(self).accounts@ == old(self).accounts@,
            final(self).tab == old(self).tab,
            final(self).projects_list == old(self).projects_list,
            final(self).recipes_list == old(self).recipes_list,
            final(self).accounts_list == old(self).accounts_list,
            final(self).status == old(self).status,
    {
        let idx = match self.projects_list {
            Some(i) => i,
            None => return,
        };
        if idx >= self.projects.len() {
            return;
        }
        let mut pv = self.projects.remove(idx);
        let cur = pv.changelog_scroll as i64;
        let next = cur + delta as i64;
        pv.changelog_scroll = if next < 0 {
            0
        } else if next > 65535 {
            65535
        } else {
            next as u16
        };
        self.projects.insert(idx, pv);
    }
}


/// The keys the browser reacts to.
#[derive(Clone, Copy, Debug, PartialEq, Eq, Structural)]
pub enum Key {
    Tab,
    BackTab,
    Char(char),
    Down,
    Up,
    PageDown,
    PageUp,
    Enter,
    Esc,
    Other,
}

/// What the event loop does after a key.
#[derive(Clone, Copy, Debug, PartialEq, Eq, Structural)]
pub enum Action {
    Nothing,
    StageFetch,
    AssumeSelected,
    NewRecipe,
    ClearStatus,
    ScrollChangelog(i32),
}

/// Whether the key ends the browser: `q`, Esc, or Ctrl-C.
pub open spec fn is_quit_spec(key: Key, ctrl: bool) -> bool {
    key == Key::Char('q') || key == Key::Esc || (ctrl && key == Key::Char('c'))
}

/// Whether the key (with Ctrl held or not) ends the browser.
pub fn is_quit(key: Key, ctrl: bool) -> (r: bool)
    ensures
        r == is_quit_spec(key, ctrl),
{
    match key {
        Key::Char('q') | Key::Esc => true,
        Key::Char('c') => ctrl,
        _ => false,
    }
}

/// The action of a key on tab `tab`, given whether a status is shown.
pub open spec fn key_action(tab: Tab, has_status: bool, key: Key) -> Action {
    match key {
        Key::Char('c') => if has_status {
            Action::ClearStatus
        } else {
            Action::Nothing
        },
        Key::PageDown => if tab == Tab::Projects {
            Action::ScrollChangelog(5i32)
        } else {
            Action::Nothing
        },
        Key::PageUp => if tab == Tab::Projects {
            Action::ScrollChangelog(-5i32)
        } else {
            Action::Nothing
        },
        Key::Char('r') => if tab == Tab::Projects {
            Action::StageFetch
        } else {
            Action::Nothing
        },
        Key::Char('n') => if tab == Tab::Recipes {
            Action::NewRecipe
        } else {
            Action::Nothing
        },
        Key::Char('l') | Key::Enter => if tab == Tab::Accounts {
            Action::AssumeSelected
        } else {
            Action::Nothing
        },
        _ => Action::Nothing,
    }
}

/// The tab after a key: Tab and Shift-Tab cycle, `1`–`3` jump.
pub open spec fn key_tab(tab: Tab, key: Key) -> Tab {
    match key {
        Key::Tab => next_tab_spec(tab),
        Key::BackTab => prev_tab_spec(tab),
        Key::Char('1') => Tab::Projects,
        Key::Char('2') => Tab::Recipes,
        Key::Char('3') => Tab::Accounts,
        _ => tab,
    }
}

/// Whether the key moves the selection down (`Down`, `j`) or up (`Up`,
/// `k`).
pub open spec fn moves_down(key: Key) -> bool {
    key == Key::Down || key == Key::Char('j')
}

pub open spec fn moves_up(key: Key) -> bool {
    key == Key::Up || key == Key::Char('k')
}

/// Applies a key to the browser: switches tabs, moves the selection, and
/// gives the action the event loop performs for it.
pub fn handle_key(state: &mut AppState, key: Key) -> (r: Action)
    ensures
        old(state).wf() ==> final(state).wf(),
        final(state).projects@ == old(state).projects@,
        final(state).recipes@ == old(state).recipes@,
        final(state).accounts@ == old(state).accounts@,
        final(state).status == old(state).status,
        final(state).tab == key_tab(old(state).tab, key),
        r == key_action(old(state).tab, old(state).status is Some, key),
        moves_down(key) ==> final(state).active().0 == move_down_spec(
            old(state).active().0,
            old(state).active().1,
        ),
        moves_up(key) ==> final(state).active().0 == move_up_spec(
            old(state).active().0,
            old(state).active().1,
        ),
        moves_down(key) || moves_up(key) ==> old(state).tab != Tab::Projects
            ==> final(state).projects_list == old(state).projects_list,
        moves_down(key) || moves_up(key) ==> old(state).tab != Tab::Recipes
            ==> final(state).recipes_list == old(state).recipes_list,
        moves_down(key) || moves_up(key) ==> old(state).tab != Tab::Accounts
            ==> final(state).accounts_list == old(state).accounts_list,
        !moves_down(key) && !moves_up(key) ==> final(state).projects_list
            == old(state).projects_list && final(state).recipes_list == old(state).recipes_list
            && final(state).accounts_list == old(state).accounts_list,
{
    match key {
        Key::Tab => {
            state.next_tab();
            Action::Nothing
        },
        Key::BackTab => {
            state.prev_tab();
            Action::Nothing
        },
        Key::Char('1') => {
            state.tab = Tab::Projects;
            Action::Nothing
        },
        Key::Char('2') => {
            state.tab = Tab::Recipes;
            Action::Nothing
        },
        Key::Char('3') => {
            state.tab = Tab::Accounts;
            Action::Nothing
        },
        Key::Down | Key::Char('j') => {
            state.move_down();
            Action::Nothing
        },
        Key::Up | Key::Char('k') => {
            state.move_up();
            Action::Nothing
        },
        Key::Char('c') => if state.status.is_some() {
            Action::ClearStatus
        } else {
            Action::Nothing
        },
        Key::PageDown => if state.tab == Tab::Projects {
            Action::ScrollChangelog(5i32)
        } else {
            Action::Nothing
        },
        Key::PageUp => if state.tab == Tab::Projects {
            Action::ScrollChangelog(-5i32)
        } else {
            Action::Nothing
        },
        Key::Char('r') => if state.tab == Tab::Projects {
            Action::StageFetch
        } else {
            Action::Nothing
        },
        Key::Char('n') => if state.tab == Tab::Recipes {
            Action::NewRecipe
        } else {
            Action::Nothing
        },
        Key::Char('l') | Key::Enter => if state.tab == Tab::Accounts {
            Action::AssumeSelected
        } else {
            Action::Nothing
        },
        _ => Action::Nothing,
    }
}

/// `a + b` in `u16`, stopping at the maximum.
pub open spec fn sat_add_u16(a: int, b: int) -> int {
    if a + b > u16::MAX {
        u16::MAX as int
    } else {
        a + b
    }
}

/// Rows a line of `len` characters takes in a pane `inner` columns wide
/// (an empty line takes one), as a `u16` (truncated).
pub open spec fn wrapped_rows(len: int, inner: int) -> int {
    let l = if len < 1 {
        1
    } else {
        len
    };
    ((l + inner - 1) / inner) % 65536
}

/// The rows of the lines of a status message, summed with saturation.
pub open spec fn status_rows(ls: Seq<Seq<char>>, inner: int) -> int
    decreases ls.len(),
{
    if ls.len() == 0 {
        0
    } else {
        sat_add_u16(status_rows(ls.drop_last(), inner), wrapped_rows(ls.last().len() as int, inner))
    }
}

/// The height of the status area for a pane `width` columns wide: one row
/// without a status; otherwise the wrapped rows of the message plus three
/// (borders and the hint row), between 3 and 10.
pub open spec fn status_height_spec(status: Option<Seq<char>>, width: u16) -> u16 {
    match status {
        None => 1,
        Some(s) => {
            let inner = if width >= 3 {
                width - 2
            } else {
                1
            };
            let rows = sat_add_u16(status_rows(lines(s), inner), 3);
            if rows < 3 {
                3
            } else if rows > 10 {
                10
            } else {
                rows as u16
            }
        },
    }
}

proof fn lemma_status_rows_bound(ls: Seq<Seq<char>>, inner: int)
    requires
        inner >= 1,
    ensures
        0 <= status_rows(ls, inner) <= u16::MAX,
    decreases ls.len(),
{
    if ls.len() > 0 {
        lemma_status_rows_bound(ls.drop_last(), inner);
    }
}

/// The height of the status area (see [`status_height_spec`]).
pub fn status_height(status: Option<&str>, width: u16) -> (r: u16)
    ensures
        r == status_height_spec(
            match status {
                Some(s) => Some(s@),
                None => None,
            },
            width,
        ),
{
    let s = match status {
        None => return 1,
        Some(s) => s,
    };
    let inner: usize = if width >= 3 {
        (width - 2) as usize
    } else {
        1
    };
    let cs = chars_of(s);
    let mut rows: u16 = 0;
    let ghost mut done: Seq<Seq<char>> = seq![];
    let mut i: usize = 0;
    assert(lines(cs@) =~= done + lines_from(cs@, 0));
    while i < cs.len()
        invariant
            i <= cs@.len(),
            cs@ == s@,
            1 <= inner <= 65535,
            lines(cs@) == done + lines_from(cs@, i as int),
            rows == status_rows(done, inner as int),
        decreases cs@.len() - i,
    {
        let (line, next) = next_line(&cs, i);
        let len = line.len();
        let l = if len < 1 {
            1
        } else {
            len
        };
        let wrapped = (l - 1) / inner + 1;
        let w16 = (#[verifier::truncate] (wrapped as u16));
        proof {
            assert((l - 1) / (inner as int) + 1 == (l + inner - 1) / (inner as int)) by (nonlinear_arith)
                requires
                    l >= 1,
                    inner >= 1,
            ;
            assert(w16 == wrapped % 65536) by (bit_vector)
                requires
                    w16 == (wrapped as u16),
            ;
            assert(done + lines_from(cs@, i as int) =~= done.push(line@) + lines_from(
                cs@,
                next as int,
            ));
            assert(done.push(line@).drop_last() =~= done);
        }
        rows = rows.saturating_add(w16);
        proof {
            done = done.push(line@);
        }
        i = next;
    }
    proof {
        assert(lines_from(cs@, i as int) == Seq::<Seq<char>>::empty());
        assert(done + Seq::<Seq<char>>::empty() =~= done);
    }
    let total = rows.saturating_add(3);
    if total < 3 {
        3
    } else if total > 10 {
        10
    } else {
        total
    }
}

/// The height of a project's detail pane: six rows for name, repo and path;
/// with a configuration three for pipeline, stages and region, one for
/// ticket prefixes when there are some, and four for the stage state; with
/// an error instead one; plus two for the borders, between 8 and 22.
pub open spec fn meta_height_spec(pv: ProjectView) -> u16 {
    let lines: int = 6 + match pv.config {
        Some(c) => 3 + (if c.jira.prefixes@.len() > 0 {
            1int
        } else {
            0int
        }) + 4,
        None => if pv.config_error is Some {
            1int
        } else {
            0int
        },
    };
    let h = lines + 2;
    if h < 8 {
        8
    } else if h > 22 {
        22
    } else {
        h as u16
    }
}

/// The height of a project's detail pane (see [`meta_height_spec`]).
pub fn meta_height(pv: &ProjectView) -> (r: u16)
    ensures
        r == meta_height_spec(*pv),
{
    let mut lines: u16 = 6;
    match &pv.config {
        Some(cfg) => {
            lines = lines + 3;
            if cfg.jira.prefixes.len() > 0 {
                lines = lines + 1;
            }
            lines = lines + 4;
        },
        None => {
            if pv.config_error.is_some() {
                lines = lines + 1;
            }
        },
    }
    let h = lines.saturating_add(2);
    if h < 8 {
        8
    } else if h > 22 {
        22
    } else {
        h
    }
}

/// Whether a status message reports a failure: it mentions `fail`,
/// `error` or `exit`, in any case.
pub open spec fn status_is_error_spec(status: Seq<char>) -> bool {
    let s = lower_seq(status);
    contains_seq(s, "fail"@) || contains_seq(s, "error"@) || contains_seq(s, "exit"@)
}

/// Whether the status message reports a failure (shown in red).
pub fn status_is_error(status: &str) -> (r: bool)
    ensures
        r == status_is_error_spec(status@),
{
    let cs = chars_of(status);
    let mut low: Vec<char> = Vec::new();
    let mut i: usize = 0;
    while i < cs.len()
        invariant
            i <= cs@.len(),
            cs@ == status@,
            low@ == lower_seq(cs@.take(i as int)),
        decreases cs@.len() - i,
    {
        low.push(to_lower(cs[i]));
        assert(lower_seq(cs@.take(i + 1)) =~= lower_seq(cs@.take(i as int)).push(
            crate::text::lower(cs@[i as int]),
        ));
        i = i + 1;
    }
    assert(cs@.take(cs@.len() as int) =~= cs@);
    contains_chars(&low, &chars_of("fail")) || contains_chars(&low, &chars_of("error"))
        || contains_chars(&low, &chars_of("exit"))
}

} // verus!
