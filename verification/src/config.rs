//! Configuration in three layers: the global file (defaults, credentials,
//! accounts), one registry entry per project, and the project's own file,
//! merged with the precedence command line > project file > global
//! defaults.

use vstd::prelude::*;
use crate::error::AppError;
use crate::paths::{component_count, components, join, path_join, path_starts_with, starts_with};
use crate::sorting::{sort_by_key, stable_sorted_of, Keyed};
use crate::text::{chars_of, find_char, push_str_chars, str_eq};

verus! {

/// The region used when no layer names one.
pub const DEFAULT_REGION: &'static str = "eu-central-1";

/// The name of a project's configuration file in its repository.
pub const PROJECT_CONFIG_FILENAME: &'static str = ".aws-utils.toml";

/// The tool's directory under the OS configuration directory.
pub const APP_DIR: &'static str = "aws-utils";

fn clone_opt(o: &Option<String>) -> (r: Option<String>)
    ensures
        r == *o,
{
    match o {
        Some(s) => Some(s.clone()),
        None => None,
    }
}

fn owned(s: &str) -> (r: String)
    ensures
        r@ == s@,
{
    let mut r = String::new();
    push_str_chars(&mut r, s);
    r
}

/// An account the role script can switch into.
#[derive(Clone, Debug)]
pub struct Account {
    pub name: String,
    pub description: String,
}

/// Defaults shared by all projects.
#[derive(Clone, Debug)]
pub struct Defaults {
    pub region: Option<String>,
}

impl Default for Defaults {
    fn default() -> (r: Defaults)
        ensures
            r.region is None,
    {
        Defaults { region: None }
    }
}

/// Credentials of the code host.
#[derive(Clone, Debug)]
pub struct GithubGlobal {
    pub token: Option<String>,
}

impl Default for GithubGlobal {
    fn default() -> (r: GithubGlobal)
        ensures
            r.token is None,
    {
        GithubGlobal { token: None }
    }
}

/// Credentials of the issue tracker shared across projects.
#[derive(Clone, Debug)]
pub struct JiraGlobal {
    pub base_url: Option<String>,
    pub email: Option<String>,
    pub api_token: Option<String>,
}

impl Default for JiraGlobal {
    fn default() -> (r: JiraGlobal)
        ensures
            r.base_url is None,
            r.email is None,
            r.api_token is None,
    {
        JiraGlobal { base_url: None, email: None, api_token: None }
    }
}

/// The variables to put into the environment: each credential that is set
/// here and whose variable is not set yet, in the order base URL, email,
/// token.
pub open spec fn env_to_set_spec(
    g: JiraGlobal,
    base_url_set: bool,
    email_set: bool,
    token_set: bool,
) -> Seq<(Seq<char>, Seq<char>)> {
    (match g.base_url {
        Some(v) => if !base_url_set {
            seq![("JIRA_BASE_URL"@, v@)]
        } else {
            seq![]
        },
        None => seq![],
    }) + (match g.email {
        Some(v) => if !email_set {
            seq![("JIRA_EMAIL"@, v@)]
        } else {
            seq![]
        },
        None => seq![],
    }) + (match g.api_token {
        Some(v) => if !token_set {
            seq![("JIRA_API_TOKEN"@, v@)]
        } else {
            seq![]
        },
        None => seq![],
    })
}

pub open spec fn pair_views(v: Seq<(String, String)>) -> Seq<(Seq<char>, Seq<char>)> {
    v.map_values(|e: (String, String)| (e.0@, e.1@))
}

impl JiraGlobal {
    /// The credentials to copy into the environment, given which of
    /// `JIRA_BASE_URL`, `JIRA_EMAIL` and `JIRA_API_TOKEN` are already set:
    /// variables already set win.
    pub fn env_to_set(&self, base_url_set: bool, email_set: bool, token_set: bool) -> (r: Vec<
        (String, String),
    >)
        ensures
            pair_views(r@) == env_to_set_spec(*self, base_url_set, email_set, token_set),
    {
        let mut r: Vec<(String, String)> = Vec::new();
        let ghost s0 = pair_views(r@);
        if let Some(v) = &self.base_url {
            if !base_url_set {
                r.push((owned("JIRA_BASE_URL"), v.clone()));
            }
        }
        let ghost s1 = pair_views(r@);
        if let Some(v) = &self.email {
            if !email_set {
                r.push((owned("JIRA_EMAIL"), v.clone()));
            }
        }
        let ghost s2 = pair_views(r@);
        if let Some(v) = &self.api_token {
            if !token_set {
                r.push((owned("JIRA_API_TOKEN"), v.clone()));
            }
        }
        assert(pair_views(r@) =~= env_to_set_spec(*self, base_url_set, email_set, token_set));
        r
    }
}

/// The global configuration file.
#[derive(Clone, Debug)]
pub struct GlobalConfig {
    pub defaults: Defaults,
    pub github: GithubGlobal,
    pub jira: JiraGlobal,
    /// The accounts the role script can switch into.
    pub accounts: Vec<Account>,
}

impl Default for GlobalConfig {
    fn default() -> (r: GlobalConfig)
        ensures
            r.defaults.region is None,
            r.github.token is None,
            r.jira.base_url is None && r.jira.email is None && r.jira.api_token is None,
            r.accounts@.len() == 0,
    {
        GlobalConfig {
            defaults: Defaults::default(),
            github: GithubGlobal::default(),
            jira: JiraGlobal::default(),
            accounts: Vec::new(),
        }
    }
}

/// The accounts as (name, description) pairs.
pub open spec fn account_views(s: Seq<Account>) -> Seq<(Seq<char>, Seq<char>)> {
    s.map_values(|a: Account| (a.name@, a.description@))
}

/// Whether an account is named `n`.
pub open spec fn has_account(s: Seq<(Seq<char>, Seq<char>)>, n: Seq<char>) -> bool {
    exists|i: int| 0 <= i < s.len() && (#[trigger] s[i]).0 == n
}

/// The accounts not named `n`, in order.
pub open spec fn without_account(s: Seq<(Seq<char>, Seq<char>)>, n: Seq<char>) -> Seq<
    (Seq<char>, Seq<char>),
>
    decreases s.len(),
{
    if s.len() == 0 {
        seq![]
    } else if s.last().0 == n {
        without_account(s.drop_last(), n)
    } else {
        without_account(s.drop_last(), n).push(s.last())
    }
}

proof fn lemma_without_absent(s: Seq<(Seq<char>, Seq<char>)>, n: Seq<char>)
    requires
        !has_account(s, n),
    ensures
        without_account(s, n) == s,
    decreases s.len(),
{
    if s.len() > 0 {
        assert(!has_account(s.drop_last(), n)) by {
            if has_account(s.drop_last(), n) {
                let i = choose|i: int| 0 <= i < s.drop_last().len() && (#[trigger] s.drop_last()[i]).0 == n;
                assert(s[i].0 == n);
            }
        }
        lemma_without_absent(s.drop_last(), n);
        assert(s[s.len() - 1].0 != n);
        assert(s.drop_last().push(s.last()) =~= s);
    }
}

proof fn lemma_without_has_none(s: Seq<(Seq<char>, Seq<char>)>, n: Seq<char>)
    ensures
        !has_account(without_account(s, n), n),
        without_account(s, n).len() <= s.len(),
        without_account(s, n).len() == s.len() <==> !has_account(s, n),
    decreases s.len(),
{
    if s.len() > 0 {
        lemma_without_has_none(s.drop_last(), n);
        let w = without_account(s.drop_last(), n);
        if s.last().0 != n {
            assert forall|i: int| 0 <= i < w.push(s.last()).len() implies (#[trigger] w.push(
                s.last(),
            )[i]).0 != n by {
                if i < w.len() {
                    assert(w.push(s.last())[i] == w[i]);
                }
            }
        }
        if has_account(s, n) {
            let i = choose|i: int| 0 <= i < s.len() && (#[trigger] s[i]).0 == n;
            if i < s.len() - 1 {
                assert(s.drop_last()[i].0 == n);
            }
        }
        if has_account(s.drop_last(), n) {
            let i = choose|i: int| 0 <= i < s.drop_last().len() && (#[trigger] s.drop_last()[i]).0 == n;
            assert(s[i].0 == n);
        }
    }
}

impl GlobalConfig {
    /// Adds the account `name` with an optional description (empty when
    /// none); refused when an account of that name exists.
    pub fn add_account(&mut self, name: String, description: Option<String>) -> (r: Result<
        (),
        String,
    >)
        ensures
            match r {
                Ok(()) => !has_account(account_views(old(self).accounts@), name@) && account_views(
                    final(self).accounts@,
                ) == account_views(old(self).accounts@).push(
                    (
                        name@,
                        match description {
                            Some(d) => d@,
                            None => Seq::<char>::empty(),
                        },
                    ),
                ),
                Err(e) => has_account(account_views(old(self).accounts@), name@) && e@ == "account '"@
                    + name@ + "' is already configured"@ && final(self).accounts@ == old(
                    self,
                ).accounts@,
            },
            final(self).defaults == old(self).defaults,
            final(self).github == old(self).github,
            final(self).jira == old(self).jira,
    {
        let ghost views = account_views(self.accounts@);
        let mut i: usize = 0;
        while i < self.accounts.len()
            invariant
                i <= self.accounts@.len(),
                views == account_views(self.accounts@),
                forall|k: int| 0 <= k < i ==> (#[trigger] views[k]).0 != name@,
            decreases self.accounts@.len() - i,
        {
            if str_eq(self.accounts[i].name.as_str(), name.as_str()) {
                assert(views[i as int].0 == name@);
                let mut e = String::new();
                push_str_chars(&mut e, "account '");
                push_str_chars(&mut e, name.as_str());
                push_str_chars(&mut e, "' is already configured");
                return Err(e);
            }
            i = i + 1;
        }
        let d = match description {
            Some(d) => d,
            None => String::new(),
        };
        self.accounts.push(Account { name, description: d });
        assert(account_views(self.accounts@) =~= views.push(
            (self.accounts@.last().name@, self.accounts@.last().description@),
        ));
        Ok(())
    }

    /// Removes every account named `name`; refused when there is none.
    pub fn remove_account(&mut self, name: &str) -> (r: Result<(), String>)
        ensures
            match r {
                Ok(()) => has_account(account_views(old(self).accounts@), name@) && account_views(
                    final(self).accounts@,
                ) == without_account(account_views(old(self).accounts@), name@),
                Err(e) => !has_account(account_views(old(self).accounts@), name@) && e@
                    == "account '"@ + name@ + "' not found"@ && final(self).accounts@ == old(
                    self,
                ).accounts@,
            },
            final(self).defaults == old(self).defaults,
            final(self).github == old(self).github,
            final(self).jira == old(self).jira,
    {
        let ghost views = account_views(self.accounts@);
        let mut found = false;
        let mut j: usize = 0;
        while j < self.accounts.len()
            invariant
                j <= self.accounts@.len(),
                views == account_views(self.accounts@),
                found == has_account(views.take(j as int), name@),
            decreases self.accounts@.len() - j,
        {
            let same = str_eq(self.accounts[j].name.as_str(), name);
            proof {
                let t0 = views.take(j as int);
                let t1 = views.take(j + 1);
                if has_account(t1, name@) && !same {
                    let w = choose|w: int| 0 <= w < t1.len() && (#[trigger] t1[w]).0 == name@;
                    assert(t0[w] == t1[w]);
                }
                if has_account(t0, name@) {
                    let w = choose|w: int| 0 <= w < t0.len() && (#[trigger] t0[w]).0 == name@;
                    assert(t1[w] == t0[w]);
                }
                if same {
                    assert(t1[j as int] == views[j as int]);
                }
            }
            if same {
                found = true;
            }
            j = j + 1;
        }
        assert(views.take(self.accounts@.len() as int) =~= views);
        if !found {
            let mut e = String::new();
            push_str_chars(&mut e, "account '");
            push_str_chars(&mut e, name);
            push_str_chars(&mut e, "' not found");
            return Err(e);
        }
        let mut kept: Vec<Account> = Vec::new();
        let mut rest: Vec<Account> = Vec::new();
        std::mem::swap(&mut rest, &mut self.accounts);
        let ghost orig = rest@;
        let ghost mut i: int = 0;
        assert(orig.skip(0) =~= orig);
        while rest.len() > 0
            invariant
                0 <= i <= orig.len(),
                views == account_views(orig),
                rest@ == orig.skip(i),
                account_views(kept@) == without_account(views.take(i), name@),
            decreases rest@.len(),
        {
            let a = rest.remove(0);
            proof {
                assert(views.take(i + 1).drop_last() =~= views.take(i));
                assert(views.take(i + 1).last() == (a.name@, a.description@));
                assert(rest@ =~= orig.skip(i + 1));
                i = i + 1;
            }
            if !str_eq(a.name.as_str(), name) {
                let ghost before = kept@;
                kept.push(a);
                assert(account_views(kept@) =~= account_views(before).push(
                    (kept@.last().name@, kept@.last().description@),
                ));
            }
        }
        assert(views.take(i) =~= views);
        self.accounts = kept;
        Ok(())
    }
}

/// Adding an account and then removing it by name gives back the
/// accounts there were.
pub proof fn law_remove_undoes_add(
    accounts: Seq<(Seq<char>, Seq<char>)>,
    name: Seq<char>,
    description: Seq<char>,
)
    requires
        !has_account(accounts, name),
    ensures
        has_account(accounts.push((name, description)), name),
        without_account(accounts.push((name, description)), name) == accounts,
{
    let s = accounts.push((name, description));
    assert(s[accounts.len() as int].0 == name);
    assert(s.drop_last() =~= accounts);
    lemma_without_absent(accounts, name);
}

/// After a removal no account has the name, and an account whose name is
/// not there is not affected.
pub proof fn law_remove_clears_name(accounts: Seq<(Seq<char>, Seq<char>)>, name: Seq<char>)
    ensures
        !has_account(without_account(accounts, name), name),
        !has_account(accounts, name) ==> without_account(accounts, name) == accounts,
{
    lemma_without_has_none(accounts, name);
    if !has_account(accounts, name) {
        lemma_without_absent(accounts, name);
    }
}


/// Hints for the issue tracker.
#[derive(Clone, Debug)]
pub struct JiraConfig {
    /// Project key prefixes to match in commit messages (e.g. `LEARN`).
    pub prefixes: Vec<String>,
}

impl Default for JiraConfig {
    fn default() -> (r: JiraConfig)
        ensures
            r.prefixes@.len() == 0,
    {
        JiraConfig { prefixes: Vec::new() }
    }
}

/// A project's own configuration file, checked into its repository.
#[derive(Clone, Debug)]
pub struct ProjectConfig {
    pub pipeline: String,
    pub region: Option<String>,
    pub from_stage: String,
    pub to_stage: String,
    pub jira: JiraConfig,
}

impl ProjectConfig {
    /// The file written for a freshly registered project: the pipeline
    /// named after it, the default region, stages `DeployPreProd` and
    /// `DeployProd`, no ticket prefixes.
    pub fn template(pipeline: &str) -> (r: ProjectConfig)
        ensures
            r.pipeline@ == pipeline@,
            r.region matches Some(g) && g@ == DEFAULT_REGION@,
            r.from_stage@ == "DeployPreProd"@,
            r.to_stage@ == "DeployProd"@,
            r.jira.prefixes@.len() == 0,
    {
        ProjectConfig {
            pipeline: owned(pipeline),
            region: Some(owned(DEFAULT_REGION)),
            from_stage: owned("DeployPreProd"),
            to_stage: owned("DeployProd"),
            jira: JiraConfig::default(),
        }
    }
}

/// `dirs::config_dir()`, as a string; `None` also when the directory is not
/// valid UTF-8 (the library holds paths as strings, and a lossy
/// conversion would name another directory). It depends on the
/// environment and the platform; nothing is claimed of the result.
#[verifier::external_body]
pub(crate) fn os_config_dir() -> (r: Option<String>) {
    dirs::config_dir().and_then(|p| p.into_os_string().into_string().ok())
}

/// The message when the OS configuration directory is unknown.
pub open spec fn no_config_dir_message() -> Seq<char> {
    "could not resolve OS config dir"@
}

/// The tool's configuration directory under the OS one.
pub open spec fn config_dir_spec(base: Seq<char>) -> Seq<char> {
    path_join(base, APP_DIR@)
}

/// The recipes live next to the project registry: under any OS
/// configuration directory `base`, both are the tool's configuration
/// directory with one more name, `recipes` and `projects`, so they are
/// distinct siblings.
pub proof fn law_recipes_beside_projects(base: Seq<char>)
    ensures
        path_join(config_dir_spec(base), "recipes"@) == config_dir_spec(base) + "/recipes"@,
        path_join(config_dir_spec(base), "projects"@) == config_dir_spec(base) + "/projects"@,
        path_join(config_dir_spec(base), "recipes"@) != path_join(
            config_dir_spec(base),
            "projects"@,
        ),
{
    reveal_strlit("aws-utils");
    reveal_strlit("recipes");
    reveal_strlit("projects");
    reveal_strlit("/recipes");
    reveal_strlit("/projects");
    let d = config_dir_spec(base);
    assert(APP_DIR@ == "aws-utils"@);
    assert(d.len() > 0 && d.last() == 's') by {
        if base.len() == 0 || base.last() == '/' {
            assert(d == base + APP_DIR@);
        } else {
            assert(d == base + seq!['/'] + APP_DIR@);
        }
    }
    assert(path_join(d, "recipes"@) =~= d + "/recipes"@);
    assert(path_join(d, "projects"@) =~= d + "/projects"@);
    let r = d + "/recipes"@;
    let p = d + "/projects"@;
    assert(r.len() != p.len());
}

/// The tool's configuration directory under the OS configuration directory
/// `base`.
pub fn config_dir_in(base: &str) -> (r: String)
    ensures
        r@ == config_dir_spec(base@),
{
    join(base, APP_DIR)
}

/// The global configuration file under `base`.
pub fn global_config_file_in(base: &str) -> (r: String)
    ensures
        r@ == path_join(config_dir_spec(base@), "config.toml"@),
{
    join(config_dir_in(base).as_str(), "config.toml")
}

/// The directory of the project registry under `base`.
pub fn projects_dir_in(base: &str) -> (r: String)
    ensures
        r@ == path_join(config_dir_spec(base@), "projects"@),
{
    join(config_dir_in(base).as_str(), "projects")
}

/// The directory of the recipes under `base`.
pub fn recipes_dir_in(base: &str) -> (r: String)
    ensures
        r@ == path_join(config_dir_spec(base@), "recipes"@),
{
    join(config_dir_in(base).as_str(), "recipes")
}

pub(crate) fn no_config_dir() -> (r: String)
    ensures
        r@ == no_config_dir_message(),
{
    owned("could not resolve OS config dir")
}

/// The tool's configuration directory, under the OS one.
pub fn config_dir() -> (r: Result<String, String>)
    ensures
        match r {
            Ok(p) => exists|base: Seq<char>| p@ == #[trigger] config_dir_spec(base),
            Err(e) => e@ == no_config_dir_message(),
        },
{
    match os_config_dir() {
        Some(base) => Ok(config_dir_in(base.as_str())),
        None => Err(no_config_dir()),
    }
}

/// The global configuration file.
pub fn global_config_file() -> (r: Result<String, String>)
    ensures
        match r {
            Ok(p) => exists|base: Seq<char>|
                p@ == path_join(#[trigger] config_dir_spec(base), "config.toml"@),
            Err(e) => e@ == no_config_dir_message(),
        },
{
    match os_config_dir() {
        Some(base) => Ok(global_config_file_in(base.as_str())),
        None => Err(no_config_dir()),
    }
}

/// The directory of the project registry.
pub fn projects_dir() -> (r: Result<String, String>)
    ensures
        match r {
            Ok(p) => exists|base: Seq<char>|
                p@ == path_join(#[trigger] config_dir_spec(base), "projects"@),
            Err(e) => e@ == no_config_dir_message(),
        },
{
    match os_config_dir() {
        Some(base) => Ok(projects_dir_in(base.as_str())),
        None => Err(no_config_dir()),
    }
}

/// The directory of the recipes.
pub fn recipes_dir() -> (r: Result<String, String>)
    ensures
        match r {
            Ok(p) => exists|base: Seq<char>|
                p@ == path_join(#[trigger] config_dir_spec(base), "recipes"@),
            Err(e) => e@ == no_config_dir_message(),
        },
{
    match os_config_dir() {
        Some(base) => Ok(recipes_dir_in(base.as_str())),
        None => Err(no_config_dir()),
    }
}

/// `{name}.toml` in `dir`.
pub fn toml_file_in(dir: &str, name: &str) -> (r: String)
    ensures
        r@ == path_join(dir@, name@ + ".toml"@),
{
    let mut file = owned(name);
    push_str_chars(&mut file, ".toml");
    join(dir, file.as_str())
}

/// Whether the file name has the extension `toml` (`Path::extension`: the
/// part after the last `.`, unless that `.` starts the name).
pub open spec fn has_toml_extension(name: Seq<char>) -> bool {
    exists|d: int|
        0 < d < name.len() && name[d] == '.' && #[trigger] name.skip(d + 1) == "toml"@ && forall|
            e: int,
        | d < e < name.len() ==> name[e] != '.'
}

/// Whether a directory entry named `name` is a TOML file.
pub fn is_toml_file(name: &str) -> (r: bool)
    ensures
        r == has_toml_extension(name@),
{
    let cs = chars_of(name);
    let n = cs.len();
    let mut d = n;
    while d > 0 && cs[d - 1] != '.'
        invariant
            d <= n == cs@.len(),
            forall|e: int| d <= e < n ==> cs@[e] != '.',
        decreases d,
    {
        d = d - 1;
    }
    if d <= 1 {
        proof {
            if has_toml_extension(name@) {
                let w = choose|w: int|
                    0 < w < name@.len() && name@[w] == '.' && #[trigger] name@.skip(w + 1)
                        == "toml"@ && forall|e: int| w < e < name@.len() ==> name@[e] != '.';
                if d == 1 {
                    assert(w == 0);
                }
            }
        }
        return false;
    }
    let dot = d - 1;
    let ext = chars_of("toml");
    let rest = crate::text::slice_chars(&cs, d, n);
    let r = crate::text::chars_eq(&rest, &ext);
    proof {
        assert(rest@ =~= name@.skip(dot + 1));
        if has_toml_extension(name@) {
            let w = choose|w: int|
                0 < w < name@.len() && name@[w] == '.' && #[trigger] name@.skip(w + 1) == "toml"@
                    && forall|e: int| w < e < name@.len() ==> name@[e] != '.';
            if w < dot {
                assert(name@[dot as int] != '.');
            }
            if w > dot {
                assert(cs@[w] != '.');
            }
        }
    }
    r
}

/// The registry entry of a project: where it lives, its repository and the
/// name of its configuration file.
#[derive(Clone, Debug)]
pub struct RegistryEntry {
    pub name: String,
    pub path: String,
    pub repo: String,
    pub config: String,
}

/// The configuration file name an entry gets when it names none.
pub fn default_config_filename() -> (r: String)
    ensures
        r@ == PROJECT_CONFIG_FILENAME@,
{
    owned(PROJECT_CONFIG_FILENAME)
}

impl RegistryEntry {
    /// The project's configuration file: `config` inside `path`.
    pub fn project_config_path(&self) -> (r: String)
        ensures
            r@ == path_join(self.path@, self.config@),
    {
        join(self.path.as_str(), self.config.as_str())
    }
}

impl Keyed for RegistryEntry {
    open spec fn key_of(&self) -> Seq<char> {
        self.name@
    }

    fn key(&self) -> (r: &str) {
        self.name.as_str()
    }
}

/// The registered projects.
pub struct ProjectRegistry;

/// Whether the entry's (canonical) path is `cwd` or one of its ancestors.
pub open spec fn entry_contains(cwd: Seq<char>, canonical: Seq<char>) -> bool {
    path_starts_with(cwd, canonical)
}

/// Among the first `n` entries whose canonical path contains `cwd`, the
/// one whose path has the most components (the last of them on a tie).
pub open spec fn closest_entry(
    cwd: Seq<char>,
    es: Seq<(RegistryEntry, String)>,
    n: int,
) -> Option<int>
    decreases n,
{
    if n <= 0 {
        None
    } else {
        let b = closest_entry(cwd, es, n - 1);
        if entry_contains(cwd, es[n - 1].1@) && (b is None || components(
            es[n - 1].0.path@,
        ).len() >= components(es[b->0].0.path@).len()) {
            Some(n - 1)
        } else {
            b
        }
    }
}

proof fn lemma_closest_bounds(cwd: Seq<char>, es: Seq<(RegistryEntry, String)>, n: int)
    ensures
        closest_entry(cwd, es, n) matches Some(b) ==> 0 <= b < n,
    decreases n,
{
    if n > 0 {
        lemma_closest_bounds(cwd, es, n - 1);
    }
}

impl ProjectRegistry {
    /// The registry file of project `name` in the registry directory.
    pub fn entry_path_in(projects_dir: &str, name: &str) -> (r: String)
        ensures
            r@ == path_join(projects_dir@, name@ + ".toml"@),
    {
        toml_file_in(projects_dir, name)
    }

    /// The registry file of project `name`.
    pub fn entry_path(name: &str) -> (r: Result<String, String>)
        ensures
            match r {
                Ok(p) => exists|base: Seq<char>|
                    p@ == path_join(
                        path_join(#[trigger] config_dir_spec(base), "projects"@),
                        name@ + ".toml"@,
                    ),
                Err(e) => e@ == no_config_dir_message(),
            },
    {
        match os_config_dir() {
            Some(base) => {
                let dir = projects_dir_in(base.as_str());
                Ok(Self::entry_path_in(dir.as_str(), name))
            },
            None => Err(no_config_dir()),
        }
    }

    /// The entries sorted by name (stable).
    pub fn sort_entries(entries: Vec<RegistryEntry>) -> (r: Vec<RegistryEntry>)
        ensures
            stable_sorted_of(r@, entries@),
    {
        sort_by_key(entries)
    }

    /// The entry of the project that `cwd` is in: the one whose path is
    /// the closest ancestor of `cwd`, given each entry with its canonical
    /// path; [`AppError::ProjectNotRegistered`] when there is none.
    pub fn find_for_cwd(cwd: &str, entries: Vec<(RegistryEntry, String)>) -> (r: Result<
        RegistryEntry,
        AppError,
    >)
        ensures
            match r {
                Ok(e) => closest_entry(cwd@, entries@, entries@.len() as int) matches Some(b) && e
                    == entries@[b].0,
                Err(err) => closest_entry(cwd@, entries@, entries@.len() as int) is None && (
                err matches AppError::ProjectNotRegistered(p) && p@ == cwd@),
            },
    {
        let mut best: Option<usize> = None;
        let mut best_count: usize = 0;
        let mut i: usize = 0;
        while i < entries.len()
            invariant
                i <= entries@.len(),
                (match best {
                    Some(b) => Some(b as int),
                    None => None,
                }) == closest_entry(cwd@, entries@, i as int),
                best matches Some(b) ==> b < i && best_count == components(
                    entries@[b as int].0.path@,
                ).len(),
            decreases entries@.len() - i,
        {
            let (e, canonical) = &entries[i];
            if starts_with(cwd, canonical.as_str()) {
                let count = component_count(e.path.as_str());
                let better = match best {
                    None => true,
                    Some(_) => count >= best_count,
                };
                if better {
                    best = Some(i);
                    best_count = count;
                }
            }
            i = i + 1;
        }
        match best {
            Some(b) => {
                let mut entries = entries;
                let (e, _canonical) = entries.remove(b);
                Ok(e)
            },
            None => Err(AppError::ProjectNotRegistered(owned(cwd))),
        }
    }
}

/// Values given on the command line; any that is set wins over the
/// configuration files.
#[derive(Clone, Debug)]
pub struct Overrides {
    pub project: Option<String>,
    pub region: Option<String>,
    pub from_stage: Option<String>,
    pub to_stage: Option<String>,
}

impl Default for Overrides {
    fn default() -> (r: Overrides)
        ensures
            r.project is None && r.region is None && r.from_stage is None && r.to_stage is None,
    {
        Overrides { project: None, region: None, from_stage: None, to_stage: None }
    }
}

/// The configuration every command works with, all layers merged.
#[derive(Clone, Debug)]
pub struct Resolved {
    pub entry: RegistryEntry,
    pub project_config_path: String,
    pub project: ProjectConfig,
    pub pipeline: String,
    pub region: String,
    pub from_stage: String,
    pub to_stage: String,
}

/// The first value that is set, in order of precedence.
pub open spec fn first_set(a: Option<String>, b: Option<String>, c: Option<String>, d: Seq<char>) -> Seq<char> {
    match a {
        Some(v) => v@,
        None => match b {
            Some(v) => v@,
            None => match c {
                Some(v) => v@,
                None => d,
            },
        },
    }
}

impl Resolved {
    /// Merges the layers: the region comes from the command line, else the
    /// project file, else the global defaults, else [`DEFAULT_REGION`]; each
    /// stage from the command line, else the project file; the pipeline
    /// from the project file.
    pub fn merge(
        entry: RegistryEntry,
        project: ProjectConfig,
        overrides: &Overrides,
        global_region: Option<String>,
    ) -> (r: Resolved)
        ensures
            r.entry == entry,
            r.project == project,
            r.project_config_path@ == path_join(entry.path@, entry.config@),
            r.pipeline@ == project.pipeline@,
            r.region@ == first_set(overrides.region, project.region, global_region, DEFAULT_REGION@),
            r.from_stage@ == first_set(overrides.from_stage, None, None, project.from_stage@),
            r.to_stage@ == first_set(overrides.to_stage, None, None, project.to_stage@),
            overrides.region matches Some(v) ==> r.region@ == v@,
            overrides.region is None ==> (project.region matches Some(p) ==> r.region@ == p@),
            overrides.region is None && project.region is None ==> (global_region matches Some(g)
                ==> r.region@ == g@),
            overrides.region is None && project.region is None && global_region is None
                ==> r.region@ == "eu-central-1"@,
            overrides.from_stage matches Some(v) ==> r.from_stage@ == v@,
            overrides.from_stage is None ==> r.from_stage@ == project.from_stage@,
            overrides.to_stage matches Some(v) ==> r.to_stage@ == v@,
            overrides.to_stage is None ==> r.to_stage@ == project.to_stage@,
    {
        let region = match &overrides.region {
            Some(v) => v.clone(),
            None => match &project.region {
                Some(v) => v.clone(),
                None => match global_region {
                    Some(v) => v,
                    None => owned(DEFAULT_REGION),
                },
            },
        };
        let from_stage = match &overrides.from_stage {
            Some(v) => v.clone(),
            None => project.from_stage.clone(),
        };
        let to_stage = match &overrides.to_stage {
            Some(v) => v.clone(),
            None => project.to_stage.clone(),
        };
        let project_config_path = entry.project_config_path();
        Resolved {
            pipeline: project.pipeline.clone(),
            project,
            project_config_path,
            entry,
            region,
            from_stage,
            to_stage,
        }
    }
}

/// The tool's configuration directory (kept so the path helpers stay in
/// use).
pub fn _touch_paths() -> (r: Result<String, String>)
    ensures
        match r {
            Ok(p) => exists|base: Seq<char>| p@ == #[trigger] config_dir_spec(base),
            Err(e) => e@ == no_config_dir_message(),
        },
{
    config_dir()
}


/// Precedence of the region: the command line wins; without it the
/// project file's region wins whatever the global default is; the global
/// default is used only when both are unset, and `eu-central-1` when all
/// three are. Stages: the command line, else the project file.
pub proof fn law_region_precedence(
    cli: Option<String>,
    project: Option<String>,
    global: Option<String>,
    stage_cli: Option<String>,
    stage_project: Seq<char>,
)
    ensures
        cli matches Some(v) ==> first_set(cli, project, global, DEFAULT_REGION@) == v@,
        cli is None ==> (project matches Some(p) ==> first_set(cli, project, global, DEFAULT_REGION@)
            == p@),
        cli is None && project is None ==> (global matches Some(g) ==> first_set(
            cli,
            project,
            global,
            DEFAULT_REGION@,
        ) == g@),
        cli is None && project is None && global is None ==> first_set(
            cli,
            project,
            global,
            DEFAULT_REGION@,
        ) == "eu-central-1"@,
        stage_cli matches Some(v) ==> first_set(stage_cli, None, None, stage_project) == v@,
        stage_cli is None ==> first_set(stage_cli, None, None, stage_project) == stage_project,
{
}

} // verus!
