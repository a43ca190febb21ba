//! Recipes: named sequences of project releases run one after another.

use vstd::prelude::*;
use crate::config::{
    config_dir_spec, no_config_dir, no_config_dir_message, os_config_dir, recipes_dir_in,
    toml_file_in,
};
use crate::paths::path_join;
use crate::sorting::{sort_by_key, stable_sorted_of, Keyed};
use crate::text::push_str_chars;

verus! {

/// One release of a recipe.
#[derive(Clone, Debug)]
pub struct RecipeStep {
    /// Name of a registered project.
    pub project: String,
}

/// A named sequence of releases.
#[derive(Clone, Debug)]
pub struct Recipe {
    pub name: String,
    pub description: String,
    pub steps: Vec<RecipeStep>,
}

impl Keyed for Recipe {
    open spec fn key_of(&self) -> Seq<char> {
        self.name@
    }

    fn key(&self) -> (r: &str) {
        self.name.as_str()
    }
}

impl Recipe {
    /// The file of recipe `name` in the recipes directory `dir`.
    pub fn file_path_in(dir: &str, name: &str) -> (r: String)
        ensures
            r@ == path_join(dir@, name@ + ".toml"@),
    {
        toml_file_in(dir, name)
    }

    /// The file of recipe `name`.
    pub fn file_path(name: &str) -> (r: Result<String, String>)
        ensures
            match r {
                Ok(p) => exists|base: Seq<char>|
                    p@ == path_join(
                        path_join(#[trigger] config_dir_spec(base), "recipes"@),
                        name@ + ".toml"@,
                    ),
                Err(e) => e@ == no_config_dir_message(),
            },
    {
        match os_config_dir() {
            Some(base) => {
                let dir = recipes_dir_in(base.as_str());
                Ok(Self::file_path_in(dir.as_str(), name))
            },
            None => Err(no_config_dir()),
        }
    }

    /// The recipes sorted by name (stable).
    pub fn sort(recipes: Vec<Recipe>) -> (r: Vec<Recipe>)
        ensures
            stable_sorted_of(r@, recipes@),
    {
        sort_by_key(recipes)
    }
}

/// `N step` or `N steps`.
pub open spec fn steps_label_spec(count: usize) -> Seq<char> {
    crate::text::decimal(count as nat) + " step"@ + if count == 1 {
        seq![]
    } else {
        "s"@
    }
}

/// The count of steps as the runner announces it.
pub fn steps_label(count: usize) -> (r: String)
    ensures
        r@ == steps_label_spec(count),
{
    let mut r = String::new();
    crate::text::push_decimal(&mut r, count);
    push_str_chars(&mut r, " step");
    if count != 1 {
        push_str_chars(&mut r, "s");
    }
    r
}

/// The approval summary of a release run by recipe `name`.
pub fn release_summary(name: &str) -> (r: String)
    ensures
        r@ == "Released via recipe `"@ + name@ + "`"@,
{
    let mut r = String::new();
    push_str_chars(&mut r, "Released via recipe `");
    push_str_chars(&mut r, name);
    push_str_chars(&mut r, "`");
    r
}

/// Whether the runner asks before going on after step `i` (counted from
/// 0) of `n`: after every step but the last.
pub fn asks_to_continue(i: usize, n: usize) -> (r: bool)
    requires
        i < n,
    ensures
        r == (i + 1 < n),
{
    i < n - 1
}


/// What a recipe run hears back after running or asking.
pub enum RecipeEvent {
    /// The release of the current step ended without error.
    StepDone,
    /// The release of the current step failed.
    StepFailed,
    /// The answer to "continue with the next step?".
    Continue(bool),
}

/// What a recipe run does next.
#[derive(Clone, Copy, Debug, PartialEq, Eq, Structural)]
pub enum RecipeAction {
    /// Run the release of step `i` (counted from 0).
    RunStep(usize),
    /// Ask whether to go on with the next step.
    AskContinue,
    /// Stop: the user declined to go on.
    Abort,
    /// Stop: the step's release failed, and its error ends the run.
    Fail,
    /// Every step ran.
    Complete,
}

/// The first action of a run of `n` steps: the first step, or completion
/// when there is none.
pub fn recipe_start(n: usize) -> (r: RecipeAction)
    ensures
        r == if n == 0 {
            RecipeAction::Complete
        } else {
            RecipeAction::RunStep(0)
        },
{
    if n == 0 {
        RecipeAction::Complete
    } else {
        RecipeAction::RunStep(0)
    }
}

/// The action after `event` at step `i` of `n`: the first error stops the
/// run; after a step that is not the last the run asks, and a no stops
/// it while a yes runs the next step; the last step asks nothing and
/// completes the run.
pub fn recipe_step(i: usize, n: usize, event: RecipeEvent) -> (r: RecipeAction)
    requires
        i < n,
    ensures
        r == match event {
            RecipeEvent::StepFailed => RecipeAction::Fail,
            RecipeEvent::StepDone => if i + 1 < n {
                RecipeAction::AskContinue
            } else {
                RecipeAction::Complete
            },
            RecipeEvent::Continue(yes) => if !yes {
                RecipeAction::Abort
            } else if i + 1 < n {
                RecipeAction::RunStep((i + 1) as usize)
            } else {
                RecipeAction::Complete
            },
        },
        r is AskContinue ==> i + 1 < n,
        r matches RecipeAction::RunStep(j) ==> j == i + 1 && j < n,
{
    match event {
        RecipeEvent::StepFailed => RecipeAction::Fail,
        RecipeEvent::StepDone => {
            if asks_to_continue(i, n) {
                RecipeAction::AskContinue
            } else {
                RecipeAction::Complete
            }
        },
        RecipeEvent::Continue(yes) => {
            if !yes {
                RecipeAction::Abort
            } else if asks_to_continue(i, n) {
                RecipeAction::RunStep(i + 1)
            } else {
                RecipeAction::Complete
            }
        },
    }
}

} // verus!
