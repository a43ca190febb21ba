//! The command line: global flags, commands and their arguments.

use vstd::prelude::*;

verus! {

/// The parsed command line.
#[derive(Debug)]
pub struct Cli {
    /// Override of the region (defaults to the project's, then
    /// `eu-central-1`).
    pub region: Option<String>,
    /// More log output.
    pub verbose: bool,
    /// Only errors.
    pub quiet: bool,
    /// No ANSI colors.
    pub no_color: bool,
    pub command: Command,
}

/// The commands.
#[derive(Debug)]
pub enum Command {
    /// Register the current directory as a project.
    Add(AddArgs),
    /// Manage configuration (per-project and global).
    Config(ConfigCommand),
    /// Compare deployed commits between two pipeline stages.
    Check(CheckArgs),
    /// Generate a markdown changelog between two pipeline stages.
    Changelog(ChangelogArgs),
    /// Approve the pending release in preprod and tag the commit.
    Release(ReleaseArgs),
    /// Manage and run release recipes.
    Recipe(RecipeCommand),
    /// Check object existence for a list of keys.
    S3Check(S3CheckArgs),
    /// Manage the list of pre-configured account names.
    Accounts(AccountsCommand),
    /// Run the role script and emit shell `export` statements.
    Assume(AssumeArgs),
    /// Print the saved session script.
    Session,
    /// Print `unset` statements for the session and drop the session file.
    Logout,
    /// Print the shell wrapper.
    Init(InitArgs),
    /// Launch the interactive browser.
    Tui,
}

/// The `accounts` subcommands.
#[derive(Debug)]
pub enum AccountsCommand {
    Add { name: String, description: Option<String> },
    List,
    Remove { name: String },
}

/// Arguments of `assume`.
#[derive(Debug)]
pub struct AssumeArgs {
    /// Account name; an interactive picker when omitted.
    pub account: Option<String>,
    /// Skip the MFA prompt.
    pub no_mfa: bool,
}

/// Arguments of `add`.
#[derive(Debug)]
pub struct AddArgs {
    /// Project name (defaults to the directory name).
    pub name: Option<String>,
    /// Repository `owner/name` (defaults to the `origin` remote).
    pub repo: Option<String>,
}

/// The `config` subcommands.
#[derive(Debug)]
pub enum ConfigCommand {
    Show { project: Option<String> },
    Edit { project: Option<String> },
    Push { project: Option<String> },
    Pull { project: Option<String> },
}

/// Arguments of `check`.
#[derive(Debug)]
pub struct CheckArgs {
    pub project: Option<String>,
    pub from_stage: Option<String>,
    pub to_stage: Option<String>,
}

/// Arguments of `changelog`.
#[derive(Debug)]
pub struct ChangelogArgs {
    pub project: Option<String>,
    pub from_stage: Option<String>,
    pub to_stage: Option<String>,
    /// File to write the changelog to instead of stdout.
    pub out: Option<String>,
}

/// Arguments of `release`.
#[derive(Debug)]
pub struct ReleaseArgs {
    pub project: Option<String>,
    /// Skip the git tag.
    pub no_tag: bool,
    /// Skip the changelog.
    pub no_changelog: bool,
    /// Approval summary (defaults to `Released by aws-utils`).
    pub summary: Option<String>,
}

/// The `recipe` subcommands.
#[derive(Debug)]
pub enum RecipeCommand {
    Create { name: String },
    List,
    Run { name: String },
}

/// Arguments of `s3-check`.
#[derive(Debug)]
pub struct S3CheckArgs {
    /// Text file with one key per line.
    pub file: String,
    /// Bucket (an interactive picker when omitted).
    pub bucket: Option<String>,
    /// Number of concurrent lookups.
    pub concurrency: usize,
    /// Report deletion times of missing keys.
    pub show_deleted: bool,
    /// Project for the automatic role switch.
    pub project: Option<String>,
}

/// The shells the wrapper is printed for.
#[derive(Clone, Copy, Debug, PartialEq, Eq, Structural)]
pub enum Shell {
    Bash,
    Zsh,
    Fish,
}

/// Arguments of `init`.
#[derive(Debug)]
pub struct InitArgs {
    pub shell: Shell,
}

/// The default log level: `debug` when verbose, else `error` when quiet,
/// else `info`.
pub fn default_log_level(verbose: bool, quiet: bool) -> (r: &'static str)
    ensures
        r@ == if verbose {
            "debug"@
        } else if quiet {
            "error"@
        } else {
            "info"@
        },
{
    if verbose {
        "debug"
    } else if quiet {
        "error"
    } else {
        "info"
    }
}

} // verus!
