//! The command line as plain values: flags for the main run and the
//! subcommands.

use vstd::prelude::*;

verus! {

/// The whole command line.
#[derive(Debug)]
pub struct Cli {
    pub run_args: RunArgs,
    pub command: Option<Commands>,
}

/// Flags of the main run.
#[derive(Debug, Clone)]
pub struct RunArgs {
    /// Skip interactive confirmation and auto-commit.
    pub yes: bool,
    /// Print the generated message without committing or staging.
    pub dry_run: bool,
    /// Template name to use (conventional, simple, gitmoji).
    pub template: Option<String>,
    /// Override of the model name.
    pub model: Option<String>,
    /// Override of the endpoint URL.
    pub endpoint: Option<String>,
}

impl Default for RunArgs {
    fn default() -> (r: RunArgs)
        ensures
            !r.yes,
            !r.dry_run,
            r.template is None,
            r.model is None,
            r.endpoint is None,
    {
        RunArgs { yes: false, dry_run: false, template: None, model: None, endpoint: None }
    }
}

/// Subcommands.
#[derive(Debug)]
pub enum Commands {
    /// Open or inspect the global configuration file.
    Config(ConfigArgs),
    /// Create a project configuration file in the current repository.
    Init,
}

/// Flags of the `config` subcommand.
#[derive(Debug)]
pub struct ConfigArgs {
    /// Print the path of the configuration file instead of opening it.
    pub show_path: bool,
}

} // verus!
