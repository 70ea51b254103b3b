//! The configuration commands' decision core. The interactive shell
//! around it loads the store, prompts with the names a plan hands out,
//! feeds the selection back in, and prints what the outcome says; every
//! choice of what to show is made and checked here.

use vstd::prelude::*;
use crate::config::Config;
use crate::order::{ordered_entries, sort_strings, sorted, sorted_by_key};

verus! {

/// Where the configuration source is found.
pub struct ConfigParams {
    pub config: String,
}

/// The subcommand that inspects configured profiles.
pub struct ConfigViewCmd {
    pub config_params: ConfigParams,
}

/// The subcommands of the configuration command.
pub enum ConfigSubcommand {
    View(ConfigViewCmd),
}

/// The configuration command: dispatches to its subcommand.
pub struct ConfigCmd {
    pub subcommand: ConfigSubcommand,
}

/// The first decision of the view flow: what to do once the store is
/// loaded.
pub enum ViewStep {
    /// No profiles are configured: report so and finish successfully,
    /// touching no backend.
    NoProfiles,
    /// Ask the user to choose among these profile names, presented in
    /// ascending order.
    Prompt(Vec<String>),
}

/// How the interactive selection ended.
pub enum Selection {
    Chosen(String),
    /// Cancelled or interrupted: a normal early return, not an error.
    Cancelled,
}

/// What the view flow answers to a selection.
pub enum ViewOutcome {
    /// Nothing to show; finish successfully.
    Done,
    /// The chosen profile is no longer in the store: report its name.
    Missing(String),
    /// Show the named profile's options, sorted by key.
    Show(String, Vec<(String, String)>),
}

impl ConfigViewCmd {
    /// Plans the view flow over a loaded store: with no profiles there
    /// is nothing to prompt for; otherwise prompt with every profile
    /// name, sorted, none lost, none added.
    pub fn plan(&self, cfg: &Config) -> (step: ViewStep)
        ensures
            cfg.names().len() == 0 <==> step is NoProfiles,
            step matches ViewStep::Prompt(names) ==> sorted(names.deep_view())
                && names.deep_view().to_multiset() == cfg.names().to_multiset(),
    {
        broadcast use vstd::seq_lib::group_to_multiset_ensures;

        let names = cfg.profile_names();
        if names.is_empty() {
            proof {
                names.deep_view().to_multiset_ensures();
                assert(names.deep_view().len() == 0);
            }
            ViewStep::NoProfiles
        } else {
            let sorted_names = sort_strings(&names);
            proof {
                names.deep_view().to_multiset_ensures();
                sorted_names.deep_view().to_multiset_ensures();
                assert(names.deep_view().len() > 0);
                assert(sorted_names.deep_view().to_multiset().len() > 0);
            }
            ViewStep::Prompt(sorted_names)
        }
    }

    /// Answers a selection: cancellation finishes quietly; a name that
    /// has no profile is reported missing; otherwise the profile's
    /// options are handed back sorted by key, none lost, none added.
    pub fn respond(&self, cfg: &Config, sel: Selection) -> (out: ViewOutcome)
        ensures
            match sel {
                Selection::Cancelled => out is Done,
                Selection::Chosen(name) => match cfg.lookup(name@) {
                    Option::None => out matches ViewOutcome::Missing(n) && n@ == name@,
                    Option::Some(opts) => out matches ViewOutcome::Show(n, entries) && n@ == name@
                        && sorted_by_key(entries.deep_view()) && entries.deep_view().to_multiset()
                        == opts.to_multiset(),
                },
            },
    {
        match sel {
            Selection::Cancelled => ViewOutcome::Done,
            Selection::Chosen(name) => {
                match cfg.profile(name.as_str()) {
                    None => ViewOutcome::Missing(name),
                    Some(options) => {
                        let entries = ordered_entries(options);
                        ViewOutcome::Show(name, entries)
                    },
                }
            },
        }
    }
}

impl ConfigCmd {
    /// Runs the configuration command's decision step over a loaded
    /// store: dispatches to the subcommand and hands the caller the
    /// plan to drive the interaction by.
    pub fn run(self, cfg: &Config) -> (step: ViewStep)
        ensures
            cfg.names().len() == 0 <==> step is NoProfiles,
            step matches ViewStep::Prompt(names) ==> sorted(names.deep_view())
                && names.deep_view().to_multiset() == cfg.names().to_multiset(),
    {
        match self.subcommand {
            ConfigSubcommand::View(cmd) => cmd.plan(cfg),
        }
    }
}

} // verus!
