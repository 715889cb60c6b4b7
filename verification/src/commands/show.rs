//! Showing resolved settings, and updating parent configurations.
use crate::config::context::{ContextView, CurrentDir};
use crate::config::model::{Config, ConfigView, PreConfig, PreConfigView};
use crate::config::resolve::{cascade, ResolvedSettings, SettledView};
use crate::map::StrMap;
use crate::text::three;
use vstd::prelude::*;

verus! {

// ---------------------------------------------------------------------------
// Resolved settings
// ---------------------------------------------------------------------------
/// The message where a directory lies in no domain.
pub open spec fn outside_message() -> Seq<char> {
    "Current directory does not exist in any darp domain configuration."@
}

/// The message for an environment that does not exist.
pub open spec fn unknown_environment(e: Seq<char>) -> Seq<char> {
    "Environment '"@ + e + "' does not exist."@
}

/// What the settings of a context resolve to.
pub open spec fn settled_in(ctx: ContextView) -> SettledView {
    cascade(
        ctx.environment,
        ctx.domain.settings,
        match ctx.group {
            Some(g) => Some(g.settings),
            None => None,
        },
        match ctx.service {
            Some(s) => Some(s.settings),
            None => None,
        },
    )
}

/// The settings are those that the context resolves to.
pub open spec fn shows(r: ResolvedSettings, ctx: ContextView) -> bool {
    &&& r.domain_name@ == ctx.domain_name
    &&& r.group_name@ == ctx.group_name
    &&& r.service_name@ == ctx.current_directory_name
    &&& r.environment_name.deep_view() == ctx.environment_name
    &&& r.settled() == settled_in(ctx)
}

/// Resolves the settings that apply in a directory. The error is the text to show where the
/// directory lies in no configured domain, or where the environment does not exist.
pub fn cmd_show(
    environment_cli: Option<String>,
    config: &Config,
    current_dir: &CurrentDir,
    locations: &StrMap<String>,
) -> (r: Result<ResolvedSettings, String>)
    ensures
        match config@.service_context(*current_dir, locations@, environment_cli.deep_view()) {
            None => r is Err && r->Err_0@ == outside_message(),
            Some(ctx) => if ctx.environment_name is Some && ctx.environment is None {
                r is Err && r->Err_0@ == unknown_environment(ctx.environment_name->0)
            } else {
                r is Ok && shows(r->Ok_0, ctx)
            },
        },
{
    let ctx = match config.service_context_from_cwd(environment_cli, current_dir, locations) {
        Some(ctx) => ctx,
        None => {
            return Err(
                "Current directory does not exist in any darp domain configuration.".to_string(),
            );
        },
    };
    match &ctx.environment_name {
        Some(e) => {
            if ctx.environment.is_none() {
                return Err(three("Environment '", e.as_str(), "' does not exist."));
            }
        },
        None => {},
    }
    Ok(
        ResolvedSettings::resolve(
            ctx.domain_name,
            ctx.group_name,
            ctx.current_directory_name,
            ctx.environment_name,
            ctx.service,
            ctx.group,
            ctx.domain,
            ctx.environment,
        ),
    )
}

// ---------------------------------------------------------------------------
// Parent configurations
// ---------------------------------------------------------------------------
/// One step of updating the parent configurations.
#[derive(Debug, Clone, PartialEq, Eq)]
pub enum PullStep {
    /// Say something.
    Say(String),
    /// Update the repository at the location.
    Pull(String),
}

/// What a step is.
pub enum PullView {
    Say(Seq<char>),
    Pull(Seq<char>),
}

impl DeepView for PullStep {
    type V = PullView;

    open spec fn deep_view(&self) -> PullView {
        match *self {
            PullStep::Say(s) => PullView::Say(s@),
            PullStep::Pull(s) => PullView::Pull(s@),
        }
    }
}

/// The step for one parent configuration.
pub open spec fn pull_step(p: PreConfigView) -> PullView {
    match p.repo_location {
        Some(location) => PullView::Pull(location),
        None => PullView::Say("Skipping '"@ + p.location + "' (no repo_location)"@),
    }
}

/// The steps that update all parent configurations.
pub open spec fn pull_steps(c: ConfigView) -> Seq<PullView> {
    match c.pre_config {
        Some(entries) => if entries.len() == 0 {
            seq![PullView::Say("No pre_config entries configured."@)]
        } else {
            entries.map_values(|p: PreConfigView| pull_step(p))
        },
        None => seq![PullView::Say("No pre_config entries configured."@)],
    }
}

fn step_for(p: &PreConfig) -> (r: PullStep)
    ensures
        r.deep_view() == pull_step(p.deep_view()),
{
    match &p.repo_location {
        Some(location) => PullStep::Pull(location.clone()),
        None => PullStep::Say(three("Skipping '", p.location.as_str(), "' (no repo_location)")),
    }
}

/// Lists the steps that update the parent configurations, in their order.
pub fn cmd_pull(config: &Config) -> (r: Vec<PullStep>)
    ensures
        r.deep_view() == pull_steps(config@),
{
    let mut steps: Vec<PullStep> = Vec::new();
    match &config.pre_config {
        Some(entries) => {
            if entries.len() > 0 {
                let ghost all = entries.deep_view();
                let mut i: usize = 0;
                while i < entries.len()
                    invariant
                        i <= entries@.len(),
                        all == entries.deep_view(),
                        steps@.len() == i,
                        forall|k: int|
                            0 <= k < i ==> (#[trigger] steps@[k]).deep_view() == pull_step(all[k]),
                    decreases entries@.len() - i,
                {
                    steps.push(step_for(&entries[i]));
                    i += 1;
                }
                assert(steps.deep_view() =~= all.map_values(|p: PreConfigView| pull_step(p)));
                return steps;
            }
        },
        None => {},
    }
    let step = PullStep::Say("No pre_config entries configured.".to_string());
    let ghost x = step.deep_view();
    steps.push(step);
    assert(steps.deep_view() =~= seq![x]);
    steps
}

} // verus!
