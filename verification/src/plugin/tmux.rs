//! The terminal-multiplexer-session plugin: it keeps one detached
//! session per project, created on enable and killed on disable, and
//! offers an action that yields the command line for attaching to it.

use vstd::prelude::*;
use crate::config::{Project, ProjectView};
use crate::event::Event;
use crate::plugin::{EventPlan, EventPlanV, Plugin};
use crate::props::{PropsV, spec_lookup, list_get};
use crate::strutil::{str_is, cat2};

verus! {

/// The plugin that mirrors each project in a terminal-multiplexer
/// session named after the project.
pub struct TmuxPlugin {}

impl Plugin for TmuxPlugin {
    open spec fn spec_name(&self) -> Seq<char> {
        "tmux"@
    }

    open spec fn spec_plan(&self, event: Event, project: ProjectView, params: PropsV) -> EventPlanV {
        match event {
            Event::PluginEnable => EventPlanV::CreateSessionIfMissing {
                session: project.name,
                path: spec_lookup(project.props, "path"@),
            },
            Event::PluginDisable => EventPlanV::KillSessionIfPresent { session: project.name },
            _ => EventPlanV::Nothing,
        }
    }

    open spec fn spec_actions(&self) -> Seq<Seq<char>> {
        seq!["gen_init_terminal"@]
    }

    open spec fn spec_run(&self, action: Seq<char>, project: ProjectView, params: PropsV) -> Result<
        Seq<char>,
        Seq<char>,
    > {
        if action == "gen_init_terminal"@ {
            if project.plugins.contains("tmux"@) {
                Ok("tmux attach-session -t "@ + project.name)
            } else {
                Err("tmux plugin is not enabled"@)
            }
        } else {
            Err("unknown action: "@ + action)
        }
    }

    fn name(&self) -> (r: String) {
        "tmux".to_owned()
    }

    fn on_event(&self, event: Event, project: &Project, params: &Vec<(String, String)>) -> (r:
        EventPlan) {
        match event {
            Event::PluginEnable => {
                let path = match list_get(&project.properties, "path") {
                    Some(v) => Some(v.clone()),
                    None => None,
                };
                EventPlan::CreateSessionIfMissing { session: project.name.clone(), path }
            },
            Event::PluginDisable => {
                EventPlan::KillSessionIfPresent { session: project.name.clone() }
            },
            _ => EventPlan::Nothing,
        }
    }

    fn list_actions(&self) -> (r: Vec<String>) {
        let mut v: Vec<String> = Vec::new();
        v.push("gen_init_terminal".to_owned());
        proof {
            assert(v.deep_view() =~= self.spec_actions());
        }
        v
    }

    fn run_action(&self, action: &str, project: &Project, params: &Vec<(String, String)>) -> (r:
        Result<String, String>) {
        if str_is(action, "gen_init_terminal") {
            if project.has_plugin("tmux") {
                Ok(cat2("tmux attach-session -t ", project.name.as_str()))
            } else {
                Err("tmux plugin is not enabled".to_owned())
            }
        } else {
            Err(cat2("unknown action: ", action))
        }
    }
}

} // verus!
