//! The compositor-workspace plugin.  Its enable handler only queries
//! the compositor's monitor list; it advertises no actions yet.

use vstd::prelude::*;
use crate::config::{Project, ProjectView};
use crate::event::Event;
use crate::plugin::{EventPlan, EventPlanV, Plugin};
use crate::props::PropsV;
use crate::strutil::cat2;

verus! {

/// The plugin that will mirror projects in compositor workspaces.
pub struct HyprlandPlugin {}

impl Plugin for HyprlandPlugin {
    open spec fn spec_name(&self) -> Seq<char> {
        "hyprland"@
    }

    open spec fn spec_plan(&self, event: Event, project: ProjectView, params: PropsV) -> EventPlanV {
        match event {
            Event::PluginEnable => EventPlanV::QueryMonitors,
            _ => EventPlanV::Nothing,
        }
    }

    open spec fn spec_actions(&self) -> Seq<Seq<char>> {
        Seq::empty()
    }

    open spec fn spec_run(&self, action: Seq<char>, project: ProjectView, params: PropsV) -> Result<
        Seq<char>,
        Seq<char>,
    > {
        Err("unknown action: "@ + action)
    }

    fn name(&self) -> (r: String) {
        "hyprland".to_owned()
    }

    fn on_event(&self, event: Event, project: &Project, params: &Vec<(String, String)>) -> (r:
        EventPlan) {
        match event {
            Event::PluginEnable => EventPlan::QueryMonitors,
            _ => EventPlan::Nothing,
        }
    }

    fn list_actions(&self) -> (r: Vec<String>) {
        let v: Vec<String> = Vec::new();
        proof {
            assert(v.deep_view() =~= self.spec_actions());
        }
        v
    }

    fn run_action(&self, action: &str, project: &Project, params: &Vec<(String, String)>) -> (r:
        Result<String, String>) {
        Err(cat2("unknown action: ", action))
    }
}

} // verus!
