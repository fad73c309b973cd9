//! The `plugin` subject: running a plugin action against a project and
//! listing a plugin's advertised actions.

use vstd::prelude::*;
use crate::daemon::{Daemon, DaemonView, HandlerOutcome, OutcomeV, plain, unknown_outcome,
    missing_param, outcome_plain, outcome_plain_string, outcome_missing};
use crate::plugin::{Plugin, spec_plugin_idx};
use crate::props::{PropsV, spec_lookup, list_get};
use crate::strutil::{str_is, cat3, spec_join, join_strings};

verus! {

/// What the `plugin` subject yields.
pub open spec fn spec_handle_plugin(d: DaemonView, command: Seq<char>, params: PropsV) -> (
    DaemonView,
    OutcomeV,
) {
    if command == "run"@ {
        match spec_lookup(params, "plugin"@) {
            None => (d, missing_param("plugin"@)),
            Some(plug) => match spec_lookup(params, "action"@) {
                None => (d, missing_param("action"@)),
                Some(action) => match spec_lookup(params, "project-name"@) {
                    None => (d, missing_param("project-name"@)),
                    Some(name) => match spec_plugin_idx(d.plugins, plug) {
                        None => (d, plain("Plugin "@ + plug + " not found"@)),
                        Some(pi) => match d.store.find(name) {
                            None => (d, plain("Project "@ + name + " not found"@)),
                            Some(i) => (
                                d,
                                plain(
                                    match d.plugins[pi].spec_run(
                                        action,
                                        d.store.projects[i],
                                        params,
                                    ) {
                                        Ok(s) => s,
                                        Err(e) => e,
                                    },
                                ),
                            ),
                        },
                    },
                },
            },
        }
    } else if command == "list-actions"@ {
        match spec_lookup(params, "plugin"@) {
            None => (d, missing_param("plugin"@)),
            Some(plug) => match spec_plugin_idx(d.plugins, plug) {
                None => (d, plain("Plugin "@ + plug + " not found"@)),
                Some(pi) => (d, plain(spec_join(d.plugins[pi].spec_actions(), ", "@))),
            },
        }
    } else {
        (d, unknown_outcome())
    }
}

impl Daemon {
    /// Handles the `plugin` subject.  `run` resolves the plugin, then
    /// the project, and invokes the action entry point, surfacing the
    /// plugin's own success or error string verbatim; `list-actions`
    /// joins the plugin's advertised action names.
    pub fn handle_plugin(&mut self, command: &str, params: &Vec<(String, String)>) -> (r:
        HandlerOutcome)
        ensures
            final(self)@ == spec_handle_plugin(old(self)@, command@, params.deep_view()).0,
            r@ == spec_handle_plugin(old(self)@, command@, params.deep_view()).1,
            final(self).config.path@ == old(self).config.path@,
            old(self)@.wf() ==> final(self)@.wf(),
    {
        if str_is(command, "run") {
            match list_get(params, "plugin") {
                None => outcome_missing("plugin"),
                Some(plug) => match list_get(params, "action") {
                    None => outcome_missing("action"),
                    Some(action) => match list_get(params, "project-name") {
                        None => outcome_missing("project-name"),
                        Some(name) => match self.plugin_manager.get_plugin(plug.as_str()) {
                            None => outcome_plain_string(
                                cat3("Plugin ", plug.as_str(), " not found"),
                            ),
                            Some(handle) => match self.config.data.find_project(name.as_str()) {
                                None => outcome_plain_string(
                                    cat3("Project ", name.as_str(), " not found"),
                                ),
                                Some(i) => {
                                    let project = &self.config.data.projects[i];
                                    match handle.run_action(action.as_str(), project, params) {
                                        Ok(s) => outcome_plain_string(s),
                                        Err(e) => outcome_plain_string(e),
                                    }
                                },
                            },
                        },
                    },
                },
            }
        } else if str_is(command, "list-actions") {
            match list_get(params, "plugin") {
                None => outcome_missing("plugin"),
                Some(plug) => match self.plugin_manager.get_plugin(plug.as_str()) {
                    None => outcome_plain_string(cat3("Plugin ", plug.as_str(), " not found")),
                    Some(handle) => {
                        let actions = handle.list_actions();
                        outcome_plain_string(join_strings(&actions, ", "))
                    },
                },
            }
        } else {
            outcome_plain("Unknown command")
        }
    }
}

} // verus!
