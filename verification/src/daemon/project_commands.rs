//! The `project` subject: project CRUD, per-project properties, and
//! the idempotent plugin set, with the plugin lifecycle dispatches that
//! enabling and disabling trigger.

use vstd::prelude::*;
use crate::config::ProjectView;
use crate::daemon::{Daemon, DaemonView, Dispatch, HandlerOutcome, OutcomeV, plain, persisting,
    unknown_outcome, missing_param, outcome_plain, outcome_plain_string, outcome_persist_string,
    outcome_missing};
use crate::daemon::event_commands::{spec_dispatch, make_dispatch};
use crate::event::Event;
use crate::props::{PropsV, spec_lookup, spec_set, spec_del, list_get};
use crate::strutil::{str_is, cat3, cat4, cat6, spec_join, join_strings};

verus! {

/// What `project add` yields: a fresh project, or an "already exists"
/// conflict reply that leaves the store unchanged.
pub open spec fn spec_project_add(d: DaemonView, params: PropsV) -> (DaemonView, OutcomeV) {
    let cv = d.store;
    match spec_lookup(params, "project-name"@) {
        None => (d, plain("Invalid command"@)),
        Some(name) => if cv.has_project(name) {
            (d, plain("Project "@ + name + " already exists"@))
        } else {
            (
                d.with_store(
                    cv.with_projects(
                        cv.projects.push(
                            ProjectView { name, plugins: Seq::empty(), props: Seq::empty() },
                        ),
                    ),
                ),
                persisting("Project "@ + name + " added"@),
            )
        },
    }
}

/// What `project del` yields.
pub open spec fn spec_project_del(d: DaemonView, params: PropsV) -> (DaemonView, OutcomeV) {
    let cv = d.store;
    match spec_lookup(params, "project-name"@) {
        None => (d, plain("Invalid command"@)),
        Some(name) => match cv.find(name) {
            None => (d, plain("Project "@ + name + " not found"@)),
            Some(i) => (
                d.with_store(cv.with_projects(cv.projects.remove(i))),
                persisting("Project "@ + name + " removed"@),
            ),
        },
    }
}

/// The reply of `project info`: the name, the enabled plugins joined
/// by commas, and the properties as "key: value" pairs joined by
/// commas.
pub open spec fn spec_info_text(p: ProjectView) -> Seq<char> {
    "Project: "@ + p.name + "\nPlugins: "@ + spec_join(p.plugins, ", "@) + "\nProperties: "@
        + spec_join(p.props.map_values(|kv: (Seq<char>, Seq<char>)| kv.0 + ": "@ + kv.1), ", "@)
}

/// What `project info` yields.
pub open spec fn spec_project_info(d: DaemonView, params: PropsV) -> (DaemonView, OutcomeV) {
    let cv = d.store;
    match spec_lookup(params, "project-name"@) {
        None => (d, plain("Invalid command"@)),
        Some(name) => match cv.find(name) {
            None => (d, plain("Project "@ + name + " not found"@)),
            Some(i) => (d, plain(spec_info_text(cv.projects[i]))),
        },
    }
}

/// What `project set-property` yields.
pub open spec fn spec_project_set_property(d: DaemonView, params: PropsV) -> (
    DaemonView,
    OutcomeV,
) {
    let cv = d.store;
    match spec_lookup(params, "project-name"@) {
        None => (d, missing_param("project-name"@)),
        Some(name) => match spec_lookup(params, "property"@) {
            None => (d, missing_param("property"@)),
            Some(prop) => match spec_lookup(params, "value"@) {
                None => (d, missing_param("value"@)),
                Some(value) => match cv.find(name) {
                    None => (d, plain("Project "@ + name + " not found"@)),
                    Some(i) => (
                        d.with_store(
                            cv.with_projects(
                                cv.projects.update(
                                    i,
                                    cv.projects[i].with_props(
                                        spec_set(cv.projects[i].props, prop, value),
                                    ),
                                ),
                            ),
                        ),
                        persisting(
                            "Property "@ + prop + " set to "@ + value + " for project "@ + name,
                        ),
                    ),
                },
            },
        },
    }
}

/// What `project get-property` yields.
pub open spec fn spec_project_get_property(d: DaemonView, params: PropsV) -> (
    DaemonView,
    OutcomeV,
) {
    let cv = d.store;
    match spec_lookup(params, "project-name"@) {
        None => (d, missing_param("project-name"@)),
        Some(name) => match spec_lookup(params, "property"@) {
            None => (d, missing_param("property"@)),
            Some(prop) => match cv.find(name) {
                None => (d, plain("Project "@ + name + " not found"@)),
                Some(i) => match spec_lookup(cv.projects[i].props, prop) {
                    Some(value) => (d, plain(value)),
                    None => (d, plain("Property "@ + prop + " not found for project "@ + name)),
                },
            },
        },
    }
}

/// What `project del-property` yields.
pub open spec fn spec_project_del_property(d: DaemonView, params: PropsV) -> (
    DaemonView,
    OutcomeV,
) {
    let cv = d.store;
    match spec_lookup(params, "project-name"@) {
        None => (d, missing_param("project-name"@)),
        Some(name) => match spec_lookup(params, "property"@) {
            None => (d, missing_param("property"@)),
            Some(prop) => match cv.find(name) {
                None => (d, plain("Project "@ + name + " not found"@)),
                Some(i) => if spec_lookup(cv.projects[i].props, prop) is Some {
                    (
                        d.with_store(
                            cv.with_projects(
                                cv.projects.update(
                                    i,
                                    cv.projects[i].with_props(spec_del(cv.projects[i].props, prop)),
                                ),
                            ),
                        ),
                        persisting("Property "@ + prop + " removed for project "@ + name),
                    )
                } else {
                    (d, plain("Property "@ + prop + " not found for project "@ + name))
                },
            },
        },
    }
}

/// What `project enable-plugin` yields: an idempotent enable, plus the
/// plugin-enable dispatch to the named plugin only.
pub open spec fn spec_project_enable_plugin(d: DaemonView, params: PropsV) -> (
    DaemonView,
    OutcomeV,
) {
    let cv = d.store;
    match spec_lookup(params, "project-name"@) {
        None => (d, missing_param("project-name"@)),
        Some(name) => match spec_lookup(params, "plugin"@) {
            None => (d, missing_param("plugin"@)),
            Some(plug) => match cv.find(name) {
                None => (d, plain("Project "@ + name + " not found"@)),
                Some(i) => if cv.projects[i].plugins.contains(plug) {
                    (d, plain("Plugin "@ + plug + " already enabled for project "@ + name))
                } else {
                    let p1 = cv.projects[i].with_plugins(cv.projects[i].plugins.push(plug));
                    (
                        d.with_store(cv.with_projects(cv.projects.update(i, p1))),
                        OutcomeV {
                            response: "Plugin "@ + plug + " enabled for project "@ + name,
                            persist: true,
                            dispatches: seq![
                                spec_dispatch(d.plugins, Event::PluginEnable, p1, plug, params),
                            ],
                        },
                    )
                },
            },
        },
    }
}

/// What `project disable-plugin` yields: an idempotent disable, plus
/// the plugin-disable dispatch to the named plugin only.
pub open spec fn spec_project_disable_plugin(d: DaemonView, params: PropsV) -> (
    DaemonView,
    OutcomeV,
) {
    let cv = d.store;
    match spec_lookup(params, "project-name"@) {
        None => (d, missing_param("project-name"@)),
        Some(name) => match spec_lookup(params, "plugin"@) {
            None => (d, missing_param("plugin"@)),
            Some(plug) => match cv.find(name) {
                None => (d, plain("Project "@ + name + " not found"@)),
                Some(i) => if cv.projects[i].plugins.contains(plug) {
                    let p1 = cv.projects[i].with_plugins(
                        cv.projects[i].plugins.remove(
                            cv.projects[i].plugins.index_of_first(plug)->Some_0,
                        ),
                    );
                    (
                        d.with_store(cv.with_projects(cv.projects.update(i, p1))),
                        OutcomeV {
                            response: "Plugin "@ + plug + " disabled for project "@ + name,
                            persist: true,
                            dispatches: seq![
                                spec_dispatch(d.plugins, Event::PluginDisable, p1, plug, params),
                            ],
                        },
                    )
                } else {
                    (d, plain("Plugin "@ + plug + " not enabled for project "@ + name))
                },
            },
        },
    }
}

/// What `project list` yields: the project names joined by commas.
pub open spec fn spec_project_list(d: DaemonView) -> (DaemonView, OutcomeV) {
    (d, plain(spec_join(d.store.names(), ", "@)))
}

/// What the `project` subject yields.
pub open spec fn spec_handle_project(d: DaemonView, command: Seq<char>, params: PropsV) -> (
    DaemonView,
    OutcomeV,
) {
    if command == "add"@ {
        spec_project_add(d, params)
    } else if command == "del"@ {
        spec_project_del(d, params)
    } else if command == "info"@ {
        spec_project_info(d, params)
    } else if command == "set-property"@ {
        spec_project_set_property(d, params)
    } else if command == "get-property"@ {
        spec_project_get_property(d, params)
    } else if command == "del-property"@ {
        spec_project_del_property(d, params)
    } else if command == "enable-plugin"@ {
        spec_project_enable_plugin(d, params)
    } else if command == "disable-plugin"@ {
        spec_project_disable_plugin(d, params)
    } else if command == "list"@ {
        spec_project_list(d)
    } else {
        (d, unknown_outcome())
    }
}

impl Daemon {
    /// Adds the named project.
    fn project_add(&mut self, params: &Vec<(String, String)>) -> (r: HandlerOutcome)
        ensures
            final(self)@ == spec_project_add(old(self)@, params.deep_view()).0,
            r@ == spec_project_add(old(self)@, params.deep_view()).1,
            final(self).config.path@ == old(self).config.path@,
            old(self)@.wf() ==> final(self)@.wf(),
    {
        match list_get(params, "project-name") {
            None => outcome_plain("Invalid command"),
            Some(name) => {
                if self.config.data.add_project(name.as_str()) {
                    outcome_persist_string(cat3("Project ", name.as_str(), " added"))
                } else {
                    outcome_plain_string(cat3("Project ", name.as_str(), " already exists"))
                }
            },
        }
    }

    /// Removes the named project.
    fn project_del(&mut self, params: &Vec<(String, String)>) -> (r: HandlerOutcome)
        ensures
            final(self)@ == spec_project_del(old(self)@, params.deep_view()).0,
            r@ == spec_project_del(old(self)@, params.deep_view()).1,
            final(self).config.path@ == old(self).config.path@,
            old(self)@.wf() ==> final(self)@.wf(),
    {
        match list_get(params, "project-name") {
            None => outcome_plain("Invalid command"),
            Some(name) => {
                proof {
                    self@.store.names().index_of_first_ensures(name@);
                }
                if self.config.data.del_project(name.as_str()) {
                    outcome_persist_string(cat3("Project ", name.as_str(), " removed"))
                } else {
                    outcome_plain_string(cat3("Project ", name.as_str(), " not found"))
                }
            },
        }
    }

    /// Describes the named project.
    fn project_info(&mut self, params: &Vec<(String, String)>) -> (r: HandlerOutcome)
        ensures
            final(self)@ == spec_project_info(old(self)@, params.deep_view()).0,
            r@ == spec_project_info(old(self)@, params.deep_view()).1,
            final(self).config.path@ == old(self).config.path@,
            old(self)@.wf() ==> final(self)@.wf(),
    {
        match list_get(params, "project-name") {
            None => outcome_plain("Invalid command"),
            Some(name) => match self.config.data.find_project(name.as_str()) {
                None => outcome_plain_string(cat3("Project ", name.as_str(), " not found")),
                Some(i) => {
                    let project = &self.config.data.projects[i];
                    let plugins_joined = join_strings(&project.plugins, ", ");
                    let ghost kvs = project@.props.map_values(
                        |kv: (Seq<char>, Seq<char>)| kv.0 + ": "@ + kv.1,
                    );
                    let mut items: Vec<String> = Vec::new();
                    let m = project.properties.len();
                    let mut j: usize = 0;
                    proof {
                        assert(items.deep_view() =~= kvs.take(0));
                    }
                    while j < m
                        invariant
                            j <= m,
                            m == project.properties.len(),
                            kvs == project@.props.map_values(
                                |kv: (Seq<char>, Seq<char>)| kv.0 + ": "@ + kv.1,
                            ),
                            items.deep_view() =~= kvs.take(j as int),
                        decreases m - j,
                    {
                        let ghost prev = items.deep_view();
                        let pair = &project.properties[j];
                        let item = cat3(pair.0.as_str(), ": ", pair.1.as_str());
                        items.push(item);
                        proof {
                            assert(project@.props[j as int] == (
                                project.properties@[j as int].0@,
                                project.properties@[j as int].1@,
                            ));
                            assert(kvs[j as int] == project@.props[j as int].0 + ": "@
                                + project@.props[j as int].1);
                            assert(items.deep_view() =~= prev.push(kvs[j as int]));
                            assert(kvs.take(j + 1) =~= kvs.take(j as int).push(kvs[j as int]));
                        }
                        j = j + 1;
                    }
                    proof {
                        assert(kvs.take(m as int) =~= kvs);
                    }
                    let props_joined = join_strings(&items, ", ");
                    outcome_plain_string(
                        cat6(
                            "Project: ",
                            name.as_str(),
                            "\nPlugins: ",
                            plugins_joined.as_str(),
                            "\nProperties: ",
                            props_joined.as_str(),
                        ),
                    )
                },
            },
        }
    }

    /// Sets a property of the named project.
    fn project_set_property(&mut self, params: &Vec<(String, String)>) -> (r: HandlerOutcome)
        ensures
            final(self)@ == spec_project_set_property(old(self)@, params.deep_view()).0,
            r@ == spec_project_set_property(old(self)@, params.deep_view()).1,
            final(self).config.path@ == old(self).config.path@,
            old(self)@.wf() ==> final(self)@.wf(),
    {
        match list_get(params, "project-name") {
            None => outcome_missing("project-name"),
            Some(name) => match list_get(params, "property") {
                None => outcome_missing("property"),
                Some(prop) => match list_get(params, "value") {
                    None => outcome_missing("value"),
                    Some(value) => {
                        proof {
                            self@.store.names().index_of_first_ensures(name@);
                        }
                        if self.config.data.set_project_prop(
                            name.as_str(),
                            prop.as_str(),
                            value.as_str(),
                        ) {
                            outcome_persist_string(
                                cat6(
                                    "Property ",
                                    prop.as_str(),
                                    " set to ",
                                    value.as_str(),
                                    " for project ",
                                    name.as_str(),
                                ),
                            )
                        } else {
                            outcome_plain_string(cat3("Project ", name.as_str(), " not found"))
                        }
                    },
                },
            },
        }
    }

    /// Reads a property of the named project.
    fn project_get_property(&mut self, params: &Vec<(String, String)>) -> (r: HandlerOutcome)
        ensures
            final(self)@ == spec_project_get_property(old(self)@, params.deep_view()).0,
            r@ == spec_project_get_property(old(self)@, params.deep_view()).1,
            final(self).config.path@ == old(self).config.path@,
            old(self)@.wf() ==> final(self)@.wf(),
    {
        match list_get(params, "project-name") {
            None => outcome_missing("project-name"),
            Some(name) => match list_get(params, "property") {
                None => outcome_missing("property"),
                Some(prop) => match self.config.data.find_project(name.as_str()) {
                    None => outcome_plain_string(cat3("Project ", name.as_str(), " not found")),
                    Some(i) => {
                        let project = &self.config.data.projects[i];
                        match list_get(&project.properties, prop.as_str()) {
                            Some(value) => outcome_plain_string(value.clone()),
                            None => outcome_plain_string(
                                cat4(
                                    "Property ",
                                    prop.as_str(),
                                    " not found for project ",
                                    name.as_str(),
                                ),
                            ),
                        }
                    },
                },
            },
        }
    }

    /// Removes a property of the named project.
    fn project_del_property(&mut self, params: &Vec<(String, String)>) -> (r: HandlerOutcome)
        ensures
            final(self)@ == spec_project_del_property(old(self)@, params.deep_view()).0,
            r@ == spec_project_del_property(old(self)@, params.deep_view()).1,
            final(self).config.path@ == old(self).config.path@,
            old(self)@.wf() ==> final(self)@.wf(),
    {
        let ghost d0 = self@;
        match list_get(params, "project-name") {
            None => outcome_missing("project-name"),
            Some(name) => match list_get(params, "property") {
                None => outcome_missing("property"),
                Some(prop) => {
                    proof {
                        self@.store.names().index_of_first_ensures(name@);
                    }
                    let res = self.config.data.del_project_prop(name.as_str(), prop.as_str());
                    proof {
                        if res == Some(false) {
                            d0.store.names().index_of_first_ensures(name@);
                            let i0 = d0.store.find(name@)->Some_0;
                            let p0 = d0.store.projects[i0];
                            assert(0 <= i0 < d0.store.projects.len());
                            assert(spec_lookup(p0.props, prop@) is None);
                            assert(spec_del(p0.props, prop@) == p0.props);
                            assert(p0.with_props(p0.props) == p0);
                            assert(self@.store.projects == d0.store.projects.update(
                                i0,
                                p0.with_props(spec_del(p0.props, prop@)),
                            ));
                            assert(self@.store.projects =~= d0.store.projects);
                        }
                    }
                    match res {
                        None => outcome_plain_string(cat3("Project ", name.as_str(), " not found")),
                        Some(true) => outcome_persist_string(
                            cat4(
                                "Property ",
                                prop.as_str(),
                                " removed for project ",
                                name.as_str(),
                            ),
                        ),
                        Some(false) => outcome_plain_string(
                            cat4(
                                "Property ",
                                prop.as_str(),
                                " not found for project ",
                                name.as_str(),
                            ),
                        ),
                    }
                },
            },
        }
    }

    /// Enables a plugin on the named project and dispatches the
    /// plugin-enable event to it.
    fn project_enable_plugin(&mut self, params: &Vec<(String, String)>) -> (r: HandlerOutcome)
        ensures
            final(self)@ == spec_project_enable_plugin(old(self)@, params.deep_view()).0,
            r@ == spec_project_enable_plugin(old(self)@, params.deep_view()).1,
            final(self).config.path@ == old(self).config.path@,
            old(self)@.wf() ==> final(self)@.wf(),
    {
        let ghost d0 = self@;
        match list_get(params, "project-name") {
            None => outcome_missing("project-name"),
            Some(name) => match list_get(params, "plugin") {
                None => outcome_missing("plugin"),
                Some(plug) => match self.config.data.find_project(name.as_str()) {
                    None => outcome_plain_string(cat3("Project ", name.as_str(), " not found")),
                    Some(i) => {
                        proof {
                            self@.store.names().index_of_first_ensures(name@);
                        }
                        if self.config.data.projects[i].has_plugin(plug.as_str()) {
                            outcome_plain_string(
                                cat4(
                                    "Plugin ",
                                    plug.as_str(),
                                    " already enabled for project ",
                                    name.as_str(),
                                ),
                            )
                        } else {
                            let enabled = self.config.data.enable_plugin(
                                name.as_str(),
                                plug.as_str(),
                            );
                            proof {
                                assert(enabled == Some(true));
                                assert(self@.store.projects.len() == d0.store.projects.len());
                                assert(i < self.config.data.projects.len());
                            }
                            let project = &self.config.data.projects[i];
                            let dispatch = make_dispatch(
                                &self.plugin_manager,
                                Event::PluginEnable,
                                project,
                                plug,
                                params,
                            );
                            let mut dispatches: Vec<Dispatch> = Vec::new();
                            dispatches.push(dispatch);
                            let r = HandlerOutcome {
                                response: cat4(
                                    "Plugin ",
                                    plug.as_str(),
                                    " enabled for project ",
                                    name.as_str(),
                                ),
                                persist: true,
                                dispatches,
                            };
                            proof {
                                assert(r@.dispatches =~= seq![
                                    spec_dispatch(
                                        d0.plugins,
                                        Event::PluginEnable,
                                        self@.store.projects[i as int],
                                        plug@,
                                        params.deep_view(),
                                    ),
                                ]);
                            }
                            r
                        }
                    },
                },
            },
        }
    }

    /// Disables a plugin on the named project and dispatches the
    /// plugin-disable event to it.
    fn project_disable_plugin(&mut self, params: &Vec<(String, String)>) -> (r: HandlerOutcome)
        ensures
            final(self)@ == spec_project_disable_plugin(old(self)@, params.deep_view()).0,
            r@ == spec_project_disable_plugin(old(self)@, params.deep_view()).1,
            final(self).config.path@ == old(self).config.path@,
            old(self)@.wf() ==> final(self)@.wf(),
    {
        let ghost d0 = self@;
        match list_get(params, "project-name") {
            None => outcome_missing("project-name"),
            Some(name) => match list_get(params, "plugin") {
                None => outcome_missing("plugin"),
                Some(plug) => match self.config.data.find_project(name.as_str()) {
                    None => outcome_plain_string(cat3("Project ", name.as_str(), " not found")),
                    Some(i) => {
                        proof {
                            self@.store.names().index_of_first_ensures(name@);
                        }
                        if !self.config.data.projects[i].has_plugin(plug.as_str()) {
                            outcome_plain_string(
                                cat4(
                                    "Plugin ",
                                    plug.as_str(),
                                    " not enabled for project ",
                                    name.as_str(),
                                ),
                            )
                        } else {
                            let disabled = self.config.data.disable_plugin(
                                name.as_str(),
                                plug.as_str(),
                            );
                            proof {
                                assert(disabled == Some(true));
                                assert(self@.store.projects.len() == d0.store.projects.len());
                                assert(i < self.config.data.projects.len());
                            }
                            let project = &self.config.data.projects[i];
                            let dispatch = make_dispatch(
                                &self.plugin_manager,
                                Event::PluginDisable,
                                project,
                                plug,
                                params,
                            );
                            let mut dispatches: Vec<Dispatch> = Vec::new();
                            dispatches.push(dispatch);
                            let r = HandlerOutcome {
                                response: cat4(
                                    "Plugin ",
                                    plug.as_str(),
                                    " disabled for project ",
                                    name.as_str(),
                                ),
                                persist: true,
                                dispatches,
                            };
                            proof {
                                assert(r@.dispatches =~= seq![
                                    spec_dispatch(
                                        d0.plugins,
                                        Event::PluginDisable,
                                        self@.store.projects[i as int],
                                        plug@,
                                        params.deep_view(),
                                    ),
                                ]);
                            }
                            r
                        }
                    },
                },
            },
        }
    }

    /// Lists the project names.
    fn project_list(&mut self) -> (r: HandlerOutcome)
        ensures
            final(self)@ == spec_project_list(old(self)@).0,
            r@ == spec_project_list(old(self)@).1,
            final(self).config.path@ == old(self).config.path@,
            old(self)@.wf() ==> final(self)@.wf(),
    {
        let names = self.config.data.project_names();
        outcome_plain_string(join_strings(&names, ", "))
    }

    /// Handles the `project` subject: add, delete, inspect and list
    /// projects, their properties, and their idempotent plugin set.
    /// Enabling or disabling a plugin dispatches the corresponding
    /// lifecycle event to the named plugin only, after the mutation.
    pub fn handle_project(&mut self, command: &str, params: &Vec<(String, String)>) -> (r:
        HandlerOutcome)
        ensures
            final(self)@ == spec_handle_project(old(self)@, command@, params.deep_view()).0,
            r@ == spec_handle_project(old(self)@, command@, params.deep_view()).1,
            final(self).config.path@ == old(self).config.path@,
            old(self)@.wf() ==> final(self)@.wf(),
    {
        if str_is(command, "add") {
            self.project_add(params)
        } else if str_is(command, "del") {
            self.project_del(params)
        } else if str_is(command, "info") {
            self.project_info(params)
        } else if str_is(command, "set-property") {
            self.project_set_property(params)
        } else if str_is(command, "get-property") {
            self.project_get_property(params)
        } else if str_is(command, "del-property") {
            self.project_del_property(params)
        } else if str_is(command, "enable-plugin") {
            self.project_enable_plugin(params)
        } else if str_is(command, "disable-plugin") {
            self.project_disable_plugin(params)
        } else if str_is(command, "list") {
            self.project_list()
        } else {
            outcome_plain("Unknown command")
        }
    }
}

} // verus!
