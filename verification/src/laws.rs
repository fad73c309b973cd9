//! System-level properties of the command handlers, stated over the
//! same specification functions that the handlers' contracts use.

use vstd::prelude::*;
use crate::config::ProjectView;
use crate::daemon::DaemonView;
use crate::daemon::project_commands::{spec_project_add, spec_project_enable_plugin,
    spec_project_set_property};
use crate::daemon::event_commands::{spec_dispatch, spec_project_dispatches, spec_fan_out};
use crate::event::Event;
use crate::plugin::PluginHandle;
use crate::props::{PropsV, spec_lookup, lemma_set_lookup};

verus! {

/// Uniqueness: `project add` with a name already present in the store
/// is rejected with the "already exists" reply, nothing is persisted,
/// and the store — in particular its project count — is unchanged.
pub proof fn lemma_add_existing_rejected(d: DaemonView, params: PropsV, name: Seq<char>)
    requires
        spec_lookup(params, "project-name"@) == Some(name),
        d.store.has_project(name),
    ensures
        spec_project_add(d, params).0 == d,
        spec_project_add(d, params).0.store.projects.len() == d.store.projects.len(),
        spec_project_add(d, params).1.response == "Project "@ + name + " already exists"@,
        !spec_project_add(d, params).1.persist,
{
}

/// Project names stay the same when one project's body is replaced
/// without renaming it.
proof fn lemma_names_after_update(d: DaemonView, i: int, p1: ProjectView)
    requires
        0 <= i < d.store.projects.len(),
        p1.name == d.store.projects[i].name,
    ensures
        d.store.with_projects(d.store.projects.update(i, p1)).names() == d.store.names(),
{
    let updated = d.store.with_projects(d.store.projects.update(i, p1));
    assert(updated.names() =~= d.store.names());
}

/// Idempotent enable: after enabling a plugin on a project, enabling it
/// again leaves the whole store unchanged — so the plugin set holds no
/// duplicate entry — reports "already enabled", and persists nothing.
pub proof fn lemma_enable_plugin_idempotent(
    d: DaemonView,
    params: PropsV,
    name: Seq<char>,
    plug: Seq<char>,
)
    requires
        spec_lookup(params, "project-name"@) == Some(name),
        spec_lookup(params, "plugin"@) == Some(plug),
        d.store.find(name) is Some,
    ensures
        ({
            let d1 = spec_project_enable_plugin(d, params).0;
            let second = spec_project_enable_plugin(d1, params);
            &&& second.0 == d1
            &&& second.1.response == "Plugin "@ + plug + " already enabled for project "@ + name
            &&& !second.1.persist
            &&& second.1.dispatches.len() == 0
        }),
{
    let i = d.store.find(name)->Some_0;
    d.store.names().index_of_first_ensures(name);
    let p0 = d.store.projects[i];
    if p0.plugins.contains(plug) {
        assert(spec_project_enable_plugin(d, params).0 == d);
    } else {
        let p1 = p0.with_plugins(p0.plugins.push(plug));
        let d1 = spec_project_enable_plugin(d, params).0;
        lemma_names_after_update(d, i, p1);
        assert(d1.store.find(name) == Some(i));
        assert(d1.store.projects[i] == p1);
        assert(p1.plugins.contains(plug)) by {
            assert(p1.plugins[p1.plugins.len() - 1] == plug);
        }
    }
}

/// Linearizability of property writes: requests are handled one at a
/// time under the store's exclusive lock, so two `set-property`
/// requests for the same project and key, with different values, apply
/// in some order; whichever order that is, the store afterwards holds
/// exactly the value submitted second — never a merged or dropped one.
pub proof fn lemma_set_property_linearized(
    d: DaemonView,
    params1: PropsV,
    params2: PropsV,
    name: Seq<char>,
    k: Seq<char>,
    v1: Seq<char>,
    v2: Seq<char>,
)
    requires
        spec_lookup(params1, "project-name"@) == Some(name),
        spec_lookup(params1, "property"@) == Some(k),
        spec_lookup(params1, "value"@) == Some(v1),
        spec_lookup(params2, "project-name"@) == Some(name),
        spec_lookup(params2, "property"@) == Some(k),
        spec_lookup(params2, "value"@) == Some(v2),
        d.store.find(name) is Some,
    ensures
        ({
            let d1 = spec_project_set_property(d, params1).0;
            let d2 = spec_project_set_property(d1, params2).0;
            &&& d2.store.find(name) == d.store.find(name)
            &&& spec_lookup(d2.store.projects[d.store.find(name)->Some_0].props, k) == Some(v2)
        }),
{
    let i = d.store.find(name)->Some_0;
    d.store.names().index_of_first_ensures(name);
    let p0 = d.store.projects[i];
    let props1 = crate::props::spec_set(p0.props, k, v1);
    let p1 = p0.with_props(props1);
    let d1 = spec_project_set_property(d, params1).0;
    lemma_names_after_update(d, i, p1);
    assert(d1.store.find(name) == Some(i));
    assert(d1.store.projects[i] == p1);
    let props2 = crate::props::spec_set(props1, k, v2);
    let p2 = p1.with_props(props2);
    let d2 = spec_project_set_property(d1, params2).0;
    lemma_names_after_update(d1, i, p2);
    assert(d2.store.find(name) == Some(i));
    assert(d2.store.projects[i] == p2);
    lemma_set_lookup(props1, k, v2, k);
}

/// Where project `i`'s dispatches begin in the fan-out: the total
/// plugin count of the projects before it.
pub open spec fn dispatch_offset(projects: Seq<ProjectView>, i: int) -> nat
    decreases i,
{
    if i <= 0 {
        0
    } else {
        dispatch_offset(projects, i - 1) + projects[i - 1].plugins.len()
    }
}

/// The offset into a list with its first project removed.
proof fn lemma_offset_drop(projects: Seq<ProjectView>, i: int)
    requires
        1 <= i <= projects.len(),
    ensures
        dispatch_offset(projects, i) == projects[0].plugins.len() + dispatch_offset(
            projects.drop_first(),
            i - 1,
        ),
    decreases i,
{
    let rest = projects.drop_first();
    if i == 1 {
        assert(dispatch_offset(projects, 1) == dispatch_offset(projects, 0)
            + projects[0].plugins.len());
        assert(dispatch_offset(rest, 0) == 0);
    } else {
        lemma_offset_drop(projects, i - 1);
        assert(rest[i - 2] == projects[i - 1]);
        assert(dispatch_offset(projects, i) == dispatch_offset(projects, i - 1) + projects[i
            - 1].plugins.len());
        assert(dispatch_offset(rest, i - 1) == dispatch_offset(rest, i - 2)
            + rest[i - 2].plugins.len());
    }
}

/// The offset grows with the index.
proof fn lemma_offset_mono(projects: Seq<ProjectView>, a: int, b: int)
    requires
        0 <= a <= b,
    ensures
        dispatch_offset(projects, a) <= dispatch_offset(projects, b),
    decreases b,
{
    if a < b {
        lemma_offset_mono(projects, a, b - 1);
    }
}

/// Event fan-out ordering: triggering an event yields one dispatch for
/// every plugin enabled on every project, in project listing order and
/// then plugin list order; the dispatch for plugin `j` of project `i`
/// sits exactly after all dispatches of earlier projects.  The list is
/// fixed before any dispatch runs, so one dispatch's failure cannot
/// change which later dispatches happen.
pub proof fn lemma_fan_out_ordering(
    plugins: Seq<PluginHandle>,
    projects: Seq<ProjectView>,
    e: Event,
    params: PropsV,
)
    ensures
        spec_fan_out(plugins, projects, e, params).len() == dispatch_offset(
            projects,
            projects.len() as int,
        ),
        forall|i: int, j: int|
            0 <= i < projects.len() && 0 <= j < projects[i].plugins.len() ==> spec_fan_out(
                plugins,
                projects,
                e,
                params,
            )[dispatch_offset(projects, i) + j] == spec_dispatch(
                plugins,
                e,
                projects[i],
                #[trigger] projects[i].plugins[j],
                params,
            ),
    decreases projects.len(),
{
    if projects.len() == 0 {
    } else {
        let rest = projects.drop_first();
        lemma_fan_out_ordering(plugins, rest, e, params);
        let head = spec_project_dispatches(plugins, projects[0], e, params);
        let tail = spec_fan_out(plugins, rest, e, params);
        lemma_offset_drop(projects, projects.len() as int);
        assert(spec_fan_out(plugins, projects, e, params).len() == dispatch_offset(
            projects,
            projects.len() as int,
        ));
        assert forall|i: int, j: int|
            0 <= i < projects.len() && 0 <= j < projects[i].plugins.len() implies spec_fan_out(
            plugins,
            projects,
            e,
            params,
        )[dispatch_offset(projects, i) + j] == spec_dispatch(
            plugins,
            e,
            projects[i],
            #[trigger] projects[i].plugins[j],
            params,
        ) by {
            if i == 0 {
                assert((head + tail)[j] == head[j]);
            } else {
                lemma_offset_drop(projects, i);
                assert(rest[i - 1] == projects[i]);
                assert(rest[i - 1].plugins[j] == projects[i].plugins[j]);
                assert(dispatch_offset(projects, i) + j == head.len() + (dispatch_offset(
                    rest,
                    i - 1,
                ) + j));
                assert(dispatch_offset(rest, i - 1) + j < tail.len()) by {
                    assert(dispatch_offset(rest, i) == dispatch_offset(rest, i - 1) + rest[i
                        - 1].plugins.len());
                    lemma_offset_mono(rest, i, rest.len() as int);
                }
                assert((head + tail)[head.len() + (dispatch_offset(rest, i - 1) + j)] == tail[
                    dispatch_offset(rest, i - 1) + j]);
            }
        }
    }
}

} // verus!
