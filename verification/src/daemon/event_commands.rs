//! The `event` subject: triggering a lifecycle event fans it out to
//! every plugin enabled on every project, in project listing order and
//! then plugin list order; `list` enumerates the closed event set.

use vstd::prelude::*;
use crate::config::{Config, ProjectView};
use crate::daemon::{Daemon, DaemonView, DispatchV, Dispatch, HandlerOutcome, OutcomeV, plain,
    unknown_outcome, outcome_plain, outcome_plain_string};
use crate::event::Event;
use crate::plugin::{Plugin, PluginFactory, PluginHandle, spec_plugin_idx};
use crate::props::{PropsV, spec_lookup, list_get};
use crate::strutil::{str_is, spec_join, join_strings};

verus! {

/// The dispatch of `e` on `p` to the plugin named `pl`: its plan is the
/// registered plugin's, or None when no plugin bears that name.
pub open spec fn spec_dispatch(
    plugins: Seq<PluginHandle>,
    e: Event,
    p: ProjectView,
    pl: Seq<char>,
    params: PropsV,
) -> DispatchV {
    DispatchV {
        event: e,
        project: p.name,
        plugin: pl,
        plan: match spec_plugin_idx(plugins, pl) {
            Some(i) => Some(plugins[i].spec_plan(e, p, params)),
            None => None,
        },
    }
}

/// The dispatches of `e` on one project: one per enabled plugin, in
/// the project's plugin list order.
pub open spec fn spec_project_dispatches(
    plugins: Seq<PluginHandle>,
    p: ProjectView,
    e: Event,
    params: PropsV,
) -> Seq<DispatchV> {
    p.plugins.map_values(|pl: Seq<char>| spec_dispatch(plugins, e, p, pl, params))
}

/// The full fan-out of `e`: the projects' dispatches concatenated in
/// project listing order.
pub open spec fn spec_fan_out(
    plugins: Seq<PluginHandle>,
    projects: Seq<ProjectView>,
    e: Event,
    params: PropsV,
) -> Seq<DispatchV>
    decreases projects.len(),
{
    if projects.len() == 0 {
        Seq::empty()
    } else {
        spec_project_dispatches(plugins, projects[0], e, params) + spec_fan_out(
            plugins,
            projects.drop_first(),
            e,
            params,
        )
    }
}

/// Fanning out over one more project appends that project's
/// dispatches.
pub proof fn lemma_fan_out_push(
    plugins: Seq<PluginHandle>,
    projects: Seq<ProjectView>,
    p: ProjectView,
    e: Event,
    params: PropsV,
)
    ensures
        spec_fan_out(plugins, projects.push(p), e, params) == spec_fan_out(
            plugins,
            projects,
            e,
            params,
        ) + spec_project_dispatches(plugins, p, e, params),
    decreases projects.len(),
{
    if projects.len() == 0 {
        assert(projects.push(p).drop_first() =~= Seq::<ProjectView>::empty());
        assert(projects.push(p)[0] == p);
        assert(spec_fan_out(plugins, projects, e, params) + spec_project_dispatches(
            plugins,
            p,
            e,
            params,
        ) =~= spec_project_dispatches(plugins, p, e, params) + spec_fan_out(
            plugins,
            Seq::empty(),
            e,
            params,
        ));
    } else {
        lemma_fan_out_push(plugins, projects.drop_first(), p, e, params);
        assert(projects.push(p).drop_first() =~= projects.drop_first().push(p));
        assert(projects.push(p)[0] == projects[0]);
        assert((spec_project_dispatches(plugins, projects[0], e, params) + (spec_fan_out(
            plugins,
            projects.drop_first(),
            e,
            params,
        ) + spec_project_dispatches(plugins, p, e, params))) =~= (spec_project_dispatches(
            plugins,
            projects[0],
            e,
            params,
        ) + spec_fan_out(plugins, projects.drop_first(), e, params)) + spec_project_dispatches(
            plugins,
            p,
            e,
            params,
        ));
    }
}

/// Builds the dispatch of `e` on `project` to the plugin named `pl`.
pub(crate) fn make_dispatch(
    pm: &PluginFactory,
    e: Event,
    project: &crate::config::Project,
    pl: &String,
    params: &Vec<(String, String)>,
) -> (r: Dispatch)
    ensures
        r@ == spec_dispatch(pm@, e, project@, pl@, params.deep_view()),
{
    let plan = match pm.get_plugin(pl.as_str()) {
        Some(h) => Some(h.on_event(e, project, params)),
        None => None,
    };
    Dispatch { event: e, project: project.name.clone(), plugin: pl.clone(), plan }
}

/// Builds the full fan-out of `e` over the store, in project listing
/// order and then plugin list order.  The list is complete before any
/// dispatch is carried out, so one dispatch's failure cannot affect
/// which later dispatches happen.
pub fn fan_out(pm: &PluginFactory, store: &Config, e: Event, params: &Vec<(String, String)>) -> (r:
    Vec<Dispatch>)
    ensures
        r.deep_view() == spec_fan_out(pm@, store@.projects, e, params.deep_view()),
{
    let ghost plugins = pm@;
    let ghost projects = store@.projects;
    let ghost pv = params.deep_view();
    let mut out: Vec<Dispatch> = Vec::new();
    let n = store.projects.len();
    let mut i: usize = 0;
    proof {
        assert(projects.take(0) =~= Seq::<ProjectView>::empty());
        assert(out.deep_view() =~= spec_fan_out(plugins, projects.take(0), e, pv));
    }
    while i < n
        invariant
            i <= n,
            n == store.projects.len(),
            plugins == pm@,
            projects == store@.projects,
            pv == params.deep_view(),
            out.deep_view() == spec_fan_out(plugins, projects.take(i as int), e, pv),
        decreases n - i,
    {
        let project = &store.projects[i];
        let ghost pview = projects[i as int];
        let ghost pd = spec_project_dispatches(plugins, pview, e, pv);
        let m = project.plugins.len();
        let mut j: usize = 0;
        proof {
            assert(pd.take(0) =~= Seq::<DispatchV>::empty());
            assert(out.deep_view() =~= spec_fan_out(plugins, projects.take(i as int), e, pv)
                + pd.take(0));
        }
        while j < m
            invariant
                j <= m,
                i < n,
                n == store.projects.len(),
                m == project.plugins.len(),
                plugins == pm@,
                projects == store@.projects,
                pv == params.deep_view(),
                project@ == pview,
                pview == projects[i as int],
                pd == spec_project_dispatches(plugins, pview, e, pv),
                out.deep_view() == spec_fan_out(plugins, projects.take(i as int), e, pv) + pd.take(
                    j as int,
                ),
            decreases m - j,
        {
            let ghost prev = out.deep_view();
            let d = make_dispatch(pm, e, project, &project.plugins[j], params);
            out.push(d);
            proof {
                assert(project.plugins[j as int]@ == pview.plugins[j as int]);
                assert(pd[j as int] == spec_dispatch(plugins, e, pview, pview.plugins[j as int], pv));
                assert(out.deep_view() =~= prev.push(d@));
                assert(pd.take(j + 1) =~= pd.take(j as int).push(pd[j as int]));
                assert(out.deep_view() =~= spec_fan_out(plugins, projects.take(i as int), e, pv)
                    + pd.take(j + 1));
            }
            j = j + 1;
        }
        proof {
            assert(pd.take(m as int) =~= pd);
            assert(projects.take(i + 1) =~= projects.take(i as int).push(pview));
            lemma_fan_out_push(plugins, projects.take(i as int), pview, e, pv);
        }
        i = i + 1;
    }
    proof {
        assert(projects.take(n as int) =~= projects);
    }
    out
}

/// What the `event` subject yields.
pub open spec fn spec_handle_event(d: DaemonView, command: Seq<char>, params: PropsV) -> (
    DaemonView,
    OutcomeV,
) {
    if command == "trigger"@ {
        match spec_lookup(params, "event-name"@) {
            Some(name) => match Event::spec_from_name(name) {
                Some(e) => (
                    d,
                    OutcomeV {
                        response: "Event triggered"@,
                        persist: false,
                        dispatches: spec_fan_out(d.plugins, d.store.projects, e, params),
                    },
                ),
                None => (d, plain("Invalid event"@)),
            },
            None => (d, plain("Missing event name"@)),
        }
    } else if command == "list"@ {
        (d, plain(spec_join(Event::spec_all().map_values(|e: Event| e.spec_name()), ", "@)))
    } else {
        (d, unknown_outcome())
    }
}

impl Daemon {
    /// Handles the `event` subject.  `trigger` resolves the name
    /// against the closed enumeration (an unrecognized name is an
    /// "Invalid event" reply, never a fault) and fans the event out;
    /// `list` joins the event names.
    pub fn handle_event(&mut self, command: &str, params: &Vec<(String, String)>) -> (r:
        HandlerOutcome)
        ensures
            final(self)@ == spec_handle_event(old(self)@, command@, params.deep_view()).0,
            r@ == spec_handle_event(old(self)@, command@, params.deep_view()).1,
            final(self).config.path@ == old(self).config.path@,
            old(self)@.wf() ==> final(self)@.wf(),
    {
        if str_is(command, "trigger") {
            match list_get(params, "event-name") {
                Some(name) => match Event::from_name(name.as_str()) {
                    Some(e) => {
                        let dispatches = fan_out(&self.plugin_manager, &self.config.data, e, params);
                        HandlerOutcome {
                            response: "Event triggered".to_owned(),
                            persist: false,
                            dispatches,
                        }
                    },
                    None => outcome_plain("Invalid event"),
                },
                None => outcome_plain("Missing event name"),
            }
        } else if str_is(command, "list") {
            let events = Event::all();
            let mut names: Vec<String> = Vec::new();
            let ghost all_names = Event::spec_all().map_values(|e: Event| e.spec_name());
            let mut i: usize = 0;
            proof {
                assert(names.deep_view() =~= all_names.take(0));
            }
            while i < events.len()
                invariant
                    i <= events.len(),
                    events@ == Event::spec_all(),
                    all_names == Event::spec_all().map_values(|e: Event| e.spec_name()),
                    names.deep_view() =~= all_names.take(i as int),
                decreases events.len() - i,
            {
                let ghost prev = names.deep_view();
                let nm = events[i].name();
                names.push(nm);
                proof {
                    assert(names.deep_view() =~= prev.push(nm@));
                    assert(all_names[i as int] == events@[i as int].spec_name());
                    assert(all_names.take(i + 1) =~= all_names.take(i as int).push(
                        all_names[i as int],
                    ));
                }
                i = i + 1;
            }
            proof {
                assert(all_names.take(events@.len() as int) =~= all_names);
            }
            let joined = join_strings(&names, ", ");
            outcome_plain_string(joined)
        } else {
            outcome_plain("Unknown command")
        }
    }
}

} // verus!
