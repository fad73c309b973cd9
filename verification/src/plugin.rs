//! The plugin contract, the plugin registry, and the in-tree plugins.
//!
//! A plugin is polymorphic over four capabilities: a stable unique
//! name, an event handler, an advertised action list, and an action
//! entry point.  Plugins whose real work is running an external tool
//! return a plan describing that work; the surrounding process
//! performs it, so everything decided here is verified.

use vstd::prelude::*;
use crate::config::{Project, ProjectView};
use crate::event::Event;
use crate::props::PropsV;

pub mod tmux;
pub mod hyprland;

pub use tmux::TmuxPlugin;
pub use hyprland::HyprlandPlugin;

verus! {

/// The mathematical content of an event plan.
pub enum EventPlanV {
    CreateSessionIfMissing { session: Seq<char>, path: Option<Seq<char>> },
    KillSessionIfPresent { session: Seq<char> },
    QueryMonitors,
    Nothing,
}

/// What a plugin asks the surrounding process to do in response to a
/// lifecycle event.  The plan is data: the process that runs external
/// tools carries it out and reports failures without touching the
/// store.
pub enum EventPlan {
    /// Start a detached terminal-multiplexer session under this name,
    /// rooted at `path` when one is given, unless a session with the
    /// name is already running.
    CreateSessionIfMissing { session: String, path: Option<String> },
    /// Kill the terminal-multiplexer session under this name if one is
    /// running.
    KillSessionIfPresent { session: String },
    /// Ask the compositor for its monitor list.
    QueryMonitors,
    /// No work.
    Nothing,
}

impl View for EventPlan {
    type V = EventPlanV;

    open spec fn view(&self) -> EventPlanV {
        match self {
            EventPlan::CreateSessionIfMissing { session, path } => {
                EventPlanV::CreateSessionIfMissing {
                    session: session@,
                    path: match path {
                        Some(p) => Some(p@),
                        None => None,
                    },
                }
            },
            EventPlan::KillSessionIfPresent { session } => {
                EventPlanV::KillSessionIfPresent { session: session@ }
            },
            EventPlan::QueryMonitors => EventPlanV::QueryMonitors,
            EventPlan::Nothing => EventPlanV::Nothing,
        }
    }
}

/// The capability set of a plugin.  New plugins implement this trait;
/// each capability carries its contract, so the router's guarantees
/// hold of every implementation.
pub trait Plugin: Sized {
    /// The registry key.
    spec fn spec_name(&self) -> Seq<char>;

    /// The plan taken on `event` for `project` with `params`.
    spec fn spec_plan(&self, event: Event, project: ProjectView, params: PropsV) -> EventPlanV;

    /// The advertised action names, in order.
    spec fn spec_actions(&self) -> Seq<Seq<char>>;

    /// What running `action` yields: the action's result string, or an
    /// error string for an unknown action or an action-specific
    /// failure.
    spec fn spec_run(&self, action: Seq<char>, project: ProjectView, params: PropsV) -> Result<
        Seq<char>,
        Seq<char>,
    >;

    /// Returns the plugin's stable unique name.
    fn name(&self) -> (r: String)
        ensures
            r@ == self.spec_name(),
    ;

    /// Decides what to do for `event` on `project`; the caller performs
    /// the returned plan.
    fn on_event(&self, event: Event, project: &Project, params: &Vec<(String, String)>) -> (r:
        EventPlan)
        ensures
            r@ == self.spec_plan(event, project@, params.deep_view()),
    ;

    /// Returns the advertised action names.
    fn list_actions(&self) -> (r: Vec<String>)
        ensures
            r.deep_view() == self.spec_actions(),
    ;

    /// Runs the named action against `project`, yielding the action's
    /// own success or error string.
    fn run_action(&self, action: &str, project: &Project, params: &Vec<(String, String)>) -> (r:
        Result<String, String>)
        ensures
            match r {
                Ok(s) => self.spec_run(action@, project@, params.deep_view()) == Ok::<
                    Seq<char>,
                    Seq<char>,
                >(s@),
                Err(e) => self.spec_run(action@, project@, params.deep_view()) == Err::<
                    Seq<char>,
                    Seq<char>,
                >(e@),
            },
    ;
}

/// One registered plugin.  The registry holds the in-tree plugins as a
/// sealed union; the open extension point is the `Plugin` trait, which
/// every variant implements.
pub enum PluginHandle {
    Tmux(TmuxPlugin),
    Hyprland(HyprlandPlugin),
}

impl Plugin for PluginHandle {
    open spec fn spec_name(&self) -> Seq<char> {
        match self {
            PluginHandle::Tmux(p) => p.spec_name(),
            PluginHandle::Hyprland(p) => p.spec_name(),
        }
    }

    open spec fn spec_plan(&self, event: Event, project: ProjectView, params: PropsV) -> EventPlanV {
        match self {
            PluginHandle::Tmux(p) => p.spec_plan(event, project, params),
            PluginHandle::Hyprland(p) => p.spec_plan(event, project, params),
        }
    }

    open spec fn spec_actions(&self) -> Seq<Seq<char>> {
        match self {
            PluginHandle::Tmux(p) => p.spec_actions(),
            PluginHandle::Hyprland(p) => p.spec_actions(),
        }
    }

    open spec fn spec_run(&self, action: Seq<char>, project: ProjectView, params: PropsV) -> Result<
        Seq<char>,
        Seq<char>,
    > {
        match self {
            PluginHandle::Tmux(p) => p.spec_run(action, project, params),
            PluginHandle::Hyprland(p) => p.spec_run(action, project, params),
        }
    }

    fn name(&self) -> (r: String) {
        match self {
            PluginHandle::Tmux(p) => p.name(),
            PluginHandle::Hyprland(p) => p.name(),
        }
    }

    fn on_event(&self, event: Event, project: &Project, params: &Vec<(String, String)>) -> (r:
        EventPlan) {
        match self {
            PluginHandle::Tmux(p) => p.on_event(event, project, params),
            PluginHandle::Hyprland(p) => p.on_event(event, project, params),
        }
    }

    fn list_actions(&self) -> (r: Vec<String>) {
        match self {
            PluginHandle::Tmux(p) => p.list_actions(),
            PluginHandle::Hyprland(p) => p.list_actions(),
        }
    }

    fn run_action(&self, action: &str, project: &Project, params: &Vec<(String, String)>) -> (r:
        Result<String, String>) {
        match self {
            PluginHandle::Tmux(p) => p.run_action(action, project, params),
            PluginHandle::Hyprland(p) => p.run_action(action, project, params),
        }
    }
}

/// Index of the first registered plugin named `name`, if any.
pub open spec fn spec_plugin_idx(s: Seq<PluginHandle>, name: Seq<char>) -> Option<int>
    decreases s.len(),
{
    if s.len() == 0 {
        None
    } else if s[0].spec_name() == name {
        Some(0)
    } else {
        match spec_plugin_idx(s.drop_first(), name) {
            Some(i) => Some(i + 1),
            None => None,
        }
    }
}

/// What a found plugin index means: that name is there, and nowhere
/// earlier.
pub proof fn lemma_plugin_idx(s: Seq<PluginHandle>, name: Seq<char>)
    ensures
        match spec_plugin_idx(s, name) {
            Some(i) => 0 <= i < s.len() && s[i].spec_name() == name && forall|j: int|
                0 <= j < i ==> (#[trigger] s[j]).spec_name() != name,
            None => forall|j: int| 0 <= j < s.len() ==> (#[trigger] s[j]).spec_name() != name,
        },
    decreases s.len(),
{
    if s.len() > 0 && s[0].spec_name() != name {
        lemma_plugin_idx(s.drop_first(), name);
        match spec_plugin_idx(s.drop_first(), name) {
            Some(i) => {
                assert(s.drop_first()[i] == s[i + 1]);
                assert forall|j: int| 0 <= j < i + 1 implies (#[trigger] s[j]).spec_name()
                    != name by {
                    if j > 0 {
                        assert(s.drop_first()[j - 1] == s[j]);
                    }
                }
            },
            None => {
                assert forall|j: int| 0 <= j < s.len() implies (#[trigger] s[j]).spec_name()
                    != name by {
                    if j > 0 {
                        assert(s.drop_first()[j - 1] == s[j]);
                    }
                }
            },
        }
    }
}

/// An index holding the name, before which it does not occur, is the
/// one that the search finds.
pub proof fn lemma_plugin_idx_witness(s: Seq<PluginHandle>, name: Seq<char>, i: int)
    requires
        0 <= i < s.len(),
        s[i].spec_name() == name,
        forall|j: int| 0 <= j < i ==> (#[trigger] s[j]).spec_name() != name,
    ensures
        spec_plugin_idx(s, name) == Some(i),
    decreases s.len(),
{
    if i > 0 {
        assert forall|j: int| 0 <= j < i - 1 implies (#[trigger] s.drop_first()[j]).spec_name()
            != name by {
            assert(s.drop_first()[j] == s[j + 1]);
        }
        assert(s.drop_first()[i - 1] == s[i]);
        lemma_plugin_idx_witness(s.drop_first(), name, i - 1);
    }
}

/// The name-keyed collection of plugin instances.  Registration happens
/// once at startup; afterwards the registry is read-only, so sessions
/// may share it freely.  Registering a name twice replaces the earlier
/// instance in place: the last registration wins.
pub struct PluginFactory {
    pub plugins: Vec<PluginHandle>,
}

impl View for PluginFactory {
    type V = Seq<PluginHandle>;

    open spec fn view(&self) -> Seq<PluginHandle> {
        self.plugins@
    }
}

impl PluginFactory {
    /// Registered plugin names are pairwise distinct.
    pub open spec fn wf(self) -> bool {
        forall|i: int, j: int|
            0 <= i < j < self@.len() ==> (#[trigger] self@[i]).spec_name() != (
            #[trigger] self@[j]).spec_name()
    }

    /// An empty registry.
    pub fn new() -> (r: PluginFactory)
        ensures
            r@.len() == 0,
            r.wf(),
    {
        PluginFactory { plugins: Vec::new() }
    }

    /// Finds the slot of the registered plugin named `name`.
    fn plugin_slot(&self, name: &str) -> (r: Option<usize>)
        ensures
            match r {
                Some(i) => spec_plugin_idx(self@, name@) == Some(i as int) && i < self@.len()
                    && self@[i as int].spec_name() == name@,
                None => spec_plugin_idx(self@, name@) is None,
            },
    {
        let ghost s = self@;
        let n = self.plugins.len();
        let mut i: usize = 0;
        while i < n
            invariant
                n == self.plugins.len(),
                s == self@,
                i <= n,
                forall|j: int| 0 <= j < i ==> (#[trigger] s[j]).spec_name() != name@,
            decreases n - i,
        {
            let nm = self.plugins[i].name();
            if crate::strutil::str_is(nm.as_str(), name) {
                proof {
                    lemma_plugin_idx_witness(s, name@, i as int);
                }
                return Some(i);
            }
            i = i + 1;
        }
        proof {
            lemma_plugin_idx(s, name@);
        }
        None
    }

    /// Registers `plugin` under its own name.  A plugin already
    /// registered under that name is replaced in place; otherwise the
    /// plugin is appended.
    pub fn register_plugin(&mut self, plugin: PluginHandle)
        ensures
            match spec_plugin_idx(old(self)@, plugin.spec_name()) {
                Some(i) => final(self)@ == old(self)@.update(i, plugin),
                None => final(self)@ == old(self)@.push(plugin),
            },
            old(self).wf() ==> final(self).wf(),
    {
        let ghost s = self@;
        let name = plugin.name();
        proof {
            lemma_plugin_idx(s, name@);
        }
        match self.plugin_slot(name.as_str()) {
            Some(i) => {
                let slot = &mut self.plugins[i];
                *slot = plugin;
            },
            None => {
                self.plugins.push(plugin);
            },
        }
    }

    /// Resolves a plugin by name.
    pub fn get_plugin(&self, name: &str) -> (r: Option<&PluginHandle>)
        ensures
            match r {
                Some(p) => spec_plugin_idx(self@, name@) is Some && *p == self@[spec_plugin_idx(
                    self@,
                    name@,
                )->Some_0] && p.spec_name() == name@,
                None => spec_plugin_idx(self@, name@) is None,
            },
    {
        match self.plugin_slot(name) {
            Some(i) => Some(&self.plugins[i]),
            None => None,
        }
    }
}

} // verus!
